//! The shell process as the prompt sees it: its state, what is written to
//! its input, and how the end of a command is told apart in its output.
//!
//! After each command the shell is made to print a marker,
//! `STX <exit status>;<working directory>;<uuid> ETX`, which closes the
//! command's output. The pipes, the fork and the wait for the process are
//! done by the caller, which hands their results to these functions.
use vstd::prelude::*;
use crate::utils::text::{string_push, string_chars};
use crate::utils::buffer::chars_to_string;

verus! {

/// The state of the shell process.
#[derive(Copy, Clone, PartialEq, Eq, Debug, Structural)]
pub enum ShellState {
    Idle,
    SubprocessRunning,
    Terminated,
    Unknown,
}

/// An error of the shell process.
#[derive(Copy, Clone, PartialEq, Eq, Debug, Structural)]
pub enum ShellError {
    CouldNotStartProcess,
    InvalidData,
    IoTimeout,
    ShellRunning,
    ShellTerminated,
    CouldNotKill,
    /// A pipe operation failed with this error number.
    PipeError(i32),
}

/// How nix describes an error number (`Errno`'s display).
pub uninterp spec fn errno_display(code: i32) -> Seq<char>;

/// nix's `Errno::from_raw` followed by its `Display`: the text that nix
/// gives the error number. The text is named, not stated.
#[verifier::external_body]
fn errno_text(code: i32) -> (s: String)
    ensures
        s@ == errno_display(code),
{
    format!("{}", nix::errno::Errno::from_raw(code))
}

/// The message of a shell error.
pub open spec fn shell_error_message(e: ShellError) -> Seq<char> {
    match e {
        ShellError::CouldNotStartProcess => "Could not start process"@,
        ShellError::InvalidData => "Invalid data from process"@,
        ShellError::IoTimeout => "I/O timeout"@,
        ShellError::ShellTerminated => "Shell has terminated"@,
        ShellError::ShellRunning => "Tried to clean shell up while still running"@,
        ShellError::CouldNotKill => "Could not send signal to shell process"@,
        ShellError::PipeError(code) => "Pipe error: "@ + errno_display(code),
    }
}

impl ShellError {
    /// The message of the error.
    pub fn to_string(&self) -> (s: String)
        ensures
            s@ == shell_error_message(*self),
    {
        match self {
            ShellError::CouldNotStartProcess => String::from_str("Could not start process"),
            ShellError::InvalidData => String::from_str("Invalid data from process"),
            ShellError::IoTimeout => String::from_str("I/O timeout"),
            ShellError::ShellTerminated => String::from_str("Shell has terminated"),
            ShellError::ShellRunning => String::from_str("Tried to clean shell up while still running"),
            ShellError::CouldNotKill => String::from_str("Could not send signal to shell process"),
            ShellError::PipeError(code) => {
                let mut s = String::from_str("Pipe error: ");
                let text = errno_text(*code);
                s.append(text.as_str());
                s
            },
        }
    }
}

/// The characters of a hyphenated uuid.
pub open spec fn is_uuid_char(c: char) -> bool {
    ('0' <= c && c <= '9') || ('a' <= c && c <= 'f') || c == '-'
}

/// uuid's `Uuid::new_v4`, written in its hyphenated form: 36 characters,
/// lowercase hexadecimal digits and hyphens. Which uuid comes out is chance.
#[verifier::external_body]
fn random_uuid() -> (s: String)
    ensures
        s@.len() == 36,
        forall|i: int| 0 <= i < s@.len() ==> is_uuid_char(#[trigger] s@[i]),
{
    uuid::Uuid::new_v4().hyphenated().to_string()
}

/// The command that makes the shell print the end-of-command marker.
pub open spec fn echo_command(uuid: Seq<char>) -> Seq<char> {
    "echo \""@ + seq!['\x02'] + "$?;`pwd`;"@ + uuid + seq!['\x03', '"']
}

/// What closes the marker: the uuid and ETX.
pub open spec fn terminator(uuid: Seq<char>) -> Seq<char> {
    uuid.push('\x03')
}

/// Whether `s` ends with `suffix`.
pub open spec fn ends_with(s: Seq<char>, suffix: Seq<char>) -> bool {
    suffix.len() <= s.len() && s.skip(s.len() - suffix.len()) == suffix
}

/// The index of the last `c` in `s`, or -1.
pub open spec fn last_index(s: Seq<char>, c: char) -> int
    decreases s.len(),
{
    if s.len() == 0 {
        -1
    } else if s.last() == c {
        s.len() - 1
    } else {
        last_index(s.drop_last(), c)
    }
}

/// The index of the first `c` in `s`, or -1.
pub open spec fn first_index(s: Seq<char>, c: char) -> int
    decreases s.len(),
{
    if s.len() == 0 {
        -1
    } else if first_index(s.drop_last(), c) >= 0 {
        first_index(s.drop_last(), c)
    } else if s.last() == c {
        s.len() - 1
    } else {
        -1
    }
}

/// The decimal value of a sequence of digits.
pub open spec fn digits_value(s: Seq<char>) -> nat
    decreases s.len(),
{
    if s.len() == 0 {
        0
    } else {
        digits_value(s.drop_last()) * 10 + ((s.last() as u32) - ('0' as u32)) as nat
    }
}

/// Whether every character of `s` is a decimal digit.
pub open spec fn all_digits(s: Seq<char>) -> bool {
    forall|i: int| 0 <= i < s.len() ==> '0' <= #[trigger] s[i] && s[i] <= '9'
}

/// std's reading of a text as a `u8`: an optional `+`, then at least one
/// decimal digit, of value at most 255.
pub open spec fn parsed_u8(s: Seq<char>) -> Option<u8> {
    let digits = if s.len() > 0 && s[0] == '+' { s.drop_first() } else { s };
    if digits.len() > 0 && all_digits(digits) && digits_value(digits) <= 255 {
        Some(digits_value(digits) as u8)
    } else {
        None
    }
}

/// The first `;`-separated field of `s`.
pub open spec fn first_field(s: Seq<char>) -> Seq<char> {
    if first_index(s, ';') >= 0 { s.take(first_index(s, ';')) } else { s }
}

/// What follows the first `;` of `s`, if there is one.
pub open spec fn after_field(s: Seq<char>) -> Option<Seq<char>> {
    if first_index(s, ';') >= 0 { Some(s.skip(first_index(s, ';') + 1)) } else { None }
}

/// The exit status in a marker's metadata: its first field as a `u8`, 255
/// where it is not one.
pub open spec fn metadata_status(metadata: Seq<char>) -> u8 {
    match parsed_u8(first_field(metadata)) {
        Some(v) => v,
        None => 255,
    }
}

/// The working directory in a marker's metadata: its second field, if it
/// has one.
pub open spec fn metadata_wrkdir(metadata: Seq<char>) -> Option<Seq<char>> {
    match after_field(metadata) {
        Some(rest) => Some(first_field(rest)),
        None => None,
    }
}

/// The output read before this one, and this one, as one text.
pub open spec fn checked_text(cache: Option<Seq<char>>, stdout: Seq<char>) -> Seq<char> {
    match cache {
        Some(c) => c + stdout,
        None => stdout,
    }
}

/// The length of the output kept from the last read.
pub open spec fn cache_len(cache: Option<Seq<char>>) -> int {
    match cache {
        Some(c) => c.len() as int,
        None => 0,
    }
}

/// Whether a read completes a command: the texts end with the marker's end.
pub open spec fn completes_command(cache: Option<Seq<char>>, stdout: Seq<char>, uuid: Seq<char>) -> bool {
    ends_with(checked_text(cache, stdout), terminator(uuid))
}

/// Whether a read can be split at its marker: where it completes a
/// command, the marker's STX lies in the text just read.
pub open spec fn splittable(cache: Option<Seq<char>>, stdout: Seq<char>, uuid: Seq<char>) -> bool {
    completes_command(cache, stdout, uuid) ==> last_index(checked_text(cache, stdout), '\x02') >= cache_len(cache)
}

/// The position of the marker's STX in the text just read.
pub open spec fn stx_in_stdout(cache: Option<Seq<char>>, stdout: Seq<char>) -> int {
    last_index(checked_text(cache, stdout), '\x02') - cache_len(cache)
}

/// The metadata of a completed command: what follows the marker's STX.
pub open spec fn marker_metadata(cache: Option<Seq<char>>, stdout: Seq<char>) -> Seq<char> {
    checked_text(cache, stdout).skip(last_index(checked_text(cache, stdout), '\x02') + 1)
}

/// `n`, or 256 where it is larger.
pub open spec fn capped(n: nat) -> nat {
    if n > 256 { 256 } else { n }
}

/// Reads a text as a `u8` as std does: an optional `+`, then decimal digits
/// of value at most 255.
pub fn parse_u8(s: &Vec<char>) -> (r: Option<u8>)
    ensures
        r == parsed_u8(s@),
{
    let start: usize = if s.len() > 0 && s[0] == '+' { 1 } else { 0 };
    let ghost digits = if s@.len() > 0 && s@[0] == '+' { s@.drop_first() } else { s@ };
    assert(digits =~= s@.skip(start as int));
    if start >= s.len() {
        return None;
    }
    let mut v: u32 = 0;
    let mut ok = true;
    let mut i: usize = start;
    while i < s.len()
        invariant
            start <= i <= s.len(),
            start < s.len(),
            digits == s@.skip(start as int),
            ok == all_digits(s@.subrange(start as int, i as int)),
            ok ==> v == capped(digits_value(s@.subrange(start as int, i as int))),
            v <= 256,
        decreases s.len() - i,
    {
        let c = s[i];
        let ghost pre = s@.subrange(start as int, i as int);
        assert(s@.subrange(start as int, i + 1) =~= pre.push(c));
        assert(pre.push(c).drop_last() =~= pre);
        if c < '0' || c > '9' {
            ok = false;
            assert(!all_digits(pre.push(c))) by {
                assert(pre.push(c)[pre.len() as int] == c);
            }
        } else {
            if ok {
                let d: u32 = (c as u32) - ('0' as u32);
                let nv: u32 = v * 10 + d;
                v = if nv > 256 { 256 } else { nv };
            }
            assert(all_digits(pre.push(c)) == all_digits(pre)) by {
                if all_digits(pre) {
                    assert forall|j: int| 0 <= j < pre.push(c).len() implies '0' <= #[trigger] pre.push(c)[j] && pre.push(c)[j] <= '9' by {
                        if j < pre.len() {
                            assert(pre.push(c)[j] == pre[j]);
                        }
                    }
                } else {
                    let j = choose|j: int| 0 <= j < pre.len() && !('0' <= #[trigger] pre[j] && pre[j] <= '9');
                    assert(pre.push(c)[j] == pre[j]);
                }
            }
        }
        i += 1;
    }
    assert(s@.subrange(start as int, s.len() as int) =~= digits);
    if ok && v <= 255 {
        Some(v as u8)
    } else {
        None
    }
}

/// If `c` occurs in the first `k` characters of `s`, its first occurrence
/// in `s` is the one there.
proof fn lemma_first_index_prefix(s: Seq<char>, k: int, c: char)
    requires
        0 <= k <= s.len(),
        first_index(s.take(k), c) >= 0,
    ensures
        first_index(s, c) == first_index(s.take(k), c),
    decreases s.len(),
{
    if k == s.len() {
        assert(s.take(k) =~= s);
    } else {
        assert(s.drop_last().take(k) =~= s.take(k));
        lemma_first_index_prefix(s.drop_last(), k, c);
    }
}

/// The index of the first `c` in `v`.
pub fn find_first(v: &Vec<char>, c: char) -> (r: Option<usize>)
    ensures
        match r {
            Some(k) => k < v@.len() && k as int == first_index(v@, c),
            None => first_index(v@, c) == -1,
        },
{
    let mut i: usize = 0;
    while i < v.len()
        invariant
            i <= v.len(),
            first_index(v@.take(i as int), c) == -1,
        decreases v.len() - i,
    {
        assert(v@.take(i + 1).drop_last() =~= v@.take(i as int));
        if v[i] == c {
            assert(first_index(v@.take(i + 1), c) == i);
            proof {
                lemma_first_index_prefix(v@, i + 1, c);
            }
            return Some(i);
        }
        i += 1;
    }
    assert(v@.take(v.len() as int) =~= v@);
    None
}

/// The index of the last `c` in `v`.
pub fn find_last(v: &Vec<char>, c: char) -> (r: Option<usize>)
    ensures
        match r {
            Some(k) => k < v@.len() && k as int == last_index(v@, c),
            None => last_index(v@, c) == -1,
        },
{
    let mut i: usize = v.len();
    assert(v@.take(i as int) =~= v@);
    while i > 0
        invariant
            i <= v.len(),
            last_index(v@, c) == last_index(v@.take(i as int), c),
        decreases i,
    {
        assert(v@.take(i as int).drop_last() =~= v@.take(i - 1));
        if v[i - 1] == c {
            return Some(i - 1);
        }
        i -= 1;
    }
    None
}

/// The characters of `v` from `from` to `to`.
pub fn sub_chars(v: &Vec<char>, from: usize, to: usize) -> (r: Vec<char>)
    requires
        from <= to <= v.len(),
    ensures
        r@ == v@.subrange(from as int, to as int),
{
    let mut r: Vec<char> = Vec::new();
    let mut i: usize = from;
    while i < to
        invariant
            from <= i <= to <= v.len(),
            r@ == v@.subrange(from as int, i as int),
        decreases to - i,
    {
        r.push(v[i]);
        assert(v@.subrange(from as int, i + 1) =~= v@.subrange(from as int, i as int).push(v@[i as int]));
        i += 1;
    }
    r
}

/// Whether `v` ends with `suffix`.
pub fn chars_end_with(v: &Vec<char>, suffix: &Vec<char>) -> (r: bool)
    ensures
        r == ends_with(v@, suffix@),
{
    if suffix.len() > v.len() {
        return false;
    }
    let base: usize = v.len() - suffix.len();
    let mut j: usize = 0;
    while j < suffix.len()
        invariant
            base == v.len() - suffix.len(),
            j <= suffix.len(),
            forall|k: int| 0 <= k < j ==> v@[base + k] == suffix@[k],
        decreases suffix.len() - j,
    {
        if v[base + j] != suffix[j] {
            assert(v@.skip(base as int)[j as int] != suffix@[j as int]);
            return false;
        }
        j += 1;
    }
    assert(v@.skip(base as int) =~= suffix@);
    true
}

/// The decimal digits of a `u8`, as the shell prints an exit status.
pub open spec fn decimal(n: u8) -> Seq<char> {
    let d0 = (('0' as u8) + n % 10) as char;
    let d1 = (('0' as u8) + (n / 10) % 10) as char;
    let d2 = (('0' as u8) + n / 100) as char;
    if n < 10 {
        seq![d0]
    } else if n < 100 {
        seq![d1, d0]
    } else {
        seq![d2, d1, d0]
    }
}

/// What the shell prints for the marker command: STX, the exit status, the
/// working directory and the uuid separated by `;`, and ETX.
pub open spec fn marker(status: u8, wrkdir: Seq<char>, uuid: Seq<char>) -> Seq<char> {
    seq!['\x02'] + decimal(status) + seq![';'] + wrkdir + seq![';'] + uuid + seq!['\x03']
}

/// Where `c` does not occur, it has no first occurrence.
proof fn lemma_first_index_absent(s: Seq<char>, c: char)
    requires
        forall|j: int| 0 <= j < s.len() ==> s[j] != c,
    ensures
        first_index(s, c) == -1,
    decreases s.len(),
{
    if s.len() > 0 {
        lemma_first_index_absent(s.drop_last(), c);
    }
}

/// The first occurrence of `c` is the one at `k` when none comes before.
proof fn lemma_first_index_at(s: Seq<char>, k: int, c: char)
    requires
        0 <= k < s.len(),
        s[k] == c,
        forall|j: int| 0 <= j < k ==> s[j] != c,
    ensures
        first_index(s, c) == k,
{
    lemma_first_index_absent(s.take(k), c);
    assert(s.take(k + 1).drop_last() =~= s.take(k));
    lemma_first_index_prefix(s, k + 1, c);
}

/// The last occurrence of `c` is the one at `k` when none comes after.
proof fn lemma_last_index_at(s: Seq<char>, k: int, c: char)
    requires
        0 <= k < s.len(),
        s[k] == c,
        forall|j: int| k < j < s.len() ==> s[j] != c,
    ensures
        last_index(s, c) == k,
    decreases s.len(),
{
    if k < s.len() - 1 {
        lemma_last_index_at(s.drop_last(), k, c);
    }
}

/// The digits of a `u8` read back as that `u8`.
proof fn lemma_decimal_parses(n: u8)
    ensures
        parsed_u8(decimal(n)) == Some(n),
        forall|j: int| 0 <= j < decimal(n).len() ==> '0' <= #[trigger] decimal(n)[j] && decimal(n)[j] <= '9',
{
    let d = decimal(n);
    assert(d.len() > 0 && d[0] != '+');
    assert(d.drop_last().drop_last().drop_last().len() == 0 || d.len() < 3);
    if n < 10 {
        assert(d.drop_last() =~= Seq::<char>::empty());
        assert(digits_value(d.drop_last()) == 0);
        assert((d.last() as u32) - ('0' as u32) == n % 10);
        assert(digits_value(d) == n);
    } else if n < 100 {
        assert(d.drop_last().drop_last() =~= Seq::<char>::empty());
        assert(digits_value(d.drop_last()) == digits_value(d.drop_last().drop_last()) * 10 + n / 10);
        assert((n / 10) * 10 + n % 10 == n) by (nonlinear_arith);
        assert(digits_value(d) == n);
    } else {
        let d2 = d.drop_last().drop_last();
        assert(d2.drop_last() =~= Seq::<char>::empty());
        assert(d2 =~= seq![d[0]]);
        assert(n / 100 < 3);
        assert((d[0] as u32) - ('0' as u32) == n / 100);
        assert(digits_value(d2.drop_last()) == 0);
        assert(d2.last() == d[0]);
        assert(digits_value(d2) == n / 100);
        assert(digits_value(d.drop_last()) == (n / 100) * 10 + (n / 10) % 10);
        assert(((n / 100) * 10 + (n / 10) % 10) * 10 + n % 10 == n) by (nonlinear_arith);
        assert(digits_value(d) == n);
    }
    assert(all_digits(d));
}

/// The marker after an output without STX: its STX is the last one, the text
/// ends with the terminator, and what follows the STX reads back as the
/// status and working directory.
#[verifier::spinoff_prover]
#[verifier::rlimit(40)]
proof fn lemma_marker_text(output: Seq<char>, status: u8, wrkdir: Seq<char>, uuid: Seq<char>)
    requires
        forall|j: int| 0 <= j < output.len() ==> output[j] != '\x02',
        forall|j: int| 0 <= j < wrkdir.len() ==> wrkdir[j] != ';' && wrkdir[j] != '\x02',
        forall|j: int| 0 <= j < uuid.len() ==> is_uuid_char(#[trigger] uuid[j]),
    ensures
        ({
            let text = output + marker(status, wrkdir, uuid);
            let k = output.len() as int;
            &&& text[k] == '\x02'
            &&& forall|j: int| k < j < text.len() ==> text[j] != '\x02'
            &&& ends_with(text, terminator(uuid))
            &&& text.take(k) == output
            &&& metadata_status(text.skip(k + 1)) == status
            &&& metadata_wrkdir(text.skip(k + 1)) == Some(wrkdir)
        }),
{
    let text = output + marker(status, wrkdir, uuid);
    let d = decimal(status);
    lemma_decimal_parses(status);
    let k = output.len() as int;
    assert(text.skip(text.len() - terminator(uuid).len()) =~= terminator(uuid));
    assert forall|j: int| k < j < text.len() implies text[j] != '\x02' by {
        let m = j - k;
        if m <= d.len() {
            assert(text[j] == d[m - 1]);
        } else if m == d.len() + 1 {
        } else if m <= d.len() + 1 + wrkdir.len() {
            assert(text[j] == wrkdir[m - d.len() - 2]);
        } else if m == d.len() + 2 + wrkdir.len() {
        } else if m < text.len() - k - 1 {
            assert(text[j] == uuid[m - d.len() - 3 - wrkdir.len()]);
        }
    }
    assert(text.take(k) =~= output);
    let metadata = text.skip(k + 1);
    assert(metadata =~= d + seq![';'] + wrkdir + seq![';'] + uuid + seq!['\x03']);
    assert forall|j: int| 0 <= j < d.len() implies metadata[j] != ';' by {
        assert(metadata[j] == d[j]);
    }
    lemma_first_index_at(metadata, d.len() as int, ';');
    assert(metadata.take(d.len() as int) =~= d);
    let rest = metadata.skip(d.len() as int + 1);
    assert(rest =~= wrkdir + seq![';'] + uuid + seq!['\x03']);
    assert forall|j: int| 0 <= j < wrkdir.len() implies rest[j] != ';' by {
        assert(rest[j] == wrkdir[j]);
    }
    lemma_first_index_at(rest, wrkdir.len() as int, ';');
    assert(rest.take(wrkdir.len() as int) =~= wrkdir);
}

/// What the shell prints for a command (an output without STX) followed by
/// the marker is split at the marker, whatever was read and kept before it
/// (output that came in pieces): the output comes back as it was, and the
/// exit status and working directory are those of the marker.
pub proof fn law_marker_splits_output(
    cache: Option<Seq<char>>,
    output: Seq<char>,
    status: u8,
    wrkdir: Seq<char>,
    uuid: Seq<char>,
)
    requires
        forall|j: int| 0 <= j < output.len() ==> output[j] != '\x02',
        forall|j: int| 0 <= j < wrkdir.len() ==> wrkdir[j] != ';' && wrkdir[j] != '\x02',
        forall|j: int| 0 <= j < uuid.len() ==> is_uuid_char(#[trigger] uuid[j]),
    ensures
        ({
            let text = output + marker(status, wrkdir, uuid);
            &&& completes_command(cache, text, uuid)
            &&& splittable(cache, text, uuid)
            &&& text.take(stx_in_stdout(cache, text)) == output
            &&& metadata_status(marker_metadata(cache, text)) == status
            &&& metadata_wrkdir(marker_metadata(cache, text)) == Some(wrkdir)
        }),
{
    let text = output + marker(status, wrkdir, uuid);
    lemma_marker_text(output, status, wrkdir, uuid);
    let pre = match cache {
        Some(p) => p,
        None => Seq::<char>::empty(),
    };
    let all = checked_text(cache, text);
    assert(all =~= pre + text);
    let c = pre.len() as int;
    assert(cache_len(cache) == c);
    let k = c + output.len();
    assert(all[k] == text[output.len() as int]);
    assert forall|j: int| k < j < all.len() implies all[j] != '\x02' by {
        assert(all[j] == text[j - c]);
    }
    lemma_last_index_at(all, k, '\x02');
    assert(all.skip(all.len() - terminator(uuid).len()) =~= text.skip(text.len() - terminator(uuid).len()));
    assert(all.skip(k + 1) =~= text.skip(output.len() as int + 1));
}

/// The shell process: its state, the exit status and working directory of
/// the last command, and what is needed to find the end of a command.
pub struct ShellProc {
    pub state: ShellState,
    pub exit_status: u8,
    pub pid: i32,
    pub wrkdir: String,
    /// The exit code of the shell process, once it has terminated.
    pub rc: u8,
    /// The uuid of the end-of-command marker.
    pub uuid: String,
    /// The output of the last read, while a command runs.
    pub stdout_cache: Option<String>,
}

/// The state, exit status and working directory after a completed command.
pub struct IdleModel {
    pub exit_status: u8,
    pub wrkdir: Seq<char>,
}

impl ShellProc {
    /// The exit code of the shell process, once it has terminated.
    pub open spec fn rc_of(&self) -> u8 {
        self.rc
    }

    /// The uuid of the end-of-command marker.
    pub open spec fn uuid_of(&self) -> Seq<char> {
        self.uuid@
    }

    /// The output kept from the last read, while a command runs.
    pub open spec fn cache_of(&self) -> Option<Seq<char>> {
        match self.stdout_cache {
            Some(s) => Some(s@),
            None => None,
        }
    }

    /// The uuid of the marker is 36 uuid characters.
    pub open spec fn uuid_wf(&self) -> bool {
        self.uuid_of().len() == 36 && forall|i: int| 0 <= i < self.uuid_of().len() ==> is_uuid_char(#[trigger] self.uuid_of()[i])
    }

    /// The process as it is once it has been started with process id `pid`
    /// in `wrkdir`: idle, with a fresh uuid for its marker.
    pub fn new(pid: i32, wrkdir: String) -> (p: ShellProc)
        ensures
            p.state == ShellState::Idle,
            p.exit_status == 0,
            p.pid == pid,
            p.wrkdir@ == wrkdir@,
            p.rc_of() == 255,
            p.cache_of() is None,
            p.uuid_wf(),
    {
        let uuid = random_uuid();
        ShellProc { state: ShellState::Idle, exit_status: 0, pid, wrkdir, rc: 255, uuid, stdout_cache: None }
    }

    /// The command written after each command line, so that the shell prints
    /// the end-of-command marker.
    pub fn echo_command(&self) -> (s: String)
        ensures
            s@ == echo_command(self.uuid_of()),
    {
        let mut s = String::from_str("echo \"");
        string_push(&mut s, '\x02');
        s.append("$?;`pwd`;");
        s.append(self.uuid.as_str());
        string_push(&mut s, '\x03');
        string_push(&mut s, '"');
        s
    }

    /// Records what waiting for the process found: `Some(rc)` once it has
    /// exited with `rc`, `None` while it runs. Returns the state.
    pub fn update_state(&mut self, exited: Option<u8>) -> (s: ShellState)
        ensures
            s == final(self).state,
            final(self).exit_status == old(self).exit_status,
            final(self).pid == old(self).pid,
            final(self).wrkdir == old(self).wrkdir,
            final(self).uuid_of() == old(self).uuid_of(),
            final(self).cache_of() == old(self).cache_of(),
            match exited {
                Some(rc) => final(self).state == ShellState::Terminated && final(self).rc_of() == rc,
                None => final(self).state == old(self).state && final(self).rc_of() == old(self).rc_of(),
            },
    {
        match exited {
            Some(rc) => {
                self.state = ShellState::Terminated;
                self.rc = rc;
            },
            None => {},
        }
        self.state
    }

    /// The exit code of a terminated shell; an error while it still runs.
    pub fn cleanup(&self) -> (r: Result<u8, ShellError>)
        ensures
            self.state == ShellState::Terminated ==> r == Ok::<u8, ShellError>(self.rc_of()),
            self.state != ShellState::Terminated ==> r == Err::<u8, ShellError>(ShellError::ShellRunning),
    {
        if self.state != ShellState::Terminated {
            Err(ShellError::ShellRunning)
        } else {
            Ok(self.rc)
        }
    }

    /// The text to write to the shell's input for `data`: refused once the
    /// shell has terminated; while it is idle, `data` starts a command, so
    /// the marker's command follows it and the shell is running.
    pub fn write(&mut self, data: String) -> (r: Result<String, ShellError>)
        ensures
            final(self).exit_status == old(self).exit_status,
            final(self).pid == old(self).pid,
            final(self).wrkdir == old(self).wrkdir,
            final(self).rc_of() == old(self).rc_of(),
            final(self).uuid_of() == old(self).uuid_of(),
            final(self).cache_of() == old(self).cache_of(),
            old(self).state == ShellState::Terminated ==> r == Err::<String, ShellError>(ShellError::ShellTerminated)
                && final(self).state == old(self).state,
            old(self).state == ShellState::Idle ==> r is Ok
                && r->Ok_0@ == data@ + echo_command(old(self).uuid_of())
                && final(self).state == ShellState::SubprocessRunning,
            old(self).state != ShellState::Terminated && old(self).state != ShellState::Idle ==> r is Ok
                && r->Ok_0@ == data@ && final(self).state == old(self).state,
    {
        if self.state == ShellState::Terminated {
            return Err(ShellError::ShellTerminated);
        }
        let mut data = data;
        if self.state == ShellState::Idle {
            let echo = self.echo_command();
            data.append(echo.as_str());
            self.set_state_running();
        }
        Ok(data)
    }

    /// A command has started.
    pub fn set_state_running(&mut self)
        ensures
            final(self).state == ShellState::SubprocessRunning,
            final(self).exit_status == old(self).exit_status,
            final(self).pid == old(self).pid,
            final(self).wrkdir == old(self).wrkdir,
            final(self).rc_of() == old(self).rc_of(),
            final(self).uuid_of() == old(self).uuid_of(),
            final(self).cache_of() == old(self).cache_of(),
    {
        self.state = ShellState::SubprocessRunning;
    }
}


impl ShellProc {
    /// A command has ended, with this marker metadata: the exit status is
    /// its first field (255 where that is no `u8`), the working directory
    /// its second, if it has one, and the shell is idle.
    pub fn set_state_idle(&mut self, metadata: &Vec<char>)
        ensures
            final(self).state == ShellState::Idle,
            final(self).exit_status == metadata_status(metadata@),
            final(self).wrkdir@ == match metadata_wrkdir(metadata@) {
                Some(w) => w,
                None => old(self).wrkdir@,
            },
            final(self).pid == old(self).pid,
            final(self).rc_of() == old(self).rc_of(),
            final(self).uuid_of() == old(self).uuid_of(),
            final(self).cache_of() == old(self).cache_of(),
    {
        let token0: Vec<char>;
        match find_first(metadata, ';') {
            None => {
                token0 = sub_chars(metadata, 0, metadata.len());
                assert(metadata@.subrange(0, metadata@.len() as int) =~= metadata@);
            },
            Some(k) => {
                assert(k < metadata.len());
                token0 = sub_chars(metadata, 0, k);
                let rest = sub_chars(metadata, k + 1, metadata.len());
                assert(rest@ =~= metadata@.skip(k + 1));
                let token1 = match find_first(&rest, ';') {
                    None => {
                        assert(rest@.subrange(0, rest@.len() as int) =~= rest@);
                        sub_chars(&rest, 0, rest.len())
                    },
                    Some(k2) => sub_chars(&rest, 0, k2),
                };
                self.wrkdir = chars_to_string(&token1);
            },
        }
        self.exit_status = match parse_u8(&token0) {
            Some(v) => v,
            None => 255,
        };
        self.state = ShellState::Idle;
    }

    /// Whether a read of `stdout` can be split at its marker: where it
    /// completes a command, the marker's STX lies in `stdout`.
    pub fn splittable_read(&self, stdout: &String) -> (r: bool)
        ensures
            r == splittable(self.cache_of(), stdout@, self.uuid_of()),
    {
        let (check, _out, cache_n) = self.checked_chars(stdout);
        let mut term = string_chars(self.uuid.as_str());
        term.push('\x03');
        if chars_end_with(&check, &term) {
            match find_last(&check, '\x02') {
                Some(k) => k >= cache_n,
                None => false,
            }
        } else {
            true
        }
    }

    /// The output kept from the last read followed by `stdout`, the
    /// characters of `stdout`, and the length of what was kept.
    fn checked_chars(&self, stdout: &String) -> (r: (Vec<char>, Vec<char>, usize))
        ensures
            r.0@ == checked_text(self.cache_of(), stdout@),
            r.1@ == stdout@,
            r.2 as int == cache_len(self.cache_of()),
    {
        let out = string_chars(stdout.as_str());
        let mut check: Vec<char> = match &self.stdout_cache {
            Some(c) => string_chars(c.as_str()),
            None => Vec::new(),
        };
        let cache_n = check.len();
        let ghost start = check@;
        let mut i: usize = 0;
        while i < out.len()
            invariant
                i <= out.len(),
                check@ == start + out@.take(i as int),
            decreases out.len() - i,
        {
            check.push(out[i]);
            assert(out@.take(i + 1) =~= out@.take(i as int).push(out@[i as int]));
            i += 1;
        }
        assert(out@.take(out.len() as int) =~= out@);
        proof {
            if self.stdout_cache is None {
                assert(start + out@ =~= out@);
            }
        }
        (check, out, cache_n)
    }

    /// What a read of the shell's output gives: where it completes a
    /// command, the output before the marker, and the command's exit status
    /// and working directory are taken from the marker; otherwise the output
    /// as it is, kept to be read again with the next one.
    pub fn parse_stdout(&mut self, stdout: Option<String>) -> (r: Option<String>)
        requires
            stdout is Some ==> splittable(old(self).cache_of(), stdout->Some_0@, old(self).uuid_of()),
        ensures
            final(self).pid == old(self).pid,
            final(self).rc_of() == old(self).rc_of(),
            final(self).uuid_of() == old(self).uuid_of(),
            match stdout {
                None => r is None && *final(self) == *old(self),
                Some(out) => r is Some && if completes_command(old(self).cache_of(), out@, old(self).uuid_of()) {
                    let metadata = marker_metadata(old(self).cache_of(), out@);
                    &&& r->Some_0@ == out@.take(stx_in_stdout(old(self).cache_of(), out@))
                    &&& final(self).cache_of() is None
                    &&& final(self).state == ShellState::Idle
                    &&& final(self).exit_status == metadata_status(metadata)
                    &&& final(self).wrkdir@ == match metadata_wrkdir(metadata) {
                        Some(w) => w,
                        None => old(self).wrkdir@,
                    }
                } else {
                    &&& r->Some_0@ == out@
                    &&& final(self).cache_of() == Some(out@)
                    &&& final(self).state == old(self).state
                    &&& final(self).exit_status == old(self).exit_status
                    &&& final(self).wrkdir == old(self).wrkdir
                },
            },
    {
        match stdout {
            None => None,
            Some(out) => {
                let (check, out_chars, cache_n) = self.checked_chars(&out);
                let mut term = string_chars(self.uuid.as_str());
                term.push('\x03');
                if chars_end_with(&check, &term) {
                    match find_last(&check, '\x02') {
                        Some(k) => {
                            let metadata = sub_chars(&check, k + 1, check.len());
                            assert(metadata@ =~= check@.skip(k + 1));
                            let output = sub_chars(&out_chars, 0, k - cache_n);
                            assert(output@ =~= out@.take(k - cache_n));
                            self.set_state_idle(&metadata);
                            self.stdout_cache = None;
                            Some(chars_to_string(&output))
                        },
                        None => {
                            // the marker's STX is in the text, as `splittable` holds
                            None
                        },
                    }
                } else {
                    self.stdout_cache = Some(out.clone());
                    Some(out)
                }
            },
        }
    }
}

} // verus!
