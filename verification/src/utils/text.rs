//! Character-level string helpers shared by the translators, the prompt and
//! the configuration parser.
use vstd::prelude::*;

verus! {

/// Appends `c` to `s` (std's `String::push`).
#[verifier::external_body]
pub(crate) fn string_push(s: &mut String, c: char)
    ensures
        final(s)@ == old(s)@.push(c),
{
    s.push(c);
}

/// The characters of `s`, in order (std's `str::chars`, collected).
pub fn string_chars(s: &str) -> (v: Vec<char>)
    ensures
        v@ == s@,
{
    let mut v: Vec<char> = Vec::new();
    for c in it: s.chars()
        invariant
            v@ == it.seq().take(it.index() as int),
    {
        v.push(c);
    }
    v
}

} // verus!

verus! {

/// `s` with every non-overlapping occurrence of `pat`, taken from the left,
/// replaced by `with`; an empty `pat` matches before every character and at
/// the end.
pub open spec fn replaced(s: Seq<char>, pat: Seq<char>, with: Seq<char>) -> Seq<char>
    decreases s.len(),
{
    if pat.len() == 0 {
        if s.len() == 0 {
            with
        } else {
            with + seq![s[0]] + replaced(s.skip(1), pat, with)
        }
    } else if s.len() < pat.len() {
        s
    } else if s.take(pat.len() as int) == pat {
        with + replaced(s.skip(pat.len() as int), pat, with)
    } else {
        seq![s[0]] + replaced(s.skip(1), pat, with)
    }
}

/// Whether `pat` occurs in `s` starting at index `i`.
pub open spec fn occurs_at(s: Seq<char>, pat: Seq<char>, i: int) -> bool {
    0 <= i && i + pat.len() <= s.len() && s.subrange(i, i + pat.len()) == pat
}

/// Whether `pat` occurs anywhere in `s`.
pub open spec fn contains_seq(s: Seq<char>, pat: Seq<char>) -> bool {
    exists|i: int| occurs_at(s, pat, i)
}

/// Whether `v` holds `pat` at index `i`.
pub fn matches_at(v: &Vec<char>, pat: &Vec<char>, i: usize) -> (r: bool)
    ensures
        r == occurs_at(v@, pat@, i as int),
{
    if i > v.len() || pat.len() > v.len() - i {
        return false;
    }
    let mut j: usize = 0;
    while j < pat.len()
        invariant
            j <= pat.len(),
            i + pat.len() <= v.len(),
            forall|k: int| 0 <= k < j ==> v@[i + k] == pat@[k],
        decreases pat.len() - j,
    {
        if v[i + j] != pat[j] {
            assert(v@.subrange(i as int, i + pat.len())[j as int] != pat@[j as int]);
            return false;
        }
        j += 1;
    }
    assert(v@.subrange(i as int, i + pat.len()) =~= pat@);
    true
}

/// Whether `pat` occurs in `s`.
pub fn str_contains(s: &str, pat: &str) -> (r: bool)
    ensures
        r == contains_seq(s@, pat@),
{
    let v = string_chars(s);
    let p = string_chars(pat);
    let mut i: usize = 0;
    while i < v.len()
        invariant
            i <= v.len(),
            v@ == s@,
            p@ == pat@,
            forall|k: int| 0 <= k < i ==> !occurs_at(v@, p@, k),
        decreases v.len() - i,
    {
        if matches_at(&v, &p, i) {
            return true;
        }
        i += 1;
    }
    if matches_at(&v, &p, v.len()) {
        return true;
    }
    assert forall|k: int| !occurs_at(v@, p@, k) by {
        if occurs_at(v@, p@, k) {
            assert(k <= v@.len());
        }
    }
    false
}

/// Appends every character of `v` from index `from` on to `out`.
pub fn push_all_from(out: &mut String, v: &Vec<char>, from: usize)
    requires
        from <= v.len(),
    ensures
        final(out)@ == old(out)@ + v@.skip(from as int),
{
    let mut i = from;
    while i < v.len()
        invariant
            from <= i <= v.len(),
            out@ == old(out)@ + v@.subrange(from as int, i as int),
        decreases v.len() - i,
    {
        string_push(out, v[i]);
        assert(v@.subrange(from as int, i + 1) =~= v@.subrange(from as int, i as int).push(v@[i as int]));
        i += 1;
    }
    assert(v@.subrange(from as int, v.len() as int) =~= v@.skip(from as int));
}

proof fn lemma_replaced_short(s: Seq<char>, pat: Seq<char>, with: Seq<char>)
    requires
        pat.len() > 0,
        s.len() < pat.len(),
    ensures
        replaced(s, pat, with) == s,
{
}

/// `s` with every occurrence of `pat` replaced by `with` (std's `str::replace`).
pub fn replace_all(s: &str, pat: &str, with: &str) -> (r: String)
    ensures
        r@ == replaced(s@, pat@, with@),
{
    let v = string_chars(s);
    let p = string_chars(pat);
    let mut out = String::new();
    let mut i: usize = 0;
    assert(v@.skip(0) =~= v@);
    assert(out@ + replaced(v@, p@, with@) =~= replaced(v@, p@, with@));
    while i < v.len()
        invariant
            i <= v.len(),
            v@ == s@,
            p@ == pat@,
            out@ + replaced(v@.skip(i as int), p@, with@) == replaced(s@, pat@, with@),
        decreases v.len() - i,
    {
        let ghost rest = v@.skip(i as int);
        let ghost old_out = out@;
        if p.len() == 0 {
            out.append(with);
            string_push(&mut out, v[i]);
            assert(rest.skip(1) =~= v@.skip(i + 1));
            assert(out@ + replaced(v@.skip(i + 1), p@, with@) =~= old_out + replaced(rest, p@, with@));
            i += 1;
        } else if matches_at(&v, &p, i) {
            assert(rest.take(p@.len() as int) =~= v@.subrange(i as int, i + p@.len()));
            out.append(with);
            assert(rest.skip(p@.len() as int) =~= v@.skip(i + p.len()));
            assert(out@ + replaced(v@.skip(i + p.len()), p@, with@) =~= old_out + replaced(rest, p@, with@));
            i += p.len();
        } else {
            string_push(&mut out, v[i]);
            assert(rest.skip(1) =~= v@.skip(i + 1));
            proof {
                if rest.len() < p@.len() {
                    lemma_replaced_short(rest, p@, with@);
                    lemma_replaced_short(rest.skip(1), p@, with@);
                    assert(rest =~= seq![rest[0]] + rest.skip(1));
                } else {
                    assert(rest.take(p@.len() as int) =~= v@.subrange(i as int, i + p@.len()));
                }
            }
            assert(out@ + replaced(v@.skip(i + 1), p@, with@) =~= old_out + replaced(rest, p@, with@));
            i += 1;
        }
    }
    if p.len() == 0 {
        let ghost old_out = out@;
        out.append(with);
        assert(v@.skip(i as int) =~= Seq::<char>::empty());
    } else {
        assert(v@.skip(i as int) =~= Seq::<char>::empty());
    }
    out
}

/// The text of each match of `pattern` in `text`, from the left, as the regex
/// engine finds them; `None` where `pattern` is not a valid regular expression.
pub uninterp spec fn regex_find_all(pattern: Seq<char>, text: Seq<char>) -> Option<Seq<Seq<char>>>;

/// Compiles `pattern` with `regex::Regex::new` and lists, in order, the text
/// of every match that `Regex::find_iter` yields over `text`; `None` where
/// `Regex::new` refuses the pattern. The result is named `regex_find_all`.
#[verifier::external_body]
pub(crate) fn find_all_matches(pattern: &str, text: &str) -> (r: Option<Vec<String>>)
    ensures
        match r {
            Some(v) => regex_find_all(pattern@, text@) == Some(v@.map_values(|m: String| m@)),
            None => regex_find_all(pattern@, text@) is None,
        },
{
    match regex::Regex::new(pattern) {
        Ok(re) => Some(re.find_iter(text).map(|m| m.as_str().to_string()).collect()),
        Err(_) => None,
    }
}

} // verus!

verus! {

/// Whether `c` has the Unicode `White_Space` property (as `char::is_whitespace`).
pub open spec fn is_white_space(c: char) -> bool {
    let u = c as u32;
    ||| 0x09 <= u <= 0x0D
    ||| u == 0x20
    ||| u == 0x85
    ||| u == 0xA0
    ||| u == 0x1680
    ||| 0x2000 <= u <= 0x200A
    ||| u == 0x2028
    ||| u == 0x2029
    ||| u == 0x202F
    ||| u == 0x205F
    ||| u == 0x3000
}

/// Whether `c` is white space.
pub fn char_is_white_space(c: char) -> (r: bool)
    ensures
        r == is_white_space(c),
{
    let u = c as u32;
    (0x09 <= u && u <= 0x0D) || u == 0x20 || u == 0x85 || u == 0xA0 || u == 0x1680 || (0x2000 <= u && u
        <= 0x200A) || u == 0x2028 || u == 0x2029 || u == 0x202F || u == 0x205F || u == 0x3000
}

/// `s` without its leading white space.
pub open spec fn trim_start(s: Seq<char>) -> Seq<char>
    decreases s.len(),
{
    if s.len() > 0 && is_white_space(s[0]) {
        trim_start(s.skip(1))
    } else {
        s
    }
}

/// `s` without its trailing white space.
pub open spec fn trim_end(s: Seq<char>) -> Seq<char>
    decreases s.len(),
{
    if s.len() > 0 && is_white_space(s.last()) {
        trim_end(s.drop_last())
    } else {
        s
    }
}

/// `s` without leading and trailing white space (as `str::trim`).
pub open spec fn trimmed(s: Seq<char>) -> Seq<char> {
    trim_end(trim_start(s))
}

/// `s` without leading and trailing white space.
pub fn trim(s: &str) -> (r: String)
    ensures
        r@ == trimmed(s@),
{
    let v = string_chars(s);
    let mut start: usize = 0;
    assert(v@.skip(0) =~= v@);
    while start < v.len() && char_is_white_space(v[start])
        invariant
            start <= v.len(),
            v@ == s@,
            trim_start(v@.skip(start as int)) == trim_start(s@),
        decreases v.len() - start,
    {
        assert(v@.skip(start as int).skip(1) =~= v@.skip(start + 1));
        start += 1;
    }
    let mut end: usize = v.len();
    assert(v@.subrange(start as int, end as int) =~= trim_start(s@));
    while end > start && char_is_white_space(v[end - 1])
        invariant
            start <= end <= v.len(),
            v@ == s@,
            trim_end(v@.subrange(start as int, end as int)) == trimmed(s@),
        decreases end,
    {
        assert(v@.subrange(start as int, end as int).drop_last() =~= v@.subrange(start as int, end - 1));
        end -= 1;
    }
    let mut out = String::new();
    let mut i = start;
    while i < end
        invariant
            start <= i <= end <= v.len(),
            out@ == v@.subrange(start as int, i as int),
        decreases end - i,
    {
        string_push(&mut out, v[i]);
        assert(v@.subrange(start as int, i + 1) =~= v@.subrange(start as int, i as int).push(v@[i as int]));
        i += 1;
    }
    out
}

/// Whether `s` starts with `prefix`.
pub open spec fn starts_with(s: Seq<char>, prefix: Seq<char>) -> bool {
    prefix.len() <= s.len() && s.take(prefix.len() as int) == prefix
}

/// Whether `s` starts with `prefix`.
pub fn str_starts_with(s: &str, prefix: &str) -> (r: bool)
    ensures
        r == starts_with(s@, prefix@),
{
    let v = string_chars(s);
    let p = string_chars(prefix);
    let r = matches_at(&v, &p, 0);
    proof {
        if p@.len() <= v@.len() {
            assert(v@.subrange(0, p@.len() as int) =~= v@.take(p@.len() as int));
        }
    }
    r
}

} // verus!

verus! {

/// The words of `s` after the characters already read: `cur` is the word
/// being read and `acc` the words finished before it. Words are the maximal
/// runs of characters that are not white space (as `str::split_whitespace`).
pub open spec fn words_from(s: Seq<char>, cur: Seq<char>, acc: Seq<Seq<char>>) -> Seq<Seq<char>>
    decreases s.len(),
{
    let finished = if cur.len() > 0 { acc.push(cur) } else { acc };
    if s.len() == 0 {
        finished
    } else if is_white_space(s[0]) {
        words_from(s.skip(1), Seq::empty(), finished)
    } else {
        words_from(s.skip(1), cur.push(s[0]), acc)
    }
}

/// The words of `s`, in order.
pub open spec fn words(s: Seq<char>) -> Seq<Seq<char>> {
    words_from(s, Seq::empty(), Seq::empty())
}

/// The words of `s`, separated by single spaces.
pub open spec fn joined(ws: Seq<Seq<char>>) -> Seq<char>
    decreases ws.len(),
{
    if ws.len() == 0 {
        Seq::empty()
    } else if ws.len() == 1 {
        ws[0]
    } else {
        joined(ws.drop_last()) + seq![' '] + ws.last()
    }
}

/// The words of `v` (as `str::split_whitespace`).
pub fn split_whitespace(v: &Vec<char>) -> (r: Vec<String>)
    ensures
        r@.map_values(|w: String| w@) == words(v@),
{
    let mut acc: Vec<String> = Vec::new();
    let mut cur = String::new();
    let mut i: usize = 0;
    assert(v@.skip(0) =~= v@);
    assert(acc@.map_values(|w: String| w@) =~= Seq::<Seq<char>>::empty());
    while i < v.len()
        invariant
            i <= v.len(),
            words_from(v@.skip(i as int), cur@, acc@.map_values(|w: String| w@)) == words(v@),
        decreases v.len() - i,
    {
        let ghost rest = v@.skip(i as int);
        assert(rest.skip(1) =~= v@.skip(i + 1));
        assert(rest[0] == v@[i as int]);
        if char_is_white_space(v[i]) {
            if !cur.as_str().is_empty() {
                let ghost before = acc@.map_values(|w: String| w@);
                let word = cur;
                cur = String::new();
                acc.push(word);
                assert(acc@.map_values(|w: String| w@) =~= before.push(word@));
            } else {
                cur = String::new();
            }
        } else {
            string_push(&mut cur, v[i]);
        }
        i += 1;
    }
    if !cur.as_str().is_empty() {
        let ghost before = acc@.map_values(|w: String| w@);
        let word = cur;
        acc.push(word);
        assert(acc@.map_values(|w: String| w@) =~= before.push(word@));
    }
    acc
}

/// The strings of `ws` separated by single spaces (as `join(" ")`).
pub fn join_words(ws: &Vec<String>) -> (r: String)
    ensures
        r@ == joined(ws@.map_values(|w: String| w@)),
{
    let ghost all = ws@.map_values(|w: String| w@);
    let mut r = String::new();
    let mut i: usize = 0;
    while i < ws.len()
        invariant
            i <= ws.len(),
            all == ws@.map_values(|w: String| w@),
            r@ == joined(all.take(i as int)),
        decreases ws.len() - i,
    {
        assert(all.take(i + 1).drop_last() =~= all.take(i as int));
        if i > 0 {
            string_push(&mut r, ' ');
        } else {
            assert(r@ + all[0] =~= all[0]);
        }
        r.append(ws[i].as_str());
        i += 1;
    }
    assert(all.take(ws.len() as int) =~= all);
    r
}


/// Whether `w` is a word: not empty, and without white space.
pub open spec fn is_word(w: Seq<char>) -> bool {
    w.len() > 0 && forall|i: int| 0 <= i < w.len() ==> !is_white_space(#[trigger] w[i])
}

proof fn lemma_words_from_word(w: Seq<char>, rest: Seq<char>, cur: Seq<char>, acc: Seq<Seq<char>>)
    requires
        forall|i: int| 0 <= i < w.len() ==> !is_white_space(#[trigger] w[i]),
    ensures
        words_from(w + rest, cur, acc) == words_from(rest, cur + w, acc),
    decreases w.len(),
{
    if w.len() == 0 {
        assert(w + rest =~= rest);
        assert(cur + w =~= cur);
    } else {
        let s = w + rest;
        assert(s[0] == w[0]);
        assert(!is_white_space(w[0]));
        assert(s.skip(1) =~= w.skip(1) + rest);
        assert forall|i: int| 0 <= i < w.skip(1).len() implies !is_white_space(#[trigger] w.skip(1)[i]) by {
            assert(w.skip(1)[i] == w[i + 1]);
        }
        lemma_words_from_word(w.skip(1), rest, cur.push(w[0]), acc);
        assert(cur.push(w[0]) + w.skip(1) =~= cur + w);
        if cur.len() > 0 {
            assert((cur + w).len() > 0);
        }
    }
}

proof fn lemma_joined_front(ws: Seq<Seq<char>>)
    requires
        ws.len() >= 2,
    ensures
        joined(ws) == ws[0] + seq![' '] + joined(ws.skip(1)),
    decreases ws.len(),
{
    if ws.len() == 2 {
        assert(ws.drop_last() =~= seq![ws[0]]);
        assert(ws.skip(1) =~= seq![ws[1]]);
        assert(joined(seq![ws[0]]) == ws[0]);
        assert(joined(seq![ws[1]]) == ws[1]);
        assert(joined(ws) == joined(ws.drop_last()) + seq![' '] + ws.last());
    } else {
        let front = ws.drop_last();
        let rest = ws.skip(1);
        lemma_joined_front(front);
        assert(front.skip(1) =~= rest.drop_last());
        assert(front[0] == ws[0]);
        assert(rest.last() == ws.last());
        assert(joined(ws) == joined(front) + seq![' '] + ws.last());
        assert(joined(rest) == joined(rest.drop_last()) + seq![' '] + rest.last());
        assert(ws[0] + seq![' '] + joined(rest.drop_last()) + seq![' '] + ws.last()
            =~= ws[0] + seq![' '] + (joined(rest.drop_last()) + seq![' '] + ws.last()));
    }
}

proof fn lemma_words_of_joined(ws: Seq<Seq<char>>, acc: Seq<Seq<char>>)
    requires
        ws.len() > 0,
        forall|i: int| 0 <= i < ws.len() ==> is_word(#[trigger] ws[i]),
    ensures
        words_from(joined(ws), Seq::empty(), acc) == acc + ws,
    decreases ws.len(),
{
    let w0 = ws[0];
    assert(is_word(w0));
    if ws.len() == 1 {
        lemma_words_from_word(w0, Seq::empty(), Seq::empty(), acc);
        assert(w0 + Seq::<char>::empty() =~= w0);
        assert(Seq::<char>::empty() + w0 =~= w0);
        assert(acc.push(w0) =~= acc + ws);
    } else {
        lemma_joined_front(ws);
        let rest = ws.skip(1);
        let tail = seq![' '] + joined(rest);
        assert(w0 + seq![' '] + joined(rest) =~= w0 + tail);
        lemma_words_from_word(w0, tail, Seq::empty(), acc);
        assert(Seq::<char>::empty() + w0 =~= w0);
        assert(is_white_space(tail[0]));
        assert(tail.skip(1) =~= joined(rest));
        assert forall|i: int| 0 <= i < rest.len() implies is_word(#[trigger] rest[i]) by {
            assert(rest[i] == ws[i + 1]);
        }
        lemma_words_of_joined(rest, acc.push(w0));
        assert(acc.push(w0) + rest =~= acc + ws);
    }
}

/// Splitting at white space undoes joining with single spaces: the words of
/// words joined by spaces are those words, in order.
pub proof fn law_words_of_joined_words(ws: Seq<Seq<char>>)
    requires
        forall|i: int| 0 <= i < ws.len() ==> is_word(#[trigger] ws[i]),
    ensures
        words(joined(ws)) == ws,
{
    if ws.len() == 0 {
        assert(words(Seq::<char>::empty()) =~= Seq::<Seq<char>>::empty());
    } else {
        lemma_words_of_joined(ws, Seq::empty());
        assert(Seq::<Seq<char>>::empty() + ws =~= ws);
    }
}


proof fn lemma_words_from_are_words(s: Seq<char>, cur: Seq<char>, acc: Seq<Seq<char>>)
    requires
        forall|i: int| 0 <= i < cur.len() ==> !is_white_space(#[trigger] cur[i]),
        forall|i: int| 0 <= i < acc.len() ==> is_word(#[trigger] acc[i]),
    ensures
        forall|i: int| 0 <= i < words_from(s, cur, acc).len() ==> is_word(#[trigger] words_from(s, cur, acc)[i]),
    decreases s.len(),
{
    let r = words_from(s, cur, acc);
    let finished = if cur.len() > 0 { acc.push(cur) } else { acc };
    assert forall|i: int| 0 <= i < finished.len() implies is_word(#[trigger] finished[i]) by {
        if i < acc.len() {
            assert(finished[i] == acc[i]);
        }
    }
    if s.len() > 0 {
        let next = if is_white_space(s[0]) {
            words_from(s.skip(1), Seq::empty(), finished)
        } else {
            words_from(s.skip(1), cur.push(s[0]), acc)
        };
        assert(r == next);
        if is_white_space(s[0]) {
            lemma_words_from_are_words(s.skip(1), Seq::empty(), finished);
        } else {
            let c2 = cur.push(s[0]);
            assert forall|i: int| 0 <= i < c2.len() implies !is_white_space(#[trigger] c2[i]) by {
                if i < cur.len() {
                    assert(c2[i] == cur[i]);
                }
            }
            lemma_words_from_are_words(s.skip(1), c2, acc);
        }
        assert forall|i: int| 0 <= i < r.len() implies is_word(#[trigger] r[i]) by {
            assert(r[i] == next[i]);
        }
    } else {
        assert(r == finished);
        assert forall|i: int| 0 <= i < r.len() implies is_word(#[trigger] r[i]) by {
            assert(r[i] == finished[i]);
        }
    }
}

/// The words of a text are words: none is empty, and none holds white space.
pub proof fn law_words_are_words(s: Seq<char>)
    ensures
        forall|i: int| 0 <= i < words(s).len() ==> is_word(#[trigger] words(s)[i]),
{
    lemma_words_from_are_words(s, Seq::empty(), Seq::empty());
}

proof fn lemma_trim_start(s: Seq<char>)
    ensures
        trim_start(s).len() <= s.len(),
        trim_start(s) == s.skip(s.len() - trim_start(s).len()),
        trim_start(s).len() > 0 ==> !is_white_space(trim_start(s)[0]),
    decreases s.len(),
{
    if s.len() > 0 && is_white_space(s[0]) {
        lemma_trim_start(s.skip(1));
        let t = trim_start(s.skip(1));
        assert(s.skip(1).skip(s.skip(1).len() - t.len()) =~= s.skip(s.len() - t.len()));
    } else {
        assert(s.skip(0) =~= s);
    }
}

proof fn lemma_trim_end(s: Seq<char>)
    ensures
        trim_end(s).len() <= s.len(),
        trim_end(s) == s.take(trim_end(s).len() as int),
        trim_end(s).len() > 0 ==> !is_white_space(trim_end(s).last()),
    decreases s.len(),
{
    if s.len() > 0 && is_white_space(s.last()) {
        lemma_trim_end(s.drop_last());
        let t = trim_end(s.drop_last());
        assert(s.drop_last().take(t.len() as int) =~= s.take(t.len() as int));
    } else {
        assert(s.take(s.len() as int) =~= s);
    }
}

/// Trimming removes all the white space at both ends, and only there:
/// the result is a piece of the text that neither starts nor ends with white
/// space, and trimming it again changes nothing.
pub proof fn law_trimmed_has_no_outer_space(s: Seq<char>)
    ensures
        trimmed(s).len() > 0 ==> !is_white_space(trimmed(s)[0]) && !is_white_space(trimmed(s).last()),
        exists|i: int| 0 <= i <= s.len() - trimmed(s).len() && trimmed(s) == #[trigger] s.subrange(i, i + trimmed(s).len()),
        trimmed(trimmed(s)) == trimmed(s),
{
    let a = trim_start(s);
    lemma_trim_start(s);
    lemma_trim_end(a);
    let t = trim_end(a);
    let i = s.len() - a.len();
    if t.len() > 0 {
        assert(t[0] == a[0]);
    }
    assert(s.subrange(i, i + t.len()) =~= t);
    // trimming again
    if t.len() > 0 {
        assert(!is_white_space(t[0]));
        assert(trim_start(t) == t);
        assert(!is_white_space(t.last()));
        assert(trim_end(t) == t);
    } else {
        assert(trim_start(t) == t);
        assert(trim_end(t) == t);
    }
}

} // verus!
