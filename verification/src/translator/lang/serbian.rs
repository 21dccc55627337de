//! Serbian transliteration between Cyrillic and Latin scripts.
//!
//! Each direction reads the text one character at a time; a few characters
//! look at the one or two characters after them, and may consume them too
//! (for instance `КС` becomes `X` and `Dž`-like pairs such as `DZ` become `Џ`).
//! Characters outside the tables are copied unchanged, and so is every
//! character between a pair of quotes (`"`); a quote after a backslash is
//! an ordinary character.
use vstd::prelude::*;
use crate::translator::{Translator, Chunk, chunk_seq, char_at, push_chunk};
use crate::utils::text::{string_chars, string_push};

verus! {

/// Translator for the Serbian Cyrillic alphabet.
pub struct Serbian {}

/// One step of Cyrillic to Latin: the Latin text for `c` (followed by `n1`
/// and `n2`) and how many characters of the input it stands for.
pub open spec fn sr_latin_step(c: char, n1: Option<char>, n2: Option<char>) -> (Chunk, nat) {
    match c {
        'В' => if n1 == Some('в') || n1 == Some('В') { (('W', None), 2) } else { (('V', None), 1) },
        'в' => if n1 == Some('в') || n1 == Some('В') { (('w', None), 2) } else { (('v', None), 1) },
        'И' => if n1 == Some('и') || n1 == Some('И') { (('Y', None), 2) } else { (('I', None), 1) },
        'и' => if n1 == Some('и') || n1 == Some('И') { (('y', None), 2) } else { (('i', None), 1) },
        'К' => if n1 == Some('с') || n1 == Some('С') {
            (('X', None), 2)
        } else if (n1 == Some('и') || n1 == Some('И')) && (n2 == Some('у') || n2 == Some('У')) {
            (('Q', None), 3)
        } else {
            (('K', None), 1)
        },
        'к' => if n1 == Some('с') || n1 == Some('С') {
            (('x', None), 2)
        } else if (n1 == Some('и') || n1 == Some('И')) && (n2 == Some('у') || n2 == Some('У')) {
            (('q', None), 3)
        } else {
            (('k', None), 1)
        },
        _ => (sr_latin_letter(c), 1),
    }
}

/// The Latin text of a Cyrillic character that does not depend on its neighbours.
pub open spec fn sr_latin_letter(c: char) -> Chunk {
    match c {
        'А' => ('A', None), 'а' => ('a', None),
        'Б' => ('B', None), 'б' => ('b', None),
        'Г' => ('G', None), 'г' => ('g', None),
        'Д' => ('D', None), 'д' => ('d', None),
        'Ђ' => ('D', Some('J')), 'ђ' => ('d', Some('j')),
        'Е' => ('E', None), 'е' => ('e', None),
        'Ж' => ('J', None), 'Ј' => ('J', None),
        'ж' => ('j', None), 'ј' => ('j', None),
        'З' => ('Z', None), 'з' => ('z', None),
        'Ћ' => ('C', None), 'ћ' => ('c', None),
        'Л' => ('L', None), 'л' => ('l', None),
        'Љ' => ('L', Some('J')), 'љ' => ('l', Some('j')),
        'М' => ('M', None), 'м' => ('m', None),
        'Н' => ('N', None), 'н' => ('n', None),
        'Њ' => ('N', Some('J')), 'њ' => ('n', Some('j')),
        'О' => ('O', None), 'о' => ('o', None),
        'П' => ('P', None), 'п' => ('p', None),
        'Р' => ('R', None), 'р' => ('r', None),
        'С' => ('S', None), 'с' => ('s', None),
        'Т' => ('T', None), 'т' => ('t', None),
        'Ч' => ('C', Some('H')), 'ч' => ('c', Some('h')),
        'У' => ('U', None), 'у' => ('u', None),
        'Ф' => ('F', None), 'ф' => ('f', None),
        'Х' => ('H', None), 'х' => ('h', None),
        'Ц' => ('T', Some('S')), 'ц' => ('t', Some('s')),
        'Џ' => ('D', Some('Z')), 'џ' => ('d', Some('z')),
        'Ш' => ('S', Some('H')), 'ш' => ('s', Some('h')),
        _ => (c, None),
    }
}

/// One step of Latin to Cyrillic: the Cyrillic text for `c` (followed by `n1`)
/// and how many characters of the input it stands for.
pub open spec fn sr_cyrillic_step(c: char, n1: Option<char>) -> (Chunk, nat) {
    match c {
        'C' => if n1 == Some('h') || n1 == Some('H') { (('Ч', None), 2) } else { (('К', None), 1) },
        'c' => if n1 == Some('h') || n1 == Some('H') { (('ч', None), 2) } else { (('к', None), 1) },
        'D' => if n1 == Some('J') || n1 == Some('j') {
            (('Ђ', None), 2)
        } else if n1 == Some('Z') || n1 == Some('z') {
            (('Џ', None), 2)
        } else {
            (('Д', None), 1)
        },
        'd' => if n1 == Some('J') || n1 == Some('j') {
            (('ђ', None), 2)
        } else if n1 == Some('Z') || n1 == Some('z') {
            (('џ', None), 2)
        } else {
            (('д', None), 1)
        },
        'G' => if sr_softens_g(n1) { (('Д', Some('Ж')), 1) } else { (('Г', None), 1) },
        'g' => if sr_softens_g(n1) { (('д', Some('ж')), 1) } else { (('г', None), 1) },
        'L' => if n1 == Some('J') || n1 == Some('j') { (('Љ', None), 2) } else { (('Л', None), 1) },
        'l' => if n1 == Some('J') || n1 == Some('j') { (('љ', None), 2) } else { (('л', None), 1) },
        'N' => if n1 == Some('J') || n1 == Some('j') { (('Њ', None), 2) } else { (('Н', None), 1) },
        'n' => if n1 == Some('J') || n1 == Some('j') { (('њ', None), 2) } else { (('н', None), 1) },
        'S' => if n1 == Some('h') || n1 == Some('H') { (('Ш', None), 2) } else { (('С', None), 1) },
        's' => if n1 == Some('h') || n1 == Some('H') { (('ш', None), 2) } else { (('с', None), 1) },
        'T' => if n1 == Some('s') || n1 == Some('S') { (('Ц', None), 2) } else { (('Т', None), 1) },
        't' => if n1 == Some('s') || n1 == Some('T') { (('ц', None), 2) } else { (('т', None), 1) },
        _ => (sr_cyrillic_letter(c), 1),
    }
}

/// Whether the letter after a `g` turns it into `дж`.
pub open spec fn sr_softens_g(n1: Option<char>) -> bool {
    match n1 {
        Some(ch) => ch == 'y' || ch == 'Y' || ch == 'e' || ch == 'E' || ch == 'i' || ch == 'I',
        None => false,
    }
}

/// The Cyrillic text of a Latin character that does not depend on its neighbours.
pub open spec fn sr_cyrillic_letter(c: char) -> Chunk {
    match c {
        'A' => ('А', None), 'a' => ('а', None),
        'B' => ('Б', None), 'b' => ('б', None),
        'E' => ('Е', None), 'e' => ('е', None),
        'F' => ('Ф', None), 'f' => ('ф', None),
        'H' => ('Х', None), 'h' => ('х', None),
        'I' => ('И', None), 'i' => ('и', None),
        'J' => ('Ј', None), 'j' => ('ј', None),
        'K' => ('К', None), 'k' => ('к', None),
        'M' => ('М', None), 'm' => ('м', None),
        'O' => ('О', None), 'o' => ('о', None),
        'P' => ('П', None), 'p' => ('п', None),
        'Q' => ('К', Some('У')), 'q' => ('к', Some('у')),
        'R' => ('Р', None), 'r' => ('р', None),
        'U' => ('У', None), 'u' => ('у', None),
        'V' => ('В', None), 'v' => ('в', None),
        'W' => ('В', None), 'w' => ('в', None),
        'X' => ('К', Some('С')), 'x' => ('к', Some('с')),
        'Y' => ('И', None), 'y' => ('и', None),
        'Z' => ('З', None), 'z' => ('з', None),
        _ => (c, None),
    }
}

/// Serbian Cyrillic text to Latin text, every character taken as text
/// (quotes included).
pub open spec fn plain_to_latin(s: Seq<char>) -> Seq<char>
    decreases s.len(),
{
    if s.len() == 0 {
        Seq::empty()
    } else {
        let (chunk, used) = sr_latin_step(s[0], char_at(s, 1), char_at(s, 2));
        if used <= s.len() {
            chunk_seq(chunk) + plain_to_latin(s.skip(used as int))
        } else {
            chunk_seq(chunk)
        }
    }
}

/// Latin text to Serbian Cyrillic text, every character taken as text
/// (quotes included).
pub open spec fn plain_to_cyrillic(s: Seq<char>) -> Seq<char>
    decreases s.len(),
{
    if s.len() == 0 {
        Seq::empty()
    } else {
        let (chunk, used) = sr_cyrillic_step(s[0], char_at(s, 1));
        if used <= s.len() {
            chunk_seq(chunk) + plain_to_cyrillic(s.skip(used as int))
        } else {
            chunk_seq(chunk)
        }
    }
}

/// Cyrillic to Latin of `s`, from a point inside quotes (`quoted`) or not,
/// just after a backslash (`after_backslash`) or not. A `"` that no backslash
/// comes before opens or closes a quoted block; quotes and what stands
/// between them are copied as they are, and only the rest is transliterated.
pub open spec fn sr_latin_text(s: Seq<char>, quoted: bool, after_backslash: bool) -> Seq<char>
    decreases s.len(),
{
    if s.len() == 0 {
        Seq::empty()
    } else if s[0] == '"' && !after_backslash {
        seq!['"'] + sr_latin_text(s.skip(1), !quoted, false)
    } else if quoted {
        seq![s[0]] + sr_latin_text(s.skip(1), true, s[0] == '\\')
    } else {
        let (chunk, used) = sr_latin_step(s[0], char_at(s, 1), char_at(s, 2));
        if used <= s.len() {
            chunk_seq(chunk) + sr_latin_text(s.skip(used as int), false, s[0] == '\\')
        } else {
            chunk_seq(chunk)
        }
    }
}

/// Latin to Cyrillic of `s`, from a point inside quotes or not, just after a
/// backslash or not (see `sr_latin_text`).
pub open spec fn sr_cyrillic_text(s: Seq<char>, quoted: bool, after_backslash: bool) -> Seq<char>
    decreases s.len(),
{
    if s.len() == 0 {
        Seq::empty()
    } else if s[0] == '"' && !after_backslash {
        seq!['"'] + sr_cyrillic_text(s.skip(1), !quoted, false)
    } else if quoted {
        seq![s[0]] + sr_cyrillic_text(s.skip(1), true, s[0] == '\\')
    } else {
        let (chunk, used) = sr_cyrillic_step(s[0], char_at(s, 1));
        if used <= s.len() {
            chunk_seq(chunk) + sr_cyrillic_text(s.skip(used as int), false, s[0] == '\\')
        } else {
            chunk_seq(chunk)
        }
    }
}

/// Serbian Cyrillic text to Latin text: characters between quotes are kept.
pub open spec fn serbian_to_latin(s: Seq<char>) -> Seq<char> {
    sr_latin_text(s, false, false)
}

/// Latin text to Serbian Cyrillic text: characters between quotes are kept.
pub open spec fn serbian_to_cyrillic(s: Seq<char>) -> Seq<char> {
    sr_cyrillic_text(s, false, false)
}

fn is_one_of(c: Option<char>, a: char, b: char) -> (r: bool)
    ensures
        r == (c == Some(a) || c == Some(b)),
{
    match c {
        Some(x) => x == a || x == b,
        None => false,
    }
}

fn latin_step(c: char, n1: Option<char>, n2: Option<char>) -> (r: (Chunk, usize))
    ensures
        r.0 == sr_latin_step(c, n1, n2).0,
        r.1 as nat == sr_latin_step(c, n1, n2).1,
{
    match c {
        'В' => if is_one_of(n1, 'в', 'В') { (('W', None), 2) } else { (('V', None), 1) },
        'в' => if is_one_of(n1, 'в', 'В') { (('w', None), 2) } else { (('v', None), 1) },
        'И' => if is_one_of(n1, 'и', 'И') { (('Y', None), 2) } else { (('I', None), 1) },
        'и' => if is_one_of(n1, 'и', 'И') { (('y', None), 2) } else { (('i', None), 1) },
        'К' => if is_one_of(n1, 'с', 'С') {
            (('X', None), 2)
        } else if is_one_of(n1, 'и', 'И') && is_one_of(n2, 'у', 'У') {
            (('Q', None), 3)
        } else {
            (('K', None), 1)
        },
        'к' => if is_one_of(n1, 'с', 'С') {
            (('x', None), 2)
        } else if is_one_of(n1, 'и', 'И') && is_one_of(n2, 'у', 'У') {
            (('q', None), 3)
        } else {
            (('k', None), 1)
        },
        _ => (latin_letter(c), 1),
    }
}

fn latin_letter(c: char) -> (r: Chunk)
    ensures
        r == sr_latin_letter(c),
{
    match c {
        'А' => ('A', None), 'а' => ('a', None),
        'Б' => ('B', None), 'б' => ('b', None),
        'Г' => ('G', None), 'г' => ('g', None),
        'Д' => ('D', None), 'д' => ('d', None),
        'Ђ' => ('D', Some('J')), 'ђ' => ('d', Some('j')),
        'Е' => ('E', None), 'е' => ('e', None),
        'Ж' => ('J', None), 'Ј' => ('J', None),
        'ж' => ('j', None), 'ј' => ('j', None),
        'З' => ('Z', None), 'з' => ('z', None),
        'Ћ' => ('C', None), 'ћ' => ('c', None),
        'Л' => ('L', None), 'л' => ('l', None),
        'Љ' => ('L', Some('J')), 'љ' => ('l', Some('j')),
        'М' => ('M', None), 'м' => ('m', None),
        'Н' => ('N', None), 'н' => ('n', None),
        'Њ' => ('N', Some('J')), 'њ' => ('n', Some('j')),
        'О' => ('O', None), 'о' => ('o', None),
        'П' => ('P', None), 'п' => ('p', None),
        'Р' => ('R', None), 'р' => ('r', None),
        'С' => ('S', None), 'с' => ('s', None),
        'Т' => ('T', None), 'т' => ('t', None),
        'Ч' => ('C', Some('H')), 'ч' => ('c', Some('h')),
        'У' => ('U', None), 'у' => ('u', None),
        'Ф' => ('F', None), 'ф' => ('f', None),
        'Х' => ('H', None), 'х' => ('h', None),
        'Ц' => ('T', Some('S')), 'ц' => ('t', Some('s')),
        'Џ' => ('D', Some('Z')), 'џ' => ('d', Some('z')),
        'Ш' => ('S', Some('H')), 'ш' => ('s', Some('h')),
        _ => (c, None),
    }
}

fn softens_g(n1: Option<char>) -> (r: bool)
    ensures
        r == sr_softens_g(n1),
{
    match n1 {
        Some(ch) => ch == 'y' || ch == 'Y' || ch == 'e' || ch == 'E' || ch == 'i' || ch == 'I',
        None => false,
    }
}

fn cyrillic_step(c: char, n1: Option<char>) -> (r: (Chunk, usize))
    ensures
        r.0 == sr_cyrillic_step(c, n1).0,
        r.1 as nat == sr_cyrillic_step(c, n1).1,
{
    match c {
        'C' => if is_one_of(n1, 'h', 'H') { (('Ч', None), 2) } else { (('К', None), 1) },
        'c' => if is_one_of(n1, 'h', 'H') { (('ч', None), 2) } else { (('к', None), 1) },
        'D' => if is_one_of(n1, 'J', 'j') {
            (('Ђ', None), 2)
        } else if is_one_of(n1, 'Z', 'z') {
            (('Џ', None), 2)
        } else {
            (('Д', None), 1)
        },
        'd' => if is_one_of(n1, 'J', 'j') {
            (('ђ', None), 2)
        } else if is_one_of(n1, 'Z', 'z') {
            (('џ', None), 2)
        } else {
            (('д', None), 1)
        },
        'G' => if softens_g(n1) { (('Д', Some('Ж')), 1) } else { (('Г', None), 1) },
        'g' => if softens_g(n1) { (('д', Some('ж')), 1) } else { (('г', None), 1) },
        'L' => if is_one_of(n1, 'J', 'j') { (('Љ', None), 2) } else { (('Л', None), 1) },
        'l' => if is_one_of(n1, 'J', 'j') { (('љ', None), 2) } else { (('л', None), 1) },
        'N' => if is_one_of(n1, 'J', 'j') { (('Њ', None), 2) } else { (('Н', None), 1) },
        'n' => if is_one_of(n1, 'J', 'j') { (('њ', None), 2) } else { (('н', None), 1) },
        'S' => if is_one_of(n1, 'h', 'H') { (('Ш', None), 2) } else { (('С', None), 1) },
        's' => if is_one_of(n1, 'h', 'H') { (('ш', None), 2) } else { (('с', None), 1) },
        'T' => if is_one_of(n1, 's', 'S') { (('Ц', None), 2) } else { (('Т', None), 1) },
        't' => if is_one_of(n1, 's', 'T') { (('ц', None), 2) } else { (('т', None), 1) },
        _ => (cyrillic_letter(c), 1),
    }
}

fn cyrillic_letter(c: char) -> (r: Chunk)
    ensures
        r == sr_cyrillic_letter(c),
{
    match c {
        'A' => ('А', None), 'a' => ('а', None),
        'B' => ('Б', None), 'b' => ('б', None),
        'E' => ('Е', None), 'e' => ('е', None),
        'F' => ('Ф', None), 'f' => ('ф', None),
        'H' => ('Х', None), 'h' => ('х', None),
        'I' => ('И', None), 'i' => ('и', None),
        'J' => ('Ј', None), 'j' => ('ј', None),
        'K' => ('К', None), 'k' => ('к', None),
        'M' => ('М', None), 'm' => ('м', None),
        'O' => ('О', None), 'o' => ('о', None),
        'P' => ('П', None), 'p' => ('п', None),
        'Q' => ('К', Some('У')), 'q' => ('к', Some('у')),
        'R' => ('Р', None), 'r' => ('р', None),
        'U' => ('У', None), 'u' => ('у', None),
        'V' => ('В', None), 'v' => ('в', None),
        'W' => ('В', None), 'w' => ('в', None),
        'X' => ('К', Some('С')), 'x' => ('к', Some('с')),
        'Y' => ('И', None), 'y' => ('и', None),
        'Z' => ('З', None), 'z' => ('з', None),
        _ => (c, None),
    }
}

fn opt_at(v: &Vec<char>, i: usize) -> (r: Option<char>)
    ensures
        r == char_at(v@, i as int),
{
    if i < v.len() {
        Some(v[i])
    } else {
        None
    }
}

impl Translator for Serbian {
    open spec fn latin_of(&self, input: Seq<char>) -> Seq<char> {
        serbian_to_latin(input)
    }

    open spec fn cyrillic_of(&self, input: Seq<char>) -> Seq<char> {
        serbian_to_cyrillic(input)
    }

    /// Converts a string which contains serbian cyrillic characters into a latin string.
    /// Characters between quotes are kept as they are.
    fn to_latin(&self, input: &String) -> (output: String) {
        let chars = string_chars(input.as_str());
        let mut output = String::new();
        let mut i: usize = 0;
        let mut quoted = false;
        let mut after_backslash = false;
        assert(chars@.skip(0) =~= chars@);
        assert(output@ + serbian_to_latin(chars@) =~= serbian_to_latin(chars@));
        while i < chars.len()
            invariant
                i <= chars.len(),
                chars@ == input@,
                output@ + sr_latin_text(chars@.skip(i as int), quoted, after_backslash) == serbian_to_latin(input@),
            decreases chars.len() - i,
        {
            let ghost rest = chars@.skip(i as int);
            let c = chars[i];
            assert(rest[0] == c);
            if c == '"' && !after_backslash {
                let ghost before = output@;
                string_push(&mut output, c);
                assert(rest.skip(1) =~= chars@.skip(i + 1));
                assert(output@ + sr_latin_text(chars@.skip(i + 1), !quoted, false)
                    =~= before + (seq!['"'] + sr_latin_text(rest.skip(1), !quoted, false)));
                quoted = !quoted;
                after_backslash = false;
                i = i + 1;
            } else if quoted {
                let ghost before = output@;
                string_push(&mut output, c);
                assert(rest.skip(1) =~= chars@.skip(i + 1));
                assert(output@ + sr_latin_text(chars@.skip(i + 1), true, c == '\\')
                    =~= before + (seq![c] + sr_latin_text(rest.skip(1), true, c == '\\')));
                after_backslash = c == '\\';
                i = i + 1;
            } else {
                let n1 = opt_at(&chars, i + 1);
                let n2 = if i + 1 < chars.len() { opt_at(&chars, i + 2) } else { None };
                let (chunk, used) = latin_step(c, n1, n2);
                assert(char_at(rest, 1) == n1 && char_at(rest, 2) == n2);
                assert(used as int <= rest.len());
                push_chunk(&mut output, chunk);
                assert(rest.skip(used as int) =~= chars@.skip(i + used));
                after_backslash = c == '\\';
                i = i + used;
            }
        }
        assert(chars@.skip(i as int) == Seq::<char>::empty());
        output
    }

    /// Converts a string which contains latin characters into a serbian cyrillic string.
    /// Characters between quotes are kept as they are.
    fn to_cyrillic(&self, input: &String) -> (output: String) {
        let chars = string_chars(input.as_str());
        let mut output = String::new();
        let mut i: usize = 0;
        let mut quoted = false;
        let mut after_backslash = false;
        assert(chars@.skip(0) =~= chars@);
        assert(output@ + serbian_to_cyrillic(chars@) =~= serbian_to_cyrillic(chars@));
        while i < chars.len()
            invariant
                i <= chars.len(),
                chars@ == input@,
                output@ + sr_cyrillic_text(chars@.skip(i as int), quoted, after_backslash) == serbian_to_cyrillic(input@),
            decreases chars.len() - i,
        {
            let ghost rest = chars@.skip(i as int);
            let c = chars[i];
            assert(rest[0] == c);
            if c == '"' && !after_backslash {
                let ghost before = output@;
                string_push(&mut output, c);
                assert(rest.skip(1) =~= chars@.skip(i + 1));
                assert(output@ + sr_cyrillic_text(chars@.skip(i + 1), !quoted, false)
                    =~= before + (seq!['"'] + sr_cyrillic_text(rest.skip(1), !quoted, false)));
                quoted = !quoted;
                after_backslash = false;
                i = i + 1;
            } else if quoted {
                let ghost before = output@;
                string_push(&mut output, c);
                assert(rest.skip(1) =~= chars@.skip(i + 1));
                assert(output@ + sr_cyrillic_text(chars@.skip(i + 1), true, c == '\\')
                    =~= before + (seq![c] + sr_cyrillic_text(rest.skip(1), true, c == '\\')));
                after_backslash = c == '\\';
                i = i + 1;
            } else {
                let n1 = opt_at(&chars, i + 1);
                let (chunk, used) = cyrillic_step(c, n1);
                assert(char_at(rest, 1) == n1);
                assert(used as int <= rest.len());
                push_chunk(&mut output, chunk);
                assert(rest.skip(used as int) =~= chars@.skip(i + used));
                after_backslash = c == '\\';
                i = i + used;
            }
        }
        assert(chars@.skip(i as int) == Seq::<char>::empty());
        output
    }
}

/// The letters of the Serbian Cyrillic alphabet: the characters that
/// Cyrillic to Latin changes.
pub open spec fn is_serbian_cyrillic(c: char) -> bool {
    c == 'В' || c == 'в' || c == 'И' || c == 'и' || c == 'К' || c == 'к' || sr_latin_letter(c) != (c, None::<char>)
}

/// The letters of the Latin alphabet.
pub open spec fn is_latin_letter(c: char) -> bool {
    ('a' <= c && c <= 'z') || ('A' <= c && c <= 'Z')
}

/// A step of Cyrillic to Latin writes no Cyrillic letter, reads one to
/// three characters, and copies a character that is no Cyrillic letter.
proof fn lemma_latin_step(c: char, n1: Option<char>, n2: Option<char>)
    ensures
        ({
            let (chunk, used) = sr_latin_step(c, n1, n2);
            &&& forall|i: int| 0 <= i < chunk_seq(chunk).len() ==> !is_serbian_cyrillic(#[trigger] chunk_seq(chunk)[i])
            &&& 1 <= used <= 3
            &&& !is_serbian_cyrillic(c) ==> chunk == (c, None::<char>) && used == 1
        }),
{
}

/// A step of Latin to Cyrillic writes no Latin letter and reads one or two
/// characters.
proof fn lemma_cyrillic_step(c: char, n1: Option<char>)
    ensures
        ({
            let (chunk, used) = sr_cyrillic_step(c, n1);
            &&& forall|i: int| 0 <= i < chunk_seq(chunk).len() ==> !is_latin_letter(#[trigger] chunk_seq(chunk)[i])
            &&& 1 <= used <= 2
        }),
{
}

/// Every Cyrillic letter is transliterated: Cyrillic to Latin leaves no
/// Serbian Cyrillic letter in the text.
proof fn lemma_plain_latin_has_no_cyrillic(s: Seq<char>)
    ensures
        forall|i: int| 0 <= i < plain_to_latin(s).len() ==> !is_serbian_cyrillic(#[trigger] plain_to_latin(s)[i]),
    decreases s.len(),
{
    if s.len() > 0 {
        let (chunk, used) = sr_latin_step(s[0], char_at(s, 1), char_at(s, 2));
        lemma_latin_step(s[0], char_at(s, 1), char_at(s, 2));
        if used <= s.len() {
            lemma_plain_latin_has_no_cyrillic(s.skip(used as int));
            let rest = plain_to_latin(s.skip(used as int));
            assert forall|i: int| 0 <= i < plain_to_latin(s).len() implies !is_serbian_cyrillic(#[trigger] plain_to_latin(s)[i]) by {
                if i >= chunk_seq(chunk).len() {
                    assert(plain_to_latin(s)[i] == rest[i - chunk_seq(chunk).len()]);
                } else {
                    assert(plain_to_latin(s)[i] == chunk_seq(chunk)[i]);
                }
            }
        }
    }
}

/// Every Latin letter is transliterated: Latin to Cyrillic leaves no Latin
/// letter in the text.
proof fn lemma_plain_cyrillic_has_no_latin(s: Seq<char>)
    ensures
        forall|i: int| 0 <= i < plain_to_cyrillic(s).len() ==> !is_latin_letter(#[trigger] plain_to_cyrillic(s)[i]),
    decreases s.len(),
{
    if s.len() > 0 {
        let (chunk, used) = sr_cyrillic_step(s[0], char_at(s, 1));
        lemma_cyrillic_step(s[0], char_at(s, 1));
        if used <= s.len() {
            lemma_plain_cyrillic_has_no_latin(s.skip(used as int));
            let rest = plain_to_cyrillic(s.skip(used as int));
            assert forall|i: int| 0 <= i < plain_to_cyrillic(s).len() implies !is_latin_letter(#[trigger] plain_to_cyrillic(s)[i]) by {
                if i >= chunk_seq(chunk).len() {
                    assert(plain_to_cyrillic(s)[i] == rest[i - chunk_seq(chunk).len()]);
                } else {
                    assert(plain_to_cyrillic(s)[i] == chunk_seq(chunk)[i]);
                }
            }
        }
    }
}

/// Text with no Serbian Cyrillic letter (Latin text, digits, signs, quoted
/// or not) is left as it is by Cyrillic to Latin.
pub proof fn law_latin_text_is_kept(s: Seq<char>)
    requires
        forall|i: int| 0 <= i < s.len() ==> !is_serbian_cyrillic(#[trigger] s[i]),
    ensures
        serbian_to_latin(s) == s,
{
    lemma_latin_text_kept_from(s, false, false);
}

proof fn lemma_latin_text_kept_from(s: Seq<char>, quoted: bool, b: bool)
    requires
        forall|i: int| 0 <= i < s.len() ==> !is_serbian_cyrillic(#[trigger] s[i]),
    ensures
        sr_latin_text(s, quoted, b) == s,
    decreases s.len(),
{
    if s.len() > 0 {
        lemma_latin_step(s[0], char_at(s, 1), char_at(s, 2));
        assert(!is_serbian_cyrillic(s[0]));
        assert forall|i: int| 0 <= i < s.skip(1).len() implies !is_serbian_cyrillic(#[trigger] s.skip(1)[i]) by {
            assert(s.skip(1)[i] == s[i + 1]);
        }
        if s[0] == '"' && !b {
            lemma_latin_text_kept_from(s.skip(1), !quoted, false);
        } else {
            lemma_latin_text_kept_from(s.skip(1), quoted, s[0] == '\\');
        }
        assert(seq![s[0]] + s.skip(1) =~= s);
    }
}

/// Cyrillic to Latin looks no further than its Cyrillic neighbours: a step
/// sees a following character that is no Cyrillic letter as the end of the
/// text.
proof fn lemma_latin_step_lookahead(x: char, y: Option<char>, n: char, m: Option<char>)
    requires
        !is_serbian_cyrillic(n),
    ensures
        sr_latin_step(x, Some(n), m) == sr_latin_step(x, None, None),
        sr_latin_step(x, y, Some(n)) == sr_latin_step(x, y, None),
        sr_latin_step(x, None, m).1 == 1,
        sr_latin_step(x, y, None).1 <= 2,
{
}

/// Latin to Cyrillic looks no further than its Latin neighbours.
proof fn lemma_cyrillic_step_lookahead(x: char, n: char)
    requires
        !is_latin_letter(n),
    ensures
        sr_cyrillic_step(x, Some(n)) == sr_cyrillic_step(x, None),
        sr_cyrillic_step(x, None).1 == 1,
{
}

/// Cyrillic to Latin of a text followed by one that starts with no Cyrillic
/// letter is the two texts' Cyrillic to Latin, one after the other.
proof fn lemma_latin_concat(a: Seq<char>, r: Seq<char>)
    requires
        r.len() > 0,
        !is_serbian_cyrillic(r[0]),
    ensures
        plain_to_latin(a + r) == plain_to_latin(a) + plain_to_latin(r),
    decreases a.len(),
{
    let s = a + r;
    if a.len() == 0 {
        assert(s =~= r);
        assert(Seq::<char>::empty() + plain_to_latin(r) =~= plain_to_latin(r));
    } else {
        lemma_latin_step(a[0], char_at(a, 1), char_at(a, 2));
        if a.len() == 1 {
            assert(char_at(s, 1) == Some(r[0]));
            lemma_latin_step_lookahead(a[0], char_at(a, 1), r[0], char_at(s, 2));
        } else if a.len() == 2 {
            assert(char_at(s, 1) == char_at(a, 1));
            assert(char_at(s, 2) == Some(r[0]));
            lemma_latin_step_lookahead(a[0], char_at(a, 1), r[0], None);
        } else {
            assert(char_at(s, 1) == char_at(a, 1));
            assert(char_at(s, 2) == char_at(a, 2));
        }
        assert(s[0] == a[0]);
        let (chunk, used) = sr_latin_step(a[0], char_at(a, 1), char_at(a, 2));
        assert(used <= a.len());
        assert(s.skip(used as int) =~= a.skip(used as int) + r);
        lemma_latin_concat(a.skip(used as int), r);
        assert(chunk_seq(chunk) + (plain_to_latin(a.skip(used as int)) + plain_to_latin(r))
            =~= chunk_seq(chunk) + plain_to_latin(a.skip(used as int)) + plain_to_latin(r));
    }
}

/// Latin to Cyrillic of a text followed by one that starts with no Latin
/// letter is the two texts' Latin to Cyrillic, one after the other.
proof fn lemma_cyrillic_concat(a: Seq<char>, r: Seq<char>)
    requires
        r.len() > 0,
        !is_latin_letter(r[0]),
    ensures
        plain_to_cyrillic(a + r) == plain_to_cyrillic(a) + plain_to_cyrillic(r),
    decreases a.len(),
{
    let s = a + r;
    if a.len() == 0 {
        assert(s =~= r);
        assert(Seq::<char>::empty() + plain_to_cyrillic(r) =~= plain_to_cyrillic(r));
    } else {
        lemma_cyrillic_step(a[0], char_at(a, 1));
        if a.len() == 1 {
            assert(char_at(s, 1) == Some(r[0]));
            lemma_cyrillic_step_lookahead(a[0], r[0]);
        } else {
            assert(char_at(s, 1) == char_at(a, 1));
        }
        assert(s[0] == a[0]);
        let (chunk, used) = sr_cyrillic_step(a[0], char_at(a, 1));
        assert(used <= a.len());
        assert(s.skip(used as int) =~= a.skip(used as int) + r);
        lemma_cyrillic_concat(a.skip(used as int), r);
        assert(chunk_seq(chunk) + (plain_to_cyrillic(a.skip(used as int)) + plain_to_cyrillic(r))
            =~= chunk_seq(chunk) + plain_to_cyrillic(a.skip(used as int)) + plain_to_cyrillic(r));
    }
}

/// A character that is no Cyrillic letter splits a text for Cyrillic to
/// Latin: each side is transliterated on its own, and the character stays.
proof fn lemma_plain_latin_splits(a: Seq<char>, c: char, b: Seq<char>)
    requires
        !is_serbian_cyrillic(c),
    ensures
        plain_to_latin(a + seq![c] + b) == plain_to_latin(a) + seq![c] + plain_to_latin(b),
{
    let r = seq![c] + b;
    assert(a + seq![c] + b =~= a + r);
    lemma_latin_concat(a, r);
    lemma_latin_step(c, char_at(r, 1), char_at(r, 2));
    assert(r.skip(1) =~= b);
    assert(plain_to_latin(a) + (seq![c] + plain_to_latin(b)) =~= plain_to_latin(a) + seq![c] + plain_to_latin(b));
}

/// A character that is no Latin letter splits a text for Latin to Cyrillic:
/// each side is transliterated on its own, and the character stays.
proof fn lemma_plain_cyrillic_splits(a: Seq<char>, c: char, b: Seq<char>)
    requires
        !is_latin_letter(c),
    ensures
        plain_to_cyrillic(a + seq![c] + b) == plain_to_cyrillic(a) + seq![c] + plain_to_cyrillic(b),
{
    let r = seq![c] + b;
    assert(a + seq![c] + b =~= a + r);
    lemma_cyrillic_concat(a, r);
    assert(sr_cyrillic_step(c, char_at(r, 1)) == ((c, None::<char>), 1nat));
    assert(r.skip(1) =~= b);
    assert(plain_to_cyrillic(a) + (seq![c] + plain_to_cyrillic(b)) =~= plain_to_cyrillic(a) + seq![c] + plain_to_cyrillic(b));
}

/// The upper case of a letter of the Latin or the Cyrillic alphabet, as
/// Unicode gives it for `a`-`z`, `а`-`я` and `ѐ`-`џ`; any other character
/// is its own upper case.
pub open spec fn upper_char(c: char) -> char {
    let u = c as u32;
    if 0x61 <= u && u <= 0x7A {
        (u - 32) as char
    } else if 0x430 <= u && u <= 0x44F {
        (u - 32) as char
    } else if 0x450 <= u && u <= 0x45F {
        (u - 80) as char
    } else {
        c
    }
}

/// The lower case of an ASCII letter; any other character is kept.
pub open spec fn lower_ascii(c: char) -> char {
    if 'A' <= c && c <= 'Z' { ((c as u32) + 32) as char } else { c }
}

/// A text in upper case (see `upper_char`).
pub open spec fn upper_text(s: Seq<char>) -> Seq<char> {
    s.map_values(|c: char| upper_char(c))
}

/// An ASCII text with its letters in lower case.
pub open spec fn lower_ascii_text(s: Seq<char>) -> Seq<char> {
    s.map_values(|c: char| lower_ascii(c))
}

/// The optional character in upper case.
pub open spec fn upper_opt(c: Option<char>) -> Option<char> {
    match c {
        Some(x) => Some(upper_char(x)),
        None => None,
    }
}

/// The optional character, an ASCII letter of it in lower case.
pub open spec fn lower_opt(c: Option<char>) -> Option<char> {
    match c {
        Some(x) => Some(lower_ascii(x)),
        None => None,
    }
}

/// Whether `c` is an ASCII character.
pub open spec fn is_ascii(c: char) -> bool {
    (c as u32) < 128
}

/// The lower-case letters of the Serbian Cyrillic alphabet.
pub open spec fn is_serbian_lower(c: char) -> bool {
    c == 'а' || c == 'б' || c == 'в' || c == 'г' || c == 'д' || c == 'ђ' || c == 'е' || c == 'ж'
        || c == 'з' || c == 'и' || c == 'ј' || c == 'к' || c == 'л' || c == 'љ' || c == 'м' || c == 'н'
        || c == 'њ' || c == 'о' || c == 'п' || c == 'р' || c == 'с' || c == 'т' || c == 'ћ' || c == 'у'
        || c == 'ф' || c == 'х' || c == 'ц' || c == 'ч' || c == 'џ' || c == 'ш'
}

/// The characters of a lower-case Cyrillic text: lower-case Serbian letters,
/// and ASCII characters that are no letters.
pub open spec fn in_lower_cyrillic_text(c: char) -> bool {
    is_serbian_lower(c) || (is_ascii(c) && !is_latin_letter(c))
}

/// The optional character of a lower-case Cyrillic text.
pub open spec fn opt_in_lower_cyrillic_text(c: Option<char>) -> bool {
    match c {
        Some(x) => in_lower_cyrillic_text(x),
        None => true,
    }
}

/// The optional character is ASCII.
pub open spec fn opt_is_ascii(c: Option<char>) -> bool {
    match c {
        Some(x) => is_ascii(x),
        None => true,
    }
}

proof fn lemma_upper_text_concat(a: Seq<char>, b: Seq<char>)
    ensures
        upper_text(a + b) == upper_text(a) + upper_text(b),
{
    assert(upper_text(a + b) =~= upper_text(a) + upper_text(b));
}

/// A step of Latin to Cyrillic on an upper-case text writes the upper case
/// of what it writes on the lower-case text, and reads as many characters.
proof fn lemma_cyrillic_step_case(c: char, n1: Option<char>)
    requires
        is_ascii(c),
        opt_is_ascii(n1),
    ensures
        ({
            let (cu, ku) = sr_cyrillic_step(upper_char(c), upper_opt(n1));
            let (cl, kl) = sr_cyrillic_step(lower_ascii(c), lower_opt(n1));
            &&& ku == kl
            &&& chunk_seq(cu) == upper_text(chunk_seq(cl))
        }),
{
    let (cl, kl) = sr_cyrillic_step(lower_ascii(c), lower_opt(n1));
    assert(chunk_seq(cl).len() == 1 ==> upper_text(chunk_seq(cl)) =~= seq![upper_char(chunk_seq(cl)[0])]);
    assert(chunk_seq(cl).len() == 2 ==> upper_text(chunk_seq(cl)) =~= seq![upper_char(chunk_seq(cl)[0]), upper_char(chunk_seq(cl)[1])]);
}

/// A step of Cyrillic to Latin on an upper-case text writes the upper case
/// of what it writes on the lower-case text, and reads as many characters.
proof fn lemma_latin_step_case(c: char, n1: Option<char>, n2: Option<char>)
    requires
        in_lower_cyrillic_text(c),
        opt_in_lower_cyrillic_text(n1),
        opt_in_lower_cyrillic_text(n2),
    ensures
        ({
            let (cu, ku) = sr_latin_step(upper_char(c), upper_opt(n1), upper_opt(n2));
            let (cl, kl) = sr_latin_step(c, n1, n2);
            &&& ku == kl
            &&& chunk_seq(cu) == upper_text(chunk_seq(cl))
        }),
{
    let (cl, kl) = sr_latin_step(c, n1, n2);
    assert(chunk_seq(cl).len() == 1 ==> upper_text(chunk_seq(cl)) =~= seq![upper_char(chunk_seq(cl)[0])]);
    assert(chunk_seq(cl).len() == 2 ==> upper_text(chunk_seq(cl)) =~= seq![upper_char(chunk_seq(cl)[0]), upper_char(chunk_seq(cl)[1])]);
}

/// Latin to Cyrillic keeps the case of the letters: an ASCII text in upper
/// case gives the upper case of what the same text in lower case gives.
proof fn lemma_plain_cyrillic_keeps_case(s: Seq<char>)
    requires
        forall|i: int| 0 <= i < s.len() ==> is_ascii(#[trigger] s[i]),
    ensures
        plain_to_cyrillic(upper_text(s)) == upper_text(plain_to_cyrillic(lower_ascii_text(s))),
    decreases s.len(),
{
    let u = upper_text(s);
    let l = lower_ascii_text(s);
    if s.len() == 0 {
        assert(upper_text(Seq::<char>::empty()) =~= Seq::<char>::empty());
    } else {
        assert(u[0] == upper_char(s[0]));
        assert(l[0] == lower_ascii(s[0]));
        assert(char_at(u, 1) == upper_opt(char_at(s, 1)));
        assert(char_at(l, 1) == lower_opt(char_at(s, 1)));
        lemma_cyrillic_step_case(s[0], char_at(s, 1));
        let (cl, k) = sr_cyrillic_step(l[0], char_at(l, 1));
        lemma_cyrillic_step(l[0], char_at(l, 1));
        if k <= s.len() {
            let rest = s.skip(k as int);
            assert(u.skip(k as int) =~= upper_text(rest));
            assert(l.skip(k as int) =~= lower_ascii_text(rest));
            assert forall|i: int| 0 <= i < rest.len() implies is_ascii(#[trigger] rest[i]) by {
                assert(rest[i] == s[i + k]);
            }
            lemma_plain_cyrillic_keeps_case(rest);
            lemma_upper_text_concat(chunk_seq(cl), plain_to_cyrillic(lower_ascii_text(rest)));
        }
    }
}

/// Cyrillic to Latin keeps the case of the letters: a lower-case Cyrillic
/// text in upper case gives the upper case of what the text gives.
proof fn lemma_plain_latin_keeps_case(s: Seq<char>)
    requires
        forall|i: int| 0 <= i < s.len() ==> in_lower_cyrillic_text(#[trigger] s[i]),
    ensures
        plain_to_latin(upper_text(s)) == upper_text(plain_to_latin(s)),
    decreases s.len(),
{
    let u = upper_text(s);
    if s.len() == 0 {
        assert(upper_text(Seq::<char>::empty()) =~= Seq::<char>::empty());
    } else {
        assert(u[0] == upper_char(s[0]));
        assert(char_at(u, 1) == upper_opt(char_at(s, 1)));
        assert(char_at(u, 2) == upper_opt(char_at(s, 2)));
        lemma_latin_step_case(s[0], char_at(s, 1), char_at(s, 2));
        let (cl, k) = sr_latin_step(s[0], char_at(s, 1), char_at(s, 2));
        lemma_latin_step(s[0], char_at(s, 1), char_at(s, 2));
        if k <= s.len() {
            let rest = s.skip(k as int);
            assert(u.skip(k as int) =~= upper_text(rest));
            assert forall|i: int| 0 <= i < rest.len() implies in_lower_cyrillic_text(#[trigger] rest[i]) by {
                assert(rest[i] == s[i + k]);
            }
            lemma_plain_latin_keeps_case(rest);
            lemma_upper_text_concat(chunk_seq(cl), plain_to_latin(rest));
        }
    }
}

/// Whether `s` holds no quote.
pub open spec fn has_no_quote(s: Seq<char>) -> bool {
    forall|i: int| 0 <= i < s.len() ==> s[i] != '"'
}

/// Whether `s` does not end with a backslash (so that a quote after it is
/// no escaped one).
pub open spec fn ends_without_backslash(s: Seq<char>) -> bool {
    s.len() == 0 || s.last() != '\\'
}

/// A step that reads more than one character reads Cyrillic letters only.
proof fn lemma_latin_step_reads_letters(c: char, n1: Option<char>, n2: Option<char>)
    ensures
        sr_latin_step(c, n1, n2).1 >= 2 ==> (is_serbian_cyrillic(c) && (n1 matches Some(x) && is_serbian_cyrillic(x))),
        sr_latin_step(c, n1, n2).1 == 3 ==> (n2 matches Some(y) && is_serbian_cyrillic(y)),
{
}

/// A step that reads more than one character reads Latin letters only.
proof fn lemma_cyrillic_step_reads_letters(c: char, n1: Option<char>)
    ensures
        sr_cyrillic_step(c, n1).1 >= 2 ==> (is_latin_letter(c) && (n1 matches Some(x) && is_latin_letter(x))),
{
}

/// Outside quotes, a text without quotes is transliterated character by
/// character, as `plain_to_latin` does.
proof fn lemma_latin_text_plain(s: Seq<char>, b: bool)
    requires
        has_no_quote(s),
    ensures
        sr_latin_text(s, false, b) == plain_to_latin(s),
    decreases s.len(),
{
    if s.len() > 0 {
        let (chunk, used) = sr_latin_step(s[0], char_at(s, 1), char_at(s, 2));
        lemma_latin_step(s[0], char_at(s, 1), char_at(s, 2));
        if used <= s.len() {
            let rest = s.skip(used as int);
            assert forall|i: int| 0 <= i < rest.len() implies rest[i] != '"' by {
                assert(rest[i] == s[i + used]);
            }
            lemma_latin_text_plain(rest, s[0] == '\\');
        }
    }
}

/// Outside quotes, a text without quotes is transliterated character by
/// character, as `plain_to_cyrillic` does.
proof fn lemma_cyrillic_text_plain(s: Seq<char>, b: bool)
    requires
        has_no_quote(s),
    ensures
        sr_cyrillic_text(s, false, b) == plain_to_cyrillic(s),
    decreases s.len(),
{
    if s.len() > 0 {
        let (chunk, used) = sr_cyrillic_step(s[0], char_at(s, 1));
        lemma_cyrillic_step(s[0], char_at(s, 1));
        if used <= s.len() {
            let rest = s.skip(used as int);
            assert forall|i: int| 0 <= i < rest.len() implies rest[i] != '"' by {
                assert(rest[i] == s[i + used]);
            }
            lemma_cyrillic_text_plain(rest, s[0] == '\\');
        }
    }
}

/// Inside quotes, a text without quotes is copied.
proof fn lemma_latin_quoted_copy(q: Seq<char>, r: Seq<char>, b: bool)
    requires
        has_no_quote(q),
    ensures
        sr_latin_text(q + r, true, b) == q + sr_latin_text(r, true, if q.len() == 0 { b } else { q.last() == '\\' }),
    decreases q.len(),
{
    if q.len() == 0 {
        assert(q + r =~= r);
        assert(q + sr_latin_text(r, true, b) =~= sr_latin_text(r, true, b));
    } else {
        let t = q + r;
        assert(t[0] == q[0]);
        assert(t.skip(1) =~= q.skip(1) + r);
        let q1 = q.skip(1);
        assert forall|i: int| 0 <= i < q1.len() implies q1[i] != '"' by {
            assert(q1[i] == q[i + 1]);
        }
        lemma_latin_quoted_copy(q1, r, q[0] == '\\');
        if q1.len() > 0 {
            assert(q1.last() == q.last());
        }
        assert(seq![q[0]] + (q1 + sr_latin_text(r, true, if q.len() == 0 { b } else { q.last() == '\\' }))
            =~= q + sr_latin_text(r, true, if q.len() == 0 { b } else { q.last() == '\\' }));
    }
}

/// Inside quotes, a text without quotes is copied.
proof fn lemma_cyrillic_quoted_copy(q: Seq<char>, r: Seq<char>, b: bool)
    requires
        has_no_quote(q),
    ensures
        sr_cyrillic_text(q + r, true, b) == q + sr_cyrillic_text(r, true, if q.len() == 0 { b } else { q.last() == '\\' }),
    decreases q.len(),
{
    if q.len() == 0 {
        assert(q + r =~= r);
        assert(q + sr_cyrillic_text(r, true, b) =~= sr_cyrillic_text(r, true, b));
    } else {
        let t = q + r;
        assert(t[0] == q[0]);
        assert(t.skip(1) =~= q.skip(1) + r);
        let q1 = q.skip(1);
        assert forall|i: int| 0 <= i < q1.len() implies q1[i] != '"' by {
            assert(q1[i] == q[i + 1]);
        }
        lemma_cyrillic_quoted_copy(q1, r, q[0] == '\\');
        if q1.len() > 0 {
            assert(q1.last() == q.last());
        }
        assert(seq![q[0]] + (q1 + sr_cyrillic_text(r, true, if q.len() == 0 { b } else { q.last() == '\\' }))
            =~= q + sr_cyrillic_text(r, true, if q.len() == 0 { b } else { q.last() == '\\' }));
    }
}

/// Outside quotes, a text without quotes followed by one that starts with
/// no Cyrillic letter: the first is transliterated on its own.
proof fn lemma_latin_text_concat(a: Seq<char>, r: Seq<char>, b: bool)
    requires
        has_no_quote(a),
        r.len() > 0,
        !is_serbian_cyrillic(r[0]),
    ensures
        sr_latin_text(a + r, false, b)
            == plain_to_latin(a) + sr_latin_text(r, false, if a.len() == 0 { b } else { a.last() == '\\' }),
    decreases a.len(),
{
    let s = a + r;
    if a.len() == 0 {
        assert(s =~= r);
        assert(Seq::<char>::empty() + sr_latin_text(r, false, b) =~= sr_latin_text(r, false, b));
    } else {
        lemma_latin_step(a[0], char_at(a, 1), char_at(a, 2));
        lemma_latin_step_reads_letters(a[0], char_at(a, 1), char_at(a, 2));
        if a.len() == 1 {
            assert(char_at(s, 1) == Some(r[0]));
            lemma_latin_step_lookahead(a[0], char_at(a, 1), r[0], char_at(s, 2));
        } else if a.len() == 2 {
            assert(char_at(s, 1) == char_at(a, 1));
            assert(char_at(s, 2) == Some(r[0]));
            lemma_latin_step_lookahead(a[0], char_at(a, 1), r[0], None);
        } else {
            assert(char_at(s, 1) == char_at(a, 1));
            assert(char_at(s, 2) == char_at(a, 2));
        }
        assert(s[0] == a[0]);
        let (chunk, used) = sr_latin_step(a[0], char_at(a, 1), char_at(a, 2));
        assert(used <= a.len());
        let a1 = a.skip(used as int);
        assert(s.skip(used as int) =~= a1 + r);
        assert forall|i: int| 0 <= i < a1.len() implies a1[i] != '"' by {
            assert(a1[i] == a[i + used]);
        }
        lemma_latin_text_concat(a1, r, a[0] == '\\');
        if a1.len() == 0 {
            if used >= 2 {
                assert(a.last() == a[used - 1]);
                assert(a[1] != '\\');
                if used == 3 {
                    assert(a[2] != '\\');
                }
            }
        } else {
            assert(a1.last() == a.last());
        }
        assert(chunk_seq(chunk) + (plain_to_latin(a1) + sr_latin_text(r, false, if a.len() == 0 { b } else { a.last() == '\\' }))
            =~= chunk_seq(chunk) + plain_to_latin(a1) + sr_latin_text(r, false, if a.len() == 0 { b } else { a.last() == '\\' }));
    }
}

/// Outside quotes, a text without quotes followed by one that starts with
/// no Latin letter: the first is transliterated on its own.
proof fn lemma_cyrillic_text_concat(a: Seq<char>, r: Seq<char>, b: bool)
    requires
        has_no_quote(a),
        r.len() > 0,
        !is_latin_letter(r[0]),
    ensures
        sr_cyrillic_text(a + r, false, b)
            == plain_to_cyrillic(a) + sr_cyrillic_text(r, false, if a.len() == 0 { b } else { a.last() == '\\' }),
    decreases a.len(),
{
    let s = a + r;
    if a.len() == 0 {
        assert(s =~= r);
        assert(Seq::<char>::empty() + sr_cyrillic_text(r, false, b) =~= sr_cyrillic_text(r, false, b));
    } else {
        lemma_cyrillic_step(a[0], char_at(a, 1));
        lemma_cyrillic_step_reads_letters(a[0], char_at(a, 1));
        if a.len() == 1 {
            assert(char_at(s, 1) == Some(r[0]));
            lemma_cyrillic_step_lookahead(a[0], r[0]);
        } else {
            assert(char_at(s, 1) == char_at(a, 1));
        }
        assert(s[0] == a[0]);
        let (chunk, used) = sr_cyrillic_step(a[0], char_at(a, 1));
        assert(used <= a.len());
        let a1 = a.skip(used as int);
        assert(s.skip(used as int) =~= a1 + r);
        assert forall|i: int| 0 <= i < a1.len() implies a1[i] != '"' by {
            assert(a1[i] == a[i + used]);
        }
        lemma_cyrillic_text_concat(a1, r, a[0] == '\\');
        if a1.len() == 0 {
            if used >= 2 {
                assert(a.last() == a[1]);
            }
        } else {
            assert(a1.last() == a.last());
        }
        assert(chunk_seq(chunk) + (plain_to_cyrillic(a1) + sr_cyrillic_text(r, false, if a.len() == 0 { b } else { a.last() == '\\' }))
            =~= chunk_seq(chunk) + plain_to_cyrillic(a1) + sr_cyrillic_text(r, false, if a.len() == 0 { b } else { a.last() == '\\' }));
    }
}

/// Characters between quotes are kept: in Cyrillic to Latin, a quoted block
/// stays as it is written, and the text on each side of it is transliterated
/// on its own.
pub proof fn law_latin_keeps_quoted_block(a: Seq<char>, q: Seq<char>, b: Seq<char>)
    requires
        has_no_quote(a),
        has_no_quote(q),
        has_no_quote(b),
        ends_without_backslash(a),
        ends_without_backslash(q),
    ensures
        serbian_to_latin(a + seq!['"'] + q + seq!['"'] + b)
            == serbian_to_latin(a) + seq!['"'] + q + seq!['"'] + serbian_to_latin(b),
{
    let tail = seq!['"'] + b;
    let r = seq!['"'] + (q + tail);
    assert(a + seq!['"'] + q + seq!['"'] + b =~= a + r);
    lemma_latin_text_concat(a, r, false);
    assert(r[0] == '"');
    assert(r.skip(1) =~= q + tail);
    lemma_latin_quoted_copy(q, tail, false);
    assert(tail[0] == '"');
    assert(tail.skip(1) =~= b);
    lemma_latin_text_plain(b, false);
    lemma_latin_text_plain(a, false);
    assert(plain_to_latin(a) + (seq!['"'] + (q + (seq!['"'] + plain_to_latin(b))))
        =~= plain_to_latin(a) + seq!['"'] + q + seq!['"'] + plain_to_latin(b));
}

/// Characters between quotes are kept: in Latin to Cyrillic, a quoted block
/// stays as it is written, and the text on each side of it is transliterated
/// on its own.
pub proof fn law_cyrillic_keeps_quoted_block(a: Seq<char>, q: Seq<char>, b: Seq<char>)
    requires
        has_no_quote(a),
        has_no_quote(q),
        has_no_quote(b),
        ends_without_backslash(a),
        ends_without_backslash(q),
    ensures
        serbian_to_cyrillic(a + seq!['"'] + q + seq!['"'] + b)
            == serbian_to_cyrillic(a) + seq!['"'] + q + seq!['"'] + serbian_to_cyrillic(b),
{
    let tail = seq!['"'] + b;
    let r = seq!['"'] + (q + tail);
    assert(a + seq!['"'] + q + seq!['"'] + b =~= a + r);
    lemma_cyrillic_text_concat(a, r, false);
    assert(r[0] == '"');
    assert(r.skip(1) =~= q + tail);
    lemma_cyrillic_quoted_copy(q, tail, false);
    assert(tail[0] == '"');
    assert(tail.skip(1) =~= b);
    lemma_cyrillic_text_plain(b, false);
    lemma_cyrillic_text_plain(a, false);
    assert(plain_to_cyrillic(a) + (seq!['"'] + (q + (seq!['"'] + plain_to_cyrillic(b))))
        =~= plain_to_cyrillic(a) + seq!['"'] + q + seq!['"'] + plain_to_cyrillic(b));
}

proof fn lemma_upper_keeps_quotes(s: Seq<char>)
    requires
        has_no_quote(s),
    ensures
        has_no_quote(upper_text(s)),
        has_no_quote(lower_ascii_text(s)),
{
    assert forall|i: int| 0 <= i < upper_text(s).len() implies upper_text(s)[i] != '"' by {
        assert(s[i] != '"');
    }
    assert forall|i: int| 0 <= i < lower_ascii_text(s).len() implies lower_ascii_text(s)[i] != '"' by {
        assert(s[i] != '"');
    }
}

/// Every Cyrillic letter outside quotes is transliterated: in a text without
/// quotes, Cyrillic to Latin leaves no Serbian Cyrillic letter.
pub proof fn law_latin_has_no_cyrillic(s: Seq<char>)
    requires
        has_no_quote(s),
    ensures
        forall|i: int| 0 <= i < serbian_to_latin(s).len() ==> !is_serbian_cyrillic(#[trigger] serbian_to_latin(s)[i]),
{
    lemma_latin_text_plain(s, false);
    lemma_plain_latin_has_no_cyrillic(s);
}

/// Every Latin letter outside quotes is transliterated: in a text without
/// quotes, Latin to Cyrillic leaves no Latin letter.
pub proof fn law_cyrillic_has_no_latin(s: Seq<char>)
    requires
        has_no_quote(s),
    ensures
        forall|i: int| 0 <= i < serbian_to_cyrillic(s).len() ==> !is_latin_letter(#[trigger] serbian_to_cyrillic(s)[i]),
{
    lemma_cyrillic_text_plain(s, false);
    lemma_plain_cyrillic_has_no_latin(s);
}

proof fn lemma_three_have_no_quote(a: Seq<char>, c: char, b: Seq<char>)
    requires
        has_no_quote(a),
        has_no_quote(b),
        c != '"',
    ensures
        has_no_quote(a + seq![c] + b),
{
    let t = a + seq![c] + b;
    assert forall|i: int| 0 <= i < t.len() implies t[i] != '"' by {
        if i < a.len() {
            assert(t[i] == a[i]);
        } else if i == a.len() {
        } else {
            assert(t[i] == b[i - a.len() - 1]);
        }
    }
}

/// Outside quotes, a character that is no Cyrillic letter splits a text for
/// Cyrillic to Latin: each side is transliterated on its own, and the
/// character stays.
pub proof fn law_latin_splits_at_other_char(a: Seq<char>, c: char, b: Seq<char>)
    requires
        !is_serbian_cyrillic(c),
        c != '"',
        has_no_quote(a),
        has_no_quote(b),
    ensures
        serbian_to_latin(a + seq![c] + b) == serbian_to_latin(a) + seq![c] + serbian_to_latin(b),
{
    lemma_three_have_no_quote(a, c, b);
    lemma_latin_text_plain(a + seq![c] + b, false);
    lemma_latin_text_plain(a, false);
    lemma_latin_text_plain(b, false);
    lemma_plain_latin_splits(a, c, b);
}

/// Outside quotes, a character that is no Latin letter splits a text for
/// Latin to Cyrillic: each side is transliterated on its own, and the
/// character stays.
pub proof fn law_cyrillic_splits_at_other_char(a: Seq<char>, c: char, b: Seq<char>)
    requires
        !is_latin_letter(c),
        c != '"',
        has_no_quote(a),
        has_no_quote(b),
    ensures
        serbian_to_cyrillic(a + seq![c] + b) == serbian_to_cyrillic(a) + seq![c] + serbian_to_cyrillic(b),
{
    lemma_three_have_no_quote(a, c, b);
    lemma_cyrillic_text_plain(a + seq![c] + b, false);
    lemma_cyrillic_text_plain(a, false);
    lemma_cyrillic_text_plain(b, false);
    lemma_plain_cyrillic_splits(a, c, b);
}

/// Latin to Cyrillic keeps the case of the letters: an ASCII text without
/// quotes in upper case gives the upper case of what the same text in lower
/// case gives.
pub proof fn law_cyrillic_keeps_case(s: Seq<char>)
    requires
        forall|i: int| 0 <= i < s.len() ==> is_ascii(#[trigger] s[i]),
        has_no_quote(s),
    ensures
        serbian_to_cyrillic(upper_text(s)) == upper_text(serbian_to_cyrillic(lower_ascii_text(s))),
{
    lemma_upper_keeps_quotes(s);
    lemma_cyrillic_text_plain(upper_text(s), false);
    lemma_cyrillic_text_plain(lower_ascii_text(s), false);
    lemma_plain_cyrillic_keeps_case(s);
}

/// Cyrillic to Latin keeps the case of the letters: a lower-case Cyrillic
/// text without quotes, in upper case, gives the upper case of what the text
/// gives.
pub proof fn law_latin_keeps_case(s: Seq<char>)
    requires
        forall|i: int| 0 <= i < s.len() ==> in_lower_cyrillic_text(#[trigger] s[i]),
        has_no_quote(s),
    ensures
        serbian_to_latin(upper_text(s)) == upper_text(serbian_to_latin(s)),
{
    lemma_upper_keeps_quotes(s);
    lemma_latin_text_plain(upper_text(s), false);
    lemma_latin_text_plain(s, false);
    lemma_plain_latin_keeps_case(s);
}


/// Whether a Latin letter and the one after it are read together as one
/// Cyrillic letter does not depend on the case of the second: `Sh`, `SH` and
/// `sh` are all one letter, and so are the pairs of `Ch`, `Dj`, `Dz`, `Lj`,
/// `Nj` and `Ts` in any case of their second letter. Only a lower-case `t` is
/// read otherwise (`ts` and `tT` pair, `tS` does not). What is written does
/// not depend on that case either.
pub proof fn law_cyrillic_digraph_ignores_case_of_second(c: char, x: char)
    requires
        is_latin_letter(c),
        c != 't',
        is_latin_letter(x),
    ensures
        sr_cyrillic_step(c, Some(x)) == sr_cyrillic_step(c, Some(lower_ascii(x))),
        sr_cyrillic_step(c, Some(upper_char(x))) == sr_cyrillic_step(c, Some(lower_ascii(x))),
        sr_cyrillic_step(c, Some(x)).1 == sr_cyrillic_step(c, Some(upper_char(x))).1,
{
}


/// A capitalised word is transliterated as the capital of its lower-case
/// transliteration: Latin to Cyrillic of a text whose first letter is put in
/// upper case is the transliteration of the text with its first letter put
/// in upper case (for first letters written as one Cyrillic letter, and
/// other than `t`).
pub proof fn law_capitalised_word_cyrillic(s: Seq<char>)
    requires
        s.len() > 0,
        'a' <= s[0] <= 'z',
        s[0] != 't' && s[0] != 'g' && s[0] != 'q' && s[0] != 'x',
        s.len() > 1 ==> is_ascii(s[1]),
    ensures
        serbian_to_cyrillic(s.update(0, upper_char(s[0])))
            == serbian_to_cyrillic(s).update(0, upper_char(serbian_to_cyrillic(s)[0])),
{
    let c = s[0];
    let cu = upper_char(c);
    let u = s.update(0, cu);
    let n1 = char_at(s, 1);
    assert(char_at(u, 1) == n1);
    assert(u[0] == cu);
    assert(lower_ascii(c) == c);
    lemma_cyrillic_step_case(c, n1);
    match n1 {
        Some(x) => {
            if is_latin_letter(x) {
                law_cyrillic_digraph_ignores_case_of_second(c, x);
                law_cyrillic_digraph_ignores_case_of_second(cu, x);
                assert(lower_ascii(upper_char(x)) == lower_ascii(x));
            } else {
                assert(upper_char(x) == x);
                assert(lower_ascii(x) == x);
            }
        },
        None => {},
    }
    let (ch_l, k) = sr_cyrillic_step(c, n1);
    let (ch_u, ku) = sr_cyrillic_step(cu, n1);
    assert(ku == k);
    assert(ch_l.1 is None);
    assert(chunk_seq(ch_l) == seq![ch_l.0]);
    assert(upper_text(seq![ch_l.0]) =~= seq![upper_char(ch_l.0)]);
    assert(chunk_seq(ch_u) == seq![upper_char(ch_l.0)]);
    lemma_cyrillic_step(c, n1);
    if k <= s.len() {
        assert(u.skip(k as int) =~= s.skip(k as int));
        let rest = sr_cyrillic_text(s.skip(k as int), false, false);
        assert(serbian_to_cyrillic(s) == seq![ch_l.0] + rest);
        assert(serbian_to_cyrillic(u) == seq![upper_char(ch_l.0)] + rest);
        assert((seq![ch_l.0] + rest).update(0, upper_char(ch_l.0)) =~= seq![upper_char(ch_l.0)] + rest);
    } else {
        assert(seq![ch_l.0].update(0, upper_char(ch_l.0)) =~= seq![upper_char(ch_l.0)]);
    }
}

} // verus!
