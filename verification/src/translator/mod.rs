//! Transliteration between Cyrillic alphabets and the Latin alphabet.
pub mod ioprocessor;
pub mod lang;

use vstd::prelude::*;
use crate::utils::text::string_push;
use lang::nil::Nil;
use lang::serbian::{Serbian, serbian_to_latin, serbian_to_cyrillic};

verus! {

/// Error raised while parsing a text to translate.
#[derive(Copy, Clone, PartialEq, Eq, Debug, Structural)]
pub enum ParserError {
    MissingToken,
}

/// Cyrillic alphabet language
#[derive(Copy, Clone, PartialEq, Eq, Debug, Structural)]
pub enum Language {
    Belarusian,
    Bulgarian,
    Nil,
    Russian,
    Serbian,
    Ukrainian,
}

/// The three-letter code by which a language is shown.
pub open spec fn language_code(language: Language) -> Seq<char> {
    match language {
        Language::Belarusian => seq!['б', 'е', 'л'],
        Language::Bulgarian => seq!['б', 'л', 'г'],
        Language::Nil => seq!['n', 'i', 'l'],
        Language::Russian => seq!['р', 'у', 'с'],
        Language::Serbian => seq!['р', 'у', 'с'],
        Language::Ukrainian => seq!['у', 'к', 'р'],
    }
}

impl Language {
    /// The three-letter code by which the language is shown in the prompt.
    pub fn to_string(&self) -> (s: String)
        ensures
            s@ == language_code(*self),
    {
        let (a, b, c) = match self {
            Language::Belarusian => ('б', 'е', 'л'),
            Language::Bulgarian => ('б', 'л', 'г'),
            Language::Nil => ('n', 'i', 'l'),
            Language::Russian => ('р', 'у', 'с'),
            Language::Serbian => ('р', 'у', 'с'),
            Language::Ukrainian => ('у', 'к', 'р'),
        };
        let mut s = String::new();
        string_push(&mut s, a);
        string_push(&mut s, b);
        string_push(&mut s, c);
        s
    }
}

/// The language named on the command line: `ru` or `рус` is Russian; any
/// other name is unknown.
pub open spec fn language_named(name: Seq<char>) -> Option<Language> {
    if name == seq!['r', 'u'] || name == seq!['р', 'у', 'с'] {
        Some(Language::Russian)
    } else {
        None
    }
}

/// Converts a language name given on the command line into a `Language`.
pub fn str_to_language(lang: &String) -> (r: Option<Language>)
    ensures
        r == language_named(lang@),
{
    let chars = crate::utils::text::string_chars(lang.as_str());
    if chars.len() == 2 && chars[0] == 'r' && chars[1] == 'u' {
        assert(chars@ =~= seq!['r', 'u']);
        Some(Language::Russian)
    } else if chars.len() == 3 && chars[0] == 'р' && chars[1] == 'у' && chars[2] == 'с' {
        assert(chars@ =~= seq!['р', 'у', 'с']);
        Some(Language::Russian)
    } else {
        None
    }
}

/// Up to two characters that one input character becomes.
pub type Chunk = (char, Option<char>);

/// The characters of a chunk, in order.
pub open spec fn chunk_seq(c: Chunk) -> Seq<char> {
    match c.1 {
        Some(d) => seq![c.0, d],
        None => seq![c.0],
    }
}

/// The character at index `i` of `s`, if there is one.
pub open spec fn char_at(s: Seq<char>, i: int) -> Option<char> {
    if 0 <= i < s.len() {
        Some(s[i])
    } else {
        None
    }
}

/// Appends the characters of `chunk` to `out`.
pub fn push_chunk(out: &mut String, chunk: Chunk)
    ensures
        final(out)@ == old(out)@ + chunk_seq(chunk),
{
    string_push(out, chunk.0);
    match chunk.1 {
        Some(d) => {
            string_push(out, d);
            assert(old(out)@.push(chunk.0).push(d) =~= old(out)@ + chunk_seq(chunk));
        },
        None => {
            assert(old(out)@.push(chunk.0) =~= old(out)@ + chunk_seq(chunk));
        },
    }
}

/// Converts text between a Cyrillic script and the Latin script.
pub trait Translator {
    /// The Latin text for a Cyrillic input.
    spec fn latin_of(&self, input: Seq<char>) -> Seq<char>;

    /// The Cyrillic text for a Latin input.
    spec fn cyrillic_of(&self, input: Seq<char>) -> Seq<char>;

    /// Converts a string which contains cyrillic characters into a latin string;
    /// characters between quotes are kept.
    fn to_latin(&self, input: &String) -> (output: String)
        ensures
            output@ == self.latin_of(input@),
    ;

    /// Converts a string which contains latin characters into a cyrillic string;
    /// characters between quotes are kept.
    fn to_cyrillic(&self, input: &String) -> (output: String)
        ensures
            output@ == self.cyrillic_of(input@),
    ;
}

/// Latin text of `input` in `language`. Only the Serbian table is carried by
/// this crate; the other languages leave text as it is.
pub open spec fn latin_in(language: Language, input: Seq<char>) -> Seq<char> {
    match language {
        Language::Serbian => serbian_to_latin(input),
        _ => input,
    }
}

/// Cyrillic text of `input` in `language` (see `latin_in`).
pub open spec fn cyrillic_in(language: Language, input: Seq<char>) -> Seq<char> {
    match language {
        Language::Serbian => serbian_to_cyrillic(input),
        _ => input,
    }
}

/// The translator of one language.
pub struct LangTranslator {
    pub language: Language,
}

impl Translator for LangTranslator {
    open spec fn latin_of(&self, input: Seq<char>) -> Seq<char> {
        latin_in(self.language, input)
    }

    open spec fn cyrillic_of(&self, input: Seq<char>) -> Seq<char> {
        cyrillic_in(self.language, input)
    }

    fn to_latin(&self, input: &String) -> (output: String) {
        match self.language {
            Language::Serbian => (Serbian {}).to_latin(input),
            _ => (Nil {}).to_latin(input),
        }
    }

    fn to_cyrillic(&self, input: &String) -> (output: String) {
        match self.language {
            Language::Serbian => (Serbian {}).to_cyrillic(input),
            _ => (Nil {}).to_cyrillic(input),
        }
    }
}

/// instantiates a new Translator with the provided language,
/// associating the correct conversion functions
pub fn new_translator(language: Language) -> (t: LangTranslator)
    ensures
        t.language == language,
{
    LangTranslator { language }
}

} // verus!
