//! The language flag shown by the prompt.
use vstd::prelude::*;
use crate::translator::{Language, language_code};
use super::colors::{PromptColor, color_code};

verus! {

/// The colours of the three letters of a language's flag, if it has one.
pub open spec fn flag_colors(language: Language) -> Option<(PromptColor, PromptColor, PromptColor)> {
    match language {
        Language::Belarusian => Some((PromptColor::Red, PromptColor::Green, PromptColor::White)),
        Language::Bulgarian => Some((PromptColor::White, PromptColor::Green, PromptColor::Red)),
        Language::Russian => Some((PromptColor::White, PromptColor::Blue, PromptColor::Red)),
        Language::Serbian => Some((PromptColor::Red, PromptColor::Blue, PromptColor::White)),
        Language::Ukrainian => Some((PromptColor::Cyan, PromptColor::Yellow, PromptColor::Cyan)),
        Language::Nil => None,
    }
}

/// The language code with each letter in the colour of the flag, followed by
/// a colour reset; a language without flag shows its plain code.
pub open spec fn language_flag(language: Language) -> Seq<char> {
    let code = language_code(language);
    match flag_colors(language) {
        Some((a, b, c)) => color_code(a) + seq![code[0]] + color_code(b) + seq![code[1]] + color_code(c)
            + seq![code[2]] + color_code(PromptColor::Reset),
        None => code,
    }
}

/// The language code, coloured as the language's flag.
pub fn language_to_str(language: Language) -> (s: String)
    ensures
        s@ == language_flag(language),
{
    let code = language.to_string();
    let colors = match language {
        Language::Belarusian => Some((PromptColor::Red, PromptColor::Green, PromptColor::White)),
        Language::Bulgarian => Some((PromptColor::White, PromptColor::Green, PromptColor::Red)),
        Language::Russian => Some((PromptColor::White, PromptColor::Blue, PromptColor::Red)),
        Language::Serbian => Some((PromptColor::Red, PromptColor::Blue, PromptColor::White)),
        Language::Ukrainian => Some((PromptColor::Cyan, PromptColor::Yellow, PromptColor::Cyan)),
        Language::Nil => None,
    };
    match colors {
        None => code,
        Some((a, b, c)) => {
            let letters = crate::utils::text::string_chars(code.as_str());
            let mut s = a.to_string();
            crate::utils::text::string_push(&mut s, letters[0]);
            s.append(b.to_string().as_str());
            crate::utils::text::string_push(&mut s, letters[1]);
            s.append(c.to_string().as_str());
            crate::utils::text::string_push(&mut s, letters[2]);
            s.append(PromptColor::Reset.to_string().as_str());
            assert(s@ =~= language_flag(language));
            s
        },
    }
}

} // verus!
