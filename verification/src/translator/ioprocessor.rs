//! Translation of whole shell expressions and of shell output.
//!
//! An expression is translated piece by piece: text between double quotes is
//! kept as written, a backslash protects the character after it, and every
//! `(...)` block is translated on its own, so that `echo $(hostname)` keeps its
//! structure. Unbalanced quotes or parentheses, or a trailing backslash, are
//! reported as a missing token.
use vstd::prelude::*;
use super::{Language, LangTranslator, Translator, latin_in, cyrillic_in, new_translator};
use crate::utils::text::{string_push, string_chars, replace_all, replaced, find_all_matches, regex_find_all};
use super::lang::serbian::{has_no_quote, is_serbian_cyrillic, is_latin_letter, law_latin_splits_at_other_char,
    law_cyrillic_splits_at_other_char};

verus! {

/// Parser Error represents an error while parsing an expression
#[derive(Copy, Clone, PartialEq, Eq, Debug, Structural)]
pub enum ExpressionParserError {
    MissingToken,
}

/// Expression Conversion indicates the type of conversion to perform on the expression
#[derive(Copy, Clone, PartialEq, Eq, Debug, Structural)]
pub enum ExpressionConversion {
    ToLatin,
    ToCyrillic,
}

/// Translation of a piece of text in the given direction.
pub open spec fn convert(language: Language, conversion: ExpressionConversion, s: Seq<char>) -> Seq<char> {
    match conversion {
        ExpressionConversion::ToLatin => latin_in(language, s),
        ExpressionConversion::ToCyrillic => cyrillic_in(language, s),
    }
}

/// One nesting level of an expression being translated: the text produced so
/// far at this level, the pending token, and the parser flags.
pub struct ExprLevel {
    pub text: Seq<char>,
    pub token: Seq<char>,
    pub escape_block: bool,
    pub backslash: bool,
    pub in_expression: bool,
}

/// The level an expression starts with.
pub open spec fn fresh_level() -> ExprLevel {
    ExprLevel { text: Seq::empty(), token: Seq::empty(), escape_block: false, backslash: false, in_expression: false }
}

/// The effect of one character on the stack of levels (the innermost level
/// last); `None` where the character closes a block that cannot be closed.
pub open spec fn expr_step(
    language: Language,
    conversion: ExpressionConversion,
    stack: Seq<ExprLevel>,
    c: char,
) -> Option<Seq<ExprLevel>> {
    if stack.len() == 0 {
        None
    } else {
        let top = stack.last();
        let below = stack.drop_last();
        if c == '(' && !top.backslash {
            // the pending token is translated, and a new level opens with `(`
            let saved = ExprLevel {
                text: top.text + convert(language, conversion, top.token),
                token: Seq::empty(),
                escape_block: false,
                ..top
            };
            let inner = ExprLevel {
                text: Seq::empty(),
                token: seq!['('],
                escape_block: false,
                backslash: false,
                in_expression: true,
            };
            Some(below.push(saved).push(inner))
        } else if c == ')' && !top.backslash {
            // the level closes; its text goes to the end of the level below
            let output = top.text + convert(language, conversion, top.token.push(')'));
            if top.escape_block || stack.len() < 2 {
                None
            } else {
                let prev = stack[stack.len() - 2];
                Some(stack.take(stack.len() - 2).push(ExprLevel { text: prev.text + output, ..prev }))
            }
        } else if c == '"' && !top.backslash {
            if top.escape_block {
                // a quoted block ends and is kept as written
                Some(below.push(ExprLevel {
                    text: top.text + top.token.push('"'),
                    token: Seq::empty(),
                    escape_block: false,
                    ..top
                }))
            } else {
                // a quoted block starts
                Some(below.push(ExprLevel {
                    text: top.text + convert(language, conversion, top.token),
                    token: seq!['"'],
                    escape_block: true,
                    ..top
                }))
            }
        } else {
            Some(below.push(ExprLevel { token: top.token.push(c), backslash: c == '\\', ..top }))
        }
    }
}

/// The stack after reading all of `s`, from `stack`.
pub open spec fn expr_run(
    language: Language,
    conversion: ExpressionConversion,
    stack: Seq<ExprLevel>,
    s: Seq<char>,
) -> Option<Seq<ExprLevel>>
    decreases s.len(),
{
    if s.len() == 0 {
        Some(stack)
    } else {
        match expr_step(language, conversion, stack, s[0]) {
            Some(next) => expr_run(language, conversion, next, s.skip(1)),
            None => None,
        }
    }
}

/// The translation of a whole expression.
pub open spec fn expression_translation(
    language: Language,
    conversion: ExpressionConversion,
    expression: Seq<char>,
) -> Result<Seq<char>, ExpressionParserError> {
    match expr_run(language, conversion, seq![fresh_level()], expression) {
        None => Err(ExpressionParserError::MissingToken),
        Some(stack) => {
            let top = stack.last();
            if stack.len() != 1 || top.backslash || top.in_expression || top.escape_block {
                Err(ExpressionParserError::MissingToken)
            } else {
                Ok(top.text + convert(language, conversion, top.token))
            }
        },
    }
}

/// The regular expression of the terminal colour sequences, as written in the
/// Latin script.
pub open spec fn colors_escape_pattern() -> Seq<char> {
    seq!['\x1b', '\\', '[', '[', '0', '-', '9', ']', '{', '1', ',', '2', '}', 'm']
}

/// `text` with each sequence of `matches`, in turn, replaced by its Latin
/// translation wherever it occurs.
pub open spec fn escaped_with(language: Language, text: Seq<char>, matches: Seq<Seq<char>>) -> Seq<char>
    decreases matches.len(),
{
    if matches.len() == 0 {
        text
    } else {
        escaped_with(
            language,
            replaced(text, matches[0], latin_in(language, matches[0])),
            matches.skip(1),
        )
    }
}

/// Latin text turned into the Cyrillic of `language`, with the terminal colour
/// sequences (the matches of `pattern` in the translation) put back into the
/// Latin script.
pub open spec fn cyrillic_output(language: Language, pattern: Seq<char>, text: Seq<char>) -> Seq<char> {
    let translated = cyrillic_in(language, text);
    match regex_find_all(pattern, translated) {
        Some(matches) => escaped_with(language, translated, matches),
        None => translated,
    }
}

/// The text of a translation result, by its view.
pub open spec fn result_view(r: Result<String, ExpressionParserError>) -> Result<Seq<char>, ExpressionParserError> {
    match r {
        Ok(s) => Ok(s@),
        Err(e) => Err(e),
    }
}

/// Expression Parser states: the exec form of one `ExprLevel`.
struct ExpressionParserStates {
    text: String,
    expression_token: String,
    escape_block: bool,
    backslash: bool,
    in_expression: bool,
}

impl ExpressionParserStates {
    spec fn level(&self) -> ExprLevel {
        ExprLevel {
            text: self.text@,
            token: self.expression_token@,
            escape_block: self.escape_block,
            backslash: self.backslash,
            in_expression: self.in_expression,
        }
    }

    fn new() -> (s: ExpressionParserStates)
        ensures
            s.level() == fresh_level(),
    {
        ExpressionParserStates {
            text: String::new(),
            expression_token: String::new(),
            escape_block: false,
            backslash: false,
            in_expression: false,
        }
    }
}

spec fn levels_of(saved: Seq<ExpressionParserStates>, cur: ExpressionParserStates) -> Seq<ExprLevel> {
    saved.map_values(|s: ExpressionParserStates| s.level()).push(cur.level())
}

/// IOProcessor translates user input and shell output with the translator of
/// one language.
pub struct IOProcessor {
    translator: LangTranslator,
    pub language: Language,
    escape_colors_pattern: String,
}

impl IOProcessor {
    /// The language whose translator the processor uses.
    pub closed spec fn translator_language(&self) -> Language {
        self.translator.language
    }

    /// The language the processor was built for.
    pub closed spec fn language_of(&self) -> Language {
        self.language
    }

    /// The colour-sequence pattern, in the processor's script.
    pub closed spec fn escape_pattern(&self) -> Seq<char> {
        self.escape_colors_pattern@
    }

    /// Instantiates a new IOProcessor with the provided translator
    pub fn new(language: Language, translator: LangTranslator) -> (p: IOProcessor)
        ensures
            p.language_of() == language,
            p.translator_language() == translator.language,
            p.escape_pattern() == cyrillic_in(translator.language, colors_escape_pattern()),
    {
        let mut latin_pattern = String::new();
        string_push(&mut latin_pattern, '\x1b');
        string_push(&mut latin_pattern, '\\');
        string_push(&mut latin_pattern, '[');
        string_push(&mut latin_pattern, '[');
        string_push(&mut latin_pattern, '0');
        string_push(&mut latin_pattern, '-');
        string_push(&mut latin_pattern, '9');
        string_push(&mut latin_pattern, ']');
        string_push(&mut latin_pattern, '{');
        string_push(&mut latin_pattern, '1');
        string_push(&mut latin_pattern, ',');
        string_push(&mut latin_pattern, '2');
        string_push(&mut latin_pattern, '}');
        string_push(&mut latin_pattern, 'm');
        assert(latin_pattern@ =~= colors_escape_pattern());
        let pattern = translator.to_cyrillic(&latin_pattern);
        IOProcessor { translator, language, escape_colors_pattern: pattern }
    }

    /// The language the processor was built for.
    pub fn get_language(&self) -> (l: Language)
        ensures
            l == self.language_of(),
    {
        self.language
    }

    /// Converts a cyrillic expression into a latin string ready to be performed as a shell process
    /// An expression must care of backslashes, escapes and inner expressions '(...)'
    pub fn expression_to_latin(&self, expression: &String) -> (r: Result<String, ExpressionParserError>)
        ensures
            result_view(r) == expression_translation(self.translator_language(), ExpressionConversion::ToLatin, expression@),
    {
        self.translate_expression(expression, ExpressionConversion::ToLatin)
    }

    /// Converts a latin expression into a cyrillic string.
    pub fn expression_to_cyrillic(&self, expression: &String) -> (r: Result<String, ExpressionParserError>)
        ensures
            result_view(r) == expression_translation(self.translator_language(), ExpressionConversion::ToCyrillic, expression@),
    {
        self.translate_expression(expression, ExpressionConversion::ToCyrillic)
    }

    /// Converts a cyrillic text into latin using the provided translator
    pub fn text_to_latin(&self, text: &String) -> (s: String)
        ensures
            s@ == latin_in(self.translator_language(), text@),
    {
        self.translator.to_latin(text)
    }

    /// Converts a latin text into cyrillic using the provided translator,
    /// then puts the terminal colour sequences back into the Latin script.
    pub fn text_to_cyrillic(&self, text: &String) -> (s: String)
        ensures
            s@ == cyrillic_output(self.translator_language(), self.escape_pattern(), text@),
    {
        let translated = self.translator.to_cyrillic(text);
        match find_all_matches(self.escape_colors_pattern.as_str(), translated.as_str()) {
            Some(matches) => self.escape_colors(&translated, &matches),
            None => translated,
        }
    }

    /// Since colors sequences have latin characters, the translator will translate these ascii characters too
    /// this functions has been implemented to redefine color sequences: each
    /// of `matches` is replaced, wherever it occurs, by its Latin translation.
    pub fn escape_colors(&self, cyrillic_text: &String, matches: &Vec<String>) -> (s: String)
        ensures
            s@ == escaped_with(self.translator_language(), cyrillic_text@, matches@.map_values(|m: String| m@)),
    {
        let ghost all = matches@.map_values(|m: String| m@);
        let mut res = cyrillic_text.clone();
        let mut i: usize = 0;
        assert(all.skip(0) =~= all);
        while i < matches.len()
            invariant
                i <= matches.len(),
                all == matches@.map_values(|m: String| m@),
                escaped_with(self.translator_language(), res@, all.skip(i as int))
                    == escaped_with(self.translator_language(), cyrillic_text@, all),
            decreases matches.len() - i,
        {
            let mtch = &matches[i];
            let replace_with = self.text_to_latin(mtch);
            let next = replace_all(res.as_str(), mtch.as_str(), replace_with.as_str());
            assert(all.skip(i as int).skip(1) =~= all.skip(i + 1));
            assert(all.skip(i as int)[0] == mtch@);
            res = next;
            i += 1;
        }
        res
    }

    /// Converts an expression and translate unescaped texts using the desidered translate function
    fn translate(&self, s: &String, conversion: ExpressionConversion) -> (r: String)
        ensures
            r@ == convert(self.translator_language(), conversion, s@),
    {
        match conversion {
            ExpressionConversion::ToLatin => self.translator.to_latin(s),
            ExpressionConversion::ToCyrillic => self.translator.to_cyrillic(s),
        }
    }

    /// Converts an expression and translate unescaped texts using the desidered translate function
    fn translate_expression(&self, expression: &String, conversion: ExpressionConversion) -> (r: Result<String, ExpressionParserError>)
        ensures
            result_view(r) == expression_translation(self.translator_language(), conversion, expression@),
    {
        let ghost lang = self.translator_language();
        let chars = string_chars(expression.as_str());
        let mut saved: Vec<ExpressionParserStates> = Vec::new();
        let mut states = ExpressionParserStates::new();
        let mut i: usize = 0;
        assert(chars@.skip(0) =~= chars@);
        assert(levels_of(saved@, states) =~= seq![fresh_level()]);
        while i < chars.len()
            invariant
                i <= chars.len(),
                chars@ == expression@,
                lang == self.translator_language(),
                expr_run(lang, conversion, seq![fresh_level()], chars@)
                    == expr_run(lang, conversion, levels_of(saved@, states), chars@.skip(i as int)),
            decreases chars.len() - i,
        {
            let c = chars[i];
            let ghost before = levels_of(saved@, states);
            let ghost rest = chars@.skip(i as int);
            assert(rest[0] == c);
            assert(rest.skip(1) =~= chars@.skip(i + 1));
            if c == '(' && !states.backslash {
                states.escape_block = false;
                let converted = self.translate(&states.expression_token, conversion);
                states.text.append(converted.as_str());
                states.expression_token = String::new();
                let mut inner = ExpressionParserStates::new();
                inner.in_expression = true;
                string_push(&mut inner.expression_token, c);
                saved.push(states);
                states = inner;
                assert(levels_of(saved@, states) =~= expr_step(lang, conversion, before, c).unwrap());
            } else if c == ')' && !states.backslash {
                states.in_expression = false;
                string_push(&mut states.expression_token, c);
                let converted = self.translate(&states.expression_token, conversion);
                states.text.append(converted.as_str());
                if states.escape_block {
                    return Err(ExpressionParserError::MissingToken);
                }
                match saved.pop() {
                    Some(prev) => {
                        let output = states.text;
                        let mut prev = prev;
                        prev.text.append(output.as_str());
                        states = prev;
                        assert(levels_of(saved@, states) =~= expr_step(lang, conversion, before, c).unwrap());
                    },
                    None => {
                        return Err(ExpressionParserError::MissingToken);
                    },
                }
            } else if c == '"' && !states.backslash {
                if states.escape_block {
                    string_push(&mut states.expression_token, c);
                    states.text.append(states.expression_token.as_str());
                    states.expression_token = String::new();
                } else {
                    let converted = self.translate(&states.expression_token, conversion);
                    states.text.append(converted.as_str());
                    states.expression_token = String::new();
                    string_push(&mut states.expression_token, c);
                }
                states.escape_block = !states.escape_block;
                assert(levels_of(saved@, states) =~= expr_step(lang, conversion, before, c).unwrap());
            } else {
                states.backslash = c == '\\';
                string_push(&mut states.expression_token, c);
                assert(levels_of(saved@, states) =~= expr_step(lang, conversion, before, c).unwrap());
            }
            i += 1;
        }
        let converted = self.translate(&states.expression_token, conversion);
        states.text.append(converted.as_str());
        if states.backslash || states.in_expression || states.escape_block || saved.len() > 0 {
            return Err(ExpressionParserError::MissingToken);
        }
        Ok(states.text)
    }
}

} // verus!

verus! {

/// Whether `c` has a meaning of its own in an expression.
pub open spec fn is_expression_token(c: char) -> bool {
    c == '(' || c == ')' || c == '"' || c == '\\'
}

proof fn lemma_run_plain(language: Language, conversion: ExpressionConversion, token: Seq<char>, s: Seq<char>)
    requires
        forall|i: int| 0 <= i < s.len() ==> !is_expression_token(#[trigger] s[i]),
    ensures
        expr_run(language, conversion, seq![ExprLevel { token: token, ..fresh_level() }], s)
            == Some(seq![ExprLevel { token: token + s, ..fresh_level() }]),
    decreases s.len(),
{
    if s.len() == 0 {
        assert(token + s =~= token);
    } else {
        let stack = seq![ExprLevel { token: token, ..fresh_level() }];
        assert(!is_expression_token(s[0]));
        let next = seq![ExprLevel { token: token.push(s[0]), ..fresh_level() }];
        assert(stack.drop_last().push(ExprLevel { token: stack.last().token.push(s[0]), backslash: false, ..stack.last() }) =~= next);
        assert(expr_step(language, conversion, stack, s[0]) == Some(next));
        assert forall|i: int| 0 <= i < s.skip(1).len() implies !is_expression_token(#[trigger] s.skip(1)[i]) by {
            assert(s.skip(1)[i] == s[i + 1]);
        }
        lemma_run_plain(language, conversion, token.push(s[0]), s.skip(1));
        assert(token.push(s[0]) + s.skip(1) =~= token + s);
    }
}

/// An expression with no parentheses, double quotes or backslashes is
/// translated as one piece of text.
pub proof fn law_plain_expression_is_plain_text(
    language: Language,
    conversion: ExpressionConversion,
    expression: Seq<char>,
)
    requires
        forall|i: int| 0 <= i < expression.len() ==> !is_expression_token(#[trigger] expression[i]),
    ensures
        expression_translation(language, conversion, expression) == Ok::<Seq<char>, ExpressionParserError>(
            convert(language, conversion, expression),
        ),
{
    lemma_run_plain(language, conversion, Seq::empty(), expression);
    assert(seq![ExprLevel { token: Seq::<char>::empty(), ..fresh_level() }] =~= seq![fresh_level()]);
    assert(Seq::<char>::empty() + expression =~= expression);
    assert(Seq::<char>::empty() + convert(language, conversion, expression) =~= convert(language, conversion, expression));
}

proof fn lemma_run_plain_level(language: Language, conversion: ExpressionConversion, l: ExprLevel, s: Seq<char>)
    requires
        !l.backslash,
        forall|i: int| 0 <= i < s.len() ==> !is_expression_token(#[trigger] s[i]),
    ensures
        expr_run(language, conversion, seq![l], s) == Some(seq![ExprLevel { token: l.token + s, ..l }]),
    decreases s.len(),
{
    if s.len() == 0 {
        assert(l.token + s =~= l.token);
        assert(seq![ExprLevel { token: l.token + s, ..l }] =~= seq![l]);
    } else {
        let stack = seq![l];
        assert(!is_expression_token(s[0]));
        let l2 = ExprLevel { token: l.token.push(s[0]), ..l };
        assert(stack.drop_last().push(ExprLevel { token: stack.last().token.push(s[0]), backslash: false, ..stack.last() }) =~= seq![l2]);
        assert(expr_step(language, conversion, stack, s[0]) == Some(seq![l2]));
        assert forall|i: int| 0 <= i < s.skip(1).len() implies !is_expression_token(#[trigger] s.skip(1)[i]) by {
            assert(s.skip(1)[i] == s[i + 1]);
        }
        lemma_run_plain_level(language, conversion, l2, s.skip(1));
        assert(l.token.push(s[0]) + s.skip(1) =~= l.token + s);
    }
}

/// Nothing is translated in the empty text.
proof fn lemma_convert_empty(language: Language, conversion: ExpressionConversion)
    ensures
        convert(language, conversion, Seq::empty()) == Seq::<char>::empty(),
{
}

/// Text between double quotes is kept as it is written: a quoted block with
/// no parentheses, quotes or backslashes inside is its own translation.
pub proof fn law_quoted_text_is_kept(language: Language, conversion: ExpressionConversion, quoted: Seq<char>)
    requires
        forall|i: int| 0 <= i < quoted.len() ==> !is_expression_token(#[trigger] quoted[i]),
    ensures
        expression_translation(language, conversion, seq!['"'] + quoted + seq!['"'])
            == Ok::<Seq<char>, ExpressionParserError>(seq!['"'] + quoted + seq!['"']),
{
    lemma_convert_empty(language, conversion);
    let e = seq!['"'] + quoted + seq!['"'];
    let start = seq![fresh_level()];
    // the opening quote starts a block
    let opened = ExprLevel { text: Seq::empty(), token: seq!['"'], escape_block: true, ..fresh_level() };
    assert(Seq::<char>::empty() + convert(language, conversion, Seq::<char>::empty()) =~= Seq::<char>::empty());
    assert(start.drop_last().push(opened) =~= seq![opened]);
    assert(expr_step(language, conversion, start, '"') == Some(seq![opened]));
    // the quoted characters join the block
    lemma_run_plain_level(language, conversion, opened, quoted);
    let filled = ExprLevel { token: seq!['"'] + quoted, ..opened };
    // the closing quote ends it
    let closed = ExprLevel { text: filled.token.push('"'), token: Seq::empty(), escape_block: false, ..filled };
    assert(Seq::<char>::empty() + filled.token.push('"') =~= filled.token.push('"'));
    assert(seq![filled].drop_last().push(closed) =~= seq![closed]);
    assert(expr_step(language, conversion, seq![filled], '"') == Some(seq![closed]));
    // running the whole expression
    lemma_run_concat(language, conversion, start, seq!['"'], quoted + seq!['"']);
    lemma_run_concat(language, conversion, seq![opened], quoted, seq!['"']);
    assert(e =~= seq!['"'] + (quoted + seq!['"']));
    lemma_run_single(language, conversion, start, '"');
    lemma_run_single(language, conversion, seq![filled], '"');
    assert(closed.text + convert(language, conversion, closed.token) =~= e);
}

/// Running two texts one after the other is running them together.
proof fn lemma_run_concat(
    language: Language,
    conversion: ExpressionConversion,
    stack: Seq<ExprLevel>,
    a: Seq<char>,
    b: Seq<char>,
)
    ensures
        expr_run(language, conversion, stack, a + b) == match expr_run(language, conversion, stack, a) {
            Some(mid) => expr_run(language, conversion, mid, b),
            None => None,
        },
    decreases a.len(),
{
    if a.len() == 0 {
        assert(a + b =~= b);
    } else {
        assert((a + b)[0] == a[0]);
        assert((a + b).skip(1) =~= a.skip(1) + b);
        match expr_step(language, conversion, stack, a[0]) {
            Some(next) => lemma_run_concat(language, conversion, next, a.skip(1), b),
            None => {},
        }
    }
}

/// Running one character is one step.
proof fn lemma_run_single(language: Language, conversion: ExpressionConversion, stack: Seq<ExprLevel>, c: char)
    ensures
        expr_run(language, conversion, stack, seq![c]) == expr_step(language, conversion, stack, c),
{
    assert(seq![c].skip(1) =~= Seq::<char>::empty());
    match expr_step(language, conversion, stack, c) {
        Some(next) => {
            assert(expr_run(language, conversion, next, Seq::<char>::empty()) == Some(next));
        },
        None => {},
    }
}

/// The characters that a stack of levels stands for: the text and the pending
/// token of each level, from the outermost.
pub open spec fn levels_text(stack: Seq<ExprLevel>) -> Seq<char>
    decreases stack.len(),
{
    if stack.len() == 0 {
        Seq::empty()
    } else {
        levels_text(stack.drop_last()) + stack.last().text + stack.last().token
    }
}

spec fn outer_tokens_empty(stack: Seq<ExprLevel>) -> bool {
    forall|i: int| 0 <= i < stack.len() - 1 ==> (#[trigger] stack[i]).token.len() == 0
}

proof fn lemma_levels_text_push(stack: Seq<ExprLevel>, l: ExprLevel)
    ensures
        levels_text(stack.push(l)) == levels_text(stack) + l.text + l.token,
{
    assert(stack.push(l).drop_last() =~= stack);
}

proof fn lemma_step_keeps_text(language: Language, conversion: ExpressionConversion, stack: Seq<ExprLevel>, c: char)
    requires
        language != Language::Serbian,
        stack.len() > 0,
        outer_tokens_empty(stack),
        expr_step(language, conversion, stack, c) is Some,
    ensures
        ({
            let next = expr_step(language, conversion, stack, c).unwrap();
            &&& next.len() > 0
            &&& outer_tokens_empty(next)
            &&& levels_text(next) == levels_text(stack).push(c)
        }),
{
    let top = stack.last();
    let below = stack.drop_last();
    let next = expr_step(language, conversion, stack, c).unwrap();
    assert(stack =~= below.push(top));
    lemma_levels_text_push(below, top);
    if c == '(' && !top.backslash {
        let saved = ExprLevel { text: top.text + top.token, token: Seq::empty(), escape_block: false, ..top };
        let inner = ExprLevel { text: Seq::empty(), token: seq!['('], escape_block: false, backslash: false, in_expression: true };
        assert(next == below.push(saved).push(inner));
        lemma_levels_text_push(below, saved);
        lemma_levels_text_push(below.push(saved), inner);
        assert(levels_text(next) =~= levels_text(stack).push(c));
        assert forall|i: int| 0 <= i < next.len() - 1 implies (#[trigger] next[i]).token.len() == 0 by {
            if i < below.len() {
                assert(next[i] == stack[i]);
            }
        }
    } else if c == ')' && !top.backslash {
        let prev = stack[stack.len() - 2];
        let base = stack.take(stack.len() - 2);
        let output = top.text + top.token.push(')');
        assert(next == base.push(ExprLevel { text: prev.text + output, ..prev }));
        assert(below =~= base.push(prev));
        lemma_levels_text_push(base, prev);
        lemma_levels_text_push(base, ExprLevel { text: prev.text + output, ..prev });
        assert(prev.token.len() == 0);
        assert(levels_text(next) =~= levels_text(stack).push(c));
        assert forall|i: int| 0 <= i < next.len() - 1 implies (#[trigger] next[i]).token.len() == 0 by {
            assert(next[i] == stack[i]);
        }
    } else if c == '"' && !top.backslash {
        if top.escape_block {
            let l = ExprLevel { text: top.text + top.token.push('"'), token: Seq::empty(), escape_block: false, ..top };
            assert(next == below.push(l));
            lemma_levels_text_push(below, l);
            assert(levels_text(next) =~= levels_text(stack).push(c));
        } else {
            let l = ExprLevel { text: top.text + top.token, token: seq!['"'], escape_block: true, ..top };
            assert(next == below.push(l));
            lemma_levels_text_push(below, l);
            assert(levels_text(next) =~= levels_text(stack).push(c));
        }
        assert forall|i: int| 0 <= i < next.len() - 1 implies (#[trigger] next[i]).token.len() == 0 by {
            assert(next[i] == stack[i]);
        }
    } else {
        let l = ExprLevel { token: top.token.push(c), backslash: c == '\\', ..top };
        assert(next == below.push(l));
        lemma_levels_text_push(below, l);
        assert(levels_text(next) =~= levels_text(stack).push(c));
        assert forall|i: int| 0 <= i < next.len() - 1 implies (#[trigger] next[i]).token.len() == 0 by {
            assert(next[i] == stack[i]);
        }
    }
}

proof fn lemma_run_keeps_text(language: Language, conversion: ExpressionConversion, stack: Seq<ExprLevel>, s: Seq<char>)
    requires
        language != Language::Serbian,
        stack.len() > 0,
        outer_tokens_empty(stack),
        expr_run(language, conversion, stack, s) is Some,
    ensures
        ({
            let last = expr_run(language, conversion, stack, s).unwrap();
            &&& last.len() > 0
            &&& levels_text(last) == levels_text(stack) + s
        }),
    decreases s.len(),
{
    if s.len() == 0 {
        assert(levels_text(stack) + s =~= levels_text(stack));
    } else {
        lemma_step_keeps_text(language, conversion, stack, s[0]);
        let next = expr_step(language, conversion, stack, s[0]).unwrap();
        lemma_run_keeps_text(language, conversion, next, s.skip(1));
        assert(levels_text(stack).push(s[0]) + s.skip(1) =~= levels_text(stack) + s);
    }
}

/// With a language whose transliteration table this crate does not carry,
/// an expression that is translated at all comes back exactly as it was
/// written.
pub proof fn law_untranslated_language_keeps_expression(
    language: Language,
    conversion: ExpressionConversion,
    expression: Seq<char>,
)
    requires
        language != Language::Serbian,
        expression_translation(language, conversion, expression) is Ok,
    ensures
        expression_translation(language, conversion, expression) == Ok::<Seq<char>, ExpressionParserError>(expression),
{
    let start = seq![fresh_level()];
    assert(levels_text(start) =~= Seq::<char>::empty()) by {
        lemma_levels_text_push(Seq::empty(), fresh_level());
        assert(Seq::<ExprLevel>::empty().push(fresh_level()) =~= start);
    }
    lemma_run_keeps_text(language, conversion, start, expression);
    let last = expr_run(language, conversion, start, expression).unwrap();
    assert(last =~= Seq::<ExprLevel>::empty().push(last.last()));
    lemma_levels_text_push(Seq::empty(), last.last());
    assert(Seq::<char>::empty() + expression =~= expression);
}


/// How deeply the end of `s` is nested in parentheses: one more for each
/// `(`, one less for each `)`.
pub open spec fn paren_depth(s: Seq<char>) -> int
    decreases s.len(),
{
    if s.len() == 0 {
        0
    } else {
        paren_depth(s.drop_last()) + if s.last() == '(' {
            1int
        } else if s.last() == ')' {
            -1int
        } else {
            0int
        }
    }
}

/// Every `)` of `s` closes a `(` before it, and every `(` is closed: the
/// parentheses of `s` are balanced, at any depth of nesting.
pub open spec fn parens_balanced(s: Seq<char>) -> bool {
    &&& paren_depth(s) == 0
    &&& forall|i: int| 0 <= i <= s.len() ==> paren_depth(#[trigger] s.take(i)) >= 0
}

/// The translated text held by a stack of levels, from the outermost.
spec fn level_texts(stack: Seq<ExprLevel>) -> Seq<char>
    decreases stack.len(),
{
    if stack.len() == 0 {
        Seq::empty()
    } else {
        level_texts(stack.drop_last()) + stack.last().text
    }
}

proof fn lemma_level_texts_push(stack: Seq<ExprLevel>, l: ExprLevel)
    ensures
        level_texts(stack.push(l)) == level_texts(stack) + l.text,
{
    assert(stack.push(l).drop_last() =~= stack);
}

proof fn lemma_no_quote_parts(a: Seq<char>, b: Seq<char>)
    requires
        has_no_quote(a + b),
    ensures
        has_no_quote(a),
        has_no_quote(b),
{
    assert forall|i: int| 0 <= i < a.len() implies a[i] != '"' by {
        assert((a + b)[i] == a[i]);
    }
    assert forall|i: int| 0 <= i < b.len() implies b[i] != '"' by {
        assert((a + b)[a.len() + i] == b[i]);
    }
}

/// Outside quotes, a parenthesis splits a text: each side is translated on
/// its own and the parenthesis stays.
proof fn lemma_convert_splits_at_paren(
    language: Language,
    conversion: ExpressionConversion,
    a: Seq<char>,
    c: char,
    b: Seq<char>,
)
    requires
        c == '(' || c == ')',
        has_no_quote(a),
        has_no_quote(b),
    ensures
        convert(language, conversion, a + seq![c] + b)
            == convert(language, conversion, a) + seq![c] + convert(language, conversion, b),
{
    match language {
        Language::Serbian => match conversion {
            ExpressionConversion::ToLatin => {
                assert(!is_serbian_cyrillic(c));
                law_latin_splits_at_other_char(a, c, b);
            },
            ExpressionConversion::ToCyrillic => {
                assert(!is_latin_letter(c));
                law_cyrillic_splits_at_other_char(a, c, b);
            },
        },
        _ => {},
    }
}

/// Two texts without quotes, the first empty or ending with `)` or the
/// second starting with `(`, are translated as one text.
proof fn lemma_convert_joins(language: Language, conversion: ExpressionConversion, q: Seq<char>, k: Seq<char>)
    requires
        has_no_quote(q),
        has_no_quote(k),
        q.len() == 0 || q.last() == ')' || (k.len() > 0 && k[0] == '('),
    ensures
        convert(language, conversion, q + k) == convert(language, conversion, q) + convert(language, conversion, k),
{
    lemma_convert_empty(language, conversion);
    let e = Seq::<char>::empty();
    if q.len() == 0 {
        assert(q =~= e);
        assert(q + k =~= k);
        assert(e + convert(language, conversion, k) =~= convert(language, conversion, k));
    } else if q.last() == ')' {
        let a = q.drop_last();
        assert forall|i: int| 0 <= i < a.len() implies a[i] != '"' by {
            assert(a[i] == q[i]);
        }
        assert(q =~= a + seq![')'] + e);
        assert(q + k =~= a + seq![')'] + k);
        lemma_convert_splits_at_paren(language, conversion, a, ')', k);
        lemma_convert_splits_at_paren(language, conversion, a, ')', e);
        assert(convert(language, conversion, a) + seq![')'] + e =~= convert(language, conversion, a) + seq![')']);
        assert(convert(language, conversion, a) + seq![')'] + convert(language, conversion, k)
            =~= (convert(language, conversion, a) + seq![')']) + convert(language, conversion, k));
    } else {
        let b = k.skip(1);
        assert forall|i: int| 0 <= i < b.len() implies b[i] != '"' by {
            assert(b[i] == k[i + 1]);
        }
        assert(k =~= e + seq!['('] + b);
        assert(q + k =~= q + seq!['('] + b);
        lemma_convert_splits_at_paren(language, conversion, q, '(', b);
        lemma_convert_splits_at_paren(language, conversion, e, '(', b);
        assert(e + seq!['('] + convert(language, conversion, b) =~= seq!['('] + convert(language, conversion, b));
        assert(convert(language, conversion, q) + seq!['('] + convert(language, conversion, b)
            =~= convert(language, conversion, q) + (seq!['('] + convert(language, conversion, b)));
    }
}


/// What the stack holds after an expression prefix `p` without quotes or
/// backslashes whose parentheses never close more than they open: one level
/// per open parenthesis, the pending token at the end of `p`, and before it
/// the translation of the rest of `p`, cut where the token starts.
spec fn balanced_inv(language: Language, conversion: ExpressionConversion, stack: Seq<ExprLevel>, p: Seq<char>) -> bool {
    let tok = stack.last().token;
    let q = p.take(p.len() - tok.len());
    &&& stack.len() >= 1
    &&& stack.len() == paren_depth(p) + 1
    &&& forall|i: int| 0 <= i < stack.len() ==> !(#[trigger] stack[i]).escape_block && !stack[i].backslash
    &&& !stack[0].in_expression
    &&& outer_tokens_empty(stack)
    &&& tok.len() <= p.len()
    &&& q + tok == p
    &&& level_texts(stack) == convert(language, conversion, q)
    &&& (q.len() == 0 || q.last() == ')' || (tok.len() > 0 && tok[0] == '('))
}

proof fn lemma_balanced_start(language: Language, conversion: ExpressionConversion)
    ensures
        balanced_inv(language, conversion, seq![fresh_level()], Seq::empty()),
{
    let start = seq![fresh_level()];
    let e = Seq::<char>::empty();
    lemma_convert_empty(language, conversion);
    lemma_level_texts_push(Seq::empty(), fresh_level());
    assert(Seq::<ExprLevel>::empty().push(fresh_level()) =~= start);
    assert(e.take(0) =~= e);
    assert(e + e =~= e);
    assert(Seq::<char>::empty() + Seq::<char>::empty() =~= Seq::<char>::empty());
}

/// A character that is no parenthesis, quote or backslash joins the token.
proof fn lemma_balanced_step_plain(
    language: Language,
    conversion: ExpressionConversion,
    stack: Seq<ExprLevel>,
    p: Seq<char>,
    c: char,
)
    requires
        balanced_inv(language, conversion, stack, p),
        c != '(' && c != ')' && c != '"' && c != '\\',
    ensures
        expr_step(language, conversion, stack, c) is Some,
        balanced_inv(language, conversion, expr_step(language, conversion, stack, c).unwrap(), p.push(c)),
{
    let top = stack.last();
    let below = stack.drop_last();
    assert(top == stack[stack.len() - 1]);
    let l = ExprLevel { token: top.token.push(c), backslash: false, ..top };
    let next = below.push(l);
    assert(expr_step(language, conversion, stack, c) == Some(next));
    let p2 = p.push(c);
    assert(p2.drop_last() =~= p);
    assert(paren_depth(p2) == paren_depth(p));
    assert(stack =~= below.push(top));
    lemma_level_texts_push(below, top);
    lemma_level_texts_push(below, l);
    assert forall|i: int| 0 <= i < next.len() implies !(#[trigger] next[i]).escape_block && !next[i].backslash by {
        if i < below.len() {
            assert(next[i] == stack[i]);
        }
    }
    if stack.len() == 1 {
        assert(next[0] == l);
    } else {
        assert(next[0] == stack[0]);
    }
    assert forall|i: int| 0 <= i < next.len() - 1 implies (#[trigger] next[i]).token.len() == 0 by {
        assert(next[i] == stack[i]);
    }
    let tok = top.token;
    let q = p.take(p.len() - tok.len());
    assert(p2.take(p2.len() - l.token.len()) =~= q);
    assert(q + l.token =~= p2);
    assert(tok.len() > 0 ==> l.token[0] == tok[0]);
}


/// A `(` translates the pending token and opens a level.
proof fn lemma_balanced_step_open(
    language: Language,
    conversion: ExpressionConversion,
    stack: Seq<ExprLevel>,
    p: Seq<char>,
)
    requires
        balanced_inv(language, conversion, stack, p),
        has_no_quote(p),
    ensures
        expr_step(language, conversion, stack, '(') is Some,
        balanced_inv(language, conversion, expr_step(language, conversion, stack, '(').unwrap(), p.push('(')),
{
    let top = stack.last();
    let below = stack.drop_last();
    assert(top == stack[stack.len() - 1]);
    let tok = top.token;
    let q = p.take(p.len() - tok.len());
    let saved = ExprLevel {
        text: top.text + convert(language, conversion, tok),
        token: Seq::empty(),
        escape_block: false,
        ..top
    };
    let inner = ExprLevel {
        text: Seq::empty(),
        token: seq!['('],
        escape_block: false,
        backslash: false,
        in_expression: true,
    };
    let next = below.push(saved).push(inner);
    assert(expr_step(language, conversion, stack, '(') == Some(next));
    let p2 = p.push('(');
    assert(p2.drop_last() =~= p);
    assert(paren_depth(p2) == paren_depth(p) + 1);
    lemma_no_quote_parts(q, tok);
    lemma_convert_joins(language, conversion, q, tok);
    assert(stack =~= below.push(top));
    lemma_level_texts_push(below, top);
    lemma_level_texts_push(below, saved);
    lemma_level_texts_push(below.push(saved), inner);
    assert(level_texts(next) =~= level_texts(below) + top.text + convert(language, conversion, tok));
    assert(p2.take(p2.len() - 1) =~= p);
    assert(p + inner.token =~= p2);
    assert forall|i: int| 0 <= i < next.len() implies !(#[trigger] next[i]).escape_block && !next[i].backslash by {
        if i < below.len() {
            assert(next[i] == stack[i]);
        } else if i == below.len() {
            assert(next[i] == saved);
        }
    }
    if stack.len() == 1 {
        assert(next[0] == saved);
    } else {
        assert(next[0] == stack[0]);
    }
    assert forall|i: int| 0 <= i < next.len() - 1 implies (#[trigger] next[i]).token.len() == 0 by {
        if i < below.len() {
            assert(next[i] == stack[i]);
        } else {
            assert(next[i] == saved);
        }
    }
}

/// A `)` closes the innermost level: its translation goes to the level below.
#[verifier::spinoff_prover]
#[verifier::rlimit(50)]
proof fn lemma_balanced_step_close(
    language: Language,
    conversion: ExpressionConversion,
    stack: Seq<ExprLevel>,
    p: Seq<char>,
)
    requires
        balanced_inv(language, conversion, stack, p),
        has_no_quote(p),
        paren_depth(p) >= 1,
    ensures
        expr_step(language, conversion, stack, ')') is Some,
        balanced_inv(language, conversion, expr_step(language, conversion, stack, ')').unwrap(), p.push(')')),
{
    let n = stack.len();
    let top = stack.last();
    assert(top == stack[n - 1]);
    let tok = top.token;
    let q = p.take(p.len() - tok.len());
    let prev = stack[n - 2];
    let base = stack.take(n - 2);
    let k = tok.push(')');
    let output = top.text + convert(language, conversion, k);
    let prev2 = ExprLevel { text: prev.text + output, ..prev };
    let next = base.push(prev2);
    assert(expr_step(language, conversion, stack, ')') == Some(next));
    let p2 = p.push(')');
    assert(p2.drop_last() =~= p);
    assert(paren_depth(p2) == paren_depth(p) - 1);
    assert(prev.token.len() == 0);
    assert(prev2.token =~= Seq::<char>::empty());
    lemma_no_quote_parts(q, tok);
    assert forall|i: int| 0 <= i < k.len() implies k[i] != '"' by {
        if i < tok.len() {
            assert(k[i] == tok[i]);
        }
    }
    assert(tok.len() > 0 ==> k[0] == tok[0]);
    lemma_convert_joins(language, conversion, q, k);
    assert(q + k =~= p2);
    assert(stack =~= base.push(prev).push(top));
    assert(stack.drop_last() =~= base.push(prev));
    lemma_level_texts_push(base, prev);
    lemma_level_texts_push(base.push(prev), top);
    lemma_level_texts_push(base, prev2);
    assert(level_texts(next) =~= level_texts(stack) + convert(language, conversion, k));
    assert(p2.take(p2.len() - 0) =~= p2);
    assert(p2 + Seq::<char>::empty() =~= p2);
    assert forall|i: int| 0 <= i < next.len() implies !(#[trigger] next[i]).escape_block && !next[i].backslash by {
        if i < base.len() {
            assert(next[i] == stack[i]);
        } else {
            assert(next[i] == prev2);
        }
    }
    if n == 2 {
        assert(next[0] == prev2);
    } else {
        assert(next[0] == stack[0]);
    }
    assert forall|i: int| 0 <= i < next.len() - 1 implies (#[trigger] next[i]).token.len() == 0 by {
        assert(next[i] == stack[i]);
    }
}


/// Each prefix of a balanced expression without quotes or backslashes runs,
/// and leaves the stack that `balanced_inv` describes.
proof fn lemma_balanced_prefix(language: Language, conversion: ExpressionConversion, e: Seq<char>, n: int)
    requires
        0 <= n <= e.len(),
        forall|i: int| 0 <= i < e.len() ==> #[trigger] e[i] != '"' && e[i] != '\\',
        forall|i: int| 0 <= i <= e.len() ==> paren_depth(#[trigger] e.take(i)) >= 0,
    ensures
        expr_run(language, conversion, seq![fresh_level()], e.take(n)) is Some,
        balanced_inv(language, conversion, expr_run(language, conversion, seq![fresh_level()], e.take(n)).unwrap(), e.take(n)),
    decreases n,
{
    let start = seq![fresh_level()];
    if n == 0 {
        assert(e.take(0) =~= Seq::<char>::empty());
        lemma_balanced_start(language, conversion);
    } else {
        lemma_balanced_prefix(language, conversion, e, n - 1);
        let p = e.take(n - 1);
        let c = e[n - 1];
        let stack = expr_run(language, conversion, start, p).unwrap();
        assert(e.take(n) =~= p + seq![c]);
        assert(p + seq![c] =~= p.push(c));
        lemma_run_concat(language, conversion, start, p, seq![c]);
        lemma_run_single(language, conversion, stack, c);
        assert forall|i: int| 0 <= i < p.len() implies p[i] != '"' by {
            assert(p[i] == e[i]);
        }
        assert(p.push(c).drop_last() =~= p);
        assert(paren_depth(e.take(n)) >= 0);
        if c == '(' {
            lemma_balanced_step_open(language, conversion, stack, p);
        } else if c == ')' {
            lemma_balanced_step_close(language, conversion, stack, p);
        } else {
            lemma_balanced_step_plain(language, conversion, stack, p, c);
        }
    }
}

/// Parentheses neither fail nor change the translation, however deeply they
/// nest: an expression without double quotes or backslashes whose
/// parentheses are balanced is translated as if it were one piece of text.
pub proof fn law_nested_parentheses_translate_as_text(
    language: Language,
    conversion: ExpressionConversion,
    expression: Seq<char>,
)
    requires
        forall|i: int| 0 <= i < expression.len() ==> #[trigger] expression[i] != '"' && expression[i] != '\\',
        parens_balanced(expression),
    ensures
        expression_translation(language, conversion, expression) == Ok::<Seq<char>, ExpressionParserError>(
            convert(language, conversion, expression),
        ),
{
    let start = seq![fresh_level()];
    lemma_balanced_prefix(language, conversion, expression, expression.len() as int);
    assert(expression.take(expression.len() as int) =~= expression);
    let stack = expr_run(language, conversion, start, expression).unwrap();
    assert(stack.len() == 1);
    let top = stack.last();
    assert(top == stack[0]);
    assert(stack =~= Seq::<ExprLevel>::empty().push(top));
    lemma_level_texts_push(Seq::empty(), top);
    assert(Seq::<char>::empty() + top.text =~= top.text);
    let tok = top.token;
    let q = expression.take(expression.len() - tok.len());
    assert forall|i: int| 0 <= i < expression.len() implies expression[i] != '"' by {}
    lemma_no_quote_parts(q, tok);
    lemma_convert_joins(language, conversion, q, tok);
}


/// Running a prefix of an expression without quotes or backslashes either
/// fails, or no prefix so far has closed more parentheses than it opened and
/// the stack is the one that `balanced_inv` describes.
proof fn lemma_prefix_runs_or_fails(language: Language, conversion: ExpressionConversion, e: Seq<char>, n: int)
    requires
        0 <= n <= e.len(),
        forall|i: int| 0 <= i < e.len() ==> #[trigger] e[i] != '"' && e[i] != '\\',
    ensures
        expr_run(language, conversion, seq![fresh_level()], e.take(n)) is Some ==> ({
            &&& forall|i: int| 0 <= i <= n ==> paren_depth(#[trigger] e.take(i)) >= 0
            &&& balanced_inv(language, conversion, expr_run(language, conversion, seq![fresh_level()], e.take(n)).unwrap(), e.take(n))
        }),
    decreases n,
{
    let start = seq![fresh_level()];
    if n == 0 {
        assert(e.take(0) =~= Seq::<char>::empty());
        lemma_balanced_start(language, conversion);
    } else {
        lemma_prefix_runs_or_fails(language, conversion, e, n - 1);
        let p = e.take(n - 1);
        let c = e[n - 1];
        assert(e.take(n) =~= p + seq![c]);
        assert(p + seq![c] =~= p.push(c));
        lemma_run_concat(language, conversion, start, p, seq![c]);
        if expr_run(language, conversion, start, p) is Some {
            let stack = expr_run(language, conversion, start, p).unwrap();
            lemma_run_single(language, conversion, stack, c);
            assert forall|i: int| 0 <= i < p.len() implies p[i] != '"' by {
                assert(p[i] == e[i]);
            }
            assert(p.push(c).drop_last() =~= p);
            if c == '(' {
                lemma_balanced_step_open(language, conversion, stack, p);
            } else if c == ')' {
                if paren_depth(p) >= 1 {
                    lemma_balanced_step_close(language, conversion, stack, p);
                } else {
                    assert(stack.len() == 1);
                    assert(stack[stack.len() - 1] == stack.last());
                    assert(expr_step(language, conversion, stack, c) is None);
                }
            } else {
                lemma_balanced_step_plain(language, conversion, stack, p, c);
            }
        }
    }
}

/// An expression without double quotes or backslashes is translated exactly
/// when its parentheses are balanced; one that closes a parenthesis it never
/// opened, or leaves one open, is reported as a missing token.
pub proof fn law_parentheses_decide_translation(
    language: Language,
    conversion: ExpressionConversion,
    expression: Seq<char>,
)
    requires
        forall|i: int| 0 <= i < expression.len() ==> #[trigger] expression[i] != '"' && expression[i] != '\\',
    ensures
        expression_translation(language, conversion, expression) is Ok <==> parens_balanced(expression),
        !parens_balanced(expression) ==> expression_translation(language, conversion, expression)
            == Err::<Seq<char>, ExpressionParserError>(ExpressionParserError::MissingToken),
{
    let start = seq![fresh_level()];
    if parens_balanced(expression) {
        law_nested_parentheses_translate_as_text(language, conversion, expression);
    } else {
        lemma_prefix_runs_or_fails(language, conversion, expression, expression.len() as int);
        assert(expression.take(expression.len() as int) =~= expression);
        if expr_run(language, conversion, start, expression) is Some {
            let stack = expr_run(language, conversion, start, expression).unwrap();
            assert(paren_depth(expression) != 0);
            assert(stack.len() != 1);
        }
    }
}

} // verus!
