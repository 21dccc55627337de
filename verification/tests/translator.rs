use pyc_shell::translator::ioprocessor::{ExpressionParserError, IOProcessor};
use pyc_shell::translator::{new_translator, str_to_language, Language, Translator};

#[test]
fn test_translator_lang_nil_to_latin() {
    let translator = new_translator(Language::Nil);
    assert_eq!(translator.to_latin(&String::from("HELLO WORLD")), String::from("HELLO WORLD"));
}

#[test]
fn test_translator_lang_nil_to_cyrillic() {
    let translator = new_translator(Language::Nil);
    assert_eq!(translator.to_cyrillic(&String::from("HELLO WORLD")), String::from("HELLO WORLD"));
}

#[test]
fn test_translator_lang_serbian_to_latin() {
    // Serbian translator
    let translator = new_translator(Language::Serbian);
    // All characters
    assert_eq!(translator.to_latin(&String::from("АБВВВГДЂЕЖЈЗИИИЋККСКИУЛЉМНЊОПРСТЧУФХЦЏШ")), String::from("ABWVGDDJEJJZYICKXQLLJMNNJOPRSTCHUFHTSDZSH"));
    assert_eq!(translator.to_latin(&String::from("абвввгдђежјзииићккскиулљмнњопрстчуфхцџш")), String::from("abwvgddjejjzyickxqlljmnnjoprstchufhtsdzsh"));
    // Simple commands (lower)
    assert_eq!(translator.to_latin(&String::from("лс поотис/")), String::from("ls pootis/"));
    assert_eq!(translator.to_latin(&String::from("ексећ зш")), String::from("exec zsh"));
    assert_eq!(translator.to_latin(&String::from("ћд тесц/")), String::from("cd tests/"));
    // Simple commands (upper)
    assert_eq!(translator.to_latin(&String::from("ЛС ПООТИС/")), String::from("LS POOTIS/"));
    assert_eq!(translator.to_latin(&String::from("ЕКСЕЋ ЗШ")), String::from("EXEC ZSH"));
    assert_eq!(translator.to_latin(&String::from("ЋД ТЕСЦ/")), String::from("CD TESTS/"));
    // With next char special at the end of word (lower)
    assert_eq!(translator.to_latin(&String::from("лс в")), String::from("ls v"));
    assert_eq!(translator.to_latin(&String::from("лс сими")), String::from("ls simi"));
    assert_eq!(translator.to_latin(&String::from("лс кек")), String::from("ls kek"));
    assert_eq!(translator.to_latin(&String::from("лс ки")), String::from("ls ki"));
    // With next char special at the end of word (upper)
    assert_eq!(translator.to_latin(&String::from("ЛС В")), String::from("LS V"));
    assert_eq!(translator.to_latin(&String::from("ЛС СИМИ")), String::from("LS SIMI"));
    assert_eq!(translator.to_latin(&String::from("ЛС КЕК")), String::from("LS KEK"));
    assert_eq!(translator.to_latin(&String::from("ЛС КИ")), String::from("LS KI"));
}

#[test]
fn test_translator_lang_serbian_to_cyrillic() {
    // Serbian translator
    let translator = new_translator(Language::Serbian);
    // All characters
    assert_eq!(translator.to_cyrillic(&String::from("ABCCHDDJDZEFGGEHIJKLLJMNNJOPQRSSHTTSUVWXYZ")), String::from("АБКЧДЂЏЕФГДЖЕХИЈКЛЉМНЊОПКУРСШТЦУВВКСИЗ"));
    assert_eq!(translator.to_cyrillic(&String::from("abcchddjdzefggehijklljmnnjopqrsshttsuvwxyz")), String::from("абкчдђџефгджехијклљмнњопкурсштцуввксиз"));
    // Test particular case (sh)
    assert_eq!(translator.to_cyrillic(&String::from("shell sis")), "шелл сис");
    assert_eq!(translator.to_cyrillic(&String::from("SHELL SIS")), "ШЕЛЛ СИС");
    // Test particular case (ts)
    assert_eq!(translator.to_cyrillic(&String::from("tsunami")), "цунами");
    assert_eq!(translator.to_cyrillic(&String::from("TSUNAMI")), "ЦУНАМИ");
    // Test particular case (g)
    assert_eq!(translator.to_cyrillic(&String::from("gin and games")), "джин анд гамес");
    assert_eq!(translator.to_cyrillic(&String::from("GIN AND GAMES")), "ДЖИН АНД ГАМЕС");
    // Test particular case (ch)
    assert_eq!(translator.to_cyrillic(&String::from("channel")), "чаннел");
    assert_eq!(translator.to_cyrillic(&String::from("CHANNEL")), "ЧАННЕЛ");
    // Test particular case (ts)
    assert_eq!(translator.to_cyrillic(&String::from("tsunami")), "цунами");
    assert_eq!(translator.to_cyrillic(&String::from("TSUNAMI")), "ЦУНАМИ");
    // Test particular case (last character is C)
    assert_eq!(translator.to_cyrillic(&String::from("cac")), "как");
    assert_eq!(translator.to_cyrillic(&String::from("CAC")), "КАК");
    // Test particular case (last char is G)
    assert_eq!(translator.to_cyrillic(&String::from("gag")), "гаг");
    assert_eq!(translator.to_cyrillic(&String::from("GAG")), "ГАГ");
    // Test particular case (LJ)
    assert_eq!(translator.to_cyrillic(&String::from("ljubljana l")), "љубљана л");
    assert_eq!(translator.to_cyrillic(&String::from("LJUBLJANA L")), "ЉУБЉАНА Л");
    // Test particular case (NJ)
    assert_eq!(translator.to_cyrillic(&String::from("new jersey is abbreviated with nj non")), "нев јерсеи ис аббревиатед витх њ нон");
    assert_eq!(translator.to_cyrillic(&String::from("NEW JERSEY IS ABBREVIATED WITH NJ NON")), "НЕВ ЈЕРСЕИ ИС АББРЕВИАТЕД ВИТХ Њ НОН");
    // Test particular case (TS)
    assert_eq!(translator.to_cyrillic(&String::from("typescript extension is .ts tot")), "типескрипт екстенсион ис .ц тот");
    assert_eq!(translator.to_cyrillic(&String::from("TYPESCRIPT EXTENSION IS .TS TOT")), "ТИПЕСКРИПТ ЕКСТЕНСИОН ИС .Ц ТОТ");
}

fn serbian_processor() -> IOProcessor {
    IOProcessor::new(Language::Serbian, new_translator(Language::Serbian))
}

#[test]
fn serbian_expression_to_latin_keeps_quoted_text() {
    let iop = serbian_processor();
    assert_eq!(iop.expression_to_latin(&String::from("лс \"фајл\"")).unwrap(), String::from("ls \"фајл\""));
    assert_eq!(iop.expression_to_latin(&String::from("ехо (лс)")).unwrap(), String::from("eho (ls)"));
    assert_eq!(iop.expression_to_latin(&String::from("ехо \\\"здраво\\\"")).unwrap(), String::from("eho \\\"zdravo\\\""));
}

#[test]
fn serbian_expression_missing_tokens() {
    let iop = serbian_processor();
    assert_eq!(iop.expression_to_latin(&String::from("ехо (пвд")).err().unwrap(), ExpressionParserError::MissingToken);
    assert_eq!(iop.expression_to_latin(&String::from("ехо \"здраво")).err().unwrap(), ExpressionParserError::MissingToken);
    assert_eq!(iop.expression_to_cyrillic(&String::from("echo \"hello")).err().unwrap(), ExpressionParserError::MissingToken);
    assert_eq!(iop.expression_to_cyrillic(&String::from("echo $(pwd")).err().unwrap(), ExpressionParserError::MissingToken);
}

#[test]
fn serbian_expression_to_cyrillic() {
    let iop = serbian_processor();
    assert_eq!(iop.expression_to_cyrillic(&String::from("ls $(pwd)")).unwrap(), String::from("лс $(пвд)"));
    assert_eq!(iop.expression_to_cyrillic(&String::from("echo \"hello\"")).unwrap(), String::from("ечо \"hello\""));
}

#[test]
fn serbian_text_keeps_color_sequences() {
    let iop = serbian_processor();
    assert_eq!(iop.text_to_cyrillic(&String::from("\x1b[31mRED\x1b[0m")), String::from("\x1b[31mРЕД\x1b[0m"));
    assert_eq!(iop.text_to_latin(&String::from("здраво")), String::from("zdravo"));
}

#[test]
fn plain_expression_is_translated_as_text() {
    let iop = serbian_processor();
    let text = String::from("лс тесц");
    assert_eq!(iop.expression_to_latin(&text).unwrap(), iop.text_to_latin(&text));
}

#[test]
fn untranslated_language_keeps_text() {
    let iop = IOProcessor::new(Language::Nil, new_translator(Language::Nil));
    let expr = String::from("echo \"a\" $(b)");
    assert_eq!(iop.expression_to_latin(&expr).unwrap(), expr);
    assert_eq!(iop.text_to_cyrillic(&String::from("hello")), String::from("hello"));
    assert_eq!(iop.get_language(), Language::Nil);
}

#[test]
fn language_names() {
    assert_eq!(str_to_language(&String::from("ru")), Some(Language::Russian));
    assert_eq!(str_to_language(&String::from("рус")), Some(Language::Russian));
    assert_eq!(str_to_language(&String::from("xx")), None);
    assert_eq!(Language::Serbian.to_string(), String::from("рус"));
    assert_eq!(Language::Bulgarian.to_string(), String::from("блг"));
    assert_eq!(Language::Nil.to_string(), String::from("nil"));
}

#[test]
fn quoted_text_is_kept() {
    let iop = serbian_processor();
    let quoted = String::from("\"Ћирилица и latin\"");
    assert_eq!(iop.expression_to_latin(&quoted).unwrap(), quoted);
    assert_eq!(iop.expression_to_cyrillic(&quoted).unwrap(), quoted);
}

#[test]
fn serbian_latin_text_is_kept() {
    let translator = new_translator(Language::Serbian);
    let text = String::from("ls -la /tmp/ && echo 42!");
    assert_eq!(translator.to_latin(&text), text);
}

#[test]
fn serbian_leaves_no_letter_of_the_other_script() {
    let translator = new_translator(Language::Serbian);
    let latin = translator.to_latin(&String::from("Љубав, ђак, џеп, шах, Ћирилица ККС"));
    assert!(latin.chars().all(|c| !('\u{0400}'..='\u{04FF}').contains(&c)));
    let cyrillic = translator.to_cyrillic(&String::from("The quick brown fox jumps over the lazy dog"));
    assert!(cyrillic.chars().all(|c| !c.is_ascii_alphabetic()));
}

#[test]
fn serbian_keeps_case() {
    let translator = new_translator(Language::Serbian);
    for s in ["shell sis", "tsunami tS", "gin and games", "new jersey is abbreviated with nj non", "typescript .ts"] {
        assert_eq!(
            translator.to_cyrillic(&s.to_ascii_uppercase()),
            translator.to_cyrillic(&s.to_ascii_lowercase()).to_uppercase()
        );
    }
    for s in ["лс поотис/", "ексећ зш", "лс кек", "вв ии кс кију", "ђак љубав њива џеп"] {
        assert_eq!(translator.to_latin(&s.to_uppercase()), translator.to_latin(&String::from(s)).to_uppercase());
    }
}

#[test]
fn serbian_splits_at_other_characters() {
    let translator = new_translator(Language::Serbian);
    let (a, b) = (String::from("ts"), String::from("hell"));
    assert_eq!(translator.to_cyrillic(&format!("{}-{}", a, b)), format!("{}-{}", translator.to_cyrillic(&a), translator.to_cyrillic(&b)));
    let (a, b) = (String::from("ки"), String::from("у"));
    assert_eq!(translator.to_latin(&format!("{} {}", a, b)), format!("{} {}", translator.to_latin(&a), translator.to_latin(&b)));
}

#[test]
fn serbian_keeps_quoted_text() {
    let translator = new_translator(Language::Serbian);
    assert_eq!(translator.to_cyrillic(&String::from("\"ls\"")), String::from("\"ls\""));
    assert_eq!(translator.to_latin(&String::from("\"лс\"")), String::from("\"лс\""));
    assert_eq!(translator.to_cyrillic(&String::from("cat \"README\" now")), String::from("кат \"README\" нов"));
    assert_eq!(translator.to_latin(&String::from("кат \"фајл\" сад")), String::from("kat \"фајл\" sad"));
    // a quote after a backslash is an ordinary character
    assert_eq!(translator.to_latin(&String::from("ехо \\\"здраво\\\"")), String::from("eho \\\"zdravo\\\""));
    // an unclosed quote keeps the rest
    assert_eq!(translator.to_cyrillic(&String::from("ls \"abc")), String::from("лс \"abc"));
}
