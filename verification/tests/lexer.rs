use musical_typer::lexer::lex;
use musical_typer::{Reason, ScoremapLexError, Timestamp, Token, TokenContent};

fn contents(text: &str) -> Vec<TokenContent> {
    lex(text).unwrap().into_iter().map(|t| t.content).collect()
}

#[test]
fn every_line_makes_one_token_with_its_number() {
    let tokens = lex("# song\n\n[start]\n*0:01\nうた\n:うた\n[end]\n").unwrap();
    let numbers: Vec<usize> = tokens.iter().map(|t| t.line_num).collect();
    assert_eq!(numbers, vec![1, 2, 3, 4, 5, 6, 7]);
    assert_eq!(
        tokens[3],
        Token { line_num: 4, content: TokenContent::Time(Timestamp::from_millis(1000)) }
    );
}

#[test]
fn empty_text_has_no_token() {
    assert_eq!(lex("").unwrap(), vec![]);
    assert_eq!(contents("\n"), vec![TokenContent::Comment]);
    assert_eq!(contents("a"), vec![TokenContent::Lyrics("a".to_string())]);
    assert_eq!(contents("a\n"), vec![TokenContent::Lyrics("a".to_string())]);
    assert_eq!(
        contents("a\n\nb"),
        vec![
            TokenContent::Lyrics("a".to_string()),
            TokenContent::Comment,
            TokenContent::Lyrics("b".to_string())
        ]
    );
}

#[test]
fn comments_and_blank_lines_are_comments() {
    assert_eq!(contents("# text"), vec![TokenContent::Comment]);
    assert_eq!(contents("   \t "), vec![TokenContent::Comment]);
    assert_eq!(contents("  #x"), vec![TokenContent::Comment]);
}

#[test]
fn commands_stand_in_brackets() {
    assert_eq!(contents("[start]"), vec![TokenContent::Command("start".to_string())]);
    assert_eq!(contents(" [ end ] "), vec![TokenContent::Command("end".to_string())]);
    assert_eq!(contents("[]"), vec![TokenContent::Command(String::new())]);
    assert_eq!(contents("[start"), vec![TokenContent::Lyrics("[start".to_string())]);
    assert_eq!(contents("["), vec![TokenContent::Lyrics("[".to_string())]);
}

#[test]
fn captions_properties_readings_and_breaks() {
    assert_eq!(contents(">> intro"), vec![TokenContent::Caption("intro".to_string())]);
    assert_eq!(contents(">>"), vec![TokenContent::Caption(String::new())]);
    assert_eq!(contents(">x"), vec![TokenContent::Lyrics(">x".to_string())]);
    assert_eq!(
        contents(":title = My Song"),
        vec![TokenContent::Property { key: "title".to_string(), value: "My Song".to_string() }]
    );
    assert_eq!(
        contents(":a=b=c"),
        vec![TokenContent::Property { key: "a".to_string(), value: "b=c".to_string() }]
    );
    assert_eq!(
        contents(": = "),
        vec![TokenContent::Property { key: String::new(), value: String::new() }]
    );
    assert_eq!(contents(": きみ "), vec![TokenContent::Yomigana("きみ".to_string())]);
    assert_eq!(contents("@"), vec![TokenContent::Section]);
    assert_eq!(contents("@ chorus"), vec![TokenContent::Section]);
    assert_eq!(contents("  君の 歌  "), vec![TokenContent::Lyrics("君の 歌".to_string())]);
}

#[test]
fn carriage_returns_and_wide_spaces_are_trimmed() {
    assert_eq!(
        contents("[start]\r\n\u{3000}うた\u{3000}\r\n"),
        vec![TokenContent::Command("start".to_string()), TokenContent::Lyrics("うた".to_string())]
    );
}

fn time_of(text: &str) -> Result<u64, ScoremapLexError> {
    match lex(text) {
        Ok(tokens) => match &tokens[0].content {
            TokenContent::Time(t) => Ok(t.as_millis()),
            other => panic!("no time mark: {:?}", other),
        },
        Err(err) => Err(err),
    }
}

#[test]
fn time_marks_count_in_milliseconds() {
    assert_eq!(time_of("*0:00"), Ok(0));
    assert_eq!(time_of("*0:03"), Ok(3000));
    assert_eq!(time_of("*1:02"), Ok(62_000));
    assert_eq!(time_of("* 1:02.5 "), Ok(62_500));
    assert_eq!(time_of("*1:02.45"), Ok(62_450));
    assert_eq!(time_of("*1:02.045"), Ok(62_045));
    assert_eq!(time_of("*12:5"), Ok(725_000));
    assert_eq!(time_of("*999999999:59.999"), Ok(999_999_999 * 60_000 + 59_999));
}

fn malformed(line_num: usize) -> Result<u64, ScoremapLexError> {
    Err(ScoremapLexError::MalformedTimestamp { line_num, reason: Reason::MalformedTimestamp })
}

#[test]
fn time_marks_that_cannot_be_read_are_errors() {
    assert_eq!(time_of("*"), malformed(1));
    assert_eq!(time_of("*3"), malformed(1));
    assert_eq!(time_of("*3.0"), malformed(1));
    assert_eq!(time_of("*:30"), malformed(1));
    assert_eq!(time_of("*1:"), malformed(1));
    assert_eq!(time_of("*1:60"), malformed(1));
    assert_eq!(time_of("*1:005"), malformed(1));
    assert_eq!(time_of("*1:02."), malformed(1));
    assert_eq!(time_of("*1:02.1234"), malformed(1));
    assert_eq!(time_of("*1:0a"), malformed(1));
    assert_eq!(time_of("*1 :02"), malformed(1));
    assert_eq!(time_of("*1234567890:00"), malformed(1));
    assert_eq!(time_of("*-1:00"), malformed(1));
}

#[test]
fn the_first_malformed_line_is_reported_with_its_number() {
    let r = lex("# ok\n[start]\n*1:xx\n*also:bad\n");
    assert_eq!(
        r,
        Err(ScoremapLexError::MalformedTimestamp { line_num: 3, reason: Reason::MalformedTimestamp })
    );
}
