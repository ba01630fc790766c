use musical_typer::parser::{dispatch, parse, step};
use musical_typer::processor::{
    caption_processor, command_processor, comment_processor, double_time_processor,
    lyrics_processor, property_processor, section_processor, single_time_processor,
    yomigana_processor,
};
use musical_typer::{
    NoteContent, NoteId, ParseResult, ParserCtx, Reason, ScoremapLoadConfig, ScoremapParseError,
    Timestamp, Token, TokenContent,
};

fn token(line_num: usize, content: TokenContent) -> Token {
    Token { line_num, content }
}

fn time(line_num: usize, millis: u64) -> Token {
    token(line_num, TokenContent::Time(Timestamp::from_millis(millis)))
}

fn command(line_num: usize, text: &str) -> Token {
    token(line_num, TokenContent::Command(text.to_string()))
}

fn lyrics(line_num: usize, text: &str) -> Token {
    token(line_num, TokenContent::Lyrics(text.to_string()))
}

fn yomigana(line_num: usize, text: &str) -> Token {
    token(line_num, TokenContent::Yomigana(text.to_string()))
}

fn caption(line_num: usize, text: &str) -> Token {
    token(line_num, TokenContent::Caption(text.to_string()))
}

fn property(line_num: usize, key: &str, value: &str) -> Token {
    token(line_num, TokenContent::Property { key: key.to_string(), value: value.to_string() })
}

fn open_ctx() -> ParserCtx {
    let mut ctx = ParserCtx::new(ScoremapLoadConfig::new(), 9);
    let tokens = vec![command(1, "start")];
    assert_eq!(command_processor(&tokens, 0, &mut ctx), ParseResult::Consumed);
    assert!(ctx.parsing_lyrics());
    ctx
}

fn span(result: &ParseResult) -> (u64, u64) {
    match result {
        ParseResult::Emitted(note) => {
            (note.duration().start().as_millis(), note.duration().end().as_millis())
        }
        other => panic!("no note: {:?}", other),
    }
}

#[test]
fn double_time_makes_one_blank_and_takes_one_token() {
    let mut ctx = open_ctx();
    let tokens = vec![lyrics(1, "うた"), time(2, 1000), time(3, 2500)];
    assert_eq!(lyrics_processor(&tokens, 0, &mut ctx), ParseResult::Consumed);
    let result = double_time_processor(&tokens, 1, &mut ctx);
    assert_eq!(span(&result), (1000, 2500));
    match &result {
        ParseResult::Emitted(note) => {
            assert_eq!(note.content(), &NoteContent::Blank);
            assert_eq!(note.id(), NoteId { scope: 9, serial: 0 });
        }
        _ => unreachable!(),
    }
    assert_eq!(ctx.curr_time(), Timestamp::new());
    assert_eq!(ctx.parsed_japanese(), Some("うた"));
    assert!(ctx.notes().is_empty());
    assert_eq!(double_time_processor(&tokens, 2, &mut ctx), ParseResult::Ignored);
}

#[test]
fn double_time_through_the_chain_adds_exactly_one_note() {
    let mut ctx = open_ctx();
    let tokens = vec![time(2, 1000), time(3, 2500)];
    assert_eq!(step(&tokens, 0, &mut ctx), Ok(()));
    assert_eq!(ctx.notes().len(), 1);
    assert_eq!(ctx.notes()[0].content(), &NoteContent::Blank);
    assert_eq!(ctx.notes()[0].duration().start().as_millis(), 1000);
    assert_eq!(ctx.notes()[0].duration().end().as_millis(), 2500);
    assert_eq!(ctx.curr_time().as_millis(), 0);
    assert_eq!(ctx.parsed_japanese(), None);
}

#[test]
fn double_time_that_does_not_run_forward_is_dropped() {
    let mut ctx = open_ctx();
    let tokens = vec![time(2, 3000), time(3, 3000), time(4, 1000)];
    assert_eq!(double_time_processor(&tokens, 0, &mut ctx), ParseResult::Consumed);
    assert_eq!(double_time_processor(&tokens, 1, &mut ctx), ParseResult::Consumed);
    assert!(ctx.notes().is_empty());
}

#[test]
fn double_time_ignores_other_fronts() {
    let mut ctx = open_ctx();
    let tokens = vec![time(1, 1000), lyrics(2, "a"), time(3, 2000)];
    assert_eq!(double_time_processor(&tokens, 0, &mut ctx), ParseResult::Ignored);
    assert_eq!(double_time_processor(&tokens, 1, &mut ctx), ParseResult::Ignored);
    assert_eq!(double_time_processor(&tokens, 2, &mut ctx), ParseResult::Ignored);
    assert_eq!(double_time_processor(&tokens, 3, &mut ctx), ParseResult::Ignored);
    assert_eq!(double_time_processor(&tokens, 99, &mut ctx), ParseResult::Ignored);
}

#[test]
fn single_time_outside_lyrics_is_an_error() {
    let mut ctx = ParserCtx::new(ScoremapLoadConfig::new(), 0);
    let tokens = vec![time(7, 1000)];
    assert_eq!(
        single_time_processor(&tokens, 0, &mut ctx),
        ParseResult::Failed(ScoremapParseError::TimingDefinition {
            line_num: 7,
            reason: Reason::TimeOutsideLyrics
        })
    );
}

#[test]
fn single_time_in_an_empty_section_makes_the_idle_blank() {
    let mut ctx = open_ctx();
    let tokens = vec![lyrics(1, "a"), time(2, 4000)];
    assert_eq!(lyrics_processor(&tokens, 0, &mut ctx), ParseResult::Consumed);
    let result = single_time_processor(&tokens, 1, &mut ctx);
    assert_eq!(span(&result), (0, 4000));
    assert_eq!(ctx.curr_time().as_millis(), 4000);
    assert_eq!(ctx.parsed_japanese(), None);
}

#[test]
fn single_time_in_a_section_with_notes_only_moves_the_clock() {
    let mut ctx = open_ctx();
    let tokens = vec![caption(1, "hello"), time(2, 4000)];
    assert_eq!(step(&tokens, 0, &mut ctx), Ok(()));
    assert_eq!(ctx.notes().len(), 1);
    assert_eq!(single_time_processor(&tokens, 1, &mut ctx), ParseResult::Consumed);
    assert_eq!(ctx.curr_time().as_millis(), 4000);
}

#[test]
fn time_that_is_not_later_than_the_clock_is_ignored() {
    let mut ctx = open_ctx();
    let tokens =
        vec![caption(1, "x"), time(2, 4000), lyrics(3, "うた"), time(4, 4000), time(5, 1000)];
    assert_eq!(step(&tokens, 0, &mut ctx), Ok(()));
    assert_eq!(step(&tokens, 1, &mut ctx), Ok(()));
    assert_eq!(step(&tokens, 2, &mut ctx), Ok(()));
    assert_eq!(single_time_processor(&tokens, 3, &mut ctx), ParseResult::Consumed);
    assert_eq!(ctx.curr_time().as_millis(), 4000);
    assert_eq!(ctx.parsed_japanese(), Some("うた"));
    assert_eq!(single_time_processor(&tokens, 4, &mut ctx), ParseResult::Consumed);
    assert_eq!(ctx.curr_time().as_millis(), 4000);
    assert_eq!(ctx.parsed_japanese(), Some("うた"));
    assert_eq!(ctx.notes().len(), 1);
}

#[test]
fn time_at_zero_at_the_start_changes_nothing() {
    let mut ctx = open_ctx();
    let tokens = vec![time(2, 0)];
    assert_eq!(dispatch(&tokens, 0, &mut ctx), ParseResult::Consumed);
    assert_eq!(ctx.curr_time().as_millis(), 0);
    assert!(ctx.notes().is_empty());
}

#[test]
fn commands_open_and_shut_the_lyrics() {
    let mut ctx = ParserCtx::new(ScoremapLoadConfig::new(), 0);
    let tokens = vec![
        command(1, "end"),
        command(2, "break"),
        command(3, "start"),
        command(4, "start"),
        command(5, "end"),
        command(6, "pause"),
        command(7, "Start"),
    ];
    assert_eq!(
        command_processor(&tokens, 0, &mut ctx),
        ParseResult::Failed(ScoremapParseError::Command {
            line_num: 1,
            reason: Reason::EndOutsideLyrics
        })
    );
    assert_eq!(command_processor(&tokens, 1, &mut ctx), ParseResult::Consumed);
    assert!(!ctx.parsing_lyrics());
    assert_eq!(command_processor(&tokens, 2, &mut ctx), ParseResult::Consumed);
    assert!(ctx.parsing_lyrics());
    assert_eq!(
        command_processor(&tokens, 3, &mut ctx),
        ParseResult::Failed(ScoremapParseError::Command {
            line_num: 4,
            reason: Reason::StartInsideLyrics
        })
    );
    assert_eq!(command_processor(&tokens, 4, &mut ctx), ParseResult::Consumed);
    assert!(!ctx.parsing_lyrics());
    assert_eq!(
        command_processor(&tokens, 5, &mut ctx),
        ParseResult::Failed(ScoremapParseError::Command {
            line_num: 6,
            reason: Reason::UnknownCommand
        })
    );
    assert_eq!(
        command_processor(&tokens, 6, &mut ctx),
        ParseResult::Failed(ScoremapParseError::Command {
            line_num: 7,
            reason: Reason::UnknownCommand
        })
    );
}

#[test]
fn caption_lasts_until_the_next_time_mark() {
    let mut ctx = open_ctx();
    let tokens = vec![caption(1, "intro"), lyrics(2, "a"), time(3, 2000), time(4, 9000)];
    let result = caption_processor(&tokens, 0, &mut ctx);
    assert_eq!(span(&result), (0, 2000));
    match result {
        ParseResult::Emitted(note) => {
            assert_eq!(note.content(), &NoteContent::Caption("intro".to_string()))
        }
        _ => unreachable!(),
    }
}

#[test]
fn caption_at_the_end_of_the_file_lasts_one_second() {
    let mut ctx = open_ctx();
    let tokens = vec![time(1, 5000), caption(2, "outro"), command(3, "end")];
    assert_eq!(step(&tokens, 0, &mut ctx), Ok(()));
    let result = caption_processor(&tokens, 1, &mut ctx);
    assert_eq!(span(&result), (5000, 6000));
}

#[test]
fn caption_outside_lyrics_is_an_error() {
    let mut ctx = ParserCtx::new(ScoremapLoadConfig::new(), 0);
    let tokens = vec![caption(3, "intro")];
    assert_eq!(
        caption_processor(&tokens, 0, &mut ctx),
        ParseResult::Failed(ScoremapParseError::StatementDefinition {
            line_num: 3,
            reason: Reason::CaptionOutsideLyrics
        })
    );
}

#[test]
fn note_whose_time_would_not_run_forward_is_an_error() {
    let mut ctx = open_ctx();
    let tokens = vec![caption(1, "a"), time(2, 5000), caption(3, "b"), time(4, 5000)];
    assert_eq!(step(&tokens, 0, &mut ctx), Ok(()));
    assert_eq!(step(&tokens, 1, &mut ctx), Ok(()));
    assert_eq!(
        step(&tokens, 2, &mut ctx),
        Err(ScoremapParseError::DurationInvalid {
            line_num: 3,
            reason: Reason::DurationNotIncreasing
        })
    );
}

#[test]
fn property_outside_lyrics_is_stated() {
    let mut ctx = ParserCtx::new(ScoremapLoadConfig::new(), 0);
    let tokens = vec![property(1, "title", "A"), property(2, "bgm", "a.wav"), property(3, "title", "B")];
    assert_eq!(property_processor(&tokens, 0, &mut ctx), ParseResult::Consumed);
    assert_eq!(property_processor(&tokens, 1, &mut ctx), ParseResult::Consumed);
    assert_eq!(property_processor(&tokens, 2, &mut ctx), ParseResult::Consumed);
    assert_eq!(ctx.metadata().len(), 2);
    assert_eq!(ctx.metadata().get("title"), Some("B"));
    assert_eq!(ctx.metadata().get("bgm"), Some("a.wav"));
    assert_eq!(ctx.metadata().get("singer"), None);
}

#[test]
fn property_inside_lyrics_is_an_error_whatever_it_states() {
    let mut config = ScoremapLoadConfig::new();
    config = config.ignore_unsupported_property(true).ignore_invalid_properties(true);
    let mut ctx = ParserCtx::new(config, 0);
    let tokens = vec![
        command(1, "start"),
        property(2, "title", "A"),
        property(3, "unknown", "x"),
        property(4, "", ""),
    ];
    assert_eq!(step(&tokens, 0, &mut ctx), Ok(()));
    for at in 1..4 {
        assert_eq!(
            property_processor(&tokens, at, &mut ctx),
            ParseResult::Failed(ScoremapParseError::PropertyDefinition {
                line_num: at + 1,
                reason: Reason::PropertyInsideLyrics
            })
        );
    }
    assert_eq!(ctx.metadata().len(), 0);
}

#[test]
fn unknown_and_empty_properties_follow_the_configuration() {
    let tokens = vec![property(1, "color", "red"), property(2, "title", ""), property(3, "", "x")];
    let mut strict = ParserCtx::new(ScoremapLoadConfig::new(), 0);
    assert_eq!(
        property_processor(&tokens, 0, &mut strict),
        ParseResult::Failed(ScoremapParseError::PropertyDefinition {
            line_num: 1,
            reason: Reason::UnsupportedProperty
        })
    );
    assert_eq!(
        property_processor(&tokens, 1, &mut strict),
        ParseResult::Failed(ScoremapParseError::PropertyDefinition {
            line_num: 2,
            reason: Reason::InvalidProperty
        })
    );
    assert_eq!(
        property_processor(&tokens, 2, &mut strict),
        ParseResult::Failed(ScoremapParseError::PropertyDefinition {
            line_num: 3,
            reason: Reason::InvalidProperty
        })
    );
    let mut lenient = ParserCtx::new(
        ScoremapLoadConfig::new().ignore_unsupported_property(true).ignore_invalid_properties(true),
        0,
    );
    for at in 0..3 {
        assert_eq!(property_processor(&tokens, at, &mut lenient), ParseResult::Consumed);
    }
    assert_eq!(lenient.metadata().len(), 0);
    let mut half = ParserCtx::new(ScoremapLoadConfig::new().ignore_invalid_properties(true), 0);
    assert_eq!(property_processor(&tokens, 1, &mut half), ParseResult::Consumed);
    assert_eq!(
        property_processor(&tokens, 0, &mut half),
        ParseResult::Failed(ScoremapParseError::PropertyDefinition {
            line_num: 1,
            reason: Reason::UnsupportedProperty
        })
    );
}

#[test]
fn reading_takes_the_waiting_lyrics() {
    let mut ctx = open_ctx();
    let tokens = vec![lyrics(1, "君の"), lyrics(2, "歌"), yomigana(3, "きみのうた"), time(4, 3000)];
    assert_eq!(lyrics_processor(&tokens, 0, &mut ctx), ParseResult::Consumed);
    assert_eq!(ctx.parsed_japanese(), Some("君の"));
    assert_eq!(lyrics_processor(&tokens, 1, &mut ctx), ParseResult::Consumed);
    assert_eq!(ctx.parsed_japanese(), Some("君の歌"));
    let result = yomigana_processor(&tokens, 2, &mut ctx);
    assert_eq!(span(&result), (0, 3000));
    match result {
        ParseResult::Emitted(note) => {
            let sentence = note.as_sentence().unwrap();
            assert_eq!(sentence.origin(), "君の歌");
            assert_eq!(sentence.roman().will_input, "kiminouta");
        }
        _ => unreachable!(),
    }
    assert_eq!(ctx.parsed_japanese(), None);
}

#[test]
fn reading_before_lyrics_is_an_error() {
    let mut ctx = open_ctx();
    let tokens = vec![yomigana(5, "きみ")];
    assert_eq!(
        yomigana_processor(&tokens, 0, &mut ctx),
        ParseResult::Failed(ScoremapParseError::StatementDefinition {
            line_num: 5,
            reason: Reason::YomiganaBeforeLyrics
        })
    );
}

#[test]
fn reading_outside_lyrics_is_an_error() {
    let mut ctx = ParserCtx::new(ScoremapLoadConfig::new(), 0);
    let tokens = vec![lyrics(1, "君"), yomigana(2, "きみ")];
    assert_eq!(step(&tokens, 0, &mut ctx), Ok(()));
    assert_eq!(
        step(&tokens, 1, &mut ctx),
        Err(ScoremapParseError::StatementDefinition {
            line_num: 2,
            reason: Reason::YomiganaOutsideLyrics
        })
    );
}

#[test]
fn section_breaks_seal_sections_and_collapse() {
    let mut ctx = open_ctx();
    let tokens = vec![
        token(1, TokenContent::Section),
        caption(2, "a"),
        token(3, TokenContent::Section),
        token(4, TokenContent::Section),
        caption(5, "b"),
    ];
    assert_eq!(section_processor(&tokens, 0, &mut ctx), ParseResult::Consumed);
    assert_eq!(ctx.sealed_sections(), 0);
    assert_eq!(step(&tokens, 1, &mut ctx), Ok(()));
    assert_eq!(section_processor(&tokens, 2, &mut ctx), ParseResult::Consumed);
    assert_eq!(ctx.sealed_sections(), 1);
    assert_eq!(section_processor(&tokens, 3, &mut ctx), ParseResult::Consumed);
    assert_eq!(ctx.sealed_sections(), 1);
    assert_eq!(step(&tokens, 4, &mut ctx), Ok(()));
    let score = ctx.finish();
    assert_eq!(score.section_count(), 2);
    assert_eq!(score.section_lens(), &vec![1, 1]);
    assert_eq!(score.len(), 2);
}

#[test]
fn comments_are_dropped_and_each_handler_ignores_other_kinds() {
    let mut ctx = open_ctx();
    let tokens = vec![token(1, TokenContent::Comment), lyrics(2, "a")];
    assert_eq!(comment_processor(&tokens, 0, &mut ctx), ParseResult::Consumed);
    assert_eq!(comment_processor(&tokens, 1, &mut ctx), ParseResult::Ignored);
    assert_eq!(single_time_processor(&tokens, 0, &mut ctx), ParseResult::Ignored);
    assert_eq!(command_processor(&tokens, 0, &mut ctx), ParseResult::Ignored);
    assert_eq!(caption_processor(&tokens, 0, &mut ctx), ParseResult::Ignored);
    assert_eq!(property_processor(&tokens, 0, &mut ctx), ParseResult::Ignored);
    assert_eq!(yomigana_processor(&tokens, 0, &mut ctx), ParseResult::Ignored);
    assert_eq!(section_processor(&tokens, 0, &mut ctx), ParseResult::Ignored);
    assert_eq!(lyrics_processor(&tokens, 0, &mut ctx), ParseResult::Ignored);
    assert_eq!(comment_processor(&tokens, 2, &mut ctx), ParseResult::Ignored);
}

#[test]
fn notes_are_named_by_their_place() {
    let tokens = vec![
        command(1, "start"),
        time(2, 1000),
        caption(3, "a"),
        caption(4, "a"),
        time(5, 2000),
        command(6, "end"),
    ];
    let score = parse(&tokens, ScoremapLoadConfig::new(), 42).unwrap();
    assert_eq!(score.scope(), 42);
    assert_eq!(score.len(), 3);
    for (at, note) in score.notes().iter().enumerate() {
        assert_eq!(note.id(), NoteId { scope: 42, serial: at as u64 });
        assert!(note.duration().start() < note.duration().end());
        assert_eq!(score.note(note.id()).unwrap().id(), note.id());
    }
    assert_eq!(score.notes()[1].content(), score.notes()[2].content());
    assert_ne!(score.notes()[1].id(), score.notes()[2].id());
    assert!(score.note(NoteId { scope: 42, serial: 3 }).is_none());
    assert!(score.note(NoteId { scope: 41, serial: 0 }).is_none());
}

#[test]
fn notes_start_in_order_when_the_time_marks_ascend() {
    let tokens = vec![
        command(1, "start"),
        time(2, 1000),
        lyrics(3, "あ"),
        yomigana(4, "あ"),
        caption(5, "c"),
        time(6, 2000),
        time(7, 3000),
        time(8, 3000),
        token(9, TokenContent::Section),
        time(10, 4000),
        lyrics(11, "い"),
        yomigana(12, "い"),
        command(13, "end"),
    ];
    let score = parse(&tokens, ScoremapLoadConfig::new(), 0).unwrap();
    let starts: Vec<u64> =
        score.notes().iter().map(|n| n.duration().start().as_millis()).collect();
    assert_eq!(starts, vec![0, 1000, 1000, 2000, 3000, 4000]);
    let ends: Vec<u64> = score.notes().iter().map(|n| n.duration().end().as_millis()).collect();
    assert_eq!(ends, vec![1000, 2000, 2000, 3000, 4000, 5000]);
    assert_eq!(score.section_lens(), &vec![4, 2]);
}

#[test]
fn time_marks_that_step_back_can_put_a_note_out_of_order() {
    let tokens = vec![
        command(1, "start"),
        time(2, 10_000),
        caption(3, "a"),
        time(4, 20_000),
        token(5, TokenContent::Comment),
        time(6, 2000),
        time(7, 3000),
        command(8, "end"),
    ];
    let score = parse(&tokens, ScoremapLoadConfig::new(), 0).unwrap();
    let starts: Vec<u64> =
        score.notes().iter().map(|n| n.duration().start().as_millis()).collect();
    assert_eq!(starts, vec![0, 10_000, 2000]);
}

#[test]
fn the_first_error_ends_the_parse() {
    let tokens = vec![command(1, "start"), command(2, "stop"), property(3, "title", "x")];
    assert_eq!(
        parse(&tokens, ScoremapLoadConfig::new(), 0),
        Err(ScoremapParseError::Command { line_num: 2, reason: Reason::UnknownCommand })
    );
    let err = parse(&tokens, ScoremapLoadConfig::new(), 0).unwrap_err();
    assert_eq!(err.line_num(), 2);
    assert_eq!(err.reason(), Reason::UnknownCommand);
    assert_eq!(err.reason().message(), "start、break、end コマンドのみが有効です。");
}

#[test]
fn no_tokens_make_an_empty_score() {
    let score = parse(&vec![], ScoremapLoadConfig::new(), 0).unwrap();
    assert_eq!(score.len(), 0);
    assert_eq!(score.section_count(), 0);
    assert_eq!(score.metadata().len(), 0);
}
