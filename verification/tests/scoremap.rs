use musical_typer::{
    Reason, Scoremap, ScoremapError, ScoremapLexError, ScoremapLoadConfig, ScoremapMetadata,
    ScoremapParseError,
};

#[test]
fn metadata_keeps_the_order_of_the_keys_and_the_latest_value() {
    let mut metadata = ScoremapMetadata::new();
    assert_eq!(metadata.len(), 0);
    assert_eq!(metadata.get("title"), None);
    metadata.insert("title".to_string(), "A".to_string());
    metadata.insert("bgm".to_string(), "a.wav".to_string());
    metadata.insert("title".to_string(), "B".to_string());
    assert_eq!(metadata.len(), 2);
    assert_eq!(metadata.get("title"), Some("B"));
    assert_eq!(metadata.get("bgm"), Some("a.wav"));
    assert_eq!(metadata.get("Title"), None);
    let info = metadata.get_music_info();
    assert_eq!(info.title, "B");
    assert_eq!(info.song_author, "");
}

#[test]
fn loading_reports_the_error_of_the_lexer_first() {
    let text = "[end]\n*1:xx\n";
    assert_eq!(
        Scoremap::from_str_scoped(text, ScoremapLoadConfig::new(), 0),
        Err(ScoremapError::Lex(ScoremapLexError::MalformedTimestamp {
            line_num: 2,
            reason: Reason::MalformedTimestamp
        }))
    );
    let err = Scoremap::from_str(text, ScoremapLoadConfig::new()).unwrap_err();
    assert_eq!(err.line_num(), 2);
    assert_eq!(err.reason(), Reason::MalformedTimestamp);
}

#[test]
fn loading_reports_the_error_of_the_parser() {
    let text = "# score\n:title = x\n*0:01\n";
    let expected = ScoremapError::Parse(ScoremapParseError::TimingDefinition {
        line_num: 3,
        reason: Reason::TimeOutsideLyrics,
    });
    assert_eq!(Scoremap::from_str_scoped(text, ScoremapLoadConfig::new(), 0), Err(expected));
    assert_eq!(Scoremap::from_str(text, ScoremapLoadConfig::new()), Err(expected));
    assert_eq!(expected.line_num(), 3);
    assert_eq!(expected.reason().message(), "時間指定は歌詞定義の中のみ有効です。");
}

#[test]
fn unknown_properties_fail_unless_they_are_passed_over() {
    let text = ":title = Song\n:genre = pop\n[start]\n[end]\n";
    assert_eq!(
        Scoremap::from_str_scoped(text, ScoremapLoadConfig::new(), 0),
        Err(ScoremapError::Parse(ScoremapParseError::PropertyDefinition {
            line_num: 2,
            reason: Reason::UnsupportedProperty
        }))
    );
    let score = Scoremap::from_str_scoped(
        text,
        ScoremapLoadConfig::new().ignore_unsupported_property(true),
        0,
    )
    .unwrap();
    assert_eq!(score.metadata().len(), 1);
    assert_eq!(score.metadata().get("title"), Some("Song"));
    assert_eq!(score.metadata().get("genre"), None);
}

#[test]
fn loaded_score_is_the_same_in_every_scope_but_for_the_identifiers() {
    let text = "[start]\n*0:01\n君\n:きみ\n>> end\n*0:05\n[end]\n";
    let a = Scoremap::from_str_scoped(text, ScoremapLoadConfig::new(), 1).unwrap();
    let b = Scoremap::from_str_scoped(text, ScoremapLoadConfig::new(), 1).unwrap();
    assert_eq!(a, b);
    let drawn = Scoremap::from_str(text, ScoremapLoadConfig::new()).unwrap();
    let again = Scoremap::from_str_scoped(text, ScoremapLoadConfig::new(), drawn.scope()).unwrap();
    assert_eq!(drawn, again);
    assert_eq!(drawn.len(), 3);
    for (at, note) in drawn.notes().iter().enumerate() {
        assert_eq!(note.id().scope, drawn.scope());
        assert_eq!(note.id().serial, at as u64);
        assert_eq!(note.content(), a.notes()[at].content());
    }
}

#[test]
fn metadata_entries_come_in_the_order_of_their_keys() {
    let text = ":bgm = a.wav\n:title = A\n:bgm = b.wav\n";
    let score = Scoremap::from_str_scoped(text, ScoremapLoadConfig::new(), 0).unwrap();
    assert_eq!(score.metadata().entry(0), Some(("bgm", "b.wav")));
    assert_eq!(score.metadata().entry(1), Some(("title", "A")));
    assert_eq!(score.metadata().entry(2), None);
}
