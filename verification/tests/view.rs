use musical_typer::view::{grace_end, grace_is_over, key_background, key_of, key_text_color};
use musical_typer::{
    GameScore, KeyboardProps, MusicInfo, MusicalTypeResult, MusicalTyperEvent, NoteId, Ratio,
    Rgb, RouterStep, SEKind, Sentence, SentenceResult, Timestamp, TypeTimes, ViewRoute,
};

#[test]
fn every_sound_has_its_name() {
    assert_eq!(SEKind::Correct.name(), "correct");
    assert_eq!(SEKind::Fail.name(), "fail");
    assert_eq!(SEKind::Vacant.name(), "vacant");
    assert_eq!(SEKind::GameOver.name(), "gameover");
    assert_eq!(SEKind::MissedSentence.name(), "missed");
    assert_eq!(SEKind::PerfectSentence.name(), "perfect_sentence");
    assert_eq!(SEKind::PerfectSection.name(), "perfect_section");
}

#[test]
fn events_call_for_sounds_and_marks() {
    let id = NoteId { scope: 0, serial: 0 };
    let cases = vec![
        (MusicalTyperEvent::PlayBgm("a".to_string()), None, None),
        (MusicalTyperEvent::UpdateSentence(id), None, None),
        (MusicalTyperEvent::Typed(MusicalTypeResult::Missed), Some(SEKind::Fail), None),
        (MusicalTyperEvent::Typed(MusicalTypeResult::Correct), Some(SEKind::Correct), None),
        (MusicalTyperEvent::Typed(MusicalTypeResult::Vacant), Some(SEKind::Vacant), None),
        (
            MusicalTyperEvent::MissedSentence(id),
            Some(SEKind::MissedSentence),
            Some(SentenceResult::Missed),
        ),
        (
            MusicalTyperEvent::CompletedSentence(id),
            Some(SEKind::PerfectSentence),
            Some(SentenceResult::Completed),
        ),
        (MusicalTyperEvent::DidPerfectSection, Some(SEKind::PerfectSection), None),
        (MusicalTyperEvent::EndOfScore, None, None),
    ];
    for (event, sound, mark) in cases {
        assert_eq!(SEKind::of(&event), sound);
        assert_eq!(SentenceResult::of(&event), mark);
    }
}

#[test]
fn marks_have_their_label_and_colour() {
    assert_eq!(SentenceResult::Completed.label(), "AC");
    assert_eq!(SentenceResult::Missed.label(), "TLE");
    assert_eq!(SentenceResult::Completed.color(), Rgb { r: 0x72, g: 0xb5, b: 0x66 });
    assert_eq!(SentenceResult::Missed.color(), Rgb { r: 0xe7, g: 0xb0, b: 0x5f });
}

#[test]
fn keys_are_painted_by_their_state() {
    assert_eq!(key_background(true), Rgb { r: 0x14, g: 0x4c, b: 0x40 });
    assert_eq!(key_background(false), Rgb { r: 0xfd, g: 0xf3, b: 0xe2 });
    assert_eq!(key_text_color('f', true, true), Rgb { r: 0xd1, g: 0x9a, b: 0x1d });
    assert_eq!(key_text_color('a', false, true), Rgb { r: 0xc3, g: 0xc3, b: 0xbe });
    assert_eq!(key_text_color('f', false, false), Rgb { r: 0x40, g: 0x50, b: 0xb4 });
    assert_eq!(key_text_color('j', false, false), Rgb { r: 0x40, g: 0x50, b: 0xb4 });
    assert_eq!(key_text_color('a', false, false), Rgb { r: 0, g: 0, b: 0 });
}

#[test]
fn keyboard_highlights_the_next_key() {
    let mut sentence = Sentence::from("歌", "うた".to_string());
    assert_eq!(KeyboardProps::new(vec!['x'], &sentence).highlighted_keys, vec!['u']);
    assert_eq!(KeyboardProps::new(vec!['x'], &sentence).pressed_keys, vec!['x']);
    assert!(sentence.input('u'));
    assert_eq!(KeyboardProps::new(vec![], &sentence).highlighted_keys, vec!['t']);
    assert!(sentence.input('t'));
    assert!(sentence.input('a'));
    assert!(KeyboardProps::new(vec![], &sentence).highlighted_keys.is_empty());
}

#[test]
fn typing_speed_counts_the_last_five_seconds() {
    let mut times = TypeTimes::new();
    for millis in [1000, 2000, 5999, 6000, 9000] {
        times.record(Timestamp::from_millis(millis));
    }
    times.expire(Timestamp::from_millis(4000));
    assert_eq!(times.count(), 5);
    times.expire(Timestamp::from_millis(6001));
    assert_eq!(times.count(), 4);
    times.expire(Timestamp::from_millis(11_000));
    assert_eq!(times.points, vec![Timestamp::from_millis(6000), Timestamp::from_millis(9000)]);
    times.expire(Timestamp::from_millis(20_000));
    assert_eq!(times.count(), 0);
}

#[test]
fn game_stays_two_seconds_after_the_end() {
    let end = grace_end(Timestamp::from_millis(3000));
    assert_eq!(end.as_millis(), 5000);
    assert!(!grace_is_over(None, Timestamp::from_millis(9000)));
    assert!(!grace_is_over(Some(end), Timestamp::from_millis(5000)));
    assert!(grace_is_over(Some(end), Timestamp::from_millis(5001)));
    assert_eq!(grace_end(Timestamp::from_millis(u64::MAX - 1)).as_millis(), u64::MAX);
}

#[test]
fn routes_tell_the_router_what_to_do() {
    let score = GameScore::new(7, Ratio::one(), Ratio::zero());
    let info = MusicInfo { title: "t".to_string(), song_author: "a".to_string() };
    assert_eq!(ViewRoute::SelectMusic.step(), RouterStep::Stay);
    assert_eq!(ViewRoute::Retry.step(), RouterStep::OpenGame);
    assert_eq!(ViewRoute::Quit.step(), RouterStep::Close);
    assert_eq!(
        ViewRoute::ResultView(score, info.clone()).step(),
        RouterStep::OpenResult(score, info)
    );
}

#[test]
fn characters_stand_for_the_keys_of_the_game() {
    assert_eq!(key_of('a'), 'a');
    assert_eq!(key_of('z'), 'z');
    assert_eq!(key_of('A'), 'a');
    assert_eq!(key_of('Z'), 'z');
    assert_eq!(key_of('-'), '-');
    assert_eq!(key_of('1'), '\0');
    assert_eq!(key_of(' '), '\0');
    assert_eq!(key_of('あ'), '\0');
}
