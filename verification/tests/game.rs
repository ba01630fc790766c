use musical_typer::{
    GamePhase, MusicalTypeResult, MusicalTyper, MusicalTyperEvent, NoteId, Ratio, Scoremap,
    ScoremapLoadConfig, Timestamp,
};

fn load(text: &str) -> Scoremap {
    Scoremap::from_str_scoped(text, ScoremapLoadConfig::new(), 5).unwrap()
}

fn keys(text: &str) -> Vec<char> {
    text.chars().collect()
}

fn at(millis: u64) -> Timestamp {
    Timestamp::from_millis(millis)
}

fn id(serial: u64) -> NoteId {
    NoteId { scope: 5, serial }
}

const CORRECT: MusicalTyperEvent = MusicalTyperEvent::Typed(MusicalTypeResult::Correct);
const MISSED: MusicalTyperEvent = MusicalTyperEvent::Typed(MusicalTypeResult::Missed);
const VACANT: MusicalTyperEvent = MusicalTyperEvent::Typed(MusicalTypeResult::Vacant);

const ONE_LINE: &str = "[start]\n*0:00\n君\n:きみ\n*0:03\n[end]\n";

const SONG: &str = ":title = Song\n:song_author = Someone\n:bgm = song.wav\n[start]\n*0:02\n>> intro\n*0:04\n君\n:きみ\n*0:06\n歌\n:うた\n*0:08\n[end]\n";

#[test]
fn one_line_score_is_one_section_with_one_sentence() {
    let score = load(ONE_LINE);
    assert_eq!(score.section_count(), 1);
    assert_eq!(score.len(), 1);
    let note = &score.notes()[0];
    assert_eq!(note.duration().start().as_millis(), 0);
    assert_eq!(note.duration().end().as_millis(), 3000);
    let sentence = note.as_sentence().unwrap();
    assert_eq!(sentence.origin(), "君");
    assert_eq!(sentence.yomigana().will_input, "きみ");
    for unit in sentence.units() {
        assert!(unit.offered_styles().contains(&unit.determined_style()));
    }
}

#[test]
fn exact_keystrokes_complete_the_sentence_perfectly() {
    let mut typer = MusicalTyper::new(load(ONE_LINE));
    let events = typer.key_press(&keys("kimi"));
    assert_eq!(
        events,
        vec![
            CORRECT,
            CORRECT,
            CORRECT,
            CORRECT,
            MusicalTyperEvent::CompletedSentence(id(0)),
            MusicalTyperEvent::DidPerfectSection,
        ]
    );
    let score = typer.score();
    assert_eq!(score.accuracy, Ratio { numerator: 4, denominator: 4 });
    assert_eq!(score.score_point, 4 * 10 + 100 + 50);
    assert_eq!(typer.set_time(at(3000)), vec![MusicalTyperEvent::EndOfScore]);
    assert_eq!(typer.score().achievement_rate, Ratio { numerator: 1, denominator: 1 });
}

#[test]
fn one_tick_takes_keystrokes_and_then_the_clock() {
    let mut typer = MusicalTyper::new(load(ONE_LINE));
    let events = typer.advance(&keys("kimi"), at(3500));
    assert_eq!(
        events,
        vec![
            CORRECT,
            CORRECT,
            CORRECT,
            CORRECT,
            MusicalTyperEvent::CompletedSentence(id(0)),
            MusicalTyperEvent::DidPerfectSection,
            MusicalTyperEvent::EndOfScore,
        ]
    );
    assert_eq!(typer.current_time(), at(3500));
}

#[test]
fn refused_keystroke_costs_accuracy_and_the_perfect_mark() {
    let mut typer = MusicalTyper::new(load(ONE_LINE));
    let events = typer.key_press(&keys("kximi"));
    assert_eq!(
        events,
        vec![
            CORRECT,
            MISSED,
            CORRECT,
            CORRECT,
            CORRECT,
            MusicalTyperEvent::CompletedSentence(id(0)),
        ]
    );
    let score = typer.score();
    assert_eq!(score.accuracy, Ratio { numerator: 4, denominator: 5 });
    assert_eq!(score.score_point, 4 * 10 + 100);
    assert_eq!(typer.key_press(&keys("a")), vec![VACANT]);
    assert_eq!(typer.score().accuracy, Ratio { numerator: 4, denominator: 5 });
}

#[test]
fn accuracy_is_all_before_any_keystroke() {
    let typer = MusicalTyper::new(load(ONE_LINE));
    let score = typer.score();
    assert_eq!(score.accuracy, Ratio { numerator: 1, denominator: 1 });
    assert_eq!(score.achievement_rate, Ratio { numerator: 0, denominator: 1 });
    assert_eq!(score.score_point, 0);
}

#[test]
fn clock_walks_through_the_notes() {
    let mut typer = MusicalTyper::new(load(SONG));
    assert_eq!(typer.activity().sections.len(), 3);
    assert_eq!(typer.activity().sections[0].from(), id(0));
    assert_eq!(typer.activity().sections[0].to(), id(1));
    assert_eq!(typer.activity().sections[2].from(), id(2));
    assert_eq!(typer.activity().sections[2].to(), id(3));
    assert_eq!(typer.activity().current_section().unwrap().from(), id(0));

    assert_eq!(typer.key_press(&keys("k")), vec![VACANT]);
    assert_eq!(
        typer.set_time(at(100)),
        vec![MusicalTyperEvent::PlayBgm("song.wav".to_string())]
    );
    assert!(typer.current_sentence().is_none());
    assert_eq!(typer.key_press(&keys("k")), vec![VACANT]);
    assert_eq!(typer.set_time(at(2000)), vec![]);
    assert_eq!(typer.key_press(&keys("k")), vec![VACANT]);

    assert_eq!(typer.set_time(at(4000)), vec![MusicalTyperEvent::UpdateSentence(id(2))]);
    assert_eq!(typer.current_sentence().unwrap().origin(), "君");
    assert_eq!(typer.key_press(&keys("ki")), vec![CORRECT, CORRECT]);
    assert_eq!(typer.set_time(at(5999)), vec![]);
    assert_eq!(
        typer.set_time(at(6000)),
        vec![MusicalTyperEvent::MissedSentence(id(2)), MusicalTyperEvent::UpdateSentence(id(3))]
    );
    assert_eq!(
        typer.key_press(&keys("uta")),
        vec![
            CORRECT,
            CORRECT,
            CORRECT,
            MusicalTyperEvent::CompletedSentence(id(3)),
            MusicalTyperEvent::DidPerfectSection
        ]
    );
    assert_eq!(typer.set_time(at(7999)), vec![]);
    assert_eq!(typer.set_time(at(8000)), vec![MusicalTyperEvent::EndOfScore]);
    assert_eq!(typer.set_time(at(9000)), vec![]);
    assert_eq!(typer.key_press(&keys("a")), vec![VACANT]);
    assert!(typer.activity().current_section().is_none());

    let score = typer.score();
    assert_eq!(score.accuracy, Ratio { numerator: 5, denominator: 5 });
    assert_eq!(score.achievement_rate, Ratio { numerator: 3, denominator: 4 });
    assert_eq!(score.score_point, 5 * 10 + 100 + 50);
}

#[test]
fn clock_that_jumps_leaves_every_note_on_its_way() {
    let mut typer = MusicalTyper::new(load(SONG));
    assert_eq!(
        typer.set_time(at(60_000)),
        vec![
            MusicalTyperEvent::PlayBgm("song.wav".to_string()),
            MusicalTyperEvent::MissedSentence(id(2)),
            MusicalTyperEvent::MissedSentence(id(3)),
            MusicalTyperEvent::EndOfScore,
        ]
    );
    assert_eq!(typer.score().achievement_rate, Ratio { numerator: 2, denominator: 4 });
}

#[test]
fn clock_does_not_go_back() {
    let mut typer = MusicalTyper::new(load(ONE_LINE));
    assert_eq!(typer.set_time(at(1000)), vec![MusicalTyperEvent::UpdateSentence(id(0))]);
    assert_eq!(typer.set_time(at(500)), vec![]);
    assert_eq!(typer.current_time(), at(1000));
    assert_eq!(typer.set_time(at(1000)), vec![]);
}

#[test]
fn share_of_the_section_that_is_over() {
    let mut typer = MusicalTyper::new(load(SONG));
    assert_eq!(typer.section_remaining_ratio(), Ratio { numerator: 0, denominator: 2000 });
    typer.set_time(at(500));
    assert_eq!(typer.section_remaining_ratio(), Ratio { numerator: 500, denominator: 2000 });
    typer.set_time(at(4500));
    assert_eq!(typer.section_remaining_ratio(), Ratio { numerator: 500, denominator: 2000 });
    typer.set_time(at(7500));
    assert_eq!(typer.section_remaining_ratio(), Ratio { numerator: 1500, denominator: 2000 });
    typer.set_time(at(8000));
    assert_eq!(typer.section_remaining_ratio(), Ratio { numerator: 0, denominator: 1 });
}

#[test]
fn music_info_comes_from_the_properties() {
    let typer = MusicalTyper::new(load(SONG));
    let info = typer.music_info();
    assert_eq!(info.title, "Song");
    assert_eq!(info.song_author, "Someone");
    let typer = MusicalTyper::new(load(ONE_LINE));
    let info = typer.music_info();
    assert_eq!(info.title, "");
    assert_eq!(info.song_author, "");
}

#[test]
fn empty_score_ends_on_the_first_tick() {
    let mut typer = MusicalTyper::new(load(""));
    assert_eq!(typer.key_press(&keys("a")), vec![VACANT]);
    assert_eq!(typer.set_time(at(0)), vec![MusicalTyperEvent::EndOfScore]);
    assert_eq!(typer.set_time(at(1)), vec![]);
}

#[test]
fn points_never_fall() {
    let mut typer = MusicalTyper::new(load(SONG));
    let mut last = typer.score().score_point;
    let mut clock = 0;
    for c in "kxixmzi uta abc".chars() {
        clock += 700;
        typer.advance(&[c], at(clock));
        let now = typer.score().score_point;
        assert!(now >= last);
        last = now;
        let score = typer.score();
        assert!(score.accuracy.numerator <= score.accuracy.denominator);
        assert!(score.accuracy.denominator > 0);
        assert!(score.achievement_rate.numerator <= score.achievement_rate.denominator);
    }
}

#[test]
fn phases_follow_the_clock() {
    let mut typer = MusicalTyper::new(load(SONG));
    assert_eq!(typer.phase(), GamePhase::InSection);
    typer.set_time(at(8000));
    assert_eq!(typer.phase(), GamePhase::Ended);
    let late = "[start]\n*0:05\n*0:09\n[end]\n";
    let mut typer = MusicalTyper::new(load(late));
    assert_eq!(typer.scoremap().notes()[0].duration().start().as_millis(), 5000);
    assert_eq!(typer.phase(), GamePhase::Idle);
    assert_eq!(typer.set_time(at(4999)), vec![]);
    assert_eq!(typer.phase(), GamePhase::Idle);
    typer.set_time(at(5000));
    assert_eq!(typer.phase(), GamePhase::InSection);
    assert_eq!(typer.set_time(at(9000)), vec![MusicalTyperEvent::EndOfScore]);
    assert_eq!(typer.phase(), GamePhase::Ended);
}
