use musical_typer::kana::{contracted, kana, latin};
use musical_typer::Sentence;

fn type_all(sentence: &mut Sentence, keys: &str) -> Vec<bool> {
    keys.chars().map(|c| sentence.input(c)).collect()
}

#[test]
fn kana_are_spelled_with_their_preferred_style_first() {
    assert_eq!(kana('あ'), vec!["a"]);
    assert_eq!(kana('し'), vec!["si", "shi", "ci"]);
    assert_eq!(kana('シ'), vec!["si", "shi", "ci"]);
    assert_eq!(kana('ち'), vec!["ti", "chi"]);
    assert_eq!(kana('つ'), vec!["tu", "tsu"]);
    assert_eq!(kana('ふ'), vec!["hu", "fu"]);
    assert_eq!(kana('ん'), vec!["nn", "xn"]);
    assert_eq!(kana('っ'), vec!["ltu", "xtu", "ltsu"]);
    assert_eq!(kana('ぃ'), vec!["xi", "li"]);
    assert_eq!(kana('ー'), vec!["-"]);
    assert_eq!(kana('を'), vec!["wo"]);
    assert!(kana('漢').is_empty());
    assert!(kana('a').is_empty());
}

#[test]
fn contracted_syllables_and_latin_letters() {
    assert_eq!(contracted('き', 'ゃ'), vec!["kya"]);
    assert_eq!(contracted('し', 'ゅ'), vec!["syu", "shu"]);
    assert_eq!(contracted('ち', 'ょ'), vec!["tyo", "cho", "cyo"]);
    assert_eq!(contracted('ジ', 'ャ'), vec!["zya", "ja", "jya"]);
    assert!(contracted('か', 'ゃ').is_empty());
    assert!(contracted('き', 'や').is_empty());
    assert_eq!(latin('a'), vec!["a"]);
    assert_eq!(latin('Q'), vec!["q"]);
    assert_eq!(latin('-'), vec!["-"]);
    assert!(latin('1').is_empty());
    assert!(latin('あ').is_empty());
}

#[test]
fn fresh_sentence_shows_everything_as_still_to_type() {
    let sentence = Sentence::from("君の歌", "きみのうた".to_string());
    assert_eq!(sentence.origin(), "君の歌");
    assert_eq!(sentence.units().len(), 5);
    assert_eq!(sentence.cursor(), 0);
    assert!(!sentence.completed());
    let roman = sentence.roman();
    assert_eq!(roman.inputted, "");
    assert_eq!(roman.will_input, "kiminouta");
    let reading = sentence.yomigana();
    assert_eq!(reading.inputted, "");
    assert_eq!(reading.will_input, "きみのうた");
}

#[test]
fn every_displayed_style_is_one_of_the_offered_styles() {
    let sentence = Sentence::from("", "しゃっちょーのじゅんび abc".to_string());
    for unit in sentence.units() {
        assert!(unit.offered_styles().contains(&unit.determined_style()));
        assert_eq!(unit.offered_styles()[0], unit.determined_style());
    }
}

#[test]
fn typing_moves_both_halves_together() {
    let mut sentence = Sentence::from("君の歌", "きみのうた".to_string());
    assert_eq!(type_all(&mut sentence, "k"), vec![true]);
    assert_eq!(sentence.roman().inputted, "k");
    assert_eq!(sentence.roman().will_input, "iminouta");
    assert_eq!(sentence.yomigana().inputted, "");
    assert_eq!(type_all(&mut sentence, "i"), vec![true]);
    assert_eq!(sentence.yomigana().inputted, "き");
    assert_eq!(sentence.yomigana().will_input, "みのうた");
    assert_eq!(sentence.cursor(), 1);
    assert_eq!(type_all(&mut sentence, "x"), vec![false]);
    assert_eq!(sentence.cursor(), 1);
    assert_eq!(sentence.roman().inputted, "ki");
    assert_eq!(type_all(&mut sentence, "minouta"), vec![true; 7]);
    assert!(sentence.completed());
    assert_eq!(sentence.roman().inputted, "kiminouta");
    assert_eq!(sentence.roman().will_input, "");
    assert_eq!(sentence.yomigana().inputted, "きみのうた");
    assert_eq!(sentence.yomigana().will_input, "");
    assert_eq!(type_all(&mut sentence, "a"), vec![false]);
}

#[test]
fn another_style_can_be_typed_and_is_then_displayed() {
    let mut sentence = Sentence::from("", "しち".to_string());
    assert_eq!(sentence.roman().will_input, "siti");
    assert_eq!(type_all(&mut sentence, "sh"), vec![true, true]);
    assert_eq!(sentence.roman().inputted, "sh");
    assert_eq!(sentence.roman().will_input, "iti");
    assert_eq!(type_all(&mut sentence, "ichi"), vec![true; 4]);
    assert!(sentence.completed());
    assert_eq!(sentence.roman().inputted, "shichi");
}

#[test]
fn contracted_syllable_is_one_unit_of_two_characters() {
    let mut sentence = Sentence::from("", "きゃく".to_string());
    assert_eq!(sentence.units().len(), 2);
    assert_eq!(type_all(&mut sentence, "kya"), vec![true; 3]);
    assert_eq!(sentence.yomigana().inputted, "きゃ");
    assert_eq!(sentence.yomigana().will_input, "く");
}

#[test]
fn small_tsu_is_typed_by_doubling_the_next_consonant() {
    let mut sentence = Sentence::from("", "まって".to_string());
    assert_eq!(sentence.units()[1].offered_styles(), &["t", "ltu", "xtu", "ltsu"]);
    assert_eq!(sentence.roman().will_input, "matte");
    assert_eq!(type_all(&mut sentence, "matte"), vec![true; 5]);
    assert!(sentence.completed());
}

#[test]
fn small_tsu_can_be_typed_on_its_own() {
    let mut sentence = Sentence::from("", "まっくら".to_string());
    assert_eq!(type_all(&mut sentence, "maltukura"), vec![true; 9]);
    assert!(sentence.completed());
    let mut sentence = Sentence::from("", "まっくら".to_string());
    assert_eq!(type_all(&mut sentence, "maxtukura"), vec![true; 9]);
    assert!(sentence.completed());
}

#[test]
fn doubled_consonant_binds_the_style_behind_it() {
    let mut sentence = Sentence::from("", "あっち".to_string());
    assert_eq!(sentence.units()[1].offered_styles(), &["t", "c", "ltu", "xtu", "ltsu"]);
    assert_eq!(type_all(&mut sentence, "ac"), vec![true, true]);
    assert_eq!(sentence.units()[2].offered_styles(), &["chi"]);
    assert_eq!(sentence.roman().will_input, "chi");
    assert_eq!(type_all(&mut sentence, "t"), vec![false]);
    assert_eq!(type_all(&mut sentence, "chi"), vec![true; 3]);
    assert!(sentence.completed());
}

#[test]
fn doubling_letters_come_once_each() {
    let sentence = Sentence::from("", "っし".to_string());
    assert_eq!(sentence.units()[0].offered_styles(), &["s", "c", "ltu", "xtu", "ltsu"]);
    let sentence = Sentence::from("", "っあ".to_string());
    assert_eq!(sentence.units()[0].offered_styles(), &["ltu", "xtu", "ltsu"]);
    let sentence = Sentence::from("", "っ".to_string());
    assert_eq!(sentence.units()[0].offered_styles(), &["ltu", "xtu", "ltsu"]);
}

#[test]
fn small_tsu_shows_a_consonant_only_where_the_next_style_begins_with_it() {
    let mut sentence = Sentence::from("", "っう".to_string());
    assert_eq!(sentence.units()[0].offered_styles(), &["ltu", "xtu", "ltsu", "w"]);
    assert_eq!(sentence.roman().will_input, "ltuu");
    assert_eq!(type_all(&mut sentence, "ltuu"), vec![true; 4]);
    assert!(sentence.completed());
    let mut sentence = Sentence::from("", "っう".to_string());
    assert_eq!(type_all(&mut sentence, "wwu"), vec![true; 3]);
    assert!(sentence.completed());
}

#[test]
fn what_is_shown_can_be_typed_as_it_stands() {
    for reading in ["きゃっちぼーる", "しゅっぱつ、しんこう!", "あっち こっち", "んーっっa", "ABC-def"] {
        let mut sentence = Sentence::from("", reading.to_string());
        let mut typed = 0;
        while !sentence.completed() {
            let shown = sentence.roman().will_input;
            let key = shown.chars().next().unwrap();
            assert!(sentence.input(key));
            assert_eq!(sentence.roman().will_input, shown[key.len_utf8()..]);
            typed += 1;
            assert!(typed < 100);
        }
        assert_eq!(sentence.roman().will_input, "");
    }
}

#[test]
fn characters_that_cannot_be_typed_are_passed_over() {
    let mut sentence = Sentence::from("", "あ、い。".to_string());
    assert_eq!(sentence.units().len(), 4);
    assert_eq!(sentence.roman().will_input, "ai");
    assert_eq!(type_all(&mut sentence, "a"), vec![true]);
    assert_eq!(sentence.cursor(), 2);
    assert_eq!(sentence.yomigana().inputted, "あ、");
    assert_eq!(type_all(&mut sentence, "i"), vec![true]);
    assert!(sentence.completed());
    assert_eq!(sentence.yomigana().will_input, "");
}

#[test]
fn sentence_of_untypable_characters_is_complete_at_once() {
    let sentence = Sentence::from("!", "!?".to_string());
    assert!(sentence.completed());
    assert_eq!(sentence.cursor(), 2);
    assert_eq!(sentence.yomigana().inputted, "!?");
}

#[test]
fn empty_sentence_is_complete() {
    let mut sentence = Sentence::empty();
    assert!(sentence.completed());
    assert_eq!(sentence.origin(), "");
    assert_eq!(sentence.roman().will_input, "");
    assert_eq!(sentence.yomigana().will_input, "");
    assert!(!sentence.input('a'));
    assert_eq!(sentence, Sentence::from("", String::new()));
}

#[test]
fn long_lines_are_typed_as_they_are_read() {
    let mut sentence = Sentence::from("もうダメだ そんな時は", "もうだめだそんなときは".to_string());
    assert_eq!(sentence.roman().will_input, "moudamedasonnnatokiha");
    assert_eq!(type_all(&mut sentence, "moudamedasonnnatokiha"), vec![true; 21]);
    assert!(sentence.completed());
    let mut sentence = Sentence::from("", "ほしたちのだんすぱーてぃー".to_string());
    assert_eq!(type_all(&mut sentence, "hoshitachinodannsupa-texi-"), vec![true; 26]);
    assert!(sentence.completed());
}
