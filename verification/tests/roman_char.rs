use musical_typer::RomanChar;

#[test]
fn tea() {
    let mut tea = RomanChar::new(&["cha", "cya", "tya"]);
    assert_eq!("cha", tea.determined_style());
    assert!(tea.input('c'));
    assert_eq!("cha", tea.determined_style());
    assert!(tea.input('y'));
    assert_eq!("cya", tea.determined_style());

    let mut tea = RomanChar::new(&["cha", "cya", "tya"]);
    assert_eq!("cha", tea.determined_style());
    assert!(tea.input('t'));
    assert_eq!("tya", tea.determined_style());
}

#[test]
fn fresh_unit_offers_every_style_and_shows_the_first() {
    let unit = RomanChar::new(&["si", "shi", "ci"]);
    assert_eq!(unit.styles(), &["si", "shi", "ci"]);
    assert_eq!(unit.offered_styles(), &["si", "shi", "ci"]);
    assert_eq!(unit.determined_style(), "si");
    assert!(unit.inputted().is_empty());
    assert!(!unit.completed_input());
}

#[test]
fn accepted_keystroke_narrows_the_candidates() {
    let mut unit = RomanChar::new(&["si", "shi", "ci"]);
    assert!(unit.input('s'));
    assert_eq!(unit.styles(), &["si", "shi"]);
    assert_eq!(unit.inputted(), &vec!['s']);
    assert!(unit.input('h'));
    assert_eq!(unit.styles(), &["shi"]);
    assert!(!unit.completed_input());
    assert!(unit.input('i'));
    assert!(unit.completed_input());
    assert_eq!(unit.determined_style(), "shi");
}

#[test]
fn refused_keystroke_rolls_back_and_clears_the_candidates() {
    let mut unit = RomanChar::new(&["cha", "cya", "tya"]);
    assert!(unit.input('c'));
    assert!(!unit.input('x'));
    assert_eq!(unit.inputted(), &vec!['c']);
    assert!(unit.styles().is_empty());
    assert_eq!(unit.offered_styles(), &["cha", "cya", "tya"]);
    assert_eq!(unit.determined_style(), "cha");
}

#[test]
fn keystroke_after_a_refused_one_is_judged_against_all_styles() {
    let mut unit = RomanChar::new(&["cha", "cya", "tya"]);
    assert!(unit.input('c'));
    assert!(!unit.input('x'));
    assert!(unit.input('y'));
    assert_eq!(unit.styles(), &["cya"]);
    assert_eq!(unit.inputted(), &vec!['c', 'y']);

    let mut first = RomanChar::new(&["cha", "cya", "tya"]);
    assert!(!first.input('x'));
    assert!(first.styles().is_empty());
    assert!(first.input('t'));
    assert_eq!(first.determined_style(), "tya");
}

#[test]
fn fix_style_keeps_the_styles_of_one_letter() {
    let mut unit = RomanChar::new(&["ti", "chi"]);
    unit.fix_style('c');
    assert_eq!(unit.offered_styles(), &["chi"]);
    assert_eq!(unit.styles(), &["chi"]);
    assert_eq!(unit.determined_style(), "chi");
    assert!(unit.inputted().is_empty());
    assert!(!unit.input('t'));
    assert!(unit.input('c'));
}

#[test]
fn fix_style_without_a_match_changes_nothing() {
    let mut unit = RomanChar::new(&["ti", "chi"]);
    unit.fix_style('k');
    assert_eq!(unit.offered_styles(), &["ti", "chi"]);
    assert_eq!(unit.styles(), &["ti", "chi"]);
}

#[test]
fn determine_finds_the_first_style_with_the_prefix() {
    let unit = RomanChar::new(&["cha", "cya", "tya"]);
    assert_eq!(unit.determine("c"), Some("cha"));
    assert_eq!(unit.determine("cy"), Some("cya"));
    assert_eq!(unit.determine("t"), Some("tya"));
    assert_eq!(unit.determine(""), Some("cha"));
    assert_eq!(unit.determine("x"), None);
    assert_eq!(unit.determine("chaa"), None);
}

#[test]
fn unit_is_complete_when_as_much_is_typed_as_the_style_has() {
    let mut unit = RomanChar::new(&["n"]);
    assert!(!unit.completed_input());
    assert!(unit.input('n'));
    assert!(unit.completed_input());
    assert!(!unit.input('n'));
}
