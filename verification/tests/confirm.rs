use mist::confirm::{is_yes, Prompt};

#[test]
fn the_three_answers_that_give_consent() {
    assert!(is_yes("y"));
    assert!(is_yes("Y"));
    assert!(is_yes("yes"));
}

#[test]
fn white_space_around_an_answer_is_ignored() {
    assert!(is_yes("y\n"));
    assert!(is_yes("  yes \r\n"));
    assert!(is_yes("\tY\u{a0}"));
    assert!(is_yes("\u{2003}y\u{3000}"));
}

#[test]
fn everything_else_declines() {
    for s in ["", "\n", "n", "no", "YES", "Yes", "yy", "ye", "yes!", "y es", "yes y", "yea", "j"] {
        assert!(!is_yes(s), "{:?}", s);
    }
}

#[test]
fn answers_agree_with_trimming_as_std_does() {
    let answers = ["y", " y", "y ", "\u{85}yes\u{2028}", "\u{200b}y", "é", "\u{1680}Y\u{205f}", "y\u{feff}"];
    for s in answers {
        let expected = matches!(s.trim(), "y" | "Y" | "yes");
        assert_eq!(is_yes(s), expected, "{:?}", s);
    }
}

#[test]
fn prompts_are_worded_for_the_operator() {
    assert_eq!(Prompt::OverwriteRemote.text(), "Remote storage exists: overwrite?");
    assert_eq!(Prompt::OverwriteLocal.text(), "Local directory exists: overwrite?");
    assert_eq!(
        Prompt::PushAfterFailedMerge.text(),
        "Unison may have produced an error. Transfer to remote anyway?"
    );
}
