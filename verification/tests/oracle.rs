use modtester::convert::NestedInto;
use modtester::error::{create_error, DummyError};
use modtester::oracle::{
    contains_char, get_user_bool_input, test_program, Trial, TrialAction, TrialStage, AFFIRMATIVE,
};

#[test]
fn answer_with_a_y_is_a_yes() {
    assert!(get_user_bool_input("y"));
    assert!(get_user_bool_input("yes\n"));
    assert!(get_user_bool_input("okay"));
    assert!(get_user_bool_input("  nay  "));
}

#[test]
fn answer_is_read_without_regard_to_case() {
    // these hold no lower case y before they are lowered
    assert!(get_user_bool_input("Y"));
    assert!(get_user_bool_input("YES"));
    assert!(get_user_bool_input("YeS\r\n"));
    assert!(get_user_bool_input("NO WAY"));
}

#[test]
fn answer_without_a_y_is_a_no() {
    assert!(!get_user_bool_input(""));
    assert!(!get_user_bool_input("\n"));
    assert!(!get_user_bool_input("n"));
    assert!(!get_user_bool_input("NO"));
    assert!(!get_user_bool_input("true"));
    assert!(!get_user_bool_input("1"));
    assert!(!get_user_bool_input("ja, natürlich"));
}

#[test]
fn contains_char_finds_a_character_anywhere() {
    assert_eq!(AFFIRMATIVE, 'y');
    assert!(contains_char("y", 'y'));
    assert!(contains_char("xyz", 'y'));
    assert!(contains_char("xxy", 'y'));
    assert!(contains_char("grüße", 'ß'));
    assert!(contains_char("grüße", 'e'));
    assert!(!contains_char("", 'y'));
    assert!(!contains_char("Y", 'y'));
    assert!(!contains_char("grüße", 'u'));
}

#[test]
fn trial_runs_the_program_and_asks() {
    let mut trial = test_program(false);
    assert_eq!(trial, Trial { stage: TrialStage::Launching });
    assert_eq!(trial.action(), TrialAction::Launch);
    // an answer before the run is passed over
    assert_eq!(trial.answered("yes"), TrialAction::Launch);
    assert_eq!(trial.launched(true), TrialAction::Ask);
    assert_eq!(trial.launched(false), TrialAction::Ask);
    assert_eq!(trial.answered("Yes"), TrialAction::Verdict(true));
    assert_eq!(trial.answered("no"), TrialAction::Verdict(true));
    assert_eq!(trial.launched(false), TrialAction::Verdict(true));
    assert_eq!(trial.stage, TrialStage::Judged(true));
}

#[test]
fn trial_in_dummy_mode_asks_without_a_run() {
    let mut trial = test_program(true);
    assert_eq!(trial.action(), TrialAction::Ask);
    assert_eq!(trial.launched(false), TrialAction::Ask);
    assert_eq!(trial.answered("nope"), TrialAction::Verdict(false));
}

#[test]
fn program_that_cannot_start_breaks_the_trial() {
    let mut trial = test_program(false);
    assert_eq!(trial.launched(false), TrialAction::Fatal);
    assert_eq!(trial.answered("yes"), TrialAction::Fatal);
    assert_eq!(trial.launched(true), TrialAction::Fatal);
    assert_eq!(trial.stage, TrialStage::Broken);
}

#[test]
fn create_error_reports_an_invalid_argument() {
    assert_eq!(create_error(), Err(DummyError::InvalidArgument));
}

#[test]
fn n_into_converts_what_an_option_holds() {
    let small: Option<u8> = Some(200);
    let large: Option<u32> = small.n_into();
    assert_eq!(large, Some(200u32));
    let nothing: Option<u8> = None;
    let still_nothing: Option<u64> = nothing.n_into();
    assert_eq!(still_nothing, None);
    let text: Option<String> = Some(String::from("mods/temp"));
    let path: Option<std::path::PathBuf> = text.n_into();
    assert_eq!(path, Some(std::path::PathBuf::from("mods/temp")));
    // the value itself stays
    assert_eq!(text, Some(String::from("mods/temp")));
}
