use mist::transport::{
    exists_command, interpret_test_status, interpret_write_status, merge_command,
    piped_write_command, select_strategy, staged_copy_command, Strategy, TransportError,
    WriteOutcome,
};

#[test]
fn strategy_follows_the_flag() {
    assert_eq!(select_strategy(false), Strategy::PipedWrite);
    assert_eq!(select_strategy(true), Strategy::StagedCopy);
}

#[test]
fn test_status_zero_and_one_answer_the_question() {
    assert_eq!(interpret_test_status(Some(0)), Ok(true));
    assert_eq!(interpret_test_status(Some(1)), Ok(false));
}

#[test]
fn any_other_test_status_is_an_error() {
    assert_eq!(interpret_test_status(Some(2)), Err(TransportError::UnexpectedStatus(2)));
    assert_eq!(interpret_test_status(Some(-1)), Err(TransportError::UnexpectedStatus(-1)));
    assert_eq!(interpret_test_status(Some(255)), Err(TransportError::UnexpectedStatus(255)));
    assert_eq!(interpret_test_status(None), Err(TransportError::NoStatus));
}

#[test]
fn only_status_zero_is_a_written_file() {
    assert_eq!(interpret_write_status(Some(0)), WriteOutcome::Written);
    assert_eq!(interpret_write_status(Some(1)), WriteOutcome::Failed(1));
    assert_eq!(interpret_write_status(Some(-9)), WriteOutcome::Failed(-9));
    assert_eq!(interpret_write_status(None), WriteOutcome::NoStatus);
}

#[test]
fn exists_command_tests_for_a_regular_file() {
    let c = exists_command("stage.tar.gz.gpg");
    assert_eq!(c.program, "test");
    assert_eq!(c.args, vec!["-f".to_string(), "stage.tar.gz.gpg".to_string()]);
}

#[test]
fn piped_write_copies_standard_input() {
    let c = piped_write_command("stage.tar.gz.gpg");
    assert_eq!(c.program, "dd");
    assert_eq!(c.args, vec!["of=stage.tar.gz.gpg".to_string()]);
}

#[test]
fn staged_copy_sends_the_file_to_the_same_name() {
    let c = staged_copy_command("stage.tar.gz.gpg", "me@host");
    assert_eq!(c.program, "rsync");
    assert_eq!(
        c.args,
        vec![
            "--progress".to_string(),
            "stage.tar.gz.gpg".to_string(),
            "me@host:stage.tar.gz.gpg".to_string()
        ]
    );
}

#[test]
fn merge_command_adds_the_batch_flag_last() {
    let c = merge_command("/live", "/stage", true);
    assert_eq!(c.program, "unison");
    assert_eq!(c.args, vec!["/live".to_string(), "/stage".to_string(), "-batch".to_string()]);
    let c = merge_command("/live", "/stage", false);
    assert_eq!(c.program, "unison");
    assert_eq!(c.args, vec!["/live".to_string(), "/stage".to_string()]);
}
