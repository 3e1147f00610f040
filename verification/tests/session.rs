use sqlrite::meta::MetaCommand;
use sqlrite::repl::CommandType;
use sqlrite::session::FeedOutcome;
use sqlrite::session::Session;
use sqlrite::sql::SQLCommand;

#[test]
fn exit_dispatches_records_and_terminates() {
    let mut session = Session::new();
    let outcome = session.feed_line(".exit");
    assert_eq!(
        outcome,
        FeedOutcome::Dispatch(CommandType::MetaCommand(MetaCommand::Exit))
    );
    assert_eq!(session.history(), &vec![String::from(".exit")]);
    assert!(session.is_terminated());
}

#[test]
fn multiline_create_is_assembled_and_classified() {
    let mut session = Session::new();
    let first = session.feed_line("create table t (");
    assert_eq!(first, FeedOutcome::Continue);
    assert!(session.is_reading());
    let second = session.feed_line("id int);");
    assert_eq!(
        second,
        FeedOutcome::Dispatch(CommandType::SQLCommand(SQLCommand::CreateTable(
            String::from("create table t (id int);")
        )))
    );
    assert!(!session.is_reading());
    assert_eq!(session.history(), &vec![String::from("create table t (id int);")]);
    assert!(!session.is_terminated());
}

#[test]
fn unknown_meta_dispatches_and_session_continues() {
    let mut session = Session::new();
    let outcome = session.feed_line(".foo");
    assert_eq!(
        outcome,
        FeedOutcome::Dispatch(CommandType::MetaCommand(MetaCommand::Unknown))
    );
    assert!(!session.is_terminated());
    let next = session.feed_line(".help");
    assert_eq!(
        next,
        FeedOutcome::Dispatch(CommandType::MetaCommand(MetaCommand::Help))
    );
    assert_eq!(
        session.history(),
        &vec![String::from(".foo"), String::from(".help")]
    );
}

#[test]
fn every_dispatched_command_lands_in_history_in_order() {
    let mut session = Session::new();
    assert_eq!(session.feed_line("select * from t"), FeedOutcome::Continue);
    assert!(matches!(session.feed_line(";"), FeedOutcome::Dispatch(_)));
    assert!(matches!(session.feed_line("insert into t (1);"), FeedOutcome::Dispatch(_)));
    assert_eq!(session.feed_line("update t"), FeedOutcome::Continue);
    assert_eq!(session.feed_line(" set x = 2"), FeedOutcome::Continue);
    assert!(matches!(session.feed_line(";"), FeedOutcome::Dispatch(_)));
    assert_eq!(
        session.history(),
        &vec![
            String::from("select * from t;"),
            String::from("insert into t (1);"),
            String::from("update t set x = 2;"),
        ]
    );
    assert!(!session.is_terminated());
}

#[test]
fn dispatch_classifies_the_trimmed_assembled_text() {
    let mut session = Session::new();
    let outcome = session.feed_line("  select * from t;  ");
    assert_eq!(
        outcome,
        FeedOutcome::Dispatch(CommandType::SQLCommand(SQLCommand::Select(String::from(
            "select * from t;"
        ))))
    );
    assert_eq!(session.history(), &vec![String::from("  select * from t;  ")]);
}

#[test]
fn restored_history_is_kept_and_extended() {
    let mut session = Session::with_history(vec![String::from("select 1;")]);
    let outcome = session.feed_line(".exit");
    assert!(matches!(outcome, FeedOutcome::Dispatch(_)));
    assert_eq!(
        session.history(),
        &vec![String::from("select 1;"), String::from(".exit")]
    );
}

#[test]
fn end_of_input_terminates_without_dispatching() {
    let mut session = Session::new();
    assert_eq!(session.feed_line("create table t ("), FeedOutcome::Continue);
    session.end_input();
    assert!(session.is_terminated());
    assert_eq!(session.history(), &Vec::<String>::new());
}

#[test]
fn exit_with_trailing_whitespace_still_terminates() {
    let mut session = Session::new();
    let outcome = session.feed_line("  .exit  ");
    assert_eq!(
        outcome,
        FeedOutcome::Dispatch(CommandType::MetaCommand(MetaCommand::Exit))
    );
    assert!(session.is_terminated());
}
