use sqlrite::meta::MetaCommand;
use sqlrite::repl::get_command_type;
use sqlrite::repl::is_complete;
use sqlrite::repl::CommandType;
use sqlrite::repl::Completeness;
use sqlrite::sql::SQLCommand;

#[test]
fn exit_classifies_as_meta_exit() {
    let cmd = get_command_type(&String::from(".exit"));
    assert_eq!(cmd, CommandType::MetaCommand(MetaCommand::Exit));
}

#[test]
fn help_classifies_as_meta_help() {
    let cmd = get_command_type(&String::from(".help"));
    assert_eq!(cmd, CommandType::MetaCommand(MetaCommand::Help));
}

#[test]
fn open_keeps_the_full_text() {
    let cmd = get_command_type(&String::from(".open other.db"));
    assert_eq!(
        cmd,
        CommandType::MetaCommand(MetaCommand::Open(String::from(".open other.db")))
    );
}

#[test]
fn lone_dot_is_unknown_meta() {
    let cmd = get_command_type(&String::from("."));
    assert_eq!(cmd, CommandType::MetaCommand(MetaCommand::Unknown));
}

#[test]
fn unrecognized_meta_is_unknown() {
    let cmd = get_command_type(&String::from(".foo"));
    assert_eq!(cmd, CommandType::MetaCommand(MetaCommand::Unknown));
}

#[test]
fn empty_input_is_classified_not_rejected() {
    let cmd = get_command_type(&String::from(""));
    assert_eq!(cmd, CommandType::SQLCommand(SQLCommand::Unknown(String::from(""))));
}

#[test]
fn insert_classifies_with_payload() {
    let cmd = get_command_type(&String::from("insert into t;"));
    assert_eq!(
        cmd,
        CommandType::SQLCommand(SQLCommand::Insert(String::from("insert into t;")))
    );
}

#[test]
fn keyword_matching_is_case_sensitive() {
    let cmd = get_command_type(&String::from("Insert into t;"));
    assert_eq!(
        cmd,
        CommandType::SQLCommand(SQLCommand::Unknown(String::from("Insert into t;")))
    );
}

#[test]
fn keyword_must_be_the_whole_first_token() {
    let cmd = get_command_type(&String::from("select* from t;"));
    assert_eq!(
        cmd,
        CommandType::SQLCommand(SQLCommand::Unknown(String::from("select* from t;")))
    );
}

#[test]
fn update_delete_create_select_classify() {
    assert_eq!(
        get_command_type(&String::from("update t set x = 1;")),
        CommandType::SQLCommand(SQLCommand::Update(String::from("update t set x = 1;")))
    );
    assert_eq!(
        get_command_type(&String::from("delete from t;")),
        CommandType::SQLCommand(SQLCommand::Delete(String::from("delete from t;")))
    );
    assert_eq!(
        get_command_type(&String::from("create table t (id int);")),
        CommandType::SQLCommand(SQLCommand::CreateTable(String::from(
            "create table t (id int);"
        )))
    );
    assert_eq!(
        get_command_type(&String::from("select * from t;")),
        CommandType::SQLCommand(SQLCommand::Select(String::from("select * from t;")))
    );
}

#[test]
fn meta_token_ignores_extra_whitespace_between_args() {
    let cmd = get_command_type(&String::from(".open   spaced.db"));
    assert_eq!(
        cmd,
        CommandType::MetaCommand(MetaCommand::Open(String::from(".open   spaced.db")))
    );
}

#[test]
fn meta_command_names() {
    assert_eq!(MetaCommand::Exit.name(), String::from(".exit"));
    assert_eq!(MetaCommand::Help.name(), String::from(".help"));
    assert_eq!(
        MetaCommand::Open(String::from(".open a.db")).name(),
        String::from(".open")
    );
    assert_eq!(MetaCommand::Unknown.name(), String::from("Unknown command"));
}

#[test]
fn admin_marker_is_always_complete() {
    assert_eq!(is_complete("."), Completeness::Complete);
    assert_eq!(is_complete(".exit"), Completeness::Complete);
    assert_eq!(is_complete(".open no terminator here"), Completeness::Complete);
    assert_eq!(is_complete("   .help   "), Completeness::Complete);
}

#[test]
fn data_complete_iff_terminator() {
    assert_eq!(is_complete("select * from t"), Completeness::Incomplete);
    assert_eq!(is_complete("select * from t;"), Completeness::Complete);
    assert_eq!(is_complete("select * from t; "), Completeness::Complete);
    assert_eq!(is_complete("select * from t;\n"), Completeness::Complete);
}

#[test]
fn empty_or_whitespace_buffer_is_incomplete() {
    assert_eq!(is_complete(""), Completeness::Incomplete);
    assert_eq!(is_complete("   "), Completeness::Incomplete);
    assert_eq!(is_complete("\t\n"), Completeness::Incomplete);
}
