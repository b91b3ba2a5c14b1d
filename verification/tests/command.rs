use line_editor::{
    AddressCondition, AddressConditionParseError, Command, CommandParseError, CommandType, Line,
};

fn line(addr: u32, contents: &str) -> Line {
    Line { addr, contents: contents.to_string() }
}

#[test]
fn invalid_command_name_fails() {
    let invalid_names = &["incorrect", "names", "test"];
    for invalid_comm_name in invalid_names.iter() {
        let comm_args = vec![invalid_comm_name.to_string(), String::from("(1)")];
        let comm = Command::try_from(comm_args);
        assert!(comm.is_err());
        let comm_err = comm.unwrap_err();
        assert_eq!(comm_err, CommandParseError::InvalidCommandName);
    }
}

#[test]
fn command_keywords_identified_correctly() {
    let keywords_and_types = &[("delete", CommandType::Delete), ("print", CommandType::Print)];

    for &(keyword, expected_type) in keywords_and_types.iter() {
        let comm_args = vec![keyword.to_string(), String::from("(1)")];
        let comm = Command::try_from(comm_args).unwrap();
        assert_eq!(comm.command_type(), expected_type);
        assert_eq!(comm, Command::new(expected_type, Some(AddressCondition::line_number(1))));
    }
}

#[test]
fn command_keywords_without_a_condition() {
    for (keyword, expected_type) in [("delete", CommandType::Delete), ("print", CommandType::Print)]
    {
        let comm = Command::try_from(vec![keyword.to_string()]).unwrap();
        assert_eq!(comm, Command::new(expected_type, None));
        assert_eq!(comm.condition(), None);
    }
}

#[test]
fn empty_command_fails() {
    assert_eq!(Command::try_from(Vec::new()), Err(CommandParseError::EmptyCommand));
}

#[test]
fn command_names_are_exact() {
    for name in ["", "Delete", "delete ", "d", "prin", "printf", "PRINT"] {
        assert_eq!(
            Command::try_from(vec![name.to_string()]),
            Err(CommandParseError::InvalidCommandName),
            "{:?}",
            name
        );
    }
}

#[test]
fn name_is_looked_at_before_the_condition() {
    assert_eq!(
        Command::try_from(vec!["frobnicate".to_string(), "abc".to_string()]),
        Err(CommandParseError::InvalidCommandName)
    );
}

#[test]
fn faults_of_the_condition_are_carried_along() {
    let cases = [
        ("", AddressConditionParseError::ArgEmpty),
        ("abc", AddressConditionParseError::InvalidRangeClosure),
        ("[x]", AddressConditionParseError::InvalidLineNumber),
        ("[1..2..3..4]", AddressConditionParseError::InvalidArgument),
        ("[1..0..4]", AddressConditionParseError::InvalidStep),
    ];
    for (text, fault) in cases {
        assert_eq!(
            Command::try_from(vec!["delete".to_string(), text.to_string()]),
            Err(CommandParseError::InvalidAddressCond(fault)),
            "{:?}",
            text
        );
    }
}

#[test]
fn tokens_behind_the_second_are_not_read() {
    let comm = Command::try_from(vec![
        "delete".to_string(),
        "[2..4]".to_string(),
        "abc".to_string(),
    ])
    .unwrap();
    assert_eq!(
        comm,
        Command::new(CommandType::Delete, Some(AddressCondition::range(2, 4, true, true)))
    );
}

#[test]
fn should_run_without_a_condition() {
    for kind in [CommandType::Delete, CommandType::Print] {
        let comm = Command::new(kind, None);
        for addr in [0, 1, 17, u32::MAX] {
            assert!(comm.should_run(addr));
        }
    }
}

#[test]
fn should_run_follows_the_condition() {
    let cond = AddressCondition::from_str("[2..2..8)").unwrap();
    let comm = Command::new(CommandType::Delete, Some(cond));
    for addr in 0..12 {
        assert_eq!(comm.should_run(addr), cond.applies(addr));
        assert_eq!(comm.should_run(addr), comm.should_run(addr));
    }
    assert!(comm.should_run(2));
    assert!(comm.should_run(6));
    assert!(!comm.should_run(8));
    assert!(!comm.should_run(3));
}

#[test]
fn delete_empties_a_matching_line() {
    let comm = Command::new(CommandType::Delete, Some(AddressCondition::line_number(3)));
    assert_eq!(comm.run(line(3, "hello")), line(3, ""));
    assert_eq!(comm.run(line(3, "")), line(3, ""));
}

#[test]
fn run_keeps_a_line_that_does_not_match() {
    for kind in [CommandType::Delete, CommandType::Print] {
        let comm = Command::new(kind, Some(AddressCondition::line_number(3)));
        assert_eq!(comm.run(line(2, "hello")), line(2, "hello"));
        assert_eq!(comm.run(line(4, "")), line(4, ""));
        assert_eq!(comm.emitted(&line(2, "hello")), None);
    }
}

#[test]
fn print_keeps_the_line_and_emits_it() {
    let comm = Command::new(CommandType::Print, Some(AddressCondition::line_number(3)));
    assert_eq!(comm.run(line(3, "hello")), line(3, "hello"));
    assert_eq!(comm.emitted(&line(3, "hello")), Some("hello".to_string()));
    assert_eq!(comm.emitted(&line(3, "")), Some(String::new()));
    let everywhere = Command::new(CommandType::Print, None);
    assert_eq!(everywhere.emitted(&line(9, "x")), Some("x".to_string()));
}

#[test]
fn delete_emits_nothing() {
    let comm = Command::new(CommandType::Delete, None);
    assert_eq!(comm.emitted(&line(0, "hello")), None);
}

#[test]
fn a_line_and_its_copy_are_equal() {
    let first = line(5, "text");
    assert_eq!(first.clone(), first);
}

#[test]
fn tokens_convert_into_a_command() {
    let tokens = vec!["print".to_string(), "[3..5)".to_string()];
    let comm: Result<Command, CommandParseError> = tokens.try_into();
    assert_eq!(
        comm,
        Ok(Command::new(CommandType::Print, Some(AddressCondition::range(3, 5, true, false))))
    );
    let nothing: Result<Command, CommandParseError> = Vec::<String>::new().try_into();
    assert_eq!(nothing, Err(CommandParseError::EmptyCommand));
}
