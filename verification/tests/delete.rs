use line_editor::{Address, AddressCondition, Command, CommandType, Line, LineNumber};

struct DeleteTestCase {
    input: Vec<&'static str>,
    address: Option<Address>,
    expected_output: Vec<&'static str>,
    test_desc: &'static str,
}

fn create_lines_vec(input: &Vec<&'static str>) -> Vec<Line> {
    input
        .iter()
        .enumerate()
        .map(|(i, s)| Line { addr: i as Address, contents: s.to_string() })
        .collect()
}

fn init_test_cases() -> Vec<DeleteTestCase> {
    vec![
        DeleteTestCase {
            address: Some(0),
            input: vec!["hello", "world"],
            expected_output: vec!["", "world"],
            test_desc: "Deleting first line works.",
        },
        DeleteTestCase {
            address: Some(2),
            input: vec!["hello", "world"],
            expected_output: vec!["hello", "world"],
            test_desc: "Address out of bounds deletes nothing.",
        },
        DeleteTestCase {
            address: None,
            input: vec!["hello", "world"],
            expected_output: vec!["", ""],
            test_desc: "No address always applies.",
        },
    ]
}

#[test]
fn delete_it_works() {
    let comm = Command::new(CommandType::Delete, None);
    assert_eq!(comm.command_type(), CommandType::Delete);
    assert_eq!(comm.condition(), None);
}

#[test]
fn delete_works() {
    for test_case in init_test_cases().iter() {
        let comm = match test_case.address {
            Some(addr) => Command::new(CommandType::Delete, Some(LineNumber::new(addr).condition())),
            None => Command::new(CommandType::Delete, None),
        };
        let lines: Vec<Line> = create_lines_vec(&test_case.input);
        let expected_lines: Vec<Line> = create_lines_vec(&test_case.expected_output);
        let actual_lines: Vec<Line> = lines.into_iter().map(|l| comm.run(l)).collect();
        assert_eq!(actual_lines, expected_lines, "Test Failed: {}", test_case.test_desc);
    }
}

#[test]
fn delete_works_with_parsed_conditions() {
    let texts = [Some("[0]"), Some("[2]"), None];
    for (test_case, text) in init_test_cases().iter().zip(texts) {
        let cond = text.map(|t| AddressCondition::from_str(t).unwrap());
        let comm = Command::new(CommandType::Delete, cond);
        let actual: Vec<Line> =
            create_lines_vec(&test_case.input).into_iter().map(|l| comm.run(l)).collect();
        assert_eq!(
            actual,
            create_lines_vec(&test_case.expected_output),
            "Test Failed: {}",
            test_case.test_desc
        );
    }
}
