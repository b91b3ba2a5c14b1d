use line_editor::pipeline::run_commands;
use line_editor::{AddressCondition, Command, CommandType, Line, Output, Pipeline};

fn delete(text: Option<&str>) -> Command {
    Command::new(CommandType::Delete, text.map(|t| AddressCondition::from_str(t).unwrap()))
}

fn print(text: Option<&str>) -> Command {
    Command::new(CommandType::Print, text.map(|t| AddressCondition::from_str(t).unwrap()))
}

fn forwarded(commands: Vec<Command>, records: &[&str]) -> Vec<String> {
    let mut pipeline = Pipeline::new(commands);
    records.iter().map(|r| pipeline.feed(r.to_string()).unwrap().forwarded).collect()
}

#[test]
fn delete_of_the_first_line() {
    assert_eq!(forwarded(vec![delete(Some("[0]"))], &["hello", "world"]), vec!["", "world"]);
}

#[test]
fn delete_of_a_line_that_never_comes() {
    assert_eq!(forwarded(vec![delete(Some("[2]"))], &["hello", "world"]), vec!["hello", "world"]);
}

#[test]
fn delete_without_a_condition() {
    assert_eq!(forwarded(vec![delete(None)], &["hello", "world"]), vec!["", ""]);
}

#[test]
fn commands_built_from_tokens() {
    let comm = Command::try_from(vec!["delete".to_string(), "[0]".to_string()]).unwrap();
    assert_eq!(forwarded(vec![comm], &["hello", "world"]), vec!["", "world"]);
}

#[test]
fn no_commands_forward_every_record() {
    assert_eq!(forwarded(vec![], &["a", "", "c"]), vec!["a", "", "c"]);
}

#[test]
fn addresses_count_up_from_zero() {
    let mut pipeline = Pipeline::new(vec![delete(Some("[1..2..5]"))]);
    assert_eq!(pipeline.next_address(), Some(0));
    let mut out = Vec::new();
    for (i, record) in ["a", "b", "c", "d", "e", "f", "g"].iter().enumerate() {
        assert_eq!(pipeline.next_address(), Some(i as u32));
        out.push(pipeline.feed(record.to_string()).unwrap().forwarded);
    }
    assert_eq!(pipeline.next_address(), Some(7));
    assert_eq!(out, vec!["a", "", "c", "", "e", "", "g"]);
}

#[test]
fn print_emits_and_forwards() {
    let mut pipeline = Pipeline::new(vec![print(Some("[1]"))]);
    assert_eq!(
        pipeline.feed("hello".to_string()),
        Some(Output { forwarded: "hello".to_string(), printed: vec![] })
    );
    assert_eq!(
        pipeline.feed("world".to_string()),
        Some(Output { forwarded: "world".to_string(), printed: vec!["world".to_string()] })
    );
}

#[test]
fn later_commands_see_what_earlier_ones_made() {
    let mut after = Pipeline::new(vec![delete(None), print(None)]);
    assert_eq!(
        after.feed("hello".to_string()),
        Some(Output { forwarded: String::new(), printed: vec![String::new()] })
    );
    let mut before = Pipeline::new(vec![print(None), delete(None), print(None)]);
    assert_eq!(
        before.feed("hello".to_string()),
        Some(Output {
            forwarded: String::new(),
            printed: vec!["hello".to_string(), String::new()]
        })
    );
}

#[test]
fn running_commands_on_one_line() {
    let commands = vec![print(Some("[3]")), delete(Some("[3..4]")), print(Some("(2..9)"))];
    let line = |addr: u32, text: &str| Line { addr, contents: text.to_string() };
    assert_eq!(
        run_commands(&commands, line(3, "x")),
        (line(3, ""), vec!["x".to_string(), String::new()])
    );
    assert_eq!(run_commands(&commands, line(4, "x")), (line(4, ""), vec![String::new()]));
    assert_eq!(run_commands(&commands, line(5, "x")), (line(5, "x"), vec!["x".to_string()]));
    assert_eq!(run_commands(&commands, line(2, "x")), (line(2, "x"), vec![]));
    assert_eq!(run_commands(&Vec::new(), line(2, "x")), (line(2, "x"), vec![]));
}
