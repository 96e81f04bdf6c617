use slate::cli::{self, Command};
use slate::command::exec::{self, Invocation};
use slate::command::{get, list, remove, rename, snippet};
use slate::config::Config;
use slate::errors::{CommandError, SlateError};
use slate::message::Message;
use slate::results::{CommandResult, SlateResult};
use slate::session::{Found, Reply, Step};
use slate::Slate;
use std::io;

fn drive(first: Step, file: &mut Option<String>) -> SlateResult<Reply> {
    let mut step = first;
    loop {
        step = match step {
            Step::Open(reading) => {
                let found = match file {
                    Some(text) => Found::Text(text.clone()),
                    None => Found::Missing(io::Error::new(io::ErrorKind::NotFound, "no such file")),
                };
                reading.opened(found)
            }
            Step::Write(text, writing) => {
                *file = Some(text);
                writing.written(Ok(()))
            }
            Step::Finished(result) => return result,
        };
    }
}

fn execute(command: Command, file: &mut Option<String>) -> CommandResult {
    let config = Config { filepath: "/tmp/slate.test".to_string() };
    let slate = Slate { config: &config };
    match cli::begin(&slate, &command) {
        Ok(step) => cli::run(&command, drive(step, file)),
        Err(err) => Err(err),
    }
}

fn shown(result: CommandResult) -> String {
    match result {
        Ok(Some(message)) => message.to_string(),
        Ok(None) => String::new(),
        Err(err) => panic!("the command failed: {:?}", err),
    }
}

fn text(s: &str) -> String {
    s.to_string()
}

fn broken() -> SlateResult<Reply> {
    Err(SlateError::IO(io::Error::new(io::ErrorKind::Other, "broken disk")))
}

fn is_the_store_failure(result: CommandResult) -> bool {
    match result {
        Err(CommandError::Slate(SlateError::IO(err))) => err.to_string() == "broken disk",
        _ => false,
    }
}

#[test]
fn set_shows_nothing() {
    let mut file = None;
    let result = execute(Command::Put { key: text("foo"), value: text("bar") }, &mut file);

    assert!(matches!(result, Ok(None)));
    assert_eq!(Some(text("{\"foo\":\"bar\"}")), file);
}

#[test]
fn get_shows_the_value_on_a_line() {
    let mut file = Some(text("{\"foo\":\"bar\"}"));

    let result = execute(Command::Get { key: text("foo"), no_eol: false }, &mut file);
    assert_eq!(Some(Message::Info(text("bar"))), result.map_err(|_| ()).unwrap());
    assert_eq!("bar\n", shown(execute(Command::Get { key: text("foo"), no_eol: false }, &mut file)));
}

#[test]
fn get_without_line_end_shows_the_value_as_stored() {
    let mut file = Some(text("{\"foo\":\"bar \\n\"}"));

    let result = execute(Command::Get { key: text("foo"), no_eol: true }, &mut file);
    assert_eq!(Some(Message::Raw(text("bar \n"))), result.map_err(|_| ()).unwrap());
    assert_eq!("bar \n", shown(execute(Command::Get { key: text("foo"), no_eol: true }, &mut file)));
    assert_eq!("bar\n", shown(execute(Command::Get { key: text("foo"), no_eol: false }, &mut file)));
}

#[test]
fn get_of_an_absent_key_shows_an_empty_value() {
    let mut file = Some(text("{}"));

    assert_eq!("\n", shown(execute(Command::Get { key: text("foo"), no_eol: false }, &mut file)));
    assert_eq!("", shown(execute(Command::Get { key: text("foo"), no_eol: true }, &mut file)));
}

#[test]
fn list_shows_one_key_on_each_line() {
    let mut file = Some(text("{\"more\":\"2\",\"foo\":\"1\"}"));

    let result = execute(Command::List, &mut file);
    assert_eq!(Some(Message::Info(text("foo\nmore"))), result.map_err(|_| ()).unwrap());
    assert_eq!("foo\nmore\n", shown(execute(Command::List, &mut file)));
}

#[test]
fn list_of_nothing_shows_an_empty_line() {
    let mut file = None;

    assert_eq!("\n", shown(execute(Command::List, &mut file)));
}

#[test]
fn remove_of_a_key_confirms() {
    let mut file = Some(text("{\"foo\":\"1\",\"more\":\"2\"}"));

    let result = execute(Command::Remove { key: Some(text("foo")), all: false }, &mut file);
    assert_eq!("The key has been removed\n", shown(result));
    assert_eq!(Some(text("{\"more\":\"2\"}")), file);
}

#[test]
fn remove_of_all_keys_confirms() {
    let mut file = Some(text("{\"foo\":\"1\",\"more\":\"2\"}"));

    let result = execute(Command::Remove { key: None, all: true }, &mut file);
    assert_eq!("All keys have been removed\n", shown(result));
    assert_eq!(Some(text("{}")), file);
}

#[test]
fn remove_of_all_keys_ignores_a_key() {
    let mut file = Some(text("{\"foo\":\"1\",\"more\":\"2\"}"));

    let result = execute(Command::Remove { key: Some(text("foo")), all: true }, &mut file);
    assert_eq!("All keys have been removed\n", shown(result));
    assert_eq!(Some(text("{}")), file);
}

#[test]
fn remove_without_a_key_is_an_argument_error() {
    let mut file = Some(text("{\"foo\":\"1\"}"));

    match execute(Command::Remove { key: None, all: false }, &mut file) {
        Err(CommandError::Argument(message)) => assert_eq!("You must provide the name of a key", message),
        other => panic!("unexpected result: {:?}", other),
    }
    assert_eq!(Some(text("{\"foo\":\"1\"}")), file);
    assert_eq!("You must provide the name of a key", remove::NO_KEY);
}

#[test]
fn rename_confirms() {
    let mut file = Some(text("{\"foo\":\"1\"}"));

    let result = execute(Command::Rename { old: text("foo"), new: text("bar") }, &mut file);
    assert_eq!("The key has been renamed\n", shown(result));
    assert_eq!(Some(text("{\"bar\":\"1\"}")), file);
}

#[test]
fn snippet_fills_the_placeholders_in() {
    let mut file = Some(text("{\"dummy\":\"ssh -x :user:@:host:\"}"));
    let command = Command::Snippet {
        key: text("dummy"),
        placeholders: vec![text("user"), text("host")],
        values: vec![text("me"), text("localhost")],
    };

    let result = execute(command.clone(), &mut file);
    assert_eq!(Some(Message::Raw(text("ssh -x me@localhost"))), result.map_err(|_| ()).unwrap());
    assert_eq!("ssh -x me@localhost", shown(execute(command, &mut file)));
}

#[test]
fn snippet_applies_the_pairs_one_after_the_other() {
    let stored = Ok(Reply::Value(text(":a: :b: :a:  \n")));
    let result = snippet::run(&vec![text("a"), text("b")], &vec![text(":b:"), text("x")], stored);

    assert_eq!("x x x", shown(result));
}

#[test]
fn snippet_takes_placeholders_literally() {
    let stored = Ok(Reply::Value(text(":a.c: :abc: :$1:")));
    let result = snippet::run(&vec![text("a.c"), text("$1")], &vec![text("$0"), text("\\d")], stored);

    assert_eq!("$0 :abc: \\d", shown(result));
}

#[test]
fn snippet_of_an_absent_key_is_empty() {
    let mut file = Some(text("{}"));
    let command = Command::Snippet { key: text("none"), placeholders: vec![text("a")], values: vec![text("b")] };

    assert_eq!(Some(Message::Raw(String::new())), execute(command, &mut file).map_err(|_| ()).unwrap());
}

#[test]
fn snippet_leaves_a_placeholder_without_a_value_alone() {
    let stored = || Ok(Reply::Value(text(":a: :b:")));

    assert_eq!("1 :b:", shown(snippet::run(&vec![text("a"), text("b")], &vec![text("1")], stored())));
    assert_eq!("1 :b:", shown(snippet::run(&vec![text("a")], &vec![text("1"), text("2")], stored())));
    assert_eq!(":a: :b:", shown(snippet::run(&vec![], &vec![], stored())));
}

#[test]
fn exec_splits_the_stored_command_at_spaces() {
    let call = exec::run(Ok(Reply::Value(text("echo hello  world \n")))).map_err(|_| ()).unwrap();

    assert_eq!(Invocation { program: text("echo"), args: vec![text("hello"), text(""), text("world")] }, call);
}

#[test]
fn exec_of_a_single_word_has_no_arguments() {
    let call = exec::run(Ok(Reply::Value(text("ls")))).map_err(|_| ()).unwrap();

    assert_eq!(Invocation { program: text("ls"), args: vec![] }, call);
}

#[test]
fn exec_of_an_absent_key_has_no_program_to_start() {
    let mut file = Some(text("{}"));
    let config = Config { filepath: text("/tmp/slate.test") };
    let slate = Slate { config: &config };
    let call = exec::run(drive(slate.get(&text("none")), &mut file)).map_err(|_| ()).unwrap();

    assert_eq!(Invocation { program: String::new(), args: vec![] }, call);
}

#[test]
fn exec_ends_with_nothing_to_show_or_with_the_failure() {
    assert!(matches!(exec::finish(Ok(())), Ok(None)));
    match exec::finish(Err(io::Error::new(io::ErrorKind::NotFound, "no such program"))) {
        Err(CommandError::IO(err)) => assert_eq!(io::ErrorKind::NotFound, err.kind()),
        other => panic!("unexpected result: {:?}", other),
    }
}

#[test]
fn a_failure_of_the_store_is_handed_on_as_it_is() {
    assert!(is_the_store_failure(slate::command::set::run(broken())));
    assert!(is_the_store_failure(get::run(false, broken())));
    assert!(is_the_store_failure(get::run(true, broken())));
    assert!(is_the_store_failure(list::run(broken())));
    assert!(is_the_store_failure(remove::run(false, broken())));
    assert!(is_the_store_failure(remove::run(true, broken())));
    assert!(is_the_store_failure(rename::run(broken())));
    assert!(is_the_store_failure(snippet::run(&vec![], &vec![], broken())));
    assert!(is_the_store_failure(cli::run(&Command::List, broken())));
    match exec::run(broken()) {
        Err(CommandError::Slate(SlateError::IO(err))) => assert_eq!("broken disk", err.to_string()),
        other => panic!("unexpected result: {:?}", other),
    }
}

#[test]
fn a_reply_of_another_kind_counts_as_empty() {
    assert_eq!("\n", shown(get::run(false, Ok(Reply::Done))));
    assert_eq!("", shown(get::run(true, Ok(Reply::Keys(vec![text("a")])))));
    assert_eq!("\n", shown(list::run(Ok(Reply::Value(text("a"))))));
    assert_eq!("", Reply::Done.into_value());
    assert_eq!(Vec::<String>::new(), Reply::Value(text("a")).into_keys());
    assert_eq!("v", Reply::Value(text("v")).into_value());
    assert_eq!(vec!["k"], Reply::Keys(vec![text("k")]).into_keys());
}
