use hx_lsp::action::{
    command_outcome, filter_passes, get_shell, lang_file_name, plan_command, Action, ActionData,
    Actions, CommandEvent, StdinPlan, COMMAND_TIMEOUT_SECS,
};
use hx_lsp::encoding::{Position, Range};
use hx_lsp::errors::Error;
use hx_lsp::keyed::Keyed;
use hx_lsp::parser::StrOrSeq;
use hx_lsp::variables::VariableInit;

fn exited(success: bool, code: Option<i32>, stdout: &[u8], stderr: &[u8]) -> CommandEvent {
    CommandEvent::Exited { success, code, stdout: stdout.to_vec(), stderr: stderr.to_vec() }
}

fn action(title: &str, filter: &str, shell: &str) -> Action {
    Action::new(
        title.to_string(),
        StrOrSeq::String(filter.to_string()),
        StrOrSeq::String(shell.to_string()),
        None,
    )
}

fn actions(name: &str, entries: &[(&str, Action)]) -> Actions {
    let mut keyed = Keyed::new();
    for (key, value) in entries {
        keyed.insert(key.to_string(), value.clone());
    }
    Actions::new(name.to_string(), keyed)
}

#[test]
fn shell_of_each_platform() {
    assert_eq!(get_shell(false), vec!["sh".to_string(), "-c".to_string()]);
    assert_eq!(get_shell(true), vec!["cmd".to_string(), "/C".to_string()]);
}

#[test]
fn plan_without_input_reads_from_null() {
    let plan = plan_command("echo -n hello", &None, false);
    assert_eq!(plan.program, "sh");
    assert_eq!(plan.args, vec!["-c".to_string(), "echo -n hello".to_string()]);
    assert_eq!(plan.stdin, StdinPlan::Null);
    assert_eq!(plan.timeout_secs, 5);
    assert_eq!(COMMAND_TIMEOUT_SECS, 5);
}

#[test]
fn plan_with_input_pipes_it() {
    let plan = plan_command("cat", &Some("text".to_string()), false);
    assert_eq!(plan.stdin, StdinPlan::Piped("text".to_string()));
    let plan = plan_command("echo hello", &None, true);
    assert_eq!(plan.program, "cmd");
    assert_eq!(plan.args, vec!["/C".to_string(), "echo hello".to_string()]);
    assert_eq!(plan.stdin, StdinPlan::PipedEmpty);
    let plan = plan_command("more", &Some("x".to_string()), true);
    assert_eq!(plan.stdin, StdinPlan::Piped("x".to_string()));
}

#[test]
fn outcome_of_successful_run_is_trimmed_stdout() {
    assert_eq!(command_outcome(exited(true, Some(0), b"hello", b"")), Ok("hello".to_string()));
    assert_eq!(
        command_outcome(exited(true, Some(0), b"  two words \n\t\n", b"ignored")),
        Ok("  two words".to_string())
    );
    assert_eq!(command_outcome(exited(true, Some(0), b"", b"")), Ok(String::new()));
}

#[test]
fn outcome_recovers_invalid_utf8() {
    assert_eq!(
        command_outcome(exited(true, Some(0), b"ab\xffcd\n", b"")),
        Ok("ab\u{fffd}cd".to_string())
    );
}

#[test]
fn outcome_of_timeout() {
    assert_eq!(
        command_outcome(CommandEvent::TimedOut { elapsed_secs: 1 }),
        Err(Error::CommandTimeout(1))
    );
}

#[test]
fn outcome_of_failed_run_carries_status_and_stderr() {
    assert_eq!(
        command_outcome(exited(false, Some(2), b"out", b"no such file\n")),
        Err(Error::CommandNonZeroExit(Some(2), "no such file".to_string()))
    );
    assert_eq!(
        command_outcome(exited(false, None, b"", b"")),
        Err(Error::CommandNonZeroExit(None, String::new()))
    );
}

#[test]
fn outcome_of_a_run_that_never_started() {
    assert_eq!(command_outcome(CommandEvent::SpawnFailed), Err(Error::CommandSpawnFailure));
    assert_eq!(command_outcome(CommandEvent::StdinFailed), Err(Error::CommandSpawnFailure));
    assert_eq!(command_outcome(CommandEvent::WaitFailed), Err(Error::CommandSpawnFailure));
}

#[test]
fn filter_output_decides() {
    assert!(filter_passes(&Ok("true".to_string())));
    assert!(filter_passes(&Ok("TRUE".to_string())));
    assert!(filter_passes(&Ok("True".to_string())));
    assert!(filter_passes(&Ok("1".to_string())));
    assert!(!filter_passes(&Ok("0".to_string())));
    assert!(!filter_passes(&Ok("".to_string())));
    assert!(!filter_passes(&Ok("true ".to_string())));
    assert!(!filter_passes(&Err(Error::CommandTimeout(5))));
}

#[test]
fn file_name_of_language() {
    assert_eq!(lang_file_name("Markdown"), "markdown.json");
    assert_eq!(lang_file_name("rust"), "rust.json");
}

#[test]
fn action_data_with_command() {
    let range = Range::new(Position::new(0, 1), Position::new(0, 4));
    let data = ActionData::new("file:///a.rs".to_string(), range);
    assert_eq!(data.command, None);
    let with = data.with_command("echo".to_string());
    assert_eq!(with.text_document, "file:///a.rs");
    assert_eq!(with.range, range);
    assert_eq!(with.command, Some("echo".to_string()));
    assert_eq!(with.clone(), with);
}

#[test]
fn action_filter_script_and_item() {
    let init = VariableInit { selected_text: "sel".to_string(), ..Default::default() };
    let plain = action("Plain", "", "echo $TM_SELECTED_TEXT");
    assert_eq!(plain.filter_script(&init), None);
    assert_eq!(plain.description(), "");
    let guarded = action("Guarded", "test -n '${TM_SELECTED_TEXT}'", "wc");
    assert_eq!(guarded.filter_script(&init), Some("test -n 'sel'".to_string()));

    let range = Range::new(Position::new(0, 1), Position::new(0, 4));
    let data = ActionData::new("file:///a.rs".to_string(), range);
    let item = plain.to_code_action_item(&init, &data).unwrap();
    assert_eq!(item.title, "Plain");
    assert_eq!(item.data, data.with_command("echo sel".to_string()));
    let item = plain.code_action_item("given".to_string(), &data);
    assert_eq!(item.data.command, Some("given".to_string()));
}

#[test]
fn actions_extend_prefers_the_other() {
    let mut base = actions("rust", &[("a", action("A", "", "1")), ("b", action("B", "", "2"))]);
    let other = actions("other", &[("b", action("B2", "", "3")), ("c", action("C", "", "4"))]);
    base.extend(other);
    assert_eq!(base.name(), "rust");
    assert_eq!(base.len(), 3);
    assert_eq!(base.get("a").unwrap().title(), "A");
    assert_eq!(base.get("b").unwrap().title(), "B2");
    assert_eq!(base.get("c").unwrap().title(), "C");
    assert!(base.get("d").is_none());
}

#[test]
fn actions_from_files_lets_the_earlier_file_decide() {
    let project = actions("p", &[("a", action("project a", "", "1"))]);
    let user = actions("u", &[("a", action("user a", "", "2")), ("b", action("user b", "", "3"))]);
    let merged = Actions::from_files("rust".to_string(), vec![Some(project), None, Some(user)]);
    assert_eq!(merged.name(), "rust");
    assert_eq!(merged.len(), 2);
    assert_eq!(merged.get("a").unwrap().title(), "project a");
    assert_eq!(merged.get("b").unwrap().title(), "user b");
    let none = Actions::from_files("rust".to_string(), vec![None]);
    assert_eq!(none.len(), 0);
    let default = Actions::default();
    assert_eq!(default.name(), "default");
    assert_eq!(default.len(), 0);
}

#[test]
fn actions_filter_keeps_the_flagged() {
    let mut set = actions(
        "rust",
        &[("a", action("A", "", "1")), ("b", action("B", "", "2")), ("c", action("C", "", "3"))],
    );
    assert_eq!(set.action(1).title(), "B");
    set.filter(&vec![true, false, true]);
    assert_eq!(set.len(), 2);
    assert!(set.get("a").is_some());
    assert!(set.get("b").is_none());
    assert_eq!(set.get("c").unwrap().title(), "C");
    set.filter(&vec![false]);
    assert_eq!(set.len(), 0);
}

#[test]
fn actions_to_code_action_items() {
    let set = actions("rust", &[("a", action("A", "", "echo a")), ("b", action("B", "", "echo b"))]);
    let range = Range::new(Position::new(2, 0), Position::new(2, 3));
    let data = ActionData::new("file:///a.rs".to_string(), range);
    let items = set.to_code_action_items(&VariableInit::default(), &data);
    assert_eq!(items.len(), 2);
    assert_eq!(items[0].title, "A");
    assert_eq!(items[0].data.command, Some("echo a".to_string()));
    assert_eq!(items[1].title, "B");
    assert_eq!(items[1].data.range, range);
}

#[test]
fn warning_for_recovered_output() {
    let bad = exited(true, Some(0), b"ab\xffcd", b"");
    assert_eq!(hx_lsp::action::output_warning(&bad), Some(Error::Utf8DecodeRecovered));
    let good = exited(true, Some(0), "你好".as_bytes(), b"\xff");
    assert_eq!(hx_lsp::action::output_warning(&good), None);
    let failed = exited(false, Some(1), b"\xff", b"");
    assert_eq!(hx_lsp::action::output_warning(&failed), None);
    assert_eq!(hx_lsp::action::output_warning(&CommandEvent::SpawnFailed), None);
}

#[test]
fn test_basic_command() {
    let (cmd, input, expected) = ("echo -n hello", &Some(String::from("text")), "hello");
    let plan = plan_command(cmd, input, false);
    assert_eq!(plan.program, "sh");
    assert_eq!(plan.args, vec!["-c".to_string(), cmd.to_string()]);
    assert_eq!(plan.stdin, StdinPlan::Piped("text".to_string()));
    let output = command_outcome(exited(true, Some(0), b"hello", b"")).unwrap();
    assert_eq!(output.trim_end(), expected.trim_end());
}

#[test]
fn action_parts() {
    let guarded = action("Guarded", "test -n x", "wc -l");
    assert_eq!(guarded.title(), "Guarded");
    assert_eq!(guarded.filter().to_string(), "test -n x");
    assert_eq!(guarded.shell().to_string(), "wc -l");
}
