use yarn_slinger_runtime::dialogue::{
    Dialogue, DialogueError, DialogueEvent, ExecutionState, Instruction, Node,
};
use yarn_slinger_runtime::dialogue_runner::{DialogueRunner, RunnerError};
use yarn_slinger_runtime::localization::{FileGenerationMode, Localization, Localizations};
use yarn_slinger_runtime::variable_storage::{MemoryVariableStorage, VariableError};
use yarn_slinger_runtime::yarn_fn::YarnValue;

fn line(id: &str) -> Instruction {
    Instruction::RunLine { line_id: id.to_string() }
}

fn node(name: &str, instructions: Vec<Instruction>) -> Node {
    Node { name: name.to_string(), tags: vec!["tag".to_string()], instructions }
}

fn describe(events: &[DialogueEvent]) -> Vec<String> {
    events
        .iter()
        .map(|e| match e {
            DialogueEvent::DialogueStart => "DialogueStart".to_string(),
            DialogueEvent::NodeStart { node } => format!("NodeStart {node}"),
            DialogueEvent::PresentLine { line_id } => format!("Line {line_id}"),
            DialogueEvent::PresentOptions => "Options".to_string(),
            DialogueEvent::ExecuteCommand { command } => format!("Command {command}"),
            DialogueEvent::NodeComplete { node } => format!("NodeComplete {node}"),
            DialogueEvent::DialogueComplete => "DialogueComplete".to_string(),
        })
        .collect()
}

fn branching() -> Vec<Node> {
    vec![node(
        "Start",
        vec![
            Instruction::AddOption { line_id: "line:optA".to_string(), destination: 3 },
            Instruction::AddOption { line_id: "line:optB".to_string(), destination: 5 },
            Instruction::ShowOptions,
            line("line:A"),
            Instruction::Stop,
            line("line:B"),
            Instruction::Stop,
        ],
    )]
}

fn runner(nodes: Vec<Node>) -> DialogueRunner {
    let loc = Localizations {
        base_language: Localization::from_language("en-US"),
        translations: vec![Localization::from_language("de-CH")],
        file_generation_mode: FileGenerationMode::Development,
    };
    DialogueRunner::new(Dialogue::new(nodes), Some(loc), 2)
}

#[test]
fn option_branching_follows_selected_destination() {
    let mut r = runner(branching());
    let start = r.start().unwrap();
    assert_eq!(describe(&start), vec!["DialogueStart", "NodeStart Start"]);
    let e = r.update(&vec![], 100);
    assert_eq!(describe(&e), vec!["Options"]);
    assert_eq!(r.dialogue.execution, ExecutionState::WaitingOnOptionSelection);
    assert_eq!(r.dialogue.options.len(), 2);
    r.select_option(1).unwrap();
    assert_eq!(r.dialogue.pc, 5);
    let e = r.update(&vec![], 100);
    assert_eq!(describe(&e), vec!["Line line:B"]);
    r.continue_in_next_update();
    let e = r.update(&vec![], 100);
    assert_eq!(describe(&e), vec!["NodeComplete Start", "DialogueComplete"]);
    assert!(!r.is_running());
}

#[test]
fn command_waits_for_its_task() {
    let nodes = vec![node(
        "Start",
        vec![Instruction::RunCommand { command: "wait".to_string() }, line("line:after")],
    )];
    let mut r = runner(nodes);
    r.start().unwrap();
    let e = r.update(&vec![], 100);
    assert_eq!(describe(&e), vec!["Command wait"]);
    r.add_command_task(7);
    r.continue_in_next_update();
    for _ in 0..3 {
        let e = r.update(&vec![false], 100);
        assert!(e.is_empty());
        assert_eq!(r.dialogue.execution, ExecutionState::WaitingOnCommand);
    }
    let e = r.update(&vec![true], 100);
    assert_eq!(describe(&e), vec!["Line line:after"]);
}

#[test]
fn run_node_completes_one_node_and_starts_the_next() {
    let nodes = vec![
        node("Start", vec![Instruction::RunNode { node_name: "Next".to_string() }]),
        node("Next", vec![line("line:n")]),
    ];
    let mut r = runner(nodes);
    r.start().unwrap();
    let e = r.update(&vec![], 100);
    assert_eq!(describe(&e), vec!["NodeComplete Start", "NodeStart Next", "Line line:n"]);
    assert_eq!(r.current_node(), Some("Next".to_string()));
    r.continue_in_next_update();
    let e = r.update(&vec![], 100);
    assert_eq!(describe(&e), vec!["NodeComplete Next", "DialogueComplete"]);
}

#[test]
fn state_errors_leave_the_runner_unchanged() {
    let mut r = runner(branching());
    assert_eq!(r.try_continue_in_next_update(), Err(RunnerError::NotRunning));
    assert_eq!(r.select_option(0), Err(RunnerError::NotRunning));
    assert_eq!(
        r.start_at_node(&"Nowhere".to_string()).unwrap_err(),
        RunnerError::Dialogue(DialogueError::UnknownNode)
    );
    assert!(!r.is_running());
    r.start().unwrap();
    assert_eq!(r.start().unwrap_err(), RunnerError::AlreadyRunning);
    assert_eq!(r.select_option(0), Err(RunnerError::Dialogue(DialogueError::WrongState)));
    r.update(&vec![], 100);
    assert_eq!(r.select_option(5), Err(RunnerError::Dialogue(DialogueError::UnknownOption)));
    let e = r.stop();
    assert_eq!(describe(&e), vec!["NodeComplete Start", "DialogueComplete"]);
    assert!(!r.is_running());
    assert!(r.stop().is_empty());
}

#[test]
fn languages_are_checked_and_routed() {
    let mut r = runner(branching());
    assert_eq!(r.set_language(&"fr-FR".to_string()), Err(RunnerError::UnsupportedLanguage));
    assert_eq!(r.text_language(), None);
    r.set_language(&"de-CH".to_string()).unwrap();
    assert_eq!(r.text_language(), Some("de-CH".to_string()));
    assert_eq!(r.asset_language(), Some("de-CH".to_string()));
    let mut bare = DialogueRunner::new(Dialogue::new(vec![]), None, 1);
    assert_eq!(bare.set_text_language(&"en-US".to_string()), Err(RunnerError::NoLocalizations));
}

#[test]
fn queries_and_availability() {
    let r = runner(branching());
    assert!(r.node_exists(&"Start".to_string()));
    assert!(!r.node_exists(&"Other".to_string()));
    assert_eq!(r.get_tags_for_node(&"Start".to_string()), Some(vec!["tag".to_string()]));
    assert_eq!(r.get_tags_for_node(&"Other".to_string()), None);
    assert!(r.are_lines_available(true, &vec![true, true]));
    assert!(!r.are_lines_available(true, &vec![true, false]));
    assert!(!r.are_lines_available(false, &vec![]));
    assert_eq!(
        r.inner().line_hints(&"Start".to_string()),
        Some(vec![
            "line:optA".to_string(),
            "line:optB".to_string(),
            "line:A".to_string(),
            "line:B".to_string()
        ])
    );
}

#[test]
fn finished_tasks_are_dropped() {
    let mut r = runner(branching());
    r.add_command_task(1);
    r.add_command_task(2);
    r.add_command_task(3);
    assert!(!r.poll_tasks_and_check_if_done(&vec![true, false, true]));
    assert_eq!(r.command_tasks, vec![2]);
    assert!(r.poll_tasks_and_check_if_done(&vec![true]));
}

#[test]
fn clear_unloads_program() {
    let mut r = runner(branching());
    r.start().unwrap();
    r.clear();
    assert!(!r.is_running());
    assert!(!r.node_exists(&"Start".to_string()));
}

#[test]
fn variables_read_back_what_was_set() {
    let mut r = runner(branching());
    let name = "$gold".to_string();
    assert_eq!(r.variable_storage().get(&name), None);
    r.variable_storage_mut().set(&name, YarnValue::Number(5)).unwrap();
    r.variable_storage_mut().set(&"$name".to_string(), YarnValue::String("Bob".to_string())).unwrap();
    r.variable_storage_mut().set(&name, YarnValue::Number(7)).unwrap();
    assert_eq!(r.variable_storage().get(&name), Some(YarnValue::Number(7)));
    assert_eq!(
        r.variable_storage().get(&"$name".to_string()),
        Some(YarnValue::String("Bob".to_string()))
    );
    let mut locked = MemoryVariableStorage::new(true);
    assert_eq!(locked.set(&name, YarnValue::Boolean(true)), Err(VariableError::ReadOnly));
    assert_eq!(locked.get(&name), None);
}

#[test]
fn inner_mut_changes_the_machine() {
    let mut r = runner(branching());
    r.inner_mut().language_code = Some("de-CH".to_string());
    assert_eq!(r.text_language(), Some("de-CH".to_string()));
}

#[test]
fn stop_drops_selection_and_tasks() {
    let mut r = runner(branching());
    r.start().unwrap();
    r.update(&vec![], 100);
    r.select_option(0).unwrap();
    assert_eq!(r.last_selected_option, Some(0));
    r.add_command_task(4);
    r.stop();
    assert_eq!(r.last_selected_option, None);
    assert!(r.command_tasks.is_empty());
    assert!(r.dialogue.options.is_empty());
    assert!(!r.will_continue_in_next_update);
}

#[test]
fn refused_selection_records_nothing() {
    let mut r = runner(branching());
    r.start().unwrap();
    r.update(&vec![], 100);
    assert_eq!(r.select_option(9), Err(RunnerError::Dialogue(DialogueError::UnknownOption)));
    assert_eq!(r.last_selected_option, None);
    assert_eq!(r.dialogue.execution, ExecutionState::WaitingOnOptionSelection);
}

#[test]
fn start_needs_a_stopped_machine() {
    let mut r = runner(branching());
    r.inner_mut().current = Some(0);
    r.inner_mut().execution = ExecutionState::WaitingForContinue;
    assert_eq!(
        r.start_at_node(&"Start".to_string()).unwrap_err(),
        RunnerError::Dialogue(DialogueError::WrongState)
    );
    assert!(!r.is_running());
}

#[test]
fn start_at_node_sets_current_node() {
    let nodes = vec![node("Start", vec![line("line:s")]), node("Other", vec![line("line:o")])];
    let mut r = runner(nodes);
    let e = r.start_at_node(&"Other".to_string()).unwrap();
    assert_eq!(describe(&e), vec!["DialogueStart", "NodeStart Other"]);
    assert_eq!(r.current_node(), Some("Other".to_string()));
    assert_eq!(r.dialogue.pc, 0);
    let mut missing = runner(vec![node("Other", vec![])]);
    assert_eq!(
        missing.start().unwrap_err(),
        RunnerError::Dialogue(DialogueError::UnknownNode)
    );
}
