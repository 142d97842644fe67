use std::cell::RefCell;
use std::rc::Rc;
use yarn_runner::events::{DialogueEvent, YarnCommand, YarnDialogueOption, YarnLine};
use yarn_runner::runner::{
    CommandHandler, DialogueEventSink, DialogueRunner, EngineError, YarnDialogueResult,
    yarn_dialogue_error_to_yarn_dialogue_result,
};
use yarn_runner::values::ScriptValue;

fn s(text: &str) -> String {
    String::from(text)
}

/// Records every notification it hears, in order.
struct RecordingSink {
    log: RefCell<Vec<String>>,
}

impl RecordingSink {
    fn new() -> RecordingSink {
        RecordingSink { log: RefCell::new(Vec::new()) }
    }

    fn count(&self, prefix: &str) -> usize {
        self.log.borrow().iter().filter(|e| e.starts_with(prefix)).count()
    }
}

impl DialogueEventSink for RecordingSink {
    fn on_dialogue_start(&self) {
        self.log.borrow_mut().push(s("dialogue_start"));
    }
    fn on_dialogue_complete(&self) {
        self.log.borrow_mut().push(s("dialogue_complete"));
    }
    fn on_line(&self, line: &YarnLine) {
        self.log.borrow_mut().push(format!("line:{}", line.text));
    }
    fn on_options(&self, options: &Vec<YarnDialogueOption>) {
        self.log.borrow_mut().push(format!("options:{}", options.len()));
    }
    fn on_node_start(&self, node_name: &String) {
        self.log.borrow_mut().push(format!("node_start:{node_name}"));
    }
    fn on_node_complete(&self, node_name: &String) {
        self.log.borrow_mut().push(format!("node_complete:{node_name}"));
    }
    fn on_line_hints(&self, line_ids: &Vec<String>) {
        self.log.borrow_mut().push(format!("line_hints:{}", line_ids.len()));
    }
    fn on_unknown_command(&self, command_name: &String) {
        self.log.borrow_mut().push(format!("unknown_command:{command_name}"));
    }
}

/// Records the parameters of each invocation into a shared log.
struct RecordingHandler {
    calls: Rc<RefCell<Vec<Vec<ScriptValue>>>>,
}

impl CommandHandler for RecordingHandler {
    fn on_command(&self, parameters: &Vec<ScriptValue>) {
        self.calls.borrow_mut().push(parameters.clone());
    }
}

fn line(id: &str, text: &str) -> YarnLine {
    YarnLine { id: s(id), text: s(text), character_name: None, attributes: Vec::new() }
}

fn option(id: usize, text: &str, destination: &str, available: bool) -> YarnDialogueOption {
    YarnDialogueOption {
        id,
        line: line("opt", text),
        destination_node: s(destination),
        is_available: available,
    }
}

fn program_with_node(name: &str) -> String {
    format!(
        "{{\"name\":\"test\",\"nodes\":{{\"{name}\":{{\"name\":\"{name}\",\"tags\":[\"one\",\"two\"],\"instructions\":[]}}}},\"initial_values\":{{}}}}"
    )
}

/// A runner with one loaded program and an attached interpreter, ready to
/// start at the given node.
fn ready_runner(node: &str) -> DialogueRunner {
    let mut runner = DialogueRunner::new();
    let report = runner.build(&vec![program_with_node(node)]);
    assert_eq!(report.accepted, vec![0]);
    assert!(report.errors.is_empty());
    runner.set_runner_attached(true);
    runner
}

#[test]
fn build_skips_bad_programs_and_loads_the_rest() {
    let mut runner = DialogueRunner::new();
    let programs = vec![
        program_with_node("Start"),
        s("this is not json"),
        program_with_node("Other"),
        program_with_node("Start"),
    ];
    let report = runner.build(&programs);
    assert_eq!(report.accepted, vec![0, 2]);
    assert_eq!(report.errors.len(), 2);
    assert_eq!(report.errors[0].0, 1);
    assert_eq!(report.errors[1].0, 3);
    assert_eq!(report.errors[1].1, "a node with the same name is already loaded");
    runner.set_runner_attached(true);
    assert!(runner.node_exists(&s("Start")));
    assert!(runner.node_exists(&s("Other")));
    assert!(!runner.node_exists(&s("Missing")));
}

#[test]
fn get_tags_for_node_reports_tags_or_empty() {
    let mut runner = ready_runner("Start");
    assert_eq!(runner.get_tags_for_node(&s("Start")), vec![s("one"), s("two")]);
    assert!(runner.get_tags_for_node(&s("Missing")).is_empty());
    // Without an attached interpreter the node is not visible, as with
    // node_exists.
    runner.set_runner_attached(false);
    assert!(runner.get_tags_for_node(&s("Start")).is_empty());
}

#[test]
fn node_exists_is_false_without_an_attached_interpreter() {
    let mut runner = DialogueRunner::new();
    runner.build(&vec![program_with_node("Start")]);
    assert!(!runner.node_exists(&s("Start")));
}

#[test]
fn start_requires_an_attached_interpreter() {
    let mut runner = DialogueRunner::new();
    runner.build(&vec![program_with_node("Start")]);
    let sink = RecordingSink::new();
    assert_eq!(
        runner.start_dialogue(&s("Start"), &sink),
        YarnDialogueResult::RunnerNotConfigured
    );
}

#[test]
fn start_refuses_an_unknown_node() {
    let mut runner = ready_runner("Start");
    let sink = RecordingSink::new();
    assert_eq!(runner.start_dialogue(&s("Missing"), &sink), YarnDialogueResult::InvalidNode);
    assert!(!runner.is_dialogue_running());
}

#[test]
fn start_while_running_yields_already_running_and_leaves_state_untouched() {
    let mut runner = ready_runner("Start");
    let sink = RecordingSink::new();
    assert_eq!(runner.start_dialogue(&s("Start"), &sink), YarnDialogueResult::Okay);
    let r = runner.apply_pump(
        Ok(vec![
            DialogueEvent::Line(line("l1", "Hello")),
            DialogueEvent::Options(vec![option(0, "A", "NodeA", true)]),
        ]),
        &sink,
    );
    assert_eq!(r, YarnDialogueResult::Okay);

    let second = runner.start_dialogue(&s("Start"), &sink);
    assert_eq!(second, YarnDialogueResult::DialogueAlreadyRunning);
    // The current line and options of the interrupted session are untouched.
    assert_eq!(runner.get_current_line().as_ref().map(|l| l.text.clone()), Some(s("Hello")));
    assert_eq!(runner.get_current_options().len(), 1);
    assert!(runner.is_dialogue_running());
}

#[test]
fn single_line_session_runs_to_completion() {
    let mut runner = ready_runner("Start");
    let sink = RecordingSink::new();
    assert_eq!(runner.start_dialogue(&s("Start"), &sink), YarnDialogueResult::Okay);
    assert!(runner.is_dialogue_running());

    // One pump: the node starts and emits its one line, then pauses.
    let r = runner.apply_pump(
        Ok(vec![
            DialogueEvent::NodeStart(s("Start")),
            DialogueEvent::Line(line("l1", "Only line")),
        ]),
        &sink,
    );
    assert_eq!(r, YarnDialogueResult::Okay);
    assert_eq!(runner.get_current_line().as_ref().map(|l| l.text.clone()), Some(s("Only line")));

    // The host continues; the node completes and the dialogue ends.
    assert!(runner.continue_dialogue().is_ok());
    assert!(runner.get_current_line().is_none());
    let r = runner.apply_pump(
        Ok(vec![
            DialogueEvent::NodeComplete(s("Start")),
            DialogueEvent::DialogueComplete,
        ]),
        &sink,
    );
    assert_eq!(r, YarnDialogueResult::DialogueComplete);
    assert!(!runner.is_dialogue_running());
    assert_eq!(sink.count("line:"), 1);
    assert_eq!(sink.count("dialogue_complete"), 1);
    assert_eq!(sink.count("dialogue_start"), 1);
}

#[test]
fn selection_while_not_awaiting_is_an_error_result() {
    let mut runner = ready_runner("Start");
    let stale = option(0, "A", "NodeA", true);
    assert_eq!(
        runner.select_option(&stale),
        YarnDialogueResult::UnexpectedOptionSelectionError
    );
}

#[test]
fn selection_of_a_valid_option_lets_the_session_continue() {
    let mut runner = ready_runner("Start");
    let sink = RecordingSink::new();
    assert_eq!(runner.start_dialogue(&s("Start"), &sink), YarnDialogueResult::Okay);

    // The node raises two options: id 0 unavailable, id 1 available.
    let r = runner.apply_pump(
        Ok(vec![
            DialogueEvent::NodeStart(s("Start")),
            DialogueEvent::Options(vec![
                option(0, "No", "NodeA", false),
                option(1, "Yes", "NodeB", true),
            ]),
        ]),
        &sink,
    );
    assert_eq!(r, YarnDialogueResult::Okay);
    assert!(runner.is_waiting_for_option_selection());

    // Continuing before selecting is the interpreter's error, surfaced as a
    // typed result.
    assert!(runner.continue_dialogue().is_ok());
    let refused = runner.apply_pump(Err(EngineError::ContinueOnOptionSelectionError), &sink);
    assert_eq!(refused, YarnDialogueResult::ContinueOnOptionSelectionError);
    assert!(runner.is_waiting_for_option_selection());

    // Selecting option 1 succeeds although option 0 is unavailable:
    // availability is informational, not enforced.
    let chosen = option(1, "Yes", "NodeB", true);
    assert_eq!(runner.select_option(&chosen), YarnDialogueResult::Okay);
    assert!(!runner.is_waiting_for_option_selection());

    // The next continue proceeds past the option node without error.
    assert!(runner.continue_dialogue().is_ok());
    let r = runner.apply_pump(
        Ok(vec![
            DialogueEvent::NodeStart(s("NodeB")),
            DialogueEvent::Line(line("l2", "After the choice")),
        ]),
        &sink,
    );
    assert_eq!(r, YarnDialogueResult::Okay);
}

#[test]
fn selecting_a_stale_option_is_an_invalid_id_error() {
    let mut runner = ready_runner("Start");
    let sink = RecordingSink::new();
    runner.start_dialogue(&s("Start"), &sink);
    runner.apply_pump(
        Ok(vec![DialogueEvent::Options(vec![option(0, "A", "NodeA", true)])]),
        &sink,
    );
    let foreign = option(7, "B", "NodeB", true);
    assert_eq!(runner.select_option(&foreign), YarnDialogueResult::InvalidOptionIdError);
    assert!(runner.is_waiting_for_option_selection());
}

#[test]
fn command_dispatch_invokes_the_registered_handler_in_parameter_order() {
    let mut runner = ready_runner("Start");
    let sink = RecordingSink::new();
    let calls = Rc::new(RefCell::new(Vec::new()));
    runner.register_command(s("foo"), Box::new(RecordingHandler { calls: calls.clone() }));
    runner.start_dialogue(&s("Start"), &sink);

    let parameters = vec![
        ScriptValue::Number((1.0f32).to_bits()),
        ScriptValue::Str(s("a")),
        ScriptValue::Boolean(true),
    ];
    let r = runner.apply_pump(
        Ok(vec![DialogueEvent::Command(YarnCommand { name: s("foo"), parameters: parameters.clone() })]),
        &sink,
    );
    assert_eq!(r, YarnDialogueResult::Okay);
    let recorded = calls.borrow();
    assert_eq!(recorded.len(), 1);
    assert_eq!(recorded[0], parameters);
    assert_eq!(sink.count("unknown_command:"), 0);
}

#[test]
fn removed_command_triggers_a_warning_and_no_crash() {
    let mut runner = ready_runner("Start");
    let sink = RecordingSink::new();
    runner.register_command(
        s("foo"),
        Box::new(RecordingHandler { calls: Rc::new(RefCell::new(Vec::new())) }),
    );
    assert!(runner.remove_command(&s("foo")));
    assert!(!runner.remove_command(&s("foo")));
    runner.start_dialogue(&s("Start"), &sink);
    let r = runner.apply_pump(
        Ok(vec![DialogueEvent::Command(YarnCommand { name: s("foo"), parameters: vec![] })]),
        &sink,
    );
    assert_eq!(r, YarnDialogueResult::Okay);
    assert_eq!(sink.count("unknown_command:foo"), 1);
}

#[test]
fn continue_while_idle_reports_not_running() {
    let mut runner = ready_runner("Start");
    assert_eq!(
        runner.continue_dialogue(),
        Err(YarnDialogueResult::DialogueNotRunning)
    );
}

#[test]
fn stop_always_succeeds_and_ends_the_run() {
    let mut runner = ready_runner("Start");
    let sink = RecordingSink::new();
    runner.start_dialogue(&s("Start"), &sink);
    let r = runner.stop_dialogue(vec![DialogueEvent::DialogueComplete], &sink);
    assert_eq!(r, YarnDialogueResult::Okay);
    assert!(!runner.is_dialogue_running());
    assert!(!runner.is_waiting_for_option_selection());
    assert_eq!(sink.count("dialogue_complete"), 1);

    // Stopping an idle controller is still a success.
    let mut idle = DialogueRunner::new();
    assert_eq!(idle.stop_dialogue(Vec::new(), &sink), YarnDialogueResult::Okay);
}

#[test]
fn pump_failure_maps_one_to_one_and_leaves_state_as_it_was() {
    let mut runner = ready_runner("Start");
    let sink = RecordingSink::new();
    runner.start_dialogue(&s("Start"), &sink);
    let r = runner.apply_pump(Err(EngineError::NoNodeSelectedOnContinue), &sink);
    assert_eq!(r, YarnDialogueResult::NoNodeSelectedOnContinue);
    assert!(runner.is_dialogue_running());
}

#[test]
fn every_engine_error_maps_to_its_result_kind() {
    let pairs = [
        (EngineError::MarkupParseError, YarnDialogueResult::MarkupParseError),
        (EngineError::LineProviderError, YarnDialogueResult::LineProviderError),
        (EngineError::InvalidOptionIdError, YarnDialogueResult::InvalidOptionIdError),
        (
            EngineError::UnexpectedOptionSelectionError,
            YarnDialogueResult::UnexpectedOptionSelectionError,
        ),
        (
            EngineError::ContinueOnOptionSelectionError,
            YarnDialogueResult::ContinueOnOptionSelectionError,
        ),
        (EngineError::NoNodeSelectedOnContinue, YarnDialogueResult::NoNodeSelectedOnContinue),
        (EngineError::InvalidNode, YarnDialogueResult::InvalidNode),
        (EngineError::VariableStorageError, YarnDialogueResult::VariableStorageError),
    ];
    for (e, expected) in pairs {
        assert_eq!(yarn_dialogue_error_to_yarn_dialogue_result(&e), expected);
    }
}

#[test]
fn node_start_events_track_the_current_node() {
    let mut runner = ready_runner("Start");
    let sink = RecordingSink::new();
    runner.start_dialogue(&s("Start"), &sink);
    assert_eq!(runner.get_current_node().clone(), Some(s("Start")));
    runner.apply_pump(Ok(vec![DialogueEvent::NodeStart(s("Other"))]), &sink);
    assert_eq!(runner.get_current_node().clone(), Some(s("Other")));
}

#[test]
fn clear_unloads_every_node() {
    let mut runner = ready_runner("Start");
    runner.clear();
    assert!(!runner.node_exists(&s("Start")));
}

#[test]
fn line_hints_are_forwarded_to_the_sink() {
    let mut runner = ready_runner("Start");
    let sink = RecordingSink::new();
    runner.start_dialogue(&s("Start"), &sink);
    runner.apply_pump(
        Ok(vec![DialogueEvent::LineHints(vec![s("l1"), s("l2")])]),
        &sink,
    );
    assert_eq!(sink.count("line_hints:2"), 1);
}

#[test]
fn a_program_without_a_node_table_is_reported() {
    let mut runner = DialogueRunner::new();
    let report = runner.build(&vec![s("{\"name\":\"empty\"}")]);
    assert!(report.accepted.is_empty());
    assert_eq!(report.errors.len(), 1);
    assert_eq!(report.errors[0].1, "the program JSON holds no nodes object");
}

#[test]
fn an_empty_batch_loads_nothing() {
    let mut runner = DialogueRunner::new();
    let report = runner.build(&Vec::new());
    assert!(report.accepted.is_empty());
    assert!(report.errors.is_empty());
}

#[test]
fn detaching_the_interpreter_ends_the_run() {
    let mut runner = ready_runner("Start");
    let sink = RecordingSink::new();
    runner.start_dialogue(&s("Start"), &sink);
    assert!(runner.is_dialogue_running());
    runner.set_runner_attached(false);
    assert!(!runner.is_dialogue_running());
}

#[test]
fn no_selection_is_awaited_without_an_attached_interpreter() {
    let mut runner = ready_runner("Start");
    let sink = RecordingSink::new();
    runner.start_dialogue(&s("Start"), &sink);
    runner.apply_pump(
        Ok(vec![DialogueEvent::Options(vec![option(0, "A", "NodeA", true)])]),
        &sink,
    );
    assert!(runner.is_waiting_for_option_selection());
    runner.set_runner_attached(false);
    assert!(!runner.is_waiting_for_option_selection());
    // Reattaching does not revive the discarded batch.
    runner.set_runner_attached(true);
    assert!(!runner.is_waiting_for_option_selection());
    let stale = option(0, "A", "NodeA", true);
    assert_eq!(
        runner.select_option(&stale),
        YarnDialogueResult::UnexpectedOptionSelectionError
    );
}
