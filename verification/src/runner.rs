use vstd::prelude::*;
use crate::events::{DialogueEvent, YarnDialogueOption, YarnLine};
use crate::values::ScriptValue;
use crate::table::{assoc_map, distinct_keys, lemma_assoc_position, lemma_assoc_push,
    lemma_assoc_update};
use crate::loader::nodes_of_program_json;

verus! {

/// The result kinds of every session operation. Interpreter-level failures
/// are translated one-to-one into this taxonomy and returned as values, never
/// raised.
#[derive(Debug, Clone, Copy, PartialEq, Eq, Structural)]
pub enum YarnDialogueResult {
    Okay,
    DialogueComplete,
    MarkupParseError,
    LineProviderError,
    InvalidOptionIdError,
    UnexpectedOptionSelectionError,
    ContinueOnOptionSelectionError,
    NoNodeSelectedOnContinue,
    InvalidNode,
    VariableStorageError,
    DialogueNotRunning,
    DialogueAlreadyRunning,
    RunnerNotConfigured,
}

/// A failure the interpreter reported during a pump, as the driver classifies
/// it at the boundary.
#[derive(Debug, Clone, Copy, PartialEq, Eq, Structural)]
pub enum EngineError {
    MarkupParseError,
    LineProviderError,
    InvalidOptionIdError,
    UnexpectedOptionSelectionError,
    ContinueOnOptionSelectionError,
    NoNodeSelectedOnContinue,
    InvalidNode,
    VariableStorageError,
}

/// The result kind each interpreter failure translates to.
pub open spec fn result_of_engine_error(e: EngineError) -> YarnDialogueResult {
    match e {
        EngineError::MarkupParseError => YarnDialogueResult::MarkupParseError,
        EngineError::LineProviderError => YarnDialogueResult::LineProviderError,
        EngineError::InvalidOptionIdError => YarnDialogueResult::InvalidOptionIdError,
        EngineError::UnexpectedOptionSelectionError => YarnDialogueResult::UnexpectedOptionSelectionError,
        EngineError::ContinueOnOptionSelectionError => YarnDialogueResult::ContinueOnOptionSelectionError,
        EngineError::NoNodeSelectedOnContinue => YarnDialogueResult::NoNodeSelectedOnContinue,
        EngineError::InvalidNode => YarnDialogueResult::InvalidNode,
        EngineError::VariableStorageError => YarnDialogueResult::VariableStorageError,
    }
}

/// Translates an interpreter failure into the session taxonomy, one-to-one.
/// Every failure maps to an error kind: never to `Okay` or `DialogueComplete`.
pub fn yarn_dialogue_error_to_yarn_dialogue_result(error: &EngineError) -> (r: YarnDialogueResult)
    ensures
        r == result_of_engine_error(*error),
        r != YarnDialogueResult::Okay,
        r != YarnDialogueResult::DialogueComplete,
{
    match error {
        EngineError::MarkupParseError => YarnDialogueResult::MarkupParseError,
        EngineError::LineProviderError => YarnDialogueResult::LineProviderError,
        EngineError::InvalidOptionIdError => YarnDialogueResult::InvalidOptionIdError,
        EngineError::UnexpectedOptionSelectionError => YarnDialogueResult::UnexpectedOptionSelectionError,
        EngineError::ContinueOnOptionSelectionError => YarnDialogueResult::ContinueOnOptionSelectionError,
        EngineError::NoNodeSelectedOnContinue => YarnDialogueResult::NoNodeSelectedOnContinue,
        EngineError::InvalidNode => YarnDialogueResult::InvalidNode,
        EngineError::VariableStorageError => YarnDialogueResult::VariableStorageError,
    }
}

/// The host-side observer of session notifications. The controller calls each
/// method synchronously, before the operation that produced the notification
/// returns. Implementations that need to mutate host state do so through
/// interior mutability, as a host callback object would.
pub trait DialogueEventSink {
    /// A fresh session entered the running state.
    fn on_dialogue_start(&self);

    /// The session reached its end.
    fn on_dialogue_complete(&self);

    /// A line should be presented.
    fn on_line(&self, line: &YarnLine);

    /// A batch of options should be presented; the session now awaits a
    /// selection.
    fn on_options(&self, options: &Vec<YarnDialogueOption>);

    /// The named node was entered.
    fn on_node_start(&self, node_name: &String);

    /// The named node was completed.
    fn on_node_complete(&self, node_name: &String);

    /// The contained line ids may be needed soon (advisory, for pre-fetch).
    fn on_line_hints(&self, line_ids: &Vec<String>);

    /// A script command named a command with no registered handler. Non-fatal:
    /// the session continues.
    fn on_unknown_command(&self, command_name: &String);
}

/// A host callback invoked when a script command with a registered name
/// fires. Mutation of host state goes through interior mutability, as with a
/// host callback object.
pub trait CommandHandler {
    /// Called with the command's parameters, in script order.
    fn on_command(&self, parameters: &Vec<ScriptValue>);
}

/// The observable session state, as one value. `selectable` holds the ids of
/// the option batch the interpreter is waiting on; unlike the observable
/// `options`, it is not cleared by a premature continue, mirroring the
/// interpreter's own lifetime for the batch.
pub struct SessionView {
    pub running: bool,
    pub awaiting: bool,
    pub line: Option<YarnLine>,
    pub options: Seq<YarnDialogueOption>,
    pub node: Option<String>,
    pub selectable: Seq<usize>,
}

/// How one event changes the observable session state.
pub open spec fn apply_event(s: SessionView, e: DialogueEvent) -> SessionView {
    match e {
        DialogueEvent::Line(l) => SessionView { line: Some(l), ..s },
        DialogueEvent::Options(opts) => SessionView {
            awaiting: true,
            options: s.options + opts@,
            selectable: opts@.map_values(|o: YarnDialogueOption| o.id),
            ..s
        },
        DialogueEvent::NodeStart(n) => SessionView {
            node: Some(n),
            selectable: Seq::empty(),
            ..s
        },
        DialogueEvent::DialogueComplete => SessionView {
            running: false,
            awaiting: false,
            selectable: Seq::empty(),
            ..s
        },
        _ => s,
    }
}

/// How a batch of events, processed in order, changes the observable session
/// state.
pub open spec fn apply_events(s: SessionView, events: Seq<DialogueEvent>) -> SessionView
    decreases events.len(),
{
    if events.len() == 0 {
        s
    } else {
        apply_events(apply_event(s, events[0]), events.drop_first())
    }
}

proof fn lemma_apply_events_snoc(s: SessionView, events: Seq<DialogueEvent>)
    requires
        events.len() > 0,
    ensures
        apply_events(s, events) == apply_event(
            apply_events(s, events.drop_last()),
            events.last(),
        ),
    decreases events.len(),
{
    if events.len() == 1 {
        assert(events.drop_first() =~= events.drop_last());
        assert(events.drop_last().len() == 0);
        assert(apply_events(apply_event(s, events[0]), events.drop_first()) == apply_event(
            s,
            events[0],
        ));
    } else {
        lemma_apply_events_snoc(apply_event(s, events[0]), events.drop_first());
        assert(events.drop_first().drop_last() =~= events.drop_last().drop_first());
        assert(events.drop_first().last() == events.last());
        assert(events.drop_last()[0] == events[0]);
        assert(apply_events(s, events.drop_last()) == apply_events(
            apply_event(s, events[0]),
            events.drop_last().drop_first(),
        ));
    }
}

/// Law: classifying a batch of events can end a session but never start one.
/// If the session runs after the batch, it was running before; only
/// [`DialogueRunner::start_dialogue`] enters the running state.
pub proof fn lemma_events_never_start_a_session(s: SessionView, events: Seq<DialogueEvent>)
    ensures
        apply_events(s, events).running ==> s.running,
    decreases events.len(),
{
    if events.len() > 0 {
        lemma_events_never_start_a_session(apply_event(s, events[0]), events.drop_first());
    }
}

/// Law: a later registration under a name wins. An entry of the registry is
/// active only if no later entry carries the same name; a dispatch invokes the
/// handler of the active entry, and handlers are appended in lockstep with
/// the entries and never reordered, so the handler invoked for a name is the
/// one most recently registered under it.
pub proof fn lemma_last_registration_wins(r: &DialogueRunner, i: int, j: int)
    requires
        r.inv(),
        0 <= i < j < r.command_entries().len(),
        r.command_entries()[i].0 == r.command_entries()[j].0,
    ensures
        !r.command_entries()[i].1,
{
    assert(r.command_entries()[i] == (r.command_names@[i]@, r.command_active@[i]));
    assert(r.command_entries()[j] == (r.command_names@[j]@, r.command_active@[j]));
}

/// The session controller. It owns the observable session state and the
/// command registry, and enforces the run/pause/select/resume protocol.
///
/// The interpreter itself lives with the host's driver loop, outside this
/// library. The protocol is: an operation that returns `Okay` (or `Ok`) asks
/// the driver to perform the matching interpreter call; the driver hands the
/// batch of events (or the failure) back through [`DialogueRunner::apply_pump`]
/// or [`DialogueRunner::stop_dialogue`], which classify every event and
/// notify the sink, in order.
pub struct DialogueRunner {
    runner_attached: bool,
    dialogue_running: bool,
    awaiting_selection: bool,
    current_line: Option<YarnLine>,
    current_options: Vec<YarnDialogueOption>,
    current_node: Option<String>,
    selectable_ids: Vec<usize>,
    command_names: Vec<String>,
    command_active: Vec<bool>,
    command_handlers: Vec<Box<dyn CommandHandler>>,
    nodes: Vec<(String, Vec<String>)>,
}

impl DialogueRunner {
    /// Whether an interpreter instance is attached at the driver.
    pub closed spec fn attached(&self) -> bool {
        self.runner_attached
    }

    /// Whether a session is running.
    pub closed spec fn running(&self) -> bool {
        self.dialogue_running
    }

    /// Whether the session awaits an option selection.
    pub closed spec fn awaiting(&self) -> bool {
        self.awaiting_selection
    }

    /// The line most recently delivered in the current pump, if any.
    pub closed spec fn line(&self) -> Option<YarnLine> {
        self.current_line
    }

    /// The options delivered in the current pump.
    pub closed spec fn options(&self) -> Seq<YarnDialogueOption> {
        self.current_options@
    }

    /// The node most recently entered.
    pub closed spec fn node(&self) -> Option<String> {
        self.current_node
    }

    /// The ids of the option batch the interpreter is waiting on.
    pub closed spec fn selectable(&self) -> Seq<usize> {
        self.selectable_ids@
    }

    /// The observable session state, as one value.
    pub open spec fn view_state(&self) -> SessionView {
        SessionView {
            running: self.running(),
            awaiting: self.awaiting(),
            line: self.line(),
            options: self.options(),
            node: self.node(),
            selectable: self.selectable(),
        }
    }

    /// The names registered in the command registry.
    pub closed spec fn registered(&self, name: Seq<char>) -> bool {
        reg_in(self.command_names@, self.command_active@, name)
    }

    /// The registry's entries in registration order: each name, with whether
    /// it is the active registration of that name. Entries are appended, never
    /// reordered; a superseded or removed entry is deactivated in place.
    pub closed spec fn command_entries(&self) -> Seq<(Seq<char>, bool)> {
        Seq::new(
            self.command_names@.len(),
            |i: int| (self.command_names@[i]@, self.command_active@[i]),
        )
    }

    /// The loaded nodes: each node's name mapped to its tags.
    pub closed spec fn loaded_nodes(&self) -> Map<Seq<char>, Seq<Seq<char>>> {
        assoc_map(self.nodes@).map_values(|tags: Vec<String>| tags.deep_view())
    }

    /// Well-formedness: registry names and node names are unique, and nothing
    /// runs without an attached interpreter.
    pub closed spec fn inv(&self) -> bool {
        &&& self.command_names@.len() == self.command_active@.len()
        &&& latest_only(self.command_names@, self.command_active@)
        &&& distinct_keys(self.nodes@)
        &&& (self.dialogue_running ==> self.runner_attached)
    }

    /// A controller in the idle state, with nothing loaded and nothing
    /// registered.
    pub fn new() -> (r: DialogueRunner)
        ensures
            r.inv(),
            !r.attached(),
            !r.running(),
            !r.awaiting(),
            r.line() is None,
            r.options() == Seq::<YarnDialogueOption>::empty(),
            r.node() is None,
            r.selectable() == Seq::<usize>::empty(),
            r.loaded_nodes() == Map::<Seq<char>, Seq<Seq<char>>>::empty(),
            forall|name: Seq<char>| !r.registered(name),
    {
        DialogueRunner {
            runner_attached: false,
            dialogue_running: false,
            awaiting_selection: false,
            current_line: None,
            current_options: Vec::new(),
            current_node: None,
            selectable_ids: Vec::new(),
            command_names: Vec::new(),
            command_active: Vec::new(),
            command_handlers: Vec::new(),
            nodes: Vec::new(),
        }
    }

    /// Records whether the driver holds a live interpreter instance. Without
    /// one, `start_dialogue` and `select_option` refuse with
    /// `RunnerNotConfigured`. Detaching ends the run and discards any awaited
    /// selection, as destroying the interpreter instance would.
    pub fn set_runner_attached(&mut self, attached: bool)
        requires
            old(self).inv(),
        ensures
            final(self).inv(),
            final(self).attached() == attached,
            final(self).running() == (old(self).running() && attached),
            final(self).awaiting() == (old(self).awaiting() && attached),
            final(self).line() == old(self).line(),
            final(self).options() == old(self).options(),
            final(self).node() == old(self).node(),
            final(self).selectable() == (if attached {
                old(self).selectable()
            } else {
                Seq::<usize>::empty()
            }),
            final(self).loaded_nodes() == old(self).loaded_nodes(),
            forall|n: Seq<char>| final(self).registered(n) == old(self).registered(n),
    {
        self.runner_attached = attached;
        if !attached {
            self.dialogue_running = false;
            self.awaiting_selection = false;
            self.selectable_ids = Vec::new();
            proof {
                assert(self.selectable() =~= Seq::<usize>::empty());
            }
        }
    }

    /// True while a session is running.
    pub fn is_dialogue_running(&self) -> (r: bool)
        ensures
            r == self.running(),
    {
        self.dialogue_running
    }

    /// True while the session awaits an option selection; false whenever no
    /// interpreter instance is attached.
    pub fn is_waiting_for_option_selection(&self) -> (r: bool)
        ensures
            r == (self.attached() && self.awaiting()),
    {
        self.runner_attached && self.awaiting_selection
    }

    /// The line most recently delivered in the current pump, if any.
    pub fn get_current_line(&self) -> (r: &Option<YarnLine>)
        ensures
            *r == self.line(),
    {
        &self.current_line
    }

    /// The options delivered in the current pump.
    pub fn get_current_options(&self) -> (r: &Vec<YarnDialogueOption>)
        ensures
            r@ == self.options(),
    {
        &self.current_options
    }

    /// The node most recently entered, if any.
    pub fn get_current_node(&self) -> (r: &Option<String>)
        ensures
            *r == self.node(),
    {
        &self.current_node
    }

    /// Registers a handler under a command name; a later registration under
    /// the same name replaces the earlier one, silently.
    pub fn register_command(&mut self, command_name: String, handler: Box<dyn CommandHandler>)
        requires
            old(self).inv(),
        ensures
            final(self).inv(),
            final(self).registered(command_name@),
            forall|n: Seq<char>| n != command_name@ ==> final(self).registered(n) == old(self).registered(n),
            final(self).view_state() == old(self).view_state(),
            final(self).attached() == old(self).attached(),
            final(self).loaded_nodes() == old(self).loaded_nodes(),
    {
        let _ = self.remove_command(&command_name);
        let ghost names1 = self.command_names@;
        let ghost active1 = self.command_active@;
        self.command_names.push(command_name);
        self.command_active.push(true);
        self.command_handlers.push(handler);
        proof {
            let last = names1.len() as int;
            assert(self.command_names@[last]@ == command_name@);
            assert(self.command_active@[last]);
            assert forall|n: Seq<char>|
                n != command_name@ implies reg_in(self.command_names@, self.command_active@, n)
                == reg_in(names1, active1, n) by {
                lemma_reg_push(names1, active1, self.command_names@, self.command_active@, n);
            }
            assert forall|i: int, j: int|
                0 <= i < j < self.command_names@.len() && (#[trigger] self.command_names@[i])@
                == (#[trigger] self.command_names@[j])@ implies !self.command_active@[i] by {
                if j == last {
                    assert(!reg_in(names1, active1, command_name@));
                    if self.command_active@[i] && self.command_names@[i]@ == command_name@ {
                        assert(names1[i]@ == command_name@ && active1[i]);
                        assert(reg_in(names1, active1, command_name@));
                    }
                } else {
                    assert(self.command_names@[i] == names1[i]);
                    assert(self.command_names@[j] == names1[j]);
                }
            }
        }
    }

    /// Unregisters a command name; reports whether a handler was registered
    /// under it.
    pub fn remove_command(&mut self, command_name: &String) -> (r: bool)
        requires
            old(self).inv(),
        ensures
            final(self).inv(),
            r == old(self).registered(command_name@),
            !final(self).registered(command_name@),
            forall|n: Seq<char>| n != command_name@ ==> final(self).registered(n) == old(self).registered(n),
            final(self).view_state() == old(self).view_state(),
            final(self).attached() == old(self).attached(),
            final(self).loaded_nodes() == old(self).loaded_nodes(),
    {
        let n = self.command_names.len();
        let mut i: usize = 0;
        while i < n
            invariant
                i <= n,
                *self == *old(self),
                old(self).inv(),
                n == self.command_names@.len(),
                forall|j: int|
                    0 <= j < i ==> !((#[trigger] self.command_names@[j])@ == command_name@
                        && self.command_active@[j]),
            decreases n - i,
        {
            if self.command_names[i].eq(command_name) && self.command_active[i] {
                let ghost names0 = self.command_names@;
                let ghost active0 = self.command_active@;
                self.command_active.set(i, false);
                proof {
                    assert(reg_in(names0, active0, command_name@));
                    assert forall|m: Seq<char>|
                        m != command_name@ implies reg_in(names0, self.command_active@, m)
                        == reg_in(names0, active0, m) by {
                        lemma_reg_deactivate(names0, active0, self.command_active@, i as int, m);
                    }
                    assert forall|k: int|
                        0 <= k < names0.len() implies !(names0[k]@ == command_name@
                        && self.command_active@[k]) by {
                        if k != i as int && self.command_active@[k] && names0[k]@
                            == command_name@ {
                            assert(active0[k]);
                            if k < i as int {
                                assert(!active0[k]);
                            } else {
                                assert(!active0[i as int]);
                            }
                        }
                    }
                    assert forall|p: int, q: int|
                        0 <= p < q < names0.len() && (#[trigger] names0[p])@
                        == (#[trigger] names0[q])@ implies !self.command_active@[p] by {
                        assert(self.command_active@[p] ==> active0[p]);
                    }
                }
                return true;
            }
            i = i + 1;
        }
        false
    }
}

impl DialogueRunner {
    /// Invokes the handler registered under `name` with the given parameters;
    /// reports whether one was registered.
    fn dispatch_command(&self, name: &String, parameters: &Vec<ScriptValue>) -> (found: bool)
        requires
            self.inv(),
        ensures
            found == self.registered(name@),
    {
        let n = self.command_names.len();
        let mut i: usize = 0;
        while i < n
            invariant
                i <= n,
                self.inv(),
                n == self.command_names@.len(),
                forall|j: int|
                    0 <= j < i ==> !((#[trigger] self.command_names@[j])@ == name@
                        && self.command_active@[j]),
            decreases n - i,
        {
            if self.command_names[i].eq(name) && self.command_active[i] {
                let m = self.command_handlers.len();
                if i < m {
                    self.command_handlers[i].on_command(parameters);
                }
                return true;
            }
            i = i + 1;
        }
        false
    }

    /// Classifies a batch of interpreter events, in order: each one is
    /// notified to the sink (a command to its registered handler instead, or
    /// an unknown-command warning), and the observable session state changes
    /// as [`apply_events`] says. Registered commands and loaded nodes are
    /// untouched.
    pub fn process_events<S: DialogueEventSink>(&mut self, events: Vec<DialogueEvent>, sink: &S)
        requires
            old(self).inv(),
        ensures
            final(self).inv(),
            final(self).view_state() == apply_events(old(self).view_state(), events@),
            final(self).attached() == old(self).attached(),
            final(self).loaded_nodes() == old(self).loaded_nodes(),
            forall|n: Seq<char>| final(self).registered(n) == old(self).registered(n),
    {
        let mut evs = events;
        let ghost all = evs@;
        let ghost s0 = self.view_state();
        let ghost mut done: Seq<DialogueEvent> = Seq::empty();
        proof {
            assert(all =~= done + evs@);
        }
        while evs.len() > 0
            invariant
                self.inv(),
                s0 == old(self).view_state(),
                all == done + evs@,
                self.view_state() == apply_events(s0, done),
                self.command_names@ == old(self).command_names@,
                self.command_active@ == old(self).command_active@,
                self.nodes@ == old(self).nodes@,
                self.runner_attached == old(self).runner_attached,
            decreases evs@.len(),
        {
            let ghost evs_before = evs@;
            let ghost view_before = self.view_state();
            let e = evs.remove(0);
            proof {
                lemma_apply_events_snoc(s0, done.push(e));
                assert(done.push(e).drop_last() =~= done);
                assert(done.push(e).last() == e);
                assert(all =~= done.push(e) + evs@);
            }
            match e {
                DialogueEvent::Line(line) => {
                    sink.on_line(&line);
                    self.current_line = Some(line);
                }
                DialogueEvent::Options(options) => {
                    sink.on_options(&options);
                    self.awaiting_selection = true;
                    let mut ids: Vec<usize> = Vec::new();
                    let count = options.len();
                    let mut t: usize = 0;
                    while t < count
                        invariant
                            t <= count,
                            count == options@.len(),
                            ids@.len() == t,
                            forall|u: int| 0 <= u < t ==> ids@[u] == options@[u].id,
                        decreases count - t,
                    {
                        ids.push(options[t].id);
                        t = t + 1;
                    }
                    proof {
                        assert(ids@ =~= options@.map_values(|o: YarnDialogueOption| o.id));
                    }
                    self.selectable_ids = ids;
                    let mut incoming = options;
                    self.current_options.append(&mut incoming);
                }
                DialogueEvent::Command(command) => {
                    let found = self.dispatch_command(&command.name, &command.parameters);
                    if !found {
                        sink.on_unknown_command(&command.name);
                    }
                }
                DialogueEvent::NodeStart(node_name) => {
                    sink.on_node_start(&node_name);
                    self.current_node = Some(node_name);
                    self.selectable_ids = Vec::new();
                    proof {
                        assert(self.selectable() =~= Seq::<usize>::empty());
                    }
                }
                DialogueEvent::NodeComplete(node_name) => {
                    sink.on_node_complete(&node_name);
                }
                DialogueEvent::LineHints(line_ids) => {
                    sink.on_line_hints(&line_ids);
                }
                DialogueEvent::DialogueComplete => {
                    sink.on_dialogue_complete();
                    self.dialogue_running = false;
                    self.awaiting_selection = false;
                    self.selectable_ids = Vec::new();
                    proof {
                        assert(self.selectable() =~= Seq::<usize>::empty());
                    }
                }
            }
            proof {
                done = done.push(e);
            }
        }
        proof {
            assert(done =~= all);
        }
    }

    /// Starts a session at the named node. Refuses with
    /// `DialogueAlreadyRunning` while one is running (current line and options
    /// untouched), with `RunnerNotConfigured` when no interpreter instance is
    /// attached, and with `InvalidNode` when no loaded node carries the name.
    /// On `Okay`, the session is running at the node, the observable line and
    /// options are cleared, the sink heard `on_dialogue_start`, and the driver
    /// must set the interpreter to the node, pump it once, and hand the batch
    /// to [`DialogueRunner::apply_pump`].
    pub fn start_dialogue<S: DialogueEventSink>(&mut self, node_name: &String, sink: &S) -> (r:
        YarnDialogueResult)
        requires
            old(self).inv(),
        ensures
            final(self).inv(),
            final(self).attached() == old(self).attached(),
            final(self).loaded_nodes() == old(self).loaded_nodes(),
            forall|n: Seq<char>| final(self).registered(n) == old(self).registered(n),
            old(self).running() ==> r == YarnDialogueResult::DialogueAlreadyRunning && final(self).view_state() == old(self).view_state(),
            !old(self).running() && !old(self).attached() ==> r
                == YarnDialogueResult::RunnerNotConfigured && final(self).view_state() == old(self).view_state(),
            !old(self).running() && old(self).attached() && !old(self).loaded_nodes().contains_key(
                node_name@,
            ) ==> r == YarnDialogueResult::InvalidNode && final(self).view_state() == old(self).view_state(),
            !old(self).running() && old(self).attached() && old(self).loaded_nodes().contains_key(
                node_name@,
            ) ==> r == YarnDialogueResult::Okay && final(self).view_state() == (SessionView {
                running: true,
                awaiting: false,
                line: None::<YarnLine>,
                options: Seq::<YarnDialogueOption>::empty(),
                node: Some(*node_name),
                selectable: Seq::<usize>::empty(),
            }),
    {
        if self.dialogue_running {
            return YarnDialogueResult::DialogueAlreadyRunning;
        }
        if !self.runner_attached {
            return YarnDialogueResult::RunnerNotConfigured;
        }
        if !self.node_loaded(node_name) {
            return YarnDialogueResult::InvalidNode;
        }
        self.dialogue_running = true;
        self.awaiting_selection = false;
        self.current_line = None;
        self.current_options = Vec::new();
        self.current_node = Some(node_name.clone());
        self.selectable_ids = Vec::new();
        sink.on_dialogue_start();
        proof {
            assert(self.current_options@ =~= Seq::<YarnDialogueOption>::empty());
            assert(self.selectable() =~= Seq::<usize>::empty());
        }
        YarnDialogueResult::Okay
    }

    /// Begins one continue step. While no session runs, refuses with
    /// `DialogueNotRunning`. Otherwise clears the observable line and options
    /// — partial state of the prior pump never leaks into the next — and asks
    /// the driver, by `Ok`, to pump the interpreter once and hand the batch to
    /// [`DialogueRunner::apply_pump`].
    pub fn continue_dialogue(&mut self) -> (r: Result<(), YarnDialogueResult>)
        requires
            old(self).inv(),
        ensures
            final(self).inv(),
            final(self).attached() == old(self).attached(),
            final(self).loaded_nodes() == old(self).loaded_nodes(),
            forall|n: Seq<char>| final(self).registered(n) == old(self).registered(n),
            !old(self).running() ==> r == Err::<(), YarnDialogueResult>(
                YarnDialogueResult::DialogueNotRunning,
            ) && final(self).view_state() == old(self).view_state(),
            old(self).running() ==> r == Ok::<(), YarnDialogueResult>(()) && final(self).view_state() == (SessionView {
                line: None::<YarnLine>,
                options: Seq::<YarnDialogueOption>::empty(),
                ..old(self).view_state()
            }),
    {
        if !self.dialogue_running {
            return Err(YarnDialogueResult::DialogueNotRunning);
        }
        self.current_line = None;
        self.current_options = Vec::new();
        proof {
            assert(self.current_options@ =~= Seq::<YarnDialogueOption>::empty());
        }
        Ok(())
    }

    /// Finishes a pump: classifies the batch through
    /// [`DialogueRunner::process_events`] and reports `Okay` while the session
    /// still runs, `DialogueComplete` when the batch ended it. An interpreter
    /// failure is translated one-to-one into the taxonomy and leaves the
    /// observable state as it was.
    pub fn apply_pump<S: DialogueEventSink>(
        &mut self,
        outcome: Result<Vec<DialogueEvent>, EngineError>,
        sink: &S,
    ) -> (r: YarnDialogueResult)
        requires
            old(self).inv(),
        ensures
            final(self).inv(),
            final(self).attached() == old(self).attached(),
            final(self).loaded_nodes() == old(self).loaded_nodes(),
            forall|n: Seq<char>| final(self).registered(n) == old(self).registered(n),
            match outcome {
                Ok(events) => {
                    &&& final(self).view_state() == apply_events(old(self).view_state(), events@)
                    &&& r == (if apply_events(old(self).view_state(), events@).running {
                        YarnDialogueResult::Okay
                    } else {
                        YarnDialogueResult::DialogueComplete
                    })
                },
                Err(e) => r == result_of_engine_error(e) && final(self).view_state() == old(self).view_state(),
            },
    {
        match outcome {
            Ok(events) => {
                self.process_events(events, sink);
                if self.dialogue_running {
                    YarnDialogueResult::Okay
                } else {
                    YarnDialogueResult::DialogueComplete
                }
            }
            Err(e) => yarn_dialogue_error_to_yarn_dialogue_result(&e),
        }
    }

    /// Selects one option of the awaited batch, by id. Refuses with
    /// `RunnerNotConfigured` when no interpreter instance is attached, with
    /// `UnexpectedOptionSelectionError` while no selection is awaited — an
    /// error result, never a crash — and with `InvalidOptionIdError` when the
    /// value carries no id of the presented batch (a stale or foreign handle).
    /// Availability is informational: an unavailable option of the batch may
    /// be selected. On `Okay` the session stops awaiting, and the driver must
    /// forward the id to the interpreter before pumping again.
    pub fn select_option(&mut self, option: &YarnDialogueOption) -> (r: YarnDialogueResult)
        requires
            old(self).inv(),
        ensures
            final(self).inv(),
            final(self).attached() == old(self).attached(),
            final(self).loaded_nodes() == old(self).loaded_nodes(),
            forall|n: Seq<char>| final(self).registered(n) == old(self).registered(n),
            !old(self).attached() ==> r == YarnDialogueResult::RunnerNotConfigured && final(self).view_state() == old(self).view_state(),
            old(self).attached() && !old(self).awaiting() ==> r
                == YarnDialogueResult::UnexpectedOptionSelectionError && final(self).view_state()
                == old(self).view_state(),
            old(self).attached() && old(self).awaiting() && !old(self).selectable().contains(
                option.id,
            ) ==> r == YarnDialogueResult::InvalidOptionIdError && final(self).view_state() == old(
                self,
            ).view_state(),
            old(self).attached() && old(self).awaiting() && old(self).selectable().contains(
                option.id,
            ) ==> r == YarnDialogueResult::Okay && final(self).view_state() == (SessionView {
                awaiting: false,
                selectable: Seq::<usize>::empty(),
                ..old(self).view_state()
            }),
    {
        if !self.runner_attached {
            return YarnDialogueResult::RunnerNotConfigured;
        }
        if !self.awaiting_selection {
            return YarnDialogueResult::UnexpectedOptionSelectionError;
        }
        let n = self.selectable_ids.len();
        let mut i: usize = 0;
        while i < n
            invariant
                i <= n,
                *self == *old(self),
                old(self).inv(),
                old(self).attached(),
                old(self).awaiting(),
                n == self.selectable_ids@.len(),
                forall|j: int| 0 <= j < i ==> (#[trigger] self.selectable_ids@[j]) != option.id,
            decreases n - i,
        {
            if self.selectable_ids[i] == option.id {
                self.awaiting_selection = false;
                self.selectable_ids = Vec::new();
                proof {
                    assert(self.selectable() =~= Seq::<usize>::empty());
                    assert(old(self).selectable().contains(option.id));
                }
                return YarnDialogueResult::Okay;
            }
            i = i + 1;
        }
        proof {
            assert(!old(self).selectable().contains(option.id));
        }
        YarnDialogueResult::InvalidOptionIdError
    }

    /// Stops the session unconditionally and always reports `Okay`. The
    /// driver hands over the interpreter's final batch (its stop yields one,
    /// ending in a completion event), every event of which is classified and
    /// notified as usual; afterwards the session is not running and awaits
    /// nothing, whatever the batch held.
    pub fn stop_dialogue<S: DialogueEventSink>(
        &mut self,
        final_events: Vec<DialogueEvent>,
        sink: &S,
    ) -> (r: YarnDialogueResult)
        requires
            old(self).inv(),
        ensures
            final(self).inv(),
            r == YarnDialogueResult::Okay,
            final(self).attached() == old(self).attached(),
            final(self).loaded_nodes() == old(self).loaded_nodes(),
            forall|n: Seq<char>| final(self).registered(n) == old(self).registered(n),
            final(self).view_state() == (SessionView {
                running: false,
                awaiting: false,
                selectable: Seq::<usize>::empty(),
                ..apply_events(old(self).view_state(), final_events@)
            }),
    {
        self.process_events(final_events, sink);
        self.dialogue_running = false;
        self.awaiting_selection = false;
        self.selectable_ids = Vec::new();
        proof {
            assert(self.selectable() =~= Seq::<usize>::empty());
        }
        YarnDialogueResult::Okay
    }

    /// Unloads every node. Only meaningful while idle or stopped; the run
    /// state itself is untouched, and the driver must unload the interpreter
    /// alongside.
    pub fn clear(&mut self)
        requires
            old(self).inv(),
        ensures
            final(self).inv(),
            final(self).attached() == old(self).attached(),
            final(self).loaded_nodes() == Map::<Seq<char>, Seq<Seq<char>>>::empty(),
            forall|n: Seq<char>| final(self).registered(n) == old(self).registered(n),
            final(self).view_state() == old(self).view_state(),
    {
        self.nodes = Vec::new();
        proof {
            assert(self.loaded_nodes() =~= Map::<Seq<char>, Seq<Seq<char>>>::empty());
        }
    }

    /// True when a node of this name is loaded (and an interpreter is
    /// attached; without one, nothing is).
    pub fn node_exists(&self, node_name: &String) -> (r: bool)
        requires
            self.inv(),
        ensures
            r == (self.attached() && self.loaded_nodes().contains_key(node_name@)),
    {
        if !self.runner_attached {
            return false;
        }
        self.node_loaded(node_name)
    }

    /// The tags of the named node. A node that is not loaded reports the empty
    /// list, a non-fatal condition, and so does a controller with no
    /// interpreter attached — the same cases in which `node_exists` reports
    /// false. The absence is observable in the result; a host that wants a
    /// warning logged emits its own.
    pub fn get_tags_for_node(&self, node_name: &String) -> (r: Vec<String>)
        requires
            self.inv(),
        ensures
            self.attached() && self.loaded_nodes().contains_key(node_name@) ==> r.deep_view()
                == self.loaded_nodes()[node_name@],
            !(self.attached() && self.loaded_nodes().contains_key(node_name@)) ==> r@.len() == 0,
    {
        if !self.runner_attached {
            return Vec::new();
        }
        proof {
            lemma_assoc_position(self.nodes@, node_name@);
        }
        let n = self.nodes.len();
        let mut i: usize = 0;
        while i < n
            invariant
                i <= n,
                self.inv(),
                self.attached(),
                n == self.nodes@.len(),
                forall|j: int| 0 <= j < i ==> (#[trigger] self.nodes@[j]).0@ != node_name@,
            decreases n - i,
        {
            if self.nodes[i].0.eq(node_name) {
                proof {
                    lemma_assoc_position(self.nodes@, node_name@);
                }
                let mut tags: Vec<String> = Vec::new();
                let m = self.nodes[i].1.len();
                let mut k: usize = 0;
                while k < m
                    invariant
                        k <= m,
                        i < self.nodes@.len(),
                        m == self.nodes@[i as int].1@.len(),
                        tags@.len() == k,
                        forall|t: int| 0 <= t < k ==> tags@[t]@ == self.nodes@[i as int].1@[t]@,
                    decreases m - k,
                {
                    tags.push(self.nodes[i].1[k].clone());
                    k = k + 1;
                }
                proof {
                    assert(tags.deep_view() =~= self.nodes@[i as int].1.deep_view());
                }
                return tags;
            }
            i = i + 1;
        }
        Vec::new()
    }

    fn node_loaded(&self, node_name: &String) -> (r: bool)
        requires
            self.inv(),
        ensures
            r == self.loaded_nodes().contains_key(node_name@),
    {
        proof {
            lemma_assoc_position(self.nodes@, node_name@);
        }
        let n = self.nodes.len();
        let mut i: usize = 0;
        while i < n
            invariant
                i <= n,
                self.inv(),
                n == self.nodes@.len(),
                forall|j: int| 0 <= j < i ==> (#[trigger] self.nodes@[j]).0@ != node_name@,
            decreases n - i,
        {
            if self.nodes[i].0.eq(node_name) {
                proof {
                    lemma_assoc_position(self.nodes@, node_name@);
                    assert(assoc_map(self.nodes@).contains_key(node_name@));
                }
                return true;
            }
            i = i + 1;
        }
        false
    }
}

/// What loading a batch of compiled programs yields: the node table, the
/// per-program errors, and the indices of the programs that loaded.
pub struct LoadAcc {
    pub nodes: Map<Seq<char>, Seq<Seq<char>>>,
    pub errors: Seq<(int, Seq<char>)>,
    pub accepted: Seq<int>,
}

/// Whether some entry's node name is already in the table.
pub open spec fn any_conflict(
    m: Map<Seq<char>, Seq<Seq<char>>>,
    entries: Seq<(Seq<char>, Seq<Seq<char>>)>,
) -> bool {
    exists|i: int| 0 <= i < entries.len() && m.contains_key((#[trigger] entries[i]).0)
}

/// The table after writing each node entry in order; a later entry with the
/// same name replaces an earlier one.
pub open spec fn insert_nodes(
    m: Map<Seq<char>, Seq<Seq<char>>>,
    entries: Seq<(Seq<char>, Seq<Seq<char>>)>,
) -> Map<Seq<char>, Seq<Seq<char>>>
    decreases entries.len(),
{
    if entries.len() == 0 {
        m
    } else {
        insert_nodes(m.insert(entries[0].0, entries[0].1), entries.drop_first())
    }
}

/// One program of a batch: a program whose JSON does not read, or whose nodes
/// collide with ones already loaded, is skipped and reported; any other
/// program's nodes join the table and its index is accepted.
pub open spec fn load_step(acc: LoadAcc, program: String, idx: int) -> LoadAcc {
    match nodes_of_program_json(program@) {
        Ok(entries) => if any_conflict(acc.nodes, entries) {
            LoadAcc {
                errors: acc.errors.push((idx, "a node with the same name is already loaded"@)),
                ..acc
            }
        } else {
            LoadAcc {
                nodes: insert_nodes(acc.nodes, entries),
                accepted: acc.accepted.push(idx),
                ..acc
            }
        },
        Err(msg) => LoadAcc { errors: acc.errors.push((idx, msg)), ..acc },
    }
}

/// The outcome after the first `k` programs of a batch, starting from an
/// empty table.
pub open spec fn load_upto(programs: Seq<String>, k: int) -> LoadAcc
    decreases k,
{
    if k <= 0 {
        LoadAcc {
            nodes: Map::empty(),
            errors: Seq::empty(),
            accepted: Seq::empty(),
        }
    } else {
        load_step(load_upto(programs, k - 1), programs[k - 1], k - 1)
    }
}

/// What [`DialogueRunner::build`] reports: the indices of the programs that
/// loaded, and for each skipped program its index and the reason.
pub struct BuildReport {
    pub accepted: Vec<usize>,
    pub errors: Vec<(usize, String)>,
}

impl DialogueRunner {
    /// Loads a batch of compiled programs, given as their JSON texts. Any
    /// previously loaded nodes are unloaded first. A program that does not
    /// parse, or whose nodes collide with ones loaded earlier in the batch, is
    /// skipped and reported; the rest of the batch still loads. The run state
    /// is not changed. The driver must mirror the outcome: unload the
    /// interpreter, then hand it exactly the accepted programs, in order.
    pub fn build(&mut self, programs: &Vec<String>) -> (report: BuildReport)
        requires
            old(self).inv(),
        ensures
            final(self).inv(),
            final(self).attached() == old(self).attached(),
            final(self).view_state() == old(self).view_state(),
            forall|n: Seq<char>| final(self).registered(n) == old(self).registered(n),
            ({
                let outcome = load_upto(programs@, programs@.len() as int);
                &&& final(self).loaded_nodes() == outcome.nodes
                &&& report.errors@.len() == outcome.errors.len()
                &&& forall|k: int|
                    0 <= k < outcome.errors.len() ==> (#[trigger] report.errors@[k]).0 as int
                        == outcome.errors[k].0 && report.errors@[k].1@ == outcome.errors[k].1
                &&& report.accepted@.len() == outcome.accepted.len()
                &&& forall|k: int|
                    0 <= k < outcome.accepted.len() ==> (#[trigger] report.accepted@[k]) as int
                        == outcome.accepted[k]
            }),
    {
        self.nodes = Vec::new();
        proof {
            assert(self.loaded_nodes() =~= Map::<Seq<char>, Seq<Seq<char>>>::empty());
        }
        let mut errors: Vec<(usize, String)> = Vec::new();
        let mut accepted: Vec<usize> = Vec::new();
        let n = programs.len();
        let mut i: usize = 0;
        while i < n
            invariant
                i <= n,
                n == programs@.len(),
                self.inv(),
                self.runner_attached == old(self).runner_attached,
                self.command_names@ == old(self).command_names@,
                self.command_active@ == old(self).command_active@,
                self.view_state() == old(self).view_state(),
                old(self).inv(),
                ({
                    let outcome = load_upto(programs@, i as int);
                    &&& self.loaded_nodes() == outcome.nodes
                    &&& errors@.len() == outcome.errors.len()
                    &&& forall|k: int|
                        0 <= k < outcome.errors.len() ==> (#[trigger] errors@[k]).0 as int
                            == outcome.errors[k].0 && errors@[k].1@ == outcome.errors[k].1
                    &&& accepted@.len() == outcome.accepted.len()
                    &&& forall|k: int|
                        0 <= k < outcome.accepted.len() ==> (#[trigger] accepted@[k]) as int
                            == outcome.accepted[k]
                }),
            decreases n - i,
        {
            match crate::loader::extract_program_nodes(programs[i].as_str()) {
                Err(message) => {
                    errors.push((i, message));
                }
                Ok(entries) => {
                    if self.any_node_conflict(&entries) {
                        errors.push((i, String::from_str("a node with the same name is already loaded")));
                    } else {
                        self.insert_node_entries(entries);
                        accepted.push(i);
                    }
                }
            }
            i = i + 1;
        }
        BuildReport { accepted, errors }
    }

    /// True when some entry of the batch names a node that is already loaded.
    fn any_node_conflict(&self, entries: &Vec<(String, Vec<String>)>) -> (r: bool)
        requires
            self.inv(),
        ensures
            r == any_conflict(self.loaded_nodes(), entries.deep_view()),
    {
        let n = entries.len();
        let mut i: usize = 0;
        while i < n
            invariant
                i <= n,
                self.inv(),
                n == entries@.len(),
                forall|j: int|
                    0 <= j < i ==> !self.loaded_nodes().contains_key(
                        (#[trigger] entries.deep_view()[j]).0,
                    ),
            decreases n - i,
        {
            if self.node_loaded(&entries[i].0) {
                proof {
                    assert(entries.deep_view()[i as int].0 == entries@[i as int].0@);
                }
                return true;
            }
            proof {
                assert(entries.deep_view()[i as int].0 == entries@[i as int].0@);
            }
            i = i + 1;
        }
        false
    }

    /// Writes each node entry into the table, in order.
    fn insert_node_entries(&mut self, entries: Vec<(String, Vec<String>)>)
        requires
            old(self).inv(),
        ensures
            final(self).inv(),
            final(self).loaded_nodes() == insert_nodes(
                old(self).loaded_nodes(),
                entries.deep_view(),
            ),
            final(self).view_state() == old(self).view_state(),
            final(self).attached() == old(self).attached(),
            final(self).command_names@ == old(self).command_names@,
            final(self).command_active@ == old(self).command_active@,
    {
        let ghost all = entries.deep_view();
        let mut remaining = entries;
        let ghost k: int = 0;
        while remaining.len() > 0
            invariant
                self.inv(),
                0 <= k <= all.len(),
                remaining.deep_view() =~= all.skip(k),
                insert_nodes(old(self).loaded_nodes(), all) == insert_nodes(
                    self.loaded_nodes(),
                    all.skip(k),
                ),
                self.view_state() == old(self).view_state(),
                self.runner_attached == old(self).runner_attached,
                self.command_names@ == old(self).command_names@,
                self.command_active@ == old(self).command_active@,
            decreases remaining@.len(),
        {
            let ghost rest = all.skip(k);
            let ghost rem0 = remaining@;
            let ghost remdv0 = remaining.deep_view();
            let pair = remaining.remove(0);
            proof {
                assert(remdv0[0] == rem0[0].deep_view());
                assert(rest[0] == pair.deep_view());
                assert forall|t: int|
                    0 <= t < remaining@.len() implies remaining.deep_view()[t] == all.skip(k + 1)[t]
                    by {
                    assert(remaining@[t] == rem0[t + 1]);
                    assert(remdv0[t + 1] == rem0[t + 1].deep_view());
                    assert(all.skip(k)[t + 1] == all[k + 1 + t]);
                }
                assert(remaining.deep_view().len() == all.skip(k + 1).len());
                assert(remaining.deep_view() =~= all.skip(k + 1));
                assert(rest.drop_first() =~= all.skip(k + 1));
            }
            self.upsert_node(pair.0, pair.1);
            proof {
                k = k + 1;
            }
        }
        proof {
            assert(all.skip(k).len() == 0);
            assert(all.skip(k) =~= Seq::<(Seq<char>, Seq<Seq<char>>)>::empty());
        }
    }

    /// Writes one node entry, replacing a previous entry of the same name.
    fn upsert_node(&mut self, name: String, tags: Vec<String>)
        requires
            old(self).inv(),
        ensures
            final(self).inv(),
            final(self).loaded_nodes() == old(self).loaded_nodes().insert(
                name@,
                tags.deep_view(),
            ),
            final(self).view_state() == old(self).view_state(),
            final(self).attached() == old(self).attached(),
            final(self).command_names@ == old(self).command_names@,
            final(self).command_active@ == old(self).command_active@,
    {
        let ghost entries0 = self.nodes@;
        let n = self.nodes.len();
        let mut i: usize = 0;
        while i < n
            invariant
                i <= n,
                *self == *old(self),
                old(self).inv(),
                n == self.nodes@.len(),
                entries0 == self.nodes@,
                forall|j: int| 0 <= j < i ==> (#[trigger] self.nodes@[j]).0@ != name@,
            decreases n - i,
        {
            if self.nodes[i].0.eq(&name) {
                let ghost tags_snapshot = tags;
                self.nodes.set(i, (name, tags));
                proof {
                    lemma_assoc_update(entries0, i as int, self.nodes@[i as int]);
                    assert(self.loaded_nodes() =~= old(self).loaded_nodes().insert(
                        self.nodes@[i as int].0@,
                        tags_snapshot.deep_view(),
                    ));
                }
                return ;
            }
            i = i + 1;
        }
        let ghost tags_snapshot = tags;
        self.nodes.push((name, tags));
        proof {
            let ghost last = entries0.len() as int;
            lemma_assoc_push(entries0, self.nodes@[last]);
            assert(self.loaded_nodes() =~= old(self).loaded_nodes().insert(
                self.nodes@[last].0@,
                tags_snapshot.deep_view(),
            ));
        }
    }
}

/// Whether `n` is registered: some entry carries it and is active.
pub open spec fn reg_in(names: Seq<String>, active: Seq<bool>, n: Seq<char>) -> bool {
    exists|i: int| 0 <= i < names.len() && (#[trigger] names[i])@ == n && active[i]
}

/// Only the last entry carrying a name may be active: a later registration
/// under the same name supersedes every earlier one.
pub open spec fn latest_only(names: Seq<String>, active: Seq<bool>) -> bool {
    forall|i: int, j: int|
        0 <= i < j < names.len() && (#[trigger] names[i])@ == (#[trigger] names[j])@
            ==> !active[i]
}

/// Appending an entry for one name leaves every other name's registration as
/// it was.
proof fn lemma_reg_push(
    names0: Seq<String>,
    active0: Seq<bool>,
    names1: Seq<String>,
    active1: Seq<bool>,
    n: Seq<char>,
)
    requires
        names0.len() == active0.len(),
        names1.len() == names0.len() + 1,
        active1.len() == active0.len() + 1,
        forall|j: int| 0 <= j < names0.len() ==> names1[j] == names0[j],
        forall|j: int| 0 <= j < active0.len() ==> active1[j] == active0[j],
        names1[names0.len() as int]@ != n,
    ensures
        reg_in(names1, active1, n) == reg_in(names0, active0, n),
{
    if reg_in(names1, active1, n) {
        let k = choose|k: int| 0 <= k < names1.len() && (#[trigger] names1[k])@ == n && active1[k];
        assert(k < names0.len());
        assert(names0[k]@ == n && active0[k]);
    }
    if reg_in(names0, active0, n) {
        let k = choose|k: int| 0 <= k < names0.len() && (#[trigger] names0[k])@ == n && active0[k];
        assert(names1[k]@ == n && active1[k]);
    }
}

/// Deactivating one entry leaves every other name's registration as it was.
proof fn lemma_reg_deactivate(
    names: Seq<String>,
    active0: Seq<bool>,
    active1: Seq<bool>,
    i: int,
    n: Seq<char>,
)
    requires
        names.len() == active0.len(),
        active1 == active0.update(i, false),
        0 <= i < active0.len(),
        names[i]@ != n,
    ensures
        reg_in(names, active1, n) == reg_in(names, active0, n),
{
    if reg_in(names, active1, n) {
        let k = choose|k: int| 0 <= k < names.len() && (#[trigger] names[k])@ == n && active1[k];
        assert(active0[k]);
        assert(names[k]@ == n && active0[k]);
    }
    if reg_in(names, active0, n) {
        let k = choose|k: int| 0 <= k < names.len() && (#[trigger] names[k])@ == n && active0[k];
        assert(k != i);
        assert(active1[k]);
    }
}

} // verus!
