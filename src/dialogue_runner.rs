//! The host-facing runner: it owns the dialogue machine, paces it by the
//! host's updates, tracks outstanding command tasks, and routes the language
//! to the text and asset providers.
use vstd::prelude::*;
use crate::dialogue::{Dialogue, DialogueError, DialogueEvent, ExecutionState, VmView, node_index, run_spec};
use crate::localization::Localizations;
use crate::variable_storage::MemoryVariableStorage;

verus! {

/// Why the runner refused a request.
#[derive(PartialEq, Eq, Structural, Clone, Copy, Debug)]
pub enum RunnerError {
    /// The dialogue is not running.
    NotRunning,
    /// The dialogue is already running.
    AlreadyRunning,
    /// The dialogue machine refused the request.
    Dialogue(DialogueError),
    /// No localizations are configured.
    NoLocalizations,
    /// The language is neither the base language nor a translation.
    UnsupportedLanguage,
}

pub open spec fn all_equal(v: Seq<Option<String>>) -> bool {
    forall|i: int, j: int| 0 <= i < v.len() && 0 <= j < v.len() ==> #[trigger] v[i] == #[trigger] v[j]
}

/// Drives one dialogue for the host.
pub struct DialogueRunner {
    pub dialogue: Dialogue,
    pub will_continue_in_next_update: bool,
    pub last_selected_option: Option<usize>,
    pub command_tasks: Vec<u64>,
    pub localizations: Option<Localizations>,
    pub is_running: bool,
    pub run_selected_options_as_lines: bool,
    pub just_started: bool,
    pub popped_line_hints: Option<Vec<String>>,
    /// The language of each asset provider, in registration order.
    pub asset_languages: Vec<Option<String>>,
    pub variables: MemoryVariableStorage,
}

impl DialogueRunner {
    /// The machine is consistent, and all asset providers share one language.
    pub open spec fn well_formed(&self) -> bool {
        &&& self.dialogue.well_formed()
        &&& all_equal(self.asset_languages@)
        &&& self.variables.well_formed()
    }

    /// A runner over `dialogue`, with `asset_providers` providers that have no
    /// language yet.
    pub fn new(dialogue: Dialogue, localizations: Option<Localizations>, asset_providers: usize) -> (r:
        Self)
        requires
            dialogue.well_formed(),
        ensures
            r.well_formed(),
            !r.is_running,
            !r.will_continue_in_next_update,
            r.command_tasks@.len() == 0,
            r.asset_languages@.len() == asset_providers,
    {
        let mut asset_languages: Vec<Option<String>> = Vec::new();
        let mut i: usize = 0;
        while i < asset_providers
            invariant
                i <= asset_providers,
                asset_languages@.len() == i,
                forall|k: int| 0 <= k < i ==> (#[trigger] asset_languages@[k]) is None,
            decreases asset_providers - i,
        {
            asset_languages.push(None);
            i += 1;
        }
        DialogueRunner {
            dialogue,
            will_continue_in_next_update: false,
            last_selected_option: None,
            command_tasks: Vec::new(),
            localizations,
            is_running: false,
            run_selected_options_as_lines: false,
            just_started: false,
            popped_line_hints: None,
            asset_languages,
            variables: MemoryVariableStorage::new(false),
        }
    }

    /// Asks for the dialogue to advance on the next update. The dialogue must be running.
    pub fn continue_in_next_update(&mut self)
        requires
            old(self).is_running,
        ensures
            *final(self) == (DialogueRunner { will_continue_in_next_update: true, ..*old(self) }),
    {
        self.will_continue_in_next_update = true;
    }

    /// Asks for the dialogue to advance on the next update, or fails when it is
    /// not running.
    pub fn try_continue_in_next_update(&mut self) -> (r: Result<(), RunnerError>)
        ensures
            old(self).is_running ==> r is Ok && *final(self) == (DialogueRunner {
                will_continue_in_next_update: true,
                ..*old(self)
            }),
            !old(self).is_running ==> r == Err::<(), RunnerError>(RunnerError::NotRunning)
                && *final(self) == *old(self),
    {
        if !self.is_running {
            return Err(RunnerError::NotRunning);
        }
        self.will_continue_in_next_update = true;
        Ok(())
    }

    /// Selects option `option` of those presented, and asks for the dialogue to
    /// advance on the next update. A refused selection changes nothing.
    pub fn select_option(&mut self, option: usize) -> (r: Result<(), RunnerError>)
        requires
            old(self).well_formed(),
        ensures
            final(self).well_formed(),
            !old(self).is_running ==> r == Err::<(), RunnerError>(RunnerError::NotRunning),
            old(self).is_running && old(self).dialogue.execution
                != ExecutionState::WaitingOnOptionSelection ==> r == Err::<(), RunnerError>(
                RunnerError::Dialogue(DialogueError::WrongState),
            ),
            old(self).is_running && old(self).dialogue.execution
                == ExecutionState::WaitingOnOptionSelection && option
                >= old(self).dialogue.options@.len() ==> r == Err::<(), RunnerError>(
                RunnerError::Dialogue(DialogueError::UnknownOption),
            ),
            old(self).is_running && old(self).dialogue.execution
                == ExecutionState::WaitingOnOptionSelection && option
                < old(self).dialogue.options@.len() ==> r is Ok,
            r is Err ==> *final(self) == *old(self),
            r is Ok ==> {
                &&& final(self).dialogue.pc == old(self).dialogue.options@[option as int].destination
                &&& final(self).dialogue.current == old(self).dialogue.current
                &&& final(self).dialogue.execution == ExecutionState::WaitingForContinue
                &&& final(self).dialogue.options@.len() == 0
                &&& final(self).will_continue_in_next_update
                &&& final(self).last_selected_option == Some(option)
                &&& final(self).is_running
            },
    {
        if !self.is_running {
            return Err(RunnerError::NotRunning);
        }
        match self.dialogue.set_selected_option(option) {
            Ok(()) => {},
            Err(e) => {
                return Err(RunnerError::Dialogue(e));
            },
        }
        self.last_selected_option = Some(option);
        self.continue_in_next_update();
        Ok(())
    }

    pub fn is_running(&self) -> (r: bool)
        ensures
            r == self.is_running,
    {
        self.is_running
    }

    /// Stops the dialogue: the offered options, the last selection and the
    /// outstanding command tasks are dropped. Returns the events of its completion.
    pub fn stop(&mut self) -> (events: Vec<DialogueEvent>)
        requires
            old(self).well_formed(),
        ensures
            final(self).well_formed(),
            !final(self).is_running,
            !final(self).will_continue_in_next_update,
            final(self).dialogue.execution == ExecutionState::Stopped,
            final(self).dialogue.current is None,
            final(self).dialogue.options@.len() == 0,
            final(self).dialogue.nodes@ == old(self).dialogue.nodes@,
            final(self).last_selected_option is None,
            final(self).command_tasks@.len() == 0,
            old(self).dialogue.execution == ExecutionState::Stopped ==> events@.len() == 0,
            old(self).dialogue.execution != ExecutionState::Stopped ==> events@ == seq![
                DialogueEvent::NodeComplete {
                    node: old(self).dialogue.nodes@[old(self).dialogue.current->0 as int].name,
                },
                DialogueEvent::DialogueComplete,
            ],
    {
        self.is_running = false;
        self.will_continue_in_next_update = false;
        self.last_selected_option = None;
        self.command_tasks = Vec::new();
        self.dialogue.stop()
    }

    /// Stops the dialogue and unloads its program.
    pub fn clear(&mut self)
        requires
            old(self).well_formed(),
        ensures
            final(self).well_formed(),
            !final(self).is_running,
            final(self).dialogue.nodes@.len() == 0,
            final(self).dialogue.execution == ExecutionState::Stopped,
    {
        self.is_running = false;
        self.dialogue.unload_all();
    }

    /// The node at which `start` begins.
    pub fn default_start_node_name() -> (r: String)
        ensures
            r@ == "Start"@,
    {
        "Start".to_owned()
    }

    /// Starts the dialogue at the node named `Start`.
    pub fn start(&mut self) -> (r: Result<Vec<DialogueEvent>, RunnerError>)
        requires
            old(self).well_formed(),
        ensures
            final(self).well_formed(),
            r is Err ==> *final(self) == *old(self),
            old(self).is_running ==> r == Err::<Vec<DialogueEvent>, RunnerError>(
                RunnerError::AlreadyRunning,
            ),
            !old(self).is_running && old(self).dialogue.execution != ExecutionState::Stopped ==> r
                == Err::<Vec<DialogueEvent>, RunnerError>(
                RunnerError::Dialogue(DialogueError::WrongState),
            ),
            !old(self).is_running && old(self).dialogue.execution == ExecutionState::Stopped ==> (
            match node_index(old(self).dialogue.nodes@, "Start"@) {
                Some(j) => started(*old(self), *final(self), r, j),
                None => r == Err::<Vec<DialogueEvent>, RunnerError>(
                    RunnerError::Dialogue(DialogueError::UnknownNode),
                ),
            }),
    {
        let name = Self::default_start_node_name();
        self.start_at_node(&name)
    }

    /// Starts the dialogue at the node named `node_name`: returns the start
    /// events, and asks for the dialogue to advance on the next update. A
    /// refused start changes nothing.
    pub fn start_at_node(&mut self, node_name: &String) -> (r: Result<
        Vec<DialogueEvent>,
        RunnerError,
    >)
        requires
            old(self).well_formed(),
        ensures
            final(self).well_formed(),
            r is Err ==> *final(self) == *old(self),
            old(self).is_running ==> r == Err::<Vec<DialogueEvent>, RunnerError>(
                RunnerError::AlreadyRunning,
            ),
            !old(self).is_running && old(self).dialogue.execution != ExecutionState::Stopped ==> r
                == Err::<Vec<DialogueEvent>, RunnerError>(
                RunnerError::Dialogue(DialogueError::WrongState),
            ),
            !old(self).is_running && old(self).dialogue.execution == ExecutionState::Stopped ==> (
            match node_index(old(self).dialogue.nodes@, node_name@) {
                Some(j) => started(*old(self), *final(self), r, j),
                None => r == Err::<Vec<DialogueEvent>, RunnerError>(
                    RunnerError::Dialogue(DialogueError::UnknownNode),
                ),
            }),
    {
        if self.is_running {
            return Err(RunnerError::AlreadyRunning);
        }
        let ghost before = *self;
        match self.dialogue.start_at(node_name) {
            Ok(events) => {
                proof {
                    crate::dialogue::lemma_node_index(before.dialogue.nodes@, node_name@);
                    let j = node_index(before.dialogue.nodes@, node_name@)->0;
                    assert(self.dialogue.view_state().options.len() == 0);
                    assert(self.dialogue.current == Some(j as usize));
                }
                self.is_running = true;
                self.just_started = true;
                self.will_continue_in_next_update = true;
                Ok(events)
            },
            Err(e) => Err(RunnerError::Dialogue(e)),
        }
    }
}

/// `after` is `before` started at node `j`, with `r` the start events.
pub open spec fn started(
    before: DialogueRunner,
    after: DialogueRunner,
    r: Result<Vec<DialogueEvent>, RunnerError>,
    j: int,
) -> bool {
    &&& r matches Ok(events) && events@ == seq![
        DialogueEvent::DialogueStart,
        DialogueEvent::NodeStart { node: before.dialogue.nodes@[j].name },
    ]
    &&& after.is_running
    &&& after.just_started
    &&& after.will_continue_in_next_update
    &&& after.dialogue.nodes@ == before.dialogue.nodes@
    &&& after.dialogue.current == Some(j as usize)
    &&& after.dialogue.pc == 0
    &&& after.dialogue.execution == ExecutionState::Running
    &&& after.dialogue.options@.len() == 0
}

} // verus!

verus! {

impl DialogueRunner {
    pub fn get_tags_for_node(&self, node_name: &String) -> (r: Option<Vec<String>>)
        ensures
            match node_index(self.dialogue.nodes@, node_name@) {
                Some(j) => r matches Some(t) && t@ == self.dialogue.nodes@[j].tags@,
                None => r is None,
            },
    {
        self.dialogue.get_tags_for_node(node_name)
    }

    pub fn node_exists(&self, node_name: &String) -> (r: bool)
        ensures
            r == node_index(self.dialogue.nodes@, node_name@) is Some,
    {
        self.dialogue.node_exists(node_name)
    }

    pub fn current_node(&self) -> (r: Option<String>)
        requires
            self.well_formed(),
        ensures
            match self.dialogue.current {
                Some(c) => r == Some(self.dialogue.nodes@[c as int].name),
                None => r is None,
            },
    {
        self.dialogue.current_node()
    }

    /// Whether the current line can be shown: the text provider has its text
    /// (`texts_available`) and every asset provider has its assets
    /// (`assets_available`, one flag per provider).
    pub fn are_lines_available(&self, texts_available: bool, assets_available: &Vec<bool>) -> (r:
        bool)
        ensures
            r == (texts_available && forall|i: int|
                0 <= i < assets_available@.len() ==> #[trigger] assets_available@[i]),
    {
        texts_available && Self::are_assets_available(assets_available)
    }

    fn are_assets_available(assets_available: &Vec<bool>) -> (r: bool)
        ensures
            r == forall|i: int| 0 <= i < assets_available@.len() ==> #[trigger] assets_available@[i],
    {
        let mut i: usize = 0;
        while i < assets_available.len()
            invariant
                i <= assets_available@.len(),
                forall|k: int| 0 <= k < i ==> #[trigger] assets_available@[k],
            decreases assets_available@.len() - i,
        {
            if !assets_available[i] {
                return false;
            }
            i += 1;
        }
        true
    }

    fn check_language(&self, language: &String) -> (r: Result<(), RunnerError>)
        ensures
            match self.localizations {
                None => r == Err::<(), RunnerError>(RunnerError::NoLocalizations),
                Some(l) => if l.base_language.language@ == language@
                    || l.translation_languages().contains(language@) {
                    r is Ok
                } else {
                    r == Err::<(), RunnerError>(RunnerError::UnsupportedLanguage)
                },
            },
    {
        match &self.localizations {
            None => Err(RunnerError::NoLocalizations),
            Some(l) => if l.supports_language(language) {
                Ok(())
            } else {
                Err(RunnerError::UnsupportedLanguage)
            },
        }
    }

    /// Sets the language of the text provider and of every asset provider.
    pub fn set_language(&mut self, language: &String) -> (r: Result<(), RunnerError>)
        requires
            old(self).well_formed(),
        ensures
            final(self).well_formed(),
            r is Err ==> *final(self) == *old(self),
            r is Ok ==> final(self).dialogue.language_code == Some(*language)
                && final(self).asset_languages@.len() == old(self).asset_languages@.len()
                && forall|i: int|
                0 <= i < final(self).asset_languages@.len() ==> #[trigger] final(self).asset_languages@[i]
                    == Some(*language),
            (r is Ok) == (match old(self).localizations {
                None => false,
                Some(l) => l.base_language.language@ == language@
                    || l.translation_languages().contains(language@),
            }),
    {
        match self.check_language(language) {
            Ok(()) => {},
            Err(e) => {
                return Err(e);
            },
        }
        let _ = self.set_text_language(language);
        self.set_asset_language(language)
    }

    /// Sets the language of the text provider.
    pub fn set_text_language(&mut self, language: &String) -> (r: Result<(), RunnerError>)
        requires
            old(self).well_formed(),
        ensures
            final(self).well_formed(),
            r is Err ==> *final(self) == *old(self),
            r is Ok ==> *final(self) == (DialogueRunner {
                dialogue: Dialogue { language_code: Some(*language), ..old(self).dialogue },
                ..*old(self)
            }),
            (r is Ok) == (match old(self).localizations {
                None => false,
                Some(l) => l.base_language.language@ == language@
                    || l.translation_languages().contains(language@),
            }),
    {
        match self.check_language(language) {
            Ok(()) => {},
            Err(e) => {
                return Err(e);
            },
        }
        self.dialogue.language_code = Some(language.clone());
        Ok(())
    }

    /// Sets the language of every asset provider.
    pub fn set_asset_language(&mut self, language: &String) -> (r: Result<(), RunnerError>)
        requires
            old(self).well_formed(),
        ensures
            final(self).well_formed(),
            r is Err ==> *final(self) == *old(self),
            r is Ok ==> final(self).dialogue == old(self).dialogue
                && final(self).asset_languages@.len() == old(self).asset_languages@.len()
                && forall|i: int|
                0 <= i < final(self).asset_languages@.len() ==> #[trigger] final(self).asset_languages@[i]
                    == Some(*language),
            (r is Ok) == (match old(self).localizations {
                None => false,
                Some(l) => l.base_language.language@ == language@
                    || l.translation_languages().contains(language@),
            }),
    {
        match self.check_language(language) {
            Ok(()) => {},
            Err(e) => {
                return Err(e);
            },
        }
        let n = self.asset_languages.len();
        let mut langs: Vec<Option<String>> = Vec::new();
        let mut i: usize = 0;
        while i < n
            invariant
                i <= n,
                langs@.len() == i,
                forall|k: int| 0 <= k < i ==> #[trigger] langs@[k] == Some(*language),
            decreases n - i,
        {
            langs.push(Some(language.clone()));
            i += 1;
        }
        self.asset_languages = langs;
        Ok(())
    }

    pub fn text_language(&self) -> (r: Option<String>)
        ensures
            r == self.dialogue.language_code,
    {
        match &self.dialogue.language_code {
            Some(l) => Some(l.clone()),
            None => None,
        }
    }

    /// The language that the asset providers share; `None` without providers.
    pub fn asset_language(&self) -> (r: Option<String>)
        requires
            self.well_formed(),
        ensures
            self.asset_languages@.len() == 0 ==> r is None,
            forall|i: int| 0 <= i < self.asset_languages@.len() ==> r == #[trigger] self.asset_languages@[i],
    {
        if self.asset_languages.len() == 0 {
            return None;
        }
        match &self.asset_languages[0] {
            Some(l) => Some(l.clone()),
            None => None,
        }
    }

    pub fn variable_storage(&self) -> (r: &MemoryVariableStorage)
        ensures
            *r == self.variables,
    {
        &self.variables
    }

    pub fn variable_storage_mut(&mut self) -> (r: &mut MemoryVariableStorage)
        ensures
            *r == old(self).variables,
            *final(self) == (DialogueRunner { variables: *final(r), ..*old(self) }),
    {
        &mut self.variables
    }

    /// The dialogue machine.
    pub fn inner(&self) -> (r: &Dialogue)
        ensures
            *r == self.dialogue,
    {
        &self.dialogue
    }

    /// The dialogue machine, for changes the runner does not make itself.
    pub fn inner_mut(&mut self) -> (r: &mut Dialogue)
        ensures
            *r == old(self).dialogue,
            *final(self) == (DialogueRunner { dialogue: *final(r), ..*old(self) }),
    {
        &mut self.dialogue
    }

    /// Keeps the task of a command that was started; the dialogue waits for it.
    pub fn add_command_task(&mut self, task: u64)
        ensures
            *final(self) == (DialogueRunner {
                command_tasks: final(self).command_tasks,
                ..*old(self)
            }),
            final(self).command_tasks@ == old(self).command_tasks@.push(task),
    {
        self.command_tasks.push(task);
    }

    /// Drops the tasks that have finished (`finished[i]` for task `i`), and
    /// tells whether none is left.
    pub fn poll_tasks_and_check_if_done(&mut self, finished: &Vec<bool>) -> (r: bool)
        requires
            finished@.len() == old(self).command_tasks@.len(),
        ensures
            *final(self) == (DialogueRunner {
                command_tasks: final(self).command_tasks,
                ..*old(self)
            }),
            final(self).command_tasks@ == unfinished(old(self).command_tasks@, finished@),
            r == (final(self).command_tasks@.len() == 0),
    {
        let mut kept: Vec<u64> = Vec::new();
        let mut i: usize = 0;
        while i < self.command_tasks.len()
            invariant
                i <= self.command_tasks@.len(),
                finished@.len() == self.command_tasks@.len(),
                kept@ == unfinished(
                    self.command_tasks@.subrange(0, i as int),
                    finished@.subrange(0, i as int),
                ),
            decreases self.command_tasks@.len() - i,
        {
            proof {
                assert(self.command_tasks@.subrange(0, i as int + 1).drop_last()
                    =~= self.command_tasks@.subrange(0, i as int));
                assert(finished@.subrange(0, i as int + 1).drop_last() =~= finished@.subrange(
                    0,
                    i as int,
                ));
            }
            if !finished[i] {
                kept.push(self.command_tasks[i]);
            }
            i += 1;
        }
        assert(self.command_tasks@.subrange(0, i as int) =~= self.command_tasks@);
        assert(finished@.subrange(0, i as int) =~= finished@);
        self.command_tasks = kept;
        self.command_tasks.len() == 0
    }
}

/// The tasks whose flag says they have not finished, in order.
pub open spec fn unfinished(tasks: Seq<u64>, finished: Seq<bool>) -> Seq<u64>
    decreases tasks.len(),
{
    if tasks.len() == 0 {
        seq![]
    } else {
        let rest = unfinished(tasks.drop_last(), finished.drop_last());
        if finished.last() {
            rest
        } else {
            rest.push(tasks.last())
        }
    }
}

} // verus!

verus! {

impl DialogueRunner {
    /// Whether an update would advance the machine.
    pub open spec fn ready_to_advance(&self) -> bool {
        &&& self.is_running
        &&& self.will_continue_in_next_update
        &&& self.command_tasks@.len() == 0
        &&& (self.dialogue.execution == ExecutionState::Running || self.dialogue.execution
            == ExecutionState::WaitingForContinue || self.dialogue.execution
            == ExecutionState::WaitingOnCommand)
    }

    /// One update of the host. Finished command tasks are dropped
    /// (`finished[i]` for task `i`); then, if the dialogue was asked to continue
    /// and no command task is left, the machine runs for at most `budget`
    /// instructions and its events are returned. A machine that stops ends the
    /// running dialogue.
    pub fn update(&mut self, finished: &Vec<bool>, budget: usize) -> (events: Vec<DialogueEvent>)
        requires
            old(self).well_formed(),
            finished@.len() == old(self).command_tasks@.len(),
        ensures
            final(self).well_formed(),
            final(self).command_tasks@ == unfinished(old(self).command_tasks@, finished@),
            final(self).dialogue.nodes@ == old(self).dialogue.nodes@,
            ({
                let polled = DialogueRunner {
                    command_tasks: final(self).command_tasks,
                    ..*old(self)
                };
                if polled.ready_to_advance() {
                    let (s, e) = run_spec(
                        old(self).dialogue.nodes@,
                        VmView {
                            execution: ExecutionState::Running,
                            ..old(self).dialogue.view_state()
                        },
                        budget as nat,
                    );
                    &&& events@ == e
                    &&& final(self).dialogue.view_state() == s
                    &&& !final(self).will_continue_in_next_update
                    &&& !final(self).just_started
                    &&& final(self).is_running == (s.execution != ExecutionState::Stopped)
                } else {
                    &&& events@.len() == 0
                    &&& *final(self) == polled
                }
            }),
    {
        let _ = self.poll_tasks_and_check_if_done(finished);
        let advance = self.is_running && self.will_continue_in_next_update
            && self.command_tasks.len() == 0 && (self.dialogue.execution
            == ExecutionState::Running || self.dialogue.execution
            == ExecutionState::WaitingForContinue || self.dialogue.execution
            == ExecutionState::WaitingOnCommand);
        if !advance {
            return Vec::new();
        }
        self.will_continue_in_next_update = false;
        self.just_started = false;
        let events = self.dialogue.continue_dialogue(budget);
        if self.dialogue.execution == ExecutionState::Stopped {
            self.is_running = false;
        }
        events
    }
}

} // verus!
