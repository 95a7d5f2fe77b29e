//! The dialogue virtual machine: it runs the instructions of a node until the
//! host must act (show a line, offer options, run a command), and reports what
//! happened as events.
use vstd::prelude::*;
use crate::text::strings_view;

verus! {

/// Where the machine stands between two calls from the host.
#[derive(PartialEq, Eq, Structural, Clone, Copy, Debug)]
pub enum ExecutionState {
    Stopped,
    Running,
    WaitingOnOptionSelection,
    WaitingForContinue,
    WaitingOnCommand,
}

/// One instruction of a compiled node. Destinations are instruction positions
/// within the same node.
#[derive(Debug)]
pub enum Instruction {
    RunLine { line_id: String },
    AddOption { line_id: String, destination: usize },
    ShowOptions,
    RunCommand { command: String },
    JumpTo { destination: usize },
    RunNode { node_name: String },
    Stop,
}

/// A compiled node: its name, its tags and its instructions.
#[derive(Debug)]
pub struct Node {
    pub name: String,
    pub tags: Vec<String>,
    pub instructions: Vec<Instruction>,
}

/// An option collected for the next choice: its line and where it leads.
#[derive(Debug)]
pub struct DialogueOption {
    pub line_id: String,
    pub destination: usize,
}

/// What the machine reports to the host.
#[derive(Debug)]
pub enum DialogueEvent {
    DialogueStart,
    NodeStart { node: String },
    PresentLine { line_id: String },
    PresentOptions,
    ExecuteCommand { command: String },
    NodeComplete { node: String },
    DialogueComplete,
}

/// Why a request to the machine was refused.
#[derive(PartialEq, Eq, Structural, Clone, Copy, Debug)]
pub enum DialogueError {
    /// No node has the requested name.
    UnknownNode,
    /// The machine is not in a state in which the request makes sense.
    WrongState,
    /// No option has the given index.
    UnknownOption,
}

/// The part of the machine that execution changes.
pub struct VmView {
    pub current: Option<int>,
    pub pc: int,
    pub execution: ExecutionState,
    pub options: Seq<(Seq<char>, int)>,
}

pub open spec fn options_view(v: Seq<DialogueOption>) -> Seq<(Seq<char>, int)> {
    v.map_values(|o: DialogueOption| (o.line_id@, o.destination as int))
}

/// The position of the first node named `name`, if any.
pub open spec fn node_index(nodes: Seq<Node>, name: Seq<char>) -> Option<int> {
    if exists|j: int| 0 <= j < nodes.len() && (#[trigger] nodes[j]).name@ == name {
        Some(
            choose|j: int|
                0 <= j < nodes.len() && (#[trigger] nodes[j]).name@ == name && forall|k: int|
                    0 <= k < j ==> (#[trigger] nodes[k]).name@ != name,
        )
    } else {
        None
    }
}

/// The state after one step of a running machine, and the events of that step.
pub open spec fn step_spec(nodes: Seq<Node>, s: VmView) -> (VmView, Seq<DialogueEvent>) {
    let cur = s.current->0;
    let node = nodes[cur];
    let stopped = VmView { current: None, pc: 0, execution: ExecutionState::Stopped, options: seq![] };
    let finish = seq![DialogueEvent::NodeComplete { node: node.name }, DialogueEvent::DialogueComplete];
    if s.pc >= node.instructions.len() {
        (stopped, finish)
    } else {
        match node.instructions[s.pc] {
            Instruction::RunLine { line_id } => (
                VmView { pc: s.pc + 1, execution: ExecutionState::WaitingForContinue, ..s },
                seq![DialogueEvent::PresentLine { line_id }],
            ),
            Instruction::AddOption { line_id, destination } => (
                VmView {
                    pc: s.pc + 1,
                    options: s.options.push((line_id@, destination as int)),
                    ..s
                },
                seq![],
            ),
            Instruction::ShowOptions => if s.options.len() == 0 {
                (VmView { pc: s.pc + 1, ..s }, seq![])
            } else {
                (
                    VmView {
                        pc: s.pc + 1,
                        execution: ExecutionState::WaitingOnOptionSelection,
                        ..s
                    },
                    seq![DialogueEvent::PresentOptions],
                )
            },
            Instruction::RunCommand { command } => (
                VmView { pc: s.pc + 1, execution: ExecutionState::WaitingOnCommand, ..s },
                seq![DialogueEvent::ExecuteCommand { command }],
            ),
            Instruction::JumpTo { destination } => (VmView { pc: destination as int, ..s }, seq![]),
            Instruction::RunNode { node_name } => match node_index(nodes, node_name@) {
                Some(j) => (
                    VmView { current: Some(j), pc: 0, execution: ExecutionState::Running, options: seq![] },
                    seq![
                        DialogueEvent::NodeComplete { node: node.name },
                        DialogueEvent::NodeStart { node: nodes[j].name },
                    ],
                ),
                None => (stopped, finish),
            },
            Instruction::Stop => (stopped, finish),
        }
    }
}

/// Up to `budget` steps from `s`, stopping as soon as the machine no longer runs.
pub open spec fn run_spec(nodes: Seq<Node>, s: VmView, budget: nat) -> (VmView, Seq<DialogueEvent>)
    decreases budget,
{
    if budget == 0 || s.execution != ExecutionState::Running {
        (s, seq![])
    } else {
        let (s1, e1) = step_spec(nodes, s);
        let (s2, e2) = run_spec(nodes, s1, (budget - 1) as nat);
        (s2, e1 + e2)
    }
}

/// The machine together with the program it runs.
#[derive(Debug)]
pub struct Dialogue {
    pub nodes: Vec<Node>,
    pub current: Option<usize>,
    pub pc: usize,
    pub execution: ExecutionState,
    pub options: Vec<DialogueOption>,
    pub language_code: Option<String>,
}

impl Dialogue {
    pub open spec fn view_state(&self) -> VmView {
        VmView {
            current: match self.current {
                Some(c) => Some(c as int),
                None => None,
            },
            pc: self.pc as int,
            execution: self.execution,
            options: options_view(self.options@),
        }
    }

    /// The current node exists while the machine is not stopped.
    pub open spec fn well_formed(&self) -> bool {
        &&& self.execution != ExecutionState::Stopped ==> self.current is Some
        &&& self.current matches Some(c) ==> c < self.nodes@.len()
    }
}

} // verus!

verus! {

impl Dialogue {
    /// A stopped machine over the given nodes.
    pub fn new(nodes: Vec<Node>) -> (r: Self)
        ensures
            r.well_formed(),
            r.nodes@ == nodes@,
            r.execution == ExecutionState::Stopped,
            r.current is None,
            r.language_code is None,
    {
        Dialogue {
            nodes,
            current: None,
            pc: 0,
            execution: ExecutionState::Stopped,
            options: Vec::new(),
            language_code: None,
        }
    }

    /// The position of the first node named `name`.
    pub fn find_node(&self, name: &String) -> (r: Option<usize>)
        ensures
            match r {
                Some(j) => node_index(self.nodes@, name@) == Some(j as int) && j < self.nodes@.len()
                    && self.nodes@[j as int].name@ == name@,
                None => node_index(self.nodes@, name@) is None,
            },
    {
        let mut i: usize = 0;
        while i < self.nodes.len()
            invariant
                i <= self.nodes@.len(),
                forall|k: int| 0 <= k < i ==> (#[trigger] self.nodes@[k]).name@ != name@,
            decreases self.nodes@.len() - i,
        {
            if self.nodes[i].name == *name {
                proof {
                    let nodes = self.nodes@;
                    assert(nodes[i as int].name@ == name@);
                    let j = choose|j: int|
                        0 <= j < nodes.len() && (#[trigger] nodes[j]).name@ == name@ && forall|k: int|
                            0 <= k < j ==> (#[trigger] nodes[k]).name@ != name@;
                    assert(j == i) by {
                        if j < i {
                        } else if j > i {
                            assert(nodes[i as int].name@ == name@);
                        }
                    }
                }
                return Some(i);
            }
            i += 1;
        }
        None
    }

    fn finish(&mut self, cur: usize) -> (events: Vec<DialogueEvent>)
        requires
            cur < old(self).nodes@.len(),
        ensures
            final(self).nodes@ == old(self).nodes@,
            final(self).language_code == old(self).language_code,
            final(self).options@.len() == 0,
            final(self).view_state() == (VmView {
                current: None,
                pc: 0,
                execution: ExecutionState::Stopped,
                options: seq![],
            }),
            events@ == seq![
                DialogueEvent::NodeComplete { node: old(self).nodes@[cur as int].name },
                DialogueEvent::DialogueComplete,
            ],
    {
        let name = self.nodes[cur].name.clone();
        self.current = None;
        self.pc = 0;
        self.execution = ExecutionState::Stopped;
        self.options = Vec::new();
        assert(options_view(self.options@) =~= seq![]);
        vec![DialogueEvent::NodeComplete { node: name }, DialogueEvent::DialogueComplete]
    }

    /// Runs one instruction of a running machine.
    #[verifier::rlimit(60)]
    pub fn step(&mut self) -> (events: Vec<DialogueEvent>)
        requires
            old(self).well_formed(),
            old(self).execution == ExecutionState::Running,
        ensures
            final(self).well_formed(),
            final(self).nodes@ == old(self).nodes@,
            final(self).language_code == old(self).language_code,
            (final(self).view_state(), events@) == step_spec(old(self).nodes@, old(self).view_state()),
    {
        let cur = match self.current {
            Some(c) => c,
            None => {
                return Vec::new();
            },
        };
        let ghost s = self.view_state();
        if self.pc >= self.nodes[cur].instructions.len() {
            return self.finish(cur);
        }
        let pc = self.pc;
        match &self.nodes[cur].instructions[pc] {
            Instruction::RunLine { line_id } => {
                let e = DialogueEvent::PresentLine { line_id: line_id.clone() };
                self.pc = pc + 1;
                self.execution = ExecutionState::WaitingForContinue;
                vec![e]
            },
            Instruction::AddOption { line_id, destination } => {
                let o = DialogueOption { line_id: line_id.clone(), destination: *destination };
                self.options.push(o);
                self.pc = pc + 1;
                assert(options_view(self.options@) =~= s.options.push(
                    (line_id@, *destination as int),
                ));
                Vec::new()
            },
            Instruction::ShowOptions => {
                self.pc = pc + 1;
                if self.options.len() == 0 {
                    Vec::new()
                } else {
                    self.execution = ExecutionState::WaitingOnOptionSelection;
                    vec![DialogueEvent::PresentOptions]
                }
            },
            Instruction::RunCommand { command } => {
                let e = DialogueEvent::ExecuteCommand { command: command.clone() };
                self.pc = pc + 1;
                self.execution = ExecutionState::WaitingOnCommand;
                vec![e]
            },
            Instruction::JumpTo { destination } => {
                self.pc = *destination;
                Vec::new()
            },
            Instruction::RunNode { node_name } => {
                let target = node_name.clone();
                match self.find_node(&target) {
                    Some(j) => {
                        let done = self.nodes[cur].name.clone();
                        let next = self.nodes[j].name.clone();
                        self.current = Some(j);
                        self.pc = 0;
                        self.options = Vec::new();
                        assert(options_view(self.options@) =~= seq![]);
                        vec![
                            DialogueEvent::NodeComplete { node: done },
                            DialogueEvent::NodeStart { node: next },
                        ]
                    },
                    None => self.finish(cur),
                }
            },
            Instruction::Stop => self.finish(cur),
        }
    }
}

} // verus!

verus! {

/// The machine state is one the program can be in: a running machine stands in
/// an existing node.
pub open spec fn view_wf(nodes: Seq<Node>, s: VmView) -> bool {
    &&& s.execution != ExecutionState::Stopped ==> s.current is Some
    &&& s.current matches Some(c) ==> 0 <= c < nodes.len()
}

pub open spec fn line_ids_of(instructions: Seq<Instruction>) -> Seq<Seq<char>>
    decreases instructions.len(),
{
    if instructions.len() == 0 {
        seq![]
    } else {
        let rest = line_ids_of(instructions.drop_last());
        match instructions.last() {
            Instruction::RunLine { line_id } => rest.push(line_id@),
            Instruction::AddOption { line_id, .. } => rest.push(line_id@),
            _ => rest,
        }
    }
}

fn clone_strings(v: &Vec<String>) -> (r: Vec<String>)
    ensures
        r@ == v@,
{
    let mut r: Vec<String> = Vec::new();
    let mut i: usize = 0;
    while i < v.len()
        invariant
            i <= v@.len(),
            r@ == v@.subrange(0, i as int),
        decreases v@.len() - i,
    {
        r.push(v[i].clone());
        i += 1;
        assert(r@ =~= v@.subrange(0, i as int));
    }
    assert(r@ =~= v@);
    r
}

proof fn lemma_first_named(nodes: Seq<Node>, name: Seq<char>, j: int)
    requires
        0 <= j < nodes.len(),
        nodes[j].name@ == name,
    ensures
        exists|i: int|
            0 <= i < nodes.len() && (#[trigger] nodes[i]).name@ == name && forall|k: int|
                0 <= k < i ==> (#[trigger] nodes[k]).name@ != name,
    decreases j,
{
    if exists|k: int| 0 <= k < j && (#[trigger] nodes[k]).name@ == name {
        let k = choose|k: int| 0 <= k < j && (#[trigger] nodes[k]).name@ == name;
        lemma_first_named(nodes, name, k);
    } else {
        assert(forall|k: int| 0 <= k < j ==> (#[trigger] nodes[k]).name@ != name);
    }
}

/// The node `node_index` finds exists and has the name.
pub proof fn lemma_node_index(nodes: Seq<Node>, name: Seq<char>)
    ensures
        node_index(nodes, name) matches Some(j) ==> 0 <= j < nodes.len() && nodes[j].name@ == name,
{
    if exists|j: int| 0 <= j < nodes.len() && (#[trigger] nodes[j]).name@ == name {
        let j = choose|j: int| 0 <= j < nodes.len() && (#[trigger] nodes[j]).name@ == name;
        lemma_first_named(nodes, name, j);
    }
}

proof fn lemma_step_wf(nodes: Seq<Node>, s: VmView)
    requires
        view_wf(nodes, s),
        s.execution == ExecutionState::Running,
    ensures
        view_wf(nodes, step_spec(nodes, s).0),
{
    let node = nodes[s.current->0];
    if s.pc < node.instructions.len() {
        match node.instructions[s.pc] {
            Instruction::RunNode { node_name } => {
                lemma_node_index(nodes, node_name@);
            },
            _ => {},
        }
    }
}

/// Within one continuation, events come in this shape: `DialogueComplete` is
/// the last event if it occurs; each `NodeComplete` is directly followed by the
/// next node's `NodeStart` or by `DialogueComplete`; and each `NodeStart`
/// directly follows the previous node's `NodeComplete`.
pub proof fn lemma_run_event_order(nodes: Seq<Node>, s: VmView, budget: nat)
    requires
        view_wf(nodes, s),
    ensures
        ({
            let e = run_spec(nodes, s, budget).1;
            &&& forall|k: int| 0 <= k < e.len() && (#[trigger] e[k]) is DialogueComplete ==> k == e.len() - 1
            &&& forall|k: int|
                0 <= k < e.len() && (#[trigger] e[k]) is NodeComplete ==> k + 1 < e.len() && (
                e[k + 1] is NodeStart || e[k + 1] is DialogueComplete)
            &&& forall|k: int|
                0 <= k < e.len() && (#[trigger] e[k]) is NodeStart ==> k > 0 && e[k - 1] is NodeComplete
        }),
    decreases budget,
{
    if budget > 0 && s.execution == ExecutionState::Running {
        let (s1, e1) = step_spec(nodes, s);
        lemma_step_wf(nodes, s);
        lemma_run_event_order(nodes, s1, (budget - 1) as nat);
        let e2 = run_spec(nodes, s1, (budget - 1) as nat).1;
        let e = e1 + e2;
        if s1.execution != ExecutionState::Running {
            assert(e2.len() == 0);
            assert(e =~= e1);
        } else {
            let node = nodes[s.current->0];
            assert(e1.len() == 0 || (e1.len() == 2 && e1[0] is NodeComplete && e1[1] is NodeStart));
            if e1.len() == 0 {
                assert(e =~= e2);
            } else {
                assert forall|k: int| 0 <= k < e.len() && (#[trigger] e[k]) is NodeStart implies k > 0
                    && e[k - 1] is NodeComplete by {
                    if k >= 2 {
                        assert(e[k] == e2[k - 2]);
                        if k - 2 > 0 {
                            assert(e[k - 1] == e2[k - 3]);
                        } else {
                            assert(e2[0] is NodeStart);
                            assert(false);
                        }
                    }
                }
                assert forall|k: int| 0 <= k < e.len() && (#[trigger] e[k]) is NodeComplete implies k + 1
                    < e.len() && (e[k + 1] is NodeStart || e[k + 1] is DialogueComplete) by {
                    if k >= 2 {
                        assert(e[k] == e2[k - 2]);
                        assert(e[k + 1] == e2[k - 1]);
                    }
                }
                assert forall|k: int| 0 <= k < e.len() && (#[trigger] e[k]) is DialogueComplete implies k
                    == e.len() - 1 by {
                    if k >= 2 {
                        assert(e[k] == e2[k - 2]);
                    }
                }
            }
        }
    }
}

} // verus!

verus! {

impl Dialogue {
    /// Resumes a machine that waits for the host to continue, or for its
    /// commands, and runs it for at most `budget` instructions.
    pub fn continue_dialogue(&mut self, budget: usize) -> (events: Vec<DialogueEvent>)
        requires
            old(self).well_formed(),
            old(self).execution == ExecutionState::Running || old(self).execution
                == ExecutionState::WaitingForContinue || old(self).execution
                == ExecutionState::WaitingOnCommand,
        ensures
            final(self).well_formed(),
            final(self).nodes@ == old(self).nodes@,
            final(self).language_code == old(self).language_code,
            (final(self).view_state(), events@) == run_spec(
                old(self).nodes@,
                VmView { execution: ExecutionState::Running, ..old(self).view_state() },
                budget as nat,
            ),
    {
        let ghost nodes = self.nodes@;
        self.execution = ExecutionState::Running;
        let ghost s0 = self.view_state();
        let mut events: Vec<DialogueEvent> = Vec::new();
        let mut left: usize = budget;
        while left > 0 && self.execution == ExecutionState::Running
            invariant
                self.well_formed(),
                self.nodes@ == nodes,
                self.language_code == old(self).language_code,
                run_spec(nodes, s0, budget as nat) == ({
                    let (s2, e2) = run_spec(nodes, self.view_state(), left as nat);
                    (s2, events@ + e2)
                }),
            decreases left,
        {
            let ghost before = events@;
            let ghost s_before = self.view_state();
            let mut step_events = self.step();
            let ghost stepped = step_events@;
            events.append(&mut step_events);
            left -= 1;
            proof {
                assert(events@ == before + stepped);
                let (s2, e2) = run_spec(nodes, self.view_state(), left as nat);
                assert(before + (stepped + e2) =~= (before + stepped) + e2);
            }
        }
        events
    }
}

} // verus!

verus! {

impl Dialogue {
    /// Starts a stopped machine at the node named `node_name`.
    pub fn start_at(&mut self, node_name: &String) -> (r: Result<Vec<DialogueEvent>, DialogueError>)
        requires
            old(self).well_formed(),
        ensures
            final(self).well_formed(),
            final(self).nodes@ == old(self).nodes@,
            final(self).language_code == old(self).language_code,
            old(self).execution != ExecutionState::Stopped ==> r == Err::<
                Vec<DialogueEvent>,
                DialogueError,
            >(DialogueError::WrongState) && *final(self) == *old(self),
            old(self).execution == ExecutionState::Stopped && node_index(
                old(self).nodes@,
                node_name@,
            ) is None ==> r == Err::<Vec<DialogueEvent>, DialogueError>(DialogueError::UnknownNode)
                && *final(self) == *old(self),
            old(self).execution == ExecutionState::Stopped ==> (match node_index(
                old(self).nodes@,
                node_name@,
            ) {
                Some(j) => r matches Ok(events) && events@ == seq![
                    DialogueEvent::DialogueStart,
                    DialogueEvent::NodeStart { node: old(self).nodes@[j].name },
                ] && final(self).view_state() == (VmView {
                    current: Some(j),
                    pc: 0,
                    execution: ExecutionState::Running,
                    options: seq![],
                }),
                None => true,
            }),
    {
        if self.execution != ExecutionState::Stopped {
            return Err(DialogueError::WrongState);
        }
        match self.find_node(node_name) {
            None => Err(DialogueError::UnknownNode),
            Some(j) => {
                let name = self.nodes[j].name.clone();
                self.current = Some(j);
                self.pc = 0;
                self.execution = ExecutionState::Running;
                self.options = Vec::new();
                assert(options_view(self.options@) =~= seq![]);
                Ok(vec![DialogueEvent::DialogueStart, DialogueEvent::NodeStart { node: name }])
            },
        }
    }

    /// Chooses option `index` of those offered: execution resumes at that
    /// option's destination, and the offered options are dropped.
    pub fn set_selected_option(&mut self, index: usize) -> (r: Result<(), DialogueError>)
        requires
            old(self).well_formed(),
        ensures
            final(self).well_formed(),
            final(self).nodes@ == old(self).nodes@,
            final(self).language_code == old(self).language_code,
            old(self).execution != ExecutionState::WaitingOnOptionSelection ==> r == Err::<
                (),
                DialogueError,
            >(DialogueError::WrongState) && *final(self) == *old(self),
            old(self).execution == ExecutionState::WaitingOnOptionSelection && index
                >= old(self).options@.len() ==> r == Err::<(), DialogueError>(
                DialogueError::UnknownOption,
            ) && *final(self) == *old(self),
            old(self).execution == ExecutionState::WaitingOnOptionSelection && index < old(
                self,
            ).options@.len() ==> r is Ok && final(self).pc == old(self).options@[index as int].destination
                && final(self).current == old(self).current && final(self).execution
                == ExecutionState::WaitingForContinue && final(self).options@.len() == 0,
    {
        if self.execution != ExecutionState::WaitingOnOptionSelection {
            return Err(DialogueError::WrongState);
        }
        if index >= self.options.len() {
            return Err(DialogueError::UnknownOption);
        }
        self.pc = self.options[index].destination;
        self.options = Vec::new();
        self.execution = ExecutionState::WaitingForContinue;
        Ok(())
    }

    /// Stops the machine. A machine that was not stopped completes its node and
    /// the dialogue.
    pub fn stop(&mut self) -> (events: Vec<DialogueEvent>)
        requires
            old(self).well_formed(),
        ensures
            final(self).well_formed(),
            final(self).nodes@ == old(self).nodes@,
            final(self).language_code == old(self).language_code,
            final(self).execution == ExecutionState::Stopped,
            final(self).current is None,
            final(self).options@.len() == 0,
            old(self).execution == ExecutionState::Stopped ==> events@.len() == 0,
            old(self).execution != ExecutionState::Stopped ==> events@ == seq![
                DialogueEvent::NodeComplete { node: old(self).nodes@[old(self).current->0 as int].name },
                DialogueEvent::DialogueComplete,
            ],
    {
        match self.current {
            Some(c) => {
                if self.execution != ExecutionState::Stopped {
                    return self.finish(c);
                }
            },
            None => {},
        }
        self.current = None;
        self.pc = 0;
        self.options = Vec::new();
        self.execution = ExecutionState::Stopped;
        Vec::new()
    }

    /// Stops the machine and drops its program.
    pub fn unload_all(&mut self)
        requires
            old(self).well_formed(),
        ensures
            final(self).well_formed(),
            final(self).nodes@.len() == 0,
            final(self).execution == ExecutionState::Stopped,
            final(self).language_code == old(self).language_code,
    {
        let _ = self.stop();
        self.nodes = Vec::new();
    }

    pub fn node_exists(&self, node_name: &String) -> (r: bool)
        ensures
            r == node_index(self.nodes@, node_name@) is Some,
    {
        self.find_node(node_name).is_some()
    }

    /// The tags of the node named `node_name`.
    pub fn get_tags_for_node(&self, node_name: &String) -> (r: Option<Vec<String>>)
        ensures
            match node_index(self.nodes@, node_name@) {
                Some(j) => r matches Some(t) && t@ == self.nodes@[j].tags@,
                None => r is None,
            },
    {
        match self.find_node(node_name) {
            Some(j) => Some(clone_strings(&self.nodes[j].tags)),
            None => None,
        }
    }

    /// The name of the node the machine stands in.
    pub fn current_node(&self) -> (r: Option<String>)
        requires
            self.well_formed(),
        ensures
            match self.current {
                Some(c) => r == Some(self.nodes@[c as int].name),
                None => r is None,
            },
    {
        match self.current {
            Some(c) => Some(self.nodes[c].name.clone()),
            None => None,
        }
    }

    /// The line identifiers that the node named `node_name` can present, in order.
    pub fn line_hints(&self, node_name: &String) -> (r: Option<Vec<String>>)
        ensures
            match node_index(self.nodes@, node_name@) {
                Some(j) => r matches Some(ids) && strings_view(ids@) == line_ids_of(
                    self.nodes@[j].instructions@,
                ),
                None => r is None,
            },
    {
        let j = match self.find_node(node_name) {
            Some(j) => j,
            None => {
                return None;
            },
        };
        let instructions = &self.nodes[j].instructions;
        let mut ids: Vec<String> = Vec::new();
        let mut i: usize = 0;
        while i < instructions.len()
            invariant
                i <= instructions@.len(),
                strings_view(ids@) == line_ids_of(instructions@.subrange(0, i as int)),
            decreases instructions@.len() - i,
        {
            proof {
                assert(instructions@.subrange(0, i as int + 1).drop_last() =~= instructions@.subrange(
                    0,
                    i as int,
                ));
            }
            let ghost before = strings_view(ids@);
            match &instructions[i] {
                Instruction::RunLine { line_id } => {
                    ids.push(line_id.clone());
                    assert(strings_view(ids@) =~= before.push(line_id@));
                },
                Instruction::AddOption { line_id, .. } => {
                    ids.push(line_id.clone());
                    assert(strings_view(ids@) =~= before.push(line_id@));
                },
                _ => {},
            }
            i += 1;
        }
        assert(instructions@.subrange(0, i as int) =~= instructions@);
        Some(ids)
    }
}

} // verus!
