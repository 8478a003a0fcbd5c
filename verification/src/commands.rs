//! The supervisor: the managed processes in configuration order, and the
//! operator's selection cursor over them.
//!
//! The supervisor decides and the host acts. A control operation changes the
//! supervisor's state and returns the [`Action`]s that the host has to
//! perform; the host reports what came of them, and what the processes
//! print, as [`Event`]s.

use vstd::prelude::*;
use crate::command::{
    lemma_log_is_append_only, next_run, step, Command, CommandView, Launch, LaunchView,
};
use crate::configuration::{Configuration, ConfigurationView};
use crate::selection::{
    cursor, lemma_next_traverses_all, next_selection, next_times, previous_selection,
    valid_selection,
};

verus! {

/// Something the host has to do for the supervisor.
#[derive(Debug, PartialEq, Eq)]
pub enum Action {
    /// Launch process `index` as the leader of a process group of its own,
    /// and capture what it prints.
    Spawn { index: usize, launch: Launch },
    /// Send the interrupt signal to process group `pid`, in which process
    /// `index` runs.
    Interrupt { index: usize, pid: i32 },
}

/// The mathematical value of an [`Action`].
pub enum ActionView {
    Spawn { index: int, launch: LaunchView },
    Interrupt { index: int, pid: i32 },
}

impl ActionView {
    /// An interrupt goes to a process group with a positive number: never to
    /// group 0, which would be the supervisor's own.
    pub open spec fn wf(self) -> bool {
        self matches ActionView::Interrupt { pid, .. } ==> pid > 0
    }
}

impl View for Action {
    type V = ActionView;

    open spec fn view(&self) -> ActionView {
        match *self {
            Action::Spawn { index, launch } => ActionView::Spawn {
                index: index as int,
                launch: launch@,
            },
            Action::Interrupt { index, pid } => ActionView::Interrupt { index: index as int, pid },
        }
    }
}

impl DeepView for Action {
    type V = ActionView;

    open spec fn deep_view(&self) -> ActionView {
        self@
    }
}

/// Something the host reports to the supervisor.
#[derive(Debug, PartialEq, Eq)]
pub enum Event {
    /// Run `run_id` of process `index` was launched and leads process group
    /// `pid`.
    Spawned { index: usize, run_id: u64, pid: i32 },
    /// Process `index` could not be launched.
    SpawnFailed { index: usize },
    /// Run `run_id` of process `index` printed the line `text`.
    Line { index: usize, run_id: u64, text: String },
    /// The output of run `run_id` of process `index` has ended.
    EndOfStream { index: usize, run_id: u64 },
}

/// The mathematical value of an [`Event`].
pub enum EventView {
    Spawned { index: int, run_id: u64, pid: i32 },
    SpawnFailed { index: int },
    Line { index: int, run_id: u64, text: Seq<char> },
    EndOfStream { index: int, run_id: u64 },
}

impl EventView {
    /// The process that the event is about.
    pub open spec fn index(self) -> int {
        match self {
            EventView::Spawned { index, .. } => index,
            EventView::SpawnFailed { index } => index,
            EventView::Line { index, .. } => index,
            EventView::EndOfStream { index, .. } => index,
        }
    }
}

impl View for Event {
    type V = EventView;

    open spec fn view(&self) -> EventView {
        match *self {
            Event::Spawned { index, run_id, pid } => EventView::Spawned {
                index: index as int,
                run_id,
                pid,
            },
            Event::SpawnFailed { index } => EventView::SpawnFailed { index: index as int },
            Event::Line { index, run_id, text } => EventView::Line {
                index: index as int,
                run_id,
                text: text@,
            },
            Event::EndOfStream { index, run_id } => EventView::EndOfStream {
                index: index as int,
                run_id,
            },
        }
    }
}

/// Why a control operation or a report was refused.
#[derive(Debug, Clone, Copy, PartialEq, Eq, Structural)]
pub enum ControlError {
    /// There is no process at the given index.
    InvalidIndex,
    /// The process could not be launched, or the host reported a process
    /// group that cannot be one.
    SpawnFailed,
}

/// The mathematical value of a [`Commands`].
pub struct CommandsView {
    /// The managed processes, in configuration order.
    pub commands: Seq<CommandView>,
    /// The selection cursor.
    pub selected: Option<int>,
}

impl CommandsView {
    /// The cursor, if present, points at a process.
    pub open spec fn wf(self) -> bool {
        valid_selection(self.selected, self.commands.len() as int)
    }

    /// The supervisor built from `configs`: every process never launched and
    /// nothing selected.
    pub open spec fn fresh(configs: Seq<ConfigurationView>) -> CommandsView {
        CommandsView {
            commands: Seq::new(configs.len(), |i: int| CommandView::fresh(configs[i])),
            selected: None,
        }
    }

    /// Whether there is a process at `index`.
    pub open spec fn in_range(self, index: int) -> bool {
        0 <= index < self.commands.len()
    }

    /// The display names, in configuration order.
    pub open spec fn names(self) -> Seq<Seq<char>> {
        Seq::new(self.commands.len(), |i: int| self.commands[i].name)
    }

    /// The log of the selected process, if one is selected.
    pub open spec fn selected_output(self) -> Option<Seq<Seq<char>>> {
        match self.selected {
            Some(i) => Some(self.commands[i].output),
            None => None,
        }
    }

    /// The cursor moves one step forward, circularly.
    pub open spec fn next(self) -> CommandsView {
        CommandsView {
            selected: next_selection(self.selected, self.commands.len() as int),
            ..self
        }
    }

    /// The cursor moves one step backward, circularly.
    pub open spec fn previous(self) -> CommandsView {
        CommandsView {
            selected: previous_selection(self.selected, self.commands.len() as int),
            ..self
        }
    }

    /// Whether `after` has the same processes, each of them a
    /// [`step`](crate::command::step) on from what it is here.
    pub open spec fn steps_to(self, after: CommandsView) -> bool {
        &&& after.commands.len() == self.commands.len()
        &&& forall|i: int|
            0 <= i < self.commands.len() ==> step(self.commands[i], #[trigger] after.commands[i])
    }

    /// The cursor moves `times` steps forward.
    pub open spec fn next_times(self, times: nat) -> CommandsView {
        CommandsView {
            selected: next_times(self.selected, self.commands.len() as int, times),
            ..self
        }
    }

    /// The cursor is taken away.
    pub open spec fn unselect(self) -> CommandsView {
        CommandsView { selected: None, ..self }
    }

    /// Process `index` is replaced by `process`; an index without a process
    /// changes nothing.
    pub open spec fn with_command(self, index: int, process: CommandView) -> CommandsView {
        if self.in_range(index) {
            CommandsView { commands: self.commands.update(index, process), ..self }
        } else {
            self
        }
    }

    /// A new run of process `index` begins.
    pub open spec fn run_one(self, index: int) -> CommandsView {
        self.with_command(index, self.commands[index].run())
    }

    /// Process `index` is told to stop.
    pub open spec fn kill_one(self, index: int) -> CommandsView {
        self.with_command(index, self.commands[index].kill())
    }

    /// Process `index` is told to stop, then a new run of it begins.
    pub open spec fn restart(self, index: int) -> CommandsView {
        self.kill_one(index).run_one(index)
    }

    /// A new run of every process begins.
    pub open spec fn run_all(self) -> CommandsView {
        CommandsView {
            commands: Seq::new(self.commands.len(), |i: int| self.commands[i].run()),
            ..self
        }
    }

    /// Every process is told to stop.
    pub open spec fn kill_all(self) -> CommandsView {
        CommandsView {
            commands: Seq::new(self.commands.len(), |i: int| self.commands[i].kill()),
            ..self
        }
    }

    /// The launch of the latest run of process `index`.
    pub open spec fn spawn(self, index: int) -> ActionView {
        ActionView::Spawn { index, launch: self.commands[index].launch() }
    }

    /// The launches of the latest runs of all processes, in configuration
    /// order.
    pub open spec fn spawns(self) -> Seq<ActionView> {
        Seq::new(self.commands.len(), |i: int| self.spawn(i))
    }

    /// The interrupt that stops process `index`: a signal to its process
    /// group where it is known to run, nothing where it is not.
    pub open spec fn interrupt(self, index: int) -> Option<ActionView> {
        match self.commands[index].child_pid {
            Some(pid) => Some(ActionView::Interrupt { index, pid }),
            None => None,
        }
    }

    /// The interrupts that stop the first `count` processes, in
    /// configuration order.
    pub open spec fn interrupts_up_to(self, count: int) -> Seq<ActionView>
        decreases count,
    {
        if count <= 0 {
            Seq::empty()
        } else {
            let before = self.interrupts_up_to(count - 1);
            match self.interrupt(count - 1) {
                Some(action) => before.push(action),
                None => before,
            }
        }
    }

    /// No process is known to run.
    pub open spec fn idle(self) -> bool {
        forall|i: int|
            0 <= i < self.commands.len() ==> (#[trigger] self.commands[i]).child_pid is None
    }

    /// The interrupts that stop all processes, in configuration order.
    pub open spec fn interrupts(self) -> Seq<ActionView> {
        self.interrupts_up_to(self.commands.len() as int)
    }

    /// What the host has to do to restart process `index`: interrupt it
    /// where it is known to run, then launch its new run.
    pub open spec fn restart_actions(self, index: int) -> Seq<ActionView> {
        let launch = self.restart(index).spawn(index);
        match self.interrupt(index) {
            Some(action) => seq![action, launch],
            None => seq![launch],
        }
    }

    /// Whether a report is taken in or refused, and why.
    pub open spec fn verdict(self, event: EventView) -> Result<(), ControlError> {
        if !self.in_range(event.index()) {
            Err(ControlError::InvalidIndex)
        } else {
            match event {
                EventView::Spawned { pid, .. } => if pid > 0 {
                    Ok(())
                } else {
                    Err(ControlError::SpawnFailed)
                },
                EventView::SpawnFailed { .. } => Err(ControlError::SpawnFailed),
                EventView::Line { .. } => Ok(()),
                EventView::EndOfStream { .. } => Ok(()),
            }
        }
    }

    /// The supervisor after a report. A report about a process that does not
    /// exist changes nothing, as does a report of a failed launch: the run it
    /// was for holds no process group.
    pub open spec fn handle(self, event: EventView) -> CommandsView {
        let process = self.commands[event.index()];
        match event {
            EventView::Spawned { index, run_id, pid } => self.with_command(
                index,
                process.spawned(run_id, pid),
            ),
            EventView::SpawnFailed { .. } => self,
            EventView::Line { index, run_id, text } => self.with_command(
                index,
                process.line(run_id, text),
            ),
            EventView::EndOfStream { index, run_id } => self.with_command(
                index,
                process.end_of_stream(run_id),
            ),
        }
    }
}

/// No control operation and no report moves the cursor off the processes.
pub proof fn lemma_steps_keep_wf(supervisor: CommandsView, index: int, event: EventView)
    requires
        supervisor.wf(),
    ensures
        supervisor.next().wf(),
        supervisor.previous().wf(),
        supervisor.unselect().wf(),
        supervisor.run_one(index).wf(),
        supervisor.kill_one(index).wf(),
        supervisor.restart(index).wf(),
        supervisor.run_all().wf(),
        supervisor.kill_all().wf(),
        supervisor.handle(event).wf(),
{
}

/// Without processes, stepping the cursor in either direction leaves nothing
/// selected.
pub proof fn lemma_nothing_to_select(supervisor: CommandsView)
    requires
        supervisor.commands.len() == 0,
    ensures
        supervisor.next().selected is None,
        supervisor.previous().selected is None,
{
}

/// Stepping forward `times` times is what [`CommandsView::next_times`] says.
pub proof fn lemma_next_times_unfolded(supervisor: CommandsView, times: nat)
    ensures
        supervisor.next_times(0) == supervisor,
        supervisor.next_times(times + 1) == supervisor.next_times(times).next(),
{
    assert(next_times(supervisor.selected, supervisor.commands.len() as int, times + 1)
        == next_selection(
        next_times(supervisor.selected, supervisor.commands.len() as int, times),
        supervisor.commands.len() as int,
    ));
}

/// A full circular traversal: with nothing selected over `len > 0`
/// processes, the first `len` steps forward select the processes
/// `0, 1, .., len - 1` in this order, each exactly once, and the step after
/// them selects process `0` again.
pub proof fn lemma_next_visits_every_process(supervisor: CommandsView)
    requires
        supervisor.commands.len() > 0,
        supervisor.selected is None,
    ensures
        forall|k: nat|
            1 <= k <= supervisor.commands.len() ==> (#[trigger] supervisor.next_times(k)).selected
                == Some(k - 1),
        supervisor.next_times(supervisor.commands.len() + 1).selected == Some(0int),
{
    lemma_next_traverses_all(supervisor.commands.len() as int);
}

/// Neither a control operation nor a report changes how many processes
/// there are or what a process is launched with, and the log of each process
/// is left alone, appended to by one line, or emptied by a new run.
pub proof fn lemma_processes_only_step(supervisor: CommandsView, index: int, event: EventView)
    ensures
        supervisor.steps_to(supervisor.next()),
        supervisor.steps_to(supervisor.previous()),
        supervisor.steps_to(supervisor.unselect()),
        supervisor.steps_to(supervisor.run_one(index)),
        supervisor.steps_to(supervisor.kill_one(index)),
        supervisor.steps_to(supervisor.restart(index)),
        supervisor.steps_to(supervisor.run_all()),
        supervisor.steps_to(supervisor.kill_all()),
        supervisor.steps_to(supervisor.handle(event)),
{
    assert forall|i: int| 0 <= i < supervisor.commands.len() implies {
        &&& step(supervisor.commands[i], supervisor.commands[i])
        &&& step(supervisor.commands[i], supervisor.commands[i].run())
        &&& step(supervisor.commands[i], supervisor.commands[i].kill())
        &&& step(supervisor.commands[i], supervisor.commands[i].kill().run())
    } by {
        lemma_log_is_append_only(supervisor.commands[i], 0, 0, Seq::empty());
    }
    if supervisor.in_range(event.index()) {
        let process = supervisor.commands[event.index()];
        match event {
            EventView::Spawned { run_id, pid, .. } => {
                lemma_log_is_append_only(process, run_id, pid, Seq::empty());
            },
            EventView::SpawnFailed { .. } => {},
            EventView::Line { run_id, text, .. } => {
                lemma_log_is_append_only(process, run_id, 0, text);
            },
            EventView::EndOfStream { run_id, .. } => {
                lemma_log_is_append_only(process, run_id, 0, Seq::empty());
            },
        }
    }
}

/// Running all processes begins exactly one new run of each: there is one
/// launch per process, the launch at position `i` is that of process `i`,
/// and it carries the executable followed by the arguments of that process.
pub proof fn lemma_run_all_launches_each_once(supervisor: CommandsView)
    ensures
        supervisor.run_all().spawns().len() == supervisor.commands.len(),
        forall|i: int|
            0 <= i < supervisor.commands.len() ==> #[trigger] supervisor.run_all().spawns()[i]
                == (ActionView::Spawn {
                index: i,
                launch: LaunchView {
                    run_id: next_run(supervisor.commands[i].run_id),
                    argv: seq![supervisor.commands[i].command] + supervisor.commands[i].arguments,
                },
            }),
        forall|i: int|
            0 <= i < supervisor.commands.len() ==> #[trigger] supervisor.run_all().commands[i]
                == supervisor.run_one(i).commands[i],
{
}

/// What is done to one process, or reported about it, leaves every other
/// process as it was.
pub proof fn lemma_processes_are_isolated(
    supervisor: CommandsView,
    index: int,
    other: int,
    event: EventView,
)
    requires
        supervisor.in_range(other),
        other != index,
        other != event.index(),
    ensures
        supervisor.run_one(index).commands[other] == supervisor.commands[other],
        supervisor.kill_one(index).commands[other] == supervisor.commands[other],
        supervisor.restart(index).commands[other] == supervisor.commands[other],
        supervisor.handle(event).commands[other] == supervisor.commands[other],
{
}

/// After a restart the log of the process is empty, and a line that the run
/// before the restart printed, reported late, does not enter it.
pub proof fn lemma_restart_forgets_earlier_output(
    supervisor: CommandsView,
    index: int,
    text: Seq<char>,
)
    requires
        supervisor.in_range(index),
    ensures
        supervisor.restart(index).commands[index].output == Seq::<Seq<char>>::empty(),
        supervisor.restart(index).handle(
            EventView::Line { index, run_id: supervisor.commands[index].run_id, text },
        ) == supervisor.restart(index),
{
    let after = supervisor.restart(index);
    let late = EventView::Line { index, run_id: supervisor.commands[index].run_id, text };
    assert(after.handle(late).commands =~= after.commands);
}

/// The interrupts of the first `count` processes are empty where none of
/// them is known to run.
proof fn lemma_no_interrupts_without_groups(supervisor: CommandsView, count: int)
    requires
        count <= supervisor.commands.len(),
        forall|i: int| 0 <= i < count ==> (#[trigger] supervisor.commands[i]).child_pid is None,
    ensures
        supervisor.interrupts_up_to(count) == Seq::<ActionView>::empty(),
    decreases count,
{
    if count > 0 {
        lemma_no_interrupts_without_groups(supervisor, count - 1);
        assert(supervisor.commands[count - 1].child_pid is None);
        assert(supervisor.interrupt(count - 1) is None);
    }
}

/// Stopping all processes a second time changes nothing and interrupts
/// nothing.
pub proof fn lemma_kill_all_twice(supervisor: CommandsView)
    ensures
        supervisor.kill_all().idle(),
        supervisor.kill_all().kill_all() == supervisor.kill_all(),
        supervisor.kill_all().interrupts() == Seq::<ActionView>::empty(),
{
    let once = supervisor.kill_all();
    assert(once.kill_all().commands =~= once.commands);
    lemma_no_interrupts_without_groups(once, once.commands.len() as int);
}

/// The supervisor.
#[derive(Debug)]
pub struct Commands {
    state: Option<usize>,
    commands: Vec<Command>,
}

impl View for Commands {
    type V = CommandsView;

    closed spec fn view(&self) -> CommandsView {
        CommandsView { commands: self.commands.deep_view(), selected: cursor(self.state) }
    }
}

impl Commands {
    #[verifier::type_invariant]
    spec fn inv(self) -> bool {
        self.state matches Some(i) ==> i < self.commands.len()
    }

    /// The supervisor of the processes that `configs` describes, in this
    /// order. No process is launched yet and nothing is selected.
    pub fn new(configs: Vec<Configuration>) -> (supervisor: Commands)
        ensures
            supervisor@ == CommandsView::fresh(configs.deep_view()),
            supervisor@.wf(),
    {
        let mut commands: Vec<Command> = Vec::new();
        let mut i: usize = 0;
        while i < configs.len()
            invariant
                i <= configs.len(),
                commands.len() == i,
                forall|k: int|
                    0 <= k < i ==> (#[trigger] commands[k])@ == CommandView::fresh(configs[k]@),
            decreases configs.len() - i,
        {
            commands.push(Command::new(&configs[i]));
            i += 1;
        }
        let supervisor = Commands { state: None, commands };
        assert(supervisor@.commands =~= CommandsView::fresh(configs.deep_view()).commands);
        supervisor
    }

    /// Moves the selection one step forward: onto the first process when
    /// nothing is selected, and from the last process back to the first.
    /// Without processes there is nothing to select, and nothing happens.
    pub fn next(&mut self)
        ensures
            final(self)@ == old(self)@.next(),
            final(self)@.wf(),
            old(self)@.commands.len() == 0 ==> final(self)@.selected is None,
            old(self)@.commands.len() > 0 && old(self)@.selected is None
                ==> final(self)@.selected == Some(0int),
            old(self)@.selected == Some(old(self)@.commands.len() - 1)
                ==> final(self)@.selected == Some(0int),
            old(self)@.selected matches Some(i) ==> i < old(self)@.commands.len() - 1
                ==> final(self)@.selected == Some(i + 1),
    {
        proof {
            use_type_invariant(&*self);
            if self.commands.len() > 0 {
                crate::selection::lemma_next_unfolded(
                    cursor(self.state),
                    self.commands.len() as int,
                );
            }
        }
        let len: usize = self.commands.len();
        if len == 0 {
            self.state = None;
        } else {
            let i: usize = match self.state {
                Some(i) => {
                    if i >= len - 1 {
                        0
                    } else {
                        i + 1
                    }
                },
                None => 0,
            };
            self.state = Some(i);
        }
    }

    /// Moves the selection one step backward: onto the last process when
    /// nothing is selected, and from the first process on to the last.
    /// Without processes there is nothing to select, and nothing happens.
    pub fn previous(&mut self)
        ensures
            final(self)@ == old(self)@.previous(),
            final(self)@.wf(),
            old(self)@.commands.len() == 0 ==> final(self)@.selected is None,
            old(self)@.commands.len() > 0 && old(self)@.selected is None
                ==> final(self)@.selected == Some(old(self)@.commands.len() - 1),
            old(self)@.selected == Some(0int) ==> final(self)@.selected == Some(
                old(self)@.commands.len() - 1,
            ),
            old(self)@.selected matches Some(i) ==> i > 0 ==> final(self)@.selected == Some(i - 1),
    {
        proof {
            use_type_invariant(&*self);
            if self.commands.len() > 0 {
                crate::selection::lemma_previous_unfolded(
                    cursor(self.state),
                    self.commands.len() as int,
                );
            }
        }
        let len: usize = self.commands.len();
        if len == 0 {
            self.state = None;
        } else {
            let i: usize = match self.state {
                Some(i) => {
                    if i == 0 {
                        len - 1
                    } else {
                        i - 1
                    }
                },
                None => len - 1,
            };
            self.state = Some(i);
        }
    }

    /// Begins a new run of every process, in configuration order, and
    /// returns one launch for each. What becomes of one launch has no effect
    /// on another.
    pub fn run(&mut self) -> (actions: Vec<Action>)
        ensures
            final(self)@ == old(self)@.run_all(),
            final(self)@.wf(),
            actions.deep_view() == final(self)@.spawns(),
            actions.len() == old(self)@.commands.len(),
            forall|i: int|
                0 <= i < actions.len() ==> (#[trigger] actions[i])@ == final(self)@.spawn(i),
    {
        let mut actions: Vec<Action> = Vec::new();
        let mut i: usize = 0;
        while i < self.commands.len()
            invariant
                i <= self.commands.len(),
                self.commands.len() == old(self).commands.len(),
                self.state == old(self).state,
                actions.len() == i,
                forall|k: int|
                    0 <= k < i
                        ==> (#[trigger] self.commands[k])@ == old(self).commands[k]@.run(),
                forall|k: int|
                    i <= k < self.commands.len()
                        ==> (#[trigger] self.commands[k])@ == old(self).commands[k]@,
                forall|k: int|
                    0 <= k < i ==> (#[trigger] actions[k])@ == (ActionView::Spawn {
                        index: k,
                        launch: old(self).commands[k]@.run().launch(),
                    }),
            decreases self.commands.len() - i,
        {
            proof {
                use_type_invariant(&*self);
            }
            let launch = self.commands[i].run();
            actions.push(Action::Spawn { index: i, launch });
            i += 1;
        }
        proof {
            use_type_invariant(&*self);
            assert(self@.commands =~= old(self)@.run_all().commands);
            assert(actions.deep_view() =~= self@.spawns());
        }
        actions
    }

    /// Tells every process to stop, and returns one interrupt for each
    /// process that is known to run, in configuration order. A process that
    /// was never launched, was stopped before or has ended is passed over.
    pub fn kill(&mut self) -> (actions: Vec<Action>)
        ensures
            final(self)@ == old(self)@.kill_all(),
            final(self)@.wf(),
            actions.deep_view() == old(self)@.interrupts(),
            forall|k: int| 0 <= k < actions.len() ==> (#[trigger] actions[k])@.wf(),
            old(self)@.idle() ==> actions.len() == 0,
            final(self)@.idle(),
    {
        let mut actions: Vec<Action> = Vec::new();
        let mut i: usize = 0;
        while i < self.commands.len()
            invariant
                i <= self.commands.len(),
                self.commands.len() == old(self).commands.len(),
                self.state == old(self).state,
                forall|k: int|
                    0 <= k < i
                        ==> (#[trigger] self.commands[k])@ == old(self).commands[k]@.kill(),
                forall|k: int|
                    i <= k < self.commands.len()
                        ==> (#[trigger] self.commands[k])@ == old(self).commands[k]@,
                actions.deep_view() == old(self)@.interrupts_up_to(i as int),
                forall|k: int| 0 <= k < actions.len() ==> (#[trigger] actions[k])@.wf(),
            decreases self.commands.len() - i,
        {
            proof {
                use_type_invariant(&*self);
            }
            let ghost before = actions.deep_view();
            match self.commands[i].kill() {
                Some(pid) => {
                    actions.push(Action::Interrupt { index: i, pid });
                    assert(actions.deep_view() =~= before.push(
                        old(self)@.interrupt(i as int).unwrap(),
                    ));
                },
                None => {},
            }
            i += 1;
        }
        proof {
            use_type_invariant(&*self);
            assert(self@.commands =~= old(self)@.kill_all().commands);
            if old(self)@.idle() {
                lemma_no_interrupts_without_groups(old(self)@, self.commands.len() as int);
            }
        }
        actions
    }

    /// Begins a new run of process `index` and returns its launch.
    pub fn run_one(&mut self, index: usize) -> (result: Result<Action, ControlError>)
        ensures
            final(self)@ == old(self)@.run_one(index as int),
            final(self)@.wf(),
            result is Ok <==> old(self)@.in_range(index as int),
            result is Ok ==> result->Ok_0@ == final(self)@.spawn(index as int),
            result is Err ==> result->Err_0 == ControlError::InvalidIndex,
    {
        proof {
            use_type_invariant(&*self);
        }
        if index >= self.commands.len() {
            return Err(ControlError::InvalidIndex);
        }
        let launch = self.commands[index].run();
        proof {
            assert(self@.commands =~= old(self)@.run_one(index as int).commands);
        }
        Ok(Action::Spawn { index, launch })
    }

    /// Tells process `index` to stop. Returns the interrupt for its process
    /// group where the process is known to run, and `None` where it is not:
    /// stopping what does not run is no error.
    pub fn kill_one(&mut self, index: usize) -> (result: Result<Option<Action>, ControlError>)
        ensures
            final(self)@ == old(self)@.kill_one(index as int),
            final(self)@.wf(),
            result is Ok <==> old(self)@.in_range(index as int),
            result is Ok ==> result->Ok_0.deep_view() == old(self)@.interrupt(index as int),
            result matches Ok(Some(action)) ==> action@.wf(),
            result is Err ==> result->Err_0 == ControlError::InvalidIndex,
    {
        proof {
            use_type_invariant(&*self);
        }
        if index >= self.commands.len() {
            return Err(ControlError::InvalidIndex);
        }
        let signalled = self.commands[index].kill();
        proof {
            assert(self@.commands =~= old(self)@.kill_one(index as int).commands);
        }
        match signalled {
            Some(pid) => Ok(Some(Action::Interrupt { index, pid })),
            None => Ok(None),
        }
    }

    /// Tells process `index` to stop, then begins a new run of it. Returns
    /// the interrupt for the process group it ran in, if it was known to
    /// run, followed by the launch of the new run.
    ///
    /// The log of the process is empty afterwards, and only lines of the new
    /// run will enter it.
    pub fn restart(&mut self, index: usize) -> (result: Result<Vec<Action>, ControlError>)
        ensures
            final(self)@ == old(self)@.restart(index as int),
            final(self)@.wf(),
            result is Ok <==> old(self)@.in_range(index as int),
            result is Ok ==> result->Ok_0.deep_view() == old(self)@.restart_actions(index as int),
            result is Ok ==> forall|k: int|
                0 <= k < result->Ok_0.len() ==> (#[trigger] result->Ok_0[k])@.wf(),
            result is Ok ==> final(self)@.commands[index as int].output == Seq::<
                Seq<char>,
            >::empty(),
            result is Ok ==> final(self)@.commands[index as int].run_id
                != old(self)@.commands[index as int].run_id,
            result is Err ==> result->Err_0 == ControlError::InvalidIndex,
    {
        proof {
            use_type_invariant(&*self);
        }
        if index >= self.commands.len() {
            return Err(ControlError::InvalidIndex);
        }
        let mut actions: Vec<Action> = Vec::new();
        let (signalled, launch) = self.commands[index].restart();
        match signalled {
            Some(pid) => {
                actions.push(Action::Interrupt { index, pid });
            },
            None => {},
        }
        actions.push(Action::Spawn { index, launch });
        proof {
            assert(self@.commands =~= old(self)@.restart(index as int).commands);
            assert(actions.deep_view() =~= old(self)@.restart_actions(index as int));
        }
        Ok(actions)
    }

    /// Takes in a report of the host.
    ///
    /// A report about a process that does not exist is refused with
    /// [`ControlError::InvalidIndex`]. A failed launch, and a launch into a
    /// process group whose number is not positive, is answered with
    /// [`ControlError::SpawnFailed`]; it touches no other process. A report
    /// that names an earlier run than the latest of its process is taken in
    /// and has no effect.
    pub fn handle(&mut self, event: Event) -> (result: Result<(), ControlError>)
        ensures
            final(self)@ == old(self)@.handle(event@),
            final(self)@.wf(),
            result == old(self)@.verdict(event@),
            result is Err ==> final(self)@ == old(self)@,
    {
        proof {
            use_type_invariant(&*self);
        }
        match event {
            Event::Spawned { index, run_id, pid } => {
                if index >= self.commands.len() {
                    return Err(ControlError::InvalidIndex);
                }
                self.commands[index].on_spawned(run_id, pid);
                proof {
                    assert(self@.commands =~= old(self)@.handle(event@).commands);
                }
                if pid > 0 {
                    Ok(())
                } else {
                    assert(self@.commands =~= old(self)@.commands);
                    Err(ControlError::SpawnFailed)
                }
            },
            Event::SpawnFailed { index } => {
                if index >= self.commands.len() {
                    return Err(ControlError::InvalidIndex);
                }
                Err(ControlError::SpawnFailed)
            },
            Event::Line { index, run_id, text } => {
                if index >= self.commands.len() {
                    return Err(ControlError::InvalidIndex);
                }
                self.commands[index].on_line(run_id, text);
                proof {
                    assert(self@.commands =~= old(self)@.handle(event@).commands);
                }
                Ok(())
            },
            Event::EndOfStream { index, run_id } => {
                if index >= self.commands.len() {
                    return Err(ControlError::InvalidIndex);
                }
                self.commands[index].on_end_of_stream(run_id);
                proof {
                    assert(self@.commands =~= old(self)@.handle(event@).commands);
                }
                Ok(())
            },
        }
    }

    /// Takes the selection away.
    pub fn unselect(&mut self)
        ensures
            final(self)@ == old(self)@.unselect(),
            final(self)@.wf(),
    {
        proof {
            use_type_invariant(&*self);
        }
        self.state = None;
    }

    /// The number of managed processes.
    pub fn len(&self) -> (len: usize)
        ensures
            len == self@.commands.len(),
    {
        self.commands.len()
    }

    /// The position of the selected process, if one is selected.
    pub fn selected(&self) -> (selected: Option<usize>)
        ensures
            cursor(selected) == self@.selected,
            self@.wf(),
    {
        proof {
            use_type_invariant(self);
        }
        self.state
    }

    /// The managed processes, in configuration order.
    pub fn commands(&self) -> (commands: &Vec<Command>)
        ensures
            commands.deep_view() == self@.commands,
    {
        &self.commands
    }

    /// The display names of the processes, in configuration order.
    pub fn items(&self) -> (items: Vec<String>)
        ensures
            items.deep_view() == self@.names(),
    {
        let mut items: Vec<String> = Vec::new();
        let mut i: usize = 0;
        while i < self.commands.len()
            invariant
                i <= self.commands.len(),
                items.len() == i,
                forall|k: int| 0 <= k < i ==> (#[trigger] items[k])@ == self.commands[k]@.name,
            decreases self.commands.len() - i,
        {
            items.push(self.commands[i].name().to_string());
            i += 1;
        }
        assert(items.deep_view() =~= self@.names());
        items
    }

    /// The log of the selected process: the lines captured from its latest
    /// run, oldest first. `None` where nothing is selected.
    pub fn selected_output(&self) -> (output: Option<&Vec<String>>)
        ensures
            output.deep_view() == self@.selected_output(),
    {
        proof {
            use_type_invariant(self);
        }
        match self.state {
            Some(i) => Some(self.commands[i].output()),
            None => None,
        }
    }
}

} // verus!
