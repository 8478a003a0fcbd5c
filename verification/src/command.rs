//! One managed process: what it is launched with, the process group that
//! stands for it while it runs, and the log of what it printed.
//!
//! Each launch of a process is a *run* and has a number. What the outside
//! world reports about a process (that it started, a captured line, the end
//! of its output) names the run it belongs to, and only reports about the
//! latest run are taken in. A reader left over from an earlier run can
//! therefore never write into the log of the run that replaced it.

use vstd::prelude::*;
use crate::configuration::{copy_strings, Configuration, ConfigurationView};

verus! {

/// What the host needs to launch one run of a process.
#[derive(Debug, PartialEq, Eq)]
pub struct Launch {
    /// The number of the run. Reports about the launched process carry it.
    pub run_id: u64,
    /// The executable, followed by its arguments.
    pub argv: Vec<String>,
}

/// The mathematical value of a [`Launch`].
pub struct LaunchView {
    pub run_id: u64,
    pub argv: Seq<Seq<char>>,
}

impl View for Launch {
    type V = LaunchView;

    open spec fn view(&self) -> LaunchView {
        LaunchView { run_id: self.run_id, argv: self.argv.deep_view() }
    }
}

impl DeepView for Launch {
    type V = LaunchView;

    open spec fn deep_view(&self) -> LaunchView {
        self@
    }
}

/// The number of the run after run `run_id`. Numbers wrap around.
pub open spec fn next_run(run_id: u64) -> u64 {
    if run_id == u64::MAX {
        0
    } else {
        (run_id + 1) as u64
    }
}

/// The mathematical value of a [`Command`].
pub struct CommandView {
    /// The display name.
    pub name: Seq<char>,
    /// The executable.
    pub command: Seq<char>,
    /// The arguments handed to the executable.
    pub arguments: Seq<Seq<char>>,
    /// The process group of the running process, if one is known to run.
    pub child_pid: Option<i32>,
    /// The number of the latest run.
    pub run_id: u64,
    /// The lines captured from the latest run, oldest first.
    pub output: Seq<Seq<char>>,
}

impl CommandView {
    /// A process group that can be signalled has a positive number. Group 0
    /// would be the supervisor's own.
    pub open spec fn wf(self) -> bool {
        self.child_pid matches Some(pid) ==> pid > 0
    }

    /// The process described by `config`, never launched.
    pub open spec fn fresh(config: ConfigurationView) -> CommandView {
        CommandView {
            name: config.name,
            command: config.command,
            arguments: config.arguments,
            child_pid: None,
            run_id: 0,
            output: Seq::empty(),
        }
    }

    /// What the host launches for the latest run.
    pub open spec fn launch(self) -> LaunchView {
        LaunchView { run_id: self.run_id, argv: seq![self.command] + self.arguments }
    }

    /// A new run begins: the log is emptied and no process group is known
    /// until the host reports one.
    pub open spec fn run(self) -> CommandView {
        CommandView {
            child_pid: None,
            run_id: next_run(self.run_id),
            output: Seq::empty(),
            ..self
        }
    }

    /// The process is told to stop: its process group is given up.
    pub open spec fn kill(self) -> CommandView {
        CommandView { child_pid: None, ..self }
    }

    /// Whether a report that run `run_id` started as process group `pid` is
    /// taken in.
    pub open spec fn accepts_start(self, run_id: u64, pid: i32) -> bool {
        run_id == self.run_id && pid > 0
    }

    /// The host reports that run `run_id` started as process group `pid`.
    pub open spec fn spawned(self, run_id: u64, pid: i32) -> CommandView {
        if self.accepts_start(run_id, pid) {
            CommandView { child_pid: Some(pid), ..self }
        } else {
            self
        }
    }

    /// The host reports a line that run `run_id` printed.
    pub open spec fn line(self, run_id: u64, text: Seq<char>) -> CommandView {
        if run_id == self.run_id {
            CommandView { output: self.output.push(text), ..self }
        } else {
            self
        }
    }

    /// The host reports, one after the other, lines that run `run_id` printed.
    pub open spec fn lines(self, run_id: u64, texts: Seq<Seq<char>>) -> CommandView
        decreases texts.len(),
    {
        if texts.len() == 0 {
            self
        } else {
            self.lines(run_id, texts.drop_last()).line(run_id, texts.last())
        }
    }

    /// The host reports that the output of run `run_id` has ended.
    pub open spec fn end_of_stream(self, run_id: u64) -> CommandView {
        if run_id == self.run_id {
            CommandView { child_pid: None, ..self }
        } else {
            self
        }
    }
}

/// Every step of a process keeps its process group, where it holds one,
/// positive.
pub proof fn lemma_steps_keep_wf(process: CommandView, run_id: u64, pid: i32, text: Seq<char>)
    requires
        process.wf(),
    ensures
        process.run().wf(),
        process.kill().wf(),
        process.spawned(run_id, pid).wf(),
        process.line(run_id, text).wf(),
        process.end_of_stream(run_id).wf(),
{
}

/// How a process may differ from what it was one step before: it is launched
/// with what it always was launched with, and its log is unchanged, or has
/// gained one line at its end, or is empty because a new run began.
pub open spec fn step(before: CommandView, after: CommandView) -> bool {
    &&& after.name == before.name
    &&& after.command == before.command
    &&& after.arguments == before.arguments
    &&& {
        ||| after.run_id == before.run_id && after.output == before.output
        ||| after.run_id == before.run_id && after.output.len() > 0 && after.output.drop_last()
            == before.output
        ||| after.run_id == next_run(before.run_id) && after.output.len() == 0
    }
}

/// The log of a process is only ever appended to, one line at a time, until
/// a new run empties it; and nothing changes what a process is launched with.
pub proof fn lemma_log_is_append_only(process: CommandView, run_id: u64, pid: i32, text: Seq<char>)
    ensures
        step(process, process.run()),
        step(process, process.kill()),
        step(process, process.spawned(run_id, pid)),
        step(process, process.line(run_id, text)),
        step(process, process.end_of_stream(run_id)),
{
    assert(process.output.push(text).drop_last() =~= process.output);
}

/// Lines of the latest run enter the log in the order in which they are
/// reported, behind what the log held, and touch nothing else.
pub proof fn lemma_lines_keep_their_order(process: CommandView, texts: Seq<Seq<char>>)
    ensures
        process.lines(process.run_id, texts) == (CommandView {
            output: process.output + texts,
            ..process
        }),
    decreases texts.len(),
{
    if texts.len() == 0 {
        assert(process.output + texts =~= process.output);
    } else {
        lemma_lines_keep_their_order(process, texts.drop_last());
        assert((process.output + texts.drop_last()).push(texts.last()) =~= process.output + texts);
    }
}

/// A report that names another run than the latest changes nothing.
pub proof fn lemma_other_runs_are_dropped(
    process: CommandView,
    run_id: u64,
    pid: i32,
    text: Seq<char>,
)
    requires
        run_id != process.run_id,
    ensures
        process.spawned(run_id, pid) == process,
        process.line(run_id, text) == process,
        process.end_of_stream(run_id) == process,
{
}

/// A new run starts with an empty log under a number of its own, so that a
/// line which the run before it printed, reported late, stays out.
pub proof fn lemma_run_forgets_the_run_before(process: CommandView, text: Seq<char>)
    ensures
        process.run().output == Seq::<Seq<char>>::empty(),
        process.run().run_id != process.run_id,
        process.run().line(process.run_id, text) == process.run(),
{
}

/// Telling a process to stop leaves its log as it is and open: a line that
/// the stopped run still prints is taken in.
pub proof fn lemma_kill_keeps_the_log_open(process: CommandView, text: Seq<char>)
    ensures
        process.kill().output == process.output,
        process.kill().line(process.run_id, text).output == process.output.push(text),
{
}

/// Stopping a process again changes nothing: there is no process group left
/// to interrupt.
pub proof fn lemma_kill_twice(process: CommandView)
    ensures
        process.kill().child_pid is None,
        process.kill().kill() == process.kill(),
{
}

/// A process group that can be signalled: its number is positive.
#[derive(Debug, Clone, Copy)]
struct ProcessGroup {
    id: i32,
}

impl ProcessGroup {
    #[verifier::type_invariant]
    spec fn inv(self) -> bool {
        self.id > 0
    }

    fn new(id: i32) -> (group: ProcessGroup)
        requires
            id > 0,
        ensures
            group.id == id,
    {
        ProcessGroup { id }
    }

    fn id(&self) -> (id: i32)
        ensures
            id == self.id,
            id > 0,
    {
        proof {
            use_type_invariant(self);
        }
        self.id
    }
}

/// One managed process.
#[derive(Debug)]
pub struct Command {
    name: String,
    command: String,
    arguments: Vec<String>,
    child_pid: Option<ProcessGroup>,
    run_id: u64,
    output: Vec<String>,
}

impl View for Command {
    type V = CommandView;

    closed spec fn view(&self) -> CommandView {
        CommandView {
            name: self.name@,
            command: self.command@,
            arguments: self.arguments.deep_view(),
            child_pid: match self.child_pid {
                Some(group) => Some(group.id),
                None => None,
            },
            run_id: self.run_id,
            output: self.output.deep_view(),
        }
    }
}

impl DeepView for Command {
    type V = CommandView;

    open spec fn deep_view(&self) -> CommandView {
        self@
    }
}

impl Command {
    /// Brings into a proof that a process group which is held is positive.
    fn group_is_positive(&self)
        ensures
            self@.wf(),
    {
        match &self.child_pid {
            Some(group) => {
                proof {
                    use_type_invariant(group);
                }
            },
            None => {},
        }
    }

    /// The process described by `config`, never launched.
    pub fn new(config: &Configuration) -> (process: Command)
        ensures
            process@ == CommandView::fresh(config@),
    {
        let process = Command {
            name: config.name.clone(),
            command: config.command.clone(),
            arguments: copy_strings(&config.arguments),
            child_pid: None,
            run_id: 0,
            output: Vec::new(),
        };
        assert(process.output.deep_view() =~= Seq::<Seq<char>>::empty());
        process
    }

    /// Begins a new run and says what the host has to launch for it.
    ///
    /// The log is emptied first, so nothing of an earlier run is left in it.
    /// This may be called whether or not the process was launched before; a
    /// process group still held from an earlier run is given up.
    pub fn run(&mut self) -> (launch: Launch)
        ensures
            final(self)@ == old(self)@.run(),
            final(self)@.wf(),
            launch@ == final(self)@.launch(),
    {
        self.output.clear();
        self.child_pid = None;
        self.run_id = if self.run_id == u64::MAX { 0 } else { self.run_id + 1 };
        let mut argv: Vec<String> = Vec::new();
        argv.push(self.command.clone());
        let mut i: usize = 0;
        while i < self.arguments.len()
            invariant
                i <= self.arguments.len(),
                argv.len() == i + 1,
                argv[0]@ == self.command@,
                forall|k: int| 0 <= k < i ==> argv[k + 1]@ == self.arguments[k]@,
            decreases self.arguments.len() - i,
        {
            argv.push(self.arguments[i].clone());
            i += 1;
        }
        assert(self.output.deep_view() =~= Seq::<Seq<char>>::empty());
        assert(argv.deep_view() =~= seq![self.command@] + self.arguments.deep_view());
        Launch { run_id: self.run_id, argv }
    }

    /// Gives up the process group of the running process and returns it, for
    /// the host to interrupt. Returns `None` where no process is known to run:
    /// never launched, already stopped, or its output has ended.
    pub fn kill(&mut self) -> (signalled: Option<i32>)
        ensures
            final(self)@ == old(self)@.kill(),
            final(self)@.wf(),
            signalled == old(self)@.child_pid,
            signalled matches Some(pid) ==> pid > 0,
    {
        let signalled = match self.child_pid {
            Some(group) => Some(group.id()),
            None => None,
        };
        self.child_pid = None;
        signalled
    }

    /// Stops the process and begins a new run of it: [`Command::kill`], then
    /// [`Command::run`]. Returns the process group to interrupt, if one was
    /// held, and what the host has to launch.
    pub fn restart(&mut self) -> (result: (Option<i32>, Launch))
        ensures
            final(self)@ == old(self)@.kill().run(),
            final(self)@.wf(),
            final(self)@.output == Seq::<Seq<char>>::empty(),
            result.0 == old(self)@.child_pid,
            result.0 matches Some(pid) ==> pid > 0,
            result.1@ == final(self)@.launch(),
    {
        let signalled = self.kill();
        let launch = self.run();
        (signalled, launch)
    }

    /// Takes in the report that run `run_id` started as process group `pid`.
    ///
    /// The report is dropped, and `false` returned, where `run_id` is not the
    /// latest run or `pid` is not positive.
    pub fn on_spawned(&mut self, run_id: u64, pid: i32) -> (accepted: bool)
        ensures
            final(self)@ == old(self)@.spawned(run_id, pid),
            final(self)@.wf(),
            accepted == old(self)@.accepts_start(run_id, pid),
    {
        self.group_is_positive();
        if run_id == self.run_id && pid > 0 {
            self.child_pid = Some(ProcessGroup::new(pid));
            true
        } else {
            false
        }
    }

    /// Takes in a line that run `run_id` printed: it becomes the last line of
    /// the log. A line of an earlier run is dropped, and `false` returned.
    pub fn on_line(&mut self, run_id: u64, text: String) -> (appended: bool)
        ensures
            final(self)@ == old(self)@.line(run_id, text@),
            final(self)@.wf(),
            appended == (run_id == old(self)@.run_id),
    {
        self.group_is_positive();
        if run_id == self.run_id {
            self.output.push(text);
            assert(self.output.deep_view() =~= old(self).output.deep_view().push(text@));
            true
        } else {
            false
        }
    }

    /// Takes in the report that the output of run `run_id` has ended: the
    /// process is no longer known to run. The report of an earlier run is
    /// dropped, and `false` returned.
    pub fn on_end_of_stream(&mut self, run_id: u64) -> (current: bool)
        ensures
            final(self)@ == old(self)@.end_of_stream(run_id),
            final(self)@.wf(),
            current == (run_id == old(self)@.run_id),
    {
        self.group_is_positive();
        if run_id == self.run_id {
            self.child_pid = None;
            true
        } else {
            false
        }
    }

    /// The display name.
    pub fn name(&self) -> (name: &str)
        ensures
            name@ == self@.name,
    {
        self.name.as_str()
    }

    /// The executable.
    pub fn command(&self) -> (command: &str)
        ensures
            command@ == self@.command,
    {
        self.command.as_str()
    }

    /// The arguments handed to the executable.
    pub fn arguments(&self) -> (arguments: &Vec<String>)
        ensures
            arguments.deep_view() == self@.arguments,
    {
        &self.arguments
    }

    /// The process group of the running process, if one is known to run.
    pub fn child_pid(&self) -> (pid: Option<i32>)
        ensures
            pid == self@.child_pid,
            self@.wf(),
    {
        match &self.child_pid {
            Some(group) => Some(group.id()),
            None => None,
        }
    }

    /// The number of the latest run.
    pub fn run_id(&self) -> (run_id: u64)
        ensures
            run_id == self@.run_id,
    {
        self.run_id
    }

    /// The lines captured from the latest run, oldest first.
    pub fn output(&self) -> (output: &Vec<String>)
        ensures
            output.deep_view() == self@.output,
    {
        &self.output
    }
}

} // verus!
