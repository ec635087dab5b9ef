//! Runs: a script of tasks carried out against the file system step by
//! step. A run asks its caller to look whether a path exists or to carry
//! out a step, and decides from the answer what comes next. A file that is
//! placed into a shared directory gets the first name that the disk
//! reports free: its own, then the ones with the counters 1, 2, and so on.
use vstd::prelude::*;
use vstd::string::*;
use crate::conflict::{
    candidate, candidate_name, conflict_extension, conflict_parts, conflict_stem, PROBE_CEILING,
};
use crate::metadata::{origin_views, Origin};
use crate::migrate::conflict_line;
use crate::model::FileMove;
use crate::paths::{joined, path_component, path_join};
use crate::plan::{
    make_optional_step, make_transfer_step, optional_step, transfer_step, FileOp, OpView, Step,
    StepView,
};
use crate::text::{push_text, same_text, texts};

verus! {

/// What a file is placed for: a triage moves or copies it and must
/// succeed; a migration moves it, passes over a failure, and reports a
/// renaming.
#[derive(Debug, Clone, Copy, PartialEq, Eq)]
pub enum Purpose {
    Triage { moving: bool },
    Migration,
}

/// A file to be placed into a shared directory under the first free name.
#[derive(Debug, Clone, PartialEq, Eq)]
pub struct Placing {
    pub source: String,
    pub dir: String,
    pub name: String,
    pub folder_id: String,
    pub purpose: Purpose,
}

/// One task of a script: a step as it stands, or a file to be placed.
#[derive(Debug, Clone, PartialEq, Eq)]
pub enum Task {
    Fixed(Step),
    Place(Placing),
}

/// A placing over plain text.
pub struct PlacingView {
    pub source: Seq<char>,
    pub dir: Seq<char>,
    pub name: Seq<char>,
    pub folder_id: Seq<char>,
    pub purpose: Purpose,
}

/// A task over plain text.
pub enum TaskView {
    Fixed(StepView),
    Place(PlacingView),
}

impl View for Placing {
    type V = PlacingView;

    open spec fn view(&self) -> PlacingView {
        PlacingView {
            source: self.source@,
            dir: self.dir@,
            name: self.name@,
            folder_id: self.folder_id@,
            purpose: self.purpose,
        }
    }
}

impl View for Task {
    type V = TaskView;

    open spec fn view(&self) -> TaskView {
        match *self {
            Task::Fixed(step) => TaskView::Fixed(step@),
            Task::Place(placing) => TaskView::Place(placing@),
        }
    }
}

/// The tasks of a script over plain text.
pub open spec fn task_views(tasks: Seq<Task>) -> Seq<TaskView> {
    Seq::new(tasks.len(), |i: int| tasks[i]@)
}

/// What a run asks of its caller.
#[derive(Debug, Clone, PartialEq, Eq)]
pub enum Request {
    /// Whether anything exists at this path.
    Probe(String),
    /// To carry out this step.
    Perform(Step),
    /// Nothing more: the run is over.
    Finish,
}

/// A request over plain text.
pub enum RequestView {
    Probe(Seq<char>),
    Perform(StepView),
    Finish,
}

impl View for Request {
    type V = RequestView;

    open spec fn view(&self) -> RequestView {
        match *self {
            Request::Probe(path) => RequestView::Probe(path@),
            Request::Perform(step) => RequestView::Perform(step@),
            Request::Finish => RequestView::Finish,
        }
    }
}

/// What the caller answers: that it is ready to begin, whether the path
/// exists, that the step is done, or that the step failed and why.
#[derive(Debug, Clone, PartialEq, Eq)]
pub enum Answer {
    Start,
    Exists(bool),
    Done,
    Failed(String),
}

/// Whether an answer says that the probed path exists. Every other answer
/// counts as its absence.
pub open spec fn says_taken(answer: Answer) -> bool {
    answer == Answer::Exists(true)
}

/// The cause with which an answer reports a failure; none for every other
/// answer.
pub open spec fn says_failed(answer: Answer) -> Option<Seq<char>> {
    match answer {
        Answer::Failed(cause) => Some(cause@),
        _ => None,
    }
}

/// Where a run stands: about to begin its next task, waiting for the
/// answer to a probe, waiting for the outcome of a step, or over.
#[derive(Debug, Clone, Copy, PartialEq, Eq)]
pub enum Phase {
    Idle,
    Probing,
    Performing,
    Finished,
}

/// A run of a script. `at` is the task in hand; while a file is placed,
/// `counter`, `stem`, `ext` and `name` hold the candidate in hand and what
/// it is built from. `origins` and `conflicts` gather what the placings
/// record and report; `failure` holds the message of the required step
/// that ended the run.
#[derive(Debug, Clone, PartialEq, Eq)]
pub struct Run {
    pub tasks: Vec<Task>,
    pub at: usize,
    pub phase: Phase,
    pub counter: u32,
    pub stem: String,
    pub ext: String,
    pub name: String,
    pub origins: Vec<Origin>,
    pub conflicts: Vec<String>,
    pub failure: Option<String>,
}

/// A run over plain text.
pub struct RunView {
    pub tasks: Seq<TaskView>,
    pub at: int,
    pub phase: Phase,
    pub counter: int,
    pub stem: Seq<char>,
    pub ext: Seq<char>,
    pub name: Seq<char>,
    pub origins: Seq<(Seq<char>, Seq<char>)>,
    pub conflicts: Seq<Seq<char>>,
    pub failure: Option<Seq<char>>,
}

impl View for Run {
    type V = RunView;

    open spec fn view(&self) -> RunView {
        RunView {
            tasks: task_views(self.tasks@),
            at: self.at as int,
            phase: self.phase,
            counter: self.counter as int,
            stem: self.stem@,
            ext: self.ext@,
            name: self.name@,
            origins: origin_views(self.origins@),
            conflicts: texts(self.conflicts@),
            failure: crate::text::opt_text(self.failure),
        }
    }
}

/// A fresh run of a script.
pub open spec fn fresh_run(tasks: Seq<TaskView>) -> RunView {
    RunView {
        tasks,
        at: 0,
        phase: Phase::Idle,
        counter: 0,
        stem: Seq::empty(),
        ext: Seq::empty(),
        name: Seq::empty(),
        origins: Seq::empty(),
        conflicts: Seq::empty(),
        failure: None,
    }
}

/// The step that puts a file in its place under the given name.
pub open spec fn placing_step(placing: PlacingView, name: Seq<char>) -> StepView {
    match placing.purpose {
        Purpose::Triage { moving } => transfer_step(
            placing.source,
            joined(placing.dir, name),
            moving,
        ),
        Purpose::Migration => optional_step(
            OpView::Move(placing.source, joined(placing.dir, name)),
        ),
    }
}

/// The step that a run waits for the outcome of.
pub open spec fn step_in_hand(run: RunView) -> StepView {
    match run.tasks[run.at] {
        TaskView::Fixed(step) => step,
        TaskView::Place(placing) => placing_step(placing, run.name),
    }
}

/// A run that is over, with the request that says so.
pub open spec fn finished(run: RunView) -> (RunView, RequestView) {
    (RunView { phase: Phase::Finished, ..run }, RequestView::Finish)
}

/// A run turning to the task at `at`: past the last task it is over; a
/// fixed step is handed out; of a file to be placed the own name is probed
/// first.
pub open spec fn begin_task(run: RunView) -> (RunView, RequestView) {
    if !(0 <= run.at < run.tasks.len()) {
        finished(run)
    } else {
        match run.tasks[run.at] {
            TaskView::Fixed(step) => (
                RunView { phase: Phase::Performing, ..run },
                RequestView::Perform(step),
            ),
            TaskView::Place(placing) => (
                RunView {
                    phase: Phase::Probing,
                    counter: 0,
                    stem: conflict_stem(placing.name),
                    ext: conflict_extension(placing.name),
                    name: placing.name,
                    ..run
                },
                RequestView::Probe(joined(placing.dir, placing.name)),
            ),
        }
    }
}

/// A run that learns whether the name in hand is taken. A free name is
/// used. After a taken one the next counter is tried; the name with the
/// last counter is used without a probe.
pub open spec fn after_probe(run: RunView, taken: bool) -> (RunView, RequestView) {
    if !(0 <= run.at < run.tasks.len()) {
        finished(run)
    } else {
        match run.tasks[run.at] {
            TaskView::Fixed(step) => (
                RunView { phase: Phase::Performing, ..run },
                RequestView::Perform(step),
            ),
            TaskView::Place(placing) => {
                if !taken {
                    (
                        RunView { phase: Phase::Performing, ..run },
                        RequestView::Perform(placing_step(placing, run.name)),
                    )
                } else {
                    let next = if run.counter + 1 < PROBE_CEILING {
                        run.counter + 1
                    } else {
                        PROBE_CEILING as int
                    };
                    let name = candidate_name(run.stem, run.ext, next as nat);
                    if next < PROBE_CEILING {
                        (
                            RunView { counter: next, name, ..run },
                            RequestView::Probe(joined(placing.dir, name)),
                        )
                    } else {
                        (
                            RunView { phase: Phase::Performing, counter: next, name, ..run },
                            RequestView::Perform(placing_step(placing, name)),
                        )
                    }
                }
            },
        }
    }
}

/// What a placing leaves in the books once its step is past: the origin
/// of the file under its new name, and for a migration the report of a
/// renaming.
pub open spec fn booked(run: RunView) -> RunView {
    match run.tasks[run.at] {
        TaskView::Fixed(_) => run,
        TaskView::Place(placing) => RunView {
            origins: run.origins.push((run.name, placing.folder_id)),
            conflicts: if placing.purpose is Migration && run.name != placing.name {
                run.conflicts.push(conflict_line(placing.name, run.name))
            } else {
                run.conflicts
            },
            ..run
        },
    }
}

/// A run that learns the outcome of the step in hand. A required step
/// that failed ends the run with its message. Otherwise the books are
/// kept and the run turns to the next task.
pub open spec fn after_perform(run: RunView, failed: Option<Seq<char>>) -> (RunView, RequestView) {
    if !(0 <= run.at < run.tasks.len()) {
        finished(run)
    } else if failed is Some && step_in_hand(run).required {
        finished(
            RunView {
                failure: Some(step_in_hand(run).failure_prefix + failed->0),
                ..run
            },
        )
    } else {
        begin_task(RunView { at: run.at + 1, phase: Phase::Idle, ..booked(run) })
    }
}

/// What a run does with an answer: the run it becomes, and what it asks
/// next.
pub open spec fn advance(run: RunView, answer: Answer) -> (RunView, RequestView) {
    match run.phase {
        Phase::Idle => begin_task(run),
        Phase::Probing => after_probe(run, says_taken(answer)),
        Phase::Performing => after_perform(run, says_failed(answer)),
        Phase::Finished => finished(run),
    }
}

/// A copy of a step.
pub fn copy_step(step: &Step) -> (copy: Step)
    ensures
        copy@ == step@,
{
    let op = match &step.op {
        FileOp::CreateDir(path) => FileOp::CreateDir(path.clone()),
        FileOp::Move(pair) => FileOp::Move(
            FileMove { source: pair.source.clone(), destination: pair.destination.clone() },
        ),
        FileOp::Copy(pair) => FileOp::Copy(
            FileMove { source: pair.source.clone(), destination: pair.destination.clone() },
        ),
        FileOp::Trash(path) => FileOp::Trash(path.clone()),
        FileOp::RemoveDir(path) => FileOp::RemoveDir(path.clone()),
        FileOp::RemoveFile(path) => FileOp::RemoveFile(path.clone()),
        FileOp::LoadMetadata => FileOp::LoadMetadata,
        FileOp::StoreMetadata => FileOp::StoreMetadata,
    };
    Step { op, required: step.required, failure_prefix: step.failure_prefix.clone() }
}

/// The step that puts a file in its place under the given name.
pub fn make_placing_step(placing: &Placing, name: &str) -> (step: Step)
    ensures
        step@ == placing_step(placing@, name@),
{
    let destination = path_join(placing.dir.as_str(), name);
    match placing.purpose {
        Purpose::Triage { moving } => make_transfer_step(
            placing.source.as_str(),
            destination,
            moving,
        ),
        Purpose::Migration => make_optional_step(
            FileOp::Move(FileMove { source: placing.source.clone(), destination }),
        ),
    }
}

impl Run {
    /// A run of the given script, about to begin.
    pub fn new(tasks: Vec<Task>) -> (run: Run)
        ensures
            run@ == fresh_run(task_views(tasks@)),
    {
        let run = Run {
            tasks,
            at: 0,
            phase: Phase::Idle,
            counter: 0,
            stem: String::new(),
            ext: String::new(),
            name: String::new(),
            origins: Vec::new(),
            conflicts: Vec::new(),
            failure: None,
        };
        proof {
            assert(run@.origins =~= Seq::empty());
            assert(run@.conflicts =~= Seq::empty());
        }
        run
    }

    /// How the run ended, once it is over: well, or with the message of
    /// the required step that failed.
    pub fn outcome(&self) -> (outcome: Result<(), String>)
        ensures
            match outcome {
                Ok(_) => self@.failure is None,
                Err(message) => self@.failure == Some(message@),
            },
    {
        match &self.failure {
            Some(message) => Err(message.clone()),
            None => Ok(()),
        }
    }

    fn finish(&mut self) -> (request: Request)
        ensures
            (final(self)@, request@) == finished(old(self)@),
    {
        self.phase = Phase::Finished;
        Request::Finish
    }

    fn begin(&mut self) -> (request: Request)
        ensures
            (final(self)@, request@) == begin_task(old(self)@),
    {
        if self.at >= self.tasks.len() {
            return self.finish();
        }
        proof {
            assert(task_views(self.tasks@)[self.at as int] == self.tasks@[self.at as int]@);
        }
        match &self.tasks[self.at] {
            Task::Fixed(step) => {
                let request = Request::Perform(copy_step(step));
                self.phase = Phase::Performing;
                request
            },
            Task::Place(placing) => {
                let (stem, ext) = conflict_parts(
                    placing.name.as_str(),
                    path_component(placing.name.as_str()),
                );
                let name = placing.name.clone();
                let request = Request::Probe(
                    path_join(placing.dir.as_str(), placing.name.as_str()),
                );
                self.phase = Phase::Probing;
                self.counter = 0;
                self.stem = stem;
                self.ext = ext;
                self.name = name;
                request
            },
        }
    }

    fn probed(&mut self, taken: bool) -> (request: Request)
        ensures
            (final(self)@, request@) == after_probe(old(self)@, taken),
    {
        if self.at >= self.tasks.len() {
            return self.finish();
        }
        proof {
            assert(task_views(self.tasks@)[self.at as int] == self.tasks@[self.at as int]@);
        }
        match &self.tasks[self.at] {
            Task::Fixed(step) => {
                let request = Request::Perform(copy_step(step));
                self.phase = Phase::Performing;
                request
            },
            Task::Place(placing) => {
                if !taken {
                    let request = Request::Perform(
                        make_placing_step(placing, self.name.as_str()),
                    );
                    self.phase = Phase::Performing;
                    request
                } else {
                    let next = if self.counter < PROBE_CEILING - 1 {
                        self.counter + 1
                    } else {
                        PROBE_CEILING
                    };
                    let name = candidate(self.stem.as_str(), self.ext.as_str(), next);
                    let request = if next < PROBE_CEILING {
                        Request::Probe(path_join(placing.dir.as_str(), name.as_str()))
                    } else {
                        Request::Perform(make_placing_step(placing, name.as_str()))
                    };
                    if next >= PROBE_CEILING {
                        self.phase = Phase::Performing;
                    }
                    self.counter = next;
                    self.name = name;
                    request
                }
            },
        }
    }

    fn keep_books(&mut self)
        requires
            old(self).at < old(self).tasks.len(),
        ensures
            final(self)@ == booked(old(self)@),
            final(self).at == old(self).at,
            final(self).tasks == old(self).tasks,
    {
        proof {
            assert(task_views(self.tasks@)[self.at as int] == self.tasks@[self.at as int]@);
        }
        match &self.tasks[self.at] {
            Task::Fixed(_) => {},
            Task::Place(placing) => {
                let ghost shown = origin_views(self.origins@);
                let origin = Origin {
                    name: self.name.clone(),
                    folder_id: placing.folder_id.clone(),
                };
                let reported = match placing.purpose {
                    Purpose::Migration => !same_text(
                        self.name.as_str(),
                        placing.name.as_str(),
                    ),
                    Purpose::Triage { .. } => false,
                };
                let line = if reported {
                    let mut line = placing.name.clone();
                    line.append(" \u{2192} ");
                    line.append(self.name.as_str());
                    Some(line)
                } else {
                    None
                };
                self.origins.push(origin);
                proof {
                    assert(origin_views(self.origins@) =~= shown.push(
                        (old(self).name@, old(self).tasks@[old(self).at as int]->Place_0.folder_id@),
                    ));
                }
                match line {
                    Some(text) => {
                        push_text(&mut self.conflicts, text);
                    },
                    None => {},
                }
            },
        }
    }

    fn performed(&mut self, answer: &Answer) -> (request: Request)
        ensures
            (final(self)@, request@) == after_perform(old(self)@, says_failed(*answer)),
    {
        if self.at >= self.tasks.len() {
            return self.finish();
        }
        proof {
            assert(task_views(self.tasks@)[self.at as int] == self.tasks@[self.at as int]@);
        }
        let step = match &self.tasks[self.at] {
            Task::Fixed(step) => copy_step(step),
            Task::Place(placing) => make_placing_step(placing, self.name.as_str()),
        };
        match answer {
            Answer::Failed(cause) => {
                if step.required {
                    let mut message = step.failure_prefix.clone();
                    message.append(cause.as_str());
                    self.failure = Some(message);
                    return self.finish();
                }
            },
            _ => {},
        }
        self.keep_books();
        self.at = self.at + 1;
        self.phase = Phase::Idle;
        self.begin()
    }

    /// Takes the answer to what the run asked last, and gives what it asks
    /// next. The first answer is `Start`; after `Finish` the run is over
    /// and asks nothing else.
    pub fn next(&mut self, answer: &Answer) -> (request: Request)
        ensures
            (final(self)@, request@) == advance(old(self)@, *answer),
    {
        match self.phase {
            Phase::Idle => self.begin(),
            Phase::Probing => {
                let taken = match answer {
                    Answer::Exists(found) => *found,
                    _ => false,
                };
                self.probed(taken)
            },
            Phase::Performing => self.performed(answer),
            Phase::Finished => self.finish(),
        }
    }
}

} // verus!
