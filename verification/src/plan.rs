//! Plans: the file operations that a command asks for, in the order in
//! which they are to be carried out, each with what a failure means.
use vstd::prelude::*;
use vstd::string::*;
use crate::metadata::Origin;
use crate::model::FileMove;

verus! {

/// One operation on the file system or on the stored record of origins.
#[derive(Debug, Clone, PartialEq, Eq)]
pub enum FileOp {
    /// Create a directory and the directories above it.
    CreateDir(String),
    /// Rename a file to its new place.
    Move(FileMove),
    /// Copy a file and leave the source where it is.
    Copy(FileMove),
    /// Send a file to the trash of the platform.
    Trash(String),
    /// Remove a directory if it is empty.
    RemoveDir(String),
    /// Remove a file.
    RemoveFile(String),
    /// Read the stored record of origins; a missing one is empty.
    LoadMetadata,
    /// Store the record of origins: what was read, or an empty record where
    /// nothing was read, with the plan's `origins` added.
    StoreMetadata,
}

/// An operation with what follows from its failure: a `required` step that
/// fails ends the command with `failure_prefix` and the cause as message; a
/// step that is not required is passed over.
#[derive(Debug, Clone, PartialEq, Eq)]
pub struct Step {
    pub op: FileOp,
    pub required: bool,
    pub failure_prefix: String,
}

/// What a command asks for: steps in order, the origins to record where a
/// step stores the record, and the renamings that were needed.
#[derive(Debug, Clone, PartialEq, Eq)]
pub struct Plan {
    pub steps: Vec<Step>,
    pub origins: Vec<Origin>,
    pub conflicts: Vec<String>,
}

/// An operation over plain text.
pub enum OpView {
    CreateDir(Seq<char>),
    Move(Seq<char>, Seq<char>),
    Copy(Seq<char>, Seq<char>),
    Trash(Seq<char>),
    RemoveDir(Seq<char>),
    RemoveFile(Seq<char>),
    LoadMetadata,
    StoreMetadata,
}

/// A step over plain text.
pub struct StepView {
    pub op: OpView,
    pub required: bool,
    pub failure_prefix: Seq<char>,
}

impl View for FileOp {
    type V = OpView;

    open spec fn view(&self) -> OpView {
        match *self {
            FileOp::CreateDir(path) => OpView::CreateDir(path@),
            FileOp::Move(m) => OpView::Move(m.source@, m.destination@),
            FileOp::Copy(m) => OpView::Copy(m.source@, m.destination@),
            FileOp::Trash(path) => OpView::Trash(path@),
            FileOp::RemoveDir(path) => OpView::RemoveDir(path@),
            FileOp::RemoveFile(path) => OpView::RemoveFile(path@),
            FileOp::LoadMetadata => OpView::LoadMetadata,
            FileOp::StoreMetadata => OpView::StoreMetadata,
        }
    }
}

impl View for Step {
    type V = StepView;

    open spec fn view(&self) -> StepView {
        StepView { op: self.op@, required: self.required, failure_prefix: self.failure_prefix@ }
    }
}

/// The steps of a list over plain text.
pub open spec fn step_views(steps: Seq<Step>) -> Seq<StepView> {
    Seq::new(steps.len(), |i: int| steps[i]@)
}

/// Creating one of the two output directories of a triage; `what` is
/// `keep` or `maybe`.
pub open spec fn create_output_step(path: Seq<char>, what: Seq<char>) -> StepView {
    StepView {
        op: OpView::CreateDir(path),
        required: true,
        failure_prefix: "Failed to create "@ + what + " folder: "@,
    }
}

/// Moving or copying a classified file.
pub open spec fn transfer_step(source: Seq<char>, destination: Seq<char>, moving: bool) -> StepView {
    if moving {
        StepView {
            op: OpView::Move(source, destination),
            required: true,
            failure_prefix: "Failed to move "@ + source + ": "@,
        }
    } else {
        StepView {
            op: OpView::Copy(source, destination),
            required: true,
            failure_prefix: "Failed to copy "@ + source + ": "@,
        }
    }
}

/// Sending a discarded file to the trash.
pub open spec fn trash_step(path: Seq<char>) -> StepView {
    StepView {
        op: OpView::Trash(path),
        required: true,
        failure_prefix: "Failed to trash "@ + path + ": "@,
    }
}

/// A step whose failure ends the command with the cause alone as message.
pub open spec fn plain_step(op: OpView) -> StepView {
    StepView { op, required: true, failure_prefix: Seq::empty() }
}

/// A step whose failure is passed over.
pub open spec fn optional_step(op: OpView) -> StepView {
    StepView { op, required: false, failure_prefix: Seq::empty() }
}

/// The step that creates an output directory of a triage.
pub fn make_create_output_step(path: String, what: &str) -> (step: Step)
    ensures
        step@ == create_output_step(path@, what@),
{
    let mut prefix = String::from_str("Failed to create ");
    prefix.append(what);
    prefix.append(" folder: ");
    Step { op: FileOp::CreateDir(path), required: true, failure_prefix: prefix }
}

/// The step that moves or copies a classified file.
pub fn make_transfer_step(source: &str, destination: String, moving: bool) -> (step: Step)
    ensures
        step@ == transfer_step(source@, destination@, moving),
{
    let pair = FileMove { source: String::from_str(source), destination };
    if moving {
        let mut prefix = String::from_str("Failed to move ");
        prefix.append(source);
        prefix.append(": ");
        Step { op: FileOp::Move(pair), required: true, failure_prefix: prefix }
    } else {
        let mut prefix = String::from_str("Failed to copy ");
        prefix.append(source);
        prefix.append(": ");
        Step { op: FileOp::Copy(pair), required: true, failure_prefix: prefix }
    }
}

/// The step that sends a discarded file to the trash.
pub fn make_trash_step(path: &str) -> (step: Step)
    ensures
        step@ == trash_step(path@),
{
    let mut prefix = String::from_str("Failed to trash ");
    prefix.append(path);
    prefix.append(": ");
    Step { op: FileOp::Trash(String::from_str(path)), required: true, failure_prefix: prefix }
}

/// A required step without a prefix to its failure.
pub fn make_plain_step(op: FileOp) -> (step: Step)
    ensures
        step@ == plain_step(op@),
{
    Step { op, required: true, failure_prefix: String::new() }
}

/// A step whose failure is passed over.
pub fn make_optional_step(op: FileOp) -> (step: Step)
    ensures
        step@ == optional_step(op@),
{
    Step { op, required: false, failure_prefix: String::new() }
}

/// The message with which a command ends when a required step fails for
/// the given cause.
pub fn failure_message(step: &Step, cause: &str) -> (message: String)
    ensures
        message@ == step.failure_prefix@ + cause@,
{
    let mut message = step.failure_prefix.clone();
    message.append(cause);
    message
}

/// Adds a step to a list, and its view to the list's views.
pub fn push_step(steps: &mut Vec<Step>, step: Step)
    ensures
        final(steps)@ == old(steps)@.push(step),
        step_views(final(steps)@) == step_views(old(steps)@).push(step@),
{
    steps.push(step);
    assert(step_views(steps@) =~= step_views(old(steps)@).push(step@));
}

} // verus!
