use vstd::prelude::*;

use crate::progress::Progress;

verus! {

/// The state of one render job.
#[derive(Debug)]
pub enum TaskStatus {
    Pending,
    Loading,
    Mixing,
    Rendering { progress: Progress },
    Done { duration_ms: u64, output: String },
    Canceled,
    Failed { error: String },
}

/// A job state with its texts as character sequences.
pub enum StatusModel {
    Pending,
    Loading,
    Mixing,
    Rendering { progress: Progress },
    Done { duration_ms: u64, output: Seq<char> },
    Canceled,
    Failed { error: Seq<char> },
}

impl View for TaskStatus {
    type V = StatusModel;

    open spec fn view(&self) -> StatusModel {
        match self {
            TaskStatus::Pending => StatusModel::Pending,
            TaskStatus::Loading => StatusModel::Loading,
            TaskStatus::Mixing => StatusModel::Mixing,
            TaskStatus::Rendering { progress } => StatusModel::Rendering { progress: *progress },
            TaskStatus::Done { duration_ms, output } => StatusModel::Done {
                duration_ms: *duration_ms,
                output: output@,
            },
            TaskStatus::Canceled => StatusModel::Canceled,
            TaskStatus::Failed { error } => StatusModel::Failed { error: error@ },
        }
    }
}

impl StatusModel {
    /// A job that has been picked up and not yet finished.
    pub open spec fn is_running(self) -> bool {
        self is Loading || self is Mixing || self is Rendering
    }

    /// A job that will never change state again.
    pub open spec fn is_terminal(self) -> bool {
        self is Done || self is Canceled || self is Failed
    }
}

impl TaskStatus {
    /// A copy with the same view.
    pub fn duplicate(&self) -> (r: TaskStatus)
        ensures
            r@ == self@,
    {
        match self {
            TaskStatus::Pending => TaskStatus::Pending,
            TaskStatus::Loading => TaskStatus::Loading,
            TaskStatus::Mixing => TaskStatus::Mixing,
            TaskStatus::Rendering { progress } => TaskStatus::Rendering { progress: *progress },
            TaskStatus::Done { duration_ms, output } => TaskStatus::Done {
                duration_ms: *duration_ms,
                output: output.clone(),
            },
            TaskStatus::Canceled => TaskStatus::Canceled,
            TaskStatus::Failed { error } => TaskStatus::Failed { error: error.clone() },
        }
    }

    pub fn is_pending(&self) -> (r: bool)
        ensures
            r == (self@ is Pending),
    {
        match self {
            TaskStatus::Pending => true,
            _ => false,
        }
    }
}

} // verus!
