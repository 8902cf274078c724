use vstd::prelude::*;

verus! {

/// Lifecycle state of a record; the byte tags are fixed by the codec.
#[derive(Clone, Copy, Debug, PartialEq, Eq, Structural)]
pub enum TaskStatus {
    Pending,
    InProgress,
    Completed,
}

/// Priority of a record; the byte tags are fixed by the codec.
#[derive(Clone, Copy, Debug, PartialEq, Eq, Structural)]
pub enum Priority {
    Low,
    Medium,
    High,
    Urgent,
}

impl Default for TaskStatus {
    fn default() -> (r: TaskStatus)
        ensures
            r == TaskStatus::Pending,
    {
        TaskStatus::Pending
    }
}

impl Default for Priority {
    fn default() -> (r: Priority)
        ensures
            r == Priority::Low,
    {
        Priority::Low
    }
}

/// One task record as it is stored and returned.
#[derive(Clone, Debug, PartialEq, Eq)]
pub struct Todo {
    pub id: u64,
    pub title: String,
    pub description: String,
    pub status: TaskStatus,
    pub priority: Priority,
    pub due_date: Option<u64>,
    pub created_at: u64,
    pub updated_at: Option<u64>,
    pub owner: String,
}

/// Mathematical value of a record: the text fields as character sequences.
pub struct TodoView {
    pub id: u64,
    pub title: Seq<char>,
    pub description: Seq<char>,
    pub status: TaskStatus,
    pub priority: Priority,
    pub due_date: Option<u64>,
    pub created_at: u64,
    pub updated_at: Option<u64>,
    pub owner: Seq<char>,
}

impl View for Todo {
    type V = TodoView;

    open spec fn view(&self) -> TodoView {
        TodoView {
            id: self.id,
            title: self.title@,
            description: self.description@,
            status: self.status,
            priority: self.priority,
            due_date: self.due_date,
            created_at: self.created_at,
            updated_at: self.updated_at,
            owner: self.owner@,
        }
    }
}

/// The fields a caller supplies when creating or editing a record.
#[derive(Clone, Debug, PartialEq, Eq)]
pub struct TodoPayload {
    pub title: String,
    pub description: String,
    pub priority: Priority,
    pub due_date: Option<u64>,
}

/// Failure of a service operation. A missing record and a caller that does
/// not own the record are both reported as `NotFound`.
#[derive(Clone, Debug, PartialEq, Eq)]
pub enum Error {
    NotFound { msg: String },
    InvalidInput { msg: String },
}

pub enum ErrorView {
    NotFound(Seq<char>),
    InvalidInput(Seq<char>),
}

impl View for Error {
    type V = ErrorView;

    open spec fn view(&self) -> ErrorView {
        match self {
            Error::NotFound { msg } => ErrorView::NotFound(msg@),
            Error::InvalidInput { msg } => ErrorView::InvalidInput(msg@),
        }
    }
}

/// Value of an operation's outcome.
pub open spec fn outcome(r: Result<Todo, Error>) -> Result<TodoView, ErrorView> {
    match r {
        Ok(t) => Ok(t@),
        Err(e) => Err(e@),
    }
}

} // verus!
