use vstd::prelude::*;
use vstd::string::*;

verus! {

/// What can go wrong while a statement is parsed, planned or run.
#[derive(Debug, Clone, PartialEq, Eq)]
pub enum QueryError {
    Parse(String),
    Plan(String),
    Execution(String),
    /// An error of the storage layer, by its text.
    Core(String),
    Unsupported(String),
    InvalidExpression(String),
    TypeError(String),
    Constraint(String),
    TableNotFound(String),
    ColumnNotFound(String),
    Cancelled,
    QueryTimeout(u64),
    ResourceLimit(String),
}

/// What contracts say about an error: its variant and its payload. Only the wording of what is wrong
/// with a text that does not parse is for people alone.
pub enum ErrorView {
    Parse(Seq<char>),
    Plan(Seq<char>),
    Execution(Seq<char>),
    Core(Seq<char>),
    Unsupported(Seq<char>),
    InvalidExpression(Seq<char>),
    TypeError(Seq<char>),
    Constraint(Seq<char>),
    TableNotFound(Seq<char>),
    ColumnNotFound(Seq<char>),
    Cancelled,
    QueryTimeout(u64),
    ResourceLimit(Seq<char>),
}

pub type Result<T> = std::result::Result<T, QueryError>;

/// The text that `QueryError::message` renders.
pub open spec fn message_text(e: QueryError) -> Seq<char> {
    match e {
        QueryError::Parse(s) => "Parse error: "@ + s@,
        QueryError::Plan(s) => "Plan error: "@ + s@,
        QueryError::Execution(s) => "Execution error: "@ + s@,
        QueryError::Core(s) => "Core error: "@ + s@,
        QueryError::Unsupported(s) => "Unsupported operation: "@ + s@,
        QueryError::InvalidExpression(s) => "Invalid expression: "@ + s@,
        QueryError::TypeError(s) => "Type error: "@ + s@,
        QueryError::Constraint(s) => "Constraint violation: "@ + s@,
        QueryError::TableNotFound(s) => "Table '"@ + s@ + "' not found"@,
        QueryError::ColumnNotFound(s) => "Column '"@ + s@ + "' not found"@,
        QueryError::Cancelled => "Query cancelled"@,
        QueryError::QueryTimeout(ms) => "Query timed out after "@ + crate::text::nat_text(ms as nat) + " ms"@,
        QueryError::ResourceLimit(s) => "Resource limit exceeded: "@ + s@,
    }
}

pub open spec fn unique_message(col: Seq<char>) -> Seq<char> {
    "UNIQUE constraint violated for column '"@ + col + "'"@
}

pub open spec fn not_null_message(col: Seq<char>) -> Seq<char> {
    "NOT NULL constraint violated for column '"@ + col + "'"@
}

pub open spec fn check_message(table: Seq<char>) -> Seq<char> {
    "CHECK constraint failed on table '"@ + table + "'"@
}

pub open spec fn fk_missing_message(parent: Seq<char>) -> Seq<char> {
    "FOREIGN KEY violation: no matching row in '"@ + parent + "'"@
}

pub open spec fn fk_referenced_message(child: Seq<char>) -> Seq<char> {
    "FOREIGN KEY violation: row in '"@ + child + "' references this row"@
}

pub open spec fn table_missing(t: Seq<char>) -> Seq<char> {
    "Table '"@ + t + "' not found"@
}

pub open spec fn column_missing(c: Seq<char>) -> Seq<char> {
    "Column '"@ + c + "' not found"@
}

/// An error that a statement could not be run on, by what is wrong.
pub open spec fn run_error(text: Seq<char>) -> ErrorView {
    ErrorView::Execution(text)
}

impl QueryError {
    pub open spec fn view(&self) -> ErrorView {
        match self {
            QueryError::Parse(s) => ErrorView::Parse(s@),
            QueryError::Plan(s) => ErrorView::Plan(s@),
            QueryError::Execution(s) => ErrorView::Execution(s@),
            QueryError::Core(s) => ErrorView::Core(s@),
            QueryError::Unsupported(s) => ErrorView::Unsupported(s@),
            QueryError::InvalidExpression(s) => ErrorView::InvalidExpression(s@),
            QueryError::TypeError(s) => ErrorView::TypeError(s@),
            QueryError::Constraint(s) => ErrorView::Constraint(s@),
            QueryError::TableNotFound(s) => ErrorView::TableNotFound(s@),
            QueryError::ColumnNotFound(s) => ErrorView::ColumnNotFound(s@),
            QueryError::Cancelled => ErrorView::Cancelled,
            QueryError::QueryTimeout(ms) => ErrorView::QueryTimeout(*ms),
            QueryError::ResourceLimit(s) => ErrorView::ResourceLimit(s@),
        }
    }

    pub fn unique_violation(col: &str) -> (e: Self)
        ensures
            e@ == ErrorView::Constraint(unique_message(col@)),
    {
        QueryError::Constraint(crate::text::join3("UNIQUE constraint violated for column '", col, "'"))
    }

    pub fn not_null_violation(col: &str) -> (e: Self)
        ensures
            e@ == ErrorView::Constraint(not_null_message(col@)),
    {
        QueryError::Constraint(crate::text::join3("NOT NULL constraint violated for column '", col, "'"))
    }

    pub fn check_violation(table: &str) -> (e: Self)
        ensures
            e@ == ErrorView::Constraint(check_message(table@)),
    {
        QueryError::Constraint(crate::text::join3("CHECK constraint failed on table '", table, "'"))
    }

    pub fn fk_violation(parent: &str) -> (e: Self)
        ensures
            e@ == ErrorView::Constraint(fk_missing_message(parent@)),
    {
        QueryError::Constraint(crate::text::join3("FOREIGN KEY violation: no matching row in '", parent, "'"))
    }

    pub fn no_table(t: &str) -> (e: Self)
        ensures
            e@ == run_error(table_missing(t@)),
    {
        QueryError::Execution(crate::text::join3("Table '", t, "' not found"))
    }

    pub fn no_column(c: &str) -> (e: Self)
        ensures
            e@ == run_error(column_missing(c@)),
    {
        QueryError::Execution(crate::text::join3("Column '", c, "' not found"))
    }

    pub fn fk_referenced(child: &str) -> (e: Self)
        ensures
            e@ == ErrorView::Constraint(fk_referenced_message(child@)),
    {
        QueryError::Constraint(crate::text::join3("FOREIGN KEY violation: row in '", child, "' references this row"))
    }

    /// The error as one line of text.
    pub fn message(&self) -> (s: String)
        ensures
            s@ == message_text(*self),
    {
        match self {
            QueryError::Parse(s) => crate::text::join2("Parse error: ", s.as_str()),
            QueryError::Plan(s) => crate::text::join2("Plan error: ", s.as_str()),
            QueryError::Execution(s) => crate::text::join2("Execution error: ", s.as_str()),
            QueryError::Core(s) => crate::text::join2("Core error: ", s.as_str()),
            QueryError::Unsupported(s) => crate::text::join2("Unsupported operation: ", s.as_str()),
            QueryError::InvalidExpression(s) => crate::text::join2("Invalid expression: ", s.as_str()),
            QueryError::TypeError(s) => crate::text::join2("Type error: ", s.as_str()),
            QueryError::Constraint(s) => crate::text::join2("Constraint violation: ", s.as_str()),
            QueryError::TableNotFound(s) => crate::text::join3("Table '", s.as_str(), "' not found"),
            QueryError::ColumnNotFound(s) => crate::text::join3("Column '", s.as_str(), "' not found"),
            QueryError::Cancelled => "Query cancelled".to_string(),
            QueryError::QueryTimeout(ms) => {
                let n = crate::text::nat_to_text(*ms as u128);
                crate::text::join3("Query timed out after ", n.as_str(), " ms")
            },
            QueryError::ResourceLimit(s) => crate::text::join2("Resource limit exceeded: ", s.as_str()),
        }
    }
}

} // verus!
