//! Downstream response model: column descriptors, rows, command tags,
//! query responses and the error kinds the handlers report.

use vstd::prelude::*;

verus! {

/// Result format negotiated for one column on the wire.
#[derive(Clone, Copy, Debug, PartialEq, Eq, Structural)]
pub enum FieldFormat {
    Text,
    Binary,
}

/// Column descriptor sent ahead of a row set.
#[derive(Debug, Clone, PartialEq)]
pub struct ColumnInfo {
    pub name: String,
    pub type_oid: u32,
    pub format: FieldFormat,
}

/// Mathematical model of a column descriptor.
#[verifier::ext_equal]
pub struct ColumnInfoV {
    pub name: Seq<char>,
    pub type_oid: u32,
    pub format: FieldFormat,
}

impl View for ColumnInfo {
    type V = ColumnInfoV;

    open spec fn view(&self) -> ColumnInfoV {
        ColumnInfoV { name: self.name@, type_oid: self.type_oid, format: self.format }
    }
}

impl DeepView for ColumnInfo {
    type V = ColumnInfoV;

    open spec fn deep_view(&self) -> ColumnInfoV {
        self.view()
    }
}

impl ColumnInfoV {
    /// A column descriptor is well formed when its name is non-empty.
    pub open spec fn wf(self) -> bool {
        self.name.len() > 0
    }
}

/// One downstream row: an ordered sequence of nullable field values.
#[derive(Debug, Clone, PartialEq)]
pub struct DataRow {
    pub values: Vec<Option<Vec<u8>>>,
}

impl View for DataRow {
    type V = Seq<Option<Seq<u8>>>;

    open spec fn view(&self) -> Seq<Option<Seq<u8>>> {
        self.values.deep_view()
    }
}

impl DeepView for DataRow {
    type V = Seq<Option<Seq<u8>>>;

    open spec fn deep_view(&self) -> Seq<Option<Seq<u8>>> {
        self.view()
    }
}

/// Command completion tag: command name plus optional affected-row count.
#[derive(Debug, Clone, PartialEq)]
pub struct Tag {
    pub command: String,
    pub rows: Option<u64>,
}

/// Mathematical model of a command tag.
#[verifier::ext_equal]
pub struct TagV {
    pub command: Seq<char>,
    pub rows: Option<u64>,
}

impl View for Tag {
    type V = TagV;

    open spec fn view(&self) -> TagV {
        TagV { command: self.command@, rows: self.rows }
    }
}

impl DeepView for Tag {
    type V = TagV;

    open spec fn deep_view(&self) -> TagV {
        self.view()
    }
}

impl Tag {
    /// Build a completion tag for a statement that produced no row set.
    pub fn new_for_execution(command: &str, rows: Option<u64>) -> (t: Tag)
        ensures
            t@.command == command@,
            t@.rows == rows,
    {
        Tag { command: command.to_owned(), rows }
    }
}

/// A row set: column schema plus the rows that carry it.
#[derive(Debug, Clone, PartialEq)]
pub struct QueryResponse {
    pub columns: Vec<ColumnInfo>,
    pub rows: Vec<DataRow>,
}

/// Mathematical model of a row set.
#[verifier::ext_equal]
pub struct QueryResponseV {
    pub columns: Seq<ColumnInfoV>,
    pub rows: Seq<Seq<Option<Seq<u8>>>>,
}

impl View for QueryResponse {
    type V = QueryResponseV;

    open spec fn view(&self) -> QueryResponseV {
        QueryResponseV {
            columns: self.columns.deep_view(),
            rows: self.rows.deep_view(),
        }
    }
}

impl DeepView for QueryResponse {
    type V = QueryResponseV;

    open spec fn deep_view(&self) -> QueryResponseV {
        self.view()
    }
}

impl QueryResponseV {
    /// Field arity is constant across all rows of one result set.
    pub open spec fn wf(self) -> bool {
        forall|i: int| 0 <= i < self.rows.len() ==> (#[trigger] self.rows[i]).len() == self.columns.len()
    }
}

/// One downstream response for one executed statement.
#[derive(Debug, Clone, PartialEq)]
pub enum Response {
    /// The reply to an empty query string: a no-op, not an error.
    EmptyQuery,
    /// A statement that produced no row set.
    Execution(Tag),
    /// A statement that produced a row set.
    Query(QueryResponse),
}

/// Mathematical model of a downstream response.
#[verifier::ext_equal]
pub enum ResponseV {
    EmptyQuery,
    Execution(TagV),
    Query(QueryResponseV),
}

impl View for Response {
    type V = ResponseV;

    open spec fn view(&self) -> ResponseV {
        match self {
            Response::EmptyQuery => ResponseV::EmptyQuery,
            Response::Execution(t) => ResponseV::Execution(t@),
            Response::Query(q) => ResponseV::Query(q@),
        }
    }
}

impl DeepView for Response {
    type V = ResponseV;

    open spec fn deep_view(&self) -> ResponseV {
        self.view()
    }
}

/// Details of an error reported by the upstream server.
#[derive(Debug, Clone, PartialEq)]
pub struct ErrorInfo {
    pub code: String,
    pub message: String,
}

/// Mathematical model of an upstream error.
#[verifier::ext_equal]
pub struct ErrorInfoV {
    pub code: Seq<char>,
    pub message: Seq<char>,
}

impl View for ErrorInfo {
    type V = ErrorInfoV;

    open spec fn view(&self) -> ErrorInfoV {
        ErrorInfoV { code: self.code@, message: self.message@ }
    }
}

impl DeepView for ErrorInfo {
    type V = ErrorInfoV;

    open spec fn deep_view(&self) -> ErrorInfoV {
        self.view()
    }
}

/// The error kinds the handlers report. None of them terminates the
/// connection; each is turned into an error response by the dispatcher.
#[derive(Debug, Clone, PartialEq)]
pub enum HandlerError {
    /// Query or connection failure reported by the upstream server.
    Upstream(ErrorInfo),
    /// An extended-protocol operation named an unknown statement.
    StatementNotFound(String),
    /// An extended-protocol operation named an unknown portal.
    PortalNotFound(String),
    /// A value could not be represented in the requested wire format.
    Encoding(String),
    /// A client message was invalid for the current state, such as a
    /// bind with the wrong number of parameter values.
    Protocol(String),
}

/// Mathematical model of a handler error.
#[verifier::ext_equal]
pub enum HandlerErrorV {
    Upstream(ErrorInfoV),
    StatementNotFound(Seq<char>),
    PortalNotFound(Seq<char>),
    Encoding(Seq<char>),
    Protocol(Seq<char>),
}

impl View for HandlerError {
    type V = HandlerErrorV;

    open spec fn view(&self) -> HandlerErrorV {
        match self {
            HandlerError::Upstream(e) => HandlerErrorV::Upstream(e@),
            HandlerError::StatementNotFound(n) => HandlerErrorV::StatementNotFound(n@),
            HandlerError::PortalNotFound(n) => HandlerErrorV::PortalNotFound(n@),
            HandlerError::Encoding(m) => HandlerErrorV::Encoding(m@),
            HandlerError::Protocol(m) => HandlerErrorV::Protocol(m@),
        }
    }
}

impl DeepView for HandlerError {
    type V = HandlerErrorV;

    open spec fn deep_view(&self) -> HandlerErrorV {
        self.view()
    }
}

/// Reply to a describe-statement message: the statement's parameter
/// types and, when it produces rows, its result columns.
#[derive(Debug, Clone, PartialEq)]
pub struct DescribeStatementResponse {
    pub param_types: Vec<u32>,
    pub columns: Vec<ColumnInfo>,
}

/// Mathematical model of a describe-statement reply.
#[verifier::ext_equal]
pub struct DescribeStatementResponseV {
    pub param_types: Seq<u32>,
    pub columns: Seq<ColumnInfoV>,
}

impl View for DescribeStatementResponse {
    type V = DescribeStatementResponseV;

    open spec fn view(&self) -> DescribeStatementResponseV {
        DescribeStatementResponseV {
            param_types: self.param_types@,
            columns: self.columns.deep_view(),
        }
    }
}

impl DeepView for DescribeStatementResponse {
    type V = DescribeStatementResponseV;

    open spec fn deep_view(&self) -> DescribeStatementResponseV {
        self.view()
    }
}

/// Reply to a describe-portal message: the result columns with the
/// portal's bound result formats applied.
#[derive(Debug, Clone, PartialEq)]
pub struct DescribePortalResponse {
    pub columns: Vec<ColumnInfo>,
}

/// Mathematical model of a describe-portal reply.
#[verifier::ext_equal]
pub struct DescribePortalResponseV {
    pub columns: Seq<ColumnInfoV>,
}

impl View for DescribePortalResponse {
    type V = DescribePortalResponseV;

    open spec fn view(&self) -> DescribePortalResponseV {
        DescribePortalResponseV { columns: self.columns.deep_view() }
    }
}

impl DeepView for DescribePortalResponse {
    type V = DescribePortalResponseV;

    open spec fn deep_view(&self) -> DescribePortalResponseV {
        self.view()
    }
}

/// The format a bind message assigned to result column `i`: no format
/// code means text for every column, one format code applies to every
/// column, and otherwise the codes are per column.
pub open spec fn spec_format_for(formats: Seq<FieldFormat>, i: int) -> FieldFormat {
    if formats.len() == 0 {
        FieldFormat::Text
    } else if formats.len() == 1 {
        formats[0]
    } else if 0 <= i < formats.len() {
        formats[i]
    } else {
        FieldFormat::Text
    }
}

/// Resolve the result format for column `i` under the bind message's
/// format-code list.
pub fn format_for(formats: &Vec<FieldFormat>, i: usize) -> (f: FieldFormat)
    ensures
        f == spec_format_for(formats@, i as int),
{
    if formats.len() == 0 {
        FieldFormat::Text
    } else if formats.len() == 1 {
        formats[0]
    } else if i < formats.len() {
        formats[i]
    } else {
        FieldFormat::Text
    }
}

} // verus!
