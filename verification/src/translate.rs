//! Result translator and simple query handler: demultiplex the
//! upstream's interleaved stream of rows and completion notices into
//! one ordered downstream response per statement, buffering the rows
//! of each statement until its completion notice arrives.

use vstd::prelude::*;
use crate::results::{
    ColumnInfo, ColumnInfoV, DataRow, ErrorInfo, ErrorInfoV, FieldFormat, QueryResponse,
    QueryResponseV, Response, ResponseV, Tag, TagV,
};

verus! {

/// Column metadata the upstream driver reports for one row.
#[derive(Debug, PartialEq)]
pub struct UpstreamColumn {
    pub name: String,
    pub type_oid: u32,
}

/// Mathematical model of upstream column metadata.
#[verifier::ext_equal]
pub struct UpstreamColumnV {
    pub name: Seq<char>,
    pub type_oid: u32,
}

impl View for UpstreamColumn {
    type V = UpstreamColumnV;

    open spec fn view(&self) -> UpstreamColumnV {
        UpstreamColumnV { name: self.name@, type_oid: self.type_oid }
    }
}

impl DeepView for UpstreamColumn {
    type V = UpstreamColumnV;

    open spec fn deep_view(&self) -> UpstreamColumnV {
        self.view()
    }
}

/// One data row as delivered by the upstream driver: per-column
/// metadata plus the nullable field values.
#[derive(Debug, PartialEq)]
pub struct UpstreamRow {
    pub columns: Vec<UpstreamColumn>,
    pub values: Vec<Option<Vec<u8>>>,
}

/// Mathematical model of an upstream row.
#[verifier::ext_equal]
pub struct UpstreamRowV {
    pub columns: Seq<UpstreamColumnV>,
    pub values: Seq<Option<Seq<u8>>>,
}

impl View for UpstreamRow {
    type V = UpstreamRowV;

    open spec fn view(&self) -> UpstreamRowV {
        UpstreamRowV { columns: self.columns.deep_view(), values: self.values.deep_view() }
    }
}

impl DeepView for UpstreamRow {
    type V = UpstreamRowV;

    open spec fn deep_view(&self) -> UpstreamRowV {
        self.view()
    }
}

/// One item of the upstream's response stream to a simple query.
#[derive(Debug, PartialEq)]
pub enum UpstreamEvent {
    /// A data row of the statement currently executing.
    Row(UpstreamRow),
    /// The completion notice that ends the current statement.
    Complete(Tag),
    /// An upstream error; it terminates the stream.
    Error(ErrorInfo),
}

/// Mathematical model of an upstream stream item.
#[verifier::ext_equal]
pub enum UpstreamEventV {
    Row(UpstreamRowV),
    Complete(TagV),
    Error(ErrorInfoV),
}

impl View for UpstreamEvent {
    type V = UpstreamEventV;

    open spec fn view(&self) -> UpstreamEventV {
        match self {
            UpstreamEvent::Row(r) => UpstreamEventV::Row(r@),
            UpstreamEvent::Complete(t) => UpstreamEventV::Complete(t@),
            UpstreamEvent::Error(e) => UpstreamEventV::Error(e@),
        }
    }
}

impl DeepView for UpstreamEvent {
    type V = UpstreamEventV;

    open spec fn deep_view(&self) -> UpstreamEventV {
        self.view()
    }
}

/// The column descriptors a row set advertises: name and type are
/// taken from the upstream metadata of the first row; a simple query
/// always returns text format.
pub open spec fn spec_column_descrs(cols: Seq<UpstreamColumnV>) -> Seq<ColumnInfoV> {
    cols.map_values(
        |c: UpstreamColumnV|
            ColumnInfoV { name: c.name, type_oid: c.type_oid, format: FieldFormat::Text },
    )
}

/// The row set assembled from the rows buffered for one statement.
pub open spec fn spec_row_set(buf: Seq<UpstreamRowV>) -> QueryResponseV
    recommends
        buf.len() > 0,
{
    QueryResponseV {
        columns: spec_column_descrs(buf[0].columns),
        rows: buf.map_values(|r: UpstreamRowV| r.values),
    }
}

/// The one response a completion notice produces: an execution tag
/// when no rows were buffered, otherwise the buffered row set.
pub open spec fn spec_group_response(tag: TagV, buf: Seq<UpstreamRowV>) -> ResponseV {
    if buf.len() == 0 {
        ResponseV::Execution(tag)
    } else {
        ResponseV::Query(spec_row_set(buf))
    }
}

/// Result of translating one upstream stream: the ordered responses of
/// the statements that completed, and the terminal error if one ended
/// the stream.
#[verifier::ext_equal]
pub struct TranslationV {
    pub responses: Seq<ResponseV>,
    pub error: Option<ErrorInfoV>,
}

/// What translating the stream `events` yields, with `buf` holding the
/// rows already buffered for the statement currently executing: rows
/// accumulate until their completion notice arrives; each completion
/// notice emits exactly one response; an error ends translation, and
/// the statements completed before it keep their responses.
pub open spec fn spec_translate(events: Seq<UpstreamEventV>, buf: Seq<UpstreamRowV>) -> TranslationV
    decreases events.len(),
{
    if events.len() == 0 {
        TranslationV { responses: Seq::empty(), error: None }
    } else {
        match events[0] {
            UpstreamEventV::Row(r) => spec_translate(events.drop_first(), buf.push(r)),
            UpstreamEventV::Complete(tag) => {
                let rest = spec_translate(events.drop_first(), Seq::empty());
                TranslationV {
                    responses: seq![spec_group_response(tag, buf)] + rest.responses,
                    error: rest.error,
                }
            },
            UpstreamEventV::Error(e) => TranslationV {
                responses: Seq::empty(),
                error: Some(e),
            },
        }
    }
}

/// Outcome of one simple query: the ordered responses, and the
/// upstream error to forward if the batch failed part way.
#[derive(Debug, PartialEq)]
pub struct SimpleQueryOutcome {
    pub responses: Vec<Response>,
    pub error: Option<ErrorInfo>,
}

impl View for SimpleQueryOutcome {
    type V = TranslationV;

    open spec fn view(&self) -> TranslationV {
        TranslationV { responses: self.responses.deep_view(), error: self.error.deep_view() }
    }
}

/// Assemble the row set for one statement's buffered rows: the schema
/// comes from the first row's own column metadata, each buffered row
/// keeps its values in order, and a SQL NULL field stays a NULL marker.
pub fn build_row_set(buf: Vec<UpstreamRow>) -> (q: QueryResponse)
    requires
        buf@.len() > 0,
    ensures
        q@ == spec_row_set(buf.deep_view()),
{
    let ghost origb = buf.deep_view();
    let mut columns: Vec<ColumnInfo> = Vec::new();
    let first = &buf[0];
    let ncols = first.columns.len();
    let mut i: usize = 0;
    while i < ncols
        invariant
            ncols == first.columns@.len(),
            first == buf@[0],
            buf.deep_view() == origb,
            origb.len() > 0,
            0 <= i <= ncols,
            columns@.len() == i as int,
            columns.deep_view() =~= spec_column_descrs(origb[0].columns).take(i as int),
        decreases ncols - i,
    {
        let c = &first.columns[i];
        columns.push(ColumnInfo { name: c.name.clone(), type_oid: c.type_oid, format: FieldFormat::Text });
        proof {
            assert(origb[0] == buf@[0].deep_view());
            assert(origb[0].columns[i as int] == first.columns@[i as int]@);
            assert(columns.deep_view() =~= spec_column_descrs(origb[0].columns).take(i as int + 1));
        }
        i += 1;
    }
    proof {
        assert(spec_column_descrs(origb[0].columns).take(ncols as int) =~= spec_column_descrs(
            origb[0].columns,
        ));
    }
    let mut rows: Vec<DataRow> = Vec::new();
    let mut rest = buf;
    while rest.len() > 0
        invariant
            rows@.len() + rest@.len() == origb.len(),
            rows.deep_view() =~= origb.map_values(|r: UpstreamRowV| r.values).take(
                rows@.len() as int,
            ),
            rest.deep_view() =~= origb.skip(rows@.len() as int),
        decreases rest.len(),
    {
        let ghost rem0 = rest.deep_view();
        let ghost done = rows@.len() as int;
        let row = rest.remove(0);
        proof {
            assert(row.deep_view() == rem0[0]);
            assert(rest.deep_view() =~= rem0.drop_first());
            assert(rest.deep_view() =~= origb.skip(done + 1));
        }
        rows.push(DataRow { values: row.values });
        proof {
            assert(rows.deep_view() =~= origb.map_values(|r: UpstreamRowV| r.values).take(
                done + 1,
            ));
        }
    }
    proof {
        assert(rows.deep_view() =~= origb.map_values(|r: UpstreamRowV| r.values));
    }
    let q = QueryResponse { columns, rows };
    proof {
        assert(q@ =~= spec_row_set(origb));
    }
    q
}

/// The single response for one completed statement: an execution tag
/// when no rows were buffered, otherwise the buffered row set.
pub fn make_group_response(tag: Tag, buf: Vec<UpstreamRow>) -> (r: Response)
    ensures
        r@ == spec_group_response(tag@, buf.deep_view()),
{
    if buf.len() == 0 {
        Response::Execution(tag)
    } else {
        Response::Query(build_row_set(buf))
    }
}

/// Translate the upstream's full response stream for one simple query
/// into the ordered downstream responses, one per completed statement,
/// stopping at the first upstream error and forwarding it.
pub fn translate_events(events: Vec<UpstreamEvent>) -> (out: SimpleQueryOutcome)
    ensures
        out@ == spec_translate(events.deep_view(), Seq::empty()),
{
    let ghost orig = events.deep_view();
    let mut evs = events;
    let mut responses: Vec<Response> = Vec::new();
    let mut buf: Vec<UpstreamRow> = Vec::new();
    let mut error: Option<ErrorInfo> = None;
    proof {
        assert(buf.deep_view() =~= Seq::<UpstreamRowV>::empty());
        assert(responses.deep_view() =~= Seq::<ResponseV>::empty());
    }
    while evs.len() > 0
        invariant
            match error {
                None => spec_translate(orig, Seq::empty()).responses == responses.deep_view()
                    + spec_translate(evs.deep_view(), buf.deep_view()).responses && spec_translate(
                    orig,
                    Seq::empty(),
                ).error == spec_translate(evs.deep_view(), buf.deep_view()).error,
                Some(e) => evs@.len() == 0 && spec_translate(orig, Seq::empty()).responses
                    == responses.deep_view() && spec_translate(orig, Seq::empty()).error == Some(
                    e@,
                ),
            },
        decreases evs.len(),
    {
        let ghost pre_ev = evs.deep_view();
        let ghost pre_buf = buf.deep_view();
        let ev = evs.remove(0);
        proof {
            assert(ev.deep_view() == pre_ev[0]);
            assert(evs.deep_view() =~= pre_ev.drop_first());
        }
        match ev {
            UpstreamEvent::Row(r) => {
                buf.push(r);
                proof {
                    assert(buf.deep_view() =~= pre_buf.push(r@));
                    assert(spec_translate(pre_ev, pre_buf) == spec_translate(
                        evs.deep_view(),
                        buf.deep_view(),
                    ));
                }
            },
            UpstreamEvent::Complete(tag) => {
                let ghost tagv = tag@;
                let resp = make_group_response(tag, buf);
                buf = Vec::new();
                let ghost pre_resp = responses.deep_view();
                responses.push(resp);
                proof {
                    assert(buf.deep_view() =~= Seq::<UpstreamRowV>::empty());
                    assert(responses.deep_view() =~= pre_resp.push(resp@));
                    let rest = spec_translate(evs.deep_view(), Seq::empty());
                    assert(spec_translate(pre_ev, pre_buf).responses == seq![
                        spec_group_response(tagv, pre_buf),
                    ] + rest.responses);
                    assert(pre_resp + (seq![spec_group_response(tagv, pre_buf)] + rest.responses)
                        =~= pre_resp.push(spec_group_response(tagv, pre_buf)) + rest.responses);
                }
            },
            UpstreamEvent::Error(e) => {
                error = Some(e);
                evs.clear();
                proof {
                    assert(spec_translate(pre_ev, pre_buf).error == Some(e@));
                    assert(spec_translate(pre_ev, pre_buf).responses =~= Seq::<ResponseV>::empty());
                    assert(responses.deep_view() + Seq::<ResponseV>::empty() =~= responses.deep_view());
                }
            },
        }
    }
    proof {
        if error is None {
            assert(evs.deep_view() =~= Seq::<UpstreamEventV>::empty());
            assert(spec_translate(evs.deep_view(), buf.deep_view()).responses
                =~= Seq::<ResponseV>::empty());
            assert(responses.deep_view() + Seq::<ResponseV>::empty() =~= responses.deep_view());
        }
    }
    let out = SimpleQueryOutcome { responses, error };
    proof {
        assert(out@ =~= spec_translate(orig, Seq::empty()));
    }
    out
}

/// The simple query handler: an empty query string is a no-op answered
/// with a single empty-query response, never an error; any other query
/// is sent upstream as one multi-statement batch, and the upstream's
/// response stream is translated to one response per statement.
pub fn handle_simple_query(query: &str, events: Vec<UpstreamEvent>) -> (out: SimpleQueryOutcome)
    ensures
        query@.len() == 0 ==> out@ == (TranslationV {
            responses: seq![ResponseV::EmptyQuery],
            error: None,
        }),
        query@.len() > 0 ==> out@ == spec_translate(events.deep_view(), Seq::empty()),
{
    if query.is_empty() {
        let mut responses: Vec<Response> = Vec::new();
        responses.push(Response::EmptyQuery);
        let out = SimpleQueryOutcome { responses, error: None };
        proof {
            assert(out@.responses =~= seq![ResponseV::EmptyQuery]);
            assert(out@ =~= (TranslationV { responses: seq![ResponseV::EmptyQuery], error: None }));
        }
        out
    } else {
        translate_events(events)
    }
}

/// How many statements complete before the stream's first error (all
/// of them when no error occurs).
pub open spec fn count_completes_before_error(events: Seq<UpstreamEventV>) -> int
    decreases events.len(),
{
    if events.len() == 0 {
        0
    } else {
        match events[0] {
            UpstreamEventV::Complete(_) => 1 + count_completes_before_error(events.drop_first()),
            UpstreamEventV::Row(_) => count_completes_before_error(events.drop_first()),
            UpstreamEventV::Error(_) => 0,
        }
    }
}

/// The first error of the stream, if any.
pub open spec fn first_error(events: Seq<UpstreamEventV>) -> Option<ErrorInfoV>
    decreases events.len(),
{
    if events.len() == 0 {
        None
    } else {
        match events[0] {
            UpstreamEventV::Error(e) => Some(e),
            _ => first_error(events.drop_first()),
        }
    }
}

/// The assembled row set keeps the arity invariant: when every
/// buffered row carries one value per column of the first row's
/// metadata, every row of the result matches the schema's length.
pub proof fn lemma_row_set_arity(buf: Seq<UpstreamRowV>)
    requires
        buf.len() > 0,
        forall|i: int|
            0 <= i < buf.len() ==> (#[trigger] buf[i].values).len() == buf[0].columns.len(),
    ensures
        spec_row_set(buf).wf(),
{
}

/// The assembled column descriptors are well formed whenever the
/// upstream metadata carries non-empty column names.
pub proof fn lemma_row_set_columns_wf(buf: Seq<UpstreamRowV>)
    requires
        buf.len() > 0,
        forall|i: int|
            0 <= i < buf[0].columns.len() ==> (#[trigger] buf[0].columns[i].name).len() > 0,
    ensures
        forall|i: int|
            0 <= i < spec_row_set(buf).columns.len() ==> (#[trigger] spec_row_set(
                buf,
            ).columns[i]).wf(),
{
}

/// Law of the simple query handler: a batch whose stream carries N
/// completion notices and no error yields exactly N ordered responses
/// and no error; a stream that fails after K completed statements
/// yields exactly those K responses plus the terminal error.
pub proof fn lemma_translate_counts(events: Seq<UpstreamEventV>, buf: Seq<UpstreamRowV>)
    ensures
        spec_translate(events, buf).responses.len() == count_completes_before_error(events),
        spec_translate(events, buf).error == first_error(events),
    decreases events.len(),
{
    if events.len() > 0 {
        match events[0] {
            UpstreamEventV::Row(r) => {
                lemma_translate_counts(events.drop_first(), buf.push(r));
            },
            UpstreamEventV::Complete(_) => {
                lemma_translate_counts(events.drop_first(), Seq::empty());
            },
            UpstreamEventV::Error(_) => {},
        }
    }
}

} // verus!
