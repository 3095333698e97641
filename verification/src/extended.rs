//! Extended query handler: describe a prepared statement or a portal,
//! bind a portal from a stored statement, and execute a portal with an
//! optional row limit, leaving it resumable until its buffered result
//! is exhausted. The upstream fetch itself is I/O and happens outside;
//! this module installs the fetched rows into the portal and slices
//! them for each execute message.

use vstd::prelude::*;
use crate::results::{
    format_for, spec_format_for, ColumnInfo, ColumnInfoV, DataRow, DescribePortalResponse,
    DescribePortalResponseV, DescribeStatementResponse, DescribeStatementResponseV, FieldFormat,
    HandlerError, HandlerErrorV,
};
use crate::store::{copy_columns, copy_u32s, MemPortalStore, Portal, PortalV, StoredStatementV};

verus! {

/// What describing a statement yields: its parameter types and result
/// columns, or a statement-not-found error for an unknown name.
pub open spec fn spec_describe_statement(st: Option<StoredStatementV>, name: Seq<char>) -> Result<
    DescribeStatementResponseV,
    HandlerErrorV,
> {
    match st {
        Some(s) => Ok(
            DescribeStatementResponseV { param_types: s.param_types, columns: s.columns },
        ),
        None => Err(HandlerErrorV::StatementNotFound(name)),
    }
}

/// The statement's result columns with the portal's bound result
/// formats applied to them, column by column.
pub open spec fn spec_portal_columns(
    st_cols: Seq<ColumnInfoV>,
    formats: Seq<FieldFormat>,
) -> Seq<ColumnInfoV> {
    Seq::new(
        st_cols.len(),
        |i: int|
            ColumnInfoV {
                name: st_cols[i].name,
                type_oid: st_cols[i].type_oid,
                format: spec_format_for(formats, i),
            },
    )
}

/// What describing a portal yields: the result columns under the
/// portal's bound formats, or a portal-not-found error.
pub open spec fn spec_describe_portal(p: Option<PortalV>, name: Seq<char>) -> Result<
    DescribePortalResponseV,
    HandlerErrorV,
> {
    match p {
        Some(q) => Ok(
            DescribePortalResponseV {
                columns: spec_portal_columns(q.statement.columns, q.result_formats),
            },
        ),
        None => Err(HandlerErrorV::PortalNotFound(name)),
    }
}

/// Look the named statement up and report its parameter types and
/// result columns; an unknown name fails with statement-not-found.
pub fn describe_statement(store: &MemPortalStore, name: &String) -> (r: Result<
    DescribeStatementResponse,
    HandlerError,
>)
    ensures
        match r {
            Ok(d) => spec_describe_statement(store.statement(name@), name@) == Ok::<
                DescribeStatementResponseV,
                HandlerErrorV,
            >(d@),
            Err(e) => spec_describe_statement(store.statement(name@), name@) == Err::<
                DescribeStatementResponseV,
                HandlerErrorV,
            >(e@),
        },
{
    match store.get_statement(name) {
        Some(st) => {
            let d = DescribeStatementResponse {
                param_types: copy_u32s(&st.param_types),
                columns: copy_columns(&st.columns),
            };
            proof {
                assert(d@ =~= (DescribeStatementResponseV {
                    param_types: st@.param_types,
                    columns: st@.columns,
                }));
            }
            Ok(d)
        },
        None => Err(HandlerError::StatementNotFound(name.clone())),
    }
}

/// Look the named portal up and report its result columns with the
/// bound result formats applied; an unknown name fails with
/// portal-not-found.
pub fn describe_portal(store: &MemPortalStore, name: &String) -> (r: Result<
    DescribePortalResponse,
    HandlerError,
>)
    ensures
        match r {
            Ok(d) => spec_describe_portal(store.portal(name@), name@) == Ok::<
                DescribePortalResponseV,
                HandlerErrorV,
            >(d@),
            Err(e) => spec_describe_portal(store.portal(name@), name@) == Err::<
                DescribePortalResponseV,
                HandlerErrorV,
            >(e@),
        },
{
    match store.get_portal(name) {
        Some(p) => {
            let st_cols = &p.statement.columns;
            let mut columns: Vec<ColumnInfo> = Vec::new();
            let n = st_cols.len();
            let mut i: usize = 0;
            while i < n
                invariant
                    n == st_cols@.len(),
                    0 <= i <= n,
                    columns@.len() == i as int,
                    columns.deep_view() =~= spec_portal_columns(
                        st_cols.deep_view(),
                        p.result_formats@,
                    ).take(i as int),
                decreases n - i,
            {
                let c = &st_cols[i];
                columns.push(
                    ColumnInfo {
                        name: c.name.clone(),
                        type_oid: c.type_oid,
                        format: format_for(&p.result_formats, i),
                    },
                );
                proof {
                    assert(columns.deep_view() =~= spec_portal_columns(
                        st_cols.deep_view(),
                        p.result_formats@,
                    ).take(i as int + 1));
                }
                i += 1;
            }
            proof {
                assert(spec_portal_columns(st_cols.deep_view(), p.result_formats@).take(n as int)
                    =~= spec_portal_columns(st_cols.deep_view(), p.result_formats@));
            }
            let d = DescribePortalResponse { columns };
            proof {
                assert(d@ =~= (DescribePortalResponseV {
                    columns: spec_portal_columns(p@.statement.columns, p@.result_formats),
                }));
            }
            Ok(d)
        },
        None => Err(HandlerError::PortalNotFound(name.clone())),
    }
}

/// Law of describe: what a describe returns depends only on the entry
/// the store binds to the name, so describing the same name twice on
/// an unchanged store returns identical descriptors.
pub proof fn lemma_describe_statement_idempotent(
    s1: MemPortalStore,
    s2: MemPortalStore,
    name: Seq<char>,
)
    requires
        s1.statement(name) == s2.statement(name),
    ensures
        spec_describe_statement(s1.statement(name), name) == spec_describe_statement(
            s2.statement(name),
            name,
        ),
{
}

/// Portal twin of [`lemma_describe_statement_idempotent`].
pub proof fn lemma_describe_portal_idempotent(
    s1: MemPortalStore,
    s2: MemPortalStore,
    name: Seq<char>,
)
    requires
        s1.portal(name) == s2.portal(name),
    ensures
        spec_describe_portal(s1.portal(name), name) == spec_describe_portal(s2.portal(name), name),
{
}

/// Bind a portal from a stored statement: the portal captures its own
/// copy of the statement, the given parameter values and the result
/// formats, and starts unexecuted. A parameter value list whose length
/// differs from the statement's parameter types is a binding error and
/// leaves the store unchanged, as does an unknown statement name.
pub fn bind_portal(
    store: &mut MemPortalStore,
    portal_name: String,
    statement_name: &String,
    params: Vec<Option<Vec<u8>>>,
    result_formats: Vec<FieldFormat>,
) -> (r: Result<(), HandlerError>)
    requires
        old(store).wf(),
    ensures
        final(store).wf(),
        forall|n: Seq<char>| #[trigger] final(store).statement(n) == old(store).statement(n),
        match r {
            Ok(_) => match old(store).statement(statement_name@) {
                Some(st) => params.deep_view().len() == st.param_types.len() && final(store).portal(portal_name@) == Some(
                    PortalV {
                        name: portal_name@,
                        statement: st,
                        params: params.deep_view(),
                        result_formats: result_formats@,
                        buffered: None,
                        cursor: 0,
                    },
                ) && forall|n: Seq<char>|
                    n != portal_name@ ==> #[trigger] final(store).portal(n) == old(store).portal(
                        n,
                    ),
                None => false,
            },
            Err(e) => (match old(store).statement(statement_name@) {
                Some(st) => params.deep_view().len() != st.param_types.len() && e@
                    == HandlerErrorV::Protocol("parameter count mismatch"@),
                None => e@ == HandlerErrorV::StatementNotFound(statement_name@),
            }) && forall|n: Seq<char>| #[trigger] final(store).portal(n) == old(store).portal(n),
        },
{
    let dup = match store.get_statement(statement_name) {
        Some(st) => st.duplicate(),
        None => {
            return Err(HandlerError::StatementNotFound(statement_name.clone()));
        },
    };
    if params.len() != dup.param_types.len() {
        return Err(HandlerError::Protocol("parameter count mismatch".to_owned()));
    }
    proof {
        assert(params.deep_view().len() == params@.len());
    }
    let portal = Portal {
        name: portal_name,
        statement: dup,
        params,
        result_formats,
        buffered: None,
        cursor: 0,
    };
    proof {
        assert(portal@.wf());
    }
    store.store_portal(portal);
    Ok(())
}

/// Install the rows fetched upstream for the named portal as its
/// buffered result, resetting the cursor: the portal now resumes from
/// the start of this fresh result. An unknown name is an error and
/// leaves the store unchanged.
pub fn install_portal_result(store: &mut MemPortalStore, name: &String, rows: Vec<DataRow>) -> (r:
    Result<(), HandlerError>)
    requires
        old(store).wf(),
    ensures
        final(store).wf(),
        forall|n: Seq<char>| #[trigger] final(store).statement(n) == old(store).statement(n),
        match r {
            Ok(_) => match old(store).portal(name@) {
                Some(p) => final(store).portal(name@) == Some(
                    PortalV {
                        name: p.name,
                        statement: p.statement,
                        params: p.params,
                        result_formats: p.result_formats,
                        buffered: Some(rows.deep_view()),
                        cursor: 0,
                    },
                ) && forall|n: Seq<char>|
                    n != name@ ==> #[trigger] final(store).portal(n) == old(store).portal(n),
                None => false,
            },
            Err(e) => old(store).portal(name@) is None && e@ == HandlerErrorV::PortalNotFound(
                name@,
            ) && forall|n: Seq<char>| #[trigger] final(store).portal(n) == old(store).portal(n),
        },
{
    let taken = store.take_portal(name);
    match taken {
        Some(p) => {
            let ghost pv = p@;
            let ghost rv = rows.deep_view();
            let updated = Portal {
                name: p.name,
                statement: p.statement,
                params: p.params,
                result_formats: p.result_formats,
                buffered: Some(rows),
                cursor: 0,
            };
            proof {
                assert(updated@.wf());
                assert(updated@ =~= (PortalV {
                    name: pv.name,
                    statement: pv.statement,
                    params: pv.params,
                    result_formats: pv.result_formats,
                    buffered: Some(rv),
                    cursor: 0,
                }));
            }
            store.store_portal(updated);
            Ok(())
        },
        None => Err(HandlerError::PortalNotFound(name.clone())),
    }
}

/// How many rows one execute call delivers: all remaining rows when
/// the limit is zero (unlimited) or at least as large as the rest,
/// otherwise exactly the limit.
pub open spec fn spec_take_count(remaining: int, max_rows: int) -> int {
    if max_rows == 0 || max_rows >= remaining {
        remaining
    } else {
        max_rows
    }
}

/// The rows one execute call returns, with the portal remaining
/// resumable at the advanced cursor.
#[derive(Debug, PartialEq)]
pub struct ExecuteOutcome {
    pub rows: Vec<DataRow>,
    pub complete: bool,
}

/// Mathematical model of one execute call's outcome.
#[verifier::ext_equal]
pub struct ExecuteOutcomeV {
    pub rows: Seq<Seq<Option<Seq<u8>>>>,
    pub complete: bool,
}

impl View for ExecuteOutcome {
    type V = ExecuteOutcomeV;

    open spec fn view(&self) -> ExecuteOutcomeV {
        ExecuteOutcomeV { rows: self.rows.deep_view(), complete: self.complete }
    }
}

/// Copy one nullable field value.
fn copy_value(v: &Option<Vec<u8>>) -> (r: Option<Vec<u8>>)
    ensures
        r.deep_view() == v.deep_view(),
{
    match v {
        Some(b) => {
            let mut out: Vec<u8> = Vec::new();
            let mut i: usize = 0;
            while i < b.len()
                invariant
                    0 <= i <= b@.len(),
                    out@ =~= b@.take(i as int),
                decreases b@.len() - i,
            {
                out.push(b[i]);
                proof {
                    assert(out@ =~= b@.take(i as int + 1));
                }
                i += 1;
            }
            proof {
                assert(b@.take(b@.len() as int) =~= b@);
            }
            Some(out)
        },
        None => None,
    }
}

/// Copy one buffered row.
fn copy_row(r: &DataRow) -> (out: DataRow)
    ensures
        out@ == r@,
{
    let mut values: Vec<Option<Vec<u8>>> = Vec::new();
    let mut i: usize = 0;
    while i < r.values.len()
        invariant
            0 <= i <= r.values@.len(),
            values@.len() == i as int,
            values.deep_view() =~= r.values.deep_view().take(i as int),
        decreases r.values@.len() - i,
    {
        values.push(copy_value(&r.values[i]));
        proof {
            assert(values.deep_view() =~= r.values.deep_view().take(i as int + 1));
        }
        i += 1;
    }
    proof {
        assert(r.values.deep_view().take(r.values@.len() as int) =~= r.values.deep_view());
    }
    DataRow { values }
}

/// Execute the named portal: deliver at most `max_rows` of its
/// buffered rows starting at the cursor (zero means unlimited), and
/// advance the cursor so a later execute with the same name resumes
/// exactly where this one stopped. The outcome says whether the
/// result is now exhausted (command complete) or the portal was left
/// suspended. Executing an unknown portal, or one whose result has
/// not been installed yet, is an error that leaves the store
/// unchanged.
pub fn execute_portal(store: &mut MemPortalStore, name: &String, max_rows: usize) -> (r: Result<
    ExecuteOutcome,
    HandlerError,
>)
    requires
        old(store).wf(),
    ensures
        final(store).wf(),
        forall|n: Seq<char>| #[trigger] final(store).statement(n) == old(store).statement(n),
        match r {
            Ok(out) => match old(store).portal(name@) {
                Some(p) => match p.buffered {
                    Some(rows) => {
                        let k = spec_take_count(rows.len() - p.cursor, max_rows as int);
                        out@.rows == rows.subrange(p.cursor, p.cursor + k) && out@.complete == (
                        p.cursor + k == rows.len()) && final(store).portal(name@) == Some(
                            PortalV {
                                name: p.name,
                                statement: p.statement,
                                params: p.params,
                                result_formats: p.result_formats,
                                buffered: Some(rows),
                                cursor: p.cursor + k,
                            },
                        ) && forall|n: Seq<char>|
                            n != name@ ==> #[trigger] final(store).portal(n) == old(store).portal(
                                n,
                            )
                    },
                    None => false,
                },
                None => false,
            },
            Err(e) => (match old(store).portal(name@) {
                Some(p) => p.buffered is None && e@ == HandlerErrorV::Protocol(
                    "portal result not installed"@,
                ),
                None => e@ == HandlerErrorV::PortalNotFound(name@),
            }) && forall|n: Seq<char>| #[trigger] final(store).portal(n) == old(store).portal(n),
        },
{
    let taken = store.take_portal(name);
    let p = match taken {
        Some(p) => p,
        None => {
            return Err(HandlerError::PortalNotFound(name.clone()));
        },
    };
    let ghost pv = p@;
    match p.buffered {
        Some(rows) => {
            proof {
                assert(pv.buffered == Some(rows.deep_view()));
                assert(pv.cursor <= rows.deep_view().len());
                assert(rows.deep_view().len() == rows@.len());
            }
            let remaining = rows.len() - p.cursor;
            let k = if max_rows == 0 || max_rows >= remaining {
                remaining
            } else {
                max_rows
            };
            proof {
                assert(k as int == spec_take_count(
                    rows.deep_view().len() - pv.cursor,
                    max_rows as int,
                ));
            }
            let end: usize = p.cursor + k;
            let mut out_rows: Vec<DataRow> = Vec::new();
            let mut i: usize = p.cursor;
            while i < end
                invariant
                    rows.deep_view().len() == rows@.len(),
                    0 <= pv.cursor,
                    end as int == pv.cursor + k as int,
                    end as int <= rows@.len(),
                    pv.cursor <= i as int <= end as int,
                    out_rows@.len() == i as int - pv.cursor,
                    out_rows.deep_view() =~= rows.deep_view().subrange(pv.cursor, i as int),
                decreases end - i,
            {
                let ghost pre = out_rows.deep_view();
                out_rows.push(copy_row(&rows[i]));
                proof {
                    assert(out_rows.deep_view().len() == i as int + 1 - pv.cursor);
                    assert forall|j: int|
                        0 <= j < out_rows.deep_view().len() implies out_rows.deep_view()[j]
                        == rows.deep_view()[pv.cursor + j] by {
                        if j < i as int - pv.cursor {
                            assert(out_rows.deep_view()[j] == out_rows@[j].deep_view());
                            assert(out_rows.deep_view()[j] == pre[j]);
                        } else {
                            assert(out_rows@[j].deep_view() == rows@[i as int].deep_view());
                        }
                    }
                    assert(out_rows.deep_view() =~= rows.deep_view().subrange(
                        pv.cursor,
                        i as int + 1,
                    ));
                }
                i += 1;
            }
            let complete = end == rows.len();
            let ghost rv = rows.deep_view();
            let updated = Portal {
                name: p.name,
                statement: p.statement,
                params: p.params,
                result_formats: p.result_formats,
                buffered: Some(rows),
                cursor: end,
            };
            proof {
                assert(updated@.wf());
                assert(updated@ =~= (PortalV {
                    name: pv.name,
                    statement: pv.statement,
                    params: pv.params,
                    result_formats: pv.result_formats,
                    buffered: Some(rv),
                    cursor: pv.cursor + k as int,
                }));
            }
            store.store_portal(updated);
            let out = ExecuteOutcome { rows: out_rows, complete };
            proof {
                assert(out@.rows =~= rv.subrange(pv.cursor, pv.cursor + spec_take_count(
                    rv.len() - pv.cursor,
                    max_rows as int,
                )));
            }
            Ok(out)
        },
        None => {
            // The portal goes back unchanged: executing before the
            // result was installed must not lose the binding.
            proof {
                assert(p@ =~= pv);
            }
            store.store_portal(p);
            Err(HandlerError::Protocol("portal result not installed".to_owned()))
        },
    }
}

/// Law of portal resumption: two successive row-limited executes
/// deliver adjacent, non-overlapping slices of the buffered result —
/// their concatenation is exactly the contiguous range both cover, so
/// no row is duplicated or lost — and once the limits together reach
/// the remainder, the result is exhausted.
pub proof fn lemma_portal_resumption(
    rows: Seq<Seq<Option<Seq<u8>>>>,
    cursor: int,
    m1: int,
    m2: int,
)
    requires
        0 <= cursor <= rows.len(),
        m1 >= 0,
        m2 >= 0,
    ensures
        ({
            let k1 = spec_take_count(rows.len() - cursor, m1);
            let k2 = spec_take_count(rows.len() - cursor - k1, m2);
            &&& rows.subrange(cursor, cursor + k1) + rows.subrange(
                cursor + k1,
                cursor + k1 + k2,
            ) =~= rows.subrange(cursor, cursor + k1 + k2)
            &&& (rows.len() - cursor <= m1 + m2 || m1 == 0 || m2 == 0) ==> cursor + k1 + k2
                == rows.len()
        }),
{
}

} // verus!
