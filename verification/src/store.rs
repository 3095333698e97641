//! Per-connection statement and portal store: two independent name
//! spaces mapping client-chosen names to prepared statements and to
//! bound portals. Statements are immutable once stored; rebinding a
//! name installs a new statement object while portals keep their own
//! copy of the statement they were bound from. Closing a statement
//! also removes every portal bound from it.

use vstd::prelude::*;
use crate::results::{ColumnInfo, ColumnInfoV, DataRow, FieldFormat};

verus! {

/// A prepared statement: the original query text, the declared or
/// inferred parameter types, and the result columns the statement is
/// known to produce (empty when it produces no row set).
#[derive(Debug, PartialEq)]
pub struct StoredStatement {
    pub name: String,
    pub query: String,
    pub param_types: Vec<u32>,
    pub columns: Vec<ColumnInfo>,
}

/// Mathematical model of a prepared statement.
#[verifier::ext_equal]
pub struct StoredStatementV {
    pub name: Seq<char>,
    pub query: Seq<char>,
    pub param_types: Seq<u32>,
    pub columns: Seq<ColumnInfoV>,
}

impl View for StoredStatement {
    type V = StoredStatementV;

    open spec fn view(&self) -> StoredStatementV {
        StoredStatementV {
            name: self.name@,
            query: self.query@,
            param_types: self.param_types@,
            columns: self.columns.deep_view(),
        }
    }
}

impl DeepView for StoredStatement {
    type V = StoredStatementV;

    open spec fn deep_view(&self) -> StoredStatementV {
        self.view()
    }
}

/// Copy a column descriptor list element by element.
pub(crate) fn copy_columns(v: &Vec<ColumnInfo>) -> (r: Vec<ColumnInfo>)
    ensures
        r.deep_view() == v.deep_view(),
{
    let mut r: Vec<ColumnInfo> = Vec::new();
    let mut i: usize = 0;
    while i < v.len()
        invariant
            0 <= i <= v.len(),
            r@.len() == i as int,
            r.deep_view() =~= v.deep_view().take(i as int),
        decreases v.len() - i,
    {
        let c = &v[i];
        let c2 = ColumnInfo { name: c.name.clone(), type_oid: c.type_oid, format: c.format };
        proof {
            assert(c2 == v@[i as int]);
        }
        r.push(c2);
        proof {
            assert(r.deep_view().len() == i + 1);
            assert forall|j: int| 0 <= j < i + 1 implies r.deep_view()[j] == v.deep_view().take(
                i as int + 1,
            )[j] by {
                if j < i {
                    assert(r.deep_view()[j] == r@[j].deep_view());
                } else {
                    assert(r@[j] == c2);
                }
            }
            assert(r.deep_view() =~= v.deep_view().take(i as int + 1));
        }
        i += 1;
    }
    proof {
        assert(v.deep_view().take(v.len() as int) =~= v.deep_view());
    }
    r
}

/// Copy a parameter type list element by element.
pub(crate) fn copy_u32s(v: &Vec<u32>) -> (r: Vec<u32>)
    ensures
        r@ == v@,
{
    let mut r: Vec<u32> = Vec::new();
    let mut i: usize = 0;
    while i < v.len()
        invariant
            0 <= i <= v.len(),
            r@ =~= v@.take(i as int),
        decreases v.len() - i,
    {
        r.push(v[i]);
        proof {
            assert(r@ =~= v@.take(i as int + 1));
        }
        i += 1;
    }
    proof {
        assert(v@.take(v.len() as int) =~= v@);
    }
    r
}

impl StoredStatement {
    /// An independent copy of the statement, so that a portal keeps the
    /// statement shape it was bound from even when the name is rebound.
    pub fn duplicate(&self) -> (r: StoredStatement)
        ensures
            r@ == self@,
    {
        let r = StoredStatement {
            name: self.name.clone(),
            query: self.query.clone(),
            param_types: copy_u32s(&self.param_types),
            columns: copy_columns(&self.columns),
        };
        proof {
            assert(r@ =~= self@);
        }
        r
    }
}

/// A portal: a prepared statement bound to concrete parameter values
/// and result formats. After its first execution the full result is
/// buffered in the portal and a cursor tracks how many rows earlier
/// executes have already delivered, so that a later execute with the
/// same name resumes where the previous one stopped.
#[derive(Debug, PartialEq)]
pub struct Portal {
    pub name: String,
    pub statement: StoredStatement,
    pub params: Vec<Option<Vec<u8>>>,
    pub result_formats: Vec<FieldFormat>,
    pub buffered: Option<Vec<DataRow>>,
    pub cursor: usize,
}

/// Mathematical model of a portal.
#[verifier::ext_equal]
pub struct PortalV {
    pub name: Seq<char>,
    pub statement: StoredStatementV,
    pub params: Seq<Option<Seq<u8>>>,
    pub result_formats: Seq<FieldFormat>,
    pub buffered: Option<Seq<Seq<Option<Seq<u8>>>>>,
    pub cursor: int,
}

impl View for Portal {
    type V = PortalV;

    open spec fn view(&self) -> PortalV {
        PortalV {
            name: self.name@,
            statement: self.statement@,
            params: self.params.deep_view(),
            result_formats: self.result_formats@,
            buffered: match self.buffered {
                Some(ref rows) => Some(rows.deep_view()),
                None => None,
            },
            cursor: self.cursor as int,
        }
    }
}

impl DeepView for Portal {
    type V = PortalV;

    open spec fn deep_view(&self) -> PortalV {
        self.view()
    }
}

impl PortalV {
    /// The cursor never points past the buffered result, and is zero
    /// while nothing has been buffered yet.
    pub open spec fn wf(self) -> bool {
        match self.buffered {
            Some(rows) => 0 <= self.cursor <= rows.len(),
            None => self.cursor == 0,
        }
    }
}

/// What a name resolves to in an association list: the first entry,
/// scanning from the front, whose name matches.
pub open spec fn spec_stmt_lookup(s: Seq<StoredStatement>, name: Seq<char>) -> Option<
    StoredStatementV,
>
    decreases s.len(),
{
    if s.len() == 0 {
        None
    } else if s[0].name@ == name {
        Some(s[0]@)
    } else {
        spec_stmt_lookup(s.drop_first(), name)
    }
}

/// Portal twin of [`spec_stmt_lookup`].
pub open spec fn spec_portal_lookup(s: Seq<Portal>, name: Seq<char>) -> Option<PortalV>
    decreases s.len(),
{
    if s.len() == 0 {
        None
    } else if s[0].name@ == name {
        Some(s[0]@)
    } else {
        spec_portal_lookup(s.drop_first(), name)
    }
}

/// The first of two optional results, preferring the left one.
pub open spec fn or_else<T>(a: Option<T>, b: Option<T>) -> Option<T> {
    if a is Some {
        a
    } else {
        b
    }
}

/// Drop a resolved portal when it is bound from the named statement.
pub open spec fn purge_bound(p: Option<PortalV>, stmt_name: Seq<char>) -> Option<PortalV> {
    match p {
        Some(q) => if q.statement.name == stmt_name {
            None
        } else {
            Some(q)
        },
        None => None,
    }
}

/// No two statements in the list share a name.
pub open spec fn stmt_names_distinct(s: Seq<StoredStatement>) -> bool {
    forall|i: int, j: int|
        0 <= i < j < s.len() ==> (#[trigger] s[i].name@) != (#[trigger] s[j].name@)
}

/// No two portals in the list share a name.
pub open spec fn portal_names_distinct(s: Seq<Portal>) -> bool {
    forall|i: int, j: int|
        0 <= i < j < s.len() ==> (#[trigger] s[i].name@) != (#[trigger] s[j].name@)
}

proof fn lemma_stmt_lookup_push(s: Seq<StoredStatement>, x: StoredStatement, name: Seq<char>)
    ensures
        spec_stmt_lookup(s.push(x), name) == (if spec_stmt_lookup(s, name) is Some {
            spec_stmt_lookup(s, name)
        } else if x.name@ == name {
            Some(x@)
        } else {
            None::<StoredStatementV>
        }),
    decreases s.len(),
{
    if s.len() == 0 {
        assert(spec_stmt_lookup(s, name) is None);
        assert(s.push(x) =~= seq![x]);
        assert(seq![x].drop_first() =~= Seq::<StoredStatement>::empty());
        assert(spec_stmt_lookup(seq![x].drop_first(), name) is None);
        assert(seq![x][0] == x);
    } else {
        assert(s.push(x)[0] == s[0]);
        assert(s.push(x).drop_first() =~= s.drop_first().push(x));
        lemma_stmt_lookup_push(s.drop_first(), x, name);
        if s[0].name@ == name {
            assert(spec_stmt_lookup(s, name) == Some(s[0]@));
            assert(spec_stmt_lookup(s.push(x), name) == Some(s[0]@));
        } else {
            assert(spec_stmt_lookup(s, name) == spec_stmt_lookup(s.drop_first(), name));
            assert(spec_stmt_lookup(s.push(x), name) == spec_stmt_lookup(s.drop_first().push(x), name));
        }
    }
}

proof fn lemma_portal_lookup_push(s: Seq<Portal>, x: Portal, name: Seq<char>)
    ensures
        spec_portal_lookup(s.push(x), name) == (if spec_portal_lookup(s, name) is Some {
            spec_portal_lookup(s, name)
        } else if x.name@ == name {
            Some(x@)
        } else {
            None::<PortalV>
        }),
    decreases s.len(),
{
    if s.len() == 0 {
        assert(spec_portal_lookup(s, name) is None);
        assert(s.push(x) =~= seq![x]);
        assert(seq![x].drop_first() =~= Seq::<Portal>::empty());
        assert(spec_portal_lookup(seq![x].drop_first(), name) is None);
        assert(seq![x][0] == x);
    } else {
        assert(s.push(x)[0] == s[0]);
        assert(s.push(x).drop_first() =~= s.drop_first().push(x));
        lemma_portal_lookup_push(s.drop_first(), x, name);
        if s[0].name@ == name {
            assert(spec_portal_lookup(s, name) == Some(s[0]@));
            assert(spec_portal_lookup(s.push(x), name) == Some(s[0]@));
        } else {
            assert(spec_portal_lookup(s, name) == spec_portal_lookup(s.drop_first(), name));
            assert(spec_portal_lookup(s.push(x), name) == spec_portal_lookup(s.drop_first().push(x), name));
        }
    }
}

proof fn lemma_stmt_lookup_absent(s: Seq<StoredStatement>, name: Seq<char>)
    requires
        forall|i: int| 0 <= i < s.len() ==> (#[trigger] s[i].name@) != name,
    ensures
        spec_stmt_lookup(s, name) is None,
    decreases s.len(),
{
    if s.len() > 0 {
        assert(forall|i: int|
            0 <= i < s.drop_first().len() ==> (#[trigger] s.drop_first()[i].name@) != name);
        lemma_stmt_lookup_absent(s.drop_first(), name);
    }
}

proof fn lemma_portal_lookup_absent(s: Seq<Portal>, name: Seq<char>)
    requires
        forall|i: int| 0 <= i < s.len() ==> (#[trigger] s[i].name@) != name,
    ensures
        spec_portal_lookup(s, name) is None,
    decreases s.len(),
{
    if s.len() > 0 {
        assert(forall|i: int|
            0 <= i < s.drop_first().len() ==> (#[trigger] s.drop_first()[i].name@) != name);
        lemma_portal_lookup_absent(s.drop_first(), name);
    }
}

/// In-memory portal and statement store, local to one connection.
#[derive(Debug)]
pub struct MemPortalStore {
    statements: Vec<StoredStatement>,
    portals: Vec<Portal>,
}

impl MemPortalStore {
    /// The statement the store currently binds to `name`.
    pub closed spec fn statement(self, name: Seq<char>) -> Option<StoredStatementV> {
        spec_stmt_lookup(self.statements@, name)
    }

    /// The portal the store currently binds to `name`.
    pub closed spec fn portal(self, name: Seq<char>) -> Option<PortalV> {
        spec_portal_lookup(self.portals@, name)
    }

    /// Internal invariant: names are unique in each name space and
    /// every stored portal is well formed.
    pub closed spec fn wf(self) -> bool {
        &&& stmt_names_distinct(self.statements@)
        &&& portal_names_distinct(self.portals@)
        &&& forall|i: int| 0 <= i < self.portals@.len() ==> (#[trigger] self.portals@[i])@.wf()
    }

    /// An empty store, as created for a fresh connection.
    pub fn new() -> (s: MemPortalStore)
        ensures
            s.wf(),
            forall|n: Seq<char>| #[trigger] s.statement(n) is None,
            forall|n: Seq<char>| #[trigger] s.portal(n) is None,
    {
        let s = MemPortalStore { statements: Vec::new(), portals: Vec::new() };
        proof {
            assert(forall|n: Seq<char>| #[trigger] spec_stmt_lookup(s.statements@, n) is None);
            assert(forall|n: Seq<char>| #[trigger] spec_portal_lookup(s.portals@, n) is None);
        }
        s
    }

    /// Look a statement up by name, or signal that it is unknown.
    pub fn get_statement(&self, name: &String) -> (r: Option<&StoredStatement>)
        ensures
            match r {
                Some(st) => self.statement(name@) == Some(st@),
                None => self.statement(name@) is None,
            },
    {
        let n = self.statements.len();
        let mut i: usize = 0;
        proof {
            assert(self.statements@.skip(0) =~= self.statements@);
        }
        while i < n
            invariant
                n == self.statements.len(),
                0 <= i <= n,
                spec_stmt_lookup(self.statements@, name@) == spec_stmt_lookup(
                    self.statements@.skip(i as int),
                    name@,
                ),
            decreases n - i,
        {
            proof {
                assert(self.statements@.skip(i as int)[0] == self.statements@[i as int]);
                assert(self.statements@.skip(i as int).drop_first() =~= self.statements@.skip(
                    i as int + 1,
                ));
            }
            if self.statements[i].name == *name {
                return Some(&self.statements[i]);
            }
            i += 1;
        }
        proof {
            assert(self.statements@.skip(n as int) =~= Seq::<StoredStatement>::empty());
        }
        None
    }

    /// Look a portal up by name, or signal that it is unknown.
    pub fn get_portal(&self, name: &String) -> (r: Option<&Portal>)
        ensures
            match r {
                Some(p) => self.portal(name@) == Some(p@),
                None => self.portal(name@) is None,
            },
    {
        let n = self.portals.len();
        let mut i: usize = 0;
        proof {
            assert(self.portals@.skip(0) =~= self.portals@);
        }
        while i < n
            invariant
                n == self.portals.len(),
                0 <= i <= n,
                spec_portal_lookup(self.portals@, name@) == spec_portal_lookup(
                    self.portals@.skip(i as int),
                    name@,
                ),
            decreases n - i,
        {
            proof {
                assert(self.portals@.skip(i as int)[0] == self.portals@[i as int]);
                assert(self.portals@.skip(i as int).drop_first() =~= self.portals@.skip(
                    i as int + 1,
                ));
            }
            if self.portals[i].name == *name {
                return Some(&self.portals[i]);
            }
            i += 1;
        }
        proof {
            assert(self.portals@.skip(n as int) =~= Seq::<Portal>::empty());
        }
        None
    }

    /// Insert a statement under its name, replacing any statement the
    /// name was previously bound to. Existing portals are untouched:
    /// each keeps its own copy of the statement it was bound from.
    pub fn store_statement(&mut self, stmt: StoredStatement)
        requires
            old(self).wf(),
        ensures
            final(self).wf(),
            final(self).statement(stmt.name@) == Some(stmt@),
            forall|n: Seq<char>|
                n != stmt.name@ ==> #[trigger] final(self).statement(n) == old(self).statement(n),
            forall|n: Seq<char>| #[trigger] final(self).portal(n) == old(self).portal(n),
    {
        let ghost orig = self.statements@;
        let mut kept: Vec<StoredStatement> = Vec::new();
        while self.statements.len() > 0
            invariant
                self.portals == old(self).portals,
                stmt_names_distinct(kept@),
                stmt_names_distinct(self.statements@),
                forall|i: int, j: int|
                    0 <= i < kept@.len() && 0 <= j < self.statements@.len() ==> (
                    #[trigger] kept@[i].name@) != (#[trigger] self.statements@[j].name@),
                forall|i: int| 0 <= i < kept@.len() ==> (#[trigger] kept@[i].name@) != stmt.name@,
                forall|n: Seq<char>|
                    n != stmt.name@ ==> #[trigger] spec_stmt_lookup(orig, n) == or_else(
                        spec_stmt_lookup(kept@, n),
                        spec_stmt_lookup(self.statements@, n),
                    ),
            decreases self.statements.len(),
        {
            let ghost rem0 = self.statements@;
            let x = self.statements.remove(0);
            proof {
                assert(self.statements@ =~= rem0.drop_first());
            }
            if x.name == stmt.name {
                proof {
                    assert forall|n: Seq<char>| n != stmt.name@ implies #[trigger] spec_stmt_lookup(
                        orig,
                        n,
                    ) == or_else(
                        spec_stmt_lookup(kept@, n),
                        spec_stmt_lookup(self.statements@, n),
                    ) by {
                        assert(spec_stmt_lookup(rem0, n) == spec_stmt_lookup(rem0.drop_first(), n));
                    }
                }
            } else {
                proof {
                    assert forall|n: Seq<char>| n != stmt.name@ implies #[trigger] spec_stmt_lookup(
                        orig,
                        n,
                    ) == or_else(
                        spec_stmt_lookup(kept@.push(x), n),
                        spec_stmt_lookup(self.statements@, n),
                    ) by {
                        lemma_stmt_lookup_push(kept@, x, n);
                        assert(spec_stmt_lookup(rem0, n) == if rem0[0].name@ == n {
                            Some(rem0[0]@)
                        } else {
                            spec_stmt_lookup(rem0.drop_first(), n)
                        });
                    }
                }
                kept.push(x);
            }
        }
        proof {
            assert(self.statements@ =~= Seq::<StoredStatement>::empty());
            assert forall|n: Seq<char>| true implies #[trigger] spec_stmt_lookup(
                kept@.push(stmt),
                n,
            ) == (if n == stmt.name@ {
                Some(stmt@)
            } else {
                spec_stmt_lookup(orig, n)
            }) by {
                lemma_stmt_lookup_push(kept@, stmt, n);
                if n == stmt.name@ {
                    lemma_stmt_lookup_absent(kept@, n);
                } else {
                    assert(spec_stmt_lookup(orig, n) == or_else(
                        spec_stmt_lookup(kept@, n),
                        spec_stmt_lookup(Seq::<StoredStatement>::empty(), n),
                    ));
                }
            }
        }
        kept.push(stmt);
        self.statements = kept;
    }

    /// Insert a portal under its name, replacing any portal the name
    /// was previously bound to.
    pub fn store_portal(&mut self, p: Portal)
        requires
            old(self).wf(),
            p@.wf(),
        ensures
            final(self).wf(),
            final(self).portal(p.name@) == Some(p@),
            forall|n: Seq<char>|
                n != p.name@ ==> #[trigger] final(self).portal(n) == old(self).portal(n),
            forall|n: Seq<char>| #[trigger] final(self).statement(n) == old(self).statement(n),
    {
        let ghost orig = self.portals@;
        let mut kept: Vec<Portal> = Vec::new();
        while self.portals.len() > 0
            invariant
                self.statements == old(self).statements,
                portal_names_distinct(kept@),
                portal_names_distinct(self.portals@),
                forall|i: int, j: int|
                    0 <= i < kept@.len() && 0 <= j < self.portals@.len() ==> (
                    #[trigger] kept@[i].name@) != (#[trigger] self.portals@[j].name@),
                forall|i: int| 0 <= i < kept@.len() ==> (#[trigger] kept@[i].name@) != p.name@,
                forall|i: int| 0 <= i < kept@.len() ==> (#[trigger] kept@[i])@.wf(),
                forall|i: int|
                    0 <= i < self.portals@.len() ==> (#[trigger] self.portals@[i])@.wf(),
                forall|n: Seq<char>|
                    n != p.name@ ==> #[trigger] spec_portal_lookup(orig, n) == or_else(
                        spec_portal_lookup(kept@, n),
                        spec_portal_lookup(self.portals@, n),
                    ),
            decreases self.portals.len(),
        {
            let ghost rem0 = self.portals@;
            let x = self.portals.remove(0);
            proof {
                assert(self.portals@ =~= rem0.drop_first());
            }
            if x.name == p.name {
                proof {
                    assert forall|n: Seq<char>| n != p.name@ implies #[trigger] spec_portal_lookup(
                        orig,
                        n,
                    ) == or_else(
                        spec_portal_lookup(kept@, n),
                        spec_portal_lookup(self.portals@, n),
                    ) by {
                        assert(spec_portal_lookup(rem0, n) == spec_portal_lookup(
                            rem0.drop_first(),
                            n,
                        ));
                    }
                }
            } else {
                proof {
                    assert forall|n: Seq<char>| n != p.name@ implies #[trigger] spec_portal_lookup(
                        orig,
                        n,
                    ) == or_else(
                        spec_portal_lookup(kept@.push(x), n),
                        spec_portal_lookup(self.portals@, n),
                    ) by {
                        lemma_portal_lookup_push(kept@, x, n);
                        assert(spec_portal_lookup(rem0, n) == if rem0[0].name@ == n {
                            Some(rem0[0]@)
                        } else {
                            spec_portal_lookup(rem0.drop_first(), n)
                        });
                    }
                }
                kept.push(x);
            }
        }
        proof {
            assert(self.portals@ =~= Seq::<Portal>::empty());
            assert forall|n: Seq<char>| true implies #[trigger] spec_portal_lookup(
                kept@.push(p),
                n,
            ) == (if n == p.name@ {
                Some(p@)
            } else {
                spec_portal_lookup(orig, n)
            }) by {
                lemma_portal_lookup_push(kept@, p, n);
                if n == p.name@ {
                    lemma_portal_lookup_absent(kept@, n);
                } else {
                    assert(spec_portal_lookup(orig, n) == or_else(
                        spec_portal_lookup(kept@, n),
                        spec_portal_lookup(Seq::<Portal>::empty(), n),
                    ));
                }
            }
        }
        kept.push(p);
        self.portals = kept;
    }

    /// Remove the portal bound to `name` from the store and hand it
    /// out, so the caller can advance it and store it back.
    pub fn take_portal(&mut self, name: &String) -> (r: Option<Portal>)
        requires
            old(self).wf(),
        ensures
            final(self).wf(),
            match r {
                Some(p) => old(self).portal(name@) == Some(p@) && p@.wf() && p.name@ == name@,
                None => old(self).portal(name@) is None,
            },
            final(self).portal(name@) is None,
            forall|n: Seq<char>|
                n != name@ ==> #[trigger] final(self).portal(n) == old(self).portal(n),
            forall|n: Seq<char>| #[trigger] final(self).statement(n) == old(self).statement(n),
    {
        let ghost orig = self.portals@;
        let mut kept: Vec<Portal> = Vec::new();
        let mut found: Option<Portal> = None;
        while self.portals.len() > 0
            invariant
                self.statements == old(self).statements,
                portal_names_distinct(kept@),
                portal_names_distinct(self.portals@),
                forall|i: int, j: int|
                    0 <= i < kept@.len() && 0 <= j < self.portals@.len() ==> (
                    #[trigger] kept@[i].name@) != (#[trigger] self.portals@[j].name@),
                forall|i: int| 0 <= i < kept@.len() ==> (#[trigger] kept@[i].name@) != name@,
                forall|i: int| 0 <= i < kept@.len() ==> (#[trigger] kept@[i])@.wf(),
                forall|i: int|
                    0 <= i < self.portals@.len() ==> (#[trigger] self.portals@[i])@.wf(),
                forall|n: Seq<char>|
                    n != name@ ==> #[trigger] spec_portal_lookup(orig, n) == or_else(
                        spec_portal_lookup(kept@, n),
                        spec_portal_lookup(self.portals@, n),
                    ),
                match found {
                    Some(p) => spec_portal_lookup(orig, name@) == Some(p@) && p@.wf()
                        && p.name@ == name@ && spec_portal_lookup(
                        self.portals@,
                        name@,
                    ) is None,
                    None => spec_portal_lookup(orig, name@) == spec_portal_lookup(
                        self.portals@,
                        name@,
                    ),
                },
            decreases self.portals.len(),
        {
            let ghost rem0 = self.portals@;
            let x = self.portals.remove(0);
            proof {
                assert(self.portals@ =~= rem0.drop_first());
            }
            if x.name == *name {
                proof {
                    assert(spec_portal_lookup(rem0, name@) == Some(x@));
                    assert forall|i: int|
                        0 <= i < self.portals@.len() implies (
                    #[trigger] self.portals@[i].name@) != name@ by {
                        assert(rem0[i + 1] == self.portals@[i]);
                    }
                    lemma_portal_lookup_absent(self.portals@, name@);
                    assert forall|n: Seq<char>| n != name@ implies #[trigger] spec_portal_lookup(
                        orig,
                        n,
                    ) == or_else(
                        spec_portal_lookup(kept@, n),
                        spec_portal_lookup(self.portals@, n),
                    ) by {
                        assert(spec_portal_lookup(rem0, n) == spec_portal_lookup(
                            rem0.drop_first(),
                            n,
                        ));
                    }
                }
                found = Some(x);
            } else {
                proof {
                    assert forall|n: Seq<char>| n != name@ implies #[trigger] spec_portal_lookup(
                        orig,
                        n,
                    ) == or_else(
                        spec_portal_lookup(kept@.push(x), n),
                        spec_portal_lookup(self.portals@, n),
                    ) by {
                        lemma_portal_lookup_push(kept@, x, n);
                        assert(spec_portal_lookup(rem0, n) == if rem0[0].name@ == n {
                            Some(rem0[0]@)
                        } else {
                            spec_portal_lookup(rem0.drop_first(), n)
                        });
                    }
                    assert(spec_portal_lookup(rem0, name@) == spec_portal_lookup(
                        rem0.drop_first(),
                        name@,
                    ));
                }
                kept.push(x);
            }
        }
        proof {
            assert(self.portals@ =~= Seq::<Portal>::empty());
            lemma_portal_lookup_absent(kept@, name@);
            assert forall|n: Seq<char>| n != name@ implies #[trigger] spec_portal_lookup(
                kept@,
                n,
            ) == spec_portal_lookup(orig, n) by {
                assert(spec_portal_lookup(orig, n) == or_else(
                    spec_portal_lookup(kept@, n),
                    spec_portal_lookup(Seq::<Portal>::empty(), n),
                ));
            }
        }
        self.portals = kept;
        found
    }

    /// Remove the statement bound to `name`, together with every
    /// portal bound from it: a portal never outlives its statement.
    /// Removing an unknown name is a no-op, as the protocol asks.
    pub fn close_statement(&mut self, name: &String)
        requires
            old(self).wf(),
        ensures
            final(self).wf(),
            final(self).statement(name@) is None,
            forall|n: Seq<char>|
                n != name@ ==> #[trigger] final(self).statement(n) == old(self).statement(n),
            forall|n: Seq<char>|
                #[trigger] final(self).portal(n) == purge_bound(old(self).portal(n), name@),
            forall|n: Seq<char>|
                match old(self).portal(n) {
                    Some(p) => p.statement.name == name@ ==> (#[trigger] final(self).portal(
                        n,
                    )) is None,
                    None => true,
                },
    {
        let ghost orig = self.statements@;
        let mut kept: Vec<StoredStatement> = Vec::new();
        while self.statements.len() > 0
            invariant
                self.portals == old(self).portals,
                stmt_names_distinct(kept@),
                stmt_names_distinct(self.statements@),
                forall|i: int, j: int|
                    0 <= i < kept@.len() && 0 <= j < self.statements@.len() ==> (
                    #[trigger] kept@[i].name@) != (#[trigger] self.statements@[j].name@),
                forall|i: int| 0 <= i < kept@.len() ==> (#[trigger] kept@[i].name@) != name@,
                forall|n: Seq<char>|
                    n != name@ ==> #[trigger] spec_stmt_lookup(orig, n) == or_else(
                        spec_stmt_lookup(kept@, n),
                        spec_stmt_lookup(self.statements@, n),
                    ),
            decreases self.statements.len(),
        {
            let ghost rem0 = self.statements@;
            let x = self.statements.remove(0);
            proof {
                assert(self.statements@ =~= rem0.drop_first());
            }
            if x.name == *name {
                proof {
                    assert forall|n: Seq<char>| n != name@ implies #[trigger] spec_stmt_lookup(
                        orig,
                        n,
                    ) == or_else(
                        spec_stmt_lookup(kept@, n),
                        spec_stmt_lookup(self.statements@, n),
                    ) by {
                        assert(spec_stmt_lookup(rem0, n) == spec_stmt_lookup(rem0.drop_first(), n));
                    }
                }
            } else {
                proof {
                    assert forall|n: Seq<char>| n != name@ implies #[trigger] spec_stmt_lookup(
                        orig,
                        n,
                    ) == or_else(
                        spec_stmt_lookup(kept@.push(x), n),
                        spec_stmt_lookup(self.statements@, n),
                    ) by {
                        lemma_stmt_lookup_push(kept@, x, n);
                        assert(spec_stmt_lookup(rem0, n) == if rem0[0].name@ == n {
                            Some(rem0[0]@)
                        } else {
                            spec_stmt_lookup(rem0.drop_first(), n)
                        });
                    }
                }
                kept.push(x);
            }
        }
        proof {
            assert(self.statements@ =~= Seq::<StoredStatement>::empty());
            lemma_stmt_lookup_absent(kept@, name@);
            assert forall|n: Seq<char>| n != name@ implies #[trigger] spec_stmt_lookup(
                kept@,
                n,
            ) == spec_stmt_lookup(orig, n) by {
                assert(spec_stmt_lookup(orig, n) == or_else(
                    spec_stmt_lookup(kept@, n),
                    spec_stmt_lookup(Seq::<StoredStatement>::empty(), n),
                ));
            }
        }
        self.statements = kept;
        let ghost origp = self.portals@;
        let mut keptp: Vec<Portal> = Vec::new();
        while self.portals.len() > 0
            invariant
                stmt_names_distinct(self.statements@),
                spec_stmt_lookup(self.statements@, name@) is None,
                forall|n: Seq<char>|
                    n != name@ ==> #[trigger] spec_stmt_lookup(self.statements@, n)
                        == spec_stmt_lookup(orig, n),
                portal_names_distinct(keptp@),
                portal_names_distinct(self.portals@),
                forall|i: int, j: int|
                    0 <= i < keptp@.len() && 0 <= j < self.portals@.len() ==> (
                    #[trigger] keptp@[i].name@) != (#[trigger] self.portals@[j].name@),
                forall|i: int| 0 <= i < keptp@.len() ==> (#[trigger] keptp@[i])@.wf(),
                forall|i: int|
                    0 <= i < self.portals@.len() ==> (#[trigger] self.portals@[i])@.wf(),
                forall|n: Seq<char>|
                    #[trigger] purge_bound(spec_portal_lookup(origp, n), name@) == or_else(
                        spec_portal_lookup(keptp@, n),
                        purge_bound(spec_portal_lookup(self.portals@, n), name@),
                    ),
            decreases self.portals.len(),
        {
            let ghost rem0 = self.portals@;
            let x = self.portals.remove(0);
            proof {
                assert(self.portals@ =~= rem0.drop_first());
            }
            if x.statement.name == *name {
                proof {
                    assert forall|n: Seq<char>| true implies #[trigger] purge_bound(
                        spec_portal_lookup(origp, n),
                        name@,
                    ) == or_else(
                        spec_portal_lookup(keptp@, n),
                        purge_bound(spec_portal_lookup(self.portals@, n), name@),
                    ) by {
                        assert(spec_portal_lookup(rem0, n) == if rem0[0].name@ == n {
                            Some(rem0[0]@)
                        } else {
                            spec_portal_lookup(rem0.drop_first(), n)
                        });
                        if n == x.name@ {
                            assert forall|i: int|
                                0 <= i < self.portals@.len() implies (
                            #[trigger] self.portals@[i].name@) != n by {
                                assert(rem0[i + 1] == self.portals@[i]);
                            }
                            lemma_portal_lookup_absent(self.portals@, n);
                        }
                    }
                }
            } else {
                proof {
                    assert forall|n: Seq<char>| true implies #[trigger] purge_bound(
                        spec_portal_lookup(origp, n),
                        name@,
                    ) == or_else(
                        spec_portal_lookup(keptp@.push(x), n),
                        purge_bound(spec_portal_lookup(self.portals@, n), name@),
                    ) by {
                        lemma_portal_lookup_push(keptp@, x, n);
                        assert(spec_portal_lookup(rem0, n) == if rem0[0].name@ == n {
                            Some(rem0[0]@)
                        } else {
                            spec_portal_lookup(rem0.drop_first(), n)
                        });
                    }
                }
                keptp.push(x);
            }
        }
        proof {
            assert(self.portals@ =~= Seq::<Portal>::empty());
            assert forall|n: Seq<char>| true implies #[trigger] spec_portal_lookup(
                keptp@,
                n,
            ) == purge_bound(spec_portal_lookup(origp, n), name@) by {
                assert(purge_bound(spec_portal_lookup(origp, n), name@) == or_else(
                    spec_portal_lookup(keptp@, n),
                    purge_bound(spec_portal_lookup(Seq::<Portal>::empty(), n), name@),
                ));
            }
        }
        self.portals = keptp;
    }

    /// Remove the portal bound to `name`. Removing an unknown name is
    /// a no-op, as the protocol asks. Statements are untouched.
    pub fn close_portal(&mut self, name: &String)
        requires
            old(self).wf(),
        ensures
            final(self).wf(),
            final(self).portal(name@) is None,
            forall|n: Seq<char>|
                n != name@ ==> #[trigger] final(self).portal(n) == old(self).portal(n),
            forall|n: Seq<char>| #[trigger] final(self).statement(n) == old(self).statement(n),
    {
        let _ = self.take_portal(name);
    }

    /// Remove every statement and every portal: the full reset used
    /// when the connection's prepared state must be discarded.
    pub fn clear(&mut self)
        ensures
            final(self).wf(),
            forall|n: Seq<char>| #[trigger] final(self).statement(n) is None,
            forall|n: Seq<char>| #[trigger] final(self).portal(n) is None,
    {
        self.statements.clear();
        self.portals.clear();
        proof {
            assert(forall|n: Seq<char>| #[trigger] spec_stmt_lookup(self.statements@, n) is None);
            assert(forall|n: Seq<char>| #[trigger] spec_portal_lookup(self.portals@, n) is None);
        }
    }
}

} // verus!
