use pgwire::api::{
    dispatch_message, on_query_complete, ClientMessageKind, DispatchAction, PgWireConnectionState,
    SessionState, StatelessMakeHandler,
};
use pgwire::encoder::{decode_field, DataRowEncoder};
use pgwire::extended::{
    bind_portal, describe_portal, describe_statement, execute_portal, install_portal_result,
};
use pgwire::results::{DataRow, FieldFormat, HandlerError, Response, Tag};
use pgwire::store::{MemPortalStore, StoredStatement};
use pgwire::translate::{handle_simple_query, UpstreamColumn, UpstreamEvent, UpstreamRow};
use std::sync::Arc;

fn text_row(names: &[&str], values: &[Option<&str>]) -> UpstreamRow {
    let columns = names
        .iter()
        .map(|n| UpstreamColumn { name: (*n).to_owned(), type_oid: 25 })
        .collect();
    let values = values
        .iter()
        .map(|v| v.map(|s| s.as_bytes().to_vec()))
        .collect();
    UpstreamRow { columns, values }
}

fn select_tag(n: u64) -> Tag {
    Tag { command: "SELECT".to_owned(), rows: Some(n) }
}

fn stmt(name: &str, query: &str, params: Vec<u32>, cols: &[&str]) -> StoredStatement {
    let columns = cols
        .iter()
        .map(|c| pgwire::results::ColumnInfo {
            name: (*c).to_owned(),
            type_oid: 25,
            format: FieldFormat::Text,
        })
        .collect();
    StoredStatement { name: name.to_owned(), query: query.to_owned(), param_types: params, columns }
}

#[test]
fn empty_query_is_not_an_error() {
    let out = handle_simple_query("", Vec::new());
    assert_eq!(out.responses.len(), 1);
    assert!(matches!(out.responses[0], Response::EmptyQuery));
    assert!(out.error.is_none());
}

#[test]
fn two_selects_yield_two_row_sets() {
    let events = vec![
        UpstreamEvent::Row(text_row(&["?column?"], &[Some("1")])),
        UpstreamEvent::Complete(select_tag(1)),
        UpstreamEvent::Row(text_row(&["?column?"], &[Some("2")])),
        UpstreamEvent::Complete(select_tag(1)),
    ];
    let out = handle_simple_query("SELECT 1; SELECT 2", events);
    assert!(out.error.is_none());
    assert_eq!(out.responses.len(), 2);
    let expected = ["1", "2"];
    for (resp, want) in out.responses.iter().zip(expected.iter()) {
        match resp {
            Response::Query(q) => {
                assert_eq!(q.columns.len(), 1);
                assert_eq!(q.columns[0].format, FieldFormat::Text);
                assert_eq!(q.rows.len(), 1);
                assert_eq!(q.rows[0].values[0], Some(want.as_bytes().to_vec()));
            }
            other => panic!("expected a row set, got {:?}", other),
        }
    }
}

#[test]
fn update_yields_execution_tag() {
    let events = vec![UpstreamEvent::Complete(Tag {
        command: "UPDATE".to_owned(),
        rows: Some(3),
    })];
    let out = handle_simple_query("UPDATE t SET x=1", events);
    assert!(out.error.is_none());
    assert_eq!(out.responses.len(), 1);
    match &out.responses[0] {
        Response::Execution(tag) => {
            assert_eq!(tag.command, "UPDATE");
            assert_eq!(tag.rows, Some(3));
        }
        other => panic!("expected an execution tag, got {:?}", other),
    }
}

#[test]
fn error_mid_batch_keeps_completed_statements() {
    let events = vec![
        UpstreamEvent::Complete(Tag { command: "INSERT".to_owned(), rows: Some(1) }),
        UpstreamEvent::Row(text_row(&["a"], &[Some("x")])),
        UpstreamEvent::Error(pgwire::results::ErrorInfo {
            code: "42P01".to_owned(),
            message: "relation does not exist".to_owned(),
        }),
        UpstreamEvent::Complete(select_tag(1)),
    ];
    let out = handle_simple_query("INSERT ...; SELECT bad", events);
    assert_eq!(out.responses.len(), 1);
    let err = out.error.expect("the upstream error must be forwarded");
    assert_eq!(err.code, "42P01");
}

#[test]
fn batch_of_n_statements_yields_n_responses() {
    let n = 7;
    let mut events = Vec::new();
    for _ in 0..n {
        events.push(UpstreamEvent::Complete(Tag { command: "INSERT".to_owned(), rows: Some(1) }));
    }
    let out = handle_simple_query("INSERTs", events);
    assert!(out.error.is_none());
    assert_eq!(out.responses.len(), n);
}

#[test]
fn null_field_round_trips_as_null() {
    let mut enc = DataRowEncoder::new();
    enc.encode_field(&None).unwrap();
    enc.encode_field(&Some(b"ab".to_vec())).unwrap();
    let wire = enc.finish();
    let (first, next) = decode_field(&wire, 0).expect("well-formed field");
    assert_eq!(first, None, "a NULL field must decode to NULL, not a placeholder");
    let (second, end) = decode_field(&wire, next).expect("well-formed field");
    assert_eq!(second, Some(b"ab".to_vec()));
    assert_eq!(end, wire.len());
}

#[test]
fn null_field_is_the_null_marker_alone() {
    let mut enc = DataRowEncoder::new();
    enc.encode_field(&None).unwrap();
    let wire = enc.finish();
    assert_eq!(wire, vec![0xff, 0xff, 0xff, 0xff]);
}

#[test]
fn empty_value_differs_from_null() {
    let mut enc = DataRowEncoder::new();
    enc.encode_field(&Some(Vec::new())).unwrap();
    let wire = enc.finish();
    assert_eq!(wire, vec![0, 0, 0, 0]);
    let (v, _) = decode_field(&wire, 0).unwrap();
    assert_eq!(v, Some(Vec::new()));
}

#[test]
fn describe_statement_twice_is_identical() {
    let mut store = MemPortalStore::new();
    store.store_statement(stmt("s1", "SELECT a FROM t WHERE b = $1", vec![23], &["a"]));
    let name = "s1".to_owned();
    let first = describe_statement(&store, &name).unwrap();
    let second = describe_statement(&store, &name).unwrap();
    assert_eq!(first, second);
    assert_eq!(first.param_types, vec![23]);
    assert_eq!(first.columns.len(), 1);
}

#[test]
fn describe_unknown_statement_fails() {
    let store = MemPortalStore::new();
    let r = describe_statement(&store, &"nope".to_owned());
    assert_eq!(r, Err(HandlerError::StatementNotFound("nope".to_owned())));
}

#[test]
fn describe_unknown_portal_fails() {
    let store = MemPortalStore::new();
    let r = describe_portal(&store, &"nope".to_owned());
    assert_eq!(r, Err(HandlerError::PortalNotFound("nope".to_owned())));
}

#[test]
fn describe_portal_applies_bound_formats() {
    let mut store = MemPortalStore::new();
    store.store_statement(stmt("s1", "SELECT a, b FROM t", vec![], &["a", "b"]));
    bind_portal(&mut store, "p1".to_owned(), &"s1".to_owned(), Vec::new(), vec![
        FieldFormat::Binary,
    ])
    .unwrap();
    let d = describe_portal(&store, &"p1".to_owned()).unwrap();
    assert_eq!(d.columns.len(), 2);
    assert!(d.columns.iter().all(|c| c.format == FieldFormat::Binary));
}

#[test]
fn portal_resumes_without_duplication_or_loss() {
    let mut store = MemPortalStore::new();
    store.store_statement(stmt("s1", "SELECT a FROM t", vec![], &["a"]));
    bind_portal(&mut store, "p1".to_owned(), &"s1".to_owned(), Vec::new(), Vec::new()).unwrap();
    let rows = vec![
        DataRow { values: vec![Some(b"r1".to_vec())] },
        DataRow { values: vec![Some(b"r2".to_vec())] },
        DataRow { values: vec![Some(b"r3".to_vec())] },
    ];
    install_portal_result(&mut store, &"p1".to_owned(), rows).unwrap();
    let first = execute_portal(&mut store, &"p1".to_owned(), 2).unwrap();
    assert_eq!(first.rows.len(), 2);
    assert_eq!(first.rows[0].values[0], Some(b"r1".to_vec()));
    assert_eq!(first.rows[1].values[0], Some(b"r2".to_vec()));
    assert!(!first.complete);
    let second = execute_portal(&mut store, &"p1".to_owned(), 2).unwrap();
    assert_eq!(second.rows.len(), 1);
    assert_eq!(second.rows[0].values[0], Some(b"r3".to_vec()));
    assert!(second.complete);
}

#[test]
fn execute_with_zero_limit_returns_everything() {
    let mut store = MemPortalStore::new();
    store.store_statement(stmt("s1", "SELECT a FROM t", vec![], &["a"]));
    bind_portal(&mut store, "p1".to_owned(), &"s1".to_owned(), Vec::new(), Vec::new()).unwrap();
    let rows = vec![
        DataRow { values: vec![Some(b"r1".to_vec())] },
        DataRow { values: vec![None] },
    ];
    install_portal_result(&mut store, &"p1".to_owned(), rows).unwrap();
    let out = execute_portal(&mut store, &"p1".to_owned(), 0).unwrap();
    assert_eq!(out.rows.len(), 2);
    assert_eq!(out.rows[1].values[0], None);
    assert!(out.complete);
}

#[test]
fn close_statement_invalidates_its_portals() {
    let mut store = MemPortalStore::new();
    store.store_statement(stmt("s1", "SELECT a FROM t", vec![], &["a"]));
    store.store_statement(stmt("s2", "SELECT b FROM t", vec![], &["b"]));
    bind_portal(&mut store, "p1".to_owned(), &"s1".to_owned(), Vec::new(), Vec::new()).unwrap();
    bind_portal(&mut store, "p2".to_owned(), &"s2".to_owned(), Vec::new(), Vec::new()).unwrap();
    store.close_statement(&"s1".to_owned());
    assert!(store.get_statement(&"s1".to_owned()).is_none());
    assert!(store.get_portal(&"p1".to_owned()).is_none());
    assert!(store.get_portal(&"p2".to_owned()).is_some());
    assert!(store.get_statement(&"s2".to_owned()).is_some());
}

#[test]
fn rebinding_a_name_keeps_existing_portals_on_the_old_statement() {
    let mut store = MemPortalStore::new();
    store.store_statement(stmt("s1", "SELECT a FROM t", vec![], &["a"]));
    bind_portal(&mut store, "p1".to_owned(), &"s1".to_owned(), Vec::new(), Vec::new()).unwrap();
    store.store_statement(stmt("s1", "SELECT b FROM u", vec![], &["b"]));
    let p = store.get_portal(&"p1".to_owned()).unwrap();
    assert_eq!(p.statement.query, "SELECT a FROM t");
    let s = store.get_statement(&"s1".to_owned()).unwrap();
    assert_eq!(s.query, "SELECT b FROM u");
}

#[test]
fn bind_with_wrong_parameter_count_is_a_binding_error() {
    let mut store = MemPortalStore::new();
    store.store_statement(stmt("s1", "SELECT a FROM t WHERE b = $1", vec![23], &["a"]));
    let r = bind_portal(&mut store, "p1".to_owned(), &"s1".to_owned(), Vec::new(), Vec::new());
    assert_eq!(r, Err(HandlerError::Protocol("parameter count mismatch".to_owned())));
    assert!(store.get_portal(&"p1".to_owned()).is_none());
}

#[test]
fn bind_unknown_statement_fails() {
    let mut store = MemPortalStore::new();
    let r = bind_portal(&mut store, "p1".to_owned(), &"s1".to_owned(), Vec::new(), Vec::new());
    assert_eq!(r, Err(HandlerError::StatementNotFound("s1".to_owned())));
}

#[test]
fn execute_unknown_portal_fails() {
    let mut store = MemPortalStore::new();
    let r = execute_portal(&mut store, &"p1".to_owned(), 0);
    assert_eq!(r, Err(HandlerError::PortalNotFound("p1".to_owned())));
}

#[test]
fn execute_before_result_installed_fails() {
    let mut store = MemPortalStore::new();
    store.store_statement(stmt("s1", "SELECT a FROM t", vec![], &["a"]));
    bind_portal(&mut store, "p1".to_owned(), &"s1".to_owned(), Vec::new(), Vec::new()).unwrap();
    let r = execute_portal(&mut store, &"p1".to_owned(), 0);
    assert_eq!(r, Err(HandlerError::Protocol("portal result not installed".to_owned())));
    assert!(store.get_portal(&"p1".to_owned()).is_some());
}

#[test]
fn clear_empties_both_name_spaces() {
    let mut store = MemPortalStore::new();
    store.store_statement(stmt("s1", "SELECT a FROM t", vec![], &["a"]));
    bind_portal(&mut store, "p1".to_owned(), &"s1".to_owned(), Vec::new(), Vec::new()).unwrap();
    store.clear();
    assert!(store.get_statement(&"s1".to_owned()).is_none());
    assert!(store.get_portal(&"p1".to_owned()).is_none());
}

#[test]
fn ready_routes_query_to_simple_handler() {
    let (state, action) =
        dispatch_message(PgWireConnectionState::ReadyForQuery, ClientMessageKind::Query);
    assert_eq!(state, PgWireConnectionState::QueryInProgress);
    assert_eq!(action, DispatchAction::RouteToSimple);
}

#[test]
fn ready_routes_extended_messages_to_extended_handler() {
    let (state, action) =
        dispatch_message(PgWireConnectionState::ReadyForQuery, ClientMessageKind::Bind);
    assert_eq!(state, PgWireConnectionState::QueryInProgress);
    assert_eq!(action, DispatchAction::RouteToExtended);
}

#[test]
fn awaiting_sync_ignores_everything_but_sync_and_terminate() {
    let (state, action) =
        dispatch_message(PgWireConnectionState::AwaitingSync, ClientMessageKind::Execute);
    assert_eq!(state, PgWireConnectionState::AwaitingSync);
    assert_eq!(action, DispatchAction::Ignore);
    let (state, action) =
        dispatch_message(PgWireConnectionState::AwaitingSync, ClientMessageKind::Sync);
    assert_eq!(state, PgWireConnectionState::ReadyForQuery);
    assert_eq!(action, DispatchAction::RouteToExtended);
    let (_, action) =
        dispatch_message(PgWireConnectionState::AwaitingSync, ClientMessageKind::Terminate);
    assert_eq!(action, DispatchAction::Disconnect);
}

#[test]
fn failed_query_forces_awaiting_sync() {
    assert_eq!(on_query_complete(true), PgWireConnectionState::ReadyForQuery);
    assert_eq!(on_query_complete(false), PgWireConnectionState::AwaitingSync);
}

#[test]
fn session_starts_awaiting_ssl_request() {
    let s = SessionState::new();
    assert_eq!(s.state, PgWireConnectionState::AwaitingSslRequest);
    assert!(s.store.get_statement(&String::new()).is_none());
}

#[test]
fn stateless_make_handler_shares_one_instance() {
    let factory = StatelessMakeHandler::new(Arc::new(42u32));
    let a = factory.make();
    let b = factory.make();
    assert_eq!(*a, 42);
    assert!(Arc::ptr_eq(&a, &b));
}

#[test]
fn new_for_execution_builds_the_tag() {
    let t = Tag::new_for_execution("DELETE", Some(5));
    assert_eq!(t.command, "DELETE");
    assert_eq!(t.rows, Some(5));
}
