use rbph::db::call_log::{
    count_call_logs, list_call_logs, PuzzleBackendCallLog, PuzzleBackendCallLogQuery,
};
use rbph::db::puzzle_backend::{
    is_claimable, is_replaceable, update_backend_functions, update_backend_source,
    upsert_backend,
    compare_and_set_kv, ensure_scope_in_game, exported_names, functions_value, get_kv_entry, is_valid_backend_function_name,
    list_kv, normalize_functions, parse_export_functions,
    require_scope_in_game, set_kv, set_kv_if_absent, store_doc_from_row, BackendScope,
    clear_puzzle_team_state, PuzzleBackend, PuzzleBackendInput, PuzzleBackendKvExpiry, PuzzleBackendKvValue,
    StoreDocRow,
};
use rbph::db::puzzle_store::{
    list_store_docs, PuzzleStoreEqFilters, PuzzleStoreIndexEntry, PuzzleStoreIndexValue,
    PuzzleStoreListOptions, StoredDoc,
};
use rbph::error::RbInternalError;
use rbph::json::{Fields, Json};

fn owner(n: i64) -> Json {
    Fields::new().put("owner", Json::integer(n)).object()
}

fn copy(entry: &PuzzleBackendKvValue) -> Option<PuzzleBackendKvValue> {
    Some(PuzzleBackendKvValue {
        value: Json::Null,
        version: entry.version,
        expires_at: entry.expires_at,
    })
}

#[test]
fn atomic_kv_supports_claim_expiry_and_cas() {
    let now: i64 = 1_000_000;
    let first = set_kv_if_absent(None, owner(1), Some(60_000), now);
    let stored = first.entry.expect("claim should return its entry");
    let second = set_kv_if_absent(copy(&stored), owner(2), Some(60_000), now);
    assert_ne!(first.applied, second.applied);
    assert!(first.applied);
    assert_eq!(stored.version, 1);
    assert!(stored.expires_at > Some(first.server_time));

    let preserved_expiry = stored.expires_at;
    let updated = compare_and_set_kv(
        copy(&stored),
        stored.version,
        Fields::new().put("state", Json::text("updated")).object(),
        PuzzleBackendKvExpiry::Preserve,
        now,
    );
    assert!(updated.applied);
    let updated_entry = updated.entry.expect("CAS should return its entry");
    assert_eq!(updated_entry.version, 2);
    assert_eq!(updated_entry.expires_at, preserved_expiry);

    let stale = compare_and_set_kv(
        copy(&updated_entry),
        1,
        Fields::new().put("state", Json::text("stale")).object(),
        PuzzleBackendKvExpiry::Permanent,
        now,
    );
    assert!(!stale.applied);
    assert_eq!(stale.entry.expect("current entry should be returned").version, 2);

    let expired = PuzzleBackendKvValue {
        value: Json::Null,
        version: 2,
        expires_at: Some(now - 1_000_000),
    };
    assert!(get_kv_entry(copy(&expired), now).is_none());
    let expired_cas = compare_and_set_kv(
        copy(&expired),
        2,
        Fields::new().put("state", Json::text("too late")).object(),
        PuzzleBackendKvExpiry::Preserve,
        now,
    );
    assert!(!expired_cas.applied);
    assert!(expired_cas.entry.is_none());

    let reclaimed = set_kv_if_absent(copy(&expired), owner(3), None, now);
    assert!(reclaimed.applied);
    let reclaimed_entry = reclaimed.entry.expect("reclaim should return its entry");
    assert_eq!(reclaimed_entry.version, 3);
    assert_eq!(reclaimed_entry.expires_at, None);

    let reset_expiry = compare_and_set_kv(
        copy(&reclaimed_entry),
        3,
        owner(3),
        PuzzleBackendKvExpiry::Ttl(60_000),
        now,
    );
    assert!(reset_expiry.applied);
    let reset_entry = reset_expiry.entry.expect("TTL CAS should return its entry");
    assert_eq!(reset_entry.version, 4);
    assert!(reset_entry.expires_at > Some(reset_expiry.server_time));
    assert_eq!(reset_entry.expires_at, Some(now + 60_000_000));

    let made_permanent = compare_and_set_kv(
        copy(&reset_entry),
        4,
        owner(3),
        PuzzleBackendKvExpiry::Permanent,
        now,
    );
    assert!(made_permanent.applied);
    let permanent_entry = made_permanent
        .entry
        .expect("permanent CAS should return its entry");
    assert_eq!(permanent_entry.version, 5);
    assert_eq!(permanent_entry.expires_at, None);

    let final_entry = set_kv(copy(&permanent_entry), owner(4));
    let final_entry = get_kv_entry(Some(final_entry), now).expect("final entry should exist");
    assert_eq!(final_entry.version, 6);
    assert_eq!(final_entry.expires_at, None);
}

#[test]
fn exported_functions_are_found_in_order() {
    let source = "export function zeta(a) {}\nexport async function alpha() {}\n\
                  export const mid = async (x) => x;\nexport const n = 3;\nfunction hidden() {}\n\
                  export  const  fn2 = function () {}\nexport function alpha() {}\n";
    assert_eq!(parse_export_functions(source), vec!["alpha", "fn2", "mid", "zeta"]);
    assert!(parse_export_functions("").is_empty());
    assert_eq!(
        exported_names(
            &vec![Some("b".to_string()), None, Some("1x".to_string())],
            &vec![Some("a".to_string()), Some("b".to_string())]
        ),
        vec!["a", "b"]
    );
}

#[test]
fn function_names_are_identifiers() {
    assert!(is_valid_backend_function_name("_a9"));
    assert!(!is_valid_backend_function_name("9a"));
    assert!(!is_valid_backend_function_name(""));
    assert!(!is_valid_backend_function_name("a-b"));
    let listed = Json::Array(vec![Json::text("a"), Json::integer(1), Json::text("b"), Json::text("a")]);
    assert_eq!(normalize_functions(&listed), vec!["a", "b"]);
    assert!(normalize_functions(&Json::Null).is_empty());
    let functions = functions_value(&vec!["a".to_string()]);
    let backend = PuzzleBackend {
        puzzle_id: 1,
        enabled: true,
        source: "export function a() {}\nexport function b() {}".to_string(),
        functions,
        ctime_at: 0,
        utime_at: 0,
    };
    assert!(backend.function_enabled("a"));
    assert!(!backend.function_enabled("b"));
    assert!(backend.export_enabled("b"));
    assert!(backend.callable_function("a"));
    assert_eq!(backend.functions_list(), vec!["a"]);
}

#[test]
fn scopes_are_stored_by_their_parts() {
    assert_eq!(BackendScope::Global.parts().1, None);
    let (_, team, puzzle) = BackendScope::TeamPuzzle { team_id: 2, puzzle_id: 3 }.parts();
    assert_eq!((team, puzzle), (Some(2), Some(3)));
    assert!(require_scope_in_game(true).is_ok());
    assert!(require_scope_in_game(false).is_err());
    for scope in [
        BackendScope::Global,
        BackendScope::Team { team_id: 2 },
        BackendScope::Puzzle { puzzle_id: 3 },
        BackendScope::TeamPuzzle { team_id: 2, puzzle_id: 3 },
    ] {
        let (scope_type, team_id, puzzle_id) = scope.parts();
        let doc = store_doc_from_row(StoreDocRow {
            id: 1,
            scope_type,
            team_id,
            puzzle_id,
            collection: "c".to_string(),
            created_by: Some(5),
            created_by_nickname: Some("n".to_string()),
            value: Json::Null,
            ctime_at: 0,
            utime_at: 0,
        });
        assert_eq!(doc.scope, scope);
        assert_eq!(doc.created_by.unwrap().id, 5);
    }
}

#[test]
fn pages_of_logs_are_bounded() {
    let query = |limit: i64, offset: i64| PuzzleBackendCallLogQuery {
        puzzle_id: 1,
        execution_type: None,
        function_name: None,
        ok: None,
        team_id: None,
        user_id: None,
        from: None,
        to: None,
        offset,
        limit,
    };
    let call = |id: i64, at: i64, ok: bool| PuzzleBackendCallLog {
        id,
        puzzle_id: 1,
        team_id: Some(3),
        team_name: None,
        user_id: None,
        user_nickname: None,
        execution_type: "judge".to_string(),
        request_method: None,
        function_name: "f".to_string(),
        ok,
        duration_ms: 1,
        submission_id: None,
        hint_id: None,
        error: None,
        console: Json::Null,
        console_truncated: false,
        ctime_at: at,
    };
    let calls = || vec![call(1, 5, true), call(2, 9, false), call(3, 5, true)];
    let ids = |query: &PuzzleBackendCallLogQuery| {
        list_call_logs(calls(), query).iter().map(|call| call.id).collect::<Vec<_>>()
    };
    assert_eq!(ids(&query(0, -4)), vec![2]);
    assert_eq!(ids(&query(1000, 0)), vec![2, 3, 1]);
    assert_eq!(ids(&query(1000, 2)), vec![1]);
    let failed = PuzzleBackendCallLogQuery { ok: Some(false), ..query(10, 0) };
    assert_eq!(ids(&failed), vec![2]);
    assert_eq!(count_call_logs(&calls(), &failed), 1);
    let late = PuzzleBackendCallLogQuery { from: Some(6), team_id: Some(3), ..query(10, 0) };
    assert_eq!(count_call_logs(&calls(), &late), 1);
    let other = PuzzleBackendCallLogQuery { execution_type: Some("hint"), ..query(10, 0) };
    assert_eq!(count_call_logs(&calls(), &other), 0);
    assert_eq!(list_kv(Some("a:")), Some("a:%".to_string()));
    assert_eq!(list_kv(None), None);
}

#[test]
fn scopes_stay_within_their_game() {
    let team = BackendScope::Team { team_id: 1 };
    let puzzle = BackendScope::Puzzle { puzzle_id: 2 };
    let both = BackendScope::TeamPuzzle { team_id: 1, puzzle_id: 2 };
    assert!(ensure_scope_in_game(BackendScope::Global, false, false));
    assert!(ensure_scope_in_game(team, true, false));
    assert!(!ensure_scope_in_game(team, false, true));
    assert!(ensure_scope_in_game(puzzle, false, true));
    assert!(!ensure_scope_in_game(both, true, false));
    assert!(ensure_scope_in_game(both, true, true));
}

fn doc(id: i64, index: Vec<(&str, PuzzleStoreIndexValue)>) -> StoredDoc {
    StoredDoc {
        game_id: 3,
        row: StoreDocRow {
            id,
            scope_type: 1,
            team_id: Some(7),
            puzzle_id: None,
            collection: "notes".to_string(),
            created_by: None,
            created_by_nickname: None,
            value: Json::Null,
            ctime_at: 0,
            utime_at: 0,
        },
        index: index
            .into_iter()
            .map(|(key, value)| PuzzleStoreIndexEntry { key: key.to_string(), value })
            .collect(),
    }
}

#[test]
fn documents_are_found_by_their_values() {
    let text = |s: &str| PuzzleStoreIndexValue::Text(s.to_string());
    let number = |x: f64| PuzzleStoreIndexValue::Number(x.to_bits());
    let docs = || {
        vec![
            doc(4, vec![("kind", text("a")), ("size", number(1.5))]),
            doc(1, vec![("kind", text("a")), ("done", PuzzleStoreIndexValue::Bool(true))]),
            doc(3, vec![("kind", text("b")), ("size", number(1.5))]),
            doc(2, vec![]),
        ]
    };
    let all = |cursor: Option<i64>, limit: i64, descending: bool| PuzzleStoreListOptions {
        filters: PuzzleStoreEqFilters::empty(),
        cursor,
        limit,
        descending,
    };
    let scope = BackendScope::Team { team_id: 7 };
    let ids = |options: PuzzleStoreListOptions| {
        let page = list_store_docs(docs(), 3, true, scope, "notes", &options).unwrap();
        page.iter().map(|d| d.id).collect::<Vec<_>>()
    };
    assert_eq!(ids(all(None, 10, false)), vec![1, 2, 3, 4]);
    assert_eq!(ids(all(None, 10, true)), vec![4, 3, 2, 1]);
    // A page goes on where the one before it has ended.
    assert_eq!(ids(all(None, 3, false)), vec![1, 2, 3]);
    assert_eq!(ids(all(Some(3), 3, false)), vec![4]);
    assert_eq!(ids(all(Some(3), 0, true)), vec![2]);
    let mut options = all(None, 10, false);
    options.filters.text.push(("kind".to_string(), "a".to_string()));
    assert_eq!(ids(options), vec![1, 4]);
    let mut options = all(None, 10, false);
    options.filters.text.push(("kind".to_string(), "a".to_string()));
    options.filters.number.push(("size".to_string(), 1.5f64.to_bits()));
    assert_eq!(ids(options), vec![4]);
    let mut options = all(None, 10, false);
    options.filters.bool_.push(("done".to_string(), false));
    assert!(ids(options).is_empty());
    // Two values under one key are never met together.
    let mut options = all(None, 10, false);
    options.filters.text.push(("kind".to_string(), "a".to_string()));
    options.filters.text.push(("kind".to_string(), "b".to_string()));
    assert!(ids(options).is_empty());
    let other = BackendScope::Team { team_id: 8 };
    let page = |game_id, in_game, scope, collection| {
        list_store_docs(docs(), game_id, in_game, scope, collection, &all(None, 10, false))
    };
    assert!(page(3, true, other, "notes").unwrap().is_empty());
    assert!(page(3, true, scope, "other").unwrap().is_empty());
    assert!(page(4, true, scope, "notes").unwrap().is_empty());
    assert!(matches!(
        page(3, false, scope, "notes"),
        Err(RbInternalError::Other(text))
            if text == "backend scope does not belong to current game"
    ));
    let columns = text("x").columns();
    assert_eq!(columns.value_text.as_deref(), Some("x"));
    assert_eq!((columns.value_number, columns.value_bool), (None, None));
}

#[test]
fn backends_are_stored_switched_off() {
    let input = PuzzleBackendInput {
        enabled: None,
        source: String::new(),
        functions: vec!["f".to_string()],
    };
    let stored = upsert_backend(None, 3, input, 10);
    assert!(!stored.enabled);
    assert_eq!(stored.functions_list(), ["f"]);
    assert_eq!((stored.puzzle_id, stored.ctime_at, stored.utime_at), (3, 10, 10));
    let input = PuzzleBackendInput {
        enabled: Some(true),
        source: "b".to_string(),
        functions: vec![],
    };
    let stored = upsert_backend(Some(stored), 3, input, 20);
    assert!(stored.enabled && stored.functions_list().is_empty());
    assert_eq!((stored.ctime_at, stored.utime_at), (10, 20));
    let stored = update_backend_functions(Some(stored), &vec!["g".to_string()], 30).unwrap();
    let stored = update_backend_source(Some(stored), 3, "c", 40);
    assert!(stored.enabled);
    assert_eq!((stored.source.as_str(), stored.utime_at), ("c", 40));
    assert_eq!(stored.functions_list(), ["g"]);
    assert!(update_backend_functions(None, &vec![], 30).is_none());
    let fresh = update_backend_source(None, 4, "d", 50);
    assert!(!fresh.enabled && fresh.functions_list().is_empty());
    assert_eq!((fresh.puzzle_id, fresh.source.as_str(), fresh.ctime_at), (4, "d", 50));
    let cleared = clear_puzzle_team_state(vec![4, 4, 5]);
    assert_eq!((cleared.rows, cleared.team_ids), (3, vec![4, 4, 5]));
}

#[test]
fn full_versions_stand_where_nothing_is_written() {
    let full = || {
        Some(PuzzleBackendKvValue { value: Json::Null, version: i64::MAX, expires_at: None })
    };
    assert!(!is_claimable(&full(), 5));
    let claim = set_kv_if_absent(full(), owner(1), None, 5);
    assert!(!claim.applied);
    assert_eq!(claim.entry.unwrap().version, i64::MAX);
    assert!(!is_replaceable(&full(), 1, 5));
    assert!(is_replaceable(&full(), i64::MAX, 5));
    let change = compare_and_set_kv(full(), 1, owner(1), PuzzleBackendKvExpiry::Permanent, 5);
    assert!(!change.applied);
    assert!(is_claimable(&None, 5) && !is_replaceable(&None, 1, 5));
}
