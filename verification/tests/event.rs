use rbph::db::activity::{
    count_admin_logs, list_admin_logs, list_team_activity, ActivityQuery, EventLogData,
    EventLogRow, EventUser,
};
use rbph::db::event_log::{
    admin_page, page_size, AdminLogQuery, CurrencyEventData, EventLogInput, EventScope,
    EventSeverity,
};
use rbph::db::notification::{
    list_for_team, mark_all_read, mark_many_read, mark_ticket_messages_read, unread_count,
    NotificationKind, NotificationMark, NotificationRow,
};
use rbph::error::{fault, RbError, RbInternalError};
use rbph::ids::{all_distinct, insert, insert_all};
use rbph::json::Json;
use rbph::num::{saturating_add, saturating_mul};
use rbph::text::{comes_before, hex_string, parse_i32};

#[test]
fn errors_have_their_codes() {
    let e = RbError::unauth();
    assert_eq!((e.code, e.status_code), (-101, 401));
    assert_eq!(e.message.as_deref(), Some("Unauthorized"));
    let e = RbError::forbid();
    assert_eq!((e.code, e.status_code), (-103, 401));
    assert_eq!(RbError::not_found().status_code, 404);
    let e = RbError::bad_req(-5).msg("m".to_string()).code(-6);
    assert_eq!((e.code, e.status_code), (-6, 400));
    assert_eq!(RbError::conflict(1).status_code, 409);
    assert_eq!(RbError::unprocessable(1).status_code, 422);
    let (e, incident) = RbError::internal();
    assert_eq!(incident.len(), 8);
    assert!(incident.chars().all(|c| c.is_ascii_alphanumeric()));
    assert_eq!(e.message, Some(format!("Internal Server Error ({incident})")));
    let RbInternalError::Other(text) = fault("why");
    assert_eq!(text, "why");
}

#[test]
fn events_start_without_references() {
    let event = EventLogInput::team_activity("x", Json::Null);
    assert_eq!(event.event_scope, i16::from(EventScope::TeamActivity));
    assert_eq!(event.severity, i16::from(EventSeverity::Info));
    assert_eq!(event.team_id, None);
    assert_eq!(page_size(0), 1);
    assert_eq!(page_size(1000), 100);
    let query = AdminLogQuery {
        scope: None,
        severity: None,
        event_type: None,
        game_id: None,
        team_id: None,
        user_id: None,
        offset: -1,
        limit: 500,
    };
    assert_eq!(admin_page(&query), (100, 0));
    let change = CurrencyEventData {
        id: 1,
        slug: "c".to_string(),
        name: "C".to_string(),
        prec: 0,
        before: 5,
        after: 2,
    };
    assert_eq!(change.delta(), -3);
    assert!(matches!(change.json(Some("why"), Some(4), Some("P")), Json::Object(_)));
}

fn logged(id: i64, scope: EventScope, team_id: i32) -> EventLogRow {
    EventLogRow {
        event: EventLogData {
            id,
            event_type: "x".to_string(),
            scope: scope.into(),
            severity: EventSeverity::Info.into(),
            game_id: Some(1),
            team_id: Some(team_id),
            user_id: Some(7),
            target_user_id: None,
            puzzle_id: None,
            round_id: None,
            hint_id: None,
            ticket_id: None,
            submission_id: None,
            currency_id: None,
            delta_amount: None,
            data: Json::Object(vec![]),
            ctime_at: id,
        },
        user: Some(EventUser { id: 7, nickname: "n".to_string() }),
        target_user: None,
        puzzle_release_at: None,
    }
}

#[test]
fn activity_is_told_page_by_page() {
    let rows = || {
        vec![
            logged(5, EventScope::TeamActivity, 1),
            logged(4, EventScope::TeamActivity, 1),
            logged(3, EventScope::TeamActivity, 2),
            logged(2, EventScope::Admin, 1),
            logged(1, EventScope::TeamActivity, 1),
        ]
    };
    let query = ActivityQuery { team_id: 1, currency_id: None, before: None, limit: 2 };
    let told = list_team_activity(rows(), query, 100);
    assert_eq!(told.iter().map(|event| event.id).collect::<Vec<_>>(), vec![5, 4]);
    assert!(matches!(&told[0].data, Json::Object(entries) if entries.iter().any(|(k, _)| k == "user")));
    let older = ActivityQuery { before: Some(4), ..query };
    let told = list_team_activity(rows(), older, 100);
    assert_eq!(told.iter().map(|event| event.id).collect::<Vec<_>>(), vec![1]);
    let logs = AdminLogQuery {
        scope: Some(EventScope::TeamActivity.into()),
        severity: None,
        event_type: Some("x"),
        game_id: Some(1),
        team_id: None,
        user_id: None,
        offset: 1,
        limit: 2,
    };
    let listed = list_admin_logs(rows(), &logs);
    assert_eq!(listed.iter().map(|event| event.id).collect::<Vec<_>>(), vec![4, 3]);
    assert_eq!(count_admin_logs(&rows(), &logs), 4);
}

#[test]
fn notifications_are_read_or_not() {
    let row = |read_at: Option<i64>, actor: Option<i32>| NotificationRow {
        id: 1,
        kind: 1,
        data: Json::Null,
        read_at,
        ctime_at: 4,
        actor_id: actor,
        actor_nickname: actor.map(|_| "n".to_string()),
    };
    let listed = list_for_team(vec![row(None, None), row(Some(5), Some(2))]);
    assert!(!listed[0].read && listed[1].read);
    assert!(listed[0].actor.is_none());
    assert_eq!(listed[1].actor.as_ref().unwrap().id, 2);
    let mark = |id: i64, source_id: i32, is_dm: bool, read_at: Option<i64>| NotificationMark {
        id,
        kind: NotificationKind::TicketReply.into(),
        source_id: Some(source_id),
        is_dm,
        read_at,
    };
    let marks = vec![mark(1, 10, true, None), mark(2, 11, false, None), mark(3, 12, true, Some(5))];
    assert!(mark_many_read(&marks, &vec![]).is_empty());
    assert_eq!(mark_many_read(&marks, &vec![2, 3, 9]), vec![2]);
    assert_eq!(mark_ticket_messages_read(&marks, &vec![10, 12]), vec![1]);
    assert_eq!(mark_all_read(&marks), vec![1, 2]);
    let unread = unread_count(&marks);
    assert_eq!((unread.count, unread.dm_count), (2, 1));
    for code in -3..5i16 {
        assert_eq!(i16::from(NotificationKind::from(code)), code);
    }
}

#[test]
fn ids_are_kept_in_order_and_once() {
    let mut ids: Vec<i32> = vec![2, 5];
    insert(&mut ids, 3);
    insert(&mut ids, 5);
    insert_all(&mut ids, &vec![1, 3, 9]);
    assert_eq!(ids, vec![1, 2, 3, 5, 9]);
    assert!(all_distinct(&ids));
    assert!(!all_distinct(&vec![1, 2, 1]));
}

#[test]
fn numbers_stop_at_their_limits() {
    assert_eq!(saturating_add(i64::MAX, 1), i64::MAX);
    assert_eq!(saturating_add(i64::MIN, -1), i64::MIN);
    assert_eq!(saturating_mul(i64::MAX, -2), i64::MIN);
    assert_eq!(saturating_mul(-3, 4), -12);
    assert_eq!(parse_i32("-5"), Some(-5));
    assert_eq!(parse_i32("-2147483648"), Some(i32::MIN));
    assert_eq!(parse_i32("2147483648"), None);
    assert_eq!(parse_i32("-"), None);
    assert_eq!(hex_string(&[0, 171, 255]), "00abff");
    assert!(comes_before("a", "ab"));
    assert!(comes_before("Z", "a"));
    assert!(!comes_before("b", "ab"));
}
