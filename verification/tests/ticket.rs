use rbph::db::team::currency::StoredBalance;
use rbph::db::team::growth::Payment;
use rbph::db::ticket::message::{
    auto_assign_ticket_on_staff_message, get_pending_count, get_ticket_message, thread_operation,
    OperationRow, SentRow,
};
use rbph::db::ticket::opening::{
    close_puzzle_tickets_on_solve, ticket_availability, ticket_cooldown, OpenedPuzzle, TicketPlace,
    TicketTerms,
};
use rbph::db::ticket::page::{
    first_fetch, get_ticket_messages_page, get_ticket_page, item_cursor, join_first,
    joined_history, needs_first, oldest_request, page_query, TicketCursor, TicketPageRequest,
};
use rbph::db::ticket::staff::{
    list_staff_tickets, player_dm_feature_access, player_feature_access,
    player_ticket_feature_access, team_state_code,
    unassign_ticket, FeatureAccessRow, StaffTicketFilter,
};
use rbph::db::ticket::{
    assign_ticket_self, calc_send_block, close_ticket, dm_send_block, get_dm_ticket_thread,
    get_team_puzzle_tickets, get_ticket_summary, get_ticket_thread, get_ticket_user_info,
    make_message, message_is_charged, open_puzzle_ticket, opener_info,
    purchase_ticket_message, send_ticket_message, user_avatar, AssignTicketResult, AssigneeRow,
    CloseTicketResult, CloseTicketRow, LockedMessage, MessagePurchase, OpenPuzzleTicketResult, Purse,
    OptionalMessageRow, OptionalPuzzleRow, PlayerFeatureAccess, SendMessageData, SendTicketMessageResult,
    TicketAggreInfoUser, TicketAvailability, TicketMessage, TicketOpenBlock, TicketOpenInfo,
    TicketOperation,
    TicketOperationAction, TicketPerm, TicketRow, TicketSendBlock, TicketThreadItem, TicketUserRow,
};
use rbph::error::RbInternalError;
use rbph::model::game::{RbContentType, RbTicketSenderType, RbTicketState};

#[test]
fn feature_access_distinguishes_new_and_existing_conversations() {
    assert_eq!(
        PlayerFeatureAccess::Open.send_block(false),
        TicketSendBlock::Clear
    );
    assert_eq!(
        PlayerFeatureAccess::ExistingOnly.send_block(false),
        TicketSendBlock::FeatureExistingOnly
    );
    assert_eq!(
        PlayerFeatureAccess::ExistingOnly.send_block(true),
        TicketSendBlock::Clear
    );
    assert_eq!(
        PlayerFeatureAccess::GameClosed.send_block(true),
        TicketSendBlock::FeatureClosed
    );
    assert_eq!(
        PlayerFeatureAccess::TeamFeatureBanned.send_block(true),
        TicketSendBlock::TeamFeatureBanned
    );
}

fn user() -> TicketAggreInfoUser {
    TicketAggreInfoUser { id: 1, nickname: "n".to_string(), avatar: None, email: None }
}

fn message(id: i32, at: i64) -> TicketThreadItem {
    TicketThreadItem::Message(TicketMessage {
        id,
        sender: user(),
        sender_type: RbTicketSenderType::Team,
        cost_id: None,
        cost_amount: 0,
        unlocked: true,
        content: Some("c".to_string()),
        content_type: Some(RbContentType::Markdown),
        ctime_at: at,
        utime_at: None,
    })
}

fn operation(id: i32, at: i64, action: TicketOperationAction) -> TicketThreadItem {
    TicketThreadItem::Operation(TicketOperation {
        id,
        action,
        actor: user(),
        actor_type: RbTicketSenderType::Team,
        message: None,
        ctime_at: at,
    })
}

#[test]
fn threads_are_ordered_by_time_and_rank() {
    let found = vec![
        operation(9, 10, TicketOperationAction::Close),
        message(2, 10),
        operation(1, 10, TicketOperationAction::Open),
        message(1, 5),
    ];
    let page = get_ticket_messages_page(found, &TicketPageRequest::default(), 3);
    let ids: Vec<i32> = page.items.iter().map(|item| item.id()).collect();
    assert_eq!(ids, vec![1, 2, 9]);
    assert_eq!(page.items[0].same_time_rank(), 0);
    assert!(page.history.has_more);
    assert_eq!(page.history.before, Some(item_cursor(&page.items[0])));
    assert_eq!(page.history.after, None);
    assert_eq!(page.history.newer, Some(TicketCursor { at: 10, rank: 2, id: 9 }));
}

#[test]
fn pages_forward_keep_the_oldest_items() {
    let request = oldest_request();
    let query = page_query(&request, 1);
    assert!(query.forward);
    assert_eq!(query.limit, 2);
    let page = get_ticket_messages_page(vec![message(2, 6), message(1, 5)], &request, 1);
    assert_eq!(page.items.len(), 1);
    assert_eq!(page.items[0].id(), 1);
    assert_eq!(page.history.after, Some(TicketCursor { at: 5, rank: 1, id: 1 }));
    assert_eq!(page.history.before, None);
}

#[test]
fn the_first_message_of_a_ticket_is_always_shown() {
    let latest =
        get_ticket_messages_page(vec![message(7, 8), message(6, 7), message(5, 6)], &TicketPageRequest::default(), 2);
    assert!(needs_first(true, &latest));
    assert!(!needs_first(false, &latest));
    let (items, probe) = join_first(latest.items, message(1, 1));
    assert_eq!(items.len(), 3);
    assert_eq!(items[0].id(), 1);
    assert_eq!(probe.after, Some(TicketCursor { at: 1, rank: 1, id: 1 }));
    assert_eq!(probe.stop, Some(TicketCursor { at: 7, rank: 1, id: 6 }));
    let history = joined_history(&items, &probe, false);
    assert!(history.has_more);
    assert_eq!(history.stop, probe.stop);
    assert!(!joined_history(&items, &probe, true).has_more);
    let (again, _) = join_first(items, message(1, 1));
    assert_eq!(again.len(), 3);
    let place = TicketCursor { at: 1, rank: 1, id: 1 };
    let request = TicketPageRequest { before: Some(place), ..TicketPageRequest::default() };
    assert!(first_fetch(&request).1);
    assert!(!first_fetch(&TicketPageRequest::default()).1);
}

#[test]
fn cursors_are_written_in_base64() {
    let encoded = TicketCursor::encode(&vec![251, 255, 0]);
    assert_eq!(encoded, "-_8A");
    assert_eq!(TicketCursor::decode("-_8A"), Some(vec![251, 255, 0]));
    assert_eq!(TicketCursor::decode("*"), None);
    let long = TicketCursor::encode(&vec![1]);
    assert_eq!(TicketCursor::decode(&long), Some(vec![1]));
}

#[test]
fn messages_wait_for_their_answers() {
    let open = RbTicketState::Open;
    assert_eq!(calc_send_block(open, false, None, 0), TicketSendBlock::NoAccess);
    assert_eq!(calc_send_block(RbTicketState::Closed, true, None, 0), TicketSendBlock::Closed);
    assert_eq!(calc_send_block(open, true, Some(2), 2), TicketSendBlock::Pending);
    assert_eq!(calc_send_block(open, true, Some(2), 1), TicketSendBlock::Clear);
    assert_eq!(calc_send_block(open, true, None, 9), TicketSendBlock::Clear);
    assert_eq!(
        dm_send_block(PlayerFeatureAccess::ExistingOnly, None, 0),
        TicketSendBlock::FeatureExistingOnly
    );
    assert_eq!(
        dm_send_block(PlayerFeatureAccess::Open, Some(RbTicketState::Closed), 0),
        TicketSendBlock::Closed
    );
    assert_eq!(TicketSendBlock::Clear.code(), 0);
    assert_eq!(TicketOpenBlock::Clear.code(), 0);
    assert!(matches!(player_feature_access(None), PlayerFeatureAccess::GameClosed));
}

fn assignee(id: Option<i32>) -> AssigneeRow {
    AssigneeRow {
        id,
        nickname: id.map(|_| "n".to_string()),
        email: None,
        avatar_provider: None,
    }
}

fn data(sender_type: RbTicketSenderType) -> SendMessageData {
    SendMessageData {
        content: "c".to_string(),
        content_type: RbContentType::Markdown,
        sender_id: 4,
        sender_type,
        cost_id: None,
        cost_amount: 0,
    }
}

#[test]
fn tickets_belong_to_their_assignees() {
    assert!(matches!(assign_ticket_self(None, 4, false), AssignTicketResult::NotFound));
    assert!(matches!(
        assign_ticket_self(Some(assignee(Some(9))), 4, false),
        AssignTicketResult::Assigned(holder) if holder.id == 9
    ));
    assert!(matches!(
        assign_ticket_self(Some(assignee(Some(9))), 4, true),
        AssignTicketResult::Assign
    ));
    assert!(matches!(
        send_ticket_message(assignee(Some(9)), &data(RbTicketSenderType::Host), None, 0, false),
        SendTicketMessageResult::Assigned(_)
    ));
    assert!(matches!(
        send_ticket_message(assignee(None), &data(RbTicketSenderType::Team), Some(1), 1, false),
        SendTicketMessageResult::Pending
    ));
    assert!(matches!(
        send_ticket_message(assignee(None), &data(RbTicketSenderType::Team), Some(1), 0, false),
        SendTicketMessageResult::Send
    ));
    let row = |state: i16| {
        Some(CloseTicketRow {
            team_id: 1,
            puzzle_id: None,
            state,
            game_id: 2,
            round_id: None,
            puzzle_title: None,
        })
    };
    let open: i16 = RbTicketState::Open.into();
    let closed: i16 = RbTicketState::Closed.into();
    let host = RbTicketSenderType::Host;
    assert!(matches!(
        close_ticket(&row(open), assignee(None), 4, host, false, false),
        CloseTicketResult::Close
    ));
    assert!(matches!(
        close_ticket(&row(closed), assignee(None), 4, host, false, false),
        CloseTicketResult::Closed
    ));
}

#[test]
fn messages_can_be_sold() {
    assert!(message_is_charged(Some(1), true));
    assert!(!message_is_charged(Some(1), false));
    assert!(!message_is_charged(None, true));
    let costly = Some(LockedMessage { cost_id: Some(1), cost_amount: 15 });
    let free = Some(LockedMessage { cost_id: None, cost_amount: 15 });
    let purse = |amount: i64| {
        let balance =
            StoredBalance { amount, growth: 3, max_amount: 20, utime_at: 0, growing: false };
        Some(Purse { game_id: 7, balance })
    };
    let now = 60_000_000;
    let buy = |message, needs_pay, game, purse| {
        purchase_ticket_message(message, needs_pay, game, purse, now).unwrap()
    };
    assert_eq!(buy(None, true, Some(7), purse(20)), MessagePurchase::Unavailable);
    assert_eq!(buy(free, true, None, None), MessagePurchase::Purchased(None));
    assert_eq!(buy(costly, false, None, None), MessagePurchase::Purchased(None));
    assert_eq!(buy(costly, true, None, purse(20)), MessagePurchase::Insufficient);
    assert_eq!(buy(costly, true, Some(8), purse(20)), MessagePurchase::Insufficient);
    assert_eq!(buy(costly, true, Some(7), None), MessagePurchase::Insufficient);
    assert_eq!(buy(costly, true, Some(7), purse(11)), MessagePurchase::Insufficient);
    assert_eq!(
        buy(costly, true, Some(7), purse(12)),
        MessagePurchase::Purchased(Some(Payment { before: 15, after: 0 }))
    );
    assert_eq!(
        buy(costly, true, Some(7), purse(100)),
        MessagePurchase::Purchased(Some(Payment { before: 20, after: 5 }))
    );
    let lost = Some(LockedMessage { cost_id: Some(1), cost_amount: i64::MIN });
    assert!(matches!(
        purchase_ticket_message(lost, true, Some(7), purse(12), now),
        Err(RbInternalError::Other(text)) if text == "bigint out of range"
    ));
}

#[test]
fn tickets_open_where_nothing_stands_against_it() {
    let team = RbTicketSenderType::Team;
    let available = Some(TicketAvailability { ticket_enabled: true, cooldown_ready: Some(true) });
    let open = PlayerFeatureAccess::Open;
    assert_eq!(
        open_puzzle_ticket(false, available, team, open),
        OpenPuzzleTicketResult::Open
    );
    assert_eq!(
        open_puzzle_ticket(true, available, team, open),
        OpenPuzzleTicketResult::PendingExists
    );
    let waiting = Some(TicketAvailability { ticket_enabled: true, cooldown_ready: Some(false) });
    assert_eq!(
        open_puzzle_ticket(false, waiting, team, open),
        OpenPuzzleTicketResult::Cooldown
    );
    let disabled = Some(TicketAvailability { ticket_enabled: false, cooldown_ready: Some(true) });
    assert_eq!(
        open_puzzle_ticket(false, disabled, team, open),
        OpenPuzzleTicketResult::Disabled
    );
}

#[test]
fn rows_of_tickets_are_read() {
    let info = get_ticket_user_info(
        Some(TicketUserRow { state: 1, urole: 2, is_member: Some(false) }),
        7,
    )
    .unwrap();
    assert!(info.mod_access && !info.member_access && !info.admin_access);
    assert!(get_ticket_user_info(None, 7).is_none());
    assert!(make_message(OptionalMessageRow {
        id: None,
        sender_id: None,
        sender_nickname: None,
        sender_type: None,
        cost_id: None,
        cost_amount: None,
        unlocked: None,
        content: None,
        content_type: None,
        ctime_at: None,
        utime_at: None,
    })
    .is_none());
    assert_eq!(user_avatar(&None, Some(0)), None);
    assert_eq!(
        user_avatar(&Some("test@example.com".to_string()), Some(1)).as_deref(),
        Some("https://puzzle.cat/api/users/avatar/public/55502f40dc8b7c769880b10874abc9d0")
    );
    let perm = TicketPerm::new(true, true, false, vec![3], TicketSendBlock::Clear);
    assert_eq!(perm.currency, vec![3]);
    for code in 1..4i16 {
        assert_eq!(i16::from(TicketOperationAction::from(code)), code);
    }
}

fn stored_message(unlocked: bool) -> OptionalMessageRow {
    OptionalMessageRow {
        id: Some(1),
        sender_id: Some(2),
        sender_nickname: Some("n".to_string()),
        sender_type: Some(1),
        cost_id: Some(3),
        cost_amount: Some(5),
        unlocked: Some(unlocked),
        content: Some("secret".to_string()),
        content_type: Some(1),
        ctime_at: Some(4),
        utime_at: None,
    }
}

#[test]
fn locked_messages_are_hidden() {
    let hidden = get_ticket_message(stored_message(false), false).unwrap();
    assert_eq!((hidden.content, hidden.content_type), (None, None));
    assert_eq!(hidden.cost_amount, 5);
    let staff = get_ticket_message(stored_message(false), true).unwrap();
    assert_eq!(staff.content.as_deref(), Some("secret"));
    let bought = get_ticket_message(stored_message(true), false).unwrap();
    assert_eq!(bought.content.as_deref(), Some("secret"));
    let item = thread_operation(
        OperationRow {
            id: 8,
            action: 2,
            actor_id: 2,
            actor_nickname: "n".to_string(),
            actor_type: 1,
            ctime_at: 6,
            message: stored_message(false),
        },
        false,
    );
    assert!(matches!(
        item,
        TicketThreadItem::Operation(op) if op.id == 8 && op.message.as_ref().unwrap().content.is_none()
    ));
}

#[test]
fn answers_end_the_waiting_of_messages() {
    let sent = |id: i32, sender_type: i16| SentRow { id, sender_type };
    assert_eq!(get_pending_count(&vec![sent(1, 0), sent(2, 1), sent(3, 0), sent(4, 0)]), 2);
    assert_eq!(get_pending_count(&vec![sent(1, 0), sent(3, 0), sent(4, 1)]), 0);
    assert_eq!(get_pending_count(&vec![]), 0);
    let host = data(RbTicketSenderType::Host);
    assert_eq!(auto_assign_ticket_on_staff_message(None, &host), Some(4));
    assert_eq!(auto_assign_ticket_on_staff_message(Some(9), &host), Some(9));
    let team = data(RbTicketSenderType::Team);
    assert_eq!(auto_assign_ticket_on_staff_message(None, &team), None);
}

#[test]
fn features_open_the_way_to_the_staff() {
    let row = |team_enabled: Option<bool>, game_state: Option<i16>| {
        Some(FeatureAccessRow { team_enabled, game_state })
    };
    assert_eq!(player_dm_feature_access(None), PlayerFeatureAccess::GameClosed);
    assert_eq!(player_dm_feature_access(row(None, None)), PlayerFeatureAccess::Open);
    assert_eq!(
        player_dm_feature_access(row(Some(false), Some(2))),
        PlayerFeatureAccess::TeamFeatureBanned
    );
    assert_eq!(
        player_dm_feature_access(row(Some(true), Some(1))),
        PlayerFeatureAccess::ExistingOnly
    );
    assert_eq!(
        player_ticket_feature_access(row(None, Some(2)), false),
        PlayerFeatureAccess::GameClosed
    );
    assert_eq!(
        player_ticket_feature_access(row(Some(false), None), false),
        PlayerFeatureAccess::TeamFeatureBanned
    );
    assert_eq!(player_ticket_feature_access(row(None, None), true), PlayerFeatureAccess::Open);
    assert_eq!(team_state_code(true, true, true), -1);
    assert_eq!(team_state_code(false, true, true), 2);
    assert_eq!(team_state_code(false, false, true), 1);
    assert_eq!(team_state_code(false, false, false), 0);
    assert!(unassign_ticket(Some(4), 4));
    assert!(!unassign_ticket(Some(4), 5));
    assert!(!unassign_ticket(None, 4));
}

fn ticket_row(id: i32, last_at: Option<i64>, puzzle: Option<i32>) -> TicketRow {
    TicketRow {
        id,
        state: 1,
        team_id: 3,
        team_name: "team".to_string(),
        team_state: 1,
        game_id: 1,
        puzzle: OptionalPuzzleRow {
            id: puzzle,
            slug: None,
            title: puzzle.map(|_| "p".to_string()),
            state: puzzle.map(|_| 0),
            round_id: puzzle.map(|_| 6),
            round_slug: None,
            round_title: puzzle.map(|_| "r".to_string()),
        },
        assignee: assignee(None),
        msg_count: Some(1),
        last_at,
        last_by: last_at.map(|_| 0),
    }
}

#[test]
fn staff_list_the_latest_tickets_first() {
    let filter = StaffTicketFilter {
        kind: 0,
        state: None,
        waiting_for: 0,
        assignee_filter: 0,
        user_id: 4,
        puzzle_id: None,
        team_id: None,
    };
    let rows = || {
        vec![
            ticket_row(1, None, None),
            ticket_row(2, Some(5), Some(9)),
            ticket_row(3, Some(8), None),
            ticket_row(4, Some(5), None),
        ]
    };
    let ids = |filter: StaffTicketFilter, limit: usize, offset: usize| {
        list_staff_tickets(rows(), &filter, limit, offset).iter().map(|t| t.id()).collect::<Vec<_>>()
    };
    assert_eq!(ids(filter, 10, 0), vec![3, 4, 2, 1]);
    assert_eq!(ids(filter, 2, 1), vec![4, 2]);
    assert_eq!(ids(StaffTicketFilter { kind: 1, ..filter }, 10, 0), vec![2]);
    assert_eq!(ids(StaffTicketFilter { kind: 2, ..filter }, 10, 0), vec![3, 4, 1]);
    assert_eq!(ids(StaffTicketFilter { waiting_for: 1, ..filter }, 10, 0), vec![3, 4, 2]);
    assert!(ids(StaffTicketFilter { assignee_filter: 1, ..filter }, 10, 0).is_empty());
    assert!(ids(StaffTicketFilter { state: Some(2), ..filter }, 10, 0).is_empty());
    let listed = list_staff_tickets(rows(), &filter, 10, 0);
    assert!(listed[2].is_puzzle_ticket() && !listed[0].is_puzzle_ticket());
}

#[test]
fn pages_join_in_both_directions() {
    let all = || (1..6).map(|id| message(id, i64::from(id))).collect::<Vec<_>>();
    let ids = |items: &Vec<TicketThreadItem>| items.iter().map(|i| i.id()).collect::<Vec<_>>();
    let first = get_ticket_messages_page(all(), &oldest_request(), 3);
    let next = TicketPageRequest { after: first.history.after, ..TicketPageRequest::default() };
    let second = get_ticket_messages_page(all(), &next, 3);
    assert_eq!((ids(&first.items), ids(&second.items)), (vec![1, 2, 3], vec![4, 5]));
    let latest = get_ticket_messages_page(all(), &TicketPageRequest::default(), 3);
    let back = TicketPageRequest { before: latest.history.before, ..TicketPageRequest::default() };
    let older = get_ticket_messages_page(all(), &back, 3);
    assert_eq!((ids(&older.items), ids(&latest.items)), (vec![1, 2], vec![3, 4, 5]));
    let request = TicketPageRequest::default();
    let latest = get_ticket_messages_page(all(), &request, 3);
    let page = get_ticket_page(&request, true, latest, Some(message(1, 1)), false);
    assert_eq!(ids(&page.items), vec![1, 3, 4, 5]);
    assert!(page.history.has_more);
}

#[test]
fn tickets_wait_for_their_puzzles() {
    let terms = TicketTerms {
        ticket_enabled: true,
        ticket_cooldown: 60,
        release_at: 5_000_000,
        team: Some(OpenedPuzzle { state: 0, opened_at: 2_000_000 }),
    };
    let early = ticket_cooldown(Some(terms), 10_000_000).unwrap();
    assert_eq!((early.ticket_enabled, early.ready), (Some(true), Some(false)));
    assert_eq!(early.cooldown_till, Some(65_000_000));
    let late = ticket_cooldown(Some(terms), 65_000_000).unwrap();
    assert_eq!(late.ready, Some(true));
    assert_eq!(
        ticket_availability(Some(terms), 65_000_000),
        Some(TicketAvailability { ticket_enabled: true, cooldown_ready: Some(true) })
    );
    assert_eq!(
        ticket_availability(Some(terms), 10_000_000).unwrap().cooldown_ready,
        Some(false)
    );
    assert_eq!(ticket_availability(Some(terms), 1), None);
    assert_eq!(ticket_availability(None, 1), None);
    let closed = TicketTerms { team: None, ..terms };
    assert_eq!(ticket_cooldown(Some(closed), 65_000_000).unwrap().ticket_enabled, None);
    let disabled = TicketTerms { ticket_enabled: false, ..terms };
    let told = ticket_cooldown(Some(disabled), 65_000_000).unwrap();
    assert_eq!((told.ticket_enabled, told.cooldown_till), (Some(false), None));
    let far = TicketTerms {
        ticket_cooldown: i32::MAX,
        team: Some(OpenedPuzzle { state: 0, opened_at: i64::MAX }),
        ..terms
    };
    assert!(ticket_cooldown(Some(far), i64::MAX).is_err());
}

#[test]
fn solved_puzzles_close_their_tickets() {
    let ticket = |id: i32, state: i16, team_id: i32, puzzle_id: Option<i32>| TicketPlace {
        id,
        state,
        team_id,
        puzzle_id,
    };
    let open: i16 = RbTicketState::Open.into();
    let closed: i16 = RbTicketState::Closed.into();
    let tickets = vec![
        ticket(1, open, 5, Some(9)),
        ticket(2, closed, 5, Some(9)),
        ticket(3, open, 6, Some(9)),
        ticket(4, open, 5, None),
        ticket(5, open, 5, Some(9)),
    ];
    assert_eq!(close_puzzle_tickets_on_solve(&tickets, 5, 9), vec![1, 5]);
    assert!(close_puzzle_tickets_on_solve(&tickets, 5, 8).is_empty());
}

#[test]
fn threads_show_what_the_reader_may_see() {
    let perm = get_dm_ticket_thread(false, false, TicketSendBlock::Clear);
    assert!(!perm.can_host);
    assert_eq!(perm.content_type, vec![RbContentType::UnsafeMarkdown]);
    assert_eq!(get_dm_ticket_thread(true, true, TicketSendBlock::Clear).content_type.len(), 3);
    let mut row = ticket_row(1, Some(5), Some(9));
    row.assignee = assignee(Some(4));
    let summary = get_ticket_summary(row, true, vec![]);
    assert!(summary.assignee.is_some());
    let info = opener_info(1, RbTicketSenderType::Team);
    assert!(info.member_access && !info.mod_access);
    let page = get_ticket_messages_page(vec![message(1, 1)], &TicketPageRequest::default(), 5);
    let thread =
        get_ticket_thread(summary, page.items, page.history, &info, PlayerFeatureAccess::Open, 0);
    assert!(thread.ticket().unwrap().assignee.is_none());
    assert_eq!(thread.messages().len(), 1);
    assert!(!thread.perm().can_view_locked);
}

#[test]
fn tickets_of_a_puzzle_are_listed_with_what_stands_against_a_new_one() {
    let terms = TicketTerms {
        ticket_enabled: true,
        ticket_cooldown: 0,
        release_at: 0,
        team: Some(OpenedPuzzle { state: 0, opened_at: 0 }),
    };
    let cooldown = || ticket_cooldown(Some(terms), 10).unwrap();
    let open = |puzzle_id: i32| TicketOpenInfo { id: 1, puzzle_id, puzzle_title: "P".to_string() };
    let access = PlayerFeatureAccess::Open;
    let free = get_team_puzzle_tickets(vec![], vec![], 9, cooldown(), access, false);
    assert_eq!(free.open_block, TicketOpenBlock::Clear);
    let own = get_team_puzzle_tickets(vec![], vec![open(9)], 9, cooldown(), access, false);
    assert_eq!(own.open_block, TicketOpenBlock::CurrentPuzzlePending);
    let other = get_team_puzzle_tickets(vec![], vec![open(8)], 9, cooldown(), access, false);
    assert_eq!((other.open_block, other.open_tickets.len()), (TicketOpenBlock::PendingLimit, 1));
    let closed = PlayerFeatureAccess::GameClosed;
    let shut = get_team_puzzle_tickets(vec![], vec![], 9, cooldown(), closed, false);
    assert_eq!(shut.open_block, TicketOpenBlock::FeatureClosed);
    let exempt = get_team_puzzle_tickets(vec![], vec![], 9, cooldown(), closed, true);
    assert_eq!(exempt.open_block, TicketOpenBlock::Clear);
}
