use rbph::db::event_log::CurrencyEventData;
use rbph::db::event_log::EventSeverity;
use rbph::db::puzzle::admin::{
    admin_batch_update_release_phase, admin_clear_puzzle_team_states, admin_create, admin_update,
    admin_update_hint, default_judge, default_penalty, default_submit_requirements,
    create_immediate_release_event, default_ticket_enabled, BatchRelease, PuzzlePlace,
    PuzzleSurroundings, RbHintAdminData, RbHintUpdateData, TeamPlace,
    RbPuzzleAdminData, RbPuzzleCreateData, RbPuzzleUpdateData, TargetPhase,
};
use rbph::db::puzzle::backend::{
    insert_backend_submission, solve_backend_puzzle, solve_backend_puzzle_with_submission,
    BackendSolveEffect, BackendSubmissionInput, BackendSubmissionShowData,
};
use rbph::db::puzzle::hint::{
    check_hint_backend, hint_purchased, purchase_hint, told_currency, HintFact,
    HintPurchase, HintRefusal, HintTerms, RbHintTeamStateShowData, SoldHint,
};
use rbph::db::puzzle::progress::{
    finish_team, lock_team, mark_solved, PuzzleProgress, TeamProgress,
};
use rbph::db::puzzle::staff::{get_staff_puzzle_team_status, StaffHintRow, StaffStatusRow};
use rbph::db::puzzle::submit::{
    advance, begin_submission, check_triggers, conclude, consequences, content_changed,
    currency_start_at, custom_function, effects_after_commit, effects_of_action,
    effects_of_change, effects_of_failure, effects_of_verdict, Admission, AdmissionFact,
    CurrencyPenaltyShowData, PenaltyRule, PuzzleSubmitRequirement, Refusal, StoredAnswer,
    SubmitEffect,
};
use rbph::db::puzzle::timing::HintRow;
use rbph::db::puzzle::unlock::{
    admin_unlock_puzzle_for_eligible_teams, open_puzzles, puzzle_unlocked,
    refresh_team_hint_enablements, unlock_new_puzzles, CandidateRow, StoredPuzzle, TeamSolvedRow, TriggerRow,
};
use rbph::db::puzzle::view::{
    can_team_access_puzzle, get_hints_team_state, get_puzzle_id_by_game_ref, get_puzzle_team_state,
    get_staff_puzzle_submissions, get_team_submissions, load_submit_requirements, page_total,
    submission_enabled, submit_requirements_met, CurrencyName, PuzzleRef, PuzzleTeamStateRow,
    TeamHintRow, TeamPuzzleAccess,
};
use rbph::db::states::{PuzzleRow, RoundRow};
use rbph::expr::ast::GateExpr;
use rbph::expr::CompileCache;
use rbph::game::judge::{
    judge_action_of, judge_after_custom, judge_by_rules, normalize_answer, prepare_rules,
    JudgeBackendOutput, JudgeResult, JudgeRule, JudgeStep, RawAction,
};
use rbph::json::Json;
use rbph::model::game::{RbContentType, RbJudgeAction, RbPuzzlePenaltyType, RbTeamPuzzleState};

fn rule(rtype: &str, text: Option<&str>, action: &str) -> JudgeRule {
    JudgeRule {
        rtype: Some(rtype.to_string()),
        text: text.map(|t| t.to_string()),
        action: Some(action.to_string()),
        result: None,
        answer: None,
        function: None,
        triggers: vec![],
    }
}

fn result(action: RbJudgeAction, triggers: Vec<String>) -> JudgeResult {
    JudgeResult { action, result: None, answer: None, ignored: false, triggers }
}

#[test]
fn answers_are_compared_without_case_and_space() {
    assert_eq!(normalize_answer(" He llo\tW\u{3000}ORLD "), "helloworld");
    assert_eq!(normalize_answer("\u{130}"), "i\u{307}");
    assert_eq!(normalize_answer(" "), "");
}

#[test]
fn the_first_rule_that_settles_decides() {
    let rules = prepare_rules(vec![
        rule("exact", Some("A B"), "correct"),
        rule("exact", Some("ab"), "milestone"),
        rule("custom", None, "fail"),
        rule("all", None, "easter_egg"),
    ]);
    let JudgeStep::Done(verdict) = judge_by_rules(&rules, "ab") else {
        panic!("the first rule settles it");
    };
    assert_eq!(verdict.action, RbJudgeAction::Correct);
    assert_eq!(verdict.answer.as_deref(), Some("A B"));
    assert!(matches!(judge_by_rules(&rules, "x"), JudgeStep::RunCustom(2)));
    let JudgeStep::Done(verdict) = judge_after_custom(&rules, "x", 2, None) else {
        panic!("the last rule settles it");
    };
    assert_eq!(verdict.action, RbJudgeAction::EasterEgg);
    let output = JudgeBackendOutput {
        action: None,
        result: Some("r".to_string()),
        answer: None,
        ignored: Some(true),
        triggers: vec![],
    };
    let JudgeStep::Done(verdict) = judge_after_custom(&rules, "x", 2, Some(output)) else {
        panic!("the output settles it");
    };
    assert_eq!(verdict.action, RbJudgeAction::Fail);
    assert!(verdict.ignored);
    let JudgeStep::Done(verdict) = judge_by_rules(&vec![], "x") else {
        panic!("no rule settles it");
    };
    assert_eq!(verdict.action, RbJudgeAction::Fail);
}

#[test]
fn answers_are_admitted_step_by_step() {
    let (norm, stage) = begin_submission(" A b");
    assert_eq!(norm, "ab");
    assert_eq!(stage, Admission::Access);
    assert_eq!(begin_submission("  ").1, Admission::Refused(Refusal::Invalid));
    let none = vec![];
    assert_eq!(
        advance(stage, AdmissionFact::Access(None), &none),
        Admission::Refused(Refusal::NotFound)
    );
    assert_eq!(
        advance(stage, AdmissionFact::Access(Some(false)), &none),
        Admission::Refused(Refusal::Locked)
    );
    let stage = advance(stage, AdmissionFact::Access(Some(true)), &none);
    assert_eq!(stage, Admission::Allowance);
    let stage = advance(stage, AdmissionFact::Allowance(Some(true)), &none);
    assert_eq!(stage, Admission::Puzzle);
    let needs = vec![PuzzleSubmitRequirement::CurrencyMinimum { currency_id: 1, minimum: 5 }];
    let stage = advance(stage, AdmissionFact::Puzzle { rules: 1, readable: true }, &needs);
    assert_eq!(stage, Admission::Balance(0));
    assert_eq!(
        advance(stage, AdmissionFact::Balance(Some(4)), &needs),
        Admission::Refused(Refusal::Locked)
    );
    let stage = advance(stage, AdmissionFact::Balance(Some(5)), &needs);
    assert_eq!(stage, Admission::Insert);
    assert_eq!(advance(stage, AdmissionFact::Inserted(true), &needs), Admission::Admitted);
    assert_eq!(
        advance(stage, AdmissionFact::Inserted(false), &needs),
        Admission::Refused(Refusal::Duplicate)
    );
}

#[test]
fn judged_answers_have_their_effects() {
    let effects = effects_of_verdict(&result(RbJudgeAction::Correct, vec!["k".to_string()]));
    assert_eq!(
        effects,
        vec![
            SubmitEffect::RecordVerdict { action: RbJudgeAction::Correct, ignored: false },
            SubmitEffect::StoreTriggers
        ]
    );
    let effects = effects_of_verdict(&result(RbJudgeAction::Error, vec!["k".to_string()]));
    assert_eq!(
        effects,
        vec![SubmitEffect::RecordVerdict { action: RbJudgeAction::Error, ignored: true }]
    );
    assert_eq!(
        effects_of_action(RbJudgeAction::FinishGame, false),
        vec![
            SubmitEffect::LogJudged { severity: EventSeverity::Info },
            SubmitEffect::MarkSolved,
            SubmitEffect::FinishTeam
        ]
    );
    assert_eq!(
        effects_of_change(RbJudgeAction::StartGame, false),
        vec![SubmitEffect::GrantCurrencies]
    );
    assert!(effects_of_change(RbJudgeAction::Fail, true).is_empty());
    let rules = vec![
        PenaltyRule { rtype: RbPuzzlePenaltyType::LinearTime, args: vec![10] },
        PenaltyRule { rtype: RbPuzzlePenaltyType::Currency, args: vec![7, 3] },
    ];
    let (effects, cooldown) = effects_of_failure(&rules, 4);
    assert_eq!(cooldown, Some(40));
    assert_eq!(
        effects,
        vec![
            SubmitEffect::Charge { currency_id: 7, amount: 3 },
            SubmitEffect::SetCooldown { seconds: 40 },
            SubmitEffect::LogConsequences
        ]
    );
    let outcome = conclude(RbJudgeAction::Correct, true, false);
    assert!(outcome.solved && outcome.do_unlock);
    assert!(!conclude(RbJudgeAction::Correct, false, false).content_changed);
    assert!(content_changed(conclude(RbJudgeAction::Fail, false, false), &vec![3]));
    assert_eq!(
        effects_after_commit(RbJudgeAction::Correct, true, false, &vec![]),
        vec![
            SubmitEffect::UpdateLeaderboard,
            SubmitEffect::UnlockPuzzles,
            SubmitEffect::RefreshHints,
            SubmitEffect::ReadState
        ]
    );
    assert_eq!(currency_start_at(1, 5, 9), 9);
    assert_eq!(currency_start_at(0, 5, 9), 5);
}

#[test]
fn judges_must_name_what_they_use() {
    assert!(custom_function(&rule("custom", None, "fail")).is_err());
    let mut named = rule("custom", None, "fail");
    named.function = Some("check".to_string());
    assert_eq!(custom_function(&named).unwrap(), "check");
    assert!(check_triggers(&result(RbJudgeAction::Correct, vec!["a-b".to_string()])).is_ok());
    assert!(check_triggers(&result(RbJudgeAction::Correct, vec!["a b".to_string()])).is_err());
}

fn field<'a>(value: &'a Json, key: &str) -> &'a Json {
    match value {
        Json::Object(entries) => &entries.iter().find(|(k, _)| k == key).unwrap().1,
        _ => panic!("an object is expected"),
    }
}

#[test]
fn answers_are_told_as_events() {
    let answer = StoredAnswer {
        id: 1,
        game_id: 2,
        team_id: 3,
        user_id: 4,
        puzzle_id: 5,
        round_id: 6,
        puzzle_title: "P".to_string(),
        answer: "A b".to_string(),
        norm_answer: "ab".to_string(),
    };
    let event = answer.judged(&result(RbJudgeAction::Error, vec![]));
    assert_eq!(event.event_type, "submission.judged");
    assert_eq!(event.severity, i16::from(EventSeverity::Warning));
    assert_eq!(event.submission_id, Some(1));
    let told = field(&event.data, "submission");
    assert!(matches!(field(told, "norm_answer"), Json::Text(s) if s == "ab"));
    assert!(matches!(field(told, "ignored"), Json::Bool(true)));
    assert_eq!(answer.solved().event_type, "puzzle.solved");
    assert_eq!(answer.started().event_type, "game.started");
    let change = CurrencyEventData {
        id: 7,
        slug: "c".to_string(),
        name: "C".to_string(),
        prec: 0,
        before: 9,
        after: 4,
    };
    assert_eq!(change.delta(), -5);
    assert_eq!(answer.charged(&change, 5).currency_id, Some(7));
    let told = consequences(
        Some(40),
        &vec![CurrencyPenaltyShowData { currency_id: 7, name: "C".to_string(), prec: 0, amount: 5 }],
    );
    assert_eq!(field(&told, "cooldown_seconds").as_i64(), Some(40));
}

#[test]
fn hints_are_sold_step_by_step() {
    let terms = HintTerms { costs: true, calls_backend: true };
    let stage = purchase_hint(HintPurchase::Target, HintFact::Target(true));
    assert_eq!(stage, HintPurchase::Offer);
    assert_eq!(
        purchase_hint(HintPurchase::Target, HintFact::Target(false)),
        HintPurchase::Refused(HintRefusal::Unavailable)
    );
    let stage = purchase_hint(stage, HintFact::Offer(Some(terms)));
    assert_eq!(stage, HintPurchase::Precheck(terms));
    assert_eq!(
        purchase_hint(stage, HintFact::Affordable(false)),
        HintPurchase::Refused(HintRefusal::Insufficient)
    );
    let stage = purchase_hint(stage, HintFact::Affordable(true));
    assert_eq!(stage, HintPurchase::Backend(terms));
    let stage = purchase_hint(stage, HintFact::BackendCalled);
    assert_eq!(stage, HintPurchase::Charge);
    assert_eq!(purchase_hint(stage, HintFact::Charged(true)), HintPurchase::Unlock);
    let free = HintTerms { costs: false, calls_backend: false };
    assert_eq!(
        purchase_hint(HintPurchase::Offer, HintFact::Offer(Some(free))),
        HintPurchase::Unlock
    );
    assert!(check_hint_backend(false, true, true).is_err());
    assert!(check_hint_backend(true, false, true).is_err());
    assert!(check_hint_backend(true, true, true).is_ok());
    let change = CurrencyEventData {
        id: 7,
        slug: "c".to_string(),
        name: "C".to_string(),
        prec: 0,
        before: 9,
        after: 5,
    };
    let sold = SoldHint {
        game_id: 1,
        team_id: 2,
        user_id: 3,
        puzzle_id: 4,
        round_id: 5,
        puzzle_title: "P".to_string(),
        hint_id: 6,
        hint_title: "H".to_string(),
        cost_id: Some(7),
        cost_amount: 4,
    };
    let event = hint_purchased(&sold, &Some(change));
    assert_eq!(event.hint_id, Some(6));
    assert_eq!(event.delta_amount, Some(-4));
}

fn puzzle(id: i32, round_id: i32, unlock_cond: Option<&str>) -> PuzzleRow {
    PuzzleRow {
        id,
        slug: None,
        round_id,
        round_puzzle_id: None,
        unlock_cond: unlock_cond.map(|c| c.to_string()),
    }
}

#[test]
fn puzzles_open_where_their_conditions_hold() {
    let mut cache: CompileCache<GateExpr> = CompileCache::new();
    let rounds = vec![RoundRow { id: 1, slug: None }];
    let puzzles = vec![
        puzzle(1, 1, None),
        puzzle(2, 1, Some("(solved 1)")),
        puzzle(3, 1, Some("(solved 2)")),
        puzzle(4, 1, Some("(broken")),
    ];
    let team = vec![TeamSolvedRow { game_id: 1, is_locked: true, puzzle_id: Some(1) }];
    let opened = unlock_new_puzzles(&mut cache, &team, &vec![], &rounds, &puzzles);
    assert!(opened.unlocks.contains(&2));
    assert!(!opened.unlocks.contains(&3));
    assert!(opened.rejects.iter().any(|(id, _)| *id == 4));
    let candidates = vec![
        CandidateRow { id: 10, is_locked: true, solved_puzzle_id: Some(1) },
        CandidateRow { id: 11, is_locked: true, solved_puzzle_id: None },
    ];
    let triggers: Vec<TriggerRow> = vec![];
    assert_eq!(
        admin_unlock_puzzle_for_eligible_teams(
            &rounds,
            &puzzles,
            Some("(solved 1)"),
            &triggers,
            &candidates
        )
        .unwrap(),
        vec![10]
    );
    assert!(admin_unlock_puzzle_for_eligible_teams(
        &rounds,
        &puzzles,
        Some("(broken"),
        &triggers,
        &candidates
    )
    .is_err());
    assert_eq!(
        refresh_team_hint_enablements(
            &mut cache,
            &vec![(5, "(solved 1)".to_string()), (6, "(solved 9)".to_string())],
            vec![1],
            &vec![],
            &rounds,
            &puzzles,
            true
        ),
        vec![5]
    );
}

#[test]
fn puzzles_are_shown_to_teams() {
    assert!(matches!(get_puzzle_id_by_game_ref("-5"), PuzzleRef::Id(-5)));
    assert!(matches!(get_puzzle_id_by_game_ref("intro"), PuzzleRef::Slug));
    assert!(get_puzzle_team_state(None).is_none());
    let state = get_puzzle_team_state(Some(PuzzleTeamStateRow {
        state: 1,
        max_submit: Some(3),
        submit_count: None,
        answers: None,
        utime_at: 5,
        cooldown_till: None,
    }))
    .unwrap();
    assert_eq!(state.state, RbTeamPuzzleState::Solved);
    assert_eq!(state.submit_count, 0);
    assert!(state.answers.is_empty());
    let needs = vec![PuzzleSubmitRequirement::CurrencyMinimum { currency_id: 1, minimum: 5 }];
    let names = vec![CurrencyName { id: 1, name: "C".to_string(), prec: 2 }];
    let shown = load_submit_requirements(&needs, &names);
    assert_eq!(shown.len(), 1);
    assert_eq!(shown[0].requirement_type, "currency_minimum");
    assert_eq!(shown[0].currency_prec, 2);
    assert!(submission_enabled(&Some(vec![rule("all", None, "fail")])));
    assert!(!submission_enabled(&Some(vec![])));
    assert!(!submission_enabled(&None));
    assert!(submit_requirements_met(&Some(needs), &vec![Some(5)]));
    assert!(!submit_requirements_met(&None, &vec![]));
    assert_eq!(get_team_submissions(0), 0);
    assert_eq!(get_team_submissions(2), 20);
    assert_eq!(page_total(&vec![]), 0);
    assert_eq!(page_total(&vec![Some(12), Some(12)]), 12);
    assert_eq!(get_staff_puzzle_submissions(false, 1, 20), None);
    assert_eq!(get_staff_puzzle_submissions(true, 3, 20), Some(60));
}

fn no_change() -> RbPuzzleUpdateData {
    RbPuzzleUpdateData {
        slug: None,
        sort: None,
        title: None,
        ptype: None,
        judge: None,
        penalty: None,
        submit_requirements: None,
        max_submit: None,
        unlock_cond: None,
        release_phase_id: None,
        release_immediately: None,
        round_id: None,
        ticket_enabled: None,
        ticket_cooldown: None,
    }
}

fn stored_puzzle() -> RbPuzzleAdminData {
    RbPuzzleAdminData {
        id: 3,
        game_id: 1,
        slug: Some("old".to_string()),
        sort: 5,
        title: "Old".to_string(),
        ptype: 0,
        judge: default_judge(),
        penalty: default_penalty(),
        submit_requirements: default_submit_requirements(),
        max_submit: Some(9),
        unlock_cond: None,
        release_phase_id: Some(2),
        immediate_release_at: None,
        round_id: 4,
        ticket_enabled: true,
        ticket_cooldown: 60,
        ctime_at: 7,
    }
}

fn around(opened_rounds: Vec<i32>, phase: Option<TargetPhase>) -> PuzzleSurroundings {
    PuzzleSurroundings { opened_rounds, phase, round_exists: true, now: 1000 }
}

#[test]
fn staff_change_puzzles() {
    let change = admin_update(stored_puzzle(), no_change(), &around(vec![], None));
    assert!(!change.clears_releases);
    assert_eq!(change.released_at, None);
    let kept = change.puzzle.unwrap();
    assert_eq!((kept.sort, kept.max_submit, kept.release_phase_id), (5, Some(9), Some(2)));
    assert_eq!(kept.slug.as_deref(), Some("old"));

    let data = RbPuzzleUpdateData {
        slug: Some(Some("s".to_string())),
        max_submit: Some(None),
        release_immediately: Some(true),
        sort: Some(8),
        ..no_change()
    };
    let change = admin_update(stored_puzzle(), data, &around(vec![], None));
    assert!(change.clears_releases);
    assert_eq!(change.released_at, Some(1000));
    let changed = change.puzzle.unwrap();
    assert_eq!(changed.slug.as_deref(), Some("s"));
    assert_eq!((changed.sort, changed.max_submit), (8, None));
    assert_eq!((changed.release_phase_id, changed.immediate_release_at), (None, Some(1000)));

    // A puzzle that opens a round keeps its place, and cannot go to another round.
    let data = RbPuzzleUpdateData { sort: Some(8), ..no_change() };
    let change = admin_update(stored_puzzle(), data, &around(vec![4], None));
    assert_eq!(change.puzzle.unwrap().sort, 5);
    let data = RbPuzzleUpdateData { round_id: Some(6), ..no_change() };
    assert!(admin_update(stored_puzzle(), data, &around(vec![4], None)).puzzle.is_none());

    // A release is refused with a phase that is over, and with a phase and at once.
    let ahead = TargetPhase { game_id: 1, release_at: 2000, has_event: false };
    let over = TargetPhase { release_at: 500, ..ahead };
    let to_phase = || RbPuzzleUpdateData { release_phase_id: Some(Some(2)), ..no_change() };
    let change = admin_update(stored_puzzle(), to_phase(), &around(vec![], Some(ahead)));
    assert_eq!(change.puzzle.unwrap().release_phase_id, Some(2));
    let change = admin_update(stored_puzzle(), to_phase(), &around(vec![], Some(over)));
    assert!(change.puzzle.is_none() && change.clears_releases);
    let both = RbPuzzleUpdateData { release_immediately: Some(true), ..to_phase() };
    assert!(admin_update(stored_puzzle(), both, &around(vec![], Some(ahead))).puzzle.is_none());

    assert!(matches!(
        admin_batch_update_release_phase(2, 1, 1, None, None, false, 1000),
        BatchRelease::RolledBack
    ));
    assert!(matches!(
        admin_batch_update_release_phase(1, 1, 1, None, None, true, 1000),
        BatchRelease::Changed(Some(1000))
    ));
    assert!(matches!(
        admin_batch_update_release_phase(1, 1, 1, Some(2), Some(ahead), false, 1000),
        BatchRelease::Changed(None)
    ));
    assert!(matches!(
        admin_batch_update_release_phase(1, 1, 1, Some(2), Some(over), false, 1000),
        BatchRelease::RolledBack
    ));
    let cleared = admin_clear_puzzle_team_states(
        &vec![1, 2],
        &vec![1],
        &vec![],
        &vec![3],
        &vec![],
    );
    assert_eq!(cleared.team_count, 3);
    assert_eq!(cleared.team_ids, vec![1, 2, 3]);
    assert_eq!(cleared.puzzle_states, 2);
    assert!(default_ticket_enabled());
    assert!(matches!(default_judge(), Json::Array(items) if items.is_empty()));
    assert!(matches!(default_submit_requirements(), Json::Array(items) if items.is_empty()));
}

#[test]
fn staff_create_puzzles() {
    let data = |release_phase_id: Option<i32>, release_immediately: bool| RbPuzzleCreateData {
        slug: None,
        sort: 0,
        title: "T".to_string(),
        ptype: 0,
        content: "c".to_string(),
        content_type: 1,
        judge: default_judge(),
        penalty: default_penalty(),
        submit_requirements: default_submit_requirements(),
        max_submit: None,
        unlock_cond: None,
        release_phase_id,
        release_immediately,
        round_id: 4,
        ticket_enabled: true,
        ticket_cooldown: 0,
    };
    let new = admin_create(&data(None, true), Some(1), None, 1000).unwrap();
    assert_eq!((new.game_id, new.immediate_release_at), (1, Some(1000)));
    assert_eq!((new.block_name, new.block_sort), ("Default", 0));
    assert!(admin_create(&data(None, false), None, None, 1000).is_none());
    let other = TargetPhase { game_id: 9, release_at: 2000, has_event: false };
    assert!(admin_create(&data(Some(2), false), Some(1), Some(other), 1000).is_none());
    let own = TargetPhase { game_id: 1, ..other };
    let new = admin_create(&data(Some(2), false), Some(1), Some(own), 1000).unwrap();
    assert_eq!((new.release_phase_id, new.immediate_release_at), (Some(2), None));
}

#[test]
fn staff_change_hints() {
    let hint = || RbHintAdminData {
        id: 1,
        sort: 2,
        title: "t".to_string(),
        title_hidden: false,
        content: "c".to_string(),
        content_type: 1,
        cooldown: 60,
        enable_cond: Some("(true)".to_string()),
        cooldown_after_enable: false,
        cost_id: Some(3),
        cost_amount: 10,
        backend_function: Some("f".to_string()),
        puzzle_id: 4,
        ctime_at: 5,
    };
    let data = |cost_id: Option<Option<i32>>| RbHintUpdateData {
        sort: None,
        title: None,
        title_hidden: None,
        content: None,
        content_type: None,
        cooldown: None,
        enable_cond: Some(None),
        cooldown_after_enable: None,
        cost_id,
        cost_amount: Some(20),
        backend_function: None,
        puzzle_id: None,
    };
    let changed = admin_update_hint(hint(), data(None), true).unwrap();
    assert_eq!(changed.enable_cond, None);
    assert_eq!((changed.cost_id, changed.cost_amount), (Some(3), 20));
    assert_eq!(changed.backend_function.as_deref(), Some("f"));
    let free = admin_update_hint(hint(), data(Some(None)), true).unwrap();
    assert_eq!((free.cost_id, free.cost_amount), (None, 0));
}

#[test]
fn hints_are_read_while_the_puzzle_is_open() {
    let open = TeamPuzzleAccess { state: 0, release_at: 10 };
    assert!(can_team_access_puzzle(Some(open), false, 10));
    assert!(!can_team_access_puzzle(Some(open), true, 10));
    assert!(!can_team_access_puzzle(Some(open), false, 9));
    assert!(!can_team_access_puzzle(None, false, 10));
    let rows = || {
        [(1, true), (2, false), (3, true)]
            .into_iter()
            .map(|(id, unlocked)| TeamHintRow {
                hint: RbHintTeamStateShowData {
                    id,
                    title: "t".to_string(),
                    content: "c".to_string(),
                    content_type: RbContentType::Markdown,
                },
                unlocked,
            })
            .collect::<Vec<_>>()
    };
    let ids: Vec<i32> =
        get_hints_team_state(rows(), Some(open), 10).iter().map(|hint| hint.id).collect();
    assert_eq!(ids, vec![1, 3]);
    let locked = TeamPuzzleAccess { state: -1, release_at: 10 };
    assert!(get_hints_team_state(rows(), Some(locked), 10).is_empty());
}

#[test]
fn backends_solve_puzzles() {
    let input = BackendSubmissionInput {
        user_answer: " A b".to_string(),
        norm_answer: None,
        action: RbJudgeAction::Correct,
        result: None,
        real_answer: None,
        ignored: false,
    };
    assert_eq!(insert_backend_submission(&input), "ab");
    let input = BackendSubmissionInput { norm_answer: Some("X y".to_string()), ..input };
    assert_eq!(insert_backend_submission(&input), "X y");
    let effects = solve_backend_puzzle(true, RbJudgeAction::FinishGame);
    assert!(effects.contains(&BackendSolveEffect::FinishTeam));
    assert!(effects.contains(&BackendSolveEffect::UnlockPuzzles));
    assert!(!solve_backend_puzzle(false, RbJudgeAction::Correct)
        .contains(&BackendSolveEffect::LogSolved));
    let submission = BackendSubmissionShowData {
        id: 9,
        team_id: 1,
        user_id: 2,
        puzzle_id: 3,
        user_answer: "a".to_string(),
        norm_answer: "a".to_string(),
        saction: RbJudgeAction::Correct,
        sresult: None,
        real_answer: None,
        ignored: false,
        ctime_at: 0,
    };
    assert_eq!(solve_backend_puzzle_with_submission(1, 2, 3, &submission).unwrap(), 9);
    assert!(solve_backend_puzzle_with_submission(1, 2, 4, &submission).is_err());
}

#[test]
fn progress_is_made_once() {
    let open = PuzzleProgress { state: 0, solve_at: None };
    let (solved, changed) = mark_solved(open, 7);
    assert!(changed);
    assert_eq!(solved, PuzzleProgress { state: 1, solve_at: Some(7) });
    assert_eq!(mark_solved(solved, 9), (solved, false));
    let closed = PuzzleProgress { state: -1, solve_at: None };
    assert_eq!(mark_solved(closed, 9), (closed, false));
    let team = TeamProgress { is_locked: false, finish_at: None };
    assert_eq!(finish_team(team, 5), team);
    let (started, changed) = lock_team(team);
    assert!(started.is_locked && changed);
    assert!(!lock_team(started).1);
    let finished = finish_team(started, 5);
    assert_eq!(finished.finish_at, Some(5));
    assert_eq!(finish_team(finished, 8), finished);
}

fn stored_status() -> StaffStatusRow {
    StaffStatusRow {
        state: 0,
        opened_at: 10,
        release_at: 20,
        solve_at: None,
        cooldown_till: Some(90),
        max_submit: Some(3),
        allowance: 1,
        submit_count: 1,
        is_banned: false,
    }
}

fn staff_hint(id: i32, has_condition: bool, purchased_at: Option<i64>) -> StaffHintRow {
    StaffHintRow {
        hint: HintRow {
            id,
            title: "t".to_string(),
            title_hidden: false,
            cooldown: 1,
            cooldown_after_enable: false,
            has_condition,
            cost_id: None,
            cost_amount: 0,
            enabled_at: None,
            purchased_at,
            state: 0,
            opened_at: 10,
            release_at: 20,
        },
        cost_name: None,
        cost_prec: None,
        recorded_at: purchased_at,
    }
}

#[test]
fn staff_see_how_a_team_stands() {
    let rules = Some(vec![rule("all", None, "correct")]);
    let asked = Some(vec![PuzzleSubmitRequirement::CurrencyMinimum { currency_id: 1, minimum: 5 }]);
    let hints = || vec![staff_hint(1, true, None), staff_hint(2, true, Some(30)), staff_hint(3, false, None)];
    let status =
        get_staff_puzzle_team_status(Some(stored_status()), &rules, &asked, &vec![Some(5)], hints(), 100)
            .unwrap()
            .unwrap();
    assert!(status.can_submit && !status.cooldown_active);
    assert_eq!((status.unlock_at, status.max_submit, status.remaining_submit), (20, Some(4), Some(3)));
    assert!(!status.hints[0].enabled && status.hints[1].enabled && status.hints[2].enabled);
    assert_eq!(status.hints[0].available_at, None);
    assert_eq!(status.hints[1].unlocked_at, Some(30));
    assert_eq!(status.hints[2].available_at, Some(1_000_020));
    let waiting =
        get_staff_puzzle_team_status(Some(stored_status()), &rules, &asked, &vec![Some(5)], vec![], 50)
            .unwrap()
            .unwrap();
    assert!(waiting.cooldown_active && !waiting.can_submit);
    let poor =
        get_staff_puzzle_team_status(Some(stored_status()), &rules, &asked, &vec![Some(4)], vec![], 100)
            .unwrap()
            .unwrap();
    assert!(!poor.submit_requirements_met && !poor.can_submit);
    let spent = StaffStatusRow { submit_count: 9, ..stored_status() };
    let spent = get_staff_puzzle_team_status(Some(spent), &rules, &None, &vec![], vec![], 100)
        .unwrap()
        .unwrap();
    assert_eq!((spent.remaining_submit, spent.can_submit), (Some(0), false));
    assert!(get_staff_puzzle_team_status(None, &rules, &asked, &vec![None], vec![], 1).unwrap().is_none());
    let far = StaffStatusRow { max_submit: Some(i32::MAX), ..stored_status() };
    assert!(get_staff_puzzle_team_status(Some(far), &rules, &None, &vec![], vec![], 1).is_err());
}

#[test]
fn actions_are_read_from_words_and_numbers() {
    assert_eq!(judge_action_of(Some(RawAction::Number(1))), Some(RbJudgeAction::from(1)));
    assert_eq!(
        judge_action_of(Some(RawAction::Text("correct".to_string()))),
        Some(RbJudgeAction::Correct)
    );
    assert_eq!(judge_action_of(Some(RawAction::Null)), None);
    assert_eq!(judge_action_of(None), None);
}

#[test]
fn events_tell_what_has_happened() {
    let event = puzzle_unlocked(1, 2, 3, 4, "P");
    assert_eq!(event.event_type, "puzzle.unlocked");
    assert_eq!((event.team_id, event.puzzle_id), (Some(2), Some(3)));
    assert!(told_currency(&None).is_null());
    let charged = CurrencyEventData {
        id: 1,
        slug: "c".to_string(),
        name: "C".to_string(),
        prec: 0,
        before: 9,
        after: 4,
    };
    assert!(matches!(told_currency(&Some(charged)), Json::Object(fields) if fields.len() == 7));
}

#[test]
fn immediate_releases_name_the_puzzles_of_their_game() {
    let place = |puzzle_id, game_id| PuzzlePlace { puzzle_id, game_id };
    let team = |team_id, puzzle, state| TeamPlace { team_id, puzzle, state };
    let puzzles = vec![place(1, 7), place(2, 8), place(3, 7)];
    let teams = vec![
        team(40, place(1, 7), 0),
        team(41, place(1, 7), -1),
        team(40, place(2, 8), 1),
        team(42, place(3, 7), 1),
    ];
    let noted = create_immediate_release_event(7, &vec![1, 2], 99, &puzzles, &teams);
    assert_eq!((noted.game_id, noted.occurred_at), (7, 99));
    assert_eq!(noted.puzzle_ids, [1]);
    assert_eq!(noted.team_ids, [(1, 40)]);
}

#[test]
fn puzzles_open_once() {
    let row = |puzzle_id, state| StoredPuzzle { puzzle_id, state };
    let before = vec![row(1, 1), row(2, -1)];
    let first = open_puzzles(&vec![3, 1, 2, 4, 3], before.clone());
    assert_eq!(first.opened, [3, 4]);
    assert_eq!(first.stored, [row(1, 1), row(2, -1), row(3, 0), row(4, 0)]);
    let again = open_puzzles(&vec![3, 1, 2, 4, 3], first.stored.clone());
    assert!(again.opened.is_empty());
    assert_eq!(again.stored, first.stored);
    assert!(open_puzzles(&vec![], before.clone()).opened.is_empty());
}

#[test]
fn answers_are_compared_character_by_character() {
    let joined = |a: &str, b: &str| format!("{}{}", normalize_answer(a), normalize_answer(b));
    for (a, b) in [("Ab C", " dE"), ("", "X"), ("\u{391}", "\u{3a3}"), ("\u{130}", "I\u{307}")] {
        assert_eq!(normalize_answer(&format!("{a}{b}")), joined(a, b));
    }
    assert_eq!(normalize_answer("\u{391}\u{3a3}"), "\u{3b1}\u{3c3}");
    assert_eq!(normalize_answer(" \t\u{3000}\n"), "");
    for c in '\0'..=char::MAX {
        let once = normalize_answer(&c.to_string());
        assert_eq!(once.is_empty(), c.is_whitespace());
        assert!(!once.chars().any(char::is_whitespace));
        assert_eq!(normalize_answer(&once), once);
    }
}
