//! Buying a hint.
use vstd::prelude::*;

use crate::json;
use crate::clock::Timestamp;
use crate::db::event_log::{puzzle_value, CurrencyEventData, EventLogInput, EventRefs};
use crate::db::event_log;
use crate::error::{fault, RbInternalError};
use crate::json::{Fields, Json, J};
use crate::model::game::RbContentType;

verus! {

/// A hint, as it is offered to a team.
#[derive(Debug)]
pub struct RbHintShowData {
    pub id: i32,
    pub title: Option<String>,
    pub title_hidden: bool,
    pub cooldown: i32,
    pub available_at: Timestamp,
    pub cost_id: Option<i32>,
    pub cost_amount: i64,
}

/// A hint that a team has.
#[derive(Debug)]
pub struct RbHintTeamStateShowData {
    pub id: i32,
    pub title: String,
    pub content: String,
    pub content_type: RbContentType,
}

/// The hints of a puzzle for a team.
#[derive(Debug)]
pub struct RbPuzzleHintTeamData {
    pub data: Vec<RbHintShowData>,
    pub state: Vec<RbHintTeamStateShowData>,
}

/// Why a hint is not sold.
#[derive(Debug, Clone, Copy, PartialEq, Eq, Structural)]
pub enum HintRefusal {
    Insufficient,
    Unavailable,
}

/// What buying a hint takes.
#[derive(Debug, Clone, Copy, PartialEq, Eq, Structural)]
pub struct HintTerms {
    /// Whether it costs a currency.
    pub costs: bool,
    /// Whether a function of the puzzle's backend is called.
    pub calls_backend: bool,
}

/// What is needed next to sell a hint, or how that ended.
#[derive(Debug, Clone, Copy, PartialEq, Eq, Structural)]
pub enum HintPurchase {
    /// The user's team and the hint's puzzle.
    Target,
    /// The hint, where the team may buy it now.
    Offer,
    /// Whether the team could pay.
    Precheck(HintTerms),
    /// To call the backend.
    Backend(HintTerms),
    /// To charge the team.
    Charge,
    /// To hand out the hint.
    Unlock,
    Refused(HintRefusal),
}

/// What was found out, or done.
#[derive(Debug, Clone, Copy, PartialEq, Eq, Structural)]
pub enum HintFact {
    Target(bool),
    Offer(Option<HintTerms>),
    Affordable(bool),
    BackendCalled,
    Charged(bool),
}

pub open spec fn before_charge(terms: HintTerms) -> HintPurchase {
    if terms.costs {
        HintPurchase::Charge
    } else {
        HintPurchase::Unlock
    }
}

pub open spec fn before_backend(terms: HintTerms) -> HintPurchase {
    if terms.calls_backend {
        HintPurchase::Backend(terms)
    } else {
        before_charge(terms)
    }
}

pub open spec fn before_precheck(terms: HintTerms) -> HintPurchase {
    if terms.costs {
        HintPurchase::Precheck(terms)
    } else {
        before_backend(terms)
    }
}

/// What is needed next, once a fact is known. A fact that was not asked for changes nothing.
pub open spec fn purchase_after(stage: HintPurchase, fact: HintFact) -> HintPurchase {
    match (stage, fact) {
        (HintPurchase::Target, HintFact::Target(found)) => if found {
            HintPurchase::Offer
        } else {
            HintPurchase::Refused(HintRefusal::Unavailable)
        },
        (HintPurchase::Offer, HintFact::Offer(terms)) => match terms {
            Some(terms) => before_precheck(terms),
            None => HintPurchase::Refused(HintRefusal::Unavailable),
        },
        (HintPurchase::Precheck(terms), HintFact::Affordable(ok)) => if ok {
            before_backend(terms)
        } else {
            HintPurchase::Refused(HintRefusal::Insufficient)
        },
        (HintPurchase::Backend(terms), HintFact::BackendCalled) => before_charge(terms),
        (HintPurchase::Charge, HintFact::Charged(ok)) => if ok {
            HintPurchase::Unlock
        } else {
            HintPurchase::Refused(HintRefusal::Insufficient)
        },
        _ => stage,
    }
}

/// Goes on with the sale of a hint.
pub fn purchase_hint(stage: HintPurchase, fact: HintFact) -> (r: HintPurchase)
    ensures
        r == purchase_after(stage, fact),
{
    match (stage, fact) {
        (HintPurchase::Target, HintFact::Target(found)) => {
            if found {
                HintPurchase::Offer
            } else {
                HintPurchase::Refused(HintRefusal::Unavailable)
            }
        },
        (HintPurchase::Offer, HintFact::Offer(terms)) => match terms {
            Some(terms) => {
                if terms.costs {
                    HintPurchase::Precheck(terms)
                } else if terms.calls_backend {
                    HintPurchase::Backend(terms)
                } else {
                    HintPurchase::Unlock
                }
            },
            None => HintPurchase::Refused(HintRefusal::Unavailable),
        },
        (HintPurchase::Precheck(terms), HintFact::Affordable(ok)) => {
            if !ok {
                HintPurchase::Refused(HintRefusal::Insufficient)
            } else if terms.calls_backend {
                HintPurchase::Backend(terms)
            } else if terms.costs {
                HintPurchase::Charge
            } else {
                HintPurchase::Unlock
            }
        },
        (HintPurchase::Backend(terms), HintFact::BackendCalled) => {
            if terms.costs {
                HintPurchase::Charge
            } else {
                HintPurchase::Unlock
            }
        },
        (HintPurchase::Charge, HintFact::Charged(ok)) => {
            if ok {
                HintPurchase::Unlock
            } else {
                HintPurchase::Refused(HintRefusal::Insufficient)
            }
        },
        _ => stage,
    }
}

/// Everything that decides whether a hint is sold.
pub struct HintCircumstances {
    pub target: bool,
    pub offer: Option<HintTerms>,
    pub affordable: bool,
    pub charged: bool,
}

/// The fact that is asked for at a stage.
pub open spec fn hint_fact_at(stage: HintPurchase, c: HintCircumstances) -> HintFact {
    match stage {
        HintPurchase::Target => HintFact::Target(c.target),
        HintPurchase::Offer => HintFact::Offer(c.offer),
        HintPurchase::Precheck(_) => HintFact::Affordable(c.affordable),
        HintPurchase::Backend(_) => HintFact::BackendCalled,
        _ => HintFact::Charged(c.charged),
    }
}

/// Where a sale stands after a number of facts were asked for and handed in.
pub open spec fn purchase_run(stage: HintPurchase, c: HintCircumstances, steps: nat) -> HintPurchase
    decreases steps,
{
    if steps == 0 {
        stage
    } else {
        purchase_run(purchase_after(stage, hint_fact_at(stage, c)), c, (steps - 1) as nat)
    }
}

/// How a sale ends.
pub open spec fn purchase_of(c: HintCircumstances) -> HintPurchase {
    if !c.target || c.offer is None {
        HintPurchase::Refused(HintRefusal::Unavailable)
    } else if c.offer->0.costs && !(c.affordable && c.charged) {
        HintPurchase::Refused(HintRefusal::Insufficient)
    } else {
        HintPurchase::Unlock
    }
}

/// A hint that costs a currency is handed out only to a team that has been charged for it, and a
/// hint that is on offer and can be paid for is handed out.
pub proof fn hints_are_paid_for(c: HintCircumstances)
    ensures
        purchase_run(HintPurchase::Target, c, 5) == purchase_of(c),
{
    reveal_with_fuel(purchase_run, 6);
}

/// Checks that the function that a hint calls may be called.
pub fn check_hint_backend(found: bool, enabled: bool, exported: bool) -> (r: Result<
    (),
    RbInternalError,
>)
    ensures
        match r {
            Ok(_) => found && enabled && exported,
            Err(e) => if !found {
                e.text() == "hint backend function not found"@
            } else {
                !(enabled && exported) && e.text() == "hint backend function not callable"@
            },
        },
{
    if !found {
        return Err(fault("hint backend function not found"));
    }
    if !enabled || !exported {
        return Err(fault("hint backend function not callable"));
    }
    Ok(())
}

/// The change of a balance, as a backend is told of it.
pub open spec fn told_currency_json(c: CurrencyEventData) -> J {
    json::object_of(
        seq![
            ("id"@, json::int_json(c.id as int)),
            ("slug"@, J::Text(c.slug@)),
            ("name"@, J::Text(c.name@)),
            ("precision"@, json::int_json(c.prec as int)),
            ("before"@, json::int_json(c.before as int)),
            ("after"@, json::int_json(c.after as int)),
            ("delta"@, json::int_json(c.after - c.before)),
        ],
    )
}

/// The change of a balance, as a backend is told of it: null where nothing is charged.
pub fn told_currency(currency: &Option<CurrencyEventData>) -> (r: Json)
    requires
        currency matches Some(c) ==> c.wf(),
    ensures
        r@ == (match *currency {
            Some(c) => told_currency_json(c),
            None => J::Null,
        }),
{
    match currency {
        None => Json::Null,
        Some(c) => {
            let fields = Fields::new().put("id", Json::integer(c.id as i64)).put(
                "slug",
                Json::text(c.slug.as_str()),
            ).put("name", Json::text(c.name.as_str())).put(
                "precision",
                Json::integer(c.prec as i64),
            ).put("before", Json::integer(c.before)).put("after", Json::integer(c.after)).put(
                "delta",
                Json::integer(c.delta()),
            );
            assert(fields.pairs() =~= seq![
                ("id"@, json::int_json(c.id as int)),
                ("slug"@, J::Text(c.slug@)),
                ("name"@, J::Text(c.name@)),
                ("precision"@, json::int_json(c.prec as int)),
                ("before"@, json::int_json(c.before as int)),
                ("after"@, json::int_json(c.after as int)),
                ("delta"@, json::int_json(c.after - c.before)),
            ]);
            fields.object()
        },
    }
}

/// A hint that has been sold.
#[derive(Debug)]
pub struct SoldHint {
    pub game_id: i32,
    pub team_id: i32,
    pub user_id: i32,
    pub puzzle_id: i32,
    pub round_id: i32,
    pub puzzle_title: String,
    pub hint_id: i32,
    pub hint_title: String,
    pub cost_id: Option<i32>,
    pub cost_amount: i64,
}

pub open spec fn charged_id(currency: Option<CurrencyEventData>) -> Option<i32> {
    match currency {
        Some(c) => Some(c.id),
        None => None,
    }
}

pub open spec fn charged_delta(currency: Option<CurrencyEventData>) -> Option<i64> {
    match currency {
        Some(c) => Some((c.after - c.before) as i64),
        None => None,
    }
}

pub open spec fn charged_json(currency: Option<CurrencyEventData>) -> (J, J, J, J) {
    match currency {
        Some(c) => (
            event_log::currency_json(c),
            json::int_json(c.after - c.before),
            json::int_json(c.before as int),
            json::int_json(c.after as int),
        ),
        None => (J::Null, J::Null, J::Null, J::Null),
    }
}

/// How a sold hint is written in its event.
pub open spec fn sold_json(sold: SoldHint) -> J {
    json::object_of(
        seq![
            ("id"@, json::int_json(sold.hint_id as int)),
            ("title"@, J::Text(sold.hint_title@)),
            ("cost_id"@, json::opt_id_json(sold.cost_id)),
            ("cost_amount"@, json::int_json(sold.cost_amount as int)),
        ],
    )
}

/// The event of a hint that has been sold.
pub fn hint_purchased(sold: &SoldHint, currency: &Option<CurrencyEventData>) -> (r: EventLogInput)
    requires
        currency matches Some(c) ==> c.wf(),
    ensures
        r.is_team_event(
            "hint.purchased"@,
            (EventRefs {
                game_id: Some(sold.game_id),
                team_id: Some(sold.team_id),
                user_id: Some(sold.user_id),
                puzzle_id: Some(sold.puzzle_id),
                round_id: Some(sold.round_id),
                hint_id: Some(sold.hint_id),
                currency_id: charged_id(*currency),
                delta_amount: charged_delta(*currency),
                ..event_log::no_refs()
            }),
            json::object_of(
                seq![
                    ("hint"@, sold_json(*sold)),
                    ("puzzle"@, event_log::puzzle_json(sold.puzzle_id as int, sold.puzzle_title@)),
                    ("currency"@, charged_json(*currency).0),
                    ("delta"@, charged_json(*currency).1),
                    ("before"@, charged_json(*currency).2),
                    ("after"@, charged_json(*currency).3),
                ],
            ),
        ),
{
    let hint = Fields::new().put("id", Json::integer(sold.hint_id as i64)).put(
        "title",
        Json::text(sold.hint_title.as_str()),
    ).put("cost_id", Json::opt_id(sold.cost_id)).put(
        "cost_amount",
        Json::integer(sold.cost_amount),
    );
    assert(hint.pairs() =~= seq![
        ("id"@, json::int_json(sold.hint_id as int)),
        ("title"@, J::Text(sold.hint_title@)),
        ("cost_id"@, json::opt_id_json(sold.cost_id)),
        ("cost_amount"@, json::int_json(sold.cost_amount as int)),
    ]);
    let (shown, delta, before, after) = match currency {
        Some(c) => (
            c.currency_value(),
            Json::integer(c.delta()),
            Json::integer(c.before),
            Json::integer(c.after),
        ),
        None => (Json::Null, Json::Null, Json::Null, Json::Null),
    };
    let fields = Fields::new().put("hint", hint.object()).put(
        "puzzle",
        puzzle_value(sold.puzzle_id, sold.puzzle_title.as_str()),
    ).put("currency", shown).put("delta", delta).put("before", before).put("after", after);
    assert(fields.pairs() =~= seq![
        ("hint"@, sold_json(*sold)),
        ("puzzle"@, event_log::puzzle_json(sold.puzzle_id as int, sold.puzzle_title@)),
        ("currency"@, charged_json(*currency).0),
        ("delta"@, charged_json(*currency).1),
        ("before"@, charged_json(*currency).2),
        ("after"@, charged_json(*currency).3),
    ]);
    let mut event = EventLogInput::team_activity("hint.purchased", fields.object());
    event.game_id = Some(sold.game_id);
    event.team_id = Some(sold.team_id);
    event.user_id = Some(sold.user_id);
    event.puzzle_id = Some(sold.puzzle_id);
    event.round_id = Some(sold.round_id);
    event.hint_id = Some(sold.hint_id);
    if let Some(c) = currency {
        event.currency_id = Some(c.id);
        event.delta_amount = Some(c.delta());
    }
    event
}

/// A hint is unlocked exactly where the team may have it, it is offered, and its price, if it has one,
/// can be paid and is paid. It is unavailable exactly where the team may not have it or it is not
/// offered, and otherwise the team has too little.
pub proof fn hints_unlock_where_they_are_paid(c: HintCircumstances)
    ensures
        ({
            let end = purchase_run(HintPurchase::Target, c, 5);
            &&& end == HintPurchase::Unlock <==> c.target && c.offer is Some && (c.offer->0.costs
                ==> c.affordable && c.charged)
            &&& end == HintPurchase::Refused(HintRefusal::Unavailable) <==> !c.target || c.offer
                is None
            &&& end == HintPurchase::Refused(HintRefusal::Insufficient) <==> c.target && c.offer
                is Some && c.offer->0.costs && !(c.affordable && c.charged)
        }),
{
    hints_are_paid_for(c);
}

/// A puzzle's own program is asked before a hint is charged for and after it is known that the team
/// can pay, and only where the puzzle has one; a hint without a price is never charged for.
pub proof fn programs_are_asked_before_payment(terms: HintTerms)
    ensures
        ({
            let offered = purchase_after(HintPurchase::Offer, HintFact::Offer(Some(terms)));
            let able = purchase_after(HintPurchase::Precheck(terms), HintFact::Affordable(true));
            let asked = purchase_after(HintPurchase::Backend(terms), HintFact::BackendCalled);
            &&& terms.costs ==> offered == HintPurchase::Precheck(terms)
            &&& !terms.costs && terms.calls_backend ==> offered == HintPurchase::Backend(terms)
            &&& !terms.costs && !terms.calls_backend ==> offered == HintPurchase::Unlock
            &&& terms.calls_backend ==> able == HintPurchase::Backend(terms)
            &&& terms.costs && !terms.calls_backend ==> able == HintPurchase::Charge
            &&& terms.costs ==> asked == HintPurchase::Charge
            &&& !terms.costs ==> asked == HintPurchase::Unlock
        }),
        purchase_after(HintPurchase::Precheck(terms), HintFact::Affordable(false))
            == HintPurchase::Refused(HintRefusal::Insufficient),
        purchase_after(HintPurchase::Charge, HintFact::Charged(false)) == HintPurchase::Refused(
            HintRefusal::Insufficient,
        ),
        purchase_after(HintPurchase::Charge, HintFact::Charged(true)) == HintPurchase::Unlock,
        purchase_after(HintPurchase::Target, HintFact::Target(true)) == HintPurchase::Offer,
{
}

/// What was charged is told by its currency and by how much the balance changed; nothing is told of a
/// hint that was free.
pub proof fn charges_are_told(currency: CurrencyEventData)
    requires
        currency.wf(),
    ensures
        charged_id(Some(currency)) == Some(currency.id),
        charged_delta(Some(currency)) is Some,
        charged_delta(Some(currency))->0 == currency.after - currency.before,
        charged_id(None) is None,
        charged_delta(None) is None,
        charged_json(None).0 is Null && charged_json(None).1 is Null && charged_json(None).2 is Null
            && charged_json(None).3 is Null,
        charged_json(Some(currency)).1 == J::Number(
            json::JNumber::Int(currency.after - currency.before),
        ),
        charged_json(Some(currency)).2 == J::Number(json::JNumber::Int(currency.before as int)),
        charged_json(Some(currency)).3 == J::Number(json::JNumber::Int(currency.after as int)),
{
}

/// What a hint cost is told by its currency and by the balance before and after.
pub proof fn prices_are_told(c: CurrencyEventData)
    ensures
        told_currency_json(c) is Object,
        told_currency_json(c)->Object_0.dom().contains("id"@),
        told_currency_json(c)->Object_0["id"@] == json::int_json(c.id as int),
        told_currency_json(c)->Object_0.dom().contains("slug"@),
        told_currency_json(c)->Object_0["slug"@] == J::Text(c.slug@),
        told_currency_json(c)->Object_0.dom().contains("name"@),
        told_currency_json(c)->Object_0["name"@] == J::Text(c.name@),
        told_currency_json(c)->Object_0.dom().contains("precision"@),
        told_currency_json(c)->Object_0["precision"@] == json::int_json(c.prec as int),
        told_currency_json(c)->Object_0.dom().contains("before"@),
        told_currency_json(c)->Object_0["before"@] == json::int_json(c.before as int),
        told_currency_json(c)->Object_0.dom().contains("after"@),
        told_currency_json(c)->Object_0["after"@] == json::int_json(c.after as int),
        told_currency_json(c)->Object_0.dom().contains("delta"@),
        told_currency_json(c)->Object_0["delta"@] == json::int_json(c.after - c.before),
{
    reveal_strlit("id");
    reveal_strlit("slug");
    reveal_strlit("name");
    reveal_strlit("precision");
    reveal_strlit("before");
    reveal_strlit("after");
    reveal_strlit("delta");
    assert("id"@.len() == 2 && "slug"@.len() == 4 && "name"@.len() == 4 && "precision"@.len() == 9 && "before"@.len() == 6 && "after"@.len() == 5 && "delta"@.len() == 5);
    assert("name"@[0] == 'n' && "slug"@[0] == 's');
    assert("delta"@[0] == 'd' && "after"@[0] == 'a');
    let pairs = seq![
        ("id"@, json::int_json(c.id as int)),
        ("slug"@, J::Text(c.slug@)),
        ("name"@, J::Text(c.name@)),
        ("precision"@, json::int_json(c.prec as int)),
        ("before"@, json::int_json(c.before as int)),
        ("after"@, json::int_json(c.after as int)),
        ("delta"@, json::int_json(c.after - c.before)),
    ];
    json::keys_hold_their_values(pairs, 0);
    json::keys_hold_their_values(pairs, 1);
    json::keys_hold_their_values(pairs, 2);
    json::keys_hold_their_values(pairs, 3);
    json::keys_hold_their_values(pairs, 4);
    json::keys_hold_their_values(pairs, 5);
    json::keys_hold_their_values(pairs, 6);
}

/// A hint that was sold is shown by its number, its title and its price.
pub proof fn sold_hints_are_shown(sold: SoldHint)
    ensures
        sold_json(sold) is Object,
        sold_json(sold)->Object_0.dom().contains("id"@),
        sold_json(sold)->Object_0["id"@] == json::int_json(sold.hint_id as int),
        sold_json(sold)->Object_0.dom().contains("title"@),
        sold_json(sold)->Object_0["title"@] == J::Text(sold.hint_title@),
        sold_json(sold)->Object_0.dom().contains("cost_id"@),
        sold_json(sold)->Object_0["cost_id"@] == json::opt_id_json(sold.cost_id),
        sold_json(sold)->Object_0.dom().contains("cost_amount"@),
        sold_json(sold)->Object_0["cost_amount"@] == json::int_json(sold.cost_amount as int),
{
    reveal_strlit("id");
    reveal_strlit("title");
    reveal_strlit("cost_id");
    reveal_strlit("cost_amount");
    assert("id"@.len() == 2 && "title"@.len() == 5 && "cost_id"@.len() == 7 && "cost_amount"@.len() == 11);
    let pairs = seq![
        ("id"@, json::int_json(sold.hint_id as int)),
        ("title"@, J::Text(sold.hint_title@)),
        ("cost_id"@, json::opt_id_json(sold.cost_id)),
        ("cost_amount"@, json::int_json(sold.cost_amount as int)),
    ];
    json::keys_hold_their_values(pairs, 0);
    json::keys_hold_their_values(pairs, 1);
    json::keys_hold_their_values(pairs, 2);
    json::keys_hold_their_values(pairs, 3);
}

} // verus!
