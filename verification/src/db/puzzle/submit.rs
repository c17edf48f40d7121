//! Answering a puzzle.
use vstd::prelude::*;

use crate::json;
use crate::clock::Timestamp;
use crate::db::event_log::{
    id_value, puzzle_value, CurrencyEventData, EventLogInput, EventRefs, EventScope, EventSeverity,
};
use crate::db::event_log;
use crate::error::{fault, RbInternalError};
use crate::expr::compiler;
use crate::expr::compiler::valid_trigger_key;
use crate::game::judge::{normalize_answer, JudgeResult, JudgeRule};
use crate::game::judge;
use crate::json::{Fields, Json, J};
use crate::model::game::{RbJudgeAction, RbPuzzlePenaltyType};
use crate::num;
use crate::num::saturating_mul;
use crate::text::same;

verus! {

/// What a team must have to answer a puzzle.
#[derive(Debug, Clone, Copy, PartialEq, Eq, Structural)]
pub enum PuzzleSubmitRequirement {
    CurrencyMinimum { currency_id: i32, minimum: i64 },
}

impl PuzzleSubmitRequirement {
    pub open spec fn currency(self) -> i32 {
        match self {
            PuzzleSubmitRequirement::CurrencyMinimum { currency_id, .. } => currency_id,
        }
    }

    /// Whether a balance, if the team has one, meets the requirement.
    pub open spec fn met_by(self, balance: Option<i64>) -> bool {
        match self {
            PuzzleSubmitRequirement::CurrencyMinimum { minimum, .. } => balance matches Some(a) && a
                >= minimum,
        }
    }

    /// The currency that is asked for.
    pub fn currency_id(&self) -> (r: i32)
        ensures
            r == self.currency(),
    {
        match self {
            PuzzleSubmitRequirement::CurrencyMinimum { currency_id, .. } => *currency_id,
        }
    }

    /// Whether a balance, if the team has one, meets the requirement.
    pub fn is_met(&self, balance: Option<i64>) -> (r: bool)
        ensures
            r == self.met_by(balance),
    {
        match self {
            PuzzleSubmitRequirement::CurrencyMinimum { minimum, .. } => match balance {
                Some(amount) => amount >= *minimum,
                None => false,
            },
        }
    }
}

/// Why an answer is not taken.
#[derive(Debug, Clone, Copy, PartialEq, Eq, Structural)]
pub enum Refusal {
    Invalid,
    NotFound,
    Locked,
    Duplicate,
}

/// What is needed next to admit an answer, or how that ended.
#[derive(Debug, Clone, Copy, PartialEq, Eq, Structural)]
pub enum Admission {
    /// Whether the team may see the puzzle.
    Access,
    /// Whether the team may answer at this time.
    Allowance,
    /// The puzzle's rules and requirements.
    Puzzle,
    /// The team's balance for a requirement.
    Balance(usize),
    /// To store the answer, unless the team has given it before.
    Insert,
    Admitted,
    Refused(Refusal),
}

/// What was found out.
#[derive(Debug, Clone, Copy, PartialEq, Eq, Structural)]
pub enum AdmissionFact {
    Access(Option<bool>),
    Allowance(Option<bool>),
    /// How many rules there are, and whether the requirements could be read.
    Puzzle { rules: usize, readable: bool },
    Balance(Option<i64>),
    Inserted(bool),
}

/// What is needed after the requirements before a given one are met.
pub open spec fn after_requirements(n: int, requirements: Seq<PuzzleSubmitRequirement>) -> Admission {
    if n < requirements.len() {
        Admission::Balance(n as usize)
    } else {
        Admission::Insert
    }
}

pub open spec fn refused_unless(ok: bool, next: Admission) -> Admission {
    if ok {
        next
    } else {
        Admission::Refused(Refusal::Locked)
    }
}

/// What is needed next, once a fact is known. A fact that was not asked for changes nothing.
pub open spec fn admission_after(
    stage: Admission,
    fact: AdmissionFact,
    requirements: Seq<PuzzleSubmitRequirement>,
) -> Admission {
    match (stage, fact) {
        (Admission::Access, AdmissionFact::Access(access)) => match access {
            None => Admission::Refused(Refusal::NotFound),
            Some(ok) => refused_unless(ok, Admission::Allowance),
        },
        (Admission::Allowance, AdmissionFact::Allowance(allowed)) => refused_unless(
            allowed == Some(true),
            Admission::Puzzle,
        ),
        (Admission::Puzzle, AdmissionFact::Puzzle { rules, readable }) => refused_unless(
            rules > 0 && readable,
            after_requirements(0, requirements),
        ),
        (Admission::Balance(n), AdmissionFact::Balance(balance)) => if n < requirements.len() {
            refused_unless(
                requirements[n as int].met_by(balance),
                after_requirements(n + 1, requirements),
            )
        } else {
            stage
        },
        (Admission::Insert, AdmissionFact::Inserted(inserted)) => if inserted {
            Admission::Admitted
        } else {
            Admission::Refused(Refusal::Duplicate)
        },
        _ => stage,
    }
}

/// Starts to admit an answer: an answer that is empty once it is normalized is refused at once.
pub fn begin_submission(answer: &str) -> (r: (String, Admission))
    ensures
        r.0@ == judge::normalized(answer@),
        r.1 == (if judge::normalized(answer@).len() == 0 {
            Admission::Refused(Refusal::Invalid)
        } else {
            Admission::Access
        }),
{
    let norm_answer = normalize_answer(answer);
    if norm_answer.as_str().is_empty() {
        (norm_answer, Admission::Refused(Refusal::Invalid))
    } else {
        (norm_answer, Admission::Access)
    }
}

/// Goes on with the admission of an answer.
pub fn advance(
    stage: Admission,
    fact: AdmissionFact,
    requirements: &Vec<PuzzleSubmitRequirement>,
) -> (r: Admission)
    ensures
        r == admission_after(stage, fact, requirements@),
{
    match (stage, fact) {
        (Admission::Access, AdmissionFact::Access(access)) => match access {
            None => Admission::Refused(Refusal::NotFound),
            Some(ok) => {
                if ok {
                    Admission::Allowance
                } else {
                    Admission::Refused(Refusal::Locked)
                }
            },
        },
        (Admission::Allowance, AdmissionFact::Allowance(allowed)) => match allowed {
            Some(true) => Admission::Puzzle,
            _ => Admission::Refused(Refusal::Locked),
        },
        (Admission::Puzzle, AdmissionFact::Puzzle { rules, readable }) => {
            if rules == 0 || !readable {
                Admission::Refused(Refusal::Locked)
            } else if requirements.len() > 0 {
                Admission::Balance(0)
            } else {
                Admission::Insert
            }
        },
        (Admission::Balance(n), AdmissionFact::Balance(balance)) => {
            if n >= requirements.len() {
                stage
            } else if !requirements[n].is_met(balance) {
                Admission::Refused(Refusal::Locked)
            } else if n + 1 < requirements.len() {
                Admission::Balance(n + 1)
            } else {
                Admission::Insert
            }
        },
        (Admission::Insert, AdmissionFact::Inserted(inserted)) => {
            if inserted {
                Admission::Admitted
            } else {
                Admission::Refused(Refusal::Duplicate)
            }
        },
        _ => stage,
    }
}

/// Everything that decides whether an answer is admitted.
pub struct Circumstances {
    pub access: Option<bool>,
    pub allowed: Option<bool>,
    pub rules: usize,
    pub readable: bool,
    pub requirements: Seq<PuzzleSubmitRequirement>,
    pub balances: Seq<Option<i64>>,
    pub inserted: bool,
}

pub open spec fn all_met(c: Circumstances) -> bool {
    forall|i: int|
        0 <= i < c.requirements.len() ==> (#[trigger] c.requirements[i]).met_by(c.balances[i])
}

/// How the admission of an answer ends.
pub open spec fn admission_of(c: Circumstances) -> Admission {
    if c.access is None {
        Admission::Refused(Refusal::NotFound)
    } else if c.access != Some(true) || c.allowed != Some(true) || c.rules == 0 || !c.readable
        || !all_met(c) {
        Admission::Refused(Refusal::Locked)
    } else if !c.inserted {
        Admission::Refused(Refusal::Duplicate)
    } else {
        Admission::Admitted
    }
}

/// The fact that is asked for at a stage.
pub open spec fn fact_at(stage: Admission, c: Circumstances) -> AdmissionFact {
    match stage {
        Admission::Access => AdmissionFact::Access(c.access),
        Admission::Allowance => AdmissionFact::Allowance(c.allowed),
        Admission::Puzzle => AdmissionFact::Puzzle { rules: c.rules, readable: c.readable },
        Admission::Balance(n) => AdmissionFact::Balance(c.balances[n as int]),
        _ => AdmissionFact::Inserted(c.inserted),
    }
}

/// Where admission stands after a number of facts were asked for and handed in.
pub open spec fn admission_run(stage: Admission, c: Circumstances, steps: nat) -> Admission
    decreases steps,
{
    if steps == 0 {
        stage
    } else {
        admission_run(
            admission_after(stage, fact_at(stage, c), c.requirements),
            c,
            (steps - 1) as nat,
        )
    }
}

proof fn lemma_settled(stage: Admission, c: Circumstances, steps: nat)
    requires
        stage is Admitted || stage is Refused,
    ensures
        admission_run(stage, c, steps) == stage,
    decreases steps,
{
    if steps > 0 {
        lemma_settled(stage, c, (steps - 1) as nat);
    }
}

proof fn lemma_balances_run(c: Circumstances, n: int)
    requires
        0 <= n <= c.requirements.len() <= usize::MAX,
        forall|i: int| 0 <= i < n ==> (#[trigger] c.requirements[i]).met_by(c.balances[i]),
    ensures
        admission_run(
            after_requirements(n, c.requirements),
            c,
            (c.requirements.len() - n + 1) as nat,
        ) == (if !all_met(c) {
            Admission::Refused(Refusal::Locked)
        } else if c.inserted {
            Admission::Admitted
        } else {
            Admission::Refused(Refusal::Duplicate)
        }),
    decreases c.requirements.len() - n,
{
    reveal_with_fuel(admission_run, 2);
    let left = (c.requirements.len() - n) as nat;
    if n < c.requirements.len() {
        let ok = c.requirements[n].met_by(c.balances[n]);
        if ok {
            lemma_balances_run(c, n + 1);
        } else {
            assert(!all_met(c));
            lemma_settled(Admission::Refused(Refusal::Locked), c, left);
        }
    }
}

/// Asking for one fact after another admits an answer exactly where the circumstances, taken
/// together, allow it, and otherwise gives the first reason against it.
pub proof fn admission_follows_the_circumstances(c: Circumstances)
    requires
        c.requirements.len() <= usize::MAX,
        c.balances.len() == c.requirements.len(),
    ensures
        admission_run(Admission::Access, c, (c.requirements.len() + 4) as nat) == admission_of(c),
{
    reveal_with_fuel(admission_run, 4);
    let n = c.requirements.len();
    if c.access == Some(true) {
        if c.allowed == Some(true) {
            if c.rules > 0 && c.readable {
                lemma_balances_run(c, 0);
            } else {
                lemma_settled(Admission::Refused(Refusal::Locked), c, (n + 1) as nat);
            }
        } else {
            lemma_settled(Admission::Refused(Refusal::Locked), c, (n + 2) as nat);
        }
    } else if c.access is Some {
        lemma_settled(Admission::Refused(Refusal::Locked), c, (n + 3) as nat);
    } else {
        lemma_settled(Admission::Refused(Refusal::NotFound), c, (n + 3) as nat);
    }
}

/// The function that a rule asks.
pub fn custom_function(rule: &JudgeRule) -> (r: Result<String, RbInternalError>)
    ensures
        match rule.function {
            Some(name) => r matches Ok(f) && f@ == name@,
            None => r matches Err(e) && e.text() == "custom judge function is missing"@,
        },
{
    match &rule.function {
        Some(name) => Ok(name.clone()),
        None => Err(fault("custom judge function is missing")),
    }
}

pub open spec fn triggers_named_well(result: JudgeResult) -> bool {
    forall|i: int| 0 <= i < result.triggers@.len() ==> compiler::is_trigger_key((#[trigger] result.triggers@[i])@)
}

/// Checks that a verdict names its triggers well.
pub fn check_triggers(result: &JudgeResult) -> (r: Result<(), RbInternalError>)
    ensures
        match r {
            Ok(_) => triggers_named_well(*result),
            Err(e) => !triggers_named_well(*result) && e.text()
                == "judge returned an invalid trigger key"@,
        },
{
    let mut i: usize = 0;
    while i < result.triggers.len()
        invariant
            i <= result.triggers@.len(),
            forall|k: int| 0 <= k < i ==> compiler::is_trigger_key((#[trigger] result.triggers@[k])@),
        decreases result.triggers@.len() - i,
    {
        if !valid_trigger_key(result.triggers[i].as_str()) {
            assert(!compiler::is_trigger_key(result.triggers@[i as int]@));
            return Err(fault("judge returned an invalid trigger key"));
        }
        i += 1;
    }
    Ok(())
}

/// Something that is done about an answer.
#[derive(Debug, Clone, Copy, PartialEq, Eq, Structural)]
pub enum SubmitEffect {
    RecordVerdict { action: RbJudgeAction, ignored: bool },
    StoreTriggers,
    MarkDirty,
    LogJudged { severity: EventSeverity },
    MarkSolved,
    FinishTeam,
    LogSolved,
    CloseTickets,
    ReadCurrencyStart,
    LockTeam,
    LogStarted,
    GrantCurrencies,
    ReadPenalty,
    Charge { currency_id: i32, amount: i64 },
    SetCooldown { seconds: i64 },
    LogConsequences,
    UpdateLeaderboard,
    UnlockPuzzles,
    RefreshHints,
    ReadState,
    ReadCurrency,
}

/// Whether a verdict is stored as one that does not count.
pub open spec fn is_discounted(result: JudgeResult) -> bool {
    result.ignored || result.action is Error
}

pub open spec fn effect_if(condition: bool, effect: SubmitEffect) -> Seq<SubmitEffect> {
    if condition {
        seq![effect]
    } else {
        Seq::empty()
    }
}

fn push_if(effects: &mut Vec<SubmitEffect>, condition: bool, effect: SubmitEffect)
    ensures
        final(effects)@ == old(effects)@ + effect_if(condition, effect),
{
    if condition {
        effects.push(effect);
    }
    assert(effects@ =~= old(effects)@ + effect_if(condition, effect));
}

/// How a judgement is stored: its triggers go with it, unless it does not count.
pub fn effects_of_verdict(result: &JudgeResult) -> (r: Vec<SubmitEffect>)
    ensures
        r@ == seq![
            SubmitEffect::RecordVerdict { action: result.action, ignored: is_discounted(*result) },
        ] + effect_if(
            !is_discounted(*result) && result.triggers@.len() > 0,
            SubmitEffect::StoreTriggers,
        ),
{
    let discounted = result.ignored || matches!(result.action, RbJudgeAction::Error);
    let mut effects: Vec<SubmitEffect> = Vec::new();
    effects.push(SubmitEffect::RecordVerdict { action: result.action, ignored: discounted });
    push_if(
        &mut effects,
        !discounted && result.triggers.len() > 0,
        SubmitEffect::StoreTriggers,
    );
    assert(effects@ =~= seq![
        SubmitEffect::RecordVerdict { action: result.action, ignored: is_discounted(*result) },
    ] + effect_if(
        !is_discounted(*result) && result.triggers@.len() > 0,
        SubmitEffect::StoreTriggers,
    ));
    effects
}

pub open spec fn solves(action: RbJudgeAction) -> bool {
    action is Correct || action is FinishGame
}

/// How an action sets to work.
pub open spec fn opening_of(action: RbJudgeAction) -> Seq<SubmitEffect> {
    match action {
        RbJudgeAction::Correct => seq![SubmitEffect::MarkSolved],
        RbJudgeAction::FinishGame => seq![SubmitEffect::MarkSolved, SubmitEffect::FinishTeam],
        RbJudgeAction::StartGame => seq![SubmitEffect::ReadCurrencyStart, SubmitEffect::LockTeam],
        RbJudgeAction::Fail => seq![SubmitEffect::ReadPenalty],
        _ => Seq::empty(),
    }
}

pub open spec fn judged_severity(action: RbJudgeAction) -> EventSeverity {
    if action is Error {
        EventSeverity::Warning
    } else {
        EventSeverity::Info
    }
}

/// What is done once it is known whether a trigger was new.
pub fn effects_of_action(action: RbJudgeAction, trigger_inserted: bool) -> (r: Vec<SubmitEffect>)
    ensures
        r@ == effect_if(trigger_inserted, SubmitEffect::MarkDirty) + seq![
            SubmitEffect::LogJudged { severity: judged_severity(action) },
        ] + opening_of(action),
{
    let mut effects: Vec<SubmitEffect> = Vec::new();
    push_if(&mut effects, trigger_inserted, SubmitEffect::MarkDirty);
    let severity = match action {
        RbJudgeAction::Error => EventSeverity::Warning,
        _ => EventSeverity::Info,
    };
    effects.push(SubmitEffect::LogJudged { severity });
    let ghost logged = effects@;
    match action {
        RbJudgeAction::Correct => {
            effects.push(SubmitEffect::MarkSolved);
        },
        RbJudgeAction::FinishGame => {
            effects.push(SubmitEffect::MarkSolved);
            effects.push(SubmitEffect::FinishTeam);
        },
        RbJudgeAction::StartGame => {
            effects.push(SubmitEffect::ReadCurrencyStart);
            effects.push(SubmitEffect::LockTeam);
        },
        RbJudgeAction::Fail => {
            effects.push(SubmitEffect::ReadPenalty);
        },
        _ => {},
    }
    assert(effects@ =~= logged + opening_of(action));
    assert(effects@ =~= effect_if(trigger_inserted, SubmitEffect::MarkDirty) + seq![
        SubmitEffect::LogJudged { severity: judged_severity(action) },
    ] + opening_of(action));
    effects
}

/// What follows from a change of the team's state.
pub open spec fn followup_of(action: RbJudgeAction, changed: bool) -> Seq<SubmitEffect> {
    if solves(action) {
        if changed {
            seq![SubmitEffect::MarkDirty, SubmitEffect::LogSolved, SubmitEffect::CloseTickets]
        } else {
            Seq::empty()
        }
    } else if action is StartGame {
        if changed {
            seq![SubmitEffect::MarkDirty, SubmitEffect::LogStarted, SubmitEffect::GrantCurrencies]
        } else {
            seq![SubmitEffect::GrantCurrencies]
        }
    } else {
        Seq::empty()
    }
}

/// What is done once it is known whether the puzzle was solved, or the team started, only now.
pub fn effects_of_change(action: RbJudgeAction, changed: bool) -> (r: Vec<SubmitEffect>)
    ensures
        r@ == followup_of(action, changed),
{
    let mut effects: Vec<SubmitEffect> = Vec::new();
    match action {
        RbJudgeAction::Correct | RbJudgeAction::FinishGame => {
            if changed {
                effects.push(SubmitEffect::MarkDirty);
                effects.push(SubmitEffect::LogSolved);
                effects.push(SubmitEffect::CloseTickets);
            }
        },
        RbJudgeAction::StartGame => {
            if changed {
                effects.push(SubmitEffect::MarkDirty);
                effects.push(SubmitEffect::LogStarted);
            }
            effects.push(SubmitEffect::GrantCurrencies);
        },
        _ => {},
    }
    assert(effects@ =~= followup_of(action, changed));
    effects
}

/// From when on a team that starts has its currencies: from its answer, or from when growth was
/// switched on where that came later.
pub fn currency_start_at(feature_state: i16, submitted_at: Timestamp, changed_at: Timestamp) -> (r:
    Timestamp)
    ensures
        r == (if feature_state == 1 && changed_at > submitted_at {
            changed_at
        } else {
            submitted_at
        }),
{
    if feature_state == 1 && changed_at > submitted_at {
        changed_at
    } else {
        submitted_at
    }
}

/// One rule of a puzzle's penalty.
#[derive(Debug)]
pub struct PenaltyRule {
    pub rtype: RbPuzzlePenaltyType,
    pub args: Vec<i64>,
}

/// How long a team must wait after a wrong answer: what the last rule on time says.
pub open spec fn cooldown_of(rules: Seq<PenaltyRule>, failures: i64) -> Option<i64>
    decreases rules.len(),
{
    if rules.len() == 0 {
        None
    } else {
        let rule = rules.last();
        let rest = cooldown_of(rules.drop_last(), failures);
        if rule.args@.len() == 0 {
            rest
        } else {
            match rule.rtype {
                RbPuzzlePenaltyType::FixedTime => Some(rule.args@[0]),
                RbPuzzlePenaltyType::LinearTime => Some(num::saturated(rule.args@[0] * failures)),
                _ => rest,
            }
        }
    }
}

/// Whether a rule charges a currency.
pub open spec fn charges_currency(rule: PenaltyRule) -> bool {
    rule.rtype is Currency && rule.args@.len() >= 2 && i32::MIN <= rule.args@[0] <= i32::MAX
}

/// What is charged for a wrong answer, in the order of the rules.
pub open spec fn charges_of(rules: Seq<PenaltyRule>) -> Seq<SubmitEffect>
    decreases rules.len(),
{
    if rules.len() == 0 {
        Seq::empty()
    } else {
        let rule = rules.last();
        let rest = charges_of(rules.drop_last());
        if charges_currency(rule) {
            rest.push(
                SubmitEffect::Charge { currency_id: rule.args@[0] as i32, amount: rule.args@[1] },
            )
        } else {
            rest
        }
    }
}

/// What is done about a wrong answer, given how many the team has given.
pub fn effects_of_failure(rules: &Vec<PenaltyRule>, failures: i64) -> (r: (
    Vec<SubmitEffect>,
    Option<i64>,
))
    ensures
        r.1 == cooldown_of(rules@, failures),
        r.0@ == charges_of(rules@) + (match cooldown_of(rules@, failures) {
            Some(seconds) => seq![SubmitEffect::SetCooldown { seconds }],
            None => Seq::empty(),
        }) + seq![SubmitEffect::LogConsequences],
{
    let mut effects: Vec<SubmitEffect> = Vec::new();
    let mut cooldown: Option<i64> = None;
    let mut i: usize = 0;
    while i < rules.len()
        invariant
            i <= rules@.len(),
            effects@ == charges_of(rules@.take(i as int)),
            cooldown == cooldown_of(rules@.take(i as int), failures),
        decreases rules@.len() - i,
    {
        let rule = &rules[i];
        proof {
            assert(rules@.take(i + 1).drop_last() == rules@.take(i as int));
            assert(rules@.take(i + 1).last() == *rule);
        }
        match rule.rtype {
            RbPuzzlePenaltyType::FixedTime => {
                if rule.args.len() > 0 {
                    cooldown = Some(rule.args[0]);
                }
            },
            RbPuzzlePenaltyType::LinearTime => {
                if rule.args.len() > 0 {
                    cooldown = Some(saturating_mul(rule.args[0], failures));
                }
            },
            RbPuzzlePenaltyType::Currency => {
                if rule.args.len() >= 2 && rule.args[0] >= i32::MIN as i64 && rule.args[0]
                    <= i32::MAX as i64 {
                    effects.push(
                        SubmitEffect::Charge {
                            currency_id: rule.args[0] as i32,
                            amount: rule.args[1],
                        },
                    );
                }
            },
            RbPuzzlePenaltyType::No => {},
        }
        i += 1;
    }
    assert(rules@.take(i as int) == rules@);
    let ghost charged = effects@;
    if let Some(seconds) = cooldown {
        effects.push(SubmitEffect::SetCooldown { seconds });
    }
    effects.push(SubmitEffect::LogConsequences);
    assert(effects@ =~= charged + (match cooldown {
        Some(seconds) => seq![SubmitEffect::SetCooldown { seconds }],
        None => Seq::empty(),
    }) + seq![SubmitEffect::LogConsequences]);
    (effects, cooldown)
}

/// What an answer has come to, once all is stored.
#[derive(Debug, Clone, Copy, PartialEq, Eq, Structural)]
pub struct SubmitOutcome {
    pub solved: bool,
    pub content_changed: bool,
    pub do_unlock: bool,
}

/// What an answer has come to.
pub fn conclude(action: RbJudgeAction, changed: bool, trigger_inserted: bool) -> (r: SubmitOutcome)
    ensures
        r.solved == (solves(action) && changed),
        r.content_changed == (trigger_inserted || ((solves(action) || action is StartGame)
            && changed)),
        r.do_unlock == r.content_changed,
{
    let solves = matches!(action, RbJudgeAction::Correct | RbJudgeAction::FinishGame);
    let moved = (solves || matches!(action, RbJudgeAction::StartGame)) && changed;
    SubmitOutcome {
        solved: solves && changed,
        content_changed: trigger_inserted || moved,
        do_unlock: trigger_inserted || moved,
    }
}

pub open spec fn has_custom(rules: Seq<JudgeRule>) -> bool {
    exists|i: int| 0 <= i < rules.len() && judge::is_word((#[trigger] rules[i]).rtype, "custom"@)
}

fn has_custom_judge(rules: &Vec<JudgeRule>) -> (r: bool)
    ensures
        r == has_custom(rules@),
{
    let mut i: usize = 0;
    while i < rules.len()
        invariant
            i <= rules@.len(),
            forall|k: int| 0 <= k < i ==> !judge::is_word((#[trigger] rules@[k]).rtype, "custom"@),
        decreases rules@.len() - i,
    {
        if let Some(t) = &rules[i].rtype {
            if same(t.as_str(), "custom") {
                assert(judge::is_word(rules@[i as int].rtype, "custom"@));
                return true;
            }
        }
        i += 1;
    }
    false
}

/// What is done after all is stored: the leaderboard is told of progress, puzzles and hints open,
/// and the team's new state is read, with its balances where they may have changed.
pub fn effects_after_commit(
    action: RbJudgeAction,
    do_unlock: bool,
    currency_updated: bool,
    rules: &Vec<JudgeRule>,
) -> (r: Vec<SubmitEffect>)
    ensures
        r@ == effect_if(action.has_side_effect(), SubmitEffect::UpdateLeaderboard) + effect_if(
            do_unlock,
            SubmitEffect::UnlockPuzzles,
        ) + effect_if(do_unlock, SubmitEffect::RefreshHints) + seq![SubmitEffect::ReadState]
            + effect_if(
            currency_updated || action is StartGame || has_custom(rules@),
            SubmitEffect::ReadCurrency,
        ),
{
    let mut effects: Vec<SubmitEffect> = Vec::new();
    push_if(&mut effects, action.side_effect(), SubmitEffect::UpdateLeaderboard);
    push_if(&mut effects, do_unlock, SubmitEffect::UnlockPuzzles);
    push_if(&mut effects, do_unlock, SubmitEffect::RefreshHints);
    effects.push(SubmitEffect::ReadState);
    let currency = currency_updated || matches!(action, RbJudgeAction::StartGame)
        || has_custom_judge(rules);
    push_if(&mut effects, currency, SubmitEffect::ReadCurrency);
    assert(effects@ =~= effect_if(action.has_side_effect(), SubmitEffect::UpdateLeaderboard)
        + effect_if(do_unlock, SubmitEffect::UnlockPuzzles) + effect_if(
        do_unlock,
        SubmitEffect::RefreshHints,
    ) + seq![SubmitEffect::ReadState] + effect_if(currency, SubmitEffect::ReadCurrency));
    effects
}

/// Whether what a team sees has changed, once it is known what has opened to it.
pub fn content_changed(outcome: SubmitOutcome, unlocks: &Vec<i32>) -> (r: bool)
    ensures
        r == (outcome.content_changed || unlocks@.len() > 0),
{
    outcome.content_changed || unlocks.len() > 0
}

/// A wrong answer changes nothing of the team's progress, and only a wrong answer is charged for
/// or followed by a cooldown.
pub proof fn only_failures_are_penalized(action: RbJudgeAction, changed: bool)
    ensures
        action is Fail ==> followup_of(action, changed).len() == 0,
        opening_of(action).contains(SubmitEffect::ReadPenalty) <==> action is Fail,
        solves(action) || action is StartGame <==> action.has_side_effect(),
{
    if action is Fail {
        assert(opening_of(action)[0] == SubmitEffect::ReadPenalty);
    } else {
        assert forall|i: int| 0 <= i < opening_of(action).len() implies opening_of(action)[i]
            != SubmitEffect::ReadPenalty by {}
    }
}

/// An answer that has been stored, and what it belongs to.
#[derive(Debug)]
pub struct StoredAnswer {
    pub id: i32,
    pub game_id: i32,
    pub team_id: i32,
    pub user_id: i32,
    pub puzzle_id: i32,
    pub round_id: i32,
    pub puzzle_title: String,
    pub answer: String,
    pub norm_answer: String,
}

impl StoredAnswer {
    /// What the events of an answer refer to.
    pub open spec fn refs(self) -> EventRefs {
        EventRefs {
            game_id: Some(self.game_id),
            team_id: Some(self.team_id),
            user_id: Some(self.user_id),
            puzzle_id: Some(self.puzzle_id),
            round_id: Some(self.round_id),
            submission_id: Some(self.id),
            ..event_log::no_refs()
        }
    }

    /// The puzzle, as the events of an answer show it.
    pub open spec fn puzzle(self) -> J {
        event_log::puzzle_json(self.puzzle_id as int, self.puzzle_title@)
    }

    /// The answer, as the events of a success show it.
    pub open spec fn submission(self) -> J {
        json::object_of(
            seq![("id"@, json::int_json(self.id as int)), ("answer"@, J::Text(self.answer@))],
        )
    }

    /// An event of this answer.
    fn event(&self, event_type: &'static str, data: Json) -> (r: EventLogInput)
        ensures
            r.is_team_event(event_type@, self.refs(), data@),
    {
        let mut event = EventLogInput::team_activity(event_type, data);
        event.game_id = Some(self.game_id);
        event.team_id = Some(self.team_id);
        event.user_id = Some(self.user_id);
        event.puzzle_id = Some(self.puzzle_id);
        event.round_id = Some(self.round_id);
        event.submission_id = Some(self.id);
        event
    }

    fn success_value(&self) -> (r: Json)
        ensures
            r@ == json::object_of(
                seq![("puzzle"@, self.puzzle()), ("submission"@, self.submission())],
            ),
    {
        let submission = Fields::new().put("id", Json::integer(self.id as i64)).put(
            "answer",
            Json::text(self.answer.as_str()),
        );
        assert(submission.pairs() =~= seq![
            ("id"@, json::int_json(self.id as int)),
            ("answer"@, J::Text(self.answer@)),
        ]);
        let fields = Fields::new().put(
            "puzzle",
            puzzle_value(self.puzzle_id, self.puzzle_title.as_str()),
        ).put("submission", submission.object());
        assert(fields.pairs() =~= seq![
            ("puzzle"@, self.puzzle()),
            ("submission"@, self.submission()),
        ]);
        fields.object()
    }

    /// The event of an answer that has been judged: a warning where the judge failed.
    pub fn judged(&self, result: &JudgeResult) -> (r: EventLogInput)
        ensures
            r.event_type@ == "submission.judged"@,
            r.event_scope == EventScope::TeamActivity.code_of(),
            r.severity == judged_severity(result.action).code_of(),
            r.refs() == self.refs(),
            r.data@ == json::object_of(
                seq![
                    (
                        "submission"@,
                        json::object_of(
                            seq![
                                ("id"@, json::int_json(self.id as int)),
                                ("answer"@, J::Text(self.answer@)),
                                ("norm_answer"@, J::Text(self.norm_answer@)),
                                ("action"@, json::int_json(result.action.code_of() as int)),
                                ("result"@, json::opt_text_json(judge::text_in(result.result))),
                                ("ignored"@, J::Bool(is_discounted(*result))),
                            ],
                        ),
                    ),
                    ("puzzle"@, self.puzzle()),
                ],
            ),
    {
        let failed = matches!(result.action, RbJudgeAction::Error);
        let action: i16 = result.action.into();
        let message = match &result.result {
            Some(text) => Json::text(text.as_str()),
            None => Json::Null,
        };
        assert(message@ == json::opt_text_json(judge::text_in(result.result)));
        let submission = Fields::new().put("id", Json::integer(self.id as i64)).put(
            "answer",
            Json::text(self.answer.as_str()),
        ).put("norm_answer", Json::text(self.norm_answer.as_str())).put(
            "action",
            Json::integer(action as i64),
        ).put("result", message).put("ignored", Json::Bool(result.ignored || failed));
        assert(submission.pairs() =~= seq![
            ("id"@, json::int_json(self.id as int)),
            ("answer"@, J::Text(self.answer@)),
            ("norm_answer"@, J::Text(self.norm_answer@)),
            ("action"@, json::int_json(result.action.code_of() as int)),
            ("result"@, json::opt_text_json(judge::text_in(result.result))),
            ("ignored"@, J::Bool(is_discounted(*result))),
        ]);
        let ghost shown = json::object_of(submission.pairs());
        let fields = Fields::new().put("submission", submission.object()).put(
            "puzzle",
            puzzle_value(self.puzzle_id, self.puzzle_title.as_str()),
        );
        assert(fields.pairs() =~= seq![("submission"@, shown), ("puzzle"@, self.puzzle())]);
        let mut event = self.event("submission.judged", fields.object());
        if failed {
            event.severity = EventSeverity::Warning.into();
        }
        event
    }

    /// The event of a puzzle that this answer has solved.
    pub fn solved(&self) -> (r: EventLogInput)
        ensures
            r.is_team_event(
                "puzzle.solved"@,
                self.refs(),
                json::object_of(
                    seq![("puzzle"@, self.puzzle()), ("submission"@, self.submission())],
                ),
            ),
    {
        self.event("puzzle.solved", self.success_value())
    }

    /// The event of a team that has started with this answer.
    pub fn started(&self) -> (r: EventLogInput)
        ensures
            r.is_team_event(
                "game.started"@,
                self.refs(),
                json::object_of(
                    seq![("puzzle"@, self.puzzle()), ("submission"@, self.submission())],
                ),
            ),
    {
        self.event("game.started", self.success_value())
    }

    /// The event of a charge for this answer.
    pub fn charged(&self, currency: &CurrencyEventData, amount: i64) -> (r: EventLogInput)
        requires
            amount > i64::MIN,
        ensures
            r.is_team_event(
                "currency.penalty"@,
                (EventRefs {
                    currency_id: Some(currency.id),
                    delta_amount: Some((-amount) as i64),
                    ..self.refs()
                }),
                json::object_of(
                    seq![
                        ("reason"@, J::Text("puzzle.penalty"@)),
                        ("currency"@, event_log::currency_json(*currency)),
                        ("delta"@, json::int_json(-amount)),
                        ("before"@, json::int_json(currency.before as int)),
                        ("after"@, json::int_json(currency.after as int)),
                        ("submission"@, event_log::id_json(self.id as int)),
                        ("puzzle"@, self.puzzle()),
                    ],
                ),
            ),
    {
        let fields = Fields::new().put("reason", Json::text("puzzle.penalty")).put(
            "currency",
            currency.currency_value(),
        ).put("delta", Json::integer(-amount)).put("before", Json::integer(currency.before)).put(
            "after",
            Json::integer(currency.after),
        ).put("submission", id_value(self.id)).put(
            "puzzle",
            puzzle_value(self.puzzle_id, self.puzzle_title.as_str()),
        );
        assert(fields.pairs() =~= seq![
            ("reason"@, J::Text("puzzle.penalty"@)),
            ("currency"@, event_log::currency_json(*currency)),
            ("delta"@, json::int_json(-amount)),
            ("before"@, json::int_json(currency.before as int)),
            ("after"@, json::int_json(currency.after as int)),
            ("submission"@, event_log::id_json(self.id as int)),
            ("puzzle"@, self.puzzle()),
        ]);
        let mut event = self.event("currency.penalty", fields.object());
        event.currency_id = Some(currency.id);
        event.delta_amount = Some(-amount);
        event
    }
}

/// A charge, as it is shown to the team.
#[derive(Debug)]
pub struct CurrencyPenaltyShowData {
    pub currency_id: i32,
    pub name: String,
    pub prec: i32,
    pub amount: i64,
}

pub open spec fn penalty_json(p: CurrencyPenaltyShowData) -> J {
    json::object_of(
        seq![
            ("currency_id"@, json::int_json(p.currency_id as int)),
            ("name"@, J::Text(p.name@)),
            ("prec"@, json::int_json(p.prec as int)),
            ("amount"@, json::int_json(p.amount as int)),
        ],
    )
}

fn penalty_value(p: &CurrencyPenaltyShowData) -> (r: Json)
    ensures
        r@ == penalty_json(*p),
{
    let fields = Fields::new().put("currency_id", Json::integer(p.currency_id as i64)).put(
        "name",
        Json::text(p.name.as_str()),
    ).put("prec", Json::integer(p.prec as i64)).put("amount", Json::integer(p.amount));
    assert(fields.pairs() =~= seq![
        ("currency_id"@, json::int_json(p.currency_id as int)),
        ("name"@, J::Text(p.name@)),
        ("prec"@, json::int_json(p.prec as int)),
        ("amount"@, json::int_json(p.amount as int)),
    ]);
    fields.object()
}

/// What a wrong answer has brought about, as it is added to the event of its verdict.
pub fn consequences(cooldown_seconds: Option<i64>, penalties: &Vec<CurrencyPenaltyShowData>) -> (r:
    Json)
    ensures
        r@ == json::object_of(
            seq![
                ("cooldown_seconds"@, json::opt_int_json(cooldown_seconds)),
                (
                    "currency_penalty"@,
                    J::Array(penalties@.map_values(|p: CurrencyPenaltyShowData| penalty_json(p))),
                ),
            ],
        ),
{
    let ghost shown = penalties@.map_values(|p: CurrencyPenaltyShowData| penalty_json(p));
    let mut items: Vec<Json> = Vec::new();
    let mut i: usize = 0;
    proof {
        assert(json::array_view(items@) =~= shown.take(0));
    }
    while i < penalties.len()
        invariant
            i <= penalties@.len(),
            shown == penalties@.map_values(|p: CurrencyPenaltyShowData| penalty_json(p)),
            json::array_view(items@) == shown.take(i as int),
        decreases penalties@.len() - i,
    {
        let ghost before = items@;
        items.push(penalty_value(&penalties[i]));
        proof {
            assert(items@.drop_last() =~= before);
            assert(json::array_view(items@) == json::array_view(before).push(items@.last()@));
            assert(shown.take(i + 1) =~= shown.take(i as int).push(shown[i as int]));
        }
        i += 1;
    }
    assert(shown.take(i as int) =~= shown);
    let fields = Fields::new().put("cooldown_seconds", Json::opt_int(cooldown_seconds)).put(
        "currency_penalty",
        Json::Array(items),
    );
    assert(fields.pairs() =~= seq![
        ("cooldown_seconds"@, json::opt_int_json(cooldown_seconds)),
        ("currency_penalty"@, J::Array(shown)),
    ]);
    fields.object()
}

/// How long a team waits is decided by the last rule on time that has an argument: a fixed time is
/// that argument whatever the number of failures, a linear time is the argument times the failures,
/// held within 64 bits, and other rules change nothing.
pub proof fn the_last_rule_on_time_decides(
    rules: Seq<PenaltyRule>,
    rule: PenaltyRule,
    failures: i64,
)
    ensures
        cooldown_of(Seq::empty(), failures) is None,
        rule.rtype is FixedTime && rule.args@.len() > 0 ==> cooldown_of(rules.push(rule), failures)
            == Some(rule.args@[0]),
        rule.rtype is LinearTime && rule.args@.len() > 0 && i64::MIN <= rule.args@[0] * failures
            <= i64::MAX ==> cooldown_of(rules.push(rule), failures) is Some && cooldown_of(
            rules.push(rule),
            failures,
        )->0 == rule.args@[0] * failures,
        rule.rtype is LinearTime && rule.args@.len() > 0 && rule.args@[0] * failures > i64::MAX
            ==> cooldown_of(rules.push(rule), failures) == Some(i64::MAX),
        rule.rtype is LinearTime && rule.args@.len() > 0 && rule.args@[0] * failures < i64::MIN
            ==> cooldown_of(rules.push(rule), failures) == Some(i64::MIN),
        rule.args@.len() == 0 || rule.rtype is Currency || rule.rtype is No ==> cooldown_of(
            rules.push(rule),
            failures,
        ) == cooldown_of(rules, failures),
{
    assert(rules.push(rule).drop_last() =~= rules);
}

/// A wrong answer is followed by no waiting only where no rule on time has an argument.
pub proof fn rules_on_time_make_teams_wait(rules: Seq<PenaltyRule>, failures: i64)
    ensures
        cooldown_of(rules, failures) is Some <==> exists|i: int|
            0 <= i < rules.len() && (#[trigger] rules[i]).args@.len() > 0 && (
            rules[i].rtype is FixedTime || rules[i].rtype is LinearTime),
    decreases rules.len(),
{
    if rules.len() > 0 {
        let init = rules.drop_last();
        rules_on_time_make_teams_wait(init, failures);
        assert(rules[rules.len() - 1] == rules.last());
        if cooldown_of(init, failures) is Some {
            let i = choose|i: int|
                0 <= i < init.len() && (#[trigger] init[i]).args@.len() > 0 && (
                init[i].rtype is FixedTime || init[i].rtype is LinearTime);
            assert(rules[i] == init[i]);
        }
        if exists|i: int|
            0 <= i < rules.len() && (#[trigger] rules[i]).args@.len() > 0 && (
            rules[i].rtype is FixedTime || rules[i].rtype is LinearTime) {
            let i = choose|i: int|
                0 <= i < rules.len() && (#[trigger] rules[i]).args@.len() > 0 && (
                rules[i].rtype is FixedTime || rules[i].rtype is LinearTime);
            if i < init.len() {
                assert(init[i] == rules[i]);
            }
        }
    }
}

/// A rule charges exactly where it is one on a currency that names one and an amount: it charges
/// that amount of that currency, after what the rules before it charge.
pub proof fn rules_on_currency_charge(rules: Seq<PenaltyRule>, rule: PenaltyRule)
    ensures
        charges_of(Seq::empty()).len() == 0,
        ({
            let charges = rule.rtype is Currency && rule.args@.len() >= 2 && i32::MIN
                <= rule.args@[0] <= i32::MAX;
            let (before, after) = (charges_of(rules), charges_of(rules.push(rule)));
            &&& !charges ==> after == before
            &&& charges ==> after.len() == before.len() + 1 && after.drop_last() == before && (
            after.last() matches SubmitEffect::Charge { currency_id, amount } && currency_id
                == rule.args@[0] && amount == rule.args@[1])
        }),
{
    assert(rules.push(rule).drop_last() =~= rules);
    let (before, after) = (charges_of(rules), charges_of(rules.push(rule)));
    if charges_currency(rule) {
        assert(after.drop_last() =~= before);
    }
}

/// An answer is admitted exactly where the team may see the puzzle and may answer now, the puzzle
/// has rules and requirements that can be read, every balance reaches the least amount that is asked
/// for, and the answer was not given before. Otherwise it is told apart whether there is no such
/// puzzle, whether the puzzle is locked to the team, and whether the answer was given before.
pub proof fn answers_are_admitted_by_what_is_found(c: Circumstances)
    requires
        c.requirements.len() <= usize::MAX,
        c.balances.len() == c.requirements.len(),
    ensures
        ({
            let end = admission_run(Admission::Access, c, (c.requirements.len() + 4) as nat);
            let found = c.access == Some(true) && c.allowed == Some(true) && c.rules > 0
                && c.readable;
            &&& end == Admission::Admitted || end == Admission::Refused(Refusal::Duplicate) || end
                == Admission::Refused(Refusal::NotFound) || end == Admission::Refused(
                Refusal::Locked,
            )
            &&& end == Admission::Admitted ==> c.inserted
            &&& end == Admission::Refused(Refusal::Duplicate) ==> !c.inserted
            &&& end == Admission::Admitted || end == Admission::Refused(Refusal::Duplicate) ==> {
                &&& found
                &&& forall|i: int|
                    0 <= i < c.requirements.len() ==> (#[trigger] c.balances[i]) is Some
                        && c.balances[i]->0 >= c.requirements[i]->minimum
            }
            &&& end == Admission::Refused(Refusal::Locked) ==> c.access is Some && (!found || exists|
                i: int,
            |
                0 <= i < c.requirements.len() && ((#[trigger] c.balances[i]) is None || c.balances[i]->0
                    < c.requirements[i]->minimum))
            &&& end == Admission::Refused(Refusal::NotFound) <==> c.access is None
        }),
{
    admission_follows_the_circumstances(c);
    if all_met(c) {
        assert forall|i: int| 0 <= i < c.requirements.len() implies (
        #[trigger] c.balances[i]) is Some && c.balances[i]->0 >= c.requirements[i]->minimum by {
            assert(c.requirements[i].met_by(c.balances[i]));
        }
    } else {
        let i = choose|i: int|
            0 <= i < c.requirements.len() && !(#[trigger] c.requirements[i]).met_by(c.balances[i]);
        assert(c.balances[i] is None || c.balances[i]->0 < c.requirements[i]->minimum);
    }
}

/// What a requirement asks for: a balance that is there and reaches the least amount.
pub proof fn requirements_ask_for_a_balance(currency_id: i32, minimum: i64, balance: i64)
    ensures
        ({
            let r = PuzzleSubmitRequirement::CurrencyMinimum { currency_id, minimum };
            &&& r.currency() == currency_id
            &&& !r.met_by(None)
            &&& r.met_by(Some(balance)) <==> balance >= minimum
        }),
{
}

/// What an action does at once: right answers mark the puzzle solved, those that finish the game
/// finish the team too, those that start it lock the team, and wrong ones are penalized.
pub proof fn actions_do_what_they_are_for(action: RbJudgeAction)
    ensures
        opening_of(action).contains(SubmitEffect::MarkSolved) <==> action == RbJudgeAction::Correct
            || action == RbJudgeAction::FinishGame,
        opening_of(action).contains(SubmitEffect::FinishTeam) <==> action
            == RbJudgeAction::FinishGame,
        opening_of(action).contains(SubmitEffect::LockTeam) <==> action == RbJudgeAction::StartGame,
        opening_of(action).contains(SubmitEffect::ReadCurrencyStart) <==> action
            == RbJudgeAction::StartGame,
        opening_of(action).contains(SubmitEffect::ReadPenalty) <==> action == RbJudgeAction::Fail,
        solves(action) <==> opening_of(action).contains(SubmitEffect::MarkSolved),
{
    let all = opening_of(action);
    match action {
        RbJudgeAction::Correct => {
            assert(all[0] == SubmitEffect::MarkSolved);
        },
        RbJudgeAction::FinishGame => {
            assert(all[0] == SubmitEffect::MarkSolved);
            assert(all[1] == SubmitEffect::FinishTeam);
        },
        RbJudgeAction::StartGame => {
            assert(all[0] == SubmitEffect::ReadCurrencyStart);
            assert(all[1] == SubmitEffect::LockTeam);
        },
        RbJudgeAction::Fail => {
            assert(all[0] == SubmitEffect::ReadPenalty);
        },
        _ => {},
    }
}

/// What follows where a puzzle was solved only now: its tickets are closed, the success is told and
/// the team's content is worked out anew. A team that starts is given its currencies, and where it
/// starts only now that is told as well.
pub proof fn changes_are_followed_up(action: RbJudgeAction, changed: bool)
    ensures
        ({
            let after = followup_of(action, changed);
            let right = action == RbJudgeAction::Correct || action == RbJudgeAction::FinishGame;
            let starts = action == RbJudgeAction::StartGame;
            &&& after.contains(SubmitEffect::CloseTickets) <==> right && changed
            &&& after.contains(SubmitEffect::LogSolved) <==> right && changed
            &&& after.contains(SubmitEffect::MarkDirty) <==> (right || starts) && changed
            &&& after.contains(SubmitEffect::GrantCurrencies) <==> starts
            &&& after.contains(SubmitEffect::LogStarted) <==> starts && changed
        }),
{
    let all = followup_of(action, changed);
    if solves(action) && changed {
        assert(all[0] == SubmitEffect::MarkDirty);
        assert(all[1] == SubmitEffect::LogSolved);
        assert(all[2] == SubmitEffect::CloseTickets);
    } else if action is StartGame && changed {
        assert(all[0] == SubmitEffect::MarkDirty);
        assert(all[1] == SubmitEffect::LogStarted);
        assert(all[2] == SubmitEffect::GrantCurrencies);
    } else if action is StartGame {
        assert(all[0] == SubmitEffect::GrantCurrencies);
    }
}

/// A verdict does not count where the judge says so or failed; a failed judge is warned of. What is
/// done under a condition is done once where it holds, and not at all otherwise.
pub proof fn failed_judges_do_not_count(result: JudgeResult, condition: bool, effect: SubmitEffect)
    ensures
        is_discounted(result) <==> result.ignored || result.action == RbJudgeAction::Error,
        judged_severity(result.action) == EventSeverity::Warning <==> result.action
            == RbJudgeAction::Error,
        judged_severity(result.action) == EventSeverity::Info <==> result.action
            != RbJudgeAction::Error,
        effect_if(condition, effect).contains(effect) <==> condition,
        effect_if(condition, effect).len() == (if condition {
            1nat
        } else {
            0
        }),
{
    if condition {
        assert(effect_if(condition, effect)[0] == effect);
    }
}

/// The events of an answer refer to the game, the team, the user, the puzzle, its round and the
/// answer, and to nothing else.
pub proof fn answers_are_referred_to(answer: StoredAnswer)
    ensures
        ({
            let refs = answer.refs();
            &&& refs.game_id == Some(answer.game_id)
            &&& refs.team_id == Some(answer.team_id)
            &&& refs.user_id == Some(answer.user_id)
            &&& refs.puzzle_id == Some(answer.puzzle_id)
            &&& refs.round_id == Some(answer.round_id)
            &&& refs.submission_id == Some(answer.id)
            &&& refs.target_user_id is None && refs.hint_id is None && refs.ticket_id is None
            &&& refs.currency_id is None && refs.delta_amount is None
        }),
{
}

/// One trigger that is not named well is enough to refuse a verdict, and a verdict without triggers
/// is never refused for them.
pub proof fn wrong_triggers_are_found(result: JudgeResult)
    ensures
        result.triggers@.len() == 0 ==> triggers_named_well(result),
        forall|i: int|
            0 <= i < result.triggers@.len() && !compiler::is_trigger_key(
                (#[trigger] result.triggers@[i])@,
            ) ==> !triggers_named_well(result),
{
}

/// A puzzle has a program of its own exactly where one of its rules asks for it.
pub proof fn custom_rules_are_found(rules: Seq<JudgeRule>, rule: JudgeRule)
    ensures
        !has_custom(Seq::empty()),
        has_custom(rules.push(rule)) <==> has_custom(rules) || (rule.rtype is Some && rule.rtype->0@
            == "custom"@),
{
    let all = rules.push(rule);
    assert(all[rules.len() as int] == rule);
    if has_custom(rules) {
        let i = choose|i: int|
            0 <= i < rules.len() && judge::is_word((#[trigger] rules[i]).rtype, "custom"@);
        assert(all[i] == rules[i]);
    }
    if has_custom(all) {
        let i = choose|i: int|
            0 <= i < all.len() && judge::is_word((#[trigger] all[i]).rtype, "custom"@);
        if i < rules.len() {
            assert(rules[i] == all[i]);
        }
    }
}

/// What the events of an answer show: the number and the title of the puzzle, and the number and the
/// text of the answer as it was given.
pub proof fn events_show_puzzle_and_answer(answer: StoredAnswer)
    ensures
        answer.puzzle() is Object,
        answer.puzzle()->Object_0.dom().contains("id"@),
        answer.puzzle()->Object_0["id"@] == json::int_json(answer.puzzle_id as int),
        answer.puzzle()->Object_0.dom().contains("title"@),
        answer.puzzle()->Object_0["title"@] == J::Text(answer.puzzle_title@),
        answer.submission() is Object,
        answer.submission()->Object_0["id"@] == json::int_json(answer.id as int),
        answer.submission()->Object_0["answer"@] == J::Text(answer.answer@),
{
    reveal_strlit("id");
    reveal_strlit("title");
    reveal_strlit("answer");
    assert("id"@.len() == 2 && "title"@.len() == 5 && "answer"@.len() == 6);
    reveal_with_fuel(json::pairs_map, 3);
    let p = seq![
        ("id"@, json::int_json(answer.puzzle_id as int)),
        ("title"@, J::Text(answer.puzzle_title@)),
    ];
    assert(p.drop_last().last() == p[0] && p.drop_last().len() == 1);
    let q = seq![("id"@, json::int_json(answer.id as int)), ("answer"@, J::Text(answer.answer@))];
    assert(q.drop_last().last() == q[0] && q.drop_last().len() == 1);
}

/// A requirement comes after the one before it, and the answer is stored after the last.
pub proof fn requirements_are_asked_in_turn(n: int, requirements: Seq<PuzzleSubmitRequirement>)
    requires
        0 <= n,
        requirements.len() <= usize::MAX,
    ensures
        n < requirements.len() ==> after_requirements(n, requirements) == Admission::Balance(
            n as usize,
        ),
        n >= requirements.len() ==> after_requirements(n, requirements) == Admission::Insert,
        refused_unless(true, Admission::Insert) == Admission::Insert,
        refused_unless(false, Admission::Insert) == Admission::Refused(Refusal::Locked),
{
}

/// A charge is shown by its currency and its amount.
pub proof fn charges_are_shown(p: CurrencyPenaltyShowData)
    ensures
        penalty_json(p) is Object,
        penalty_json(p)->Object_0.dom().contains("currency_id"@),
        penalty_json(p)->Object_0["currency_id"@] == json::int_json(p.currency_id as int),
        penalty_json(p)->Object_0.dom().contains("name"@),
        penalty_json(p)->Object_0["name"@] == J::Text(p.name@),
        penalty_json(p)->Object_0.dom().contains("prec"@),
        penalty_json(p)->Object_0["prec"@] == json::int_json(p.prec as int),
        penalty_json(p)->Object_0.dom().contains("amount"@),
        penalty_json(p)->Object_0["amount"@] == json::int_json(p.amount as int),
{
    reveal_strlit("currency_id");
    reveal_strlit("name");
    reveal_strlit("prec");
    reveal_strlit("amount");
    assert("currency_id"@.len() == 11 && "name"@.len() == 4 && "prec"@.len() == 4 && "amount"@.len() == 6);
    assert("prec"@[0] == 'p' && "name"@[0] == 'n');
    let pairs = seq![
        ("currency_id"@, json::int_json(p.currency_id as int)),
        ("name"@, J::Text(p.name@)),
        ("prec"@, json::int_json(p.prec as int)),
        ("amount"@, json::int_json(p.amount as int)),
    ];
    json::keys_hold_their_values(pairs, 0);
    json::keys_hold_their_values(pairs, 1);
    json::keys_hold_their_values(pairs, 2);
    json::keys_hold_their_values(pairs, 3);
}

/// A fact that is not asked for changes nothing, and an admission that has ended stays as it ended.
pub proof fn facts_are_taken_when_asked_for(
    stage: Admission,
    fact: AdmissionFact,
    requirements: Seq<PuzzleSubmitRequirement>,
)
    ensures
        stage is Admitted || stage is Refused ==> admission_after(stage, fact, requirements) == stage,
        stage is Access && !(fact is Access) ==> admission_after(stage, fact, requirements) == stage,
        stage is Allowance && !(fact is Allowance) ==> admission_after(stage, fact, requirements)
            == stage,
        stage is Puzzle && !(fact is Puzzle) ==> admission_after(stage, fact, requirements) == stage,
        stage is Balance && !(fact is Balance) ==> admission_after(stage, fact, requirements)
            == stage,
        stage is Insert && !(fact is Inserted) ==> admission_after(stage, fact, requirements)
            == stage,
{
}

} // verus!
