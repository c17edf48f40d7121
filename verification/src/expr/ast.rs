//! Compiled expressions and what they mean.
use vstd::prelude::*;

use crate::expr::types;
use crate::expr::types::{CountSize, Name, Progress, PuzzleId, PuzzleRef, PuzzleStates, RoundRef};

verus! {

#[derive(Debug, Clone, Copy, PartialEq, Eq, Structural)]
pub enum CmpOp {
    Gt,
    Ge,
    Lt,
    Le,
    Eq,
    Ne,
}

#[derive(Debug)]
pub enum SetExpr {
    // (puzzles 1 2 3)
    Puzzles(Vec<PuzzleRef>),
    // (puzzle-range 1 5)
    PuzzleRange { start: PuzzleId, end: PuzzleId },
    // (round 1)
    Round(RoundRef),
}

#[derive(Debug)]
pub enum ValueExpr {
    SolvedCount(SetExpr),
    Number(CountSize),
}

#[derive(Debug)]
pub enum GateExpr {
    True,
    False,
    And(Vec<GateExpr>),
    Or(Vec<GateExpr>),
    Not(Box<GateExpr>),
    Solved(PuzzleRef),
    AllSolved(SetExpr),
    AnySolved(SetExpr),
    GameStarted,
    Triggered(PuzzleRef, String),
    Cmp { op: CmpOp, lhs: ValueExpr, rhs: ValueExpr },
}

/// When a hint is shown: a gate that may also ask about the hint itself.
#[derive(Debug)]
pub enum HintDisplayExpr {
    Gate(GateExpr),
    HintEnabled,
    HintCooledDown,
    And(Vec<HintDisplayExpr>),
    Or(Vec<HintDisplayExpr>),
    Not(Box<HintDisplayExpr>),
}

/// What a [`SetExpr`] says.
pub enum PuzzleSet {
    Puzzles(Seq<Name>),
    Range(PuzzleId, PuzzleId),
    Round(Name),
}

/// What a [`ValueExpr`] says.
pub enum Value {
    SolvedCount(PuzzleSet),
    Number(CountSize),
}

/// What a [`GateExpr`] says.
pub enum Gate {
    True,
    False,
    And(Seq<Gate>),
    Or(Seq<Gate>),
    Not(Box<Gate>),
    Solved(Name),
    AllSolved(PuzzleSet),
    AnySolved(PuzzleSet),
    GameStarted,
    Triggered(Name, Seq<char>),
    Cmp(CmpOp, Value, Value),
}

/// What a [`HintDisplayExpr`] says.
pub enum Hint {
    Gate(Gate),
    HintEnabled,
    HintCooledDown,
    And(Seq<Hint>),
    Or(Seq<Hint>),
    Not(Box<Hint>),
}

pub open spec fn names_view(v: Seq<PuzzleRef>) -> Seq<Name> {
    Seq::new(v.len(), |i: int| v[i]@)
}

impl View for SetExpr {
    type V = PuzzleSet;

    open spec fn view(&self) -> PuzzleSet {
        match self {
            SetExpr::Puzzles(v) => PuzzleSet::Puzzles(names_view(v@)),
            SetExpr::PuzzleRange { start, end } => PuzzleSet::Range(*start, *end),
            SetExpr::Round(r) => PuzzleSet::Round(r@),
        }
    }
}

impl View for ValueExpr {
    type V = Value;

    open spec fn view(&self) -> Value {
        match self {
            ValueExpr::SolvedCount(set) => Value::SolvedCount(set@),
            ValueExpr::Number(n) => Value::Number(*n),
        }
    }
}

pub open spec fn gate_view(e: GateExpr) -> Gate
    decreases e,
{
    match e {
        GateExpr::True => Gate::True,
        GateExpr::False => Gate::False,
        GateExpr::And(xs) => Gate::And(
            Seq::new(
                xs@.len(),
                |i: int|
                    if 0 <= i < xs@.len() {
                        gate_view(xs@[i])
                    } else {
                        arbitrary()
                    },
            ),
        ),
        GateExpr::Or(xs) => Gate::Or(
            Seq::new(
                xs@.len(),
                |i: int|
                    if 0 <= i < xs@.len() {
                        gate_view(xs@[i])
                    } else {
                        arbitrary()
                    },
            ),
        ),
        GateExpr::Not(x) => Gate::Not(Box::new(gate_view(*x))),
        GateExpr::Solved(p) => Gate::Solved(p@),
        GateExpr::AllSolved(s) => Gate::AllSolved(s@),
        GateExpr::AnySolved(s) => Gate::AnySolved(s@),
        GateExpr::GameStarted => Gate::GameStarted,
        GateExpr::Triggered(p, key) => Gate::Triggered(p@, key@),
        GateExpr::Cmp { op, lhs, rhs } => Gate::Cmp(op, lhs@, rhs@),
    }
}

impl View for GateExpr {
    type V = Gate;

    open spec fn view(&self) -> Gate {
        gate_view(*self)
    }
}

pub open spec fn gates_view(v: Seq<GateExpr>) -> Seq<Gate> {
    Seq::new(v.len(), |i: int| v[i]@)
}

pub(crate) proof fn lemma_gate_and_view(xs: Vec<GateExpr>)
    ensures
        GateExpr::And(xs)@ == Gate::And(gates_view(xs@)),
{
    assert(gate_view(GateExpr::And(xs))->And_0 =~= gates_view(xs@));
}

pub(crate) proof fn lemma_gate_or_view(xs: Vec<GateExpr>)
    ensures
        GateExpr::Or(xs)@ == Gate::Or(gates_view(xs@)),
{
    assert(gate_view(GateExpr::Or(xs))->Or_0 =~= gates_view(xs@));
}

pub open spec fn hint_view(e: HintDisplayExpr) -> Hint
    decreases e,
{
    match e {
        HintDisplayExpr::Gate(g) => Hint::Gate(g@),
        HintDisplayExpr::HintEnabled => Hint::HintEnabled,
        HintDisplayExpr::HintCooledDown => Hint::HintCooledDown,
        HintDisplayExpr::And(xs) => Hint::And(
            Seq::new(
                xs@.len(),
                |i: int|
                    if 0 <= i < xs@.len() {
                        hint_view(xs@[i])
                    } else {
                        arbitrary()
                    },
            ),
        ),
        HintDisplayExpr::Or(xs) => Hint::Or(
            Seq::new(
                xs@.len(),
                |i: int|
                    if 0 <= i < xs@.len() {
                        hint_view(xs@[i])
                    } else {
                        arbitrary()
                    },
            ),
        ),
        HintDisplayExpr::Not(x) => Hint::Not(Box::new(hint_view(*x))),
    }
}

impl View for HintDisplayExpr {
    type V = Hint;

    open spec fn view(&self) -> Hint {
        hint_view(*self)
    }
}

pub open spec fn hints_view(v: Seq<HintDisplayExpr>) -> Seq<Hint> {
    Seq::new(v.len(), |i: int| v[i]@)
}

pub(crate) proof fn lemma_hint_and_view(xs: Vec<HintDisplayExpr>)
    ensures
        HintDisplayExpr::And(xs)@ == Hint::And(hints_view(xs@)),
{
    assert(hint_view(HintDisplayExpr::And(xs))->And_0 =~= hints_view(xs@));
}

pub(crate) proof fn lemma_hint_or_view(xs: Vec<HintDisplayExpr>)
    ensures
        HintDisplayExpr::Or(xs)@ == Hint::Or(hints_view(xs@)),
{
    assert(hint_view(HintDisplayExpr::Or(xs))->Or_0 =~= hints_view(xs@));
}

/// The puzzle that a name stands for.
pub open spec fn named_puzzle(m: Progress, n: Name) -> Option<PuzzleId> {
    match n {
        Name::Id(id) => Some(id),
        Name::Slug(slug) => types::lookup(m.puzzle_slugs, slug),
    }
}

/// The puzzles of the round that a name stands for.
pub open spec fn named_round(m: Progress, n: Name) -> Option<Seq<PuzzleId>> {
    match n {
        Name::Id(id) => types::lookup(m.round_puzzles, id),
        Name::Slug(slug) => match types::lookup(m.round_slugs, slug) {
            Some(id) => types::lookup(m.round_puzzles, id),
            None => None,
        },
    }
}

/// All numbers from the smaller of two to the larger.
pub open spec fn span(a: PuzzleId, b: PuzzleId) -> Seq<PuzzleId> {
    let low = if a <= b {
        a
    } else {
        b
    };
    let high = if a <= b {
        b
    } else {
        a
    };
    Seq::new((high - low + 1) as nat, |i: int| (low + i) as PuzzleId)
}

/// The puzzles of a set; none where a name in it is unknown.
pub open spec fn members(m: Progress, set: PuzzleSet) -> Option<Seq<PuzzleId>> {
    match set {
        PuzzleSet::Puzzles(v) => if forall|i: int|
            0 <= i < v.len() ==> named_puzzle(m, #[trigger] v[i]) is Some {
            Some(Seq::new(v.len(), |i: int| named_puzzle(m, v[i])->0))
        } else {
            None
        },
        PuzzleSet::Range(a, b) => Some(span(a, b)),
        PuzzleSet::Round(n) => named_round(m, n),
    }
}

/// How many of a list of puzzles are solved.
pub open spec fn solved_among(m: Progress, ids: Seq<PuzzleId>) -> nat {
    ids.filter(|id: PuzzleId| m.solved.contains(id)).len()
}

pub open spec fn value_in(m: Progress, v: Value) -> nat {
    match v {
        Value::SolvedCount(set) => match members(m, set) {
            Some(ids) => solved_among(m, ids),
            None => 0,
        },
        Value::Number(n) => n as nat,
    }
}

pub open spec fn compares(op: CmpOp, a: int, b: int) -> bool {
    match op {
        CmpOp::Gt => a > b,
        CmpOp::Ge => a >= b,
        CmpOp::Lt => a < b,
        CmpOp::Le => a <= b,
        CmpOp::Eq => a == b,
        CmpOp::Ne => a != b,
    }
}

/// Whether a gate is open to a team.
pub open spec fn holds(m: Progress, g: Gate) -> bool
    decreases g,
{
    match g {
        Gate::True => true,
        Gate::False => false,
        Gate::And(xs) => forall|i: int| 0 <= i < xs.len() ==> holds(m, #[trigger] xs[i]),
        Gate::Or(xs) => exists|i: int| 0 <= i < xs.len() && holds(m, #[trigger] xs[i]),
        Gate::Not(x) => !holds(m, *x),
        Gate::Solved(n) => named_puzzle(m, n) matches Some(id) && m.solved.contains(id),
        Gate::AllSolved(set) => members(m, set) matches Some(ids) && forall|i: int|
            0 <= i < ids.len() ==> m.solved.contains(#[trigger] ids[i]),
        Gate::AnySolved(set) => members(m, set) matches Some(ids) && exists|i: int|
            0 <= i < ids.len() && m.solved.contains(#[trigger] ids[i]),
        Gate::GameStarted => m.game_started,
        Gate::Triggered(n, key) => named_puzzle(m, n) matches Some(id) && m.triggered.contains(
            (id, key),
        ),
        Gate::Cmp(op, a, b) => compares(op, value_in(m, a) as int, value_in(m, b) as int),
    }
}

/// Whether a hint is shown to a team.
pub open spec fn hint_holds(m: Progress, h: Hint, enabled: bool, cooled_down: bool) -> bool
    decreases h,
{
    match h {
        Hint::Gate(g) => holds(m, g),
        Hint::HintEnabled => enabled,
        Hint::HintCooledDown => cooled_down,
        Hint::And(xs) => forall|i: int|
            0 <= i < xs.len() ==> hint_holds(m, #[trigger] xs[i], enabled, cooled_down),
        Hint::Or(xs) => exists|i: int|
            0 <= i < xs.len() && hint_holds(m, #[trigger] xs[i], enabled, cooled_down),
        Hint::Not(x) => !hint_holds(m, *x, enabled, cooled_down),
    }
}

/// Whether a hint expression asks if the hint has cooled down.
pub open spec fn asks_cooldown(h: Hint) -> bool
    decreases h,
{
    match h {
        Hint::HintCooledDown => true,
        Hint::And(xs) => exists|i: int| 0 <= i < xs.len() && asks_cooldown(#[trigger] xs[i]),
        Hint::Or(xs) => exists|i: int| 0 <= i < xs.len() && asks_cooldown(#[trigger] xs[i]),
        Hint::Not(x) => asks_cooldown(*x),
        _ => false,
    }
}

proof fn lemma_and_fails(m: Progress, xs: Seq<Gate>, i: int)
    requires
        0 <= i < xs.len(),
        !holds(m, xs[i]),
    ensures
        !holds(m, Gate::And(xs)),
{
    assert(Gate::And(xs)->And_0[i] == xs[i]);
}

proof fn lemma_or_holds(m: Progress, xs: Seq<Gate>, i: int)
    requires
        0 <= i < xs.len(),
        holds(m, xs[i]),
    ensures
        holds(m, Gate::Or(xs)),
{
    assert(Gate::Or(xs)->Or_0[i] == xs[i]);
}

proof fn lemma_all_fails(m: Progress, set: PuzzleSet, ids: Seq<PuzzleId>, i: int)
    requires
        0 <= i < ids.len(),
        members(m, set) == Some(ids),
        !m.solved.contains(ids[i]),
    ensures
        !holds(m, Gate::AllSolved(set)),
{
    assert(members(m, set)->0[i] == ids[i]);
}

proof fn lemma_any_holds(m: Progress, set: PuzzleSet, ids: Seq<PuzzleId>, i: int)
    requires
        0 <= i < ids.len(),
        members(m, set) == Some(ids),
        m.solved.contains(ids[i]),
    ensures
        holds(m, Gate::AnySolved(set)),
{
    assert(members(m, set)->0[i] == ids[i]);
}

proof fn lemma_hint_and_fails(m: Progress, xs: Seq<Hint>, i: int, e: bool, c: bool)
    requires
        0 <= i < xs.len(),
        !hint_holds(m, xs[i], e, c),
    ensures
        !hint_holds(m, Hint::And(xs), e, c),
{
    assert(Hint::And(xs)->And_0[i] == xs[i]);
}

proof fn lemma_hint_or_holds(m: Progress, xs: Seq<Hint>, i: int, e: bool, c: bool)
    requires
        0 <= i < xs.len(),
        hint_holds(m, xs[i], e, c),
    ensures
        hint_holds(m, Hint::Or(xs), e, c),
{
    assert(Hint::Or(xs)->Or_0[i] == xs[i]);
}

proof fn lemma_and_asks(xs: Seq<Hint>, i: int)
    requires
        0 <= i < xs.len(),
        asks_cooldown(xs[i]),
    ensures
        asks_cooldown(Hint::And(xs)),
{
    assert(Hint::And(xs)->And_0[i] == xs[i]);
}

proof fn lemma_or_asks(xs: Seq<Hint>, i: int)
    requires
        0 <= i < xs.len(),
        asks_cooldown(xs[i]),
    ensures
        asks_cooldown(Hint::Or(xs)),
{
    assert(Hint::Or(xs)->Or_0[i] == xs[i]);
}

fn compare_counts(op: CmpOp, lhs: usize, rhs: usize) -> (r: bool)
    ensures
        r == compares(op, lhs as int, rhs as int),
{
    match op {
        CmpOp::Gt => lhs > rhs,
        CmpOp::Ge => lhs >= rhs,
        CmpOp::Lt => lhs < rhs,
        CmpOp::Le => lhs <= rhs,
        CmpOp::Eq => lhs == rhs,
        CmpOp::Ne => lhs != rhs,
    }
}

fn resolve_puzzle<S: PuzzleStates>(state: &S, puzzle: &PuzzleRef) -> (r: Option<PuzzleId>)
    ensures
        r == named_puzzle(state.progress(), puzzle@),
{
    match puzzle {
        PuzzleRef::Id(id) => Some(*id),
        PuzzleRef::Slug(slug) => state.puzzle_slug(slug.as_str()),
    }
}

fn resolve_round<S: PuzzleStates>(state: &S, round: &RoundRef) -> (r: Option<Vec<PuzzleId>>)
    ensures
        match r {
            Some(v) => named_round(state.progress(), round@) == Some(v@),
            None => named_round(state.progress(), round@) is None,
        },
{
    match round {
        RoundRef::Id(id) => state.round_puzzles(*id),
        RoundRef::Slug(slug) => match state.round_slug(slug.as_str()) {
            Some(id) => state.round_puzzles(id),
            None => None,
        },
    }
}

fn numbers_between(low: PuzzleId, high: PuzzleId) -> (r: Vec<PuzzleId>)
    requires
        low <= high,
    ensures
        r@ == span(low, high),
{
    let mut ids: Vec<PuzzleId> = Vec::new();
    let mut id: PuzzleId = low;
    while id < high
        invariant
            low <= id <= high,
            ids@ == span(low, high).take(id - low),
        decreases high - id,
    {
        ids.push(id);
        assert(ids@ =~= span(low, high).take(id + 1 - low));
        id += 1;
    }
    ids.push(high);
    assert(ids@ =~= span(low, high));
    ids
}

/// The puzzles of a set.
pub fn materialize_set<S: PuzzleStates>(state: &S, set: &SetExpr) -> (r: Option<Vec<PuzzleId>>)
    ensures
        match r {
            Some(v) => members(state.progress(), set@) == Some(v@),
            None => members(state.progress(), set@) is None,
        },
{
    match set {
        SetExpr::Puzzles(v) => {
            let ghost m = state.progress();
            let ghost names = names_view(v@);
            let mut ids: Vec<PuzzleId> = Vec::new();
            let mut i: usize = 0;
            while i < v.len()
                invariant
                    i <= v@.len(),
                    m == state.progress(),
                    names == names_view(v@),
                    set@ == PuzzleSet::Puzzles(names),
                    ids@.len() == i,
                    forall|k: int| 0 <= k < i ==> named_puzzle(m, #[trigger] names[k]) is Some,
                    forall|k: int|
                        0 <= k < i ==> #[trigger] ids@[k] == named_puzzle(m, names[k])->0,
                decreases v@.len() - i,
            {
                assert(names[i as int] == v@[i as int]@);
                match resolve_puzzle(state, &v[i]) {
                    Some(id) => {
                        ids.push(id);
                    },
                    None => {
                        return None;
                    },
                }
                i += 1;
            }
            assert(ids@ =~= Seq::new(names.len(), |k: int| named_puzzle(m, names[k])->0));
            Some(ids)
        },
        SetExpr::PuzzleRange { start, end } => {
            let a: PuzzleId = *start;
            let b: PuzzleId = *end;
            if a <= b {
                Some(numbers_between(a, b))
            } else {
                assert(span(a, b) =~= span(b, a));
                Some(numbers_between(b, a))
            }
        },
        SetExpr::Round(round) => resolve_round(state, round),
    }
}

/// The number that a value expression stands for.
pub fn eval_value<S: PuzzleStates>(state: &S, expr: &ValueExpr) -> (r: CountSize)
    ensures
        r == value_in(state.progress(), expr@),
{
    match expr {
        ValueExpr::SolvedCount(set) => {
            let ghost m = state.progress();
            let ghost pred = |id: PuzzleId| m.solved.contains(id);
            match materialize_set(state, set) {
                None => 0,
                Some(ids) => {
                    let mut count: usize = 0;
                    let mut i: usize = 0;
                    assert(ids@.take(0).filter(pred).len() == 0) by {
                        reveal(Seq::filter);
                    }
                    while i < ids.len()
                        invariant
                            m == state.progress(),
                            pred == (|id: PuzzleId| m.solved.contains(id)),
                            i <= ids@.len(),
                            count <= i,
                            count == ids@.take(i as int).filter(pred).len(),
                        decreases ids@.len() - i,
                    {
                        proof {
                            reveal(Seq::filter);
                            assert(ids@.take(i + 1).drop_last() == ids@.take(i as int));
                            assert(ids@.take(i + 1).last() == ids@[i as int]);
                        }
                        if state.is_solved(ids[i]) {
                            count += 1;
                        }
                        i += 1;
                    }
                    assert(ids@.take(i as int) == ids@);
                    count
                },
            }
        },
        ValueExpr::Number(n) => *n,
    }
}

/// Whether a compiled gate is open.
pub fn eval_compiled<S: PuzzleStates>(state: &S, expr: &GateExpr) -> (r: bool)
    ensures
        r == holds(state.progress(), expr@),
    decreases expr,
{
    let ghost m = state.progress();
    match expr {
        GateExpr::True => true,
        GateExpr::False => false,
        GateExpr::And(xs) => {
            proof {
                lemma_gate_and_view(*xs);
            }
            let mut i: usize = 0;
            while i < xs.len()
                invariant
                    i <= xs@.len(),
                    *expr == GateExpr::And(*xs),
                    m == state.progress(),
                    expr@ == Gate::And(gates_view(xs@)),
                    forall|k: int| 0 <= k < i ==> holds(m, #[trigger] gates_view(xs@)[k]),
                decreases xs@.len() - i,
            {
                assert(gates_view(xs@)[i as int] == xs@[i as int]@);
                if !eval_compiled(state, &xs[i]) {
                    proof {
                        lemma_and_fails(m, gates_view(xs@), i as int);
                    }
                    return false;
                }
                i += 1;
            }
            true
        },
        GateExpr::Or(xs) => {
            proof {
                lemma_gate_or_view(*xs);
            }
            let mut i: usize = 0;
            while i < xs.len()
                invariant
                    i <= xs@.len(),
                    *expr == GateExpr::Or(*xs),
                    m == state.progress(),
                    expr@ == Gate::Or(gates_view(xs@)),
                    forall|k: int| 0 <= k < i ==> !holds(m, #[trigger] gates_view(xs@)[k]),
                decreases xs@.len() - i,
            {
                assert(gates_view(xs@)[i as int] == xs@[i as int]@);
                if eval_compiled(state, &xs[i]) {
                    proof {
                        lemma_or_holds(m, gates_view(xs@), i as int);
                    }
                    return true;
                }
                i += 1;
            }
            false
        },
        GateExpr::Not(x) => !eval_compiled(state, x),
        GateExpr::Solved(puzzle) => match resolve_puzzle(state, puzzle) {
            Some(id) => state.is_solved(id),
            None => false,
        },
        GateExpr::AllSolved(set) => match materialize_set(state, set) {
            None => false,
            Some(ids) => {
                let mut i: usize = 0;
                while i < ids.len()
                    invariant
                        i <= ids@.len(),
                        m == state.progress(),
                        members(m, set@) == Some(ids@),
                        expr@ == Gate::AllSolved(set@),
                        forall|k: int| 0 <= k < i ==> m.solved.contains(#[trigger] ids@[k]),
                    decreases ids@.len() - i,
                {
                    if !state.is_solved(ids[i]) {
                        proof {
                            lemma_all_fails(m, set@, ids@, i as int);
                        }
                        return false;
                    }
                    i += 1;
                }
                true
            },
        },
        GateExpr::AnySolved(set) => match materialize_set(state, set) {
            None => false,
            Some(ids) => {
                let mut i: usize = 0;
                while i < ids.len()
                    invariant
                        i <= ids@.len(),
                        m == state.progress(),
                        members(m, set@) == Some(ids@),
                        expr@ == Gate::AnySolved(set@),
                        forall|k: int| 0 <= k < i ==> !m.solved.contains(#[trigger] ids@[k]),
                    decreases ids@.len() - i,
                {
                    if state.is_solved(ids[i]) {
                        proof {
                            lemma_any_holds(m, set@, ids@, i as int);
                        }
                        return true;
                    }
                    i += 1;
                }
                false
            },
        },
        GateExpr::GameStarted => state.game_started(),
        GateExpr::Triggered(puzzle, key) => match resolve_puzzle(state, puzzle) {
            Some(id) => state.is_triggered(id, key.as_str()),
            None => false,
        },
        GateExpr::Cmp { op, lhs, rhs } => compare_counts(
            *op,
            eval_value(state, lhs),
            eval_value(state, rhs),
        ),
    }
}

/// Whether a hint is shown.
pub fn eval_hint_display_compiled<S: PuzzleStates>(
    state: &S,
    expr: &HintDisplayExpr,
    enabled: bool,
    cooled_down: bool,
) -> (r: bool)
    ensures
        r == hint_holds(state.progress(), expr@, enabled, cooled_down),
    decreases expr,
{
    let ghost m = state.progress();
    match expr {
        HintDisplayExpr::Gate(g) => eval_compiled(state, g),
        HintDisplayExpr::HintEnabled => enabled,
        HintDisplayExpr::HintCooledDown => cooled_down,
        HintDisplayExpr::And(xs) => {
            proof {
                lemma_hint_and_view(*xs);
            }
            let mut i: usize = 0;
            while i < xs.len()
                invariant
                    i <= xs@.len(),
                    *expr == HintDisplayExpr::And(*xs),
                    m == state.progress(),
                    expr@ == Hint::And(hints_view(xs@)),
                    forall|k: int|
                        0 <= k < i ==> hint_holds(
                            m,
                            #[trigger] hints_view(xs@)[k],
                            enabled,
                            cooled_down,
                        ),
                decreases xs@.len() - i,
            {
                assert(hints_view(xs@)[i as int] == xs@[i as int]@);
                if !eval_hint_display_compiled(state, &xs[i], enabled, cooled_down) {
                    proof {
                        lemma_hint_and_fails(
                            m,
                            hints_view(xs@),
                            i as int,
                            enabled,
                            cooled_down,
                        );
                    }
                    return false;
                }
                i += 1;
            }
            true
        },
        HintDisplayExpr::Or(xs) => {
            proof {
                lemma_hint_or_view(*xs);
            }
            let mut i: usize = 0;
            while i < xs.len()
                invariant
                    i <= xs@.len(),
                    *expr == HintDisplayExpr::Or(*xs),
                    m == state.progress(),
                    expr@ == Hint::Or(hints_view(xs@)),
                    forall|k: int|
                        0 <= k < i ==> !hint_holds(
                            m,
                            #[trigger] hints_view(xs@)[k],
                            enabled,
                            cooled_down,
                        ),
                decreases xs@.len() - i,
            {
                assert(hints_view(xs@)[i as int] == xs@[i as int]@);
                if eval_hint_display_compiled(state, &xs[i], enabled, cooled_down) {
                    proof {
                        lemma_hint_or_holds(
                            m,
                            hints_view(xs@),
                            i as int,
                            enabled,
                            cooled_down,
                        );
                    }
                    return true;
                }
                i += 1;
            }
            false
        },
        HintDisplayExpr::Not(x) => !eval_hint_display_compiled(state, x, enabled, cooled_down),
    }
}

/// Whether a hint expression asks if the hint has cooled down.
pub fn hint_display_uses_cooldown(expr: &HintDisplayExpr) -> (r: bool)
    ensures
        r == asks_cooldown(expr@),
    decreases expr,
{
    match expr {
        HintDisplayExpr::HintCooledDown => true,
        HintDisplayExpr::And(xs) => {
            proof {
                lemma_hint_and_view(*xs);
            }
            let mut i: usize = 0;
            while i < xs.len()
                invariant
                    i <= xs@.len(),
                    *expr == HintDisplayExpr::And(*xs),
                    expr@ == Hint::And(hints_view(xs@)),
                    forall|k: int| 0 <= k < i ==> !asks_cooldown(#[trigger] hints_view(xs@)[k]),
                decreases xs@.len() - i,
            {
                assert(hints_view(xs@)[i as int] == xs@[i as int]@);
                if hint_display_uses_cooldown(&xs[i]) {
                    proof {
                        lemma_and_asks(hints_view(xs@), i as int);
                    }
                    return true;
                }
                i += 1;
            }
            false
        },
        HintDisplayExpr::Or(xs) => {
            proof {
                lemma_hint_or_view(*xs);
            }
            let mut i: usize = 0;
            while i < xs.len()
                invariant
                    i <= xs@.len(),
                    *expr == HintDisplayExpr::Or(*xs),
                    expr@ == Hint::Or(hints_view(xs@)),
                    forall|k: int| 0 <= k < i ==> !asks_cooldown(#[trigger] hints_view(xs@)[k]),
                decreases xs@.len() - i,
            {
                assert(hints_view(xs@)[i as int] == xs@[i as int]@);
                if hint_display_uses_cooldown(&xs[i]) {
                    proof {
                        lemma_or_asks(hints_view(xs@), i as int);
                    }
                    return true;
                }
                i += 1;
            }
            false
        },
        HintDisplayExpr::Not(x) => hint_display_uses_cooldown(x),
        _ => false,
    }
}

/// A hint expression that does not ask about the cooldown shows the hint or not regardless of it.
pub proof fn cooldown_matters_only_where_asked(m: Progress, h: Hint, enabled: bool)
    requires
        !asks_cooldown(h),
    ensures
        hint_holds(m, h, enabled, true) == hint_holds(m, h, enabled, false),
    decreases h,
{
    match h {
        Hint::And(xs) => {
            assert forall|i: int| 0 <= i < xs.len() implies hint_holds(
                m,
                #[trigger] xs[i],
                enabled,
                true,
            ) == hint_holds(m, xs[i], enabled, false) by {
                cooldown_matters_only_where_asked(m, xs[i], enabled);
            }
        },
        Hint::Or(xs) => {
            assert forall|i: int| 0 <= i < xs.len() implies hint_holds(
                m,
                #[trigger] xs[i],
                enabled,
                true,
            ) == hint_holds(m, xs[i], enabled, false) by {
                cooldown_matters_only_where_asked(m, xs[i], enabled);
            }
            if hint_holds(m, h, enabled, true) {
                let i = choose|i: int|
                    0 <= i < xs.len() && hint_holds(m, #[trigger] xs[i], enabled, true);
                assert(hint_holds(m, xs[i], enabled, false));
            }
            if hint_holds(m, h, enabled, false) {
                let i = choose|i: int|
                    0 <= i < xs.len() && hint_holds(m, #[trigger] xs[i], enabled, false);
                assert(hint_holds(m, xs[i], enabled, true));
            }
        },
        Hint::Not(x) => {
            cooldown_matters_only_where_asked(m, *x, enabled);
        },
        _ => {},
    }
}

/// Whether a gate asks only for solved puzzles to be solved: it denies nothing, and compares only
/// whether at least or more than a number of puzzles are solved.
pub open spec fn asks_for_more(g: Gate) -> bool
    decreases g,
{
    match g {
        Gate::And(xs) => forall|i: int| 0 <= i < xs.len() ==> asks_for_more(#[trigger] xs[i]),
        Gate::Or(xs) => forall|i: int| 0 <= i < xs.len() ==> asks_for_more(#[trigger] xs[i]),
        Gate::Not(_) => false,
        Gate::Cmp(op, a, b) => (op is Gt || op is Ge) && a is SolvedCount && b is Number,
        _ => true,
    }
}

/// Whether nothing but more solved puzzles tells one progress from another.
pub open spec fn has_solved_more(m: Progress, n: Progress) -> bool {
    &&& m.solved.subset_of(n.solved)
    &&& n == (Progress { solved: n.solved, ..m })
}

proof fn lemma_solved_among(m: Progress, n: Progress, ids: Seq<PuzzleId>)
    requires
        m.solved.subset_of(n.solved),
    ensures
        solved_among(m, ids) <= solved_among(n, ids),
    decreases ids.len(),
{
    reveal(Seq::filter);
    if ids.len() > 0 {
        lemma_solved_among(m, n, ids.drop_last());
    }
}

/// Solving more puzzles never closes a gate that asks only for puzzles to be solved.
pub proof fn solving_more_closes_no_gate(m: Progress, n: Progress, g: Gate)
    requires
        asks_for_more(g),
        has_solved_more(m, n),
        holds(m, g),
    ensures
        holds(n, g),
    decreases g,
{
    assert(forall|name: Name| #[trigger] named_puzzle(n, name) == named_puzzle(m, name));
    match g {
        Gate::And(xs) => {
            assert forall|i: int| 0 <= i < xs.len() implies holds(n, #[trigger] xs[i]) by {
                assert(holds(m, xs[i]));
                assert(asks_for_more(xs[i]));
                solving_more_closes_no_gate(m, n, xs[i]);
            }
        },
        Gate::Or(xs) => {
            let i = choose|i: int| 0 <= i < xs.len() && holds(m, #[trigger] xs[i]);
            assert(asks_for_more(xs[i]));
            solving_more_closes_no_gate(m, n, xs[i]);
            assert(holds(n, xs[i]));
        },
        Gate::AllSolved(set) => {
            lemma_same_members(m, n, set);
        },
        Gate::AnySolved(set) => {
            lemma_same_members(m, n, set);
            let ids = members(m, set)->0;
            let i = choose|i: int| 0 <= i < ids.len() && m.solved.contains(#[trigger] ids[i]);
            assert(n.solved.contains(ids[i]));
        },
        Gate::Cmp(op, a, b) => {
            let set = a->SolvedCount_0;
            lemma_same_members(m, n, set);
            if let Some(ids) = members(m, set) {
                lemma_solved_among(m, n, ids);
            }
        },
        _ => {},
    }
}

proof fn lemma_same_members(m: Progress, n: Progress, set: PuzzleSet)
    requires
        has_solved_more(m, n),
    ensures
        members(n, set) == members(m, set),
{
    if let PuzzleSet::Puzzles(v) = set {
        assert(forall|i: int|
            0 <= i < v.len() ==> named_puzzle(n, #[trigger] v[i]) == named_puzzle(m, v[i]));
        if members(m, set) is Some {
            assert(members(n, set)->0 =~= members(m, set)->0);
        }
    }
}

/// A gate on any puzzle of a set is open exactly where the set is known and a puzzle of it is
/// solved, which is where more than none of its puzzles are solved.
pub proof fn any_solved_asks_for_one(m: Progress, set: PuzzleSet)
    ensures
        holds(m, Gate::AnySolved(set)) <==> members(m, set) is Some && exists|id: PuzzleId|
            #[trigger] members(m, set)->0.contains(id) && m.solved.contains(id),
        holds(m, Gate::AnySolved(set)) <==> holds(
            m,
            Gate::Cmp(CmpOp::Gt, Value::SolvedCount(set), Value::Number(0)),
        ),
{
    if let Some(ids) = members(m, set) {
        lemma_solved_count(m, ids);
        if holds(m, Gate::AnySolved(set)) {
            let i = choose|i: int| 0 <= i < ids.len() && m.solved.contains(#[trigger] ids[i]);
            assert(ids.contains(ids[i]));
        }
        if exists|id: PuzzleId| #[trigger] ids.contains(id) && m.solved.contains(id) {
            let id = choose|id: PuzzleId| #[trigger] ids.contains(id) && m.solved.contains(id);
            let i = choose|i: int| 0 <= i < ids.len() && ids[i] == id;
            assert(m.solved.contains(ids[i]));
        }
    }
}

proof fn lemma_solved_count(m: Progress, ids: Seq<PuzzleId>)
    ensures
        solved_among(m, ids) <= ids.len(),
        solved_among(m, ids) == 0 <==> forall|i: int|
            0 <= i < ids.len() ==> !m.solved.contains(#[trigger] ids[i]),
        solved_among(m, ids) == ids.len() <==> forall|i: int|
            0 <= i < ids.len() ==> m.solved.contains(#[trigger] ids[i]),
    decreases ids.len(),
{
    reveal(Seq::filter);
    if ids.len() > 0 {
        let init = ids.drop_last();
        lemma_solved_count(m, init);
        assert(forall|i: int| 0 <= i < init.len() ==> #[trigger] init[i] == ids[i]);
        assert(ids[ids.len() - 1] == ids.last());
        if forall|i: int| 0 <= i < ids.len() ==> !m.solved.contains(#[trigger] ids[i]) {
            assert forall|i: int| 0 <= i < init.len() implies !m.solved.contains(
                #[trigger] init[i],
            ) by {
                assert(!m.solved.contains(ids[i]));
            }
        }
        if solved_among(m, ids) == 0 {
            assert forall|i: int| 0 <= i < ids.len() implies !m.solved.contains(
                #[trigger] ids[i],
            ) by {
                if i < init.len() {
                    assert(!m.solved.contains(init[i]));
                }
            }
        }
        if forall|i: int| 0 <= i < ids.len() ==> m.solved.contains(#[trigger] ids[i]) {
            assert forall|i: int| 0 <= i < init.len() implies m.solved.contains(
                #[trigger] init[i],
            ) by {
                assert(m.solved.contains(ids[i]));
            }
        }
        if solved_among(m, ids) == ids.len() {
            assert forall|i: int| 0 <= i < ids.len() implies m.solved.contains(
                #[trigger] ids[i],
            ) by {
                if i < init.len() {
                    assert(m.solved.contains(init[i]));
                }
            }
        }
    }
}

/// A gate on all puzzles of a set is open exactly where the set is known and no puzzle of it is
/// left unsolved, which is where as many are solved as there are.
pub proof fn all_solved_leaves_none(m: Progress, set: PuzzleSet)
    ensures
        holds(m, Gate::AllSolved(set)) <==> members(m, set) is Some && forall|id: PuzzleId|
            #[trigger] members(m, set)->0.contains(id) ==> m.solved.contains(id),
        members(m, set) matches Some(ids) ==> (holds(m, Gate::AllSolved(set)) <==> value_in(
            m,
            Value::SolvedCount(set),
        ) == ids.len()),
{
    if let Some(ids) = members(m, set) {
        lemma_solved_count(m, ids);
        if forall|id: PuzzleId| #[trigger] ids.contains(id) ==> m.solved.contains(id) {
            assert forall|i: int| 0 <= i < ids.len() implies m.solved.contains(
                #[trigger] ids[i],
            ) by {
                assert(ids.contains(ids[i]));
            }
        }
    }
}

/// How many puzzles of a set are solved: none where the set is unknown, and one more with each
/// puzzle of it that is solved.
pub proof fn solved_puzzles_are_counted(m: Progress, set: PuzzleSet, ids: Seq<PuzzleId>, id: PuzzleId)
    ensures
        members(m, set) is None ==> value_in(m, Value::SolvedCount(set)) == 0,
        members(m, set) == Some(Seq::<PuzzleId>::empty()) ==> value_in(m, Value::SolvedCount(set))
            == 0,
        members(m, set) == Some(ids) ==> value_in(m, Value::SolvedCount(set)) == solved_among(
            m,
            ids,
        ),
        solved_among(m, ids.push(id)) == solved_among(m, ids) + (if m.solved.contains(id) {
            1int
        } else {
            0
        }),
        forall|n: CountSize| #[trigger] value_in(m, Value::Number(n)) == n,
{
    reveal(Seq::filter);
    assert(ids.push(id).drop_last() =~= ids);
}

/// The puzzles of a set: a list holds the puzzles that its names stand for and is unknown where one
/// of them stands for none, a range holds every number from one end to the other, each once, and a
/// round holds the puzzles that stand under it.
pub proof fn sets_hold_what_they_name(
    m: Progress,
    names: Seq<Name>,
    a: PuzzleId,
    b: PuzzleId,
    round: Name,
)
    ensures
        members(m, PuzzleSet::Puzzles(names)) is Some <==> forall|i: int|
            0 <= i < names.len() ==> named_puzzle(m, #[trigger] names[i]) is Some,
        members(m, PuzzleSet::Puzzles(names)) matches Some(ids) ==> ids.len() == names.len()
            && forall|i: int|
            0 <= i < names.len() ==> named_puzzle(m, #[trigger] names[i]) == Some(ids[i]),
        members(m, PuzzleSet::Range(a, b)) matches Some(ids) && (forall|id: PuzzleId| #[trigger]
            ids.contains(id) <==> (a <= id <= b || b <= id <= a)) && ids.no_duplicates(),
        members(m, PuzzleSet::Round(round)) == (match round {
            Name::Id(id) => if m.round_puzzles.dom().contains(id) {
                Some(m.round_puzzles[id])
            } else {
                None
            },
            Name::Slug(slug) => if m.round_slugs.dom().contains(slug)
                && m.round_puzzles.dom().contains(m.round_slugs[slug]) {
                Some(m.round_puzzles[m.round_slugs[slug]])
            } else {
                None
            },
        }),
{
    let ids = span(a, b);
    let low = if a <= b {
        a
    } else {
        b
    };
    assert forall|id: PuzzleId| #[trigger] ids.contains(id) <==> (a <= id <= b || b <= id <= a) by {
        if ids.contains(id) {
            let i = choose|i: int| 0 <= i < ids.len() && ids[i] == id;
            assert(id == low + i);
        }
        if a <= id <= b || b <= id <= a {
            assert(ids[id - low] == id);
        }
    }
}

/// What a name stands for: a number for the puzzle of that number, and a slug for the puzzle that
/// bears it.
pub proof fn names_stand_for_puzzles(m: Progress, id: PuzzleId, slug: Seq<char>)
    ensures
        named_puzzle(m, Name::Id(id)) == Some(id),
        m.puzzle_slugs.dom().contains(slug) ==> named_puzzle(m, Name::Slug(slug)) == Some(
            m.puzzle_slugs[slug],
        ),
        !m.puzzle_slugs.dom().contains(slug) ==> named_puzzle(m, Name::Slug(slug)) is None,
        holds(m, Gate::Solved(Name::Id(id))) <==> m.solved.contains(id),
        holds(m, Gate::Solved(Name::Slug(slug))) <==> m.puzzle_slugs.dom().contains(slug)
            && m.solved.contains(m.puzzle_slugs[slug]),
{
}

/// Triggers and the start of the game open the gates that ask for them.
pub proof fn gates_ask_for_triggers_and_the_start(
    m: Progress,
    id: PuzzleId,
    slug: Seq<char>,
    key: Seq<char>,
)
    ensures
        holds(m, Gate::GameStarted) <==> m.game_started,
        holds(m, Gate::Triggered(Name::Id(id), key)) <==> m.triggered.contains((id, key)),
        holds(m, Gate::Triggered(Name::Slug(slug), key)) <==> m.puzzle_slugs.dom().contains(slug)
            && m.triggered.contains((m.puzzle_slugs[slug], key)),
{
}

proof fn lemma_joined(m: Progress, xs: Seq<Gate>)
    ensures
        holds(m, Gate::And(xs)) <==> forall|i: int| 0 <= i < xs.len() ==> holds(m, #[trigger] xs[i]),
        holds(m, Gate::Or(xs)) <==> exists|i: int| 0 <= i < xs.len() && holds(m, #[trigger] xs[i]),
{
    let a = Gate::And(xs);
    if holds(m, a) {
        assert forall|i: int| 0 <= i < xs.len() implies holds(m, #[trigger] xs[i]) by {
            assert(a->And_0[i] == xs[i]);
        }
    }
    if exists|i: int| 0 <= i < xs.len() && holds(m, #[trigger] xs[i]) {
        let i = choose|i: int| 0 <= i < xs.len() && holds(m, #[trigger] xs[i]);
        lemma_or_holds(m, xs, i);
    }
}

proof fn lemma_hints_joined(m: Progress, xs: Seq<Hint>, e: bool, c: bool)
    ensures
        hint_holds(m, Hint::And(xs), e, c) <==> forall|i: int|
            0 <= i < xs.len() ==> hint_holds(m, #[trigger] xs[i], e, c),
        hint_holds(m, Hint::Or(xs), e, c) <==> exists|i: int|
            0 <= i < xs.len() && hint_holds(m, #[trigger] xs[i], e, c),
{
    let a = Hint::And(xs);
    if hint_holds(m, a, e, c) {
        assert forall|i: int| 0 <= i < xs.len() implies hint_holds(m, #[trigger] xs[i], e, c) by {
            assert(a->And_0[i] == xs[i]);
        }
    }
    if exists|i: int| 0 <= i < xs.len() && hint_holds(m, #[trigger] xs[i], e, c) {
        let i = choose|i: int| 0 <= i < xs.len() && hint_holds(m, #[trigger] xs[i], e, c);
        lemma_hint_or_holds(m, xs, i, e, c);
    }
}

/// Connectives of gates: one more part must hold as well for a conjunction and may hold instead for
/// a disjunction, a conjunction of nothing is open, a disjunction of nothing is closed, and a
/// negation is open where what it denies is closed.
pub proof fn gates_are_joined(m: Progress, xs: Seq<Gate>, g: Gate)
    ensures
        holds(m, Gate::True),
        !holds(m, Gate::False),
        holds(m, Gate::And(Seq::empty())),
        !holds(m, Gate::Or(Seq::empty())),
        holds(m, Gate::And(xs.push(g))) <==> holds(m, Gate::And(xs)) && holds(m, g),
        holds(m, Gate::Or(xs.push(g))) <==> holds(m, Gate::Or(xs)) || holds(m, g),
        holds(m, Gate::Not(Box::new(g))) <==> !holds(m, g),
{
    let more = xs.push(g);
    lemma_joined(m, xs);
    lemma_joined(m, more);
    lemma_joined(m, Seq::empty());
    assert(more[xs.len() as int] == g);
    assert(forall|i: int| 0 <= i < xs.len() ==> #[trigger] more[i] == xs[i]);
    if holds(m, Gate::And(more)) {
        assert forall|i: int| 0 <= i < xs.len() implies holds(m, #[trigger] xs[i]) by {
            assert(holds(m, more[i]));
        }
    }
    if holds(m, Gate::Or(xs)) {
        let i = choose|i: int| 0 <= i < xs.len() && holds(m, #[trigger] xs[i]);
        assert(holds(m, more[i]));
    }
    if holds(m, Gate::Or(more)) && !holds(m, g) {
        let i = choose|i: int| 0 <= i < more.len() && holds(m, #[trigger] more[i]);
        assert(holds(m, xs[i]));
    }
    assert(Gate::And(Seq::<Gate>::empty())->And_0.len() == 0);
    assert(Gate::Or(Seq::<Gate>::empty())->Or_0.len() == 0);
}

/// Comparisons compare numbers, each operator by its own sense.
pub proof fn comparisons_mean_what_they_say(m: Progress, a: Value, b: Value)
    ensures
        holds(m, Gate::Cmp(CmpOp::Gt, a, b)) <==> value_in(m, a) > value_in(m, b),
        holds(m, Gate::Cmp(CmpOp::Lt, a, b)) <==> holds(m, Gate::Cmp(CmpOp::Gt, b, a)),
        holds(m, Gate::Cmp(CmpOp::Ge, a, b)) <==> !holds(m, Gate::Cmp(CmpOp::Lt, a, b)),
        holds(m, Gate::Cmp(CmpOp::Le, a, b)) <==> !holds(m, Gate::Cmp(CmpOp::Gt, a, b)),
        holds(m, Gate::Cmp(CmpOp::Eq, a, b)) <==> holds(m, Gate::Cmp(CmpOp::Ge, a, b)) && holds(
            m,
            Gate::Cmp(CmpOp::Le, a, b),
        ),
        holds(m, Gate::Cmp(CmpOp::Ne, a, b)) <==> !holds(m, Gate::Cmp(CmpOp::Eq, a, b)),
{
}

/// Conditions of hints: a gate counts as it stands, whether the hint is enabled and whether it has
/// cooled down count as they are, and connectives join them as they join gates.
pub proof fn hint_conditions_are_joined(
    m: Progress,
    xs: Seq<Hint>,
    h: Hint,
    g: Gate,
    enabled: bool,
    cooled_down: bool,
)
    ensures
        hint_holds(m, Hint::Gate(g), enabled, cooled_down) == holds(m, g),
        hint_holds(m, Hint::HintEnabled, enabled, cooled_down) == enabled,
        hint_holds(m, Hint::HintCooledDown, enabled, cooled_down) == cooled_down,
        hint_holds(m, Hint::And(Seq::empty()), enabled, cooled_down),
        !hint_holds(m, Hint::Or(Seq::empty()), enabled, cooled_down),
        hint_holds(m, Hint::And(xs.push(h)), enabled, cooled_down) <==> hint_holds(
            m,
            Hint::And(xs),
            enabled,
            cooled_down,
        ) && hint_holds(m, h, enabled, cooled_down),
        hint_holds(m, Hint::Or(xs.push(h)), enabled, cooled_down) <==> hint_holds(
            m,
            Hint::Or(xs),
            enabled,
            cooled_down,
        ) || hint_holds(m, h, enabled, cooled_down),
        hint_holds(m, Hint::Not(Box::new(h)), enabled, cooled_down) <==> !hint_holds(
            m,
            h,
            enabled,
            cooled_down,
        ),
{
    let more = xs.push(h);
    lemma_hints_joined(m, xs, enabled, cooled_down);
    lemma_hints_joined(m, more, enabled, cooled_down);
    lemma_hints_joined(m, Seq::empty(), enabled, cooled_down);
    assert(more[xs.len() as int] == h);
    assert(forall|i: int| 0 <= i < xs.len() ==> #[trigger] more[i] == xs[i]);
    if hint_holds(m, Hint::And(more), enabled, cooled_down) {
        assert forall|i: int| 0 <= i < xs.len() implies hint_holds(
            m,
            #[trigger] xs[i],
            enabled,
            cooled_down,
        ) by {
            assert(hint_holds(m, more[i], enabled, cooled_down));
        }
    }
    if hint_holds(m, Hint::Or(xs), enabled, cooled_down) {
        let i = choose|i: int|
            0 <= i < xs.len() && hint_holds(m, #[trigger] xs[i], enabled, cooled_down);
        assert(hint_holds(m, more[i], enabled, cooled_down));
    }
    if hint_holds(m, Hint::Or(more), enabled, cooled_down) && !hint_holds(
        m,
        h,
        enabled,
        cooled_down,
    ) {
        let i = choose|i: int|
            0 <= i < more.len() && hint_holds(m, #[trigger] more[i], enabled, cooled_down);
        assert(hint_holds(m, xs[i], enabled, cooled_down));
    }
    assert(Hint::And(Seq::<Hint>::empty())->And_0.len() == 0);
    assert(Hint::Or(Seq::<Hint>::empty())->Or_0.len() == 0);
}

/// A condition of a hint asks for the cooldown exactly where a part of it does.
pub proof fn cooldown_is_asked_for_in_parts(xs: Seq<Hint>, h: Hint, g: Gate)
    ensures
        asks_cooldown(Hint::HintCooledDown),
        !asks_cooldown(Hint::HintEnabled),
        !asks_cooldown(Hint::Gate(g)),
        asks_cooldown(Hint::Not(Box::new(h))) == asks_cooldown(h),
        asks_cooldown(Hint::And(xs)) == asks_cooldown(Hint::Or(xs)),
        !asks_cooldown(Hint::And(Seq::empty())),
        asks_cooldown(Hint::And(xs.push(h))) <==> asks_cooldown(Hint::And(xs)) || asks_cooldown(h),
{
    let more = xs.push(h);
    assert(more[xs.len() as int] == h);
    assert(forall|i: int| 0 <= i < xs.len() ==> #[trigger] more[i] == xs[i]);
    let (a, o, b) = (Hint::And(xs), Hint::Or(xs), Hint::And(more));
    if asks_cooldown(a) {
        let i = choose|i: int| 0 <= i < xs.len() && asks_cooldown(#[trigger] a->And_0[i]);
        lemma_or_asks(xs, i);
        lemma_and_asks(more, i);
    }
    if asks_cooldown(o) {
        let i = choose|i: int| 0 <= i < xs.len() && asks_cooldown(#[trigger] o->Or_0[i]);
        lemma_and_asks(xs, i);
    }
    if asks_cooldown(h) {
        lemma_and_asks(more, xs.len() as int);
    }
    if asks_cooldown(b) && !asks_cooldown(h) {
        let i = choose|i: int| 0 <= i < more.len() && asks_cooldown(#[trigger] b->And_0[i]);
        lemma_and_asks(xs, i);
    }
    assert(Hint::And(Seq::<Hint>::empty())->And_0.len() == 0);
}

/// Expressions stand for what they say: each kind of set, value and condition for the one of its name,
/// with its parts in their order.
pub proof fn expressions_stand_for_what_they_say(
    names: Vec<PuzzleRef>,
    start: PuzzleId,
    end: PuzzleId,
    round: RoundRef,
    set: SetExpr,
    n: CountSize,
    puzzle: PuzzleRef,
    key: String,
    op: CmpOp,
    lhs: ValueExpr,
    rhs: ValueExpr,
)
    ensures
        SetExpr::Puzzles(names)@ matches PuzzleSet::Puzzles(v) && v.len() == names@.len() && forall|
            i: int,
        |
            0 <= i < v.len() ==> #[trigger] v[i] == names@[i]@,
        (SetExpr::PuzzleRange { start, end })@ == PuzzleSet::Range(start, end),
        SetExpr::Round(round)@ == PuzzleSet::Round(round@),
        ValueExpr::SolvedCount(set)@ == Value::SolvedCount(set@),
        ValueExpr::Number(n)@ == Value::Number(n),
        GateExpr::True@ == Gate::True,
        GateExpr::False@ == Gate::False,
        GateExpr::Solved(puzzle)@ == Gate::Solved(puzzle@),
        GateExpr::AllSolved(set)@ == Gate::AllSolved(set@),
        GateExpr::AnySolved(set)@ == Gate::AnySolved(set@),
        GateExpr::GameStarted@ == Gate::GameStarted,
        GateExpr::Triggered(puzzle, key)@ == Gate::Triggered(puzzle@, key@),
        (GateExpr::Cmp { op, lhs, rhs })@ == Gate::Cmp(op, lhs@, rhs@),
{
}

/// Joined expressions stand for what their parts stand for, joined alike.
pub proof fn joined_expressions_stand_for_their_parts(
    xs: Vec<GateExpr>,
    x: GateExpr,
    hs: Vec<HintDisplayExpr>,
    h: HintDisplayExpr,
)
    ensures
        GateExpr::And(xs)@ == Gate::And(Seq::new(xs@.len(), |i: int| xs@[i]@)),
        GateExpr::Or(xs)@ == Gate::Or(Seq::new(xs@.len(), |i: int| xs@[i]@)),
        GateExpr::Not(Box::new(x))@ == Gate::Not(Box::new(x@)),
        HintDisplayExpr::Gate(x)@ == Hint::Gate(x@),
        HintDisplayExpr::HintEnabled@ == Hint::HintEnabled,
        HintDisplayExpr::HintCooledDown@ == Hint::HintCooledDown,
        HintDisplayExpr::And(hs)@ == Hint::And(Seq::new(hs@.len(), |i: int| hs@[i]@)),
        HintDisplayExpr::Or(hs)@ == Hint::Or(Seq::new(hs@.len(), |i: int| hs@[i]@)),
        HintDisplayExpr::Not(Box::new(h))@ == Hint::Not(Box::new(h@)),
{
    assert(GateExpr::And(xs)@->And_0 =~= Seq::new(xs@.len(), |i: int| xs@[i]@));
    assert(GateExpr::Or(xs)@->Or_0 =~= Seq::new(xs@.len(), |i: int| xs@[i]@));
    assert(HintDisplayExpr::And(hs)@->And_0 =~= Seq::new(hs@.len(), |i: int| hs@[i]@));
    assert(HintDisplayExpr::Or(hs)@->Or_0 =~= Seq::new(hs@.len(), |i: int| hs@[i]@));
}

} // verus!
