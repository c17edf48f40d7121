//! From s-expressions to gates.
use vstd::prelude::*;

use crate::text;
use crate::expr::ast::{
    CmpOp, Gate, GateExpr, Hint, HintDisplayExpr, PuzzleSet, SetExpr, Value, ValueExpr,
};
use crate::expr::ast;
use crate::expr::parser::{RawSexpr, Sexpr};
use crate::expr::parser;
use crate::expr::types::{Name, Progress, PuzzleRef, RoundRef};
use crate::text::{chars_of, is_ascii_alphabetic, is_ascii_digit, parse_u32, parse_usize, same};

verus! {

#[derive(Debug)]
pub enum CompileError {
    BadForm(&'static str),
    UnknownOp(String),
    ExpectedAtom,
    ExpectedNumber,
    ExpectedSetExpr,
    ExpectedValueExpr,
}

/// What a [`CompileError`] says.
pub enum CompileFault {
    BadForm(Seq<char>),
    UnknownOp(Seq<char>),
    ExpectedAtom,
    ExpectedNumber,
    ExpectedSetExpr,
    ExpectedValueExpr,
}

impl View for CompileError {
    type V = CompileFault;

    open spec fn view(&self) -> CompileFault {
        match self {
            CompileError::BadForm(s) => CompileFault::BadForm(s@),
            CompileError::UnknownOp(s) => CompileFault::UnknownOp(s@),
            CompileError::ExpectedAtom => CompileFault::ExpectedAtom,
            CompileError::ExpectedNumber => CompileFault::ExpectedNumber,
            CompileError::ExpectedSetExpr => CompileFault::ExpectedSetExpr,
            CompileError::ExpectedValueExpr => CompileFault::ExpectedValueExpr,
        }
    }
}

pub open spec fn bad_form<T>(s: Seq<char>) -> Result<T, CompileFault> {
    Err(CompileFault::BadForm(s))
}

pub open spec fn text_of(s: Sexpr) -> Result<Seq<char>, CompileFault> {
    match s {
        Sexpr::Atom(a) => Ok(a),
        Sexpr::List(_) => Err(CompileFault::ExpectedAtom),
    }
}

pub open spec fn u32_of(s: Sexpr) -> Result<u32, CompileFault> {
    match text_of(s) {
        Err(e) => Err(e),
        Ok(a) => match text::decimal_value(a) {
            Some(v) if v <= u32::MAX => Ok(v as u32),
            _ => Err(CompileFault::ExpectedNumber),
        },
    }
}

pub open spec fn usize_of(s: Sexpr) -> Result<usize, CompileFault> {
    match text_of(s) {
        Err(e) => Err(e),
        Ok(a) => match text::decimal_value(a) {
            Some(v) if v <= usize::MAX => Ok(v as usize),
            _ => Err(CompileFault::ExpectedNumber),
        },
    }
}

/// A number where the text is one that fits 32 bits, a slug otherwise.
pub open spec fn name_of(s: Sexpr) -> Result<Name, CompileFault> {
    match text_of(s) {
        Err(e) => Err(e),
        Ok(a) => match text::decimal_value(a) {
            Some(v) if v <= u32::MAX => Ok(Name::Id(v as u32)),
            _ => Ok(Name::Slug(a)),
        },
    }
}

pub open spec fn names_of(items: Seq<Sexpr>) -> Result<Seq<Name>, CompileFault>
    decreases items.len(),
{
    if items.len() == 0 {
        Ok(Seq::empty())
    } else {
        match names_of(items.drop_last()) {
            Err(e) => Err(e),
            Ok(v) => match name_of(items.last()) {
                Err(e) => Err(e),
                Ok(n) => Ok(v.push(n)),
            },
        }
    }
}

pub open spec fn set_of(s: Sexpr) -> Result<PuzzleSet, CompileFault> {
    match s {
        Sexpr::Atom(_) => Err(CompileFault::ExpectedSetExpr),
        Sexpr::List(items) => if items.len() == 0 {
            bad_form("empty list"@)
        } else {
            match text_of(items[0]) {
                Err(e) => Err(e),
                Ok(head) => if head == "puzzles"@ {
                    match names_of(items.skip(1)) {
                        Err(e) => Err(e),
                        Ok(v) => Ok(PuzzleSet::Puzzles(v)),
                    }
                } else if head == "puzzle-range"@ {
                    if items.len() != 3 {
                        bad_form("puzzle-range expects 2 args"@)
                    } else {
                        match u32_of(items[1]) {
                            Err(e) => Err(e),
                            Ok(start) => match u32_of(items[2]) {
                                Err(e) => Err(e),
                                Ok(end) => Ok(PuzzleSet::Range(start, end)),
                            },
                        }
                    }
                } else if head == "round"@ {
                    if items.len() != 2 {
                        bad_form("round expects 1 arg"@)
                    } else {
                        match name_of(items[1]) {
                            Err(e) => Err(e),
                            Ok(n) => Ok(PuzzleSet::Round(n)),
                        }
                    }
                } else {
                    Err(CompileFault::ExpectedSetExpr)
                },
            }
        },
    }
}

pub open spec fn value_of(s: Sexpr) -> Result<Value, CompileFault> {
    match s {
        Sexpr::Atom(_) => match usize_of(s) {
            Err(e) => Err(e),
            Ok(n) => Ok(Value::Number(n)),
        },
        Sexpr::List(items) => if items.len() == 0 {
            bad_form("empty list"@)
        } else {
            match text_of(items[0]) {
                Err(e) => Err(e),
                Ok(head) => if head == "solved-count"@ {
                    if items.len() != 2 {
                        bad_form("solved-count expects 1 set arg"@)
                    } else {
                        match set_of(items[1]) {
                            Err(e) => Err(e),
                            Ok(set) => Ok(Value::SolvedCount(set)),
                        }
                    }
                } else {
                    Err(CompileFault::ExpectedValueExpr)
                },
            }
        },
    }
}

pub open spec fn comparison_of(head: Seq<char>) -> Option<CmpOp> {
    if head == "gt"@ {
        Some(CmpOp::Gt)
    } else if head == "ge"@ {
        Some(CmpOp::Ge)
    } else if head == "lt"@ {
        Some(CmpOp::Lt)
    } else if head == "le"@ {
        Some(CmpOp::Le)
    } else if head == "eq"@ {
        Some(CmpOp::Eq)
    } else if head == "ne"@ {
        Some(CmpOp::Ne)
    } else {
        None
    }
}

/// A trigger key: a letter, then letters, digits, underscores and hyphens, 64 characters at most.
pub open spec fn is_trigger_key(key: Seq<char>) -> bool {
    &&& 0 < key.len() <= 64
    &&& text::is_alpha(key[0])
    &&& forall|i: int|
        0 < i < key.len() ==> text::is_alpha(#[trigger] key[i]) || text::is_digit(key[i]) || key[i] == '_'
            || key[i] == '-'
}

/// A conjunction's parts: what is always true is left out, and nested conjunctions are taken apart.
pub open spec fn and_parts(xs: Seq<Gate>) -> Seq<Gate>
    decreases xs.len(),
{
    if xs.len() == 0 {
        Seq::empty()
    } else {
        let rest = and_parts(xs.drop_last());
        match xs.last() {
            Gate::True => rest,
            Gate::And(inner) => rest + inner,
            g => rest.push(g),
        }
    }
}

/// A disjunction's parts: what is always false is left out, and nested disjunctions are taken apart.
pub open spec fn or_parts(xs: Seq<Gate>) -> Seq<Gate>
    decreases xs.len(),
{
    if xs.len() == 0 {
        Seq::empty()
    } else {
        let rest = or_parts(xs.drop_last());
        match xs.last() {
            Gate::False => rest,
            Gate::Or(inner) => rest + inner,
            g => rest.push(g),
        }
    }
}

pub open spec fn and_of(xs: Seq<Gate>) -> Gate {
    if exists|i: int| 0 <= i < xs.len() && #[trigger] xs[i] is False {
        Gate::False
    } else {
        let parts = and_parts(xs);
        if parts.len() == 0 {
            Gate::True
        } else if parts.len() == 1 {
            parts[0]
        } else {
            Gate::And(parts)
        }
    }
}

pub open spec fn or_of(xs: Seq<Gate>) -> Gate {
    if exists|i: int| 0 <= i < xs.len() && #[trigger] xs[i] is True {
        Gate::True
    } else {
        let parts = or_parts(xs);
        if parts.len() == 0 {
            Gate::False
        } else if parts.len() == 1 {
            parts[0]
        } else {
            Gate::Or(parts)
        }
    }
}

pub open spec fn not_of(g: Gate) -> Gate {
    match g {
        Gate::True => Gate::False,
        Gate::False => Gate::True,
        Gate::Not(inner) => *inner,
        _ => Gate::Not(Box::new(g)),
    }
}

/// A gate that is neither a connective nor a constant, by its head word.
pub open spec fn simple_gate_of(items: Seq<Sexpr>, head: Seq<char>) -> Result<Gate, CompileFault> {
    if head == "solved"@ {
        if items.len() != 2 {
            bad_form("solved expects 1 arg"@)
        } else {
            match name_of(items[1]) {
                Err(e) => Err(e),
                Ok(n) => Ok(Gate::Solved(n)),
            }
        }
    } else if head == "all-solved"@ {
        if items.len() != 2 {
            bad_form("all-solved expects 1 set arg"@)
        } else {
            match set_of(items[1]) {
                Err(e) => Err(e),
                Ok(set) => Ok(Gate::AllSolved(set)),
            }
        }
    } else if head == "any-solved"@ {
        if items.len() != 2 {
            bad_form("any-solved expects 1 set arg"@)
        } else {
            match set_of(items[1]) {
                Err(e) => Err(e),
                Ok(set) => Ok(Gate::AnySolved(set)),
            }
        }
    } else if head == "game-started"@ {
        if items.len() != 1 {
            bad_form("game-started expects 0 arg"@)
        } else {
            Ok(Gate::GameStarted)
        }
    } else if head == "triggered"@ {
        if items.len() != 3 {
            bad_form("triggered expects 2 args"@)
        } else {
            match text_of(items[2]) {
                Err(e) => Err(e),
                Ok(key) => if !is_trigger_key(key) {
                    bad_form("invalid trigger key"@)
                } else {
                    match name_of(items[1]) {
                        Err(e) => Err(e),
                        Ok(n) => Ok(Gate::Triggered(n, key)),
                    }
                },
            }
        }
    } else {
        match comparison_of(head) {
            None => Err(CompileFault::UnknownOp(head)),
            Some(op) => if items.len() != 3 {
                bad_form("comparison expects 2 args"@)
            } else {
                match value_of(items[1]) {
                    Err(e) => Err(e),
                    Ok(lhs) => match value_of(items[2]) {
                        Err(e) => Err(e),
                        Ok(rhs) => Ok(Gate::Cmp(op, lhs, rhs)),
                    },
                }
            },
        }
    }
}

/// What an expression compiles to.
pub open spec fn gate_of(s: Sexpr) -> Result<Gate, CompileFault>
    decreases s,
{
    match s {
        Sexpr::Atom(_) => bad_form("bare atom not allowed"@),
        Sexpr::List(items) => if items.len() == 0 {
            bad_form("empty list"@)
        } else {
            match text_of(items[0]) {
                Err(e) => Err(e),
                Ok(head) => if head == "true"@ {
                    if items.len() != 1 {
                        bad_form("true expects 0 arg"@)
                    } else {
                        Ok(Gate::True)
                    }
                } else if head == "false"@ {
                    if items.len() != 1 {
                        bad_form("false expects 0 arg"@)
                    } else {
                        Ok(Gate::False)
                    }
                } else if head == "and"@ {
                    match gates_of(items.skip(1)) {
                        Err(e) => Err(e),
                        Ok(xs) => Ok(and_of(xs)),
                    }
                } else if head == "or"@ {
                    match gates_of(items.skip(1)) {
                        Err(e) => Err(e),
                        Ok(xs) => Ok(or_of(xs)),
                    }
                } else if head == "not"@ {
                    if items.len() != 2 {
                        bad_form("not expects 1 arg"@)
                    } else {
                        match gate_of(items[1]) {
                            Err(e) => Err(e),
                            Ok(g) => Ok(not_of(g)),
                        }
                    }
                } else {
                    simple_gate_of(items, head)
                },
            }
        },
    }
}

/// The gates of a list of expressions, or the first error among them.
pub open spec fn gates_of(items: Seq<Sexpr>) -> Result<Seq<Gate>, CompileFault>
    decreases items,
{
    if items.len() == 0 {
        Ok(Seq::empty())
    } else {
        match gates_of(items.drop_last()) {
            Err(e) => Err(e),
            Ok(v) => match gate_of(items.last()) {
                Err(e) => Err(e),
                Ok(g) => Ok(v.push(g)),
            },
        }
    }
}

pub open spec fn hint_and_parts(xs: Seq<Hint>) -> Seq<Hint>
    decreases xs.len(),
{
    if xs.len() == 0 {
        Seq::empty()
    } else {
        let rest = hint_and_parts(xs.drop_last());
        match xs.last() {
            Hint::Gate(Gate::True) => rest,
            Hint::And(inner) => rest + inner,
            h => rest.push(h),
        }
    }
}

pub open spec fn hint_or_parts(xs: Seq<Hint>) -> Seq<Hint>
    decreases xs.len(),
{
    if xs.len() == 0 {
        Seq::empty()
    } else {
        let rest = hint_or_parts(xs.drop_last());
        match xs.last() {
            Hint::Gate(Gate::False) => rest,
            Hint::Or(inner) => rest + inner,
            h => rest.push(h),
        }
    }
}

pub open spec fn hint_and_of(xs: Seq<Hint>) -> Hint {
    if exists|i: int| 0 <= i < xs.len() && #[trigger] xs[i] == Hint::Gate(Gate::False) {
        Hint::Gate(Gate::False)
    } else {
        let parts = hint_and_parts(xs);
        if parts.len() == 0 {
            Hint::Gate(Gate::True)
        } else if parts.len() == 1 {
            parts[0]
        } else {
            Hint::And(parts)
        }
    }
}

pub open spec fn hint_or_of(xs: Seq<Hint>) -> Hint {
    if exists|i: int| 0 <= i < xs.len() && #[trigger] xs[i] == Hint::Gate(Gate::True) {
        Hint::Gate(Gate::True)
    } else {
        let parts = hint_or_parts(xs);
        if parts.len() == 0 {
            Hint::Gate(Gate::False)
        } else if parts.len() == 1 {
            parts[0]
        } else {
            Hint::Or(parts)
        }
    }
}

pub open spec fn hint_not_of(h: Hint) -> Hint {
    match h {
        Hint::Gate(Gate::True) => Hint::Gate(Gate::False),
        Hint::Gate(Gate::False) => Hint::Gate(Gate::True),
        Hint::Not(inner) => *inner,
        _ => Hint::Not(Box::new(h)),
    }
}

/// The hint condition that an expression compiles to.
pub open spec fn hint_of(s: Sexpr) -> Result<Hint, CompileFault>
    decreases s,
{
    match s {
        Sexpr::Atom(_) => bad_form("bare atom not allowed"@),
        Sexpr::List(items) => if items.len() == 0 {
            bad_form("empty list"@)
        } else {
            match text_of(items[0]) {
                Err(e) => Err(e),
                Ok(head) => if head == "hint-enabled"@ {
                    if items.len() != 1 {
                        bad_form("hint-enabled expects 0 arg"@)
                    } else {
                        Ok(Hint::HintEnabled)
                    }
                } else if head == "hint-cooled-down"@ {
                    if items.len() != 1 {
                        bad_form("hint-cooled-down expects 0 arg"@)
                    } else {
                        Ok(Hint::HintCooledDown)
                    }
                } else if head == "and"@ {
                    match hints_of(items.skip(1)) {
                        Err(e) => Err(e),
                        Ok(xs) => Ok(hint_and_of(xs)),
                    }
                } else if head == "or"@ {
                    match hints_of(items.skip(1)) {
                        Err(e) => Err(e),
                        Ok(xs) => Ok(hint_or_of(xs)),
                    }
                } else if head == "not"@ {
                    if items.len() != 2 {
                        bad_form("not expects 1 arg"@)
                    } else {
                        match hint_of(items[1]) {
                            Err(e) => Err(e),
                            Ok(h) => Ok(hint_not_of(h)),
                        }
                    }
                } else {
                    match gate_of(s) {
                        Err(e) => Err(e),
                        Ok(g) => Ok(Hint::Gate(g)),
                    }
                },
            }
        },
    }
}

pub open spec fn hints_of(items: Seq<Sexpr>) -> Result<Seq<Hint>, CompileFault>
    decreases items,
{
    if items.len() == 0 {
        Ok(Seq::empty())
    } else {
        match hints_of(items.drop_last()) {
            Err(e) => Err(e),
            Ok(v) => match hint_of(items.last()) {
                Err(e) => Err(e),
                Ok(h) => Ok(v.push(h)),
            },
        }
    }
}

/// What a `Result` says whose two sides each say something.
pub open spec fn result_view<T: View, E: View>(r: Result<T, E>) -> Result<T::V, E::V> {
    match r {
        Ok(v) => Ok(v@),
        Err(e) => Err(e@),
    }
}

fn atom(s: &RawSexpr) -> (r: Result<&str, CompileError>)
    ensures
        match r {
            Ok(a) => text_of(s@) == Ok::<Seq<char>, CompileFault>(a@),
            Err(e) => text_of(s@) == Err::<Seq<char>, CompileFault>(e@),
        },
{
    match s {
        RawSexpr::Atom(a) => Ok(a.as_str()),
        RawSexpr::List(_) => Err(CompileError::ExpectedAtom),
    }
}

fn number_u32(s: &RawSexpr) -> (r: Result<u32, CompileError>)
    ensures
        match r {
            Ok(n) => u32_of(s@) == Ok::<u32, CompileFault>(n),
            Err(e) => u32_of(s@) == Err::<u32, CompileFault>(e@),
        },
{
    match atom(s) {
        Err(e) => Err(e),
        Ok(a) => match parse_u32(a) {
            Some(n) => Ok(n),
            None => Err(CompileError::ExpectedNumber),
        },
    }
}

fn number_usize(s: &RawSexpr) -> (r: Result<usize, CompileError>)
    ensures
        match r {
            Ok(n) => usize_of(s@) == Ok::<usize, CompileFault>(n),
            Err(e) => usize_of(s@) == Err::<usize, CompileFault>(e@),
        },
{
    match atom(s) {
        Err(e) => Err(e),
        Ok(a) => match parse_usize(a) {
            Some(n) => Ok(n),
            None => Err(CompileError::ExpectedNumber),
        },
    }
}

fn parse_puzzle_ref(s: &RawSexpr) -> (r: Result<PuzzleRef, CompileError>)
    ensures
        result_view(r) == name_of(s@),
{
    match atom(s) {
        Err(e) => Err(e),
        Ok(a) => match parse_u32(a) {
            Some(id) => Ok(PuzzleRef::Id(id)),
            None => Ok(PuzzleRef::Slug(a.to_owned())),
        },
    }
}

fn parse_round_ref(s: &RawSexpr) -> (r: Result<RoundRef, CompileError>)
    ensures
        result_view(r) == name_of(s@),
{
    match atom(s) {
        Err(e) => Err(e),
        Ok(a) => match parse_u32(a) {
            Some(id) => Ok(RoundRef::Id(id)),
            None => Ok(RoundRef::Slug(a.to_owned())),
        },
    }
}

fn comparison(head: &str) -> (r: Option<CmpOp>)
    ensures
        r == comparison_of(head@),
{
    if same(head, "gt") {
        Some(CmpOp::Gt)
    } else if same(head, "ge") {
        Some(CmpOp::Ge)
    } else if same(head, "lt") {
        Some(CmpOp::Lt)
    } else if same(head, "le") {
        Some(CmpOp::Le)
    } else if same(head, "eq") {
        Some(CmpOp::Eq)
    } else if same(head, "ne") {
        Some(CmpOp::Ne)
    } else {
        None
    }
}

/// Whether a text can name a trigger.
pub fn valid_trigger_key(key: &str) -> (r: bool)
    ensures
        r == is_trigger_key(key@),
{
    let chars = chars_of(key);
    if chars.len() == 0 || chars.len() > 64 || !is_ascii_alphabetic(chars[0]) {
        return false;
    }
    let mut i: usize = 1;
    while i < chars.len()
        invariant
            1 <= i <= chars@.len() <= 64,
            chars@ == key@,
            text::is_alpha(key@[0]),
            forall|k: int|
                0 < k < i ==> text::is_alpha(#[trigger] key@[k]) || text::is_digit(key@[k]) || key@[k] == '_'
                    || key@[k] == '-',
        decreases chars@.len() - i,
    {
        let ch = chars[i];
        assert(key@[i as int] == ch);
        if !(is_ascii_alphabetic(ch) || is_ascii_digit(ch) || ch == '_' || ch == '-') {
            return false;
        }
        i += 1;
    }
    true
}

/// Compiles a set of puzzles.
pub fn compile_set(expr: &RawSexpr) -> (r: Result<SetExpr, CompileError>)
    ensures
        result_view(r) == set_of(expr@),
{
    match expr {
        RawSexpr::Atom(_) => Err(CompileError::ExpectedSetExpr),
        RawSexpr::List(items) => {
            proof {
                parser::lemma_list_view(*items);
            }
            let ghost all = parser::sexprs_view(items@);
            if items.len() == 0 {
                return Err(CompileError::BadForm("empty list"));
            }
            let head = match atom(&items[0]) {
                Err(e) => {
                    return Err(e);
                },
                Ok(head) => head,
            };
            if same(head, "puzzles") {
                let mut ids: Vec<PuzzleRef> = Vec::new();
                let mut i: usize = 1;
                let ghost rest = all.skip(1);
                assert(ast::names_view(ids@) =~= Seq::<Name>::empty());
                while i < items.len()
                    invariant
                        1 <= i <= items@.len(),
                        all == parser::sexprs_view(items@),
                        rest == all.skip(1),
                        names_of(rest.take(i - 1)) == Ok::<Seq<Name>, CompileFault>(
                            ast::names_view(ids@),
                        ),
                        set_of(expr@) == (match names_of(rest) {
                            Err(e) => Err(e),
                            Ok(v) => Ok(PuzzleSet::Puzzles(v)),
                        }),
                    decreases items@.len() - i,
                {
                    proof {
                        assert(rest.take(i as int).drop_last() == rest.take(i - 1));
                        assert(rest.take(i as int).last() == items@[i as int]@);
                    }
                    match parse_puzzle_ref(&items[i]) {
                        Err(e) => {
                            proof {
                                lemma_names_error(rest, i as int, e@);
                            }
                            return Err(e);
                        },
                        Ok(n) => {
                            let ghost before = ids@;
                            ids.push(n);
                            assert(ast::names_view(ids@) =~= ast::names_view(before).push(n@));
                        },
                    }
                    i += 1;
                }
                assert(rest.take(i - 1) == rest);
                Ok(SetExpr::Puzzles(ids))
            } else if same(head, "puzzle-range") {
                if items.len() != 3 {
                    return Err(CompileError::BadForm("puzzle-range expects 2 args"));
                }
                match number_u32(&items[1]) {
                    Err(e) => Err(e),
                    Ok(start) => match number_u32(&items[2]) {
                        Err(e) => Err(e),
                        Ok(end) => Ok(SetExpr::PuzzleRange { start, end }),
                    },
                }
            } else if same(head, "round") {
                if items.len() != 2 {
                    return Err(CompileError::BadForm("round expects 1 arg"));
                }
                match parse_round_ref(&items[1]) {
                    Err(e) => Err(e),
                    Ok(round) => Ok(SetExpr::Round(round)),
                }
            } else {
                Err(CompileError::ExpectedSetExpr)
            }
        },
    }
}

proof fn lemma_names_error(items: Seq<Sexpr>, n: int, e: CompileFault)
    requires
        0 <= n <= items.len(),
        names_of(items.take(n)) == Err::<Seq<Name>, CompileFault>(e),
    ensures
        names_of(items) == Err::<Seq<Name>, CompileFault>(e),
    decreases items.len(),
{
    if n == items.len() {
        assert(items.take(n) == items);
    } else {
        assert(items.drop_last().take(n) == items.take(n));
        lemma_names_error(items.drop_last(), n, e);
    }
}

proof fn lemma_gates_error(items: Seq<Sexpr>, n: int, e: CompileFault)
    requires
        0 <= n <= items.len(),
        gates_of(items.take(n)) == Err::<Seq<Gate>, CompileFault>(e),
    ensures
        gates_of(items) == Err::<Seq<Gate>, CompileFault>(e),
    decreases items.len(),
{
    if n == items.len() {
        assert(items.take(n) == items);
    } else {
        assert(items.drop_last().take(n) == items.take(n));
        lemma_gates_error(items.drop_last(), n, e);
    }
}

proof fn lemma_hints_error(items: Seq<Sexpr>, n: int, e: CompileFault)
    requires
        0 <= n <= items.len(),
        hints_of(items.take(n)) == Err::<Seq<Hint>, CompileFault>(e),
    ensures
        hints_of(items) == Err::<Seq<Hint>, CompileFault>(e),
    decreases items.len(),
{
    if n == items.len() {
        assert(items.take(n) == items);
    } else {
        assert(items.drop_last().take(n) == items.take(n));
        lemma_hints_error(items.drop_last(), n, e);
    }
}

/// Compiles a value that can be compared.
pub fn compile_value(expr: &RawSexpr) -> (r: Result<ValueExpr, CompileError>)
    ensures
        result_view(r) == value_of(expr@),
{
    match expr {
        RawSexpr::Atom(_) => match number_usize(expr) {
            Err(e) => Err(e),
            Ok(n) => Ok(ValueExpr::Number(n)),
        },
        RawSexpr::List(items) => {
            proof {
                parser::lemma_list_view(*items);
            }
            if items.len() == 0 {
                return Err(CompileError::BadForm("empty list"));
            }
            let head = match atom(&items[0]) {
                Err(e) => {
                    return Err(e);
                },
                Ok(head) => head,
            };
            if same(head, "solved-count") {
                if items.len() != 2 {
                    return Err(CompileError::BadForm("solved-count expects 1 set arg"));
                }
                match compile_set(&items[1]) {
                    Err(e) => Err(e),
                    Ok(set) => Ok(ValueExpr::SolvedCount(set)),
                }
            } else {
                Err(CompileError::ExpectedValueExpr)
            }
        },
    }
}


fn join_gate_and(children: Vec<GateExpr>) -> (r: GateExpr)
    ensures
        r@ == and_of(ast::gates_view(children@)),
{
    let ghost all = ast::gates_view(children@);
    let mut i: usize = 0;
    while i < children.len()
        invariant
            i <= children@.len(),
            all == ast::gates_view(children@),
            forall|k: int| 0 <= k < i ==> !(#[trigger] all[k] is False),
        decreases children@.len() - i,
    {
        assert(all[i as int] == children@[i as int]@);
        if let GateExpr::False = &children[i] {
            return GateExpr::False;
        }
        i += 1;
    }
    let mut compiled: Vec<GateExpr> = Vec::new();
    assert(ast::gates_view(compiled@) =~= Seq::<Gate>::empty());
    for child in it: children
        invariant
            it.seq() == children@,
            all == ast::gates_view(children@),
            ast::gates_view(compiled@) == and_parts(all.take(it.index())),
    {
        let ghost before = compiled@;
        proof {
            let k = it.index();
            assert(all.take(k + 1).drop_last() == all.take(k));
            assert(all.take(k + 1).last() == child@);
        }
        match child {
            GateExpr::True => {},
            GateExpr::And(inner) => {
                proof {
                    ast::lemma_gate_and_view(inner);
                }
                let mut inner = inner;
                let ghost own = inner@;
                compiled.append(&mut inner);
                assert(ast::gates_view(compiled@) =~= ast::gates_view(before) + ast::gates_view(own));
            },
            child => {
                compiled.push(child);
                assert(ast::gates_view(compiled@) =~= ast::gates_view(before).push(child@));
            },
        }
    }
    assert(all.take(all.len() as int) == all);
    if compiled.len() == 0 {
        return GateExpr::True;
    }
    if compiled.len() == 1 {
        let ghost before = compiled@;
        let only = compiled.pop().unwrap();
        assert(ast::gates_view(before)[0] == only@);
        return only;
    }
    proof {
        ast::lemma_gate_and_view(compiled);
    }
    GateExpr::And(compiled)
}

fn join_gate_or(children: Vec<GateExpr>) -> (r: GateExpr)
    ensures
        r@ == or_of(ast::gates_view(children@)),
{
    let ghost all = ast::gates_view(children@);
    let mut i: usize = 0;
    while i < children.len()
        invariant
            i <= children@.len(),
            all == ast::gates_view(children@),
            forall|k: int| 0 <= k < i ==> !(#[trigger] all[k] is True),
        decreases children@.len() - i,
    {
        assert(all[i as int] == children@[i as int]@);
        if let GateExpr::True = &children[i] {
            return GateExpr::True;
        }
        i += 1;
    }
    let mut compiled: Vec<GateExpr> = Vec::new();
    assert(ast::gates_view(compiled@) =~= Seq::<Gate>::empty());
    for child in it: children
        invariant
            it.seq() == children@,
            all == ast::gates_view(children@),
            ast::gates_view(compiled@) == or_parts(all.take(it.index())),
    {
        let ghost before = compiled@;
        proof {
            let k = it.index();
            assert(all.take(k + 1).drop_last() == all.take(k));
            assert(all.take(k + 1).last() == child@);
        }
        match child {
            GateExpr::False => {},
            GateExpr::Or(inner) => {
                proof {
                    ast::lemma_gate_or_view(inner);
                }
                let mut inner = inner;
                let ghost own = inner@;
                compiled.append(&mut inner);
                assert(ast::gates_view(compiled@) =~= ast::gates_view(before) + ast::gates_view(own));
            },
            child => {
                compiled.push(child);
                assert(ast::gates_view(compiled@) =~= ast::gates_view(before).push(child@));
            },
        }
    }
    assert(all.take(all.len() as int) == all);
    if compiled.len() == 0 {
        return GateExpr::False;
    }
    if compiled.len() == 1 {
        let ghost before = compiled@;
        let only = compiled.pop().unwrap();
        assert(ast::gates_view(before)[0] == only@);
        return only;
    }
    proof {
        ast::lemma_gate_or_view(compiled);
    }
    GateExpr::Or(compiled)
}

fn negate_gate(expr: GateExpr) -> (r: GateExpr)
    ensures
        r@ == not_of(expr@),
{
    match expr {
        GateExpr::True => GateExpr::False,
        GateExpr::False => GateExpr::True,
        GateExpr::Not(inner) => *inner,
        expr => GateExpr::Not(Box::new(expr)),
    }
}

/// Compiles the operands of a connective: every item but the first.
fn compile_gates(items: &Vec<RawSexpr>) -> (r: Result<Vec<GateExpr>, CompileError>)
    requires
        items@.len() > 0,
    ensures
        match r {
            Ok(v) => gates_of(parser::sexprs_view(items@).skip(1)) == Ok::<Seq<Gate>, CompileFault>(
                ast::gates_view(v@),
            ),
            Err(e) => gates_of(parser::sexprs_view(items@).skip(1)) == Err::<Seq<Gate>, CompileFault>(e@),
        },
    decreases items,
{
    let ghost rest = parser::sexprs_view(items@).skip(1);
    let mut children: Vec<GateExpr> = Vec::new();
    let mut i: usize = 1;
    assert(ast::gates_view(children@) =~= Seq::<Gate>::empty());
    while i < items.len()
        invariant
            1 <= i <= items@.len(),
            rest == parser::sexprs_view(items@).skip(1),
            gates_of(rest.take(i - 1)) == Ok::<Seq<Gate>, CompileFault>(ast::gates_view(children@)),
        decreases items@.len() - i,
    {
        proof {
            assert(rest.take(i as int).drop_last() == rest.take(i - 1));
            assert(rest.take(i as int).last() == items@[i as int]@);
        }
        match compile_gate(&items[i]) {
            Err(e) => {
                proof {
                    lemma_gates_error(rest, i as int, e@);
                }
                return Err(e);
            },
            Ok(g) => {
                let ghost before = children@;
                children.push(g);
                assert(ast::gates_view(children@) =~= ast::gates_view(before).push(g@));
            },
        }
        i += 1;
    }
    assert(rest.take(i - 1) == rest);
    Ok(children)
}

fn compile_simple_gate(items: &Vec<RawSexpr>, head: &str) -> (r: Result<GateExpr, CompileError>)
    requires
        items@.len() > 0,
    ensures
        result_view(r) == simple_gate_of(parser::sexprs_view(items@), head@),
{
    if same(head, "solved") {
        if items.len() != 2 {
            return Err(CompileError::BadForm("solved expects 1 arg"));
        }
        match parse_puzzle_ref(&items[1]) {
            Err(e) => Err(e),
            Ok(n) => Ok(GateExpr::Solved(n)),
        }
    } else if same(head, "all-solved") {
        if items.len() != 2 {
            return Err(CompileError::BadForm("all-solved expects 1 set arg"));
        }
        match compile_set(&items[1]) {
            Err(e) => Err(e),
            Ok(set) => Ok(GateExpr::AllSolved(set)),
        }
    } else if same(head, "any-solved") {
        if items.len() != 2 {
            return Err(CompileError::BadForm("any-solved expects 1 set arg"));
        }
        match compile_set(&items[1]) {
            Err(e) => Err(e),
            Ok(set) => Ok(GateExpr::AnySolved(set)),
        }
    } else if same(head, "game-started") {
        if items.len() != 1 {
            return Err(CompileError::BadForm("game-started expects 0 arg"));
        }
        Ok(GateExpr::GameStarted)
    } else if same(head, "triggered") {
        if items.len() != 3 {
            return Err(CompileError::BadForm("triggered expects 2 args"));
        }
        match atom(&items[2]) {
            Err(e) => Err(e),
            Ok(key) => {
                if !valid_trigger_key(key) {
                    return Err(CompileError::BadForm("invalid trigger key"));
                }
                match parse_puzzle_ref(&items[1]) {
                    Err(e) => Err(e),
                    Ok(n) => Ok(GateExpr::Triggered(n, key.to_owned())),
                }
            },
        }
    } else {
        match comparison(head) {
            None => Err(CompileError::UnknownOp(head.to_owned())),
            Some(op) => {
                if items.len() != 3 {
                    return Err(CompileError::BadForm("comparison expects 2 args"));
                }
                match compile_value(&items[1]) {
                    Err(e) => Err(e),
                    Ok(lhs) => match compile_value(&items[2]) {
                        Err(e) => Err(e),
                        Ok(rhs) => Ok(GateExpr::Cmp { op, lhs, rhs }),
                    },
                }
            },
        }
    }
}

/// Compiles and simplifies a gate.
pub fn compile_gate(expr: &RawSexpr) -> (r: Result<GateExpr, CompileError>)
    ensures
        result_view(r) == gate_of(expr@),
    decreases expr,
{
    match expr {
        RawSexpr::Atom(_) => Err(CompileError::BadForm("bare atom not allowed")),
        RawSexpr::List(items) => {
            proof {
                parser::lemma_list_view(*items);
            }
            if items.len() == 0 {
                return Err(CompileError::BadForm("empty list"));
            }
            let head = match atom(&items[0]) {
                Err(e) => {
                    return Err(e);
                },
                Ok(head) => head,
            };
            if same(head, "true") {
                if items.len() != 1 {
                    return Err(CompileError::BadForm("true expects 0 arg"));
                }
                Ok(GateExpr::True)
            } else if same(head, "false") {
                if items.len() != 1 {
                    return Err(CompileError::BadForm("false expects 0 arg"));
                }
                Ok(GateExpr::False)
            } else if same(head, "and") {
                match compile_gates(items) {
                    Err(e) => Err(e),
                    Ok(children) => Ok(join_gate_and(children)),
                }
            } else if same(head, "or") {
                match compile_gates(items) {
                    Err(e) => Err(e),
                    Ok(children) => Ok(join_gate_or(children)),
                }
            } else if same(head, "not") {
                if items.len() != 2 {
                    return Err(CompileError::BadForm("not expects 1 arg"));
                }
                match compile_gate(&items[1]) {
                    Err(e) => Err(e),
                    Ok(g) => Ok(negate_gate(g)),
                }
            } else {
                compile_simple_gate(items, head)
            }
        },
    }
}

fn join_hint_and(children: Vec<HintDisplayExpr>) -> (r: HintDisplayExpr)
    ensures
        r@ == hint_and_of(ast::hints_view(children@)),
{
    let ghost all = ast::hints_view(children@);
    let mut i: usize = 0;
    while i < children.len()
        invariant
            i <= children@.len(),
            all == ast::hints_view(children@),
            forall|k: int| 0 <= k < i ==> !(#[trigger] all[k] == Hint::Gate(Gate::False)),
        decreases children@.len() - i,
    {
        assert(all[i as int] == children@[i as int]@);
        if let HintDisplayExpr::Gate(GateExpr::False) = &children[i] {
            return HintDisplayExpr::Gate(GateExpr::False);
        }
        i += 1;
    }
    let mut compiled: Vec<HintDisplayExpr> = Vec::new();
    assert(ast::hints_view(compiled@) =~= Seq::<Hint>::empty());
    for child in it: children
        invariant
            it.seq() == children@,
            all == ast::hints_view(children@),
            ast::hints_view(compiled@) == hint_and_parts(all.take(it.index())),
    {
        let ghost before = compiled@;
        proof {
            let k = it.index();
            assert(all.take(k + 1).drop_last() == all.take(k));
            assert(all.take(k + 1).last() == child@);
        }
        match child {
            HintDisplayExpr::Gate(GateExpr::True) => {},
            HintDisplayExpr::And(inner) => {
                proof {
                    ast::lemma_hint_and_view(inner);
                }
                let mut inner = inner;
                let ghost own = inner@;
                compiled.append(&mut inner);
                assert(ast::hints_view(compiled@) =~= ast::hints_view(before) + ast::hints_view(own));
            },
            child => {
                compiled.push(child);
                assert(ast::hints_view(compiled@) =~= ast::hints_view(before).push(child@));
            },
        }
    }
    assert(all.take(all.len() as int) == all);
    if compiled.len() == 0 {
        return HintDisplayExpr::Gate(GateExpr::True);
    }
    if compiled.len() == 1 {
        let ghost before = compiled@;
        let only = compiled.pop().unwrap();
        assert(ast::hints_view(before)[0] == only@);
        return only;
    }
    proof {
        ast::lemma_hint_and_view(compiled);
    }
    HintDisplayExpr::And(compiled)
}

fn join_hint_or(children: Vec<HintDisplayExpr>) -> (r: HintDisplayExpr)
    ensures
        r@ == hint_or_of(ast::hints_view(children@)),
{
    let ghost all = ast::hints_view(children@);
    let mut i: usize = 0;
    while i < children.len()
        invariant
            i <= children@.len(),
            all == ast::hints_view(children@),
            forall|k: int| 0 <= k < i ==> !(#[trigger] all[k] == Hint::Gate(Gate::True)),
        decreases children@.len() - i,
    {
        assert(all[i as int] == children@[i as int]@);
        if let HintDisplayExpr::Gate(GateExpr::True) = &children[i] {
            return HintDisplayExpr::Gate(GateExpr::True);
        }
        i += 1;
    }
    let mut compiled: Vec<HintDisplayExpr> = Vec::new();
    assert(ast::hints_view(compiled@) =~= Seq::<Hint>::empty());
    for child in it: children
        invariant
            it.seq() == children@,
            all == ast::hints_view(children@),
            ast::hints_view(compiled@) == hint_or_parts(all.take(it.index())),
    {
        let ghost before = compiled@;
        proof {
            let k = it.index();
            assert(all.take(k + 1).drop_last() == all.take(k));
            assert(all.take(k + 1).last() == child@);
        }
        match child {
            HintDisplayExpr::Gate(GateExpr::False) => {},
            HintDisplayExpr::Or(inner) => {
                proof {
                    ast::lemma_hint_or_view(inner);
                }
                let mut inner = inner;
                let ghost own = inner@;
                compiled.append(&mut inner);
                assert(ast::hints_view(compiled@) =~= ast::hints_view(before) + ast::hints_view(own));
            },
            child => {
                compiled.push(child);
                assert(ast::hints_view(compiled@) =~= ast::hints_view(before).push(child@));
            },
        }
    }
    assert(all.take(all.len() as int) == all);
    if compiled.len() == 0 {
        return HintDisplayExpr::Gate(GateExpr::False);
    }
    if compiled.len() == 1 {
        let ghost before = compiled@;
        let only = compiled.pop().unwrap();
        assert(ast::hints_view(before)[0] == only@);
        return only;
    }
    proof {
        ast::lemma_hint_or_view(compiled);
    }
    HintDisplayExpr::Or(compiled)
}

fn negate_hint(expr: HintDisplayExpr) -> (r: HintDisplayExpr)
    ensures
        r@ == hint_not_of(expr@),
{
    match expr {
        HintDisplayExpr::Gate(GateExpr::True) => HintDisplayExpr::Gate(GateExpr::False),
        HintDisplayExpr::Gate(GateExpr::False) => HintDisplayExpr::Gate(GateExpr::True),
        HintDisplayExpr::Not(inner) => *inner,
        expr => HintDisplayExpr::Not(Box::new(expr)),
    }
}

fn compile_hints(items: &Vec<RawSexpr>) -> (r: Result<Vec<HintDisplayExpr>, CompileError>)
    requires
        items@.len() > 0,
    ensures
        match r {
            Ok(v) => hints_of(parser::sexprs_view(items@).skip(1)) == Ok::<Seq<Hint>, CompileFault>(
                ast::hints_view(v@),
            ),
            Err(e) => hints_of(parser::sexprs_view(items@).skip(1)) == Err::<Seq<Hint>, CompileFault>(e@),
        },
    decreases items,
{
    let ghost rest = parser::sexprs_view(items@).skip(1);
    let mut children: Vec<HintDisplayExpr> = Vec::new();
    let mut i: usize = 1;
    assert(ast::hints_view(children@) =~= Seq::<Hint>::empty());
    while i < items.len()
        invariant
            1 <= i <= items@.len(),
            rest == parser::sexprs_view(items@).skip(1),
            hints_of(rest.take(i - 1)) == Ok::<Seq<Hint>, CompileFault>(ast::hints_view(children@)),
        decreases items@.len() - i,
    {
        proof {
            assert(rest.take(i as int).drop_last() == rest.take(i - 1));
            assert(rest.take(i as int).last() == items@[i as int]@);
        }
        match compile_hint_display(&items[i]) {
            Err(e) => {
                proof {
                    lemma_hints_error(rest, i as int, e@);
                }
                return Err(e);
            },
            Ok(h) => {
                let ghost before = children@;
                children.push(h);
                assert(ast::hints_view(children@) =~= ast::hints_view(before).push(h@));
            },
        }
        i += 1;
    }
    assert(rest.take(i - 1) == rest);
    Ok(children)
}

/// Compiles and simplifies a hint's display condition.
pub fn compile_hint_display(expr: &RawSexpr) -> (r: Result<HintDisplayExpr, CompileError>)
    ensures
        result_view(r) == hint_of(expr@),
    decreases expr,
{
    match expr {
        RawSexpr::Atom(_) => Err(CompileError::BadForm("bare atom not allowed")),
        RawSexpr::List(items) => {
            proof {
                parser::lemma_list_view(*items);
            }
            if items.len() == 0 {
                return Err(CompileError::BadForm("empty list"));
            }
            let head = match atom(&items[0]) {
                Err(e) => {
                    return Err(e);
                },
                Ok(head) => head,
            };
            if same(head, "hint-enabled") {
                if items.len() != 1 {
                    return Err(CompileError::BadForm("hint-enabled expects 0 arg"));
                }
                Ok(HintDisplayExpr::HintEnabled)
            } else if same(head, "hint-cooled-down") {
                if items.len() != 1 {
                    return Err(CompileError::BadForm("hint-cooled-down expects 0 arg"));
                }
                Ok(HintDisplayExpr::HintCooledDown)
            } else if same(head, "and") {
                match compile_hints(items) {
                    Err(e) => Err(e),
                    Ok(children) => Ok(join_hint_and(children)),
                }
            } else if same(head, "or") {
                match compile_hints(items) {
                    Err(e) => Err(e),
                    Ok(children) => Ok(join_hint_or(children)),
                }
            } else if same(head, "not") {
                if items.len() != 2 {
                    return Err(CompileError::BadForm("not expects 1 arg"));
                }
                match compile_hint_display(&items[1]) {
                    Err(e) => Err(e),
                    Ok(h) => Ok(negate_hint(h)),
                }
            } else {
                match compile_gate(expr) {
                    Err(e) => Err(e),
                    Ok(g) => Ok(HintDisplayExpr::Gate(g)),
                }
            }
        },
    }
}

/// What an expression claims, read off its text: connectives mean what they say, and every other
/// form means what its gate means.
pub open spec fn says(m: Progress, s: Sexpr) -> bool
    decreases s,
{
    match s {
        Sexpr::Atom(_) => false,
        Sexpr::List(items) => if items.len() == 0 {
            false
        } else {
            match items[0] {
                Sexpr::List(_) => false,
                Sexpr::Atom(head) => if head == "true"@ {
                    true
                } else if head == "false"@ {
                    false
                } else if head == "and"@ {
                    forall|i: int| 0 < i < items.len() ==> says(m, #[trigger] items[i])
                } else if head == "or"@ {
                    exists|i: int| 0 < i < items.len() && says(m, #[trigger] items[i])
                } else if head == "not"@ {
                    items.len() == 2 && !says(m, items[1])
                } else {
                    match simple_gate_of(items, head) {
                        Ok(g) => ast::holds(m, g),
                        Err(_) => false,
                    }
                },
            }
        },
    }
}

pub open spec fn all_hold(m: Progress, xs: Seq<Gate>) -> bool {
    forall|i: int| 0 <= i < xs.len() ==> ast::holds(m, #[trigger] xs[i])
}

pub open spec fn any_holds(m: Progress, xs: Seq<Gate>) -> bool {
    exists|i: int| 0 <= i < xs.len() && ast::holds(m, #[trigger] xs[i])
}

proof fn lemma_all_push(m: Progress, xs: Seq<Gate>, g: Gate)
    ensures
        all_hold(m, xs.push(g)) == (all_hold(m, xs) && ast::holds(m, g)),
        any_holds(m, xs.push(g)) == (any_holds(m, xs) || ast::holds(m, g)),
{
    let ys = xs.push(g);
    assert(ys[xs.len() as int] == g);
    assert forall|i: int| 0 <= i < xs.len() implies #[trigger] xs[i] == ys[i] by {}
    if all_hold(m, ys) {
        assert forall|i: int| 0 <= i < xs.len() implies ast::holds(m, #[trigger] xs[i]) by {
            assert(ast::holds(m, ys[i]));
        }
    }
    if any_holds(m, xs) {
        let i = choose|i: int| 0 <= i < xs.len() && ast::holds(m, #[trigger] xs[i]);
        assert(ast::holds(m, ys[i]));
    }
    if any_holds(m, ys) {
        let i = choose|i: int| 0 <= i < ys.len() && ast::holds(m, #[trigger] ys[i]);
        if i < xs.len() {
            assert(ast::holds(m, xs[i]));
        }
    }
}

proof fn lemma_all_concat(m: Progress, xs: Seq<Gate>, zs: Seq<Gate>)
    ensures
        all_hold(m, xs + zs) == (all_hold(m, xs) && all_hold(m, zs)),
        any_holds(m, xs + zs) == (any_holds(m, xs) || any_holds(m, zs)),
    decreases zs.len(),
{
    if zs.len() == 0 {
        assert(xs + zs == xs);
    } else {
        assert(xs + zs == (xs + zs.drop_last()).push(zs.last()));
        assert(zs == zs.drop_last().push(zs.last()));
        lemma_all_concat(m, xs, zs.drop_last());
        lemma_all_push(m, xs + zs.drop_last(), zs.last());
        lemma_all_push(m, zs.drop_last(), zs.last());
    }
}

proof fn lemma_connectives(m: Progress, xs: Seq<Gate>)
    ensures
        ast::holds(m, Gate::And(xs)) == all_hold(m, xs),
        ast::holds(m, Gate::Or(xs)) == any_holds(m, xs),
{
    let a = Gate::And(xs);
    let o = Gate::Or(xs);
    if ast::holds(m, a) {
        assert forall|i: int| 0 <= i < xs.len() implies ast::holds(m, #[trigger] xs[i]) by {
            assert(a->And_0[i] == xs[i]);
        }
    }
    if any_holds(m, xs) {
        let i = choose|i: int| 0 <= i < xs.len() && ast::holds(m, #[trigger] xs[i]);
        assert(o->Or_0[i] == xs[i]);
    }
}

proof fn lemma_and_parts(m: Progress, xs: Seq<Gate>)
    ensures
        all_hold(m, and_parts(xs)) == all_hold(m, xs),
    decreases xs.len(),
{
    if xs.len() > 0 {
        let rest = xs.drop_last();
        lemma_and_parts(m, rest);
        assert(xs == rest.push(xs.last()));
        lemma_all_push(m, rest, xs.last());
        match xs.last() {
            Gate::True => {},
            Gate::And(inner) => {
                lemma_all_concat(m, and_parts(rest), inner);
                lemma_connectives(m, inner);
            },
            g => {
                lemma_all_push(m, and_parts(rest), g);
            },
        }
    }
}

proof fn lemma_or_parts(m: Progress, xs: Seq<Gate>)
    ensures
        any_holds(m, or_parts(xs)) == any_holds(m, xs),
    decreases xs.len(),
{
    if xs.len() > 0 {
        let rest = xs.drop_last();
        lemma_or_parts(m, rest);
        assert(xs == rest.push(xs.last()));
        lemma_all_push(m, rest, xs.last());
        match xs.last() {
            Gate::False => {},
            Gate::Or(inner) => {
                lemma_all_concat(m, or_parts(rest), inner);
                lemma_connectives(m, inner);
            },
            g => {
                lemma_all_push(m, or_parts(rest), g);
            },
        }
    }
}

/// Simplifying a connective does not change what it means.
pub proof fn simplification_keeps_meaning(m: Progress, xs: Seq<Gate>, g: Gate)
    ensures
        ast::holds(m, and_of(xs)) == all_hold(m, xs),
        ast::holds(m, or_of(xs)) == any_holds(m, xs),
        ast::holds(m, not_of(g)) == !ast::holds(m, g),
{
    lemma_and_parts(m, xs);
    lemma_or_parts(m, xs);
    lemma_connectives(m, and_parts(xs));
    lemma_connectives(m, or_parts(xs));
    if exists|i: int| 0 <= i < xs.len() && #[trigger] xs[i] is False {
        let i = choose|i: int| 0 <= i < xs.len() && #[trigger] xs[i] is False;
        assert(!ast::holds(m, xs[i]));
    }
    if exists|i: int| 0 <= i < xs.len() && #[trigger] xs[i] is True {
        let i = choose|i: int| 0 <= i < xs.len() && #[trigger] xs[i] is True;
        assert(ast::holds(m, xs[i]));
    }
}

proof fn lemma_gates_of(items: Seq<Sexpr>, i: int)
    requires
        0 <= i < items.len(),
        gates_of(items) is Ok,
    ensures
        gates_of(items)->Ok_0.len() == items.len(),
        gate_of(items[i]) == Ok::<Gate, CompileFault>(gates_of(items)->Ok_0[i]),
    decreases items.len(),
{
    lemma_gates_of_len(items);
    lemma_gates_of_len(items.drop_last());
    if i < items.len() - 1 {
        lemma_gates_of(items.drop_last(), i);
    }
}

proof fn lemma_gates_of_len(items: Seq<Sexpr>)
    ensures
        gates_of(items) matches Ok(v) ==> v.len() == items.len(),
    decreases items.len(),
{
    if items.len() > 0 {
        lemma_gates_of_len(items.drop_last());
    }
}

/// An expression that compiles means, compiled, what its text says.
pub proof fn compiled_gate_means_its_text(m: Progress, s: Sexpr)
    requires
        gate_of(s) is Ok,
    ensures
        ast::holds(m, gate_of(s)->Ok_0) == says(m, s),
    decreases s,
{
    match s {
        Sexpr::Atom(_) => {},
        Sexpr::List(items) => {
            let head = text_of(items[0])->Ok_0;
            if head == "true"@ || head == "false"@ {
            } else if head == "and"@ || head == "or"@ {
                let rest = items.skip(1);
                let xs = gates_of(rest)->Ok_0;
                lemma_gates_of_len(rest);
                assert forall|i: int| 0 <= i < xs.len() implies ast::holds(m, #[trigger] xs[i]) == says(
                    m,
                    items[i + 1],
                ) by {
                    lemma_gates_of(rest, i);
                    assert(rest[i] == items[i + 1]);
                    compiled_gate_means_its_text(m, items[i + 1]);
                }
                simplification_keeps_meaning(m, xs, Gate::True);
                assert(s->List_0 == items);
                if head == "and"@ {
                    if says(m, s) {
                        assert forall|i: int| 0 <= i < xs.len() implies ast::holds(
                            m,
                            #[trigger] xs[i],
                        ) by {
                            assert(says(m, s->List_0[i + 1]));
                        }
                    }
                    if all_hold(m, xs) {
                        assert forall|i: int| 0 < i < items.len() implies says(
                            m,
                            #[trigger] s->List_0[i],
                        ) by {
                            assert(ast::holds(m, xs[i - 1]));
                        }
                    }
                } else {
                    if says(m, s) {
                        let i = choose|i: int|
                            0 < i < items.len() && says(m, #[trigger] s->List_0[i]);
                        assert(ast::holds(m, xs[i - 1]));
                    }
                    if any_holds(m, xs) {
                        let i = choose|i: int| 0 <= i < xs.len() && ast::holds(m, #[trigger] xs[i]);
                        assert(says(m, s->List_0[i + 1]));
                    }
                }
            } else if head == "not"@ {
                compiled_gate_means_its_text(m, items[1]);
                simplification_keeps_meaning(m, Seq::empty(), gate_of(items[1])->Ok_0);
            } else {
            }
        },
    }
}


/// Whether a gate has no constant inside it, no connective directly inside one of its own kind, and
/// no connective of fewer than two parts.
pub open spec fn simplified(g: Gate) -> bool
    decreases g,
{
    match g {
        Gate::And(xs) => xs.len() >= 2 && forall|i: int|
            0 <= i < xs.len() ==> and_operand(#[trigger] xs[i]) && simplified(xs[i]),
        Gate::Or(xs) => xs.len() >= 2 && forall|i: int|
            0 <= i < xs.len() ==> or_operand(#[trigger] xs[i]) && simplified(xs[i]),
        Gate::Not(x) => !(*x is True || *x is False || *x is Not) && simplified(*x),
        _ => true,
    }
}

pub open spec fn and_operand(g: Gate) -> bool {
    !(g is True || g is False || g is And)
}

pub open spec fn or_operand(g: Gate) -> bool {
    !(g is True || g is False || g is Or)
}

proof fn lemma_and_parts_simplified(xs: Seq<Gate>)
    requires
        forall|i: int| 0 <= i < xs.len() ==> simplified(#[trigger] xs[i]) && !(xs[i] is False),
    ensures
        forall|i: int|
            0 <= i < and_parts(xs).len() ==> and_operand(#[trigger] and_parts(xs)[i])
                && simplified(and_parts(xs)[i]),
    decreases xs.len(),
{
    if xs.len() > 0 {
        let rest = xs.drop_last();
        assert forall|i: int| 0 <= i < rest.len() implies simplified(#[trigger] rest[i])
            && !(rest[i] is False) by {
            assert(rest[i] == xs[i]);
        }
        lemma_and_parts_simplified(rest);
        let last = xs.last();
        assert(simplified(last) && !(last is False)) by {
            assert(last == xs[xs.len() - 1]);
        }
        let parts = and_parts(xs);
        assert forall|i: int| 0 <= i < parts.len() implies and_operand(#[trigger] parts[i])
            && simplified(parts[i]) by {
            if i < and_parts(rest).len() {
                assert(parts[i] == and_parts(rest)[i]);
            } else if last is And {
                assert(parts[i] == last->And_0[i - and_parts(rest).len()]);
            } else {
                assert(parts[i] == last);
            }
        }
    }
}

proof fn lemma_or_parts_simplified(xs: Seq<Gate>)
    requires
        forall|i: int| 0 <= i < xs.len() ==> simplified(#[trigger] xs[i]) && !(xs[i] is True),
    ensures
        forall|i: int|
            0 <= i < or_parts(xs).len() ==> or_operand(#[trigger] or_parts(xs)[i])
                && simplified(or_parts(xs)[i]),
    decreases xs.len(),
{
    if xs.len() > 0 {
        let rest = xs.drop_last();
        assert forall|i: int| 0 <= i < rest.len() implies simplified(#[trigger] rest[i])
            && !(rest[i] is True) by {
            assert(rest[i] == xs[i]);
        }
        lemma_or_parts_simplified(rest);
        let last = xs.last();
        assert(simplified(last) && !(last is True)) by {
            assert(last == xs[xs.len() - 1]);
        }
        let parts = or_parts(xs);
        assert forall|i: int| 0 <= i < parts.len() implies or_operand(#[trigger] parts[i])
            && simplified(parts[i]) by {
            if i < or_parts(rest).len() {
                assert(parts[i] == or_parts(rest)[i]);
            } else if last is Or {
                assert(parts[i] == last->Or_0[i - or_parts(rest).len()]);
            } else {
                assert(parts[i] == last);
            }
        }
    }
}

proof fn lemma_connectives_simplified(xs: Seq<Gate>)
    requires
        forall|i: int| 0 <= i < xs.len() ==> simplified(#[trigger] xs[i]),
    ensures
        simplified(and_of(xs)),
        simplified(or_of(xs)),
{
    if !exists|i: int| 0 <= i < xs.len() && #[trigger] xs[i] is False {
        lemma_and_parts_simplified(xs);
        let parts = and_parts(xs);
        if parts.len() == 1 {
            assert(simplified(parts[0]));
        } else if parts.len() >= 2 {
            let g = Gate::And(parts);
            assert forall|i: int| 0 <= i < parts.len() implies and_operand(
                #[trigger] g->And_0[i],
            ) && simplified(g->And_0[i]) by {
                assert(g->And_0[i] == parts[i]);
            }
        }
    }
    if !exists|i: int| 0 <= i < xs.len() && #[trigger] xs[i] is True {
        lemma_or_parts_simplified(xs);
        let parts = or_parts(xs);
        if parts.len() == 1 {
            assert(simplified(parts[0]));
        } else if parts.len() >= 2 {
            let g = Gate::Or(parts);
            assert forall|i: int| 0 <= i < parts.len() implies or_operand(
                #[trigger] g->Or_0[i],
            ) && simplified(g->Or_0[i]) by {
                assert(g->Or_0[i] == parts[i]);
            }
        }
    }
}

/// Every compiled gate is simplified.
pub proof fn compiled_gate_is_simplified(s: Sexpr)
    requires
        gate_of(s) is Ok,
    ensures
        simplified(gate_of(s)->Ok_0),
    decreases s,
{
    match s {
        Sexpr::Atom(_) => {},
        Sexpr::List(items) => {
            let head = text_of(items[0])->Ok_0;
            if head == "true"@ || head == "false"@ {
            } else if head == "and"@ || head == "or"@ {
                let rest = items.skip(1);
                let xs = gates_of(rest)->Ok_0;
                lemma_gates_of_len(rest);
                assert forall|i: int| 0 <= i < xs.len() implies simplified(#[trigger] xs[i]) by {
                    lemma_gates_of(rest, i);
                    assert(rest[i] == items[i + 1]);
                    compiled_gate_is_simplified(items[i + 1]);
                }
                lemma_connectives_simplified(xs);
            } else if head == "not"@ {
                compiled_gate_is_simplified(items[1]);
            } else {
            }
        },
    }
}

/// What a hint expression claims, read off its text.
pub open spec fn hint_says(m: Progress, s: Sexpr, e: bool, c: bool) -> bool
    decreases s,
{
    match s {
        Sexpr::Atom(_) => false,
        Sexpr::List(items) => if items.len() == 0 {
            false
        } else {
            match items[0] {
                Sexpr::List(_) => false,
                Sexpr::Atom(head) => if head == "hint-enabled"@ {
                    e
                } else if head == "hint-cooled-down"@ {
                    c
                } else if head == "and"@ {
                    forall|i: int| 0 < i < items.len() ==> hint_says(m, #[trigger] items[i], e, c)
                } else if head == "or"@ {
                    exists|i: int| 0 < i < items.len() && hint_says(m, #[trigger] items[i], e, c)
                } else if head == "not"@ {
                    items.len() == 2 && !hint_says(m, items[1], e, c)
                } else {
                    says(m, s)
                },
            }
        },
    }
}

pub open spec fn hints_all(m: Progress, xs: Seq<Hint>, e: bool, c: bool) -> bool {
    forall|i: int| 0 <= i < xs.len() ==> ast::hint_holds(m, #[trigger] xs[i], e, c)
}

pub open spec fn hints_any(m: Progress, xs: Seq<Hint>, e: bool, c: bool) -> bool {
    exists|i: int| 0 <= i < xs.len() && ast::hint_holds(m, #[trigger] xs[i], e, c)
}

proof fn lemma_hint_push(m: Progress, xs: Seq<Hint>, g: Hint, e: bool, c: bool)
    ensures
        hints_all(m, xs.push(g), e, c) == (hints_all(m, xs, e, c) && ast::hint_holds(m, g, e, c)),
        hints_any(m, xs.push(g), e, c) == (hints_any(m, xs, e, c) || ast::hint_holds(m, g, e, c)),
{
    let ys = xs.push(g);
    assert(ys[xs.len() as int] == g);
    assert forall|i: int| 0 <= i < xs.len() implies #[trigger] xs[i] == ys[i] by {}
    if hints_all(m, ys, e, c) {
        assert forall|i: int| 0 <= i < xs.len() implies ast::hint_holds(m, #[trigger] xs[i], e, c) by {
            assert(ast::hint_holds(m, ys[i], e, c));
        }
    }
    if hints_any(m, xs, e, c) {
        let i = choose|i: int| 0 <= i < xs.len() && ast::hint_holds(m, #[trigger] xs[i], e, c);
        assert(ast::hint_holds(m, ys[i], e, c));
    }
    if hints_any(m, ys, e, c) {
        let i = choose|i: int| 0 <= i < ys.len() && ast::hint_holds(m, #[trigger] ys[i], e, c);
        if i < xs.len() {
            assert(ast::hint_holds(m, xs[i], e, c));
        }
    }
}

proof fn lemma_hint_concat(m: Progress, xs: Seq<Hint>, zs: Seq<Hint>, e: bool, c: bool)
    ensures
        hints_all(m, xs + zs, e, c) == (hints_all(m, xs, e, c) && hints_all(m, zs, e, c)),
        hints_any(m, xs + zs, e, c) == (hints_any(m, xs, e, c) || hints_any(m, zs, e, c)),
    decreases zs.len(),
{
    if zs.len() == 0 {
        assert(xs + zs == xs);
    } else {
        assert(xs + zs == (xs + zs.drop_last()).push(zs.last()));
        assert(zs == zs.drop_last().push(zs.last()));
        lemma_hint_concat(m, xs, zs.drop_last(), e, c);
        lemma_hint_push(m, xs + zs.drop_last(), zs.last(), e, c);
        lemma_hint_push(m, zs.drop_last(), zs.last(), e, c);
    }
}

proof fn lemma_hint_connectives(m: Progress, xs: Seq<Hint>, e: bool, c: bool)
    ensures
        ast::hint_holds(m, Hint::And(xs), e, c) == hints_all(m, xs, e, c),
        ast::hint_holds(m, Hint::Or(xs), e, c) == hints_any(m, xs, e, c),
{
    let a = Hint::And(xs);
    let o = Hint::Or(xs);
    if ast::hint_holds(m, a, e, c) {
        assert forall|i: int| 0 <= i < xs.len() implies ast::hint_holds(m, #[trigger] xs[i], e, c) by {
            assert(a->And_0[i] == xs[i]);
        }
    }
    if hints_any(m, xs, e, c) {
        let i = choose|i: int| 0 <= i < xs.len() && ast::hint_holds(m, #[trigger] xs[i], e, c);
        assert(o->Or_0[i] == xs[i]);
    }
}

proof fn lemma_hint_and_parts(m: Progress, xs: Seq<Hint>, e: bool, c: bool)
    ensures
        hints_all(m, hint_and_parts(xs), e, c) == hints_all(m, xs, e, c),
    decreases xs.len(),
{
    if xs.len() > 0 {
        let rest = xs.drop_last();
        lemma_hint_and_parts(m, rest, e, c);
        assert(xs == rest.push(xs.last()));
        lemma_hint_push(m, rest, xs.last(), e, c);
        match xs.last() {
            Hint::Gate(Gate::True) => {},
            Hint::And(inner) => {
                lemma_hint_concat(m, hint_and_parts(rest), inner, e, c);
                lemma_hint_connectives(m, inner, e, c);
            },
            g => {
                lemma_hint_push(m, hint_and_parts(rest), g, e, c);
            },
        }
    }
}

proof fn lemma_hint_or_parts(m: Progress, xs: Seq<Hint>, e: bool, c: bool)
    ensures
        hints_any(m, hint_or_parts(xs), e, c) == hints_any(m, xs, e, c),
    decreases xs.len(),
{
    if xs.len() > 0 {
        let rest = xs.drop_last();
        lemma_hint_or_parts(m, rest, e, c);
        assert(xs == rest.push(xs.last()));
        lemma_hint_push(m, rest, xs.last(), e, c);
        match xs.last() {
            Hint::Gate(Gate::False) => {},
            Hint::Or(inner) => {
                lemma_hint_concat(m, hint_or_parts(rest), inner, e, c);
                lemma_hint_connectives(m, inner, e, c);
            },
            g => {
                lemma_hint_push(m, hint_or_parts(rest), g, e, c);
            },
        }
    }
}

/// Simplifying a connective of hint conditions does not change what it means.
pub proof fn hint_simplification_keeps_meaning(m: Progress, xs: Seq<Hint>, g: Hint, e: bool, c: bool)
    ensures
        ast::hint_holds(m, hint_and_of(xs), e, c) == hints_all(m, xs, e, c),
        ast::hint_holds(m, hint_or_of(xs), e, c) == hints_any(m, xs, e, c),
        ast::hint_holds(m, hint_not_of(g), e, c) == !ast::hint_holds(m, g, e, c),
{
    lemma_hint_and_parts(m, xs, e, c);
    lemma_hint_or_parts(m, xs, e, c);
    lemma_hint_connectives(m, hint_and_parts(xs), e, c);
    lemma_hint_connectives(m, hint_or_parts(xs), e, c);
    if exists|i: int| 0 <= i < xs.len() && #[trigger] xs[i] == Hint::Gate(Gate::False) {
        let i = choose|i: int| 0 <= i < xs.len() && #[trigger] xs[i] == Hint::Gate(Gate::False);
        assert(!ast::hint_holds(m, xs[i], e, c));
    }
    if exists|i: int| 0 <= i < xs.len() && #[trigger] xs[i] == Hint::Gate(Gate::True) {
        let i = choose|i: int| 0 <= i < xs.len() && #[trigger] xs[i] == Hint::Gate(Gate::True);
        assert(ast::hint_holds(m, xs[i], e, c));
    }
}

proof fn lemma_hints_of(items: Seq<Sexpr>, i: int)
    requires
        0 <= i < items.len(),
        hints_of(items) is Ok,
    ensures
        hints_of(items)->Ok_0.len() == items.len(),
        hint_of(items[i]) == Ok::<Hint, CompileFault>(hints_of(items)->Ok_0[i]),
    decreases items.len(),
{
    lemma_hints_of_len(items);
    lemma_hints_of_len(items.drop_last());
    if i < items.len() - 1 {
        lemma_hints_of(items.drop_last(), i);
    }
}

proof fn lemma_hints_of_len(items: Seq<Sexpr>)
    ensures
        hints_of(items) matches Ok(v) ==> v.len() == items.len(),
    decreases items.len(),
{
    if items.len() > 0 {
        lemma_hints_of_len(items.drop_last());
    }
}

/// A hint expression that compiles means, compiled, what its text says.
pub proof fn compiled_hint_means_its_text(m: Progress, s: Sexpr, e: bool, c: bool)
    requires
        hint_of(s) is Ok,
    ensures
        ast::hint_holds(m, hint_of(s)->Ok_0, e, c) == hint_says(m, s, e, c),
    decreases s,
{
    match s {
        Sexpr::Atom(_) => {},
        Sexpr::List(items) => {
            let head = text_of(items[0])->Ok_0;
            if head == "hint-enabled"@ || head == "hint-cooled-down"@ {
            } else if head == "and"@ || head == "or"@ {
                let rest = items.skip(1);
                let xs = hints_of(rest)->Ok_0;
                lemma_hints_of_len(rest);
                assert forall|i: int| 0 <= i < xs.len() implies ast::hint_holds(m, #[trigger] xs[i], e, c) == hint_says(
                    m,
                    items[i + 1], e, c) by {
                    lemma_hints_of(rest, i);
                    assert(rest[i] == items[i + 1]);
                    compiled_hint_means_its_text(m, items[i + 1], e, c);
                }
                hint_simplification_keeps_meaning(m, xs, Hint::HintEnabled, e, c);
                assert(s->List_0 == items);
                if head == "and"@ {
                    if hint_says(m, s, e, c) {
                        assert forall|i: int| 0 <= i < xs.len() implies ast::hint_holds(
                            m,
                            #[trigger] xs[i], e, c) by {
                            assert(hint_says(m, s->List_0[i + 1], e, c));
                        }
                    }
                    if hints_all(m, xs, e, c) {
                        assert forall|i: int| 0 < i < items.len() implies hint_says(
                            m,
                            #[trigger] s->List_0[i], e, c) by {
                            assert(ast::hint_holds(m, xs[i - 1], e, c));
                        }
                    }
                } else {
                    if hint_says(m, s, e, c) {
                        let i = choose|i: int|
                            0 < i < items.len() && hint_says(m, #[trigger] s->List_0[i], e, c);
                        assert(ast::hint_holds(m, xs[i - 1], e, c));
                    }
                    if hints_any(m, xs, e, c) {
                        let i = choose|i: int| 0 <= i < xs.len() && ast::hint_holds(m, #[trigger] xs[i], e, c);
                        assert(hint_says(m, s->List_0[i + 1], e, c));
                    }
                }
            } else if head == "not"@ {
                compiled_hint_means_its_text(m, items[1], e, c);
                hint_simplification_keeps_meaning(m, Seq::empty(), hint_of(items[1])->Ok_0, e, c);
            } else {
                compiled_gate_means_its_text(m, s);
            }
        },
    }
}

/// Whether an expression is a word that only conditions of hints know.
pub open spec fn is_hint_word(s: Sexpr) -> bool {
    s == Sexpr::Atom("hint-enabled"@) || s == Sexpr::Atom("hint-cooled-down"@)
}

/// Whether a list in an expression starts with a word that only conditions of hints know.
pub open spec fn speaks_of_hints(s: Sexpr) -> bool
    decreases s,
{
    match s {
        Sexpr::Atom(_) => false,
        Sexpr::List(items) => {
            ||| items.len() > 0 && is_hint_word(items[0])
            ||| exists|i: int| 0 <= i < items.len() && speaks_of_hints(#[trigger] items[i])
        },
    }
}

/// Whether an expression is a conjunction, a disjunction or a negation.
pub open spec fn is_connective(s: Sexpr) -> bool {
    s matches Sexpr::List(items) && items.len() > 0 && (items[0] == Sexpr::Atom("and"@) || items[0]
        == Sexpr::Atom("or"@) || items[0] == Sexpr::Atom("not"@))
}

/// Whether two results both are there, or are the same error.
pub open spec fn fail_alike<A, B>(a: Result<A, CompileFault>, b: Result<B, CompileFault>) -> bool {
    match (a, b) {
        (Ok(_), Ok(_)) => true,
        (Err(e), Err(f)) => e == f,
        _ => false,
    }
}

/// An expression that does not speak of hints compiles to a condition of a hint if and only if it
/// compiles to a gate, and otherwise the same is wrong with both. If it is no connective, the
/// condition is nothing but its gate. In any case both hold for the same teams.
pub proof fn hints_agree_with_gates(s: Sexpr, m: Progress, e: bool, c: bool)
    requires
        !speaks_of_hints(s),
    ensures
        fail_alike(hint_of(s), gate_of(s)),
        !is_connective(s) ==> hint_of(s) == (match gate_of(s) {
            Ok(g) => Ok::<Hint, CompileFault>(Hint::Gate(g)),
            Err(f) => Err(f),
        }),
        hint_of(s) matches Ok(h) ==> ast::hint_holds(m, h, e, c) == ast::holds(
            m,
            gate_of(s)->Ok_0,
        ),
{
    lemma_hints_fail_alike(s);
    if hint_of(s) is Ok {
        compiled_hint_means_its_text(m, s, e, c);
        compiled_gate_means_its_text(m, s);
        lemma_hints_say_alike(m, s, e, c);
    }
}

proof fn lemma_words_differ()
    ensures
        "and"@ != "true"@ && "and"@ != "false"@,
        "or"@ != "true"@ && "or"@ != "false"@,
        "not"@ != "true"@ && "not"@ != "false"@,
        "or"@ != "and"@ && "not"@ != "and"@ && "not"@ != "or"@,
{
    reveal_strlit("and");
    reveal_strlit("or");
    reveal_strlit("not");
    reveal_strlit("true");
    reveal_strlit("false");
    assert("and"@.len() == 3 && "or"@.len() == 2 && "not"@.len() == 3);
    assert("true"@.len() == 4 && "false"@.len() == 5);
    assert("not"@[0] == 'n' && "and"@[0] == 'a');
}

proof fn lemma_hints_fail_alike(s: Sexpr)
    requires
        !speaks_of_hints(s),
    ensures
        fail_alike(hint_of(s), gate_of(s)),
        !is_connective(s) ==> hint_of(s) == (match gate_of(s) {
            Ok(g) => Ok::<Hint, CompileFault>(Hint::Gate(g)),
            Err(f) => Err(f),
        }),
    decreases s,
{
    lemma_words_differ();
    if let Sexpr::List(items) = s {
        if items.len() > 0 {
            if let Sexpr::Atom(head) = items[0] {
                assert(!is_hint_word(items[0]));
                if head == "and"@ || head == "or"@ {
                    let rest = items.skip(1);
                    assert forall|i: int| 0 <= i < rest.len() implies !speaks_of_hints(
                        #[trigger] rest[i],
                    ) by {
                        assert(rest[i] == items[i + 1]);
                        assert(!speaks_of_hints(s->List_0[i + 1]));
                    }
                    lemma_lists_fail_alike(rest);
                } else if head == "not"@ && items.len() == 2 {
                    assert(!speaks_of_hints(s->List_0[1]));
                    lemma_hints_fail_alike(items[1]);
                }
            }
        }
    }
}

proof fn lemma_lists_fail_alike(items: Seq<Sexpr>)
    requires
        forall|i: int| 0 <= i < items.len() ==> !speaks_of_hints(#[trigger] items[i]),
    ensures
        fail_alike(hints_of(items), gates_of(items)),
    decreases items,
{
    if items.len() > 0 {
        let init = items.drop_last();
        assert forall|i: int| 0 <= i < init.len() implies !speaks_of_hints(#[trigger] init[i]) by {
            assert(init[i] == items[i]);
        }
        lemma_lists_fail_alike(init);
        assert(!speaks_of_hints(items[items.len() - 1]));
        lemma_hints_fail_alike(items.last());
    }
}

proof fn lemma_hints_say_alike(m: Progress, s: Sexpr, e: bool, c: bool)
    requires
        !speaks_of_hints(s),
    ensures
        hint_says(m, s, e, c) == says(m, s),
    decreases s,
{
    lemma_words_differ();
    if let Sexpr::List(items) = s {
        if items.len() > 0 {
            assert(!is_hint_word(items[0]));
            assert forall|i: int| 0 <= i < items.len() implies hint_says(
                m,
                #[trigger] s->List_0[i],
                e,
                c,
            ) == says(m, s->List_0[i]) by {
                assert(!speaks_of_hints(s->List_0[i]));
                lemma_hints_say_alike(m, items[i], e, c);
            }
            if items[0] == Sexpr::Atom("or"@) {
                if says(m, s) {
                    let i = choose|i: int| 0 < i < items.len() && says(m, #[trigger] s->List_0[i]);
                    assert(hint_says(m, s->List_0[i], e, c));
                }
                if hint_says(m, s, e, c) {
                    let i = choose|i: int|
                        0 < i < items.len() && hint_says(m, #[trigger] s->List_0[i], e, c);
                    assert(says(m, s->List_0[i]));
                }
            } else if items[0] == Sexpr::Atom("not"@) && items.len() == 2 {
                assert(hint_says(m, s->List_0[1], e, c) == says(m, s->List_0[1]));
            }
        }
    }
}

/// A trigger is named by one to 64 letters, digits, underscores and hyphens, the first of them a letter.
pub proof fn triggers_are_named_by_letters(key: Seq<char>, i: int)
    ensures
        is_trigger_key(key) ==> 1 <= key.len() && key.len() <= 64 && (('a' <= key[0] && key[0] <= 'z')
            || ('A' <= key[0] && key[0] <= 'Z')),
        is_trigger_key(key) && 0 <= i < key.len() ==> ('a' <= key[i] && key[i] <= 'z') || ('A'
            <= key[i] && key[i] <= 'Z') || ('0' <= key[i] && key[i] <= '9') || key[i] == '_' || key[i]
            == '-',
        1 <= key.len() && key.len() <= 64 && (('a' <= key[0] && key[0] <= 'z') || ('A' <= key[0]
            && key[0] <= 'Z')) && (forall|k: int|
            0 <= k < key.len() ==> ('a' <= #[trigger] key[k] && key[k] <= 'z') || ('A' <= key[k]
                && key[k] <= 'Z') || ('0' <= key[k] && key[k] <= '9') || key[k] == '_' || key[k]
                == '-') ==> is_trigger_key(key),
{
    if is_trigger_key(key) && 0 < i < key.len() {
        let c = key[i];
    }
}

/// Atoms are numbers where they are read as such and fit, and names otherwise; a list is neither.
pub proof fn atoms_are_numbers_or_names(a: Seq<char>, items: Seq<Sexpr>)
    ensures
        ({
            let n = text::decimal_value(a);
            let small = n is Some && n->0 <= u32::MAX;
            &&& small ==> name_of(Sexpr::Atom(a)) == Ok::<Name, CompileFault>(
                Name::Id(n->0 as u32),
            ) && u32_of(Sexpr::Atom(a)) == Ok::<u32, CompileFault>(n->0 as u32)
            &&& !small ==> name_of(Sexpr::Atom(a)) == Ok::<Name, CompileFault>(Name::Slug(a))
                && u32_of(Sexpr::Atom(a)) == Err::<u32, CompileFault>(CompileFault::ExpectedNumber)
            &&& n is Some && n->0 <= usize::MAX ==> usize_of(Sexpr::Atom(a)) == Ok::<
                usize,
                CompileFault,
            >(n->0 as usize)
            &&& n is None || n->0 > usize::MAX ==> usize_of(Sexpr::Atom(a)) == Err::<
                usize,
                CompileFault,
            >(CompileFault::ExpectedNumber)
        }),
        text_of(Sexpr::Atom(a)) == Ok::<Seq<char>, CompileFault>(a),
        text_of(Sexpr::List(items)) == Err::<Seq<char>, CompileFault>(CompileFault::ExpectedAtom),
        name_of(Sexpr::List(items)) == Err::<Name, CompileFault>(CompileFault::ExpectedAtom),
        u32_of(Sexpr::List(items)) == Err::<u32, CompileFault>(CompileFault::ExpectedAtom),
        usize_of(Sexpr::List(items)) == Err::<usize, CompileFault>(CompileFault::ExpectedAtom),
{
}

proof fn lemma_set_words()
    ensures
        "puzzles"@ != "puzzle-range"@ && "puzzles"@ != "round"@ && "puzzle-range"@ != "round"@,
{
    reveal_strlit("puzzles");
    reveal_strlit("puzzle-range");
    reveal_strlit("round");
    assert("puzzles"@.len() == 7 && "puzzle-range"@.len() == 12 && "round"@.len() == 5);
}

/// Sets of puzzles are written in three ways: by the names of puzzles, by the first and the last number
/// of a range, and by the name of a round.
pub proof fn sets_are_written_in_three_ways(
    names: Seq<Sexpr>,
    a: Sexpr,
    b: Sexpr,
    word: Seq<char>,
)
    ensures
        set_of(Sexpr::List(seq![Sexpr::Atom("puzzles"@)] + names)) == (match names_of(names) {
            Ok(v) => Ok::<PuzzleSet, CompileFault>(PuzzleSet::Puzzles(v)),
            Err(e) => Err(e),
        }),
        u32_of(a) is Ok && u32_of(b) is Ok ==> set_of(
            Sexpr::List(seq![Sexpr::Atom("puzzle-range"@), a, b]),
        ) == Ok::<PuzzleSet, CompileFault>(PuzzleSet::Range(u32_of(a)->Ok_0, u32_of(b)->Ok_0)),
        name_of(a) is Ok ==> set_of(Sexpr::List(seq![Sexpr::Atom("round"@), a])) == Ok::<
            PuzzleSet,
            CompileFault,
        >(PuzzleSet::Round(name_of(a)->Ok_0)),
        set_of(Sexpr::Atom(word)) == Err::<PuzzleSet, CompileFault>(CompileFault::ExpectedSetExpr),
        word != "puzzles"@ && word != "puzzle-range"@ && word != "round"@ ==> set_of(
            Sexpr::List(seq![Sexpr::Atom(word)] + names),
        ) == Err::<PuzzleSet, CompileFault>(CompileFault::ExpectedSetExpr),
{
    lemma_set_words();
    let all = seq![Sexpr::Atom("puzzles"@)] + names;
    assert(all.skip(1) =~= names);
    assert(all[0] == Sexpr::Atom("puzzles"@));
    assert((seq![Sexpr::Atom(word)] + names)[0] == Sexpr::Atom(word));
    let range = seq![Sexpr::Atom("puzzle-range"@), a, b];
    assert(range[0] == Sexpr::Atom("puzzle-range"@) && range[1] == a && range[2] == b);
    let round = seq![Sexpr::Atom("round"@), a];
    assert(round[0] == Sexpr::Atom("round"@) && round[1] == a);
}

/// Names are read one by one, in their order, and a list of names can be read where each can.
pub proof fn names_are_read_one_by_one(items: Seq<Sexpr>, item: Sexpr)
    ensures
        names_of(Seq::empty()) == Ok::<Seq<Name>, CompileFault>(Seq::empty()),
        names_of(items) is Ok && name_of(item) is Ok ==> names_of(items.push(item)) == Ok::<
            Seq<Name>,
            CompileFault,
        >(names_of(items)->Ok_0.push(name_of(item)->Ok_0)),
        names_of(items) is Err ==> names_of(items.push(item)) == names_of(items),
        names_of(items) is Ok && name_of(item) is Err ==> names_of(items.push(item)) == Err::<
            Seq<Name>,
            CompileFault,
        >(name_of(item)->Err_0),
{
    assert(items.push(item).drop_last() =~= items);
}

/// A value is a number or the count of the solved puzzles of a set.
pub proof fn values_are_numbers_or_counts(a: Seq<char>, set: Sexpr)
    ensures
        usize_of(Sexpr::Atom(a)) is Ok ==> value_of(Sexpr::Atom(a)) == Ok::<Value, CompileFault>(
            Value::Number(usize_of(Sexpr::Atom(a))->Ok_0),
        ),
        usize_of(Sexpr::Atom(a)) is Err ==> value_of(Sexpr::Atom(a)) is Err,
        set_of(set) is Ok ==> value_of(Sexpr::List(seq![Sexpr::Atom("solved-count"@), set])) == Ok::<
            Value,
            CompileFault,
        >(Value::SolvedCount(set_of(set)->Ok_0)),
        set_of(set) is Err ==> value_of(Sexpr::List(seq![Sexpr::Atom("solved-count"@), set])) is Err,
{
    let all = seq![Sexpr::Atom("solved-count"@), set];
    assert(all[0] == Sexpr::Atom("solved-count"@) && all[1] == set);
}

/// Each comparison has a word of its own.
pub proof fn comparisons_have_their_words()
    ensures
        comparison_of("gt"@) == Some(CmpOp::Gt),
        comparison_of("ge"@) == Some(CmpOp::Ge),
        comparison_of("lt"@) == Some(CmpOp::Lt),
        comparison_of("le"@) == Some(CmpOp::Le),
        comparison_of("eq"@) == Some(CmpOp::Eq),
        comparison_of("ne"@) == Some(CmpOp::Ne),
{
    reveal_strlit("gt");
    reveal_strlit("ge");
    reveal_strlit("lt");
    reveal_strlit("le");
    reveal_strlit("eq");
    reveal_strlit("ne");
    assert("gt"@[0] == 'g' && "gt"@[1] == 't' && "ge"@[0] == 'g' && "ge"@[1] == 'e');
    assert("lt"@[0] == 'l' && "lt"@[1] == 't' && "le"@[0] == 'l' && "le"@[1] == 'e');
    assert("eq"@[0] == 'e' && "ne"@[0] == 'n');
}

proof fn lemma_gate_words()
    ensures
        ({
            let words = seq![
                "true"@,
                "false"@,
                "and"@,
                "or"@,
                "not"@,
                "solved"@,
                "all-solved"@,
                "any-solved"@,
                "game-started"@,
                "triggered"@,
            ];
            forall|i: int, j: int|
                0 <= i < j < words.len() ==> #[trigger] words[i] != #[trigger] words[j]
        }),
        ({
            let words = seq![
                "true"@,
                "false"@,
                "and"@,
                "or"@,
                "not"@,
                "solved"@,
                "all-solved"@,
                "any-solved"@,
                "game-started"@,
                "triggered"@,
            ];
            forall|i: int, head: Seq<char>|
                0 <= i < words.len() && #[trigger] comparison_of(head) is Some ==> #[trigger] words[i]
                    != head
        }),
{
    reveal_strlit("true");
    reveal_strlit("false");
    reveal_strlit("and");
    reveal_strlit("or");
    reveal_strlit("not");
    reveal_strlit("solved");
    reveal_strlit("all-solved");
    reveal_strlit("any-solved");
    reveal_strlit("game-started");
    reveal_strlit("triggered");
    reveal_strlit("gt");
    reveal_strlit("ge");
    reveal_strlit("lt");
    reveal_strlit("le");
    reveal_strlit("eq");
    reveal_strlit("ne");
    assert("true"@.len() == 4 && "false"@.len() == 5 && "and"@.len() == 3 && "or"@.len() == 2
        && "not"@.len() == 3 && "solved"@.len() == 6 && "all-solved"@.len() == 10
        && "any-solved"@.len() == 10 && "game-started"@.len() == 12 && "triggered"@.len() == 9);
    assert("and"@[0] == 'a' && "not"@[0] == 'n');
    assert("all-solved"@[1] == 'l' && "any-solved"@[1] == 'n');
    assert("or"@[0] == 'o');
    assert("gt"@[0] == 'g' && "ge"@[0] == 'g' && "lt"@[0] == 'l' && "le"@[0] == 'l' && "eq"@[0]
        == 'e' && "ne"@[0] == 'n');
    assert("gt"@.len() == 2 && "ge"@.len() == 2 && "lt"@.len() == 2 && "le"@.len() == 2
        && "eq"@.len() == 2 && "ne"@.len() == 2);
}

/// What is asked of a team is written with a word for each question: whether a puzzle is solved,
/// whether all or any of a set are, whether the game has started, whether a trigger has fired, and how
/// two values compare.
pub proof fn questions_have_their_words(a: Sexpr, b: Sexpr, key: Seq<char>, op: Seq<char>)
    ensures
        gate_of(Sexpr::List(seq![Sexpr::Atom("true"@)])) == Ok::<Gate, CompileFault>(Gate::True),
        gate_of(Sexpr::List(seq![Sexpr::Atom("false"@)])) == Ok::<Gate, CompileFault>(Gate::False),
        gate_of(Sexpr::List(seq![Sexpr::Atom("game-started"@)])) == Ok::<Gate, CompileFault>(
            Gate::GameStarted,
        ),
        name_of(a) is Ok ==> gate_of(Sexpr::List(seq![Sexpr::Atom("solved"@), a])) == Ok::<
            Gate,
            CompileFault,
        >(Gate::Solved(name_of(a)->Ok_0)),
        set_of(a) is Ok ==> gate_of(Sexpr::List(seq![Sexpr::Atom("all-solved"@), a])) == Ok::<
            Gate,
            CompileFault,
        >(Gate::AllSolved(set_of(a)->Ok_0)),
        set_of(a) is Ok ==> gate_of(Sexpr::List(seq![Sexpr::Atom("any-solved"@), a])) == Ok::<
            Gate,
            CompileFault,
        >(Gate::AnySolved(set_of(a)->Ok_0)),
        name_of(a) is Ok && is_trigger_key(key) ==> gate_of(
            Sexpr::List(seq![Sexpr::Atom("triggered"@), a, Sexpr::Atom(key)]),
        ) == Ok::<Gate, CompileFault>(Gate::Triggered(name_of(a)->Ok_0, key)),
        !is_trigger_key(key) ==> gate_of(
            Sexpr::List(seq![Sexpr::Atom("triggered"@), a, Sexpr::Atom(key)]),
        ) is Err,
        comparison_of(op) is Some && value_of(a) is Ok && value_of(b) is Ok ==> gate_of(
            Sexpr::List(seq![Sexpr::Atom(op), a, b]),
        ) == Ok::<Gate, CompileFault>(
            Gate::Cmp(comparison_of(op)->0, value_of(a)->Ok_0, value_of(b)->Ok_0),
        ),
{
    lemma_gate_words();
    let words = seq![
        "true"@,
        "false"@,
        "and"@,
        "or"@,
        "not"@,
        "solved"@,
        "all-solved"@,
        "any-solved"@,
        "game-started"@,
        "triggered"@,
    ];
    assert(words[0] == "true"@ && words[1] == "false"@ && words[2] == "and"@ && words[3] == "or"@
        && words[4] == "not"@ && words[5] == "solved"@ && words[6] == "all-solved"@ && words[7]
        == "any-solved"@ && words[8] == "game-started"@ && words[9] == "triggered"@);
    assert(forall|head: Seq<char>| #[trigger]
        text_of(seq![Sexpr::Atom(head)][0]) == Ok::<Seq<char>, CompileFault>(head));
    let solved = seq![Sexpr::Atom("solved"@), a];
    assert(text_of(solved[0]) == Ok::<Seq<char>, CompileFault>("solved"@) && solved[1] == a);
    let every = seq![Sexpr::Atom("all-solved"@), a];
    assert(text_of(every[0]) == Ok::<Seq<char>, CompileFault>("all-solved"@) && every[1] == a);
    let any = seq![Sexpr::Atom("any-solved"@), a];
    assert(text_of(any[0]) == Ok::<Seq<char>, CompileFault>("any-solved"@) && any[1] == a);
    let fired = seq![Sexpr::Atom("triggered"@), a, Sexpr::Atom(key)];
    assert(text_of(fired[0]) == Ok::<Seq<char>, CompileFault>("triggered"@) && fired[1] == a
        && text_of(fired[2]) == Ok::<Seq<char>, CompileFault>(key));
    let compared = seq![Sexpr::Atom(op), a, b];
    assert(text_of(compared[0]) == Ok::<Seq<char>, CompileFault>(op) && compared[1] == a
        && compared[2] == b);
}

proof fn lemma_gates_read(items: Seq<Sexpr>)
    ensures
        gates_of(items) is Ok <==> forall|i: int|
            0 <= i < items.len() ==> gate_of(#[trigger] items[i]) is Ok,
    decreases items.len(),
{
    if items.len() > 0 {
        let init = items.drop_last();
        lemma_gates_read(init);
        assert(items[items.len() - 1] == items.last());
        if gates_of(items) is Ok {
            assert forall|i: int| 0 <= i < items.len() implies gate_of(#[trigger] items[i]) is Ok by {
                if i < init.len() {
                    assert(init[i] == items[i]);
                }
            }
        }
        if forall|i: int| 0 <= i < items.len() ==> gate_of(#[trigger] items[i]) is Ok {
            assert forall|i: int| 0 <= i < init.len() implies gate_of(#[trigger] init[i]) is Ok by {
                assert(init[i] == items[i]);
            }
        }
    }
}

/// Conditions joined by "and" can be read where each can, and hold where each holds; joined by "or"
/// they hold where one holds; "not" turns one around.
pub proof fn conditions_are_joined_by_words(m: Progress, parts: Seq<Sexpr>, part: Sexpr)
    ensures
        ({
            let both = gate_of(Sexpr::List(seq![Sexpr::Atom("and"@)] + parts));
            let one = gate_of(Sexpr::List(seq![Sexpr::Atom("or"@)] + parts));
            let turned = gate_of(Sexpr::List(seq![Sexpr::Atom("not"@), part]));
            let readable = forall|i: int|
                0 <= i < parts.len() ==> gate_of(#[trigger] parts[i]) is Ok;
            &&& both is Ok <==> readable
            &&& one is Ok <==> readable
            &&& turned is Ok <==> gate_of(part) is Ok
            &&& both is Ok ==> (ast::holds(m, both->Ok_0) <==> forall|i: int|
                0 <= i < parts.len() ==> ast::holds(m, gate_of(#[trigger] parts[i])->Ok_0))
            &&& one is Ok ==> (ast::holds(m, one->Ok_0) <==> exists|i: int|
                0 <= i < parts.len() && ast::holds(m, gate_of(#[trigger] parts[i])->Ok_0))
            &&& turned is Ok ==> (ast::holds(m, turned->Ok_0) <==> !ast::holds(
                m,
                gate_of(part)->Ok_0,
            ))
        }),
{
    lemma_gate_words();
    let words = seq![
        "true"@,
        "false"@,
        "and"@,
        "or"@,
        "not"@,
        "solved"@,
        "all-solved"@,
        "any-solved"@,
        "game-started"@,
        "triggered"@,
    ];
    assert(words[0] == "true"@ && words[1] == "false"@ && words[2] == "and"@ && words[3] == "or"@
        && words[4] == "not"@);
    let x = seq![Sexpr::Atom("and"@)] + parts;
    let y = seq![Sexpr::Atom("or"@)] + parts;
    let z = seq![Sexpr::Atom("not"@), part];
    assert(x.skip(1) =~= parts);
    assert(y.skip(1) =~= parts);
    assert(x[0] == Sexpr::Atom("and"@) && y[0] == Sexpr::Atom("or"@) && z[0] == Sexpr::Atom(
        "not"@,
    ) && z[1] == part);
    lemma_gates_read(parts);
    lemma_gates_of_len(parts);
    if gate_of(part) is Ok {
        simplification_keeps_meaning(m, Seq::empty(), gate_of(part)->Ok_0);
    }
    if gates_of(parts) is Ok {
        let gates = gates_of(parts)->Ok_0;
        simplification_keeps_meaning(m, gates, Gate::True);
        assert forall|i: int| 0 <= i < parts.len() implies gate_of(#[trigger] parts[i])->Ok_0
            == gates[i] by {
            lemma_gates_of(parts, i);
        }
        if all_hold(m, gates) {
            assert forall|i: int| 0 <= i < parts.len() implies ast::holds(
                m,
                gate_of(#[trigger] parts[i])->Ok_0,
            ) by {
                assert(ast::holds(m, gates[i]));
            }
        } else {
            let i = choose|i: int| 0 <= i < gates.len() && !ast::holds(m, #[trigger] gates[i]);
            assert(!ast::holds(m, gate_of(parts[i])->Ok_0));
        }
        if any_holds(m, gates) {
            let i = choose|i: int| 0 <= i < gates.len() && ast::holds(m, #[trigger] gates[i]);
            assert(ast::holds(m, gate_of(parts[i])->Ok_0));
        }
        if exists|i: int| 0 <= i < parts.len() && ast::holds(m, gate_of(#[trigger] parts[i])->Ok_0) {
            let i = choose|i: int|
                0 <= i < parts.len() && ast::holds(m, gate_of(#[trigger] parts[i])->Ok_0);
            assert(ast::holds(m, gates[i]));
        }
    }
}

/// A condition that is no list, an empty list, or a list that starts with a list cannot be read, nor
/// can one that starts with a word that is not known.
pub proof fn other_conditions_are_not_read(word: Seq<char>, inner: Seq<Sexpr>, rest: Seq<Sexpr>)
    ensures
        gate_of(Sexpr::Atom(word)) is Err,
        hint_of(Sexpr::Atom(word)) is Err,
        gate_of(Sexpr::List(Seq::empty())) is Err,
        hint_of(Sexpr::List(Seq::empty())) is Err,
        gate_of(Sexpr::List(seq![Sexpr::List(inner)] + rest)) == Err::<Gate, CompileFault>(
            CompileFault::ExpectedAtom,
        ),
        hint_of(Sexpr::List(seq![Sexpr::List(inner)] + rest)) == Err::<Hint, CompileFault>(
            CompileFault::ExpectedAtom,
        ),
        word != "true"@ && word != "false"@ && word != "and"@ && word != "or"@ && word != "not"@ && word
            != "solved"@ && word != "all-solved"@ && word != "any-solved"@ && word != "game-started"@
            && word != "triggered"@ && comparison_of(word) is None ==> gate_of(
            Sexpr::List(seq![Sexpr::Atom(word)] + rest),
        ) == Err::<Gate, CompileFault>(CompileFault::UnknownOp(word)),
{
    assert((seq![Sexpr::List(inner)] + rest)[0] == Sexpr::List(inner));
    assert((seq![Sexpr::Atom(word)] + rest)[0] == Sexpr::Atom(word));
}

/// Conditions of hints have two questions more, and what is neither of these nor joined is read as
/// any other condition.
pub proof fn conditions_of_hints_have_two_questions_more(word: Seq<char>, rest: Seq<Sexpr>)
    ensures
        hint_of(Sexpr::List(seq![Sexpr::Atom("hint-enabled"@)])) == Ok::<Hint, CompileFault>(
            Hint::HintEnabled,
        ),
        hint_of(Sexpr::List(seq![Sexpr::Atom("hint-cooled-down"@)])) == Ok::<Hint, CompileFault>(
            Hint::HintCooledDown,
        ),
        ({
            let read = Sexpr::List(seq![Sexpr::Atom(word)] + rest);
            word != "hint-enabled"@ && word != "hint-cooled-down"@ && word != "and"@ && word != "or"@
                && word != "not"@ ==> hint_of(read) == (match gate_of(read) {
                Ok(g) => Ok::<Hint, CompileFault>(Hint::Gate(g)),
                Err(e) => Err(e),
            })
        }),
{
    reveal_strlit("hint-enabled");
    reveal_strlit("hint-cooled-down");
    assert("hint-enabled"@.len() == 12 && "hint-cooled-down"@.len() == 16);
    assert(seq![Sexpr::Atom("hint-enabled"@)][0] == Sexpr::Atom("hint-enabled"@));
    assert(seq![Sexpr::Atom("hint-cooled-down"@)][0] == Sexpr::Atom("hint-cooled-down"@));
    assert((seq![Sexpr::Atom(word)] + rest)[0] == Sexpr::Atom(word));
}

/// Each question takes the number of parts that it is written with, and is not read with fewer or more.
pub proof fn questions_take_their_number_of_parts(rest: Seq<Sexpr>, op: Seq<char>)
    ensures
        rest.len() != 0 ==> gate_of(Sexpr::List(seq![Sexpr::Atom("true"@)] + rest)) == Err::<
            Gate,
            CompileFault,
        >(CompileFault::BadForm("true expects 0 arg"@)),
        rest.len() != 0 ==> gate_of(Sexpr::List(seq![Sexpr::Atom("false"@)] + rest)) == Err::<
            Gate,
            CompileFault,
        >(CompileFault::BadForm("false expects 0 arg"@)),
        rest.len() != 1 ==> gate_of(Sexpr::List(seq![Sexpr::Atom("not"@)] + rest)) == Err::<
            Gate,
            CompileFault,
        >(CompileFault::BadForm("not expects 1 arg"@)),
        rest.len() != 1 ==> gate_of(Sexpr::List(seq![Sexpr::Atom("solved"@)] + rest)) == Err::<
            Gate,
            CompileFault,
        >(CompileFault::BadForm("solved expects 1 arg"@)),
        rest.len() != 1 ==> gate_of(Sexpr::List(seq![Sexpr::Atom("all-solved"@)] + rest)) == Err::<
            Gate,
            CompileFault,
        >(CompileFault::BadForm("all-solved expects 1 set arg"@)),
        rest.len() != 1 ==> gate_of(Sexpr::List(seq![Sexpr::Atom("any-solved"@)] + rest)) == Err::<
            Gate,
            CompileFault,
        >(CompileFault::BadForm("any-solved expects 1 set arg"@)),
        rest.len() != 0 ==> gate_of(Sexpr::List(seq![Sexpr::Atom("game-started"@)] + rest)) == Err::<
            Gate,
            CompileFault,
        >(CompileFault::BadForm("game-started expects 0 arg"@)),
        rest.len() != 2 ==> gate_of(Sexpr::List(seq![Sexpr::Atom("triggered"@)] + rest)) == Err::<
            Gate,
            CompileFault,
        >(CompileFault::BadForm("triggered expects 2 args"@)),
        rest.len() != 2 && comparison_of(op) is Some ==> gate_of(
            Sexpr::List(seq![Sexpr::Atom(op)] + rest),
        ) == Err::<Gate, CompileFault>(CompileFault::BadForm("comparison expects 2 args"@)),
        rest.len() != 2 ==> set_of(Sexpr::List(seq![Sexpr::Atom("puzzle-range"@)] + rest)) is Err,
        rest.len() != 1 ==> set_of(Sexpr::List(seq![Sexpr::Atom("round"@)] + rest)) is Err,
        rest.len() != 1 ==> value_of(Sexpr::List(seq![Sexpr::Atom("solved-count"@)] + rest)) is Err,
{
    lemma_gate_words();
    lemma_set_words();
    let words = seq![
        "true"@,
        "false"@,
        "and"@,
        "or"@,
        "not"@,
        "solved"@,
        "all-solved"@,
        "any-solved"@,
        "game-started"@,
        "triggered"@,
    ];
    assert(words[0] == "true"@ && words[1] == "false"@ && words[2] == "and"@ && words[3] == "or"@
        && words[4] == "not"@ && words[5] == "solved"@ && words[6] == "all-solved"@ && words[7]
        == "any-solved"@ && words[8] == "game-started"@ && words[9] == "triggered"@);
    assert forall|head: Seq<char>|
        text_of((#[trigger] (seq![Sexpr::Atom(head)] + rest))[0]) == Ok::<Seq<char>, CompileFault>(
            head,
        ) && (seq![Sexpr::Atom(head)] + rest).len() == rest.len() + 1 by {
        assert((seq![Sexpr::Atom(head)] + rest)[0] == Sexpr::Atom(head));
    }
}

proof fn lemma_hints_read(items: Seq<Sexpr>)
    ensures
        hints_of(items) is Ok <==> forall|i: int|
            0 <= i < items.len() ==> hint_of(#[trigger] items[i]) is Ok,
    decreases items.len(),
{
    if items.len() > 0 {
        let init = items.drop_last();
        lemma_hints_read(init);
        assert(items[items.len() - 1] == items.last());
        if hints_of(items) is Ok {
            assert forall|i: int| 0 <= i < items.len() implies hint_of(#[trigger] items[i]) is Ok by {
                if i < init.len() {
                    assert(init[i] == items[i]);
                }
            }
        }
        if forall|i: int| 0 <= i < items.len() ==> hint_of(#[trigger] items[i]) is Ok {
            assert forall|i: int| 0 <= i < init.len() implies hint_of(#[trigger] init[i]) is Ok by {
                assert(init[i] == items[i]);
            }
        }
    }
}

/// Conditions of hints are joined by the same words as others, and mean the same.
pub proof fn conditions_of_hints_are_joined_by_words(
    m: Progress,
    parts: Seq<Sexpr>,
    part: Sexpr,
    e: bool,
    c: bool,
)
    ensures
        ({
            let both = hint_of(Sexpr::List(seq![Sexpr::Atom("and"@)] + parts));
            let one = hint_of(Sexpr::List(seq![Sexpr::Atom("or"@)] + parts));
            let turned = hint_of(Sexpr::List(seq![Sexpr::Atom("not"@), part]));
            let readable = forall|i: int|
                0 <= i < parts.len() ==> hint_of(#[trigger] parts[i]) is Ok;
            &&& both is Ok <==> readable
            &&& one is Ok <==> readable
            &&& turned is Ok <==> hint_of(part) is Ok
            &&& both is Ok ==> (ast::hint_holds(m, both->Ok_0, e, c) <==> forall|i: int|
                0 <= i < parts.len() ==> ast::hint_holds(m, hint_of(#[trigger] parts[i])->Ok_0, e, c))
            &&& one is Ok ==> (ast::hint_holds(m, one->Ok_0, e, c) <==> exists|i: int|
                0 <= i < parts.len() && ast::hint_holds(m, hint_of(#[trigger] parts[i])->Ok_0, e, c))
            &&& turned is Ok ==> (ast::hint_holds(m, turned->Ok_0, e, c) <==> !ast::hint_holds(
                m,
                hint_of(part)->Ok_0,
                e,
                c,
            ))
        }),
{
    lemma_words_differ();
    reveal_strlit("and");
    reveal_strlit("or");
    reveal_strlit("not");
    reveal_strlit("hint-enabled");
    reveal_strlit("hint-cooled-down");
    assert("and"@.len() == 3 && "or"@.len() == 2 && "not"@.len() == 3 && "hint-enabled"@.len() == 12
        && "hint-cooled-down"@.len() == 16);
    let x = seq![Sexpr::Atom("and"@)] + parts;
    let y = seq![Sexpr::Atom("or"@)] + parts;
    let z = seq![Sexpr::Atom("not"@), part];
    assert(x.skip(1) =~= parts);
    assert(y.skip(1) =~= parts);
    assert(x[0] == Sexpr::Atom("and"@) && y[0] == Sexpr::Atom("or"@) && z[0] == Sexpr::Atom(
        "not"@,
    ) && z[1] == part);
    lemma_hints_read(parts);
    lemma_hints_of_len(parts);
    if hint_of(part) is Ok {
        hint_simplification_keeps_meaning(m, Seq::empty(), hint_of(part)->Ok_0, e, c);
    }
    if hints_of(parts) is Ok {
        let hints = hints_of(parts)->Ok_0;
        hint_simplification_keeps_meaning(m, hints, Hint::HintEnabled, e, c);
        assert forall|i: int| 0 <= i < parts.len() implies hint_of(#[trigger] parts[i])->Ok_0
            == hints[i] by {
            lemma_hints_of(parts, i);
        }
        if hints_all(m, hints, e, c) {
            assert forall|i: int| 0 <= i < parts.len() implies ast::hint_holds(
                m,
                hint_of(#[trigger] parts[i])->Ok_0,
                e,
                c,
            ) by {
                assert(ast::hint_holds(m, hints[i], e, c));
            }
        } else {
            let i = choose|i: int|
                0 <= i < hints.len() && !ast::hint_holds(m, #[trigger] hints[i], e, c);
            assert(!ast::hint_holds(m, hint_of(parts[i])->Ok_0, e, c));
        }
        if hints_any(m, hints, e, c) {
            let i = choose|i: int|
                0 <= i < hints.len() && ast::hint_holds(m, #[trigger] hints[i], e, c);
            assert(ast::hint_holds(m, hint_of(parts[i])->Ok_0, e, c));
        }
        if exists|i: int|
            0 <= i < parts.len() && ast::hint_holds(m, hint_of(#[trigger] parts[i])->Ok_0, e, c) {
            let i = choose|i: int|
                0 <= i < parts.len() && ast::hint_holds(m, hint_of(#[trigger] parts[i])->Ok_0, e, c);
            assert(ast::hint_holds(m, hints[i], e, c));
        }
    }
}

/// A condition that is simplified joins two parts or more, none of which is settled or joined alike,
/// and turns nothing around twice.
pub proof fn simplified_conditions_have_no_idle_parts(xs: Seq<Gate>, g: Gate, i: int)
    requires
        0 <= i < xs.len(),
    ensures
        simplified(Gate::And(xs)) ==> xs.len() >= 2 && simplified(xs[i]) && xs[i] != Gate::True && xs[i]
            != Gate::False && !(xs[i] is And),
        simplified(Gate::Or(xs)) ==> xs.len() >= 2 && simplified(xs[i]) && xs[i] != Gate::True && xs[i]
            != Gate::False && !(xs[i] is Or),
        simplified(Gate::Not(Box::new(g))) ==> simplified(g) && g != Gate::True && g != Gate::False
            && !(g is Not),
{
    assert(Gate::And(xs)->And_0[i] == xs[i]);
    assert(Gate::Or(xs)->Or_0[i] == xs[i]);
}

/// Conditions are read one by one, in their order, and a list of them can be read where each can.
pub proof fn conditions_are_read_one_by_one(items: Seq<Sexpr>, item: Sexpr)
    ensures
        gates_of(Seq::empty()) == Ok::<Seq<Gate>, CompileFault>(Seq::empty()),
        gates_of(items) is Ok && gate_of(item) is Ok ==> gates_of(items.push(item)) == Ok::<
            Seq<Gate>,
            CompileFault,
        >(gates_of(items)->Ok_0.push(gate_of(item)->Ok_0)),
        gates_of(items) is Err ==> gates_of(items.push(item)) == gates_of(items),
        hints_of(Seq::empty()) == Ok::<Seq<Hint>, CompileFault>(Seq::empty()),
        hints_of(items) is Ok && hint_of(item) is Ok ==> hints_of(items.push(item)) == Ok::<
            Seq<Hint>,
            CompileFault,
        >(hints_of(items)->Ok_0.push(hint_of(item)->Ok_0)),
        hints_of(items) is Err ==> hints_of(items.push(item)) == hints_of(items),
{
    assert(items.push(item).drop_last() =~= items);
}

} // verus!
