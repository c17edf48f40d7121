//! A state-aware S-expression predicate language for gating and progression.
pub mod ast;
pub mod compiler;
pub mod parser;
pub mod types;

use std::collections::VecDeque;
use std::sync::Arc;

use vstd::hash_map::StringHashMap;
use vstd::prelude::*;
use vstd::string::*;

use crate::expr::ast::{eval_compiled, Gate, GateExpr, Hint, HintDisplayExpr};
use crate::expr::compiler::{compile_gate, compile_hint_display, CompileError, CompileFault};
use crate::expr::parser::{parse_expr, tokenize, ParseError, ParseFault, RawSexpr, Sexpr};
use crate::expr::types::PuzzleStates;
use crate::text;
use crate::text::debug_str;

verus! {

/// How many compiled expressions a cache keeps.
pub const COMPILE_CACHE_CAPACITY: usize = 4096;

/// What is wrong with the text of an expression.
pub enum Fault {
    Parse(ParseFault),
    Trailing,
    Compile(CompileFault),
}

pub open spec fn parse_fault_text(f: ParseFault) -> Seq<char> {
    match f {
        ParseFault::UnexpectedEof => "UnexpectedEof"@,
        ParseFault::UnexpectedToken(s) => "UnexpectedToken("@ + text::str_debug(s) + ")"@,
        ParseFault::UnbalancedParen => "UnbalancedParen"@,
    }
}

pub open spec fn compile_fault_text(f: CompileFault) -> Seq<char> {
    match f {
        CompileFault::BadForm(s) => "BadForm("@ + text::str_debug(s) + ")"@,
        CompileFault::UnknownOp(s) => "UnknownOp("@ + text::str_debug(s) + ")"@,
        CompileFault::ExpectedAtom => "ExpectedAtom"@,
        CompileFault::ExpectedNumber => "ExpectedNumber"@,
        CompileFault::ExpectedSetExpr => "ExpectedSetExpr"@,
        CompileFault::ExpectedValueExpr => "ExpectedValueExpr"@,
    }
}

/// How a fault is reported.
pub open spec fn fault_text(f: Fault) -> Seq<char> {
    match f {
        Fault::Parse(p) => "Parse Error: "@ + parse_fault_text(p),
        Fault::Trailing => "Parse Error: trailing tokens"@,
        Fault::Compile(c) => "Compile Error: "@ + compile_fault_text(c),
    }
}

/// The expression that a whole text writes.
pub open spec fn sexpr_in(s: Seq<char>) -> Result<Sexpr, Fault> {
    match parser::parse_from(parser::tokens_of(s), 0) {
        Err(e) => Err(Fault::Parse(e)),
        Ok((e, used)) => if used != parser::tokens_of(s).len() {
            Err(Fault::Trailing)
        } else {
            Ok(e)
        },
    }
}

/// What the text of a gate compiles to.
pub open spec fn gate_in(s: Seq<char>) -> Result<Gate, Fault> {
    match sexpr_in(s) {
        Err(f) => Err(f),
        Ok(e) => match compiler::gate_of(e) {
            Err(c) => Err(Fault::Compile(c)),
            Ok(g) => Ok(g),
        },
    }
}

/// What the text of a hint condition compiles to.
pub open spec fn hint_in(s: Seq<char>) -> Result<Hint, Fault> {
    match sexpr_in(s) {
        Err(f) => Err(f),
        Ok(e) => match compiler::hint_of(e) {
            Err(c) => Err(Fault::Compile(c)),
            Ok(h) => Ok(h),
        },
    }
}

fn quoted_fault(name: &str, s: &str) -> (r: String)
    ensures
        r@ == name@ + text::str_debug(s@) + ")"@,
{
    let mut r = name.to_owned();
    r.append(&debug_str(s));
    r.append(")");
    r
}

fn parse_error_text(e: &ParseError) -> (r: String)
    ensures
        r@ == fault_text(Fault::Parse(e@)),
{
    let detail = match e {
        ParseError::UnexpectedEof => "UnexpectedEof".to_owned(),
        ParseError::UnexpectedToken(s) => quoted_fault("UnexpectedToken(", s),
        ParseError::UnbalancedParen => "UnbalancedParen".to_owned(),
    };
    let mut r = "Parse Error: ".to_owned();
    r.append(&detail);
    r
}

fn compile_error_text(e: &CompileError) -> (r: String)
    ensures
        r@ == fault_text(Fault::Compile(e@)),
{
    let detail = match e {
        CompileError::BadForm(s) => quoted_fault("BadForm(", s),
        CompileError::UnknownOp(s) => quoted_fault("UnknownOp(", s),
        CompileError::ExpectedAtom => "ExpectedAtom".to_owned(),
        CompileError::ExpectedNumber => "ExpectedNumber".to_owned(),
        CompileError::ExpectedSetExpr => "ExpectedSetExpr".to_owned(),
        CompileError::ExpectedValueExpr => "ExpectedValueExpr".to_owned(),
    };
    let mut r = "Compile Error: ".to_owned();
    r.append(&detail);
    r
}

fn parse(expr: &str) -> (r: Result<RawSexpr, String>)
    ensures
        match (r, sexpr_in(expr@)) {
            (Ok(e), Ok(s)) => e@ == s,
            (Err(text), Err(f)) => text@ == fault_text(f),
            _ => false,
        },
{
    let tokens = tokenize(expr.to_owned());
    match parse_expr(&tokens) {
        Err(e) => Err(parse_error_text(&e)),
        Ok((sexpr, used)) => {
            if used != tokens.len() {
                Err("Parse Error: trailing tokens".to_owned())
            } else {
                Ok(sexpr)
            }
        },
    }
}

pub open spec fn is_gate_result(r: Result<GateExpr, String>, s: Seq<char>) -> bool {
    match (r, gate_in(s)) {
        (Ok(g), Ok(want)) => g@ == want,
        (Err(text), Err(f)) => text@ == fault_text(f),
        _ => false,
    }
}

pub open spec fn is_hint_result(r: Result<HintDisplayExpr, String>, s: Seq<char>) -> bool {
    match (r, hint_in(s)) {
        (Ok(h), Ok(want)) => h@ == want,
        (Err(text), Err(f)) => text@ == fault_text(f),
        _ => false,
    }
}

/// Compiles the text of a gate.
pub fn compile_gate_expr_uncached(expr: &str) -> (r: Result<GateExpr, String>)
    ensures
        is_gate_result(r, expr@),
{
    match parse(expr) {
        Err(e) => Err(e),
        Ok(sexpr) => match compile_gate(&sexpr) {
            Err(e) => Err(compile_error_text(&e)),
            Ok(g) => Ok(g),
        },
    }
}

/// Compiles the text of a hint's display condition.
pub fn compile_hint_display_expr_uncached(expr: &str) -> (r: Result<HintDisplayExpr, String>)
    ensures
        is_hint_result(r, expr@),
{
    match parse(expr) {
        Err(e) => Err(e),
        Ok(sexpr) => match compile_hint_display(&sexpr) {
            Err(e) => Err(compile_error_text(&e)),
            Ok(h) => Ok(h),
        },
    }
}

/// Whether a gate, given as text, is open. The text must compile.
pub fn eval<S: PuzzleStates>(state: &S, expr: &str) -> (r: bool)
    requires
        gate_in(expr@) is Ok,
    ensures
        r == ast::holds(state.progress(), gate_in(expr@)->Ok_0),
{
    match compile_gate_expr_uncached(expr) {
        Ok(g) => eval_compiled(state, &g),
        Err(_) => false,
    }
}

/// The outcome of a compilation, kept so that several owners can share it.
pub type Compiled<T> = Result<Arc<T>, Arc<str>>;

/// `Arc::clone` makes a second owner of the same value.
#[verifier::external_body]
fn share<T: ?Sized>(a: &Arc<T>) -> (r: Arc<T>)
    ensures
        r == *a,
{
    a.clone()
}

/// `Arc::<str>::from` moves a string's text into an `Arc`.
#[verifier::external_body]
fn shared_text(s: String) -> (r: Arc<str>)
    ensures
        (*r)@ == s@,
{
    Arc::from(s)
}

/// What a cache holds: its entries, and their keys from the oldest to the newest.
#[verifier::ext_equal]
pub struct CacheModel<T> {
    pub order: Seq<Seq<char>>,
    pub entries: Map<Seq<char>, Compiled<T>>,
}

impl<T> CacheModel<T> {
    pub open spec fn wf(self) -> bool {
        &&& self.order.no_duplicates()
        &&& self.order.to_set() == self.entries.dom()
        &&& self.order.len() <= COMPILE_CACHE_CAPACITY
    }

    /// The cache after an entry is offered: one that is there stays as it is, and a full cache
    /// loses its oldest entry to make room.
    pub open spec fn put(self, key: Seq<char>, value: Compiled<T>) -> Self {
        if self.entries.dom().contains(key) {
            self
        } else if self.order.len() >= COMPILE_CACHE_CAPACITY {
            CacheModel {
                order: self.order.skip(1).push(key),
                entries: self.entries.remove(self.order[0]).insert(key, value),
            }
        } else {
            CacheModel {
                order: self.order.push(key),
                entries: self.entries.insert(key, value),
            }
        }
    }
}

/// Compiled expressions by their text, at most [`COMPILE_CACHE_CAPACITY`] of them.
#[verifier::reject_recursive_types(T)]
pub struct CompileCache<T> {
    pub values: StringHashMap<Compiled<T>>,
    pub insertion_order: VecDeque<String>,
}

pub open spec fn keys_view(v: Seq<String>) -> Seq<Seq<char>> {
    Seq::new(v.len(), |i: int| v[i]@)
}

impl<T> View for CompileCache<T> {
    type V = CacheModel<T>;

    open spec fn view(&self) -> CacheModel<T> {
        CacheModel { order: keys_view(self.insertion_order@), entries: self.values@ }
    }
}

impl<T> CompileCache<T> {
    /// An empty cache.
    pub fn new() -> (r: Self)
        ensures
            r@.wf(),
            r@.order == Seq::<Seq<char>>::empty(),
            r@.entries == Map::<Seq<char>, Compiled<T>>::empty(),
    {
        let r = CompileCache { values: StringHashMap::new(), insertion_order: VecDeque::new() };
        assert(r@.order =~= Seq::<Seq<char>>::empty());
        assert(r@.order.to_set() =~= r@.entries.dom());
        r
    }

    /// What the cache holds for an expression.
    pub fn get(&self, expression: &str) -> (r: Option<Compiled<T>>)
        ensures
            match r {
                Some(v) => self@.entries.dom().contains(expression@) && v
                    == self@.entries[expression@],
                None => !self@.entries.dom().contains(expression@),
            },
    {
        match self.values.get(expression) {
            None => None,
            Some(Ok(value)) => Some(Ok(share(value))),
            Some(Err(error)) => Some(Err(share(error))),
        }
    }

    /// Offers an entry to the cache, and gives the one that it then holds.
    pub fn insert(&mut self, expression: String, compiled: Compiled<T>) -> (r: Compiled<T>)
        requires
            old(self)@.wf(),
        ensures
            final(self)@ == old(self)@.put(expression@, compiled),
            final(self)@.wf(),
            r == final(self)@.entries[expression@],
    {
        let ghost before = self@;
        match self.get(expression.as_str()) {
            Some(existing) => {
                return existing;
            },
            None => {},
        }
        proof {
            before.order.unique_seq_to_set();
            lemma_put_wf(before, expression@, compiled);
        }
        if self.values.len() >= COMPILE_CACHE_CAPACITY {
            match self.insertion_order.pop_front() {
                Some(oldest) => {
                    self.values.remove(oldest.as_str());
                },
                None => {},
            }
            assert(self@.order =~= before.order.skip(1));
        }
        let kept = match &compiled {
            Ok(value) => Ok(share(value)),
            Err(error) => Err(share(error)),
        };
        let ghost mid = self@.order;
        self.insertion_order.push_back(expression.clone());
        assert(self@.order =~= mid.push(expression@));
        self.values.insert(expression, kept);
        assert(self@ =~= before.put(expression@, compiled));
        compiled
    }
}

proof fn lemma_put_wf<T>(c: CacheModel<T>, key: Seq<char>, value: Compiled<T>)
    requires
        c.wf(),
    ensures
        c.put(key, value).wf(),
        c.put(key, value).entries.dom().contains(key),
{
    let after = c.put(key, value);
    if !c.entries.dom().contains(key) {
        assert(!c.order.contains(key)) by {
            if c.order.contains(key) {
                assert(c.order.to_set().contains(key));
            }
        }
        let kept = if c.order.len() >= COMPILE_CACHE_CAPACITY {
            c.order.skip(1)
        } else {
            c.order
        };
        assert forall|k: int| 0 <= k < kept.len() implies c.order.contains(
            #[trigger] kept[k],
        ) by {
            if c.order.len() >= COMPILE_CACHE_CAPACITY {
                assert(kept[k] == c.order[k + 1]);
            }
        }
        assert(after.order == kept.push(key));
        assert(after.order.no_duplicates());
        assert forall|x: Seq<char>|
            after.order.to_set().contains(x) == after.entries.dom().contains(x) by {
            if after.entries.dom().contains(x) {
                if x == key {
                    assert(after.order[kept.len() as int] == key);
                } else {
                    assert(c.order.to_set().contains(x));
                    let k = choose|k: int| 0 <= k < c.order.len() && c.order[k] == x;
                    if c.order.len() >= COMPILE_CACHE_CAPACITY {
                        assert(after.order[k - 1] == x);
                    } else {
                        assert(after.order[k] == x);
                    }
                }
            }
            if after.order.to_set().contains(x) {
                let k = choose|k: int| 0 <= k < after.order.len() && after.order[k] == x;
                if k < kept.len() {
                    assert(c.order.contains(kept[k]));
                    assert(c.order.to_set().contains(x));
                }
            }
        }
        assert(after.order.to_set() =~= after.entries.dom());
    }
}

/// A cache never grows beyond its capacity, and always holds what was offered last.
pub proof fn cache_is_bounded<T>(c: CacheModel<T>, key: Seq<char>, value: Compiled<T>)
    requires
        c.wf(),
    ensures
        c.put(key, value).entries.len() <= COMPILE_CACHE_CAPACITY,
        c.put(key, value).entries.dom().contains(key),
        !c.entries.dom().contains(key) ==> c.put(key, value).entries[key] == value,
{
    lemma_put_wf(c, key, value);
    let after = c.put(key, value);
    after.order.unique_seq_to_set();
}

/// An entry that a cache holds is not replaced; only the oldest one ever leaves.
pub proof fn cache_keeps_all_but_the_oldest<T>(
    c: CacheModel<T>,
    key: Seq<char>,
    value: Compiled<T>,
    other: Seq<char>,
)
    requires
        c.wf(),
        c.entries.dom().contains(other),
        c.order.len() < COMPILE_CACHE_CAPACITY || other != c.order[0],
    ensures
        c.put(key, value).entries.dom().contains(other),
        c.put(key, value).entries[other] == c.entries[other],
{
}

/// Gives what a cache holds for an expression, after compiling the expression where it holds
/// nothing.
fn compile_cached<T, F: FnOnce(&str) -> Result<T, String>>(
    cache: &mut CompileCache<T>,
    expression: &str,
    compile: F,
) -> (r: Compiled<T>)
    requires
        old(cache)@.wf(),
        call_requires(compile, (expression,)),
    ensures
        final(cache)@.wf(),
        old(cache)@.entries.dom().contains(expression@) ==> {
            &&& final(cache)@ == old(cache)@
            &&& r == old(cache)@.entries[expression@]
        },
        !old(cache)@.entries.dom().contains(expression@) ==> {
            &&& final(cache)@ == old(cache)@.put(expression@, r)
            &&& exists|out: Result<T, String>|
                call_ensures(compile, (expression,), out) && #[trigger] keeps(out, r)
        },
{
    match cache.get(expression) {
        Some(compiled) => {
            return compiled;
        },
        None => {},
    }
    let out = compile(expression);
    let ghost made = out;
    let compiled = match out {
        Ok(value) => Ok(Arc::new(value)),
        Err(text) => Err(shared_text(text)),
    };
    assert(keeps(made, compiled));
    cache.insert(expression.to_owned(), compiled)
}

/// Whether a shared outcome is that of a compilation.
pub open spec fn keeps<T>(out: Result<T, String>, kept: Compiled<T>) -> bool {
    match (out, kept) {
        (Ok(value), Ok(shared)) => *shared == value,
        (Err(text), Err(shared)) => (*shared)@ == text@,
        _ => false,
    }
}

pub open spec fn is_compiled_gate(r: Compiled<GateExpr>, s: Seq<char>) -> bool {
    match (r, gate_in(s)) {
        (Ok(g), Ok(want)) => (*g)@ == want,
        (Err(text), Err(f)) => (*text)@ == fault_text(f),
        _ => false,
    }
}

pub open spec fn is_compiled_hint(r: Compiled<HintDisplayExpr>, s: Seq<char>) -> bool {
    match (r, hint_in(s)) {
        (Ok(h), Ok(want)) => (*h)@ == want,
        (Err(text), Err(f)) => (*text)@ == fault_text(f),
        _ => false,
    }
}

/// Whether a cache holds, for each of its texts, what the text compiles to.
pub open spec fn gates_right(c: CacheModel<GateExpr>) -> bool {
    c.wf() && forall|k: Seq<char>| #[trigger]
        c.entries.dom().contains(k) ==> is_compiled_gate(c.entries[k], k)
}

pub open spec fn hints_right(c: CacheModel<HintDisplayExpr>) -> bool {
    c.wf() && forall|k: Seq<char>| #[trigger]
        c.entries.dom().contains(k) ==> is_compiled_hint(c.entries[k], k)
}

/// Compiles the text of a gate, or takes it from the cache.
pub fn compile_gate_expr(cache: &mut CompileCache<GateExpr>, expr: &str) -> (r: Compiled<GateExpr>)
    requires
        gates_right(old(cache)@),
    ensures
        gates_right(final(cache)@),
        final(cache)@ == old(cache)@.put(expr@, r),
        r == final(cache)@.entries[expr@],
        is_compiled_gate(r, expr@),
{
    let r = compile_cached(cache, expr, compile_gate_expr_uncached);
    proof {
        lemma_put_wf(old(cache)@, expr@, r);
    }
    r
}

/// Compiles the text of a hint's display condition, or takes it from the cache.
pub fn compile_hint_display_expr(cache: &mut CompileCache<HintDisplayExpr>, expr: &str) -> (r:
    Compiled<HintDisplayExpr>)
    requires
        hints_right(old(cache)@),
    ensures
        hints_right(final(cache)@),
        final(cache)@ == old(cache)@.put(expr@, r),
        r == final(cache)@.entries[expr@],
        is_compiled_hint(r, expr@),
{
    let r = compile_cached(cache, expr, compile_hint_display_expr_uncached);
    proof {
        lemma_put_wf(old(cache)@, expr@, r);
    }
    r
}

/// A text is read as a condition exactly where all of it is one expression that can be compiled, and
/// the fault that is found first is told.
pub proof fn texts_are_read_whole(s: Seq<char>)
    ensures
        ({
            let parsed = parser::parse_from(parser::tokens_of(s), 0);
            let whole = parsed is Ok && parsed->Ok_0.1 == parser::tokens_of(s).len();
            &&& sexpr_in(s) is Ok <==> whole
            &&& whole ==> sexpr_in(s)->Ok_0 == parsed->Ok_0.0
            &&& parsed is Err ==> sexpr_in(s) == Err::<Sexpr, Fault>(Fault::Parse(parsed->Err_0))
            &&& parsed is Ok && !whole ==> sexpr_in(s) == Err::<Sexpr, Fault>(Fault::Trailing)
        }),
        gate_in(s) is Ok <==> sexpr_in(s) is Ok && compiler::gate_of(sexpr_in(s)->Ok_0) is Ok,
        gate_in(s) matches Ok(g) ==> compiler::gate_of(sexpr_in(s)->Ok_0) == Ok::<Gate, CompileFault>(
            g,
        ),
        hint_in(s) is Ok <==> sexpr_in(s) is Ok && compiler::hint_of(sexpr_in(s)->Ok_0) is Ok,
        hint_in(s) matches Ok(h) ==> compiler::hint_of(sexpr_in(s)->Ok_0) == Ok::<Hint, CompileFault>(
            h,
        ),
        sexpr_in(s) is Err ==> gate_in(s) == Err::<Gate, Fault>(sexpr_in(s)->Err_0) && hint_in(s)
            == Err::<Hint, Fault>(sexpr_in(s)->Err_0),
{
}

/// What a condition is compiled to, kept or not, is what its text means, or the words for its fault.
pub proof fn results_are_those_of_the_text(
    r: Result<GateExpr, String>,
    k: Compiled<GateExpr>,
    s: Seq<char>,
)
    ensures
        is_gate_result(r, s) ==> (r is Ok <==> gate_in(s) is Ok),
        is_gate_result(r, s) && r is Ok ==> Ok::<Gate, Fault>(r->Ok_0@) == gate_in(s),
        is_gate_result(r, s) && r is Err ==> r->Err_0@ == fault_text(gate_in(s)->Err_0),
        is_compiled_gate(k, s) ==> (k is Ok <==> gate_in(s) is Ok),
        is_compiled_gate(k, s) && k is Ok ==> Ok::<Gate, Fault>((*(k->Ok_0))@) == gate_in(s),
        is_compiled_gate(k, s) && k is Err ==> (*(k->Err_0))@ == fault_text(gate_in(s)->Err_0),
        keeps(r, k) && is_gate_result(r, s) ==> is_compiled_gate(k, s),
{
}

/// What is kept of a text stays as it was put in first, and the oldest text leaves first.
pub proof fn kept_texts_are_not_replaced<T>(c: CacheModel<T>, key: Seq<char>, value: Compiled<T>)
    requires
        c.wf(),
    ensures
        c.entries.dom().contains(key) ==> c.put(key, value) == c,
        !c.entries.dom().contains(key) ==> c.put(key, value).order.len() > 0 && c.put(
            key,
            value,
        ).order.last() == key,
        !c.entries.dom().contains(key) && c.order.len() >= COMPILE_CACHE_CAPACITY ==> c.put(
            key,
            value,
        ).order.len() == c.order.len() && !c.put(key, value).entries.dom().contains(c.order[0]),
        !c.entries.dom().contains(key) && c.order.len() < COMPILE_CACHE_CAPACITY ==> c.put(
            key,
            value,
        ).order.len() == c.order.len() + 1,
{
    if !c.entries.dom().contains(key) && c.order.len() >= COMPILE_CACHE_CAPACITY {
        assert(c.order.to_set().contains(c.order[0]));
    }
}

/// Faults are told in words: where a text could not be parsed or went on behind its end, and where it
/// could not be compiled, with what was wrong.
pub proof fn faults_are_told_in_words(s: Seq<char>)
    ensures
        fault_text(Fault::Trailing) == "Parse Error: trailing tokens"@,
        fault_text(Fault::Parse(ParseFault::UnexpectedEof)) == "Parse Error: "@ + "UnexpectedEof"@,
        fault_text(Fault::Parse(ParseFault::UnbalancedParen)) == "Parse Error: "@
            + "UnbalancedParen"@,
        fault_text(Fault::Parse(ParseFault::UnexpectedToken(s))) == "Parse Error: "@ + (
        "UnexpectedToken("@ + text::str_debug(s) + ")"@),
        fault_text(Fault::Compile(CompileFault::BadForm(s))) == "Compile Error: "@ + ("BadForm("@
            + text::str_debug(s) + ")"@),
        fault_text(Fault::Compile(CompileFault::UnknownOp(s))) == "Compile Error: "@ + ("UnknownOp("@
            + text::str_debug(s) + ")"@),
        fault_text(Fault::Compile(CompileFault::ExpectedAtom)) == "Compile Error: "@
            + "ExpectedAtom"@,
        fault_text(Fault::Compile(CompileFault::ExpectedNumber)) == "Compile Error: "@
            + "ExpectedNumber"@,
        fault_text(Fault::Compile(CompileFault::ExpectedSetExpr)) == "Compile Error: "@
            + "ExpectedSetExpr"@,
        fault_text(Fault::Compile(CompileFault::ExpectedValueExpr)) == "Compile Error: "@
            + "ExpectedValueExpr"@,
{
}

/// What a cache keeps of each text is what the text means, for conditions of puzzles and of hints.
pub proof fn caches_keep_what_texts_mean(
    gates: CacheModel<GateExpr>,
    hints: CacheModel<HintDisplayExpr>,
    s: Seq<char>,
)
    ensures
        gates_right(gates) && gates.entries.dom().contains(s) && gates.entries[s] is Ok ==> gate_in(s)
            == Ok::<Gate, Fault>((*(gates.entries[s]->Ok_0))@),
        gates_right(gates) && gates.entries.dom().contains(s) && gates.entries[s] is Err ==> gate_in(
            s,
        ) is Err,
        hints_right(hints) && hints.entries.dom().contains(s) && hints.entries[s] is Ok ==> hint_in(s)
            == Ok::<Hint, Fault>((*(hints.entries[s]->Ok_0))@),
        hints_right(hints) && hints.entries.dom().contains(s) && hints.entries[s] is Err ==> hint_in(
            s,
        ) is Err,
{
}

} // verus!
