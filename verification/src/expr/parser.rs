//! From text to s-expressions.
use vstd::prelude::*;

use crate::text;
use crate::text::{chars_of, is_whitespace};

verus! {

/// A piece of an expression's text.
#[derive(Debug, PartialEq)]
pub enum Token {
    LParen,
    RParen,
    Atom(String),
}

#[derive(Debug)]
pub enum ParseError {
    UnexpectedEof,
    UnexpectedToken(String),
    UnbalancedParen,
}

/// An atom, or a list of expressions.
#[derive(Debug)]
pub enum RawSexpr {
    Atom(String),
    List(Vec<RawSexpr>),
}

/// What a [`Token`] says.
pub enum Tok {
    LParen,
    RParen,
    Atom(Seq<char>),
}

/// What a [`ParseError`] says.
pub enum ParseFault {
    UnexpectedEof,
    UnexpectedToken(Seq<char>),
    UnbalancedParen,
}

/// What a [`RawSexpr`] says.
pub enum Sexpr {
    Atom(Seq<char>),
    List(Seq<Sexpr>),
}

impl View for Token {
    type V = Tok;

    open spec fn view(&self) -> Tok {
        match self {
            Token::LParen => Tok::LParen,
            Token::RParen => Tok::RParen,
            Token::Atom(a) => Tok::Atom(a@),
        }
    }
}

impl View for ParseError {
    type V = ParseFault;

    open spec fn view(&self) -> ParseFault {
        match self {
            ParseError::UnexpectedEof => ParseFault::UnexpectedEof,
            ParseError::UnexpectedToken(s) => ParseFault::UnexpectedToken(s@),
            ParseError::UnbalancedParen => ParseFault::UnbalancedParen,
        }
    }
}

pub open spec fn sexpr_view(e: RawSexpr) -> Sexpr
    decreases e,
{
    match e {
        RawSexpr::Atom(a) => Sexpr::Atom(a@),
        RawSexpr::List(items) => Sexpr::List(
            Seq::new(
                items@.len(),
                |i: int|
                    if 0 <= i < items@.len() {
                        sexpr_view(items@[i])
                    } else {
                        arbitrary()
                    },
            ),
        ),
    }
}

impl View for RawSexpr {
    type V = Sexpr;

    open spec fn view(&self) -> Sexpr {
        sexpr_view(*self)
    }
}

pub open spec fn sexprs_view(items: Seq<RawSexpr>) -> Seq<Sexpr> {
    Seq::new(items.len(), |i: int| items[i]@)
}

pub open spec fn toks(tokens: Seq<Token>) -> Seq<Tok> {
    Seq::new(tokens.len(), |i: int| tokens[i]@)
}

pub(crate) proof fn lemma_list_view(items: Vec<RawSexpr>)
    ensures
        RawSexpr::List(items)@ == Sexpr::List(sexprs_view(items@)),
{
    assert(sexpr_view(RawSexpr::List(items))->List_0 =~= sexprs_view(items@));
}

impl Clone for Token {
    fn clone(&self) -> (r: Self)
        ensures
            r@ == self@,
    {
        match self {
            Token::LParen => Token::LParen,
            Token::RParen => Token::RParen,
            Token::Atom(a) => Token::Atom(a.clone()),
        }
    }
}

impl Clone for RawSexpr {
    fn clone(&self) -> (r: Self)
        ensures
            r@ == self@,
        decreases self,
    {
        match self {
            RawSexpr::Atom(a) => RawSexpr::Atom(a.clone()),
            RawSexpr::List(items) => {
                let mut copies: Vec<RawSexpr> = Vec::new();
                let mut i: usize = 0;
                while i < items.len()
                    invariant
                        self matches RawSexpr::List(own) && own == items,
                        i <= items@.len(),
                        sexprs_view(copies@) == sexprs_view(items@).take(i as int),
                    decreases items@.len() - i,
                {
                    let item = items[i].clone();
                    proof {
                        assert(sexprs_view(copies@.push(item)) =~= sexprs_view(copies@).push(item@));
                    }
                    copies.push(item);
                    i += 1;
                }
                proof {
                    lemma_list_view(copies);
                    lemma_list_view(*items);
                    assert(sexprs_view(items@).take(i as int) == sexprs_view(items@));
                }
                RawSexpr::List(copies)
            },
        }
    }
}

/// The atom that is pending at some point of the text ends there.
pub open spec fn flushed(out: Seq<Tok>, buf: Seq<char>) -> Seq<Tok> {
    if buf.len() > 0 {
        out.push(Tok::Atom(buf))
    } else {
        out
    }
}

/// What has been read of a text: the tokens that are complete, and the atom that is pending.
pub open spec fn scan(s: Seq<char>) -> (Seq<Tok>, Seq<char>)
    decreases s.len(),
{
    if s.len() == 0 {
        (Seq::empty(), Seq::empty())
    } else {
        let (out, buf) = scan(s.drop_last());
        let c = s.last();
        if c == '(' {
            (flushed(out, buf).push(Tok::LParen), Seq::empty())
        } else if c == ')' {
            (flushed(out, buf).push(Tok::RParen), Seq::empty())
        } else if text::is_white(c) {
            (flushed(out, buf), Seq::empty())
        } else {
            (out, buf.push(c))
        }
    }
}

/// The tokens of a text: parentheses, and the runs of other characters that are not white space.
pub open spec fn tokens_of(s: Seq<char>) -> Seq<Tok> {
    flushed(scan(s).0, scan(s).1)
}

fn flush(tokens: &mut Vec<Token>, buf: &mut String)
    ensures
        toks(final(tokens)@) == flushed(toks(old(tokens)@), old(buf)@),
        final(buf)@ == Seq::<char>::empty(),
{
    if !buf.as_str().is_empty() {
        let mut atom = String::new();
        std::mem::swap(&mut atom, buf);
        tokens.push(Token::Atom(atom));
        assert(toks(tokens@) =~= flushed(toks(old(tokens)@), old(buf)@));
    }
    assert(buf@ =~= Seq::<char>::empty());
}

/// Splits a text into tokens.
pub fn tokenize(expr: String) -> (r: Vec<Token>)
    ensures
        toks(r@) == tokens_of(expr@),
{
    let mut tokens: Vec<Token> = Vec::new();
    let mut buf = String::new();
    let chars = chars_of(&expr);
    let mut i: usize = 0;
    assert(toks(tokens@) =~= Seq::<Tok>::empty());
    while i < chars.len()
        invariant
            i <= chars@.len(),
            chars@ == expr@,
            (toks(tokens@), buf@) == scan(expr@.take(i as int)),
        decreases chars@.len() - i,
    {
        let ch = chars[i];
        proof {
            let next = expr@.take(i + 1);
            assert(next.drop_last() == expr@.take(i as int));
            assert(next.last() == ch);
        }
        let ghost before = toks(tokens@);
        if ch == '(' {
            flush(&mut tokens, &mut buf);
            let ghost mid = tokens@;
            tokens.push(Token::LParen);
            assert(toks(tokens@) =~= toks(mid).push(Tok::LParen));
        } else if ch == ')' {
            flush(&mut tokens, &mut buf);
            let ghost mid = tokens@;
            tokens.push(Token::RParen);
            assert(toks(tokens@) =~= toks(mid).push(Tok::RParen));
        } else if is_whitespace(ch) {
            flush(&mut tokens, &mut buf);
        } else {
            buf.push(ch);
        }
        i += 1;
    }
    assert(expr@.take(i as int) == expr@);
    flush(&mut tokens, &mut buf);
    tokens
}

/// The expression that starts at a token, and the index of the token after it.
pub open spec fn parse_from(tokens: Seq<Tok>, i: int) -> Result<(Sexpr, int), ParseFault>
    decreases tokens.len() - i, 0int,
{
    if i < 0 || i >= tokens.len() {
        Err(ParseFault::UnexpectedEof)
    } else {
        match tokens[i] {
            Tok::LParen => parse_items(tokens, i + 1, Seq::empty()),
            Tok::RParen => Err(ParseFault::UnexpectedToken(seq![')'])),
            Tok::Atom(a) => Ok((Sexpr::Atom(a), i + 1)),
        }
    }
}

/// The rest of a list whose first items are known, and the index of the token after it.
pub open spec fn parse_items(tokens: Seq<Tok>, i: int, items: Seq<Sexpr>) -> Result<
    (Sexpr, int),
    ParseFault,
>
    decreases tokens.len() - i, 1int,
{
    if i < 0 || i >= tokens.len() {
        Err(ParseFault::UnexpectedEof)
    } else if tokens[i] is RParen {
        Ok((Sexpr::List(items), i + 1))
    } else {
        match parse_from(tokens, i) {
            Err(e) => Err(e),
            Ok((item, next)) => if i < next <= tokens.len() {
                parse_items(tokens, next, items.push(item))
            } else {
                Err(ParseFault::UnexpectedEof)
            },
        }
    }
}

pub open spec fn parsed_view(r: Result<(RawSexpr, usize), ParseError>) -> Result<
    (Sexpr, int),
    ParseFault,
> {
    match r {
        Ok((e, n)) => Ok((e@, n as int)),
        Err(e) => Err(e@),
    }
}

proof fn lemma_parse_advances(tokens: Seq<Tok>, i: int)
    ensures
        parse_from(tokens, i) matches Ok((_, n)) ==> i < n <= tokens.len(),
    decreases tokens.len() - i, 0int,
{
    if 0 <= i < tokens.len() && tokens[i] is LParen {
        lemma_items_advance(tokens, i + 1, Seq::empty());
    }
}

proof fn lemma_items_advance(tokens: Seq<Tok>, i: int, items: Seq<Sexpr>)
    ensures
        parse_items(tokens, i, items) matches Ok((_, n)) ==> i < n <= tokens.len(),
    decreases tokens.len() - i, 1int,
{
    if 0 <= i < tokens.len() && !(tokens[i] is RParen) {
        if let Ok((item, next)) = parse_from(tokens, i) {
            if i < next <= tokens.len() {
                lemma_items_advance(tokens, next, items.push(item));
            }
        }
    }
}

fn parse_at(index: usize, tokens: &Vec<Token>) -> (r: Result<(RawSexpr, usize), ParseError>)
    ensures
        parsed_view(r) == parse_from(toks(tokens@), index as int),
    decreases tokens@.len() - index,
{
    let ghost ts = toks(tokens@);
    proof {
        lemma_parse_advances(ts, index as int);
    }
    if index >= tokens.len() {
        return Err(ParseError::UnexpectedEof);
    }
    assert(ts[index as int] == tokens@[index as int]@);
    match &tokens[index] {
        Token::LParen => {
            let mut items: Vec<RawSexpr> = Vec::new();
            let mut next: usize = index + 1;
            assert(sexprs_view(items@) =~= Seq::<Sexpr>::empty());
            loop
                invariant
                    ts == toks(tokens@),
                    index < next <= tokens@.len(),
                    parse_from(ts, index as int) == parse_items(
                        ts,
                        next as int,
                        sexprs_view(items@),
                    ),
                decreases tokens@.len() - next,
            {
                if next >= tokens.len() {
                    return Err(ParseError::UnexpectedEof);
                }
                assert(ts[next as int] == tokens@[next as int]@);
                if let Token::RParen = &tokens[next] {
                    proof {
                        lemma_list_view(items);
                    }
                    return Ok((RawSexpr::List(items), next + 1));
                }
                proof {
                    lemma_parse_advances(ts, next as int);
                }
                match parse_at(next, tokens) {
                    Err(e) => {
                        return Err(e);
                    },
                    Ok((item, after)) => {
                        let ghost before = items@;
                        items.push(item);
                        assert(sexprs_view(items@) =~= sexprs_view(before).push(item@));
                        next = after;
                    },
                }
            }
        },
        Token::RParen => {
            proof {
                reveal_strlit(")");
            }
            assert(")"@ =~= seq![')']);
            Err(ParseError::UnexpectedToken(")".to_owned()))
        },
        Token::Atom(a) => Ok((RawSexpr::Atom(a.clone()), index + 1)),
    }
}

/// Reads the expression that starts at the first token, and says how many tokens it takes.
pub fn parse_expr(tokens: &Vec<Token>) -> (r: Result<(RawSexpr, usize), ParseError>)
    ensures
        parsed_view(r) == parse_from(toks(tokens@), 0),
{
    parse_at(0, tokens)
}


/// Whether a text can be an atom: not empty, without parentheses and white space.
pub open spec fn is_atom_text(a: Seq<char>) -> bool {
    &&& a.len() > 0
    &&& forall|i: int|
        0 <= i < a.len() ==> #[trigger] a[i] != '(' && a[i] != ')' && !text::is_white(a[i])
}

/// Whether all the atoms of an expression can be written.
pub open spec fn writable(e: Sexpr) -> bool
    decreases e,
{
    match e {
        Sexpr::Atom(a) => is_atom_text(a),
        Sexpr::List(items) => forall|i: int| 0 <= i < items.len() ==> writable(#[trigger] items[i]),
    }
}

/// A text that writes an expression.
pub open spec fn written(e: Sexpr) -> Seq<char>
    decreases e,
{
    match e {
        Sexpr::Atom(a) => a,
        Sexpr::List(items) => seq!['('] + written_items(items) + seq![')'],
    }
}

pub open spec fn written_items(items: Seq<Sexpr>) -> Seq<char>
    decreases items,
{
    if items.len() == 0 {
        Seq::empty()
    } else {
        written_items(items.drop_last()) + written(items.last()) + seq![' ']
    }
}

/// The tokens of an expression.
pub open spec fn toks_of(e: Sexpr) -> Seq<Tok>
    decreases e,
{
    match e {
        Sexpr::Atom(a) => seq![Tok::Atom(a)],
        Sexpr::List(items) => seq![Tok::LParen] + toks_of_items(items) + seq![Tok::RParen],
    }
}

/// The tokens of expressions, one after the other.
pub open spec fn toks_of_items(items: Seq<Sexpr>) -> Seq<Tok>
    decreases items,
{
    if items.len() == 0 {
        Seq::empty()
    } else {
        toks_of_items(items.drop_last()) + toks_of(items.last())
    }
}

proof fn lemma_scan_atom(s: Seq<char>, a: Seq<char>)
    requires
        forall|i: int|
            0 <= i < a.len() ==> #[trigger] a[i] != '(' && a[i] != ')' && !text::is_white(a[i]),
    ensures
        scan(s + a) == (scan(s).0, scan(s).1 + a),
    decreases a.len(),
{
    if a.len() == 0 {
        assert(s + a == s);
        assert(scan(s).1 + a == scan(s).1);
    } else {
        let b = a.drop_last();
        assert forall|i: int| 0 <= i < b.len() implies #[trigger] b[i] != '(' && b[i] != ')'
            && !text::is_white(b[i]) by {
            assert(b[i] == a[i]);
        }
        lemma_scan_atom(s, b);
        assert((s + a).drop_last() == s + b);
        assert((s + a).last() == a[a.len() - 1]);
        assert((scan(s).1 + b).push(a.last()) == scan(s).1 + a);
    }
}

proof fn lemma_scan_step(s: Seq<char>, c: char)
    ensures
        c == '(' ==> scan(s.push(c)) == (tokens_of(s).push(Tok::LParen), Seq::<char>::empty()),
        c == ')' ==> scan(s.push(c)) == (tokens_of(s).push(Tok::RParen), Seq::<char>::empty()),
        text::is_white(c) ==> scan(s.push(c)) == (tokens_of(s), Seq::<char>::empty()),
{
    assert(s.push(c).drop_last() == s);
}

proof fn lemma_tokens_written(s: Seq<char>, e: Sexpr)
    requires
        writable(e),
        scan(s).1.len() == 0,
    ensures
        tokens_of(s + written(e)) == tokens_of(s) + toks_of(e),
    decreases e,
{
    match e {
        Sexpr::Atom(a) => {
            lemma_scan_atom(s, a);
            assert(scan(s).1 + a == a);
            assert(tokens_of(s + a) == tokens_of(s) + toks_of(e));
        },
        Sexpr::List(items) => {
            lemma_scan_step(s, '(');
            let s1 = s.push('(');
            assert forall|i: int| 0 <= i < items.len() implies writable(#[trigger] items[i]) by {
                assert(e->List_0[i] == items[i]);
            }
            lemma_tokens_written_items(s1, items);
            let s2 = s1 + written_items(items);
            lemma_scan_step(s2, ')');
            assert(s + written(e) == s2.push(')'));
            assert(tokens_of(s + written(e)) == tokens_of(s) + toks_of(e));
        },
    }
}

proof fn lemma_tokens_written_items(s: Seq<char>, items: Seq<Sexpr>)
    requires
        forall|i: int| 0 <= i < items.len() ==> writable(#[trigger] items[i]),
        scan(s).1.len() == 0,
    ensures
        tokens_of(s + written_items(items)) == tokens_of(s) + toks_of_items(items),
        scan(s + written_items(items)).1.len() == 0,
    decreases items,
{
    if items.len() == 0 {
        assert(s + written_items(items) == s);
        assert(tokens_of(s) + toks_of_items(items) == tokens_of(s));
    } else {
        let init = items.drop_last();
        assert forall|i: int| 0 <= i < init.len() implies writable(#[trigger] init[i]) by {
            assert(init[i] == items[i]);
        }
        lemma_tokens_written_items(s, init);
        let s1 = s + written_items(init);
        assert(writable(items[items.len() - 1]));
        lemma_tokens_written(s1, items.last());
        let s2 = s1 + written(items.last());
        lemma_scan_step(s2, ' ');
        assert(s + written_items(items) == s2.push(' '));
        assert(tokens_of(s) + toks_of_items(items) == tokens_of(s1) + toks_of(items.last()));
    }
}

proof fn lemma_toks_start(e: Sexpr)
    ensures
        toks_of(e).len() > 0,
        !(toks_of(e)[0] is RParen),
{
}

proof fn lemma_parse_toks(pre: Seq<Tok>, e: Sexpr, post: Seq<Tok>)
    ensures
        parse_from(pre + toks_of(e) + post, pre.len() as int) == Ok::<(Sexpr, int), ParseFault>(
            (e, (pre.len() + toks_of(e).len()) as int),
        ),
    decreases e,
{
    let all = pre + toks_of(e) + post;
    assert(all[pre.len() as int] == toks_of(e)[0]);
    match e {
        Sexpr::Atom(a) => {},
        Sexpr::List(items) => {
            let p1 = pre.push(Tok::LParen);
            let q1 = seq![Tok::RParen] + post;
            assert(all == p1 + toks_of_items(items) + q1);
            lemma_parse_toks_items(p1, items, q1, Seq::empty());
            assert(Seq::<Sexpr>::empty() + items == items);
            let end = (p1.len() + toks_of_items(items).len()) as int;
            assert(all[end] == Tok::RParen);
        },
    }
}

proof fn lemma_parse_toks_items(
    pre: Seq<Tok>,
    items: Seq<Sexpr>,
    post: Seq<Tok>,
    found: Seq<Sexpr>,
)
    ensures
        parse_items(pre + toks_of_items(items) + post, pre.len() as int, found) == parse_items(
            pre + toks_of_items(items) + post,
            (pre.len() + toks_of_items(items).len()) as int,
            found + items,
        ),
    decreases items,
{
    let all = pre + toks_of_items(items) + post;
    if items.len() == 0 {
        assert(found + items == found);
    } else {
        let init = items.drop_last();
        let last = items.last();
        let rest = toks_of(last) + post;
        assert(all == pre + toks_of_items(init) + rest);
        lemma_parse_toks_items(pre, init, rest, found);
        let p1 = pre + toks_of_items(init);
        assert(all == p1 + toks_of(last) + post);
        lemma_parse_toks(p1, last, post);
        lemma_toks_start(last);
        assert(all[p1.len() as int] == toks_of(last)[0]);
        assert((found + init).push(last) == found + items);
    }
}

/// The tokens of an expression read as that expression, and nothing of what follows them is taken.
pub proof fn tokens_read_back(e: Sexpr, rest: Seq<Tok>)
    ensures
        parse_from(toks_of(e) + rest, 0) == Ok::<(Sexpr, int), ParseFault>(
            (e, toks_of(e).len() as int),
        ),
{
    let none = Seq::<Tok>::empty();
    lemma_parse_toks(none, e, rest);
    assert(none + toks_of(e) + rest =~= toks_of(e) + rest);
}

proof fn lemma_taken(tokens: Seq<Tok>, i: int)
    ensures
        parse_from(tokens, i) matches Ok((e, n)) ==> i < n <= tokens.len() && toks_of(e)
            == tokens.subrange(i, n),
    decreases tokens.len() - i, 0int,
{
    lemma_parse_advances(tokens, i);
    if 0 <= i < tokens.len() {
        match tokens[i] {
            Tok::LParen => {
                assert(tokens.subrange(i + 1, i + 1) =~= toks_of_items(Seq::empty()));
                lemma_taken_items(tokens, i, i + 1, Seq::empty());
            },
            Tok::RParen => {},
            Tok::Atom(a) => {
                assert(tokens.subrange(i, i + 1) =~= seq![Tok::Atom(a)]);
            },
        }
    }
}

proof fn lemma_taken_items(tokens: Seq<Tok>, start: int, i: int, items: Seq<Sexpr>)
    requires
        0 <= start < i <= tokens.len(),
        tokens[start] is LParen,
        toks_of_items(items) == tokens.subrange(start + 1, i),
    ensures
        parse_items(tokens, i, items) matches Ok((e, n)) ==> i < n <= tokens.len() && toks_of(e)
            == tokens.subrange(start, n),
    decreases tokens.len() - i, 1int,
{
    lemma_items_advance(tokens, i, items);
    if i < tokens.len() {
        if tokens[i] is RParen {
            assert(tokens.subrange(start, i + 1) =~= seq![Tok::LParen] + tokens.subrange(
                start + 1,
                i,
            ) + seq![Tok::RParen]);
        } else {
            lemma_taken(tokens, i);
            if let Ok((item, next)) = parse_from(tokens, i) {
                let more = items.push(item);
                assert(more.drop_last() =~= items);
                assert(tokens.subrange(start + 1, next) =~= tokens.subrange(start + 1, i)
                    + tokens.subrange(i, next));
                lemma_taken_items(tokens, start, next, more);
            }
        }
    }
}

/// What is read is what the tokens say: an expression that is read takes at least one token, and
/// its own tokens are those that it takes. Where nothing is read, the tokens start with those of no
/// expression.
pub proof fn what_is_read_is_what_is_there(tokens: Seq<Tok>)
    ensures
        match parse_from(tokens, 0) {
            Ok((e, n)) => 1 <= n <= tokens.len() && toks_of(e) == tokens.take(n),
            Err(_) => forall|e: Sexpr| !(#[trigger] toks_of(e)).is_prefix_of(tokens),
        },
{
    lemma_taken(tokens, 0);
    match parse_from(tokens, 0) {
        Ok((e, n)) => {
            assert(tokens.subrange(0, n) =~= tokens.take(n));
        },
        Err(_) => {
            assert forall|e: Sexpr| !(#[trigger] toks_of(e)).is_prefix_of(tokens) by {
                let own = toks_of(e);
                if own.is_prefix_of(tokens) {
                    tokens_read_back(e, tokens.skip(own.len() as int));
                    assert(own + tokens.skip(own.len() as int) =~= tokens);
                }
            }
        },
    }
}

/// Every writable expression is what its own text reads as.
pub proof fn written_expressions_read_back(e: Sexpr)
    requires
        writable(e),
    ensures
        parse_from(tokens_of(written(e)), 0) == Ok::<(Sexpr, int), ParseFault>(
            (e, tokens_of(written(e)).len() as int),
        ),
{
    let none = Seq::<char>::empty();
    lemma_tokens_written(none, e);
    assert(none + written(e) == written(e));
    assert(tokens_of(none) + toks_of(e) == toks_of(e));
    lemma_parse_toks(Seq::empty(), e, Seq::empty());
    assert(Seq::<Tok>::empty() + toks_of(e) + Seq::<Tok>::empty() == toks_of(e));
}

proof fn lemma_scan_atoms(s: Seq<char>)
    ensures
        forall|i: int|
            0 <= i < scan(s).0.len() ==> ((#[trigger] scan(s).0[i]) matches Tok::Atom(a)
                ==> is_atom_text(a)),
        scan(s).1.len() > 0 ==> is_atom_text(scan(s).1),
    decreases s.len(),
{
    if s.len() > 0 {
        lemma_scan_atoms(s.drop_last());
        let (out, buf) = scan(s.drop_last());
        let c = s.last();
        let (out1, buf1) = scan(s);
        assert forall|i: int| 0 <= i < out1.len() implies ((#[trigger] out1[i]) matches Tok::Atom(a)
            ==> is_atom_text(a)) by {
            if i < out.len() {
                assert(out1[i] == out[i]);
            } else if i == out.len() && buf.len() > 0 {
                assert(out1[i] == Tok::Atom(buf));
            }
        }
        if buf1.len() > 0 {
            assert forall|i: int| 0 <= i < buf1.len() implies #[trigger] buf1[i] != '(' && buf1[i]
                != ')' && !text::is_white(buf1[i]) by {
                if i < buf.len() {
                    assert(buf1[i] == buf[i]);
                }
            }
        }
    }
}

/// The atoms of a text are not empty and hold neither parentheses nor white space.
pub proof fn tokens_are_atoms_or_parens(s: Seq<char>, i: int)
    requires
        0 <= i < tokens_of(s).len(),
    ensures
        tokens_of(s)[i] matches Tok::Atom(a) ==> is_atom_text(a),
{
    lemma_scan_atoms(s);
    if i < scan(s).0.len() {
        assert(tokens_of(s)[i] == scan(s).0[i]);
    }
}

/// What a token looks like in a text.
pub open spec fn tok_text(t: Tok) -> Seq<char> {
    match t {
        Tok::LParen => seq!['('],
        Tok::RParen => seq![')'],
        Tok::Atom(a) => a,
    }
}

/// Whether all the atoms among tokens can be written.
pub open spec fn are_writable(ts: Seq<Tok>) -> bool {
    forall|i: int| 0 <= i < ts.len() ==> ((#[trigger] ts[i]) matches Tok::Atom(a) ==> is_atom_text(a))
}

/// The texts of tokens, one right behind the other.
pub open spec fn joined(ts: Seq<Tok>) -> Seq<char>
    decreases ts.len(),
{
    if ts.len() == 0 {
        Seq::empty()
    } else {
        joined(ts.drop_last()) + tok_text(ts.last())
    }
}

/// The texts of tokens, with a space between every two.
pub open spec fn spaced(ts: Seq<Tok>) -> Seq<char>
    decreases ts.len(),
{
    if ts.len() == 0 {
        Seq::empty()
    } else if ts.len() == 1 {
        tok_text(ts[0])
    } else {
        spaced(ts.drop_last()) + seq![' '] + tok_text(ts.last())
    }
}

/// A text without its white space.
pub open spec fn without_white(s: Seq<char>) -> Seq<char>
    decreases s.len(),
{
    if s.len() == 0 {
        Seq::empty()
    } else if text::is_white(s.last()) {
        without_white(s.drop_last())
    } else {
        without_white(s.drop_last()).push(s.last())
    }
}

proof fn lemma_joined_flushed(out: Seq<Tok>, buf: Seq<char>)
    ensures
        joined(flushed(out, buf)) == joined(out) + buf,
{
    if buf.len() > 0 {
        assert(out.push(Tok::Atom(buf)).drop_last() =~= out);
    } else {
        assert(joined(out) + buf =~= joined(out));
    }
}

proof fn lemma_joined_scan(s: Seq<char>)
    ensures
        joined(scan(s).0) + scan(s).1 == without_white(s),
    decreases s.len(),
{
    if s.len() == 0 {
        assert(joined(scan(s).0) + scan(s).1 =~= without_white(s));
    } else {
        lemma_joined_scan(s.drop_last());
        let (out, buf) = scan(s.drop_last());
        let c = s.last();
        let mid = flushed(out, buf);
        lemma_joined_flushed(out, buf);
        if c == '(' {
            assert(mid.push(Tok::LParen).drop_last() =~= mid);
            assert(!text::is_white('('));
        } else if c == ')' {
            assert(mid.push(Tok::RParen).drop_last() =~= mid);
            assert(!text::is_white(')'));
        }
        assert(joined(scan(s).0) + scan(s).1 =~= without_white(s));
    }
}

/// The texts of the tokens of a text, one right behind the other, are the text without its white
/// space.
pub proof fn tokens_keep_all_but_white_space(s: Seq<char>)
    ensures
        joined(tokens_of(s)) == without_white(s),
{
    lemma_joined_scan(s);
    lemma_joined_flushed(scan(s).0, scan(s).1);
}

/// Tokens with spaces between them read back as they are.
pub proof fn spaced_tokens_read_back(ts: Seq<Tok>)
    requires
        are_writable(ts),
    ensures
        tokens_of(spaced(ts)) == ts,
    decreases ts.len(),
{
    if ts.len() == 0 {
        assert(tokens_of(spaced(ts)) =~= ts);
    } else {
        let init = ts.drop_last();
        let last = ts[ts.len() - 1];
        let before = if ts.len() == 1 {
            Seq::<char>::empty()
        } else {
            spaced(init).push(' ')
        };
        assert(scan(before) == (init, Seq::<char>::empty())) by {
            if ts.len() == 1 {
                assert(init =~= Seq::<Tok>::empty());
            } else {
                assert forall|i: int| 0 <= i < init.len() implies ((#[trigger] init[i]) matches Tok::Atom(
                    a,
                ) ==> is_atom_text(a)) by {
                    assert(init[i] == ts[i]);
                }
                spaced_tokens_read_back(init);
                lemma_scan_step(spaced(init), ' ');
            }
        }
        let text = tok_text(last);
        assert(spaced(ts) =~= before + text);
        match last {
            Tok::LParen => {
                lemma_scan_step(before, '(');
                assert(before + text =~= before.push('('));
            },
            Tok::RParen => {
                lemma_scan_step(before, ')');
                assert(before + text =~= before.push(')'));
            },
            Tok::Atom(a) => {
                lemma_scan_atom(before, a);
                assert(Seq::<char>::empty() + a =~= a);
            },
        }
        assert(tokens_of(spaced(ts)) =~= init.push(last));
        assert(init.push(last) =~= ts);
    }
}

proof fn lemma_scan_on(a: Seq<char>, b: Seq<char>, rest: Seq<char>)
    requires
        scan(a) == scan(b),
    ensures
        scan(a + rest) == scan(b + rest),
    decreases rest.len(),
{
    if rest.len() == 0 {
        assert(a + rest =~= a);
        assert(b + rest =~= b);
    } else {
        lemma_scan_on(a, b, rest.drop_last());
        assert((a + rest).drop_last() =~= a + rest.drop_last());
        assert((b + rest).drop_last() =~= b + rest.drop_last());
    }
}

proof fn lemma_scan_blank(s: Seq<char>, w: Seq<char>)
    requires
        text::is_blank(w),
    ensures
        tokens_of(s + w) == tokens_of(s),
        w.len() > 0 ==> scan(s + w) == (tokens_of(s), Seq::<char>::empty()),
    decreases w.len(),
{
    if w.len() == 0 {
        assert(s + w =~= s);
    } else {
        let v = w.drop_last();
        assert forall|i: int| 0 <= i < v.len() implies text::is_white(#[trigger] v[i]) by {
            assert(v[i] == w[i]);
        }
        lemma_scan_blank(s, v);
        assert(text::is_white(w[w.len() - 1]));
        lemma_scan_step(s + v, w.last());
        assert((s + v).push(w.last()) =~= s + w);
    }
}

/// White space at either end of a text changes none of its tokens.
pub proof fn white_space_at_the_ends_does_not_matter(v: Seq<char>, s: Seq<char>, w: Seq<char>)
    requires
        text::is_blank(v),
        text::is_blank(w),
    ensures
        tokens_of(v + s + w) == tokens_of(s),
{
    let none = Seq::<char>::empty();
    lemma_scan_blank(none, v);
    assert(none + v =~= v);
    assert(scan(v) == scan(none));
    lemma_scan_on(v, none, s);
    assert(none + s =~= s);
    lemma_scan_blank(v + s, w);
}

/// White space around a parenthesis changes no token.
pub proof fn white_space_around_parens_does_not_matter(
    a: Seq<char>,
    v: Seq<char>,
    paren: char,
    w: Seq<char>,
    b: Seq<char>,
)
    requires
        paren == '(' || paren == ')',
        text::is_blank(v),
        text::is_blank(w),
    ensures
        tokens_of(a + v + seq![paren] + w + b) == tokens_of(a + seq![paren] + b),
{
    let close = a.push(paren);
    let wide = (a + v).push(paren);
    lemma_scan_blank(a, v);
    lemma_scan_step(a, paren);
    lemma_scan_step(a + v, paren);
    assert(scan(wide) == scan(close));
    lemma_scan_blank(wide, w);
    if w.len() == 0 {
        assert(wide + w =~= wide);
    }
    assert(scan(wide + w) == scan(close));
    lemma_scan_on(wide + w, close, b);
    assert(a + v + seq![paren] + w + b =~= wide + w + b);
    assert(a + seq![paren] + b =~= close + b);
}

} // verus!
