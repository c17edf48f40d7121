//! Judging answers.
use vstd::prelude::*;
use vstd::std_specs::convert::FromSpecImpl;

use crate::text;
use crate::model::game::RbJudgeAction;
use crate::text::{chars_of, is_whitespace, lowercase_of, same};

verus! {

/// An answer as it is compared: without white space, in lowercase.
pub open spec fn normalized(s: Seq<char>) -> Seq<char>
    decreases s.len(),
{
    if s.len() == 0 {
        Seq::empty()
    } else if text::is_white(s.last()) {
        normalized(s.drop_last())
    } else {
        normalized(s.drop_last()) + text::char_lowercase(s.last())
    }
}

/// An answer as it is compared. Nothing is left of white space alone, and something of all else.
pub fn normalize_answer(s: &str) -> (r: String)
    ensures
        r@ == normalized(s@),
        r@.len() == 0 <==> text::is_blank(s@),
{
    let chars = chars_of(s);
    let mut r = String::new();
    let mut i: usize = 0;
    while i < chars.len()
        invariant
            i <= chars@.len(),
            chars@ == s@,
            r@ == normalized(s@.take(i as int)),
            r@.len() == 0 <==> text::is_blank(s@.take(i as int)),
        decreases chars@.len() - i,
    {
        let c = chars[i];
        let ghost before = r@;
        proof {
            assert(s@.take(i + 1).drop_last() == s@.take(i as int));
            assert(s@.take(i + 1).last() == c);
            assert(s@.take(i + 1)[i as int] == c);
            assert(text::is_blank(s@.take(i + 1)) == (text::is_blank(s@.take(i as int)) && text::is_white(c)))
                by {
                assert forall|k: int| 0 <= k < i implies s@.take(i as int)[k] == #[trigger] s@.take(
                    i + 1,
                )[k] by {}
                assert(forall|k: int|
                    0 <= k < i ==> #[trigger] s@.take(i as int)[k] == s@.take(i + 1)[k]);
            }
        }
        if !is_whitespace(c) {
            let lower = lowercase_of(c);
            let mut k: usize = 0;
            while k < lower.len()
                invariant
                    k <= lower@.len(),
                    r@ == before + lower@.take(k as int),
                decreases lower@.len() - k,
            {
                r.push(lower[k]);
                assert(r@ =~= before + lower@.take(k + 1));
                k += 1;
            }
            assert(lower@.take(k as int) == lower@);
        }
        i += 1;
    }
    assert(s@.take(i as int) == s@);
    r
}

/// What is put together of two answers is compared as what each of them is compared as, put
/// together.
pub proof fn normal_forms_join(a: Seq<char>, b: Seq<char>)
    ensures
        normalized(a + b) == normalized(a) + normalized(b),
    decreases b.len(),
{
    if b.len() == 0 {
        assert(a + b == a);
        assert(normalized(a) + normalized(b) == normalized(a));
    } else {
        assert((a + b).drop_last() == a + b.drop_last());
        normal_forms_join(a, b.drop_last());
        if !text::is_white(b.last()) {
            assert(normalized(a) + normalized(b.drop_last()) + text::char_lowercase(b.last()) == normalized(
                a,
            ) + (normalized(b.drop_last()) + text::char_lowercase(b.last())));
        }
    }
}

/// One character is compared as its own lowercase, whatever stands around it.
pub proof fn characters_are_compared_alone(a: Seq<char>, c: char, b: Seq<char>)
    requires
        !text::is_white(c),
    ensures
        normalized(seq![c]) == text::char_lowercase(c),
        normalized(a + seq![c] + b) == normalized(a) + text::char_lowercase(c) + normalized(b),
{
    let one = seq![c];
    assert(one.drop_last() =~= Seq::<char>::empty());
    assert(one.last() == c);
    assert(normalized(one.drop_last()) =~= Seq::<char>::empty());
    assert(Seq::<char>::empty() + text::char_lowercase(c) =~= text::char_lowercase(c));
    normal_forms_join(a + one, b);
    normal_forms_join(a, one);
}

proof fn lemma_normalized_white(w: Seq<char>)
    requires
        text::is_blank(w),
    ensures
        normalized(w) == Seq::<char>::empty(),
    decreases w.len(),
{
    if w.len() > 0 {
        assert(text::is_white(w[w.len() - 1]));
        assert forall|i: int| 0 <= i < w.drop_last().len() implies text::is_white(
            #[trigger] w.drop_last()[i],
        ) by {
            assert(text::is_white(w[i]));
        }
        lemma_normalized_white(w.drop_last());
    }
}

/// Answers that differ only in white space are the same answer.
pub proof fn white_space_does_not_matter(a: Seq<char>, w: Seq<char>, b: Seq<char>)
    requires
        text::is_blank(w),
    ensures
        normalized(a + w + b) == normalized(a + b),
{
    normal_forms_join(a + w, b);
    normal_forms_join(a, w);
    normal_forms_join(a, b);
    lemma_normalized_white(w);
    assert(normalized(a) + Seq::<char>::empty() == normalized(a));
}

/// Whether a text is in lowercase throughout, and without white space.
pub open spec fn is_settled(s: Seq<char>) -> bool {
    forall|i: int|
        0 <= i < s.len() ==> !text::is_white(#[trigger] s[i]) && text::char_lowercase(s[i])
            == seq![s[i]]
}

/// Whether the lowercase of a text's characters is in lowercase, and without white space.
pub open spec fn has_settled_lowercase(s: Seq<char>) -> bool {
    forall|i: int|
        0 <= i < s.len() && !text::is_white(#[trigger] s[i]) ==> is_settled(
            text::char_lowercase(s[i]),
        )
}

proof fn lemma_settled_stays(s: Seq<char>)
    requires
        is_settled(s),
    ensures
        normalized(s) == s,
    decreases s.len(),
{
    if s.len() > 0 {
        let init = s.drop_last();
        let last = s[s.len() - 1];
        assert forall|i: int| 0 <= i < init.len() implies !text::is_white(#[trigger] init[i])
            && text::char_lowercase(init[i]) == seq![init[i]] by {
            assert(init[i] == s[i]);
        }
        lemma_settled_stays(init);
        assert(!text::is_white(last));
        assert(init + seq![last] =~= s);
    }
}

proof fn lemma_settles(s: Seq<char>)
    requires
        has_settled_lowercase(s),
    ensures
        is_settled(normalized(s)),
    decreases s.len(),
{
    if s.len() > 0 {
        let init = s.drop_last();
        let last = s[s.len() - 1];
        assert forall|i: int| 0 <= i < init.len() && !text::is_white(#[trigger] init[i]) implies
            is_settled(text::char_lowercase(init[i])) by {
            assert(init[i] == s[i]);
        }
        lemma_settles(init);
        if !text::is_white(last) {
            let a = normalized(init);
            let b = text::char_lowercase(last);
            assert forall|i: int| 0 <= i < (a + b).len() implies !text::is_white(
                #[trigger] (a + b)[i],
            ) && text::char_lowercase((a + b)[i]) == seq![(a + b)[i]] by {
                if i < a.len() {
                    assert((a + b)[i] == a[i]);
                } else {
                    assert((a + b)[i] == b[i - a.len()]);
                }
            }
        }
    }
}

/// As far as the lowercase of an answer's characters is in lowercase and without white space, so is
/// what the answer is compared as, and that is compared as itself.
pub proof fn comparing_twice_is_comparing_once(a: Seq<char>)
    ensures
        has_settled_lowercase(a) ==> is_settled(normalized(a)) && normalized(normalized(a)) == normalized(a),
{
    if has_settled_lowercase(a) {
        lemma_settles(a);
        lemma_settled_stays(normalized(a));
    }
}

/// One rule of a puzzle's judge.
#[derive(Debug)]
pub struct JudgeRule {
    pub rtype: Option<String>,
    pub text: Option<String>,
    pub action: Option<String>,
    pub result: Option<String>,
    pub answer: Option<String>,
    pub function: Option<String>,
    pub triggers: Vec<String>,
}

/// What the judge says of an answer.
#[derive(Debug)]
pub struct JudgeResult {
    pub action: RbJudgeAction,
    pub result: Option<String>,
    pub answer: Option<String>,
    pub ignored: bool,
    pub triggers: Vec<String>,
}

/// What a puzzle's own code says of an answer.
#[derive(Debug)]
pub struct JudgeBackendOutput {
    pub action: Option<RbJudgeAction>,
    pub result: Option<String>,
    pub answer: Option<String>,
    pub ignored: Option<bool>,
    pub triggers: Vec<String>,
}

/// An action as a puzzle's own code writes it.
#[derive(Debug)]
pub enum RawAction {
    Text(String),
    Number(i16),
    Null,
}

/// The action that a puzzle's own code means.
pub fn judge_action_of(raw: Option<RawAction>) -> (r: Option<RbJudgeAction>)
    ensures
        r == (match raw {
            Some(RawAction::Text(s)) => Some(RbJudgeAction::from_word(s@)),
            Some(RawAction::Number(n)) => Some(RbJudgeAction::from_code(n)),
            Some(RawAction::Null) => None,
            None => None,
        }),
{
    match raw {
        Some(RawAction::Text(s)) => Some(RbJudgeAction::from(s)),
        Some(RawAction::Number(n)) => Some(RbJudgeAction::from(n)),
        Some(RawAction::Null) => None,
        None => None,
    }
}

impl JudgeBackendOutput {
    /// The verdict that an output stands for: a failure unless it names another action.
    pub open spec fn verdict(self) -> JudgeResult {
        JudgeResult {
            action: match self.action {
                Some(a) => a,
                None => RbJudgeAction::Fail,
            },
            result: self.result,
            answer: self.answer,
            ignored: self.ignored == Some(true),
            triggers: self.triggers,
        }
    }
}

impl From<JudgeBackendOutput> for JudgeResult {
    fn from(value: JudgeBackendOutput) -> (r: Self) {
        JudgeResult {
            action: match value.action {
                Some(a) => a,
                None => RbJudgeAction::Fail,
            },
            result: value.result,
            answer: value.answer,
            ignored: match value.ignored {
                Some(b) => b,
                None => false,
            },
            triggers: value.triggers,
        }
    }
}

impl FromSpecImpl<JudgeBackendOutput> for JudgeResult {
    open spec fn obeys_from_spec() -> bool {
        true
    }

    open spec fn from_spec(value: JudgeBackendOutput) -> Self {
        value.verdict()
    }
}

pub open spec fn is_word(s: Option<String>, word: Seq<char>) -> bool {
    s matches Some(w) && w@ == word
}

pub open spec fn text_in(s: Option<String>) -> Option<Seq<char>> {
    match s {
        Some(t) => Some(t@),
        None => None,
    }
}

pub open spec fn texts_in(v: Seq<String>) -> Seq<Seq<char>> {
    Seq::new(v.len(), |i: int| v[i]@)
}

/// Whether a rule is the prepared form of another: an exact rule compares normalized text, and
/// shows its own text as the answer where it names none.
pub open spec fn prepared(before: JudgeRule, after: JudgeRule) -> bool {
    &&& after.rtype == before.rtype
    &&& after.action == before.action
    &&& after.result == before.result
    &&& after.function == before.function
    &&& after.triggers == before.triggers
    &&& if is_word(before.rtype, "exact"@) {
        &&& text_in(after.answer) == (if before.answer is Some {
            text_in(before.answer)
        } else {
            text_in(before.text)
        })
        &&& text_in(after.text) == (match before.text {
            Some(t) => Some(normalized(t@)),
            None => None,
        })
    } else {
        after.answer == before.answer && after.text == before.text
    }
}

fn is_type(rule: &JudgeRule, word: &str) -> (r: bool)
    ensures
        r == is_word(rule.rtype, word@),
{
    match &rule.rtype {
        Some(t) => same(t.as_str(), word),
        None => false,
    }
}

fn prepare_rule(rule: JudgeRule) -> (r: JudgeRule)
    ensures
        prepared(rule, r),
{
    if is_type(&rule, "exact") {
        let answer = match (rule.answer, &rule.text) {
            (Some(a), _) => Some(a),
            (None, Some(t)) => Some(t.clone()),
            (None, None) => None,
        };
        let text = match &rule.text {
            Some(t) => Some(normalize_answer(t)),
            None => None,
        };
        JudgeRule {
            rtype: rule.rtype,
            text,
            action: rule.action,
            result: rule.result,
            answer,
            function: rule.function,
            triggers: rule.triggers,
        }
    } else {
        rule
    }
}

/// Prepares the rules of a puzzle for judging.
pub fn prepare_rules(rules: Vec<JudgeRule>) -> (r: Vec<JudgeRule>)
    ensures
        r@.len() == rules@.len(),
        forall|i: int| 0 <= i < r@.len() ==> prepared(rules@[i], #[trigger] r@[i]),
{
    let mut out: Vec<JudgeRule> = Vec::new();
    for rule in it: rules
        invariant
            it.seq() == rules@,
            out@.len() == it.index(),
            forall|i: int| 0 <= i < out@.len() ==> prepared(rules@[i], #[trigger] out@[i]),
    {
        out.push(prepare_rule(rule));
    }
    out
}

/// What the judge does next: it has a verdict, or it needs the output of a rule's function.
#[derive(Debug)]
pub enum JudgeStep {
    Done(JudgeResult),
    RunCustom(usize),
}

/// Whether a rule settles an answer by itself.
pub open spec fn settles(rule: JudgeRule, answer: Seq<char>) -> bool {
    ||| is_word(rule.rtype, "exact"@) && text_in(rule.text) == Some(answer)
    ||| !is_word(rule.rtype, "exact"@) && !is_word(rule.rtype, "custom"@) && is_word(
        rule.rtype,
        "all"@,
    )
}

/// Whether a rule asks the puzzle's own code.
pub open spec fn asks(rule: JudgeRule) -> bool {
    !is_word(rule.rtype, "exact"@) && is_word(rule.rtype, "custom"@)
}

/// The first rule from a given one on that settles an answer or asks the puzzle's own code; the
/// number of rules where there is none.
pub open spec fn next_rule(rules: Seq<JudgeRule>, answer: Seq<char>, start: int) -> int
    decreases rules.len() - start,
{
    if start >= rules.len() {
        rules.len() as int
    } else if settles(rules[start], answer) || asks(rules[start]) {
        start
    } else {
        next_rule(rules, answer, start + 1)
    }
}

/// Whether a verdict is the one that a rule gives.
pub open spec fn is_verdict_of(r: JudgeResult, rule: JudgeRule) -> bool {
    &&& r.action == RbJudgeAction::from_optional_word(rule.action)
    &&& text_in(r.result) == text_in(rule.result)
    &&& text_in(r.answer) == text_in(rule.answer)
    &&& !r.ignored
    &&& texts_in(r.triggers@) == texts_in(rule.triggers@)
}

/// Whether a verdict is that of an answer which no rule settles.
pub open spec fn is_default_verdict(r: JudgeResult) -> bool {
    &&& r.action is Fail
    &&& r.result is None
    &&& r.answer is None
    &&& !r.ignored
    &&& r.triggers@.len() == 0
}

/// Whether a step is the right one from a given rule on.
pub open spec fn is_step(
    step: JudgeStep,
    rules: Seq<JudgeRule>,
    answer: Seq<char>,
    start: int,
) -> bool {
    let n = next_rule(rules, answer, start);
    if n >= rules.len() {
        step matches JudgeStep::Done(r) && is_default_verdict(r)
    } else if settles(rules[n], answer) {
        step matches JudgeStep::Done(r) && is_verdict_of(r, rules[n])
    } else {
        step matches JudgeStep::RunCustom(i) && i == n
    }
}

pub(crate) fn copy_text(s: &Option<String>) -> (r: Option<String>)
    ensures
        text_in(r) == text_in(*s),
{
    match s {
        Some(t) => Some(t.clone()),
        None => None,
    }
}

pub(crate) fn copy_texts(v: &Vec<String>) -> (r: Vec<String>)
    ensures
        texts_in(r@) == texts_in(v@),
{
    let mut r: Vec<String> = Vec::new();
    let mut i: usize = 0;
    while i < v.len()
        invariant
            i <= v@.len(),
            r@.len() == i,
            forall|k: int| 0 <= k < i ==> (#[trigger] r@[k])@ == v@[k]@,
        decreases v@.len() - i,
    {
        r.push(v[i].clone());
        i += 1;
    }
    assert(texts_in(r@) =~= texts_in(v@));
    r
}

fn verdict_of(rule: &JudgeRule) -> (r: JudgeResult)
    ensures
        is_verdict_of(r, *rule),
{
    let action = match &rule.action {
        Some(word) => RbJudgeAction::from(word.as_str()),
        None => RbJudgeAction::Error,
    };
    JudgeResult {
        action,
        result: copy_text(&rule.result),
        answer: copy_text(&rule.answer),
        ignored: false,
        triggers: copy_texts(&rule.triggers),
    }
}

/// Judges an answer by the rules from a given one on.
pub fn judge_from(rules: &Vec<JudgeRule>, answer: &str, start: usize) -> (r: JudgeStep)
    ensures
        is_step(r, rules@, answer@, start as int),
{
    let mut i: usize = start;
    while i < rules.len()
        invariant
            start <= i,
            next_rule(rules@, answer@, start as int) == next_rule(rules@, answer@, i as int),
        decreases rules@.len() - i,
    {
        let rule = &rules[i];
        if is_type(rule, "exact") {
            if let Some(expected) = &rule.text {
                if same(expected.as_str(), answer) {
                    return JudgeStep::Done(verdict_of(rule));
                }
            }
        } else if is_type(rule, "custom") {
            return JudgeStep::RunCustom(i);
        } else if is_type(rule, "all") {
            return JudgeStep::Done(verdict_of(rule));
        }
        i += 1;
    }
    JudgeStep::Done(
        JudgeResult {
            action: RbJudgeAction::Fail,
            result: None,
            answer: None,
            ignored: false,
            triggers: Vec::new(),
        },
    )
}

/// Goes on after a rule's function was run: its output settles the answer, and where it gives none
/// the rules after it are asked.
pub fn judge_after_custom(
    rules: &Vec<JudgeRule>,
    answer: &str,
    index: usize,
    output: Option<JudgeBackendOutput>,
) -> (r: JudgeStep)
    requires
        index < rules@.len(),
    ensures
        match output {
            Some(o) => r == JudgeStep::Done(o.verdict()),
            None => is_step(r, rules@, answer@, index + 1),
        },
{
    assert(index < rules.len());
    match output {
        Some(o) => JudgeStep::Done(JudgeResult::from(o)),
        None => judge_from(rules, answer, index + 1),
    }
}

/// Judges an answer by all the rules.
pub fn judge_by_rules(rules: &Vec<JudgeRule>, answer: &str) -> (r: JudgeStep)
    ensures
        is_step(r, rules@, answer@, 0),
{
    judge_from(rules, answer, 0)
}

/// The rule that the judge stops at comes first: every rule before it neither settles the answer
/// nor asks the puzzle's own code.
pub proof fn first_matching_rule_decides(
    rules: Seq<JudgeRule>,
    answer: Seq<char>,
    start: int,
    i: int,
)
    requires
        0 <= start <= i < next_rule(rules, answer, start),
    ensures
        !settles(rules[i], answer),
        !asks(rules[i]),
    decreases i - start,
{
    if start < i {
        first_matching_rule_decides(rules, answer, start + 1, i);
    }
}

/// What a program decided is what it says; where it says nothing the answer is wrong and counts.
pub proof fn programs_decide_what_they_say(output: JudgeBackendOutput)
    ensures
        ({
            let r = output.verdict();
            &&& output.action is None ==> r.action == RbJudgeAction::Fail
            &&& output.action matches Some(action) ==> r.action == action
            &&& r.result == output.result
            &&& r.answer == output.answer
            &&& r.ignored <==> output.ignored == Some(true)
            &&& r.triggers == output.triggers
        }),
{
}

/// A rule settles an answer where it is one for all answers or one for exactly that answer; a rule for
/// a program asks the program, and any other rule does neither.
pub proof fn rules_settle_or_ask(rule: JudgeRule, answer: Seq<char>)
    ensures
        rule.rtype is None ==> !settles(rule, answer) && !asks(rule),
        rule.rtype is Some && rule.rtype->0@ == "exact"@ ==> !asks(rule) && (settles(rule, answer)
            <==> rule.text is Some && rule.text->0@ == answer),
        rule.rtype is Some && rule.rtype->0@ == "custom"@ ==> asks(rule) && !settles(rule, answer),
        rule.rtype is Some && rule.rtype->0@ == "all"@ ==> settles(rule, answer) && !asks(rule),
        rule.rtype is Some && rule.rtype->0@ != "exact"@ && rule.rtype->0@ != "custom"@
            && rule.rtype->0@ != "all"@ ==> !settles(rule, answer) && !asks(rule),
{
    reveal_strlit("exact");
    reveal_strlit("custom");
    reveal_strlit("all");
    assert("exact"@.len() == 5 && "custom"@.len() == 6 && "all"@.len() == 3);
}

/// The next rule is the first, from where the search starts, that settles the answer or asks a
/// program; where there is none the search ends behind the last rule.
pub proof fn the_next_rule_is_found(rules: Seq<JudgeRule>, answer: Seq<char>, start: int)
    requires
        0 <= start <= rules.len(),
    ensures
        start <= next_rule(rules, answer, start) <= rules.len(),
        next_rule(rules, answer, start) < rules.len() ==> settles(
            rules[next_rule(rules, answer, start)],
            answer,
        ) || asks(rules[next_rule(rules, answer, start)]),
        start < rules.len() && (settles(rules[start], answer) || asks(rules[start])) ==> next_rule(
            rules,
            answer,
            start,
        ) == start,
    decreases rules.len() - start,
{
    if start < rules.len() && !(settles(rules[start], answer) || asks(rules[start])) {
        the_next_rule_is_found(rules, answer, start + 1);
    }
}

/// The verdict of a rule is what the rule says, and it counts; without a rule the answer is wrong, and
/// nothing is said of it.
pub proof fn verdicts_say_what_their_rule_says(r: JudgeResult, rule: JudgeRule)
    ensures
        is_verdict_of(r, rule) ==> {
            &&& !r.ignored
            &&& r.action == RbJudgeAction::from_optional_word(rule.action)
            &&& r.result is Some <==> rule.result is Some
            &&& r.result is Some ==> r.result->0@ == rule.result->0@
            &&& r.answer is Some <==> rule.answer is Some
            &&& r.answer is Some ==> r.answer->0@ == rule.answer->0@
            &&& r.triggers@.len() == rule.triggers@.len()
            &&& forall|i: int|
                0 <= i < r.triggers@.len() ==> (#[trigger] r.triggers@[i])@ == rule.triggers@[i]@
        },
        is_default_verdict(r) <==> r.action == RbJudgeAction::Fail && r.result is None && r.answer
            is None && !r.ignored && r.triggers@.len() == 0,
{
    if is_verdict_of(r, rule) {
        let (x, y) = (texts_in(r.triggers@), texts_in(rule.triggers@));
        assert(x.len() == r.triggers@.len() && y.len() == rule.triggers@.len());
        assert forall|i: int| 0 <= i < r.triggers@.len() implies (#[trigger] r.triggers@[i])@
            == rule.triggers@[i]@ by {
            assert(x[i] == y[i]);
        }
    }
}

/// A step ends with the verdict of the first rule that settles the answer, asks the program of the
/// first rule that has one, whichever comes first, or ends with the answer being wrong.
pub proof fn steps_follow_the_next_rule(
    step: JudgeStep,
    rules: Seq<JudgeRule>,
    answer: Seq<char>,
    start: int,
    n: int,
)
    requires
        is_step(step, rules, answer, start),
        0 <= start <= n <= rules.len(),
        forall|i: int|
            start <= i < n ==> !settles(#[trigger] rules[i], answer) && !asks(rules[i]),
    ensures
        n == rules.len() ==> (step matches JudgeStep::Done(r) && is_default_verdict(r)),
        n < rules.len() && settles(rules[n], answer) ==> (step matches JudgeStep::Done(r)
            && is_verdict_of(r, rules[n])),
        n < rules.len() && asks(rules[n]) ==> (step matches JudgeStep::RunCustom(i) && i == n),
{
    lemma_next_rule_at(rules, answer, start, n);
}

proof fn lemma_next_rule_at(rules: Seq<JudgeRule>, answer: Seq<char>, start: int, n: int)
    requires
        0 <= start <= n <= rules.len(),
        forall|i: int|
            start <= i < n ==> !settles(#[trigger] rules[i], answer) && !asks(rules[i]),
    ensures
        next_rule(rules, answer, start) == next_rule(rules, answer, n),
        n == rules.len() ==> next_rule(rules, answer, n) == n,
    decreases n - start,
{
    if start < n {
        assert(!settles(rules[start], answer) && !asks(rules[start]));
        lemma_next_rule_at(rules, answer, start + 1, n);
    }
}

/// Rules are prepared by bringing the texts of those for one answer into the form in which answers are
/// compared; the answer that is shown is then the one that was written, unless the rule names another.
pub proof fn prepared_rules_compare_normal_forms(before: JudgeRule, after: JudgeRule)
    requires
        prepared(before, after),
    ensures
        after.rtype == before.rtype,
        after.action == before.action,
        after.result == before.result,
        after.function == before.function,
        after.triggers == before.triggers,
        before.rtype is Some && before.rtype->0@ == "exact"@ ==> {
            &&& before.text is None ==> after.text is None
            &&& before.text is Some ==> after.text is Some && after.text->0@ == normalized(
                before.text->0@,
            )
            &&& before.answer is Some ==> after.answer is Some && after.answer->0@
                == before.answer->0@
            &&& before.answer is None && before.text is Some ==> after.answer is Some
                && after.answer->0@ == before.text->0@
            &&& before.answer is None && before.text is None ==> after.answer is None
        },
        before.rtype is None || before.rtype->0@ != "exact"@ ==> after.text == before.text
            && after.answer == before.answer,
{
}

/// A text that may be missing is the text that is there; texts are taken one for one.
pub proof fn texts_are_taken_as_they_are(s: String, v: Seq<String>, i: int, word: Seq<char>)
    ensures
        text_in(None) is None,
        text_in(Some(s)) == Some(s@),
        !is_word(None, word),
        is_word(Some(s), word) <==> s@ == word,
        texts_in(v).len() == v.len(),
        0 <= i < v.len() ==> texts_in(v)[i] == v[i]@,
{
}

/// Nothing is left of an empty text, and a blank adds nothing.
pub proof fn blanks_add_nothing(s: Seq<char>, c: char)
    ensures
        normalized(Seq::empty()).len() == 0,
        text::is_white(c) ==> normalized(s.push(c)) == normalized(s),
        !text::is_white(c) ==> normalized(s.push(c)) == normalized(s) + text::char_lowercase(c),
{
    assert(s.push(c).drop_last() =~= s);
}

} // verus!
