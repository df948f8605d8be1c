//! Taking a quiz: the answer choices of a question are shuffled with a random
//! key for each, choosing an answer updates whether the question is answered
//! correctly, and the score follows those changes.
use vstd::prelude::*;
use rand::distributions::{Alphanumeric, DistString};
use rand::seq::SliceRandom;

use crate::surreal::SurrealQuestionMC;
use crate::text::{chars_of, string_from_chars};

verus! {

// ---------------------------------------------------------------------------
// Answering and scoring
// ---------------------------------------------------------------------------

/// Choosing an answer: `hit` tells whether the chosen key is the key of the
/// right answer. The result is whether the question is now answered correctly,
/// and the score change to report: `Some(true)` for a point gained,
/// `Some(false)` for a point lost, `None` when nothing changed.
pub open spec fn answer_step(was_correct: bool, hit: bool) -> (bool, Option<bool>) {
    if hit {
        if was_correct {
            (true, None)
        } else {
            (true, Some(true))
        }
    } else {
        if was_correct {
            (false, Some(false))
        } else {
            (false, None)
        }
    }
}

/// The score after a reported change.
pub open spec fn grade_step(score: int, change: Option<bool>) -> int {
    match change {
        Some(true) => score + 1,
        Some(false) => score - 1,
        None => score,
    }
}

/// Handles the choice of an answer whose key is `selected` for a question
/// whose right answer has the key `correct_key`.
pub fn choose_answer(was_correct: bool, selected: &String, correct_key: &String) -> (r: (
    bool,
    Option<bool>,
))
    ensures
        r == answer_step(was_correct, selected@ == correct_key@),
{
    if *selected == *correct_key {
        if was_correct {
            (true, None)
        } else {
            (true, Some(true))
        }
    } else {
        if was_correct {
            (false, Some(false))
        } else {
            (false, None)
        }
    }
}

/// Applies one reported score change: a point gained or a point lost.
pub fn apply_grade(score: usize, correct: bool) -> (r: usize)
    requires
        correct ==> score < usize::MAX,
        !correct ==> score > 0,
    ensures
        r == grade_step(score as int, Some(correct)),
{
    if correct {
        score + 1
    } else {
        score - 1
    }
}

/// The number of questions answered correctly.
pub open spec fn count_correct(flags: Seq<bool>) -> int
    decreases flags.len(),
{
    if flags.len() == 0 {
        0
    } else {
        count_correct(flags.drop_last()) + if flags.last() {
            1int
        } else {
            0int
        }
    }
}

/// The state of an exam of `n` questions after a sequence of answer choices,
/// each given as the question's index and whether the right answer was
/// chosen: which questions are answered correctly, and the score.
pub open spec fn run_exam(n: nat, events: Seq<(int, bool)>) -> (Seq<bool>, int)
    decreases events.len(),
{
    if events.len() == 0 {
        (Seq::new(n, |i: int| false), 0)
    } else {
        let (flags, score) = run_exam(n, events.drop_last());
        let (q, hit) = events.last();
        if 0 <= q < flags.len() {
            let (now, change) = answer_step(flags[q], hit);
            (flags.update(q, now), grade_step(score, change))
        } else {
            (flags, score)
        }
    }
}

proof fn lemma_count_correct_bounds(flags: Seq<bool>)
    ensures
        0 <= count_correct(flags) <= flags.len(),
    decreases flags.len(),
{
    if flags.len() > 0 {
        lemma_count_correct_bounds(flags.drop_last());
    }
}

proof fn lemma_count_correct_update(flags: Seq<bool>, q: int, b: bool)
    requires
        0 <= q < flags.len(),
    ensures
        count_correct(flags.update(q, b)) == count_correct(flags) - (if flags[q] {
            1int
        } else {
            0int
        }) + (if b {
            1int
        } else {
            0int
        }),
    decreases flags.len(),
{
    let u = flags.update(q, b);
    if q == flags.len() - 1 {
        assert(u.drop_last() =~= flags.drop_last());
    } else {
        assert(u.drop_last() =~= flags.drop_last().update(q, b));
        lemma_count_correct_update(flags.drop_last(), q, b);
    }
}

proof fn lemma_count_all_false(n: nat)
    ensures
        count_correct(Seq::new(n, |i: int| false)) == 0,
    decreases n,
{
    if n > 0 {
        assert(Seq::new(n, |i: int| false).drop_last() =~= Seq::new((n - 1) as nat, |i: int| false));
        lemma_count_all_false((n - 1) as nat);
    }
}

/// However answers are chosen and changed, the score equals the number of
/// questions currently answered correctly; so it never drops below zero (a
/// point is only taken back from a question that had earned it) and never
/// exceeds the number of questions.
pub proof fn lemma_score_counts_correct_answers(n: nat, events: Seq<(int, bool)>)
    ensures
        run_exam(n, events).0.len() == n,
        run_exam(n, events).1 == count_correct(run_exam(n, events).0),
        0 <= run_exam(n, events).1 <= n,
    decreases events.len(),
{
    if events.len() == 0 {
        lemma_count_all_false(n);
    } else {
        lemma_score_counts_correct_answers(n, events.drop_last());
        let (flags, score) = run_exam(n, events.drop_last());
        let (q, hit) = events.last();
        if 0 <= q < flags.len() {
            let (now, change) = answer_step(flags[q], hit);
            lemma_count_correct_update(flags, q, now);
        }
    }
    lemma_count_correct_bounds(run_exam(n, events).0);
}

/// Choosing the same answer again changes nothing.
pub proof fn lemma_answer_step_idempotent(was_correct: bool, hit: bool)
    ensures
        answer_step(answer_step(was_correct, hit).0, hit) == (answer_step(was_correct, hit).0,
        None::<bool>),
{
}

// ---------------------------------------------------------------------------
// Preparing the answer choices
// ---------------------------------------------------------------------------

/// `c` is an ASCII letter or digit.
pub open spec fn is_ascii_alphanumeric(c: char) -> bool {
    ('0' <= c <= '9') || ('A' <= c <= 'Z') || ('a' <= c <= 'z')
}

/// A random string of `len` ASCII letters and digits.
///
/// Calls `Alphanumeric.sample_string` of rand with the thread-local generator;
/// rand documents that it appends `len` characters, each drawn from
/// `A-Z`, `a-z` and `0-9`. Which characters come out is left open.
#[verifier::external_body]
fn random_alphanumeric(len: usize) -> (s: String)
    ensures
        s@.len() == len,
        forall|i: int| 0 <= i < len ==> is_ascii_alphanumeric(#[trigger] s@[i]),
{
    Alphanumeric.sample_string(&mut rand::thread_rng(), len)
}

/// Puts the elements of `v` in a random order.
///
/// Calls `SliceRandom::shuffle` of rand with the thread-local generator. Its
/// source only swaps elements, so the contract claims that the elements stay
/// the same as a multiset; the order that comes out is left open.
#[verifier::external_body]
fn shuffle<T>(v: &mut Vec<T>)
    ensures
        final(v)@.to_multiset() == old(v)@.to_multiset(),
{
    v.shuffle(&mut rand::thread_rng());
}

/// Puts the questions of a quiz in a random order, as the exam shows them.
pub fn shuffled_questions(questions: Vec<SurrealQuestionMC>) -> (r: Vec<SurrealQuestionMC>)
    ensures
        r@.to_multiset() == questions@.to_multiset(),
{
    let mut v = questions;
    shuffle(&mut v);
    v
}

/// The length of the random key given to each answer choice.
pub const KEY_LEN: usize = 16;

/// Each wrong choice paired with the key at the same position, then the right
/// answer paired with its key.
pub open spec fn paired(
    choices: Seq<String>,
    keys: Seq<String>,
    answer: String,
    correct_key: String,
) -> Seq<(String, String)> {
    Seq::new(choices.len(), |i: int| (choices[i], keys[i])).push((answer, correct_key))
}

/// A key as the exam draws it: `KEY_LEN` ASCII letters and digits.
pub open spec fn is_choice_key(k: Seq<char>) -> bool {
    &&& k.len() == KEY_LEN
    &&& forall|j: int| 0 <= j < KEY_LEN ==> is_ascii_alphanumeric(#[trigger] k[j])
}

/// Pairs each wrong choice with its key, then the right answer with its key.
pub fn pair_choices(
    choices: &Vec<String>,
    keys: Vec<String>,
    answer: String,
    correct_key: String,
) -> (r: Vec<(String, String)>)
    requires
        keys.len() == choices.len(),
    ensures
        r@ == paired(choices@, keys@, answer, correct_key),
{
    let n = choices.len();
    let ghost all_keys = keys@;
    let mut rest = keys;
    let mut r: Vec<(String, String)> = Vec::new();
    let mut i: usize = 0;
    assert(all_keys.skip(0) =~= all_keys);
    while i < n
        invariant
            n == choices.len(),
            n == all_keys.len(),
            i <= n,
            rest@ == all_keys.skip(i as int),
            r.len() == i,
            forall|j: int| 0 <= j < i ==> (#[trigger] r@[j]) == (choices@[j], all_keys[j]),
        decreases n - i,
    {
        let k = rest.remove(0);
        assert(k == all_keys[i as int]);
        assert(rest@ =~= all_keys.skip(i + 1));
        r.push((choices[i].clone(), k));
        i = i + 1;
    }
    r.push((answer, correct_key));
    assert(r@ =~= paired(choices@, all_keys, answer, correct_key));
    r
}

/// The texts of a list of (text, key) pairs.
pub open spec fn texts(pairs: Seq<(String, String)>) -> Seq<String> {
    pairs.map_values(|p: (String, String)| p.0)
}

/// Multisets of equal sequences stay equal when a function is applied to
/// every element.
proof fn lemma_map_preserves_multiset<A, B>(a: Seq<A>, b: Seq<A>, f: spec_fn(A) -> B)
    requires
        a.to_multiset() == b.to_multiset(),
    ensures
        a.map_values(f).to_multiset() == b.map_values(f).to_multiset(),
    decreases a.len(),
{
    broadcast use vstd::seq_lib::group_to_multiset_ensures;

    if a.len() == 0 {
        assert(a.to_multiset().len() == 0);
        assert(b.len() == 0);
        assert(a.map_values(f) =~= Seq::<B>::empty());
        assert(b.map_values(f) =~= Seq::<B>::empty());
    } else {
        let x = a.last();
        assert(a.to_multiset().count(x) > 0) by {
            assert(a.contains(x)) by {
                assert(a[a.len() - 1] == x);
            }
        }
        assert(b.contains(x));
        let i = choose|i: int| 0 <= i < b.len() && b[i] == x;
        let b2 = b.remove(i);
        assert(a == a.drop_last().push(x));
        assert(a.drop_last().to_multiset() == a.to_multiset().remove(x));
        assert(b2.to_multiset() == b.to_multiset().remove(x));
        lemma_map_preserves_multiset(a.drop_last(), b2, f);
        assert(a.map_values(f) =~= a.drop_last().map_values(f).push(f(x)));
        assert(b.map_values(f) =~= b2.map_values(f).insert(i, f(x)));
        vstd::seq_lib::to_multiset_insert(b2.map_values(f), i, f(x));
    }
}

/// Another key of the same form: the first character is changed, to `b`
/// when it is `a` and to `a` otherwise.
fn other_key(k: &String) -> (r: String)
    requires
        is_choice_key(k@),
    ensures
        is_choice_key(r@),
        r@ != k@,
{
    let mut cs = chars_of(k.as_str());
    let c = if cs[0] == 'a' {
        'b'
    } else {
        'a'
    };
    cs.set(0, c);
    let r = string_from_chars(&cs);
    assert(r@[0] != k@[0]);
    r
}

/// The answer choices of a question as the exam shows them: each wrong choice
/// and the right answer with a random key of 16 letters and digits, in a
/// random order; the key of the right answer is returned as well.
/// Whatever the random draws: the pairs are, up to their order, each wrong
/// choice with a drawn key followed by the answer with the returned key, and
/// every key is 16 letters and digits.
pub fn prepare_choices(question: &SurrealQuestionMC) -> (r: (Vec<(String, String)>, String))
    ensures
        r.0.len() == question.choices.len() + 1,
        exists|ks: Seq<String>|
            #![trigger paired(question.choices@, ks, question.answer, r.1)]
            ks.len() == question.choices.len() && (forall|i: int|
                0 <= i < ks.len() ==> is_choice_key(#[trigger] ks[i]@) && ks[i]@ != r.1@)
                && r.0@.to_multiset() == paired(question.choices@, ks, question.answer, r.1).to_multiset(),
        forall|i: int|
            0 <= i < r.0.len() && (#[trigger] r.0@[i]).1@ == r.1@ ==> r.0@[i] == (question.answer, r.1),
        texts(r.0@).to_multiset() == question.choices@.push(question.answer).to_multiset(),
        r.0@.contains((question.answer, r.1)),
        is_choice_key(r.1@),
        forall|i: int| 0 <= i < r.0.len() ==> is_choice_key(#[trigger] r.0@[i].1@),
{
    let n = question.choices.len();
    let correct_key = random_alphanumeric(KEY_LEN);
    let mut keys: Vec<String> = Vec::new();
    let mut i: usize = 0;
    while i < n
        invariant
            n == question.choices.len(),
            i <= n,
            keys.len() == i,
            forall|k: int| 0 <= k < i ==> is_choice_key(#[trigger] keys@[k]@) && keys@[k]@ != correct_key@,
        decreases n - i,
    {
        let drawn = random_alphanumeric(KEY_LEN);
        let k = if drawn == correct_key {
            other_key(&drawn)
        } else {
            drawn
        };
        keys.push(k);
        i = i + 1;
    }
    let ghost ks = keys@;
    let mut pairs = pair_choices(&question.choices, keys, question.answer.clone(), correct_key.clone());
    let ghost before = pairs@;
    proof {
        assert(before == paired(question.choices@, ks, question.answer, correct_key));
        assert(texts(before) =~= question.choices@.push(question.answer));
    }
    shuffle(&mut pairs);
    proof {
        broadcast use vstd::seq_lib::group_to_multiset_ensures;

        lemma_map_preserves_multiset(pairs@, before, |p: (String, String)| p.0);
        assert(pairs@.len() == pairs@.to_multiset().len());
        assert(before.len() == before.to_multiset().len());
        assert(before.contains((question.answer, correct_key))) by {
            assert(before[n as int] == (question.answer, correct_key));
        }
        assert(pairs@.to_multiset().count((question.answer, correct_key)) > 0);
        assert forall|i: int| 0 <= i < pairs.len() implies is_choice_key(#[trigger] pairs@[i].1@) by {
            let p = pairs@[i];
            assert(pairs@.contains(p));
            assert(pairs@.to_multiset().count(p) > 0);
            assert(before.to_multiset().count(p) > 0);
            assert(before.contains(p));
            let k = choose|k: int| 0 <= k < before.len() && before[k] == p;
            if k < n {
                assert(before[k].1 == ks[k]);
            }
        }
        assert forall|i: int|
            0 <= i < pairs.len() && (#[trigger] pairs@[i]).1@ == correct_key@ implies pairs@[i] == (
            question.answer,
            correct_key,
        ) by {
            let p = pairs@[i];
            assert(pairs@.contains(p));
            assert(pairs@.to_multiset().count(p) > 0);
            assert(before.to_multiset().count(p) > 0);
            assert(before.contains(p));
            let k = choose|k: int| 0 <= k < before.len() && before[k] == p;
            if k < n {
                assert(before[k].1 == ks[k]);
                assert(ks[k]@ != correct_key@);
            }
        }
    }
    (pairs, correct_key)
}

/// With choices where only the right answer's pair carries the returned key,
/// as `prepare_choices` gives them, choosing the pair of any wrong choice is
/// a miss: it earns no point, and takes back the point of a question that
/// was answered correctly; choosing the right answer's pair is a hit.
pub proof fn lemma_only_the_answer_scores(
    pairs: Seq<(String, String)>,
    answer: String,
    key: String,
    i: int,
    was_correct: bool,
)
    requires
        0 <= i < pairs.len(),
        forall|j: int| 0 <= j < pairs.len() && (#[trigger] pairs[j]).1@ == key@ ==> pairs[j] == (answer, key),
    ensures
        pairs[i].0 != answer ==> answer_step(was_correct, pairs[i].1@ == key@) == (
            false,
            if was_correct {
                Some(false)
            } else {
                None
            },
        ),
        pairs[i] == (answer, key) ==> answer_step(was_correct, pairs[i].1@ == key@) == (
            true,
            if was_correct {
                None
            } else {
                Some(true)
            },
        ),
{
}

/// The line that shows the right answer of a question answered wrongly.
pub fn answer_line(answer: &str) -> (s: String)
    ensures
        s@ == "Answer: "@ + answer@,
{
    crate::text::concat_str("Answer: ", answer)
}

} // verus!
