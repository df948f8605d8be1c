//! The client's question models and the rules of the question forge, where
//! questions of a quiz are created, edited and removed.
use vstd::prelude::*;

use crate::lists::{is_stable_sort, keep_where, lemma_remove_then_add, sorted_by, stable_sort_by_keys};
use crate::models::{JsonQuestion, JsonQuestionMC, QuestionJsonPkg};
use crate::surreal::{SurrealQuestionMC, SurrealQuiz, Thing, ThingView};
use crate::text::{chars_of, is_blank, trim, trim_str};

verus! {

/// A saved question of any kind (multiple choice, long answer, short answer).
#[derive(Debug, Clone, PartialEq)]
pub enum QuestType {
    MC(SurrealQuestionMC),
    LA,
    SA,
}

/// The record id of a multiple choice question.
pub open spec fn quest_id(q: QuestType) -> ThingView {
    match q {
        QuestType::MC(m) => m.id@,
        _ => ThingView { tb: Seq::empty(), id: crate::surreal::IdView::Number(0) },
    }
}

/// The key by which saved questions are ordered: the raw form of their id.
pub open spec fn quest_key(q: QuestType) -> Seq<char> {
    match q {
        QuestType::MC(m) => m.id@.raw(),
        _ => Seq::empty(),
    }
}

/// The key by which stored multiple choice questions are ordered.
pub open spec fn mc_key(m: SurrealQuestionMC) -> Seq<char> {
    m.id@.raw()
}

/// Every question of the list is a multiple choice question.
pub open spec fn all_mc(s: Seq<QuestType>) -> bool {
    forall|i: int| 0 <= i < s.len() ==> #[trigger] s[i] is MC
}

impl QuestType {
    /// The record id of a multiple choice question; the other kinds have none yet.
    pub fn get_id(&self) -> (t: Thing)
        requires
            self is MC,
        ensures
            t@ == quest_id(*self),
    {
        match self {
            QuestType::MC(quest) => quest.id.clone(),
            _ => unreached(),
        }
    }
}

/// A saved question with the position under which the list renders it.
#[derive(Debug, Clone, PartialEq)]
pub struct Quest {
    pub id: usize,
    pub quest: QuestType,
}

/// A question being written, not yet saved, with the number that identifies
/// its form in the list of new questions.
#[derive(Debug, Clone, PartialEq)]
pub struct QLInternals {
    pub id: usize,
    pub data: JsonQuestion,
}

/// An edited question as sent to the backend.
#[derive(Debug, Clone, PartialEq)]
pub struct EditQuestionJsonPkg {
    pub question: JsonQuestion,
}

/// The id of a quiz and its updated fields as a JSON text.
#[derive(Debug, Clone, PartialEq)]
pub struct UpdateQuizActionPkg {
    pub id: String,
    pub pkg: String,
}

// ---------------------------------------------------------------------------
// Reading the question form
// ---------------------------------------------------------------------------

/// The hint as the form gives it: none when it is blank, else the trimmed text.
pub open spec fn hint_of(hint: Seq<char>) -> Option<Seq<char>> {
    if trim(hint).len() == 0 {
        None
    } else {
        Some(trim(hint))
    }
}

/// A multiple choice question from the six fields of the question form: every
/// field is trimmed, a blank hint becomes no hint, and the three wrong choices
/// are kept in the order of the form.
pub fn question_from_form(
    question: &str,
    hint: &str,
    answer: &str,
    wrong1: &str,
    wrong2: &str,
    wrong3: &str,
) -> (q: JsonQuestionMC)
    ensures
        q.question@ == trim(question@),
        q.hint is None <==> hint_of(hint@) is None,
        q.hint matches Some(h) ==> hint_of(hint@) == Some(h@),
        q.answer@ == trim(answer@),
        q.choices.len() == 3,
        q.choices@[0]@ == trim(wrong1@),
        q.choices@[1]@ == trim(wrong2@),
        q.choices@[2]@ == trim(wrong3@),
{
    let real_hint = if is_blank(hint) {
        None
    } else {
        Some(trim_str(hint))
    };
    let mut choices: Vec<String> = Vec::new();
    choices.push(trim_str(wrong1));
    choices.push(trim_str(wrong2));
    choices.push(trim_str(wrong3));
    JsonQuestionMC {
        question: trim_str(question),
        hint: real_hint,
        answer: trim_str(answer),
        choices,
    }
}

/// The message when the quiz of a new question is unknown.
pub open spec fn no_parent_quiz_msg() -> Seq<char> {
    "Parent quiz data not provied"@
}

/// Packages a new question for the quiz being edited, or reports that there
/// is no such quiz.
pub fn new_question_package(quiz: &Option<SurrealQuiz>, question: JsonQuestionMC) -> (r: Result<
    QuestionJsonPkg,
    String,
>)
    ensures
        quiz is None ==> (r matches Err(msg) && msg@ == no_parent_quiz_msg()),
        quiz matches Some(z) ==> (r matches Ok(pkg) && pkg.quiz_id@ == z.id@ && pkg.question
            == JsonQuestion::MultipleChoice(question)),
{
    proof {
        reveal_strlit("Parent quiz data not provied");
    }
    match quiz {
        Some(z) => Ok(
            QuestionJsonPkg { quiz_id: z.id.clone(), question: JsonQuestion::MultipleChoice(question) },
        ),
        None => Err(String::from_str("Parent quiz data not provied")),
    }
}

// ---------------------------------------------------------------------------
// The forge's lists
// ---------------------------------------------------------------------------

/// The numbers of the new-question forms are all below `next` and distinct.
pub open spec fn form_ids_fresh(forms: Seq<QLInternals>, next: usize) -> bool {
    &&& forall|i: int| 0 <= i < forms.len() ==> #[trigger] forms[i].id < next
    &&& forall|i: int, j: int| 0 <= i < j < forms.len() ==> forms[i].id != forms[j].id
}

/// Opens a new, empty question form numbered `next` and advances `next`.
/// Numbers handed out this way stay distinct.
pub fn add_question_form(forms: &mut Vec<QLInternals>, next: &mut usize)
    requires
        *old(next) < usize::MAX,
    ensures
        *final(next) == *old(next) + 1,
        final(forms)@.len() == old(forms)@.len() + 1,
        final(forms)@.drop_last() == old(forms)@,
        final(forms)@.last().id == *old(next),
        (final(forms)@.last().data matches JsonQuestion::MultipleChoice(mc) && mc.question@
            == Seq::<char>::empty() && mc.hint is None && mc.answer@ == Seq::<char>::empty()
            && mc.choices@ == Seq::<String>::empty()),
        form_ids_fresh(old(forms)@, *old(next)) ==> form_ids_fresh(final(forms)@, *final(next)),
{
    forms.push(QLInternals { id: *next, data: JsonQuestion::default() });
    *next = *next + 1;
    assert(forms@.drop_last() =~= old(forms)@);
}

/// The position of the first form numbered `id`, if any.
pub open spec fn is_first_form(forms: Seq<QLInternals>, id: usize, p: int) -> bool {
    &&& 0 <= p < forms.len()
    &&& forms[p].id == id
    &&& forall|q: int| 0 <= q < p ==> #[trigger] forms[q].id != id
}

/// Closes the first form numbered `id` (once its question is saved); the
/// list is unchanged when no form has that number.
pub fn remove_question_form(forms: &mut Vec<QLInternals>, id: usize)
    ensures
        (forall|q: int| 0 <= q < old(forms)@.len() ==> #[trigger] old(forms)@[q].id != id)
            ==> final(forms)@ == old(forms)@,
        forall|p: int| is_first_form(old(forms)@, id, p) ==> final(forms)@ == old(forms)@.remove(p),
{
    let mut p: usize = 0;
    while p < forms.len() && forms[p].id != id
        invariant
            p <= forms.len(),
            forms@ == old(forms)@,
            forall|q: int| 0 <= q < p ==> #[trigger] forms@[q].id != id,
        decreases forms.len() - p,
    {
        p = p + 1;
    }
    if p < forms.len() {
        forms.remove(p);
    }
}

/// Adds a saved question to the list and sorts the list by question id, as
/// `sort_by` does (stably). The ids of all questions are read, so the list,
/// when it holds more than the new question, must hold multiple choice
/// questions only.
pub fn add_quest(quests: &mut Vec<QuestType>, quest: QuestType)
    requires
        old(quests).len() == 0 || all_mc(old(quests)@.push(quest)),
    ensures
        is_stable_sort(final(quests)@, old(quests)@.push(quest), |q: QuestType| quest_key(q)),
{
    quests.push(quest);
    let mut keys: Vec<Vec<char>> = Vec::new();
    let mut i: usize = 0;
    while i < quests.len()
        invariant
            i <= quests.len(),
            quests@ == old(quests)@.push(quest),
            keys.len() == i,
            quests.len() == 1 || all_mc(quests@),
            forall|q: int| 0 <= q < i ==> (#[trigger] keys@[q])@ == quest_key(quests@[q]),
        decreases quests.len() - i,
    {
        let k = match &quests[i] {
            QuestType::MC(m) => chars_of(m.id.to_raw().as_str()),
            _ => Vec::new(),
        };
        keys.push(k);
        i = i + 1;
    }
    stable_sort_by_keys(quests, &mut keys, Ghost(|q: QuestType| quest_key(q)));
}

/// Removes every saved question whose id is that of `dead` (after it was
/// deleted or before its edited version is added back); the others stay in
/// order. The ids of all questions are read, so a non-empty list must hold
/// multiple choice questions only, `dead` included.
pub fn remove_quest(quests: &mut Vec<QuestType>, dead: &QuestType)
    requires
        old(quests).len() == 0 || (all_mc(old(quests)@) && *dead is MC),
    ensures
        final(quests)@ == old(quests)@.filter(|q: QuestType| quest_id(q) != quest_id(*dead)),
{
    let ghost pred = |q: QuestType| quest_id(q) != quest_id(*dead);
    let mut keep: Vec<bool> = Vec::new();
    let mut i: usize = 0;
    while i < quests.len()
        invariant
            i <= quests.len(),
            quests@ == old(quests)@,
            quests.len() == 0 || (all_mc(quests@) && *dead is MC),
            pred == (|q: QuestType| quest_id(q) != quest_id(*dead)),
            keep.len() == i,
            forall|q: int| 0 <= q < i ==> #[trigger] keep@[q] == pred(quests@[q]),
        decreases quests.len() - i,
    {
        let dead_id = dead.get_id();
        let this_id = quests[i].get_id();
        let k = !this_id.same_as(&dead_id);
        assert(k == pred(quests@[i as int]));
        keep.push(k);
        i = i + 1;
    }
    let mut list: Vec<QuestType> = Vec::new();
    std::mem::swap(quests, &mut list);
    *quests = keep_where(list, &keep, Ghost(pred));
}

/// Saving an edited question removes every saved question with its id and
/// then adds the edited version: the list comes out sorted by id, holds the
/// edited question, still holds every question with another id, and holds no
/// other question with the edited question's id.
pub proof fn lemma_edit_replaces_question(
    before: Seq<QuestType>,
    removed: Seq<QuestType>,
    after: Seq<QuestType>,
    edited: QuestType,
)
    requires
        removed == before.filter(|q: QuestType| quest_id(q) != quest_id(edited)),
        is_stable_sort(after, removed.push(edited), |q: QuestType| quest_key(q)),
    ensures
        sorted_by(after, |q: QuestType| quest_key(q)),
        after.contains(edited),
        forall|q: QuestType| #[trigger] before.contains(q) && quest_id(q) != quest_id(edited) ==> after.contains(q),
        forall|q: QuestType| #[trigger] after.contains(q) && quest_id(q) == quest_id(edited) ==> q == edited,
{
    let id = |q: QuestType| quest_id(q);
    assert((|q: QuestType| id(q) != id(edited)) =~= (|q: QuestType| quest_id(q) != quest_id(edited)));
    lemma_remove_then_add(before, removed, after, edited, id, |q: QuestType| quest_key(q));
}

/// Sorts the stored questions of a quiz by id, stably, as they arrive.
pub fn sort_questions_by_id(questions: &mut Vec<SurrealQuestionMC>)
    ensures
        is_stable_sort(final(questions)@, old(questions)@, |m: SurrealQuestionMC| mc_key(m)),
{
    let mut keys: Vec<Vec<char>> = Vec::new();
    let mut i: usize = 0;
    while i < questions.len()
        invariant
            i <= questions.len(),
            questions@ == old(questions)@,
            keys.len() == i,
            forall|q: int| 0 <= q < i ==> (#[trigger] keys@[q])@ == mc_key(questions@[q]),
        decreases questions.len() - i,
    {
        keys.push(chars_of(questions[i].id.to_raw().as_str()));
        i = i + 1;
    }
    stable_sort_by_keys(questions, &mut keys, Ghost(|m: SurrealQuestionMC| mc_key(m)));
}

/// Appends stored questions, in order, to the list of saved questions.
pub fn append_as_quests(quests: &mut Vec<QuestType>, questions: Vec<SurrealQuestionMC>)
    ensures
        final(quests)@ == old(quests)@ + questions@.map_values(|m: SurrealQuestionMC| QuestType::MC(m)),
{
    let ghost orig = questions@;
    let n = questions.len();
    let mut rest = questions;
    let mut i: usize = 0;
    assert(orig.skip(0) =~= orig);
    while i < n
        invariant
            n == orig.len(),
            i <= n,
            rest@ == orig.skip(i as int),
            quests@ == old(quests)@ + orig.take(i as int).map_values(|m: SurrealQuestionMC| QuestType::MC(m)),
        decreases n - i,
    {
        let m = rest.remove(0);
        assert(m == orig[i as int]);
        quests.push(QuestType::MC(m));
        proof {
            assert(rest@ =~= orig.skip(i + 1));
            assert(orig.take(i + 1).map_values(|m: SurrealQuestionMC| QuestType::MC(m)) =~= orig.take(
                i as int,
            ).map_values(|m: SurrealQuestionMC| QuestType::MC(m)).push(QuestType::MC(m)));
        }
        i = i + 1;
    }
    assert(orig.take(n as int) =~= orig);
}

} // verus!
