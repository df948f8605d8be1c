//! The dashboard of a logged in user: which screen it shows, which quiz is
//! chosen, and the user's list of quizzes kept in order of name.
use vstd::prelude::*;

use crate::lists::{
    is_stable_sort, keep_where, keyed, lemma_remove_then_add, lemma_sort_by_given_keys, pair_key, sort_by_given_keys,
    sorted_by, unkeyed,
};
use crate::questions::UpdateQuizActionPkg;
use crate::requests::{quiz_json, quiz_json_spec};
use crate::surreal::SurrealQuiz;
use crate::text::{lowercase, to_lowercase};

verus! {

/// The screens of the dashboard.
#[derive(Debug, Clone, Copy, PartialEq, Eq)]
pub enum DashDisplay {
    MyQuizzes,
    MakeQuizzes,
    MakeQuestions,
    TakeQuiz,
    UpdateQuiz,
}

impl Default for DashDisplay {
    /// The dashboard opens on the user's quizzes.
    fn default() -> (d: Self)
        ensures
            d == DashDisplay::MyQuizzes,
    {
        DashDisplay::MyQuizzes
    }
}

/// What the dashboard shows and works on.
#[derive(Debug, Clone, PartialEq)]
pub struct DashState {
    /// The screen shown.
    pub display: DashDisplay,
    /// The quiz chosen to be taken or updated.
    pub current_quiz: Option<SurrealQuiz>,
    /// The quiz whose questions are being made.
    pub quiz_data: Option<SurrealQuiz>,
}

impl DashState {
    /// The dashboard as it opens: the user's quizzes, nothing chosen.
    pub fn new() -> (s: Self)
        ensures
            s.display == DashDisplay::MyQuizzes,
            s.current_quiz is None,
            s.quiz_data is None,
    {
        DashState { display: DashDisplay::default(), current_quiz: None, quiz_data: None }
    }

    /// Back to the user's quizzes.
    pub fn show_my_quizzes(&mut self)
        ensures
            final(self).display == DashDisplay::MyQuizzes,
            final(self).current_quiz == old(self).current_quiz,
            final(self).quiz_data == old(self).quiz_data,
    {
        self.display = DashDisplay::MyQuizzes;
    }

    /// To the form for a new quiz; no quiz stays chosen.
    pub fn make_quiz(&mut self)
        ensures
            final(self).display == DashDisplay::MakeQuizzes,
            final(self).current_quiz is None,
            final(self).quiz_data == old(self).quiz_data,
    {
        self.current_quiz = None;
        self.display = DashDisplay::MakeQuizzes;
    }

    /// Chooses a quiz and opens it to be taken.
    pub fn take_quiz(&mut self, quiz: SurrealQuiz)
        ensures
            final(self).display == DashDisplay::TakeQuiz,
            final(self).current_quiz == Some(quiz),
            final(self).quiz_data == old(self).quiz_data,
    {
        self.current_quiz = Some(quiz);
        self.display = DashDisplay::TakeQuiz;
    }

    /// Chooses a quiz and opens it to be updated.
    pub fn update_quiz(&mut self, quiz: SurrealQuiz)
        ensures
            final(self).display == DashDisplay::UpdateQuiz,
            final(self).current_quiz == Some(quiz),
            final(self).quiz_data == old(self).quiz_data,
    {
        self.current_quiz = Some(quiz);
        self.display = DashDisplay::UpdateQuiz;
    }

    /// Opens the questions of a quiz to be made and edited.
    pub fn reforge_questions(&mut self, quiz: SurrealQuiz)
        ensures
            final(self).display == DashDisplay::MakeQuestions,
            final(self).quiz_data == Some(quiz),
            final(self).current_quiz == old(self).current_quiz,
    {
        self.quiz_data = Some(quiz);
        self.display = DashDisplay::MakeQuestions;
    }
}

/// The key by which the list of quizzes is ordered: the name in lower case.
pub open spec fn quiz_key(q: SurrealQuiz) -> Seq<char> {
    lowercase(q.name@)
}

/// Adds a quiz to the user's list and sorts the list by lower-cased name,
/// stably, as `sort_by` on `to_lowercase().cmp` does.
pub fn add_quiz(quizzes: &mut Vec<SurrealQuiz>, quiz: SurrealQuiz)
    ensures
        is_stable_sort(final(quizzes)@, old(quizzes)@.push(quiz), |q: SurrealQuiz| quiz_key(q)),
{
    quizzes.push(quiz);
    let ghost all = quizzes@;
    let mut lowered: Vec<String> = Vec::new();
    let mut i: usize = 0;
    while i < quizzes.len()
        invariant
            i <= quizzes.len(),
            quizzes@ == all,
            all == old(quizzes)@.push(quiz),
            lowered.len() == i,
            forall|k: int| 0 <= k < i ==> (#[trigger] lowered@[k])@ == quiz_key(quizzes@[k]),
        decreases quizzes.len() - i,
    {
        lowered.push(to_lowercase(quizzes[i].name.as_str()));
        i = i + 1;
    }
    let ghost ks = lowered@;
    sort_by_given_keys(quizzes, lowered);
    proof {
        let r = choose|r: Seq<(SurrealQuiz, String)>|
            is_stable_sort(r, keyed(all, ks), pair_key()) && quizzes@ == unkeyed(r);
        lemma_sort_by_given_keys(all, ks, r, |q: SurrealQuiz| quiz_key(q));
    }
}

/// Removes from the user's list every quiz with the id of `dead`, keeping the
/// others in order.
pub fn remove_quiz(quizzes: &mut Vec<SurrealQuiz>, dead: &SurrealQuiz)
    ensures
        final(quizzes)@ == old(quizzes)@.filter(|q: SurrealQuiz| q.id@ != dead.id@),
{
    let ghost pred = |q: SurrealQuiz| q.id@ != dead.id@;
    let mut keep: Vec<bool> = Vec::new();
    let mut i: usize = 0;
    while i < quizzes.len()
        invariant
            i <= quizzes.len(),
            quizzes@ == old(quizzes)@,
            pred == (|q: SurrealQuiz| q.id@ != dead.id@),
            keep.len() == i,
            forall|k: int| 0 <= k < i ==> #[trigger] keep@[k] == pred(quizzes@[k]),
        decreases quizzes.len() - i,
    {
        let k = !quizzes[i].id.same_as(&dead.id);
        assert(k == pred(quizzes@[i as int]));
        keep.push(k);
        i = i + 1;
    }
    let mut list: Vec<SurrealQuiz> = Vec::new();
    std::mem::swap(quizzes, &mut list);
    *quizzes = keep_where(list, &keep, Ghost(pred));
}

/// After the backend stored a new quiz: the quiz joins the user's list, kept
/// in order of name, and the dashboard goes on to making its questions.
pub fn apply_new_quiz(state: &mut DashState, quizzes: &mut Vec<SurrealQuiz>, quiz: SurrealQuiz)
    ensures
        is_stable_sort(final(quizzes)@, old(quizzes)@.push(quiz), |q: SurrealQuiz| quiz_key(q)),
        final(state).display == DashDisplay::MakeQuestions,
        final(state).quiz_data == Some(quiz),
        final(state).current_quiz == old(state).current_quiz,
{
    add_quiz(quizzes, quiz.clone());
    state.reforge_questions(quiz);
}

/// After the backend stored an updated quiz: the quiz takes the place of
/// every quiz with its id in the user's list, kept in order of name, and the
/// dashboard goes back to the list.
pub fn apply_quiz_update(state: &mut DashState, quizzes: &mut Vec<SurrealQuiz>, updated: SurrealQuiz)
    ensures
        is_stable_sort(
            final(quizzes)@,
            old(quizzes)@.filter(|q: SurrealQuiz| q.id@ != updated.id@).push(updated),
            |q: SurrealQuiz| quiz_key(q),
        ),
        final(state).display == DashDisplay::MyQuizzes,
        final(state).current_quiz == old(state).current_quiz,
        final(state).quiz_data == old(state).quiz_data,
{
    remove_quiz(quizzes, &updated);
    add_quiz(quizzes, updated);
    state.show_my_quizzes();
}

/// Saving an updated quiz removes every quiz with its id from the user's list
/// and then adds the updated version: the list comes out in order of name,
/// holds the updated quiz, still holds every quiz with another id, and holds
/// no other quiz with the updated quiz's id.
pub proof fn lemma_update_replaces_quiz(
    before: Seq<SurrealQuiz>,
    removed: Seq<SurrealQuiz>,
    after: Seq<SurrealQuiz>,
    updated: SurrealQuiz,
)
    requires
        removed == before.filter(|q: SurrealQuiz| q.id@ != updated.id@),
        is_stable_sort(after, removed.push(updated), |q: SurrealQuiz| quiz_key(q)),
    ensures
        sorted_by(after, |q: SurrealQuiz| quiz_key(q)),
        after.contains(updated),
        forall|q: SurrealQuiz| #[trigger] before.contains(q) && q.id@ != updated.id@ ==> after.contains(q),
        forall|q: SurrealQuiz| #[trigger] after.contains(q) && q.id@ == updated.id@ ==> q == updated,
{
    let id = |q: SurrealQuiz| q.id@;
    assert((|q: SurrealQuiz| id(q) != id(updated)) =~= (|q: SurrealQuiz| q.id@ != updated.id@));
    lemma_remove_then_add(before, removed, after, updated, id, |q: SurrealQuiz| quiz_key(q));
}

/// The message when the quiz to update is unknown.
pub open spec fn no_quiz_id_msg() -> Seq<char> {
    "Cannot find Quiz ID"@
}

/// The update of the chosen quiz: its raw id and the new name and description
/// as JSON; or the message that no quiz is chosen.
pub fn quiz_update_package(current: &Option<SurrealQuiz>, name: &str, description: &str) -> (r:
    Result<UpdateQuizActionPkg, String>)
    ensures
        current is None ==> (r matches Err(msg) && msg@ == no_quiz_id_msg()),
        current matches Some(q) ==> (r matches Ok(pkg) && pkg.id@ == q.id@.raw() && pkg.pkg@
            == quiz_json_spec(name@, description@)),
{
    proof {
        reveal_strlit("Cannot find Quiz ID");
    }
    match current {
        Some(q) => Ok(UpdateQuizActionPkg { id: q.id.to_raw(), pkg: quiz_json(name, description) }),
        None => Err(String::from_str("Cannot find Quiz ID")),
    }
}

} // verus!
