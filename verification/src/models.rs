//! The data models shared by the quiz backend and its client: users, quizzes,
//! questions, the JSON packages they exchange, and the validation of those
//! packages.
use vstd::prelude::*;

use crate::surreal::{SurrealQuestionMC, SurrealQuiz, Thing};
use crate::text::{is_blank, trim};

verus! {

// ---------------------------------------------------------------------------
// Users
// ---------------------------------------------------------------------------

/// The UUID of the logged in user, handed on by the authentication middleware.
#[derive(Debug, Clone, PartialEq, PartialOrd)]
pub struct UserID(pub String);

/// A registered user, with the hash of the password.
#[derive(Debug, Clone, PartialEq, PartialOrd)]
pub struct GeneralUser {
    pub uuid: String,
    pub name: String,
    pub username: String,
    pub password_hash: String,
}

impl GeneralUser {
    /// A user with the given fields, taken as they are.
    pub fn new(uuid: String, name: String, username: String, password_hash: String) -> (u: Self)
        ensures
            u.uuid == uuid,
            u.name == name,
            u.username == username,
            u.password_hash == password_hash,
    {
        Self { uuid, name, username, password_hash }
    }
}

/// What the client may know of a user.
#[derive(Debug, Clone, PartialEq, PartialOrd)]
pub struct PartialUser {
    pub uuid: String,
    pub name: String,
    pub username: String,
}

/// A message from the backend, such as the reason a request failed.
#[derive(Debug, Clone, PartialEq)]
pub struct JsonMsg {
    pub msg: Option<String>,
}

impl Default for JsonMsg {
    fn default() -> (m: Self)
        ensures
            m.msg is None,
    {
        Self { msg: None }
    }
}

// ---------------------------------------------------------------------------
// Errors
// ---------------------------------------------------------------------------

/// Errors raised by the models.
#[derive(Debug, Clone, PartialEq)]
pub enum ModelErrors {
    /// A JSON package failed validation; the text says why.
    JsonValidation(String),
}

impl ModelErrors {
    /// The text that describes the error.
    pub open spec fn message_view(&self) -> Seq<char> {
        match self {
            ModelErrors::JsonValidation(msg) => msg@,
        }
    }

    /// The text that describes the error, as it is displayed.
    pub fn message(&self) -> (s: String)
        ensures
            s@ == self.message_view(),
    {
        match self {
            ModelErrors::JsonValidation(msg) => msg.clone(),
        }
    }
}

// ---------------------------------------------------------------------------
// Questions
// ---------------------------------------------------------------------------

/// A multiple choice question as the client sends it: the question, an
/// optional hint, the right answer and the wrong choices.
#[derive(Debug, Clone, PartialEq)]
pub struct JsonQuestionMC {
    pub question: String,
    pub hint: Option<String>,
    pub answer: String,
    pub choices: Vec<String>,
}

impl Default for JsonQuestionMC {
    fn default() -> (q: Self)
        ensures
            q.question@ == Seq::<char>::empty(),
            q.hint is None,
            q.answer@ == Seq::<char>::empty(),
            q.choices@ == Seq::<String>::empty(),
    {
        Self { question: String::new(), hint: None, answer: String::new(), choices: Vec::new() }
    }
}

/// A question of any kind as the client sends it.
#[derive(Debug, Clone, PartialEq)]
pub enum JsonQuestion {
    MultipleChoice(JsonQuestionMC),
}

impl Default for JsonQuestion {
    fn default() -> (q: Self)
        ensures
            q matches JsonQuestion::MultipleChoice(mc) && mc.question@ == Seq::<char>::empty()
                && mc.hint is None && mc.answer@ == Seq::<char>::empty() && mc.choices@ == Seq::<
                String,
            >::empty(),
    {
        Self::MultipleChoice(JsonQuestionMC::default())
    }
}

/// A new question together with the quiz it belongs to.
#[derive(Debug, Clone, PartialEq)]
pub struct QuestionJsonPkg {
    pub quiz_id: Thing,
    pub question: JsonQuestion,
}

/// The message when a question is blank.
pub open spec fn empty_question_msg() -> Seq<char> {
    "Question cannot be empty"@
}

/// The message when an answer is blank.
pub open spec fn empty_answer_msg() -> Seq<char> {
    "Question needs valid answer"@
}

/// The message when there is no wrong choice.
pub open spec fn no_choice_msg() -> Seq<char> {
    "Question needs at least one additional choice"@
}

/// What validating a multiple choice question gives: the first failing check
/// in the order question, answer, choices, or success.
pub open spec fn validate_mc_spec(q: JsonQuestionMC) -> Result<(), Seq<char>> {
    if trim(q.question@).len() == 0 {
        Err(empty_question_msg())
    } else if trim(q.answer@).len() == 0 {
        Err(empty_answer_msg())
    } else if q.choices.len() < 1 {
        Err(no_choice_msg())
    } else {
        Ok(())
    }
}

/// A multiple choice question is accepted exactly when its question and its
/// answer are not blank and it has at least one wrong choice; it is refused as
/// empty exactly when its question is blank, whatever else it holds.
pub proof fn lemma_validation_refuses_only_blank_or_missing(q: JsonQuestionMC)
    ensures
        (validate_mc_spec(q) is Ok) <==> (trim(q.question@).len() > 0 && trim(q.answer@).len() > 0
            && q.choices.len() >= 1),
        validate_mc_spec(q) == Err::<(), Seq<char>>(empty_question_msg()) <==> trim(q.question@).len()
            == 0,
        validate_mc_spec(q) == Err::<(), Seq<char>>(empty_answer_msg()) <==> (trim(q.question@).len()
            > 0 && trim(q.answer@).len() == 0),
        validate_mc_spec(q) == Err::<(), Seq<char>>(no_choice_msg()) <==> (trim(q.question@).len() > 0
            && trim(q.answer@).len() > 0 && q.choices.len() == 0),
{
    reveal_strlit("Question cannot be empty");
    reveal_strlit("Question needs valid answer");
    reveal_strlit("Question needs at least one additional choice");
    assert(empty_question_msg()[9] != empty_answer_msg()[9]);
    assert(empty_question_msg()[9] != no_choice_msg()[9]);
    assert(empty_answer_msg().len() != no_choice_msg().len());
}

/// Relates a validation result to the expected outcome.
pub open spec fn validation_matches(r: Result<(), ModelErrors>, expected: Result<(), Seq<char>>) -> bool {
    match expected {
        Ok(()) => r is Ok,
        Err(msg) => r matches Err(e) && e.message_view() == msg,
    }
}

impl QuestionJsonPkg {
    /// Checks that the question has text, a non-blank answer and at least one
    /// wrong choice; whitespace alone counts as blank.
    pub fn validate_fields(&self) -> (r: Result<(), ModelErrors>)
        ensures
            match self.question {
                JsonQuestion::MultipleChoice(q) => validation_matches(r, validate_mc_spec(q)),
            },
    {
        proof {
            reveal_strlit("Question cannot be empty");
            reveal_strlit("Question needs valid answer");
            reveal_strlit("Question needs at least one additional choice");
        }
        match &self.question {
            JsonQuestion::MultipleChoice(qmc) => {
                if is_blank(qmc.question.as_str()) {
                    return Err(
                        ModelErrors::JsonValidation(String::from_str("Question cannot be empty")),
                    );
                } else if is_blank(qmc.answer.as_str()) {
                    return Err(
                        ModelErrors::JsonValidation(String::from_str("Question needs valid answer")),
                    );
                } else if qmc.choices.len() < 1 {
                    return Err(
                        ModelErrors::JsonValidation(
                            String::from_str("Question needs at least one additional choice"),
                        ),
                    );
                }
            },
        }
        Ok(())
    }
}

/// A stored multiple choice question.
#[derive(Debug, Clone, PartialEq)]
pub struct QuestionMC {
    pub question: String,
    pub hint: Option<String>,
    pub author_id: String,
    pub parent_quiz: Thing,
    pub answer: String,
    pub choices: Vec<String>,
}

impl From<SurrealQuestionMC> for QuestionMC {
    /// Drops the record id and keeps every other field.
    fn from(arg: SurrealQuestionMC) -> (q: Self) {
        QuestionMC {
            question: arg.question,
            hint: arg.hint,
            author_id: arg.author_id,
            parent_quiz: arg.parent_quiz,
            answer: arg.answer,
            choices: arg.choices,
        }
    }
}

impl vstd::std_specs::convert::FromSpecImpl<SurrealQuestionMC> for QuestionMC {
    open spec fn obeys_from_spec() -> bool {
        true
    }

    open spec fn from_spec(arg: SurrealQuestionMC) -> Self {
        QuestionMC {
            question: arg.question,
            hint: arg.hint,
            author_id: arg.author_id,
            parent_quiz: arg.parent_quiz,
            answer: arg.answer,
            choices: arg.choices,
        }
    }
}

/// The kinds of stored question.
#[derive(Debug, Clone, PartialEq)]
pub enum QuestionType {
    MultipleChoice(QuestionMC),
}

/// All questions of a quiz, by kind, as sent to the client.
#[derive(Debug, Clone, PartialEq)]
pub struct AllQuestions {
    /// The multiple choice questions.
    pub mc: Vec<SurrealQuestionMC>,
}

// ---------------------------------------------------------------------------
// Quizzes
// ---------------------------------------------------------------------------

/// A stored quiz.
#[derive(Debug, Clone, PartialEq)]
pub struct Quiz {
    pub name: String,
    pub description: String,
    pub author_id: String,
}

impl Quiz {
    /// A quiz with the given fields, taken as they are.
    pub fn new(name: String, description: String, author_id: String) -> (q: Self)
        ensures
            q.name == name,
            q.description == description,
            q.author_id == author_id,
    {
        Self { name, description, author_id }
    }
}

impl From<SurrealQuiz> for Quiz {
    /// Drops the record id and keeps every other field.
    fn from(arg: SurrealQuiz) -> (q: Self) {
        Quiz { name: arg.name, description: arg.description, author_id: arg.author_id }
    }
}

impl vstd::std_specs::convert::FromSpecImpl<SurrealQuiz> for Quiz {
    open spec fn obeys_from_spec() -> bool {
        true
    }

    open spec fn from_spec(arg: SurrealQuiz) -> Self {
        Quiz { name: arg.name, description: arg.description, author_id: arg.author_id }
    }
}

/// A quiz's name and description as the client sends them.
#[derive(Debug, Clone, PartialEq)]
pub struct QuizJsonPkg {
    pub name: String,
    pub description: String,
}

/// The message when a quiz name is blank.
pub open spec fn blank_quiz_name_msg() -> Seq<char> {
    "Quiz name cannot be blank or white space"@
}

impl QuizJsonPkg {
    /// Checks that the quiz name is not blank; whitespace alone counts as blank.
    pub fn validate_field(&self) -> (r: Result<(), ModelErrors>)
        ensures
            validation_matches(
                r,
                if trim(self.name@).len() == 0 {
                    Err(blank_quiz_name_msg())
                } else {
                    Ok(())
                },
            ),
    {
        proof {
            reveal_strlit("Quiz name cannot be blank or white space");
        }
        if is_blank(self.name.as_str()) {
            Err(
                ModelErrors::JsonValidation(
                    String::from_str("Quiz name cannot be blank or white space"),
                ),
            )
        } else {
            Ok(())
        }
    }
}

} // verus!
