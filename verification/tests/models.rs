use quiz_app::models::{
    AllQuestions, GeneralUser, JsonMsg, JsonQuestion, JsonQuestionMC, ModelErrors, PartialUser,
    QuestionMC, QuestionType, Quiz, QuizJsonPkg, UserID,
};
use quiz_app::models::QuestionJsonPkg;
use quiz_app::surreal::{Id, SurrealQuestionMC, SurrealQuiz, Thing};

fn thing(tb: &str, id: &str) -> Thing {
    Thing { tb: tb.to_string(), id: Id::String(id.to_string()) }
}

fn mc(question: &str, answer: &str, choices: &[&str]) -> JsonQuestionMC {
    JsonQuestionMC {
        question: question.to_string(),
        hint: None,
        answer: answer.to_string(),
        choices: choices.iter().map(|c| c.to_string()).collect(),
    }
}

fn pkg(q: JsonQuestionMC) -> QuestionJsonPkg {
    QuestionJsonPkg { quiz_id: thing("quiz", "q1"), question: JsonQuestion::MultipleChoice(q) }
}

fn validation_message(r: Result<(), ModelErrors>) -> String {
    match r {
        Ok(()) => panic!("expected a validation error"),
        Err(e) => e.message(),
    }
}

#[test]
fn create_general_user() {
    // Assign
    let id = "1234-ABCD".to_string();
    let name = "Billy Joe".to_string();
    let username = String::from("billyjoe123");
    let password_hash = String::from("secret!");

    // Act
    let actual = GeneralUser::new(
        id.clone(),
        name.clone(),
        username.clone(),
        password_hash.clone(),
    );
    let expected = GeneralUser {
        uuid: id,
        name: name,
        username: username,
        password_hash: password_hash,
    };
    assert_eq!(actual, expected);
}

#[test]
fn user_id_and_partial_user_hold_their_fields() {
    let id = UserID("abc".to_string());
    assert_eq!(id.0, "abc");
    let user = PartialUser { uuid: "u".to_string(), name: "n".to_string(), username: "un".to_string() };
    assert_eq!(user.clone(), user);
}

#[test]
fn json_msg_defaults_to_no_message() {
    assert_eq!(JsonMsg::default().msg, None);
}

#[test]
fn json_question_defaults_to_empty_multiple_choice() {
    let JsonQuestion::MultipleChoice(q) = JsonQuestion::default();
    assert_eq!(q, mc("", "", &[]));
}

#[test]
fn valid_question_passes() {
    let r = pkg(mc("What is 2+2?", "4", &["3", "5", "22"])).validate_fields();
    assert!(r.is_ok());
}

#[test]
fn blank_question_is_refused_first() {
    let r = pkg(mc(" \t\n", "", &[])).validate_fields();
    assert_eq!(validation_message(r), "Question cannot be empty");
}

#[test]
fn unicode_whitespace_counts_as_blank() {
    let r = pkg(mc("\u{3000}\u{00A0}\u{2003}", "4", &["3"])).validate_fields();
    assert_eq!(validation_message(r), "Question cannot be empty");
}

#[test]
fn blank_answer_is_refused() {
    let r = pkg(mc("Q?", "   ", &["x"])).validate_fields();
    assert_eq!(validation_message(r), "Question needs valid answer");
}

#[test]
fn missing_choices_are_refused() {
    let r = pkg(mc("Q?", "A", &[])).validate_fields();
    assert_eq!(validation_message(r), "Question needs at least one additional choice");
}

#[test]
fn blank_choices_still_count_as_choices() {
    let r = pkg(mc("Q?", "A", &[""])).validate_fields();
    assert!(r.is_ok());
}

#[test]
fn quiz_name_must_not_be_blank() {
    let bad = QuizJsonPkg { name: "  \r\n".to_string(), description: "d".to_string() };
    assert_eq!(validation_message(bad.validate_field()), "Quiz name cannot be blank or white space");
    let good = QuizJsonPkg { name: " x ".to_string(), description: "".to_string() };
    assert!(good.validate_field().is_ok());
}

#[test]
fn model_error_message_is_its_text() {
    let e = ModelErrors::JsonValidation("boom".to_string());
    assert_eq!(e.message(), "boom");
}

#[test]
fn quiz_new_and_from_stored_quiz() {
    let q = Quiz::new("n".to_string(), "d".to_string(), "a".to_string());
    let stored = SurrealQuiz {
        id: thing("quiz", "1"),
        name: "n".to_string(),
        description: "d".to_string(),
        author_id: "a".to_string(),
    };
    assert_eq!(Quiz::from(stored), q);
}

#[test]
fn question_from_stored_question_drops_the_id() {
    let stored = SurrealQuestionMC {
        id: thing("question", "7"),
        question: "Q".to_string(),
        hint: Some("h".to_string()),
        author_id: "me".to_string(),
        parent_quiz: thing("quiz", "1"),
        answer: "A".to_string(),
        choices: vec!["B".to_string()],
    };
    let q = QuestionMC::from(stored.clone());
    assert_eq!(q.question, "Q");
    assert_eq!(q.hint, Some("h".to_string()));
    assert_eq!(q.author_id, "me");
    assert_eq!(q.parent_quiz, thing("quiz", "1"));
    assert_eq!(q.answer, "A");
    assert_eq!(q.choices, vec!["B".to_string()]);
    let t = QuestionType::MultipleChoice(q);
    assert!(matches!(t, QuestionType::MultipleChoice(_)));
    let all = AllQuestions { mc: vec![stored] };
    assert_eq!(all.mc.len(), 1);
}

#[test]
fn client_question_package_holds_quiz_and_question() {
    let p = QuestionJsonPkg { quiz_id: thing("quiz", "1"), question: JsonQuestion::default() };
    assert_eq!(p.quiz_id.to_raw(), "quiz:1");
}
