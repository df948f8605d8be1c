use quiz_app::dashboard::{apply_new_quiz, apply_quiz_update, DashDisplay, DashState};
use quiz_app::lists::sort_by_given_keys;
use quiz_app::replies::{
    delete_reply, load_reply, login_reply, logout_reply, new_question_reply, new_quiz_reply, question_edit_reply,
    quiz_update_reply, signup_reply, DeleteReply, LoadReply, LoginReply, LogoutReply, NewQuestionReply, NewQuizReply,
    QuestionEditReply, QuizUpdateReply, SignupReply,
};
use quiz_app::surreal::{Id, SurrealQuiz, Thing};

fn quiz(id: i64, name: &str) -> SurrealQuiz {
    SurrealQuiz {
        id: Thing { tb: "quiz".to_string(), id: Id::Number(id) },
        name: name.to_string(),
        description: String::new(),
        author_id: "me".to_string(),
    }
}

#[test]
fn login_succeeds_on_200_only() {
    assert_eq!(login_reply(200), LoginReply::Authenticate);
    assert_eq!(login_reply(201), LoginReply::ShowError);
    assert_eq!(login_reply(401), LoginReply::ShowError);
}

#[test]
fn signup_succeeds_on_any_success_status() {
    assert_eq!(signup_reply(200), SignupReply::GoHomeAndShowMessage);
    assert_eq!(signup_reply(201), SignupReply::GoHomeAndShowMessage);
    assert_eq!(signup_reply(299), SignupReply::GoHomeAndShowMessage);
    assert_eq!(signup_reply(199), SignupReply::ShowMessage);
    assert_eq!(signup_reply(300), SignupReply::ShowMessage);
    assert_eq!(signup_reply(409), SignupReply::ShowMessage);
}

#[test]
fn logout_succeeds_on_200_only() {
    assert_eq!(logout_reply(200), LogoutReply::LogOut);
    assert_eq!(logout_reply(500), LogoutReply::StayLoggedIn);
}

#[test]
fn quiz_replies_succeed_on_200_only() {
    assert_eq!(new_quiz_reply(200), NewQuizReply::AddQuizAndMakeQuestions);
    assert_eq!(new_quiz_reply(201), NewQuizReply::ShowError);
    assert_eq!(quiz_update_reply(200), QuizUpdateReply::ReplaceQuizAndShowList);
    assert_eq!(quiz_update_reply(400), QuizUpdateReply::ShowError);
}

#[test]
fn question_replies_succeed_on_any_success_status() {
    assert_eq!(new_question_reply(201), NewQuestionReply::SaveQuestionAndCloseForm);
    assert_eq!(new_question_reply(404), NewQuestionReply::ShowError);
    assert_eq!(question_edit_reply(204), QuestionEditReply::ReplaceQuestion);
    assert_eq!(question_edit_reply(300), QuestionEditReply::ShowError);
}

#[test]
fn deletions_and_loads_succeed_on_200_only() {
    assert_eq!(delete_reply(200), DeleteReply::RemoveFromList);
    assert_eq!(delete_reply(204), DeleteReply::KeepList);
    assert_eq!(load_reply(200), LoadReply::UseRecords);
    assert_eq!(load_reply(500), LoadReply::DropMessage);
}

#[test]
fn a_new_quiz_joins_the_list_and_opens_its_questions() {
    let mut state = DashState::new();
    let mut list = vec![quiz(1, "b"), quiz(2, "d")];
    apply_new_quiz(&mut state, &mut list, quiz(3, "C"));
    let names: Vec<&str> = list.iter().map(|q| q.name.as_str()).collect();
    assert_eq!(names, vec!["b", "C", "d"]);
    assert_eq!(state.display, DashDisplay::MakeQuestions);
    assert_eq!(state.quiz_data, Some(quiz(3, "C")));
    assert_eq!(state.current_quiz, None);
}

#[test]
fn an_updated_quiz_replaces_the_old_one_and_shows_the_list() {
    let mut state = DashState::new();
    state.update_quiz(quiz(1, "a"));
    let mut list = vec![quiz(1, "a"), quiz(2, "b")];
    apply_quiz_update(&mut state, &mut list, quiz(1, "z"));
    assert_eq!(list, vec![quiz(2, "b"), quiz(1, "z")]);
    assert_eq!(state.display, DashDisplay::MyQuizzes);
    assert_eq!(state.current_quiz, Some(quiz(1, "a")));
}

#[test]
fn sorting_by_given_keys_is_stable() {
    let mut items = vec!["w", "x", "y", "z"];
    let keys = vec!["b".to_string(), "a".to_string(), "b".to_string(), "a".to_string()];
    sort_by_given_keys(&mut items, keys);
    assert_eq!(items, vec!["x", "z", "w", "y"]);
}
