use quiz_app::auth::{login_check_outcome, login_request, signup_request, AuthStatus, ShowPassword};
use quiz_app::dashboard::{add_quiz, quiz_update_package, remove_quiz, DashDisplay, DashState};
use quiz_app::exam::{answer_line, apply_grade, choose_answer, pair_choices, prepare_choices, shuffled_questions, KEY_LEN};
use quiz_app::fetch::{json_headers, Fetcher, RequestMode};
use quiz_app::models::{JsonQuestion, JsonQuestionMC};
use quiz_app::questions::{
    add_question_form, add_quest, append_as_quests, new_question_package, question_from_form,
    remove_quest, remove_question_form, sort_questions_by_id, QLInternals, QuestType,
};
use quiz_app::requests::{login_json, quiz_json, signup_json};
use quiz_app::settings::{parse_env_line, AppSettings};
use quiz_app::surreal::{Id, SurrealQuestionMC, SurrealQuiz, Thing};

fn thing(tb: &str, id: &str) -> Thing {
    Thing { tb: tb.to_string(), id: Id::String(id.to_string()) }
}

fn quiz(id: &str, name: &str) -> SurrealQuiz {
    SurrealQuiz {
        id: thing("quiz", id),
        name: name.to_string(),
        description: String::new(),
        author_id: "me".to_string(),
    }
}

fn question(id: &str, answer: &str, choices: &[&str]) -> SurrealQuestionMC {
    SurrealQuestionMC {
        id: thing("question", id),
        question: format!("question {}", id),
        hint: None,
        author_id: "me".to_string(),
        parent_quiz: thing("quiz", "1"),
        answer: answer.to_string(),
        choices: choices.iter().map(|c| c.to_string()).collect(),
    }
}

// ---- record ids ----

#[test]
fn raw_id_of_numbers_and_strings() {
    let n = Thing { tb: "quiz".to_string(), id: Id::Number(-12) };
    assert_eq!(n.to_raw(), "quiz:-12");
    let z = Thing { tb: "t".to_string(), id: Id::Number(0) };
    assert_eq!(z.to_raw(), "t:0");
    let big = Thing { tb: "t".to_string(), id: Id::Number(i64::MIN) };
    assert_eq!(big.to_raw(), format!("t:{}", i64::MIN));
    let max = Thing { tb: "t".to_string(), id: Id::Number(i64::MAX) };
    assert_eq!(max.to_raw(), format!("t:{}", i64::MAX));
    assert_eq!(thing("question", "abc123").to_raw(), "question:abc123");
}

#[test]
fn same_record_ids() {
    assert!(thing("a", "1").same_as(&thing("a", "1")));
    assert!(!thing("a", "1").same_as(&thing("b", "1")));
    let n = Thing { tb: "a".to_string(), id: Id::Number(1) };
    assert!(!n.same_as(&thing("a", "1")));
    assert!(n.same_as(&n.clone()));
}

// ---- question forge ----

#[test]
fn form_fields_are_trimmed_and_blank_hint_dropped() {
    let q = question_from_form("  What?  ", " \t ", " yes", "no ", " maybe ", "never");
    assert_eq!(q.question, "What?");
    assert_eq!(q.hint, None);
    assert_eq!(q.answer, "yes");
    assert_eq!(q.choices, vec!["no".to_string(), "maybe".to_string(), "never".to_string()]);
    let with_hint = question_from_form("Q", "  a hint ", "A", "b", "c", "d");
    assert_eq!(with_hint.hint, Some("a hint".to_string()));
}

#[test]
fn new_question_needs_its_quiz() {
    let q = question_from_form("Q", "", "A", "b", "c", "d");
    match new_question_package(&None, q.clone()) {
        Err(msg) => assert_eq!(msg, "Parent quiz data not provied"),
        Ok(_) => panic!("expected an error"),
    }
    let pkg = new_question_package(&Some(quiz("9", "Q")), q.clone()).unwrap();
    assert_eq!(pkg.quiz_id.to_raw(), "quiz:9");
    assert_eq!(pkg.question, JsonQuestion::MultipleChoice(q));
}

#[test]
fn question_forms_get_fresh_numbers_and_close_by_number() {
    let mut forms: Vec<QLInternals> = Vec::new();
    let mut next: usize = 0;
    add_question_form(&mut forms, &mut next);
    add_question_form(&mut forms, &mut next);
    add_question_form(&mut forms, &mut next);
    assert_eq!(next, 3);
    assert_eq!(forms.iter().map(|f| f.id).collect::<Vec<_>>(), vec![0, 1, 2]);
    assert_eq!(forms[0].data, JsonQuestion::MultipleChoice(JsonQuestionMC::default()));
    remove_question_form(&mut forms, 1);
    assert_eq!(forms.iter().map(|f| f.id).collect::<Vec<_>>(), vec![0, 2]);
    remove_question_form(&mut forms, 7);
    assert_eq!(forms.iter().map(|f| f.id).collect::<Vec<_>>(), vec![0, 2]);
}

fn quest_ids(quests: &[QuestType]) -> Vec<String> {
    quests.iter().map(|q| q.get_id().to_raw()).collect()
}

#[test]
fn saved_questions_are_kept_sorted_by_id() {
    let mut quests: Vec<QuestType> = Vec::new();
    add_quest(&mut quests, QuestType::MC(question("m", "a", &[])));
    add_quest(&mut quests, QuestType::MC(question("b", "a", &[])));
    add_quest(&mut quests, QuestType::MC(question("z", "a", &[])));
    add_quest(&mut quests, QuestType::MC(question("c", "a", &[])));
    assert_eq!(quest_ids(&quests), vec!["question:b", "question:c", "question:m", "question:z"]);
    remove_quest(&mut quests, &QuestType::MC(question("c", "other", &[])));
    assert_eq!(quest_ids(&quests), vec!["question:b", "question:m", "question:z"]);
}

#[test]
fn editing_a_question_keeps_the_list_sorted() {
    let mut quests: Vec<QuestType> = Vec::new();
    for id in ["d", "a", "c"] {
        add_quest(&mut quests, QuestType::MC(question(id, "old", &[])));
    }
    let edited = QuestType::MC(question("c", "new", &[]));
    remove_quest(&mut quests, &edited);
    add_quest(&mut quests, edited);
    assert_eq!(quest_ids(&quests), vec!["question:a", "question:c", "question:d"]);
    match &quests[1] {
        QuestType::MC(q) => assert_eq!(q.answer, "new"),
        _ => panic!("expected a multiple choice question"),
    }
}

#[test]
fn loaded_questions_are_sorted_then_appended() {
    let mut data = vec![question("2", "a", &[]), question("10", "a", &[]), question("1", "a", &[])];
    sort_questions_by_id(&mut data);
    let mut quests: Vec<QuestType> = vec![QuestType::MC(question("0", "a", &[]))];
    append_as_quests(&mut quests, data);
    assert_eq!(quest_ids(&quests), vec!["question:0", "question:1", "question:10", "question:2"]);
}

// ---- exam ----

#[test]
fn choosing_answers_reports_score_changes() {
    let key = "KEY".to_string();
    assert_eq!(choose_answer(false, &"KEY".to_string(), &key), (true, Some(true)));
    assert_eq!(choose_answer(true, &"KEY".to_string(), &key), (true, None));
    assert_eq!(choose_answer(true, &"other".to_string(), &key), (false, Some(false)));
    assert_eq!(choose_answer(false, &"other".to_string(), &key), (false, None));
}

#[test]
fn score_follows_the_correct_answers() {
    // two questions; answer right, right, then change the first to wrong
    let key = "k".to_string();
    let mut flags = [false, false];
    let mut score: usize = 0;
    for (q, choice) in [(0usize, "k"), (1, "k"), (0, "x"), (0, "x"), (1, "k")] {
        let (now, change) = choose_answer(flags[q], &choice.to_string(), &key);
        flags[q] = now;
        if let Some(correct) = change {
            score = apply_grade(score, correct);
        }
    }
    assert_eq!(flags, [false, true]);
    assert_eq!(score, 1);
    assert_eq!(apply_grade(4, true), 5);
    assert_eq!(apply_grade(4, false), 3);
}

#[test]
fn answer_choices_are_paired_with_keys() {
    let choices = vec!["b".to_string(), "c".to_string()];
    let pairs = pair_choices(&choices, vec!["k1".to_string(), "k2".to_string()], "a".to_string(), "ka".to_string());
    assert_eq!(
        pairs,
        vec![
            ("b".to_string(), "k1".to_string()),
            ("c".to_string(), "k2".to_string()),
            ("a".to_string(), "ka".to_string())
        ]
    );
}

#[test]
fn prepared_choices_hold_every_choice_and_the_answer() {
    let q = question("1", "right", &["w1", "w2", "w3"]);
    let (pairs, key) = prepare_choices(&q);
    assert_eq!(pairs.len(), 4);
    assert_eq!(key.len(), KEY_LEN);
    assert!(key.chars().all(|c| c.is_ascii_alphanumeric()));
    assert!(pairs.contains(&("right".to_string(), key.clone())));
    let mut texts: Vec<String> = pairs.iter().map(|p| p.0.clone()).collect();
    texts.sort();
    assert_eq!(texts, vec!["right", "w1", "w2", "w3"]);
    for (_, k) in &pairs {
        assert_eq!(k.len(), KEY_LEN);
        assert!(k.chars().all(|c| c.is_ascii_alphanumeric()));
    }
}

#[test]
fn shuffled_questions_are_the_same_questions() {
    let qs = vec![question("1", "a", &[]), question("2", "a", &[]), question("3", "a", &[])];
    let shuffled = shuffled_questions(qs.clone());
    let mut ids: Vec<String> = shuffled.iter().map(|q| q.id.to_raw()).collect();
    ids.sort();
    assert_eq!(ids, vec!["question:1", "question:2", "question:3"]);
}

#[test]
fn answer_line_shows_the_answer() {
    assert_eq!(answer_line("42"), "Answer: 42");
}

// ---- dashboard ----

#[test]
fn dashboard_screens_follow_the_clicks() {
    let mut s = DashState::new();
    assert_eq!(s.display, DashDisplay::MyQuizzes);
    assert_eq!(DashDisplay::default(), DashDisplay::MyQuizzes);
    s.take_quiz(quiz("1", "A"));
    assert_eq!(s.display, DashDisplay::TakeQuiz);
    assert_eq!(s.current_quiz, Some(quiz("1", "A")));
    s.make_quiz();
    assert_eq!(s.display, DashDisplay::MakeQuizzes);
    assert_eq!(s.current_quiz, None);
    s.update_quiz(quiz("2", "B"));
    assert_eq!(s.display, DashDisplay::UpdateQuiz);
    s.reforge_questions(quiz("3", "C"));
    assert_eq!(s.display, DashDisplay::MakeQuestions);
    assert_eq!(s.quiz_data, Some(quiz("3", "C")));
    assert_eq!(s.current_quiz, Some(quiz("2", "B")));
    s.show_my_quizzes();
    assert_eq!(s.display, DashDisplay::MyQuizzes);
}

#[test]
fn quizzes_are_sorted_by_name_ignoring_case_and_stably() {
    let mut list = vec![quiz("1", "banana"), quiz("2", "Apple")];
    add_quiz(&mut list, quiz("3", "apple"));
    let names: Vec<&str> = list.iter().map(|q| q.name.as_str()).collect();
    assert_eq!(names, vec!["Apple", "apple", "banana"]);
    add_quiz(&mut list, quiz("4", "Ärger"));
    add_quiz(&mut list, quiz("5", "Cherry"));
    let names: Vec<&str> = list.iter().map(|q| q.name.as_str()).collect();
    assert_eq!(names, vec!["Apple", "apple", "banana", "Cherry", "Ärger"]);
}

#[test]
fn removing_a_quiz_removes_it_by_id() {
    let mut list = vec![quiz("1", "a"), quiz("2", "b"), quiz("1", "c")];
    remove_quiz(&mut list, &quiz("1", "anything"));
    assert_eq!(list, vec![quiz("2", "b")]);
}

#[test]
fn updating_a_quiz_replaces_it_and_keeps_the_order() {
    let mut list = vec![quiz("1", "apple"), quiz("2", "banana"), quiz("3", "cherry")];
    let updated = quiz("1", "date");
    remove_quiz(&mut list, &updated);
    add_quiz(&mut list, updated.clone());
    let names: Vec<&str> = list.iter().map(|q| q.name.as_str()).collect();
    assert_eq!(names, vec!["banana", "cherry", "date"]);
    assert_eq!(list.iter().filter(|q| q.id == updated.id).count(), 1);
    assert!(list.contains(&updated));
}

#[test]
fn quiz_update_needs_a_chosen_quiz() {
    match quiz_update_package(&None, "n", "d") {
        Err(msg) => assert_eq!(msg, "Cannot find Quiz ID"),
        Ok(_) => panic!("expected an error"),
    }
    let pkg = quiz_update_package(&Some(quiz("7", "x")), "New", "Desc").unwrap();
    assert_eq!(pkg.id, "quiz:7");
    assert_eq!(pkg.pkg, "{\"description\":\"Desc\",\"name\":\"New\"}");
}

// ---- request bodies ----

#[test]
fn request_bodies_are_compact_json_with_sorted_keys() {
    assert_eq!(quiz_json("My \"Quiz\"", "line1\nline2\\"), "{\"description\":\"line1\\nline2\\\\\",\"name\":\"My \\\"Quiz\\\"\"}");
    assert_eq!(login_json("bob", "pw"), "{\"password\":\"pw\",\"username\":\"bob\"}");
    assert_eq!(signup_json("Bob", "bob", "pw"), "{\"name\":\"Bob\",\"password\":\"pw\",\"username\":\"bob\"}");
    assert_eq!(quiz_json("\u{1}", "é/"), "{\"description\":\"é/\",\"name\":\"\\u0001\"}");
    let value: serde_json::Value = serde_json::from_str(&quiz_json("n\t", "d")).unwrap();
    assert_eq!(value["name"], "n\t");
}

// ---- authentication ----

#[test]
fn login_check_sets_the_flag_only_when_it_changes() {
    assert_eq!(login_check_outcome(false, 200), (AuthStatus::Authenticated, Some(true)));
    assert_eq!(login_check_outcome(true, 200), (AuthStatus::Authenticated, None));
    assert_eq!(login_check_outcome(true, 401), (AuthStatus::Unauthenticated, Some(false)));
    assert_eq!(login_check_outcome(false, 500), (AuthStatus::Unauthenticated, None));
}

#[test]
fn login_and_signup_need_consent() {
    assert_eq!(login_request(false, "u", "p"), Err("Please accept use of cookies".to_string()));
    assert_eq!(login_request(true, "u", "p"), Ok("{\"password\":\"p\",\"username\":\"u\"}".to_string()));
    assert_eq!(signup_request(false, "n", "u", "p"), Err("Please accept the terms and conditions".to_string()));
    assert_eq!(
        signup_request(true, "n", "u", "p"),
        Ok("{\"name\":\"n\",\"password\":\"p\",\"username\":\"u\"}".to_string())
    );
}

#[test]
fn password_toggle_switches_and_switches_back() {
    let hidden = ShowPassword::default();
    assert_eq!(hidden, ShowPassword { show: false, input_type: "password".to_string(), span_class: "toggle-password".to_string() });
    let shown = hidden.toggled();
    assert_eq!(shown, ShowPassword { show: true, input_type: "text".to_string(), span_class: "toggle-password show".to_string() });
    assert_eq!(shown.toggled(), hidden);
}

// ---- requests ----

#[test]
fn fetch_builder_defaults_and_setters() {
    let f = Fetcher::init().build();
    assert_eq!(f.method(), "POST");
    assert_eq!(f.url(), "http://127.0.0.1:8000/");
    assert_eq!(f.mode(), RequestMode::Cors);
    assert_eq!(f.headers(), &json_headers());
    assert_eq!(json_headers(), vec![("Content-Type".to_string(), "application/json;charset=UTF-8".to_string())]);
    let g = Fetcher::init()
        .set_url(AppSettings { backend_url: "http://host/".to_string() }.endpoint("quiz-nexus"))
        .add_query_param("quiz", "quiz:1")
        .add_query_param("page", "2")
        .set_method("DELETE")
        .set_headers(Vec::new())
        .set_mode(RequestMode::SameOrigin)
        .build();
    assert_eq!(g.url(), "http://host/quiz-nexus?quiz=quiz:1&page=2");
    assert_eq!(g.method(), "DELETE");
    assert!(g.headers().is_empty());
    assert_eq!(g.mode(), RequestMode::SameOrigin);
}

#[test]
fn the_last_setter_call_wins_and_unset_fields_keep_their_defaults() {
    let f = Fetcher::init()
        .set_method("GET")
        .set_url("http://a/".to_string())
        .set_method("PUT")
        .set_url("http://b/".to_string())
        .build();
    assert_eq!(f.method(), "PUT");
    assert_eq!(f.url(), "http://b/");
    assert_eq!(f.mode(), RequestMode::Cors);
    assert_eq!(f.headers(), &json_headers());
}

// ---- settings ----

#[test]
fn env_lines_are_parsed() {
    assert_eq!(parse_env_line("KEY = value=more "), Some(("KEY".to_string(), "value=more".to_string())));
    assert_eq!(parse_env_line("# BACKEND_URL=x"), None);
    assert_eq!(parse_env_line(""), None);
    assert_eq!(parse_env_line("no equals sign"), None);
    assert_eq!(parse_env_line("=v"), Some((String::new(), "v".to_string())));
}

#[test]
fn last_backend_url_wins_and_environment_overrides() {
    let lines: Vec<String> = vec![
        "# settings".to_string(),
        "BACKEND_URL=http://first/".to_string(),
        "OTHER=1".to_string(),
        " BACKEND_URL = http://second/ ".to_string(),
    ];
    let mut s = AppSettings::from_env_lines(&lines);
    assert_eq!(s.backend_url, "http://second/");
    assert_eq!(AppSettings::from_env_lines(&vec!["X=1".to_string()]).backend_url, "");
    s.apply_env_override(None);
    assert_eq!(s.backend_url, "http://second/");
    s.apply_env_override(Some("  http://env/ \n".to_string()));
    assert_eq!(s.backend_url, "http://env/");
    assert_eq!(s.endpoint("check-login"), "http://env/check-login");
}
