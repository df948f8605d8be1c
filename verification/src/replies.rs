//! What the client does with the backend's reply to each of its requests,
//! decided from the reply's status code. The program in the browser reads
//! the reply's body and carries out the step chosen here.
use vstd::prelude::*;

verus! {

/// A status of the success class: 200 to 299.
pub open spec fn is_success(status: u16) -> bool {
    200 <= status < 300
}

/// The reply to a login.
#[derive(Debug, Clone, Copy, PartialEq, Eq)]
pub enum LoginReply {
    /// Mark the user as logged in.
    Authenticate,
    /// Show the message of the reply's body.
    ShowError,
}

/// A login succeeds on status 200 only.
pub fn login_reply(status: u16) -> (r: LoginReply)
    ensures
        r == (if status == 200 {
            LoginReply::Authenticate
        } else {
            LoginReply::ShowError
        }),
{
    if status == 200 {
        LoginReply::Authenticate
    } else {
        LoginReply::ShowError
    }
}

/// The reply to a sign-up.
#[derive(Debug, Clone, Copy, PartialEq, Eq)]
pub enum SignupReply {
    /// Go to the home page, and show the message of the reply's body.
    GoHomeAndShowMessage,
    /// Stay on the form and show the message of the reply's body.
    ShowMessage,
}

/// A sign-up succeeds on any status of the success class; the reply's
/// message is shown either way.
pub fn signup_reply(status: u16) -> (r: SignupReply)
    ensures
        r == (if is_success(status) {
            SignupReply::GoHomeAndShowMessage
        } else {
            SignupReply::ShowMessage
        }),
{
    if status >= 200 && status < 300 {
        SignupReply::GoHomeAndShowMessage
    } else {
        SignupReply::ShowMessage
    }
}

/// The reply to a logout.
#[derive(Debug, Clone, Copy, PartialEq, Eq)]
pub enum LogoutReply {
    /// Mark the user as logged out.
    LogOut,
    /// Leave the login state as it is.
    StayLoggedIn,
}

/// A logout succeeds on status 200 only.
pub fn logout_reply(status: u16) -> (r: LogoutReply)
    ensures
        r == (if status == 200 {
            LogoutReply::LogOut
        } else {
            LogoutReply::StayLoggedIn
        }),
{
    if status == 200 {
        LogoutReply::LogOut
    } else {
        LogoutReply::StayLoggedIn
    }
}

/// The reply to a new quiz.
#[derive(Debug, Clone, Copy, PartialEq, Eq)]
pub enum NewQuizReply {
    /// Add the stored quiz of the reply's body to the list and go on to
    /// making its questions.
    AddQuizAndMakeQuestions,
    /// Show the message of the reply's body.
    ShowError,
}

/// Creating a quiz succeeds on status 200 only.
pub fn new_quiz_reply(status: u16) -> (r: NewQuizReply)
    ensures
        r == (if status == 200 {
            NewQuizReply::AddQuizAndMakeQuestions
        } else {
            NewQuizReply::ShowError
        }),
{
    if status == 200 {
        NewQuizReply::AddQuizAndMakeQuestions
    } else {
        NewQuizReply::ShowError
    }
}

/// The reply to the update of a quiz.
#[derive(Debug, Clone, Copy, PartialEq, Eq)]
pub enum QuizUpdateReply {
    /// Put the stored quiz of the reply's body in place of the old one and go
    /// back to the list of quizzes.
    ReplaceQuizAndShowList,
    /// Show the message of the reply's body.
    ShowError,
}

/// Updating a quiz succeeds on status 200 only.
pub fn quiz_update_reply(status: u16) -> (r: QuizUpdateReply)
    ensures
        r == (if status == 200 {
            QuizUpdateReply::ReplaceQuizAndShowList
        } else {
            QuizUpdateReply::ShowError
        }),
{
    if status == 200 {
        QuizUpdateReply::ReplaceQuizAndShowList
    } else {
        QuizUpdateReply::ShowError
    }
}

/// The reply to a new question.
#[derive(Debug, Clone, Copy, PartialEq, Eq)]
pub enum NewQuestionReply {
    /// Add the stored question of the reply's body to the saved questions and
    /// close its form.
    SaveQuestionAndCloseForm,
    /// Show the message of the reply's body.
    ShowError,
}

/// Creating a question succeeds on any status of the success class.
pub fn new_question_reply(status: u16) -> (r: NewQuestionReply)
    ensures
        r == (if is_success(status) {
            NewQuestionReply::SaveQuestionAndCloseForm
        } else {
            NewQuestionReply::ShowError
        }),
{
    if status >= 200 && status < 300 {
        NewQuestionReply::SaveQuestionAndCloseForm
    } else {
        NewQuestionReply::ShowError
    }
}

/// The reply to the edit of a question.
#[derive(Debug, Clone, Copy, PartialEq, Eq)]
pub enum QuestionEditReply {
    /// Put the stored question of the reply's body in place of the old one.
    ReplaceQuestion,
    /// Show the message of the reply's body.
    ShowError,
}

/// Editing a question succeeds on any status of the success class.
pub fn question_edit_reply(status: u16) -> (r: QuestionEditReply)
    ensures
        r == (if is_success(status) {
            QuestionEditReply::ReplaceQuestion
        } else {
            QuestionEditReply::ShowError
        }),
{
    if status >= 200 && status < 300 {
        QuestionEditReply::ReplaceQuestion
    } else {
        QuestionEditReply::ShowError
    }
}

/// The reply to the deletion of a quiz or a question.
#[derive(Debug, Clone, Copy, PartialEq, Eq)]
pub enum DeleteReply {
    /// Remove the deleted record of the reply's body from its list.
    RemoveFromList,
    /// Leave the list as it is.
    KeepList,
}

/// Deleting a quiz or a question succeeds on status 200 only.
pub fn delete_reply(status: u16) -> (r: DeleteReply)
    ensures
        r == (if status == 200 {
            DeleteReply::RemoveFromList
        } else {
            DeleteReply::KeepList
        }),
{
    if status == 200 {
        DeleteReply::RemoveFromList
    } else {
        DeleteReply::KeepList
    }
}

/// The reply to the loading of a list (quizzes, questions).
#[derive(Debug, Clone, Copy, PartialEq, Eq)]
pub enum LoadReply {
    /// Take the records of the reply's body.
    UseRecords,
    /// Read the reply's message and keep the list as it is.
    DropMessage,
}

/// Loading a list succeeds on status 200 only.
pub fn load_reply(status: u16) -> (r: LoadReply)
    ensures
        r == (if status == 200 {
            LoadReply::UseRecords
        } else {
            LoadReply::DropMessage
        }),
{
    if status == 200 {
        LoadReply::UseRecords
    } else {
        LoadReply::DropMessage
    }
}

} // verus!
