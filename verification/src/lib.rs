//! Verified core of a quiz web application: data models, validation, and the
//! client-side rules for building, taking and managing quizzes.
use vstd::prelude::*;

pub mod models;
pub mod questions;
pub mod replies;
pub mod requests;
pub mod auth;
pub mod dashboard;
pub mod exam;
pub mod fetch;
pub mod lists;
pub mod settings;
pub mod surreal;
pub mod text;

verus! {
} // verus!
