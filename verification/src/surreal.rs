//! Record identifiers and the stored records as the database returns them:
//! each stored struct comes back with its record id (`Thing`) added.
use vstd::prelude::*;

use crate::text::{decimal, decimal_string, decimal_value, lemma_decimal_reads_back};

verus! {

/// The key part of a record id.
#[derive(Debug, PartialEq, PartialOrd)]
pub enum Id {
    Number(i64),
    String(String),
}

/// The mathematical value of an [`Id`].
pub enum IdView {
    Number(i64),
    String(Seq<char>),
}

impl View for Id {
    type V = IdView;

    open spec fn view(&self) -> IdView {
        match self {
            Id::Number(n) => IdView::Number(*n),
            Id::String(s) => IdView::String(s@),
        }
    }
}

impl Clone for Id {
    fn clone(&self) -> (r: Self)
        ensures
            r == *self,
    {
        match self {
            Id::Number(n) => Id::Number(*n),
            Id::String(s) => Id::String(s.clone()),
        }
    }
}

/// The record id of a record: its table and its key.
#[derive(Debug, PartialEq, PartialOrd)]
pub struct Thing {
    pub tb: String,
    pub id: Id,
}

/// The mathematical value of a [`Thing`].
pub struct ThingView {
    pub tb: Seq<char>,
    pub id: IdView,
}

impl ThingView {
    /// The textual form `table:key` of a record id, with numeric keys in decimal.
    pub open spec fn raw(self) -> Seq<char> {
        self.tb + seq![':'] + match self.id {
            IdView::Number(n) => decimal(n as int),
            IdView::String(s) => s,
        }
    }
}

/// The raw form of a record id with a string key is made of its table, ':'
/// and the whole key, each of which can be read back from it; so two string
/// keys of one table have the same raw form only when they are the same key.
pub proof fn lemma_raw_string_key(tb: Seq<char>, s: Seq<char>, s2: Seq<char>)
    ensures
        (ThingView { tb, id: IdView::String(s) }).raw().len() == tb.len() + 1 + s.len(),
        (ThingView { tb, id: IdView::String(s) }).raw().take(tb.len() as int) == tb,
        (ThingView { tb, id: IdView::String(s) }).raw()[tb.len() as int] == ':',
        (ThingView { tb, id: IdView::String(s) }).raw().skip(tb.len() + 1int) == s,
        (ThingView { tb, id: IdView::String(s) }).raw() == (ThingView { tb, id: IdView::String(s2) }).raw()
            ==> s == s2,
{
    let r = (ThingView { tb, id: IdView::String(s) }).raw();
    let r2 = (ThingView { tb, id: IdView::String(s2) }).raw();
    assert(r.take(tb.len() as int) =~= tb);
    assert(r.skip(tb.len() + 1int) =~= s);
    assert(r2.skip(tb.len() + 1int) =~= s2);
}

/// The raw form of a record id with a numeric key is made of its table, ':'
/// and the key in decimal, which reads back as the key; so two numeric keys
/// of one table have the same raw form only when they are the same number.
pub proof fn lemma_raw_number_key(tb: Seq<char>, n: i64, n2: i64)
    ensures
        (ThingView { tb, id: IdView::Number(n) }).raw().take(tb.len() as int) == tb,
        (ThingView { tb, id: IdView::Number(n) }).raw()[tb.len() as int] == ':',
        decimal_value((ThingView { tb, id: IdView::Number(n) }).raw().skip(tb.len() + 1int)) == n,
        (ThingView { tb, id: IdView::Number(n) }).raw() == (ThingView { tb, id: IdView::Number(n2) }).raw()
            ==> n == n2,
{
    let r = (ThingView { tb, id: IdView::Number(n) }).raw();
    let r2 = (ThingView { tb, id: IdView::Number(n2) }).raw();
    assert(r.take(tb.len() as int) =~= tb);
    assert(r.skip(tb.len() + 1int) =~= decimal(n as int));
    assert(r2.skip(tb.len() + 1int) =~= decimal(n2 as int));
    lemma_decimal_reads_back(n as int);
    lemma_decimal_reads_back(n2 as int);
}

impl View for Thing {
    type V = ThingView;

    open spec fn view(&self) -> ThingView {
        ThingView { tb: self.tb@, id: self.id@ }
    }
}

impl Clone for Thing {
    fn clone(&self) -> (r: Self)
        ensures
            r == *self,
    {
        Thing { tb: self.tb.clone(), id: self.id.clone() }
    }
}

impl Thing {
    /// The textual form `table:key` of the record id, which the backend takes
    /// in query strings.
    pub fn to_raw(&self) -> (r: String)
        ensures
            r@ == self@.raw(),
    {
        let mut r = self.tb.clone();
        proof {
            reveal_strlit(":");
        }
        r.append(":");
        match &self.id {
            Id::Number(n) => {
                let d = decimal_string(*n);
                r.append(d.as_str());
            },
            Id::String(s) => {
                r.append(s.as_str());
            },
        }
        r
    }

    /// Whether two record ids are the same (same table and same key).
    pub fn same_as(&self, other: &Thing) -> (b: bool)
        ensures
            b == (self@ == other@),
    {
        let same_key = match (&self.id, &other.id) {
            (Id::Number(a), Id::Number(b)) => *a == *b,
            (Id::String(a), Id::String(b)) => *a == *b,
            _ => false,
        };
        self.tb == other.tb && same_key
    }
}

/// A quiz as stored: the quiz fields with its record id.
#[derive(Debug, PartialEq)]
pub struct SurrealQuiz {
    pub id: Thing,
    pub name: String,
    pub description: String,
    pub author_id: String,
}

impl Clone for SurrealQuiz {
    fn clone(&self) -> (r: Self)
        ensures
            r == *self,
    {
        SurrealQuiz {
            id: self.id.clone(),
            name: self.name.clone(),
            description: self.description.clone(),
            author_id: self.author_id.clone(),
        }
    }
}

/// A multiple choice question as stored: the question fields with its record id.
#[derive(Debug, Clone, PartialEq)]
pub struct SurrealQuestionMC {
    pub id: Thing,
    pub question: String,
    pub hint: Option<String>,
    pub author_id: String,
    pub parent_quiz: Thing,
    pub answer: String,
    pub choices: Vec<String>,
}

} // verus!
