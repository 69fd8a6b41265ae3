//! The values that a workflow's `meta` declaration is written with.

use vstd::prelude::*;

verus! {

/// A number: whether it is kept as a fraction, and its canonical text.
#[derive(Debug, PartialEq, Eq)]
pub struct LiteralNumber {
    pub fractional: bool,
    pub text: String,
}

/// A JavaScript literal.
#[derive(Debug, PartialEq, Eq)]
pub enum Literal {
    Null,
    Bool(bool),
    Number(LiteralNumber),
    Text(String),
    Array(Vec<Literal>),
    /// The entries in the order of their keys.
    Object(Vec<LiteralEntry>),
}

/// One key of an object literal with its value.
#[derive(Debug, PartialEq, Eq)]
pub struct LiteralEntry {
    pub key: String,
    pub value: Literal,
}

/// The mathematical value of a literal.
pub enum LiteralView {
    Null,
    Bool(bool),
    Number(bool, Seq<char>),
    Text(Seq<char>),
    Array(Seq<LiteralView>),
    Object(Seq<(Seq<char>, LiteralView)>),
}

impl Literal {
    pub open spec fn view(&self) -> LiteralView
        decreases self,
    {
        match self {
            Literal::Null => LiteralView::Null,
            Literal::Bool(value) => LiteralView::Bool(*value),
            Literal::Number(number) => LiteralView::Number(number.fractional, number.text@),
            Literal::Text(text) => LiteralView::Text(text@),
            Literal::Array(items) => LiteralView::Array(literal_views(items@)),
            Literal::Object(entries) => LiteralView::Object(entry_views(entries@)),
        }
    }
}

/// The values of the items of an array.
pub open spec fn literal_views(items: Seq<Literal>) -> Seq<LiteralView>
    decreases items,
{
    if items.len() == 0 {
        Seq::empty()
    } else {
        literal_views(items.drop_last()).push(items.last().view())
    }
}

/// The keys and values of an object.
pub open spec fn entry_views(entries: Seq<LiteralEntry>) -> Seq<(Seq<char>, LiteralView)>
    decreases entries,
{
    if entries.len() == 0 {
        Seq::empty()
    } else {
        entry_views(entries.drop_last()).push((entries.last().key@, entries.last().value.view()))
    }
}

pub proof fn lemma_literal_views(items: Seq<Literal>)
    ensures
        literal_views(items).len() == items.len(),
        forall|i: int| 0 <= i < items.len() ==> #[trigger] literal_views(items)[i] == items[i]@,
    decreases items.len(),
{
    if items.len() > 0 {
        lemma_literal_views(items.drop_last());
    }
}

pub proof fn lemma_entry_views(entries: Seq<LiteralEntry>)
    ensures
        entry_views(entries).len() == entries.len(),
        forall|i: int|
            0 <= i < entries.len() ==> #[trigger] entry_views(entries)[i] == (
                entries[i].key@,
                entries[i].value@,
            ),
    decreases entries.len(),
{
    if entries.len() > 0 {
        lemma_entry_views(entries.drop_last());
    }
}

} // verus!
