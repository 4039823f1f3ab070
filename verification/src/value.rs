use vstd::prelude::*;

verus! {

/// A nullable, dynamically typed scalar destined for one property of one
/// record. A carrier is owned by exactly one party at a time: the caller
/// allocates it, appending moves it into a payload, and applying the payload
/// moves it into the store.
#[derive(Debug, PartialEq)]
pub enum IsarValue {
    Bool(bool),
    Integer(i64),
    Text(String),
}

/// The mathematical content of an `IsarValue`.
pub enum IsarValueView {
    Bool(bool),
    Integer(int),
    Text(Seq<char>),
}

impl View for IsarValue {
    type V = IsarValueView;

    open spec fn view(&self) -> IsarValueView {
        match self {
            IsarValue::Bool(b) => IsarValueView::Bool(*b),
            IsarValue::Integer(i) => IsarValueView::Integer(*i as int),
            IsarValue::Text(s) => IsarValueView::Text(s@),
        }
    }
}

/// The content of a present-or-absent carrier; `None` is the explicit null.
pub open spec fn opt_view(v: Option<IsarValue>) -> Option<IsarValueView> {
    match v {
        Some(x) => Some(x@),
        None => None,
    }
}

impl IsarValue {
    /// An equal value, freshly allocated, so that one payload entry can reach
    /// several records while each record owns its own copy.
    pub fn duplicate(&self) -> (r: IsarValue)
        ensures
            r@ == self@,
    {
        match self {
            IsarValue::Bool(b) => IsarValue::Bool(*b),
            IsarValue::Integer(i) => IsarValue::Integer(*i),
            IsarValue::Text(s) => IsarValue::Text(s.clone()),
        }
    }
}

/// An equal present-or-absent carrier, freshly allocated where present.
pub fn duplicate_opt(v: &Option<IsarValue>) -> (r: Option<IsarValue>)
    ensures
        opt_view(r) == opt_view(*v),
{
    match v {
        Some(x) => Some(x.duplicate()),
        None => None,
    }
}

} // verus!
