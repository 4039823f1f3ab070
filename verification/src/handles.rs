use vstd::prelude::*;

use crate::collection::Collection;
use crate::record::RecordView;

verus! {

/// The closed set of interchangeable storage backends. A transaction or
/// query is only valid against the backend that produced it, so every
/// operation checks that all its handles name the same variant before it
/// mutates anything.
pub enum Backend {
    Native,
    SQLite,
}

/// The contents of a sequence of collections, record by record.
pub open spec fn cols_view(cs: Seq<Collection>) -> Seq<Seq<RecordView>> {
    cs.map_values(|c: Collection| c@)
}

/// A storage handle: one backend variant, holding that engine's collections.
pub enum IsarInstance {
    Native(Vec<Collection>),
    SQLite(Vec<Collection>),
}

/// An already-open transaction handle, tagged with the backend that began
/// it. Its lifecycle is the caller's business; the appliers only borrow it.
pub enum IsarTxn {
    Native,
    SQLite,
}

/// An already-built, executable query: the collection it runs against and
/// the identifiers of the records it matches, in the backend's result order.
pub struct Query {
    pub collection_index: u16,
    pub matched_ids: Vec<i64>,
}

/// A query handle, tagged with the backend that compiled it.
pub enum IsarQuery {
    Native(Query),
    SQLite(Query),
}

impl IsarInstance {
    /// The backend variant this storage handle was opened with.
    pub open spec fn backend(&self) -> Backend {
        match self {
            IsarInstance::Native(_) => Backend::Native,
            IsarInstance::SQLite(_) => Backend::SQLite,
        }
    }

    /// The stored collections, as sequences of record contents.
    pub open spec fn cols(&self) -> Seq<Seq<RecordView>> {
        match self {
            IsarInstance::Native(c) => cols_view(c@),
            IsarInstance::SQLite(c) => cols_view(c@),
        }
    }
}

impl IsarTxn {
    /// The backend variant this transaction was begun on.
    pub open spec fn backend(&self) -> Backend {
        match self {
            IsarTxn::Native => Backend::Native,
            IsarTxn::SQLite => Backend::SQLite,
        }
    }
}

impl IsarQuery {
    /// The backend variant this query was compiled for.
    pub open spec fn backend(&self) -> Backend {
        match self {
            IsarQuery::Native(_) => Backend::Native,
            IsarQuery::SQLite(_) => Backend::SQLite,
        }
    }

    /// The compiled query itself.
    pub open spec fn data(&self) -> Query {
        match self {
            IsarQuery::Native(q) => *q,
            IsarQuery::SQLite(q) => *q,
        }
    }
}

} // verus!
