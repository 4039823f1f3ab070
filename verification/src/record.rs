use vstd::prelude::*;

use crate::payload::{EntryView, IsarUpdate};
use crate::value::{duplicate_opt, opt_view, IsarValue, IsarValueView};

verus! {

/// One stored record: an identifier and its properties, indexed by property
/// index. A slot holding `None`, like a slot beyond the vector, reads as
/// null.
pub struct Record {
    pub id: i64,
    pub fields: Vec<Option<IsarValue>>,
}

/// The mathematical content of a `Record`.
pub struct RecordView {
    pub id: i64,
    pub fields: Seq<Option<IsarValueView>>,
}

impl View for Record {
    type V = RecordView;

    open spec fn view(&self) -> RecordView {
        RecordView {
            id: self.id,
            fields: self.fields@.map_values(|v: Option<IsarValue>| opt_view(v)),
        }
    }
}

/// What property `pid` of a record with properties `fields` reads as.
pub open spec fn prop_at(fields: Seq<Option<IsarValueView>>, pid: u16) -> Option<IsarValueView> {
    if pid < fields.len() {
        fields[pid as int]
    } else {
        None
    }
}

/// The value the payload `entries` writes to property `pid`: the value of
/// the last entry naming `pid`, or `None` if the payload never mentions it.
/// `Some(None)` is an explicit null, `None` means "left untouched".
pub open spec fn written_value(entries: Seq<EntryView>, pid: u16) -> Option<
    Option<IsarValueView>,
>
    decreases entries.len(),
{
    if entries.len() == 0 {
        None
    } else if entries.last().0 == pid {
        Some(entries.last().1)
    } else {
        written_value(entries.drop_last(), pid)
    }
}

/// What property `pid` reads as after the payload `entries` is applied to a
/// record whose properties were `fields`.
pub open spec fn applied_prop(
    entries: Seq<EntryView>,
    fields: Seq<Option<IsarValueView>>,
    pid: u16,
) -> Option<IsarValueView> {
    match written_value(entries, pid) {
        Some(v) => v,
        None => prop_at(fields, pid),
    }
}

/// The record `n` is `o` with the payload `entries` applied: same identifier,
/// and every property reads as the payload says.
pub open spec fn updated_to(n: RecordView, o: RecordView, entries: Seq<EntryView>) -> bool {
    &&& n.id == o.id
    &&& forall|q: u16| prop_at(n.fields, q) == applied_prop(entries, o.fields, q)
}

impl Record {
    /// Writes one entry: property `pid` is set to `value`, every other
    /// property is left as it was. An absent `value` clears the property.
    fn write_prop(&mut self, pid: u16, value: Option<IsarValue>)
        ensures
            final(self)@.id == old(self)@.id,
            forall|q: u16|
                prop_at(final(self)@.fields, q) == if q == pid {
                    opt_view(value)
                } else {
                    prop_at(old(self)@.fields, q)
                },
    {
        let n = self.fields.len();
        if (pid as usize) < n {
            self.fields.remove(pid as usize);
            self.fields.insert(pid as usize, value);
            proof {
                assert(self.fields@ =~= old(self).fields@.update(pid as int, value));
                assert forall|q: u16|
                    prop_at(self@.fields, q) == if q == pid {
                        opt_view(value)
                    } else {
                        prop_at(old(self)@.fields, q)
                    } by {}
            }
        } else {
            match value {
                None => {
                    // The slot lies beyond the vector and already reads as null.
                }
                Some(v) => {
                    let ghost entry_fields = self.fields@;
                    while self.fields.len() < pid as usize
                        invariant
                            self.id == old(self).id,
                            entry_fields.len() <= self.fields@.len() <= pid as usize,
                            self.fields@.take(entry_fields.len() as int) == entry_fields,
                            forall|j: int|
                                entry_fields.len() <= j < self.fields@.len()
                                    ==> self.fields@[j] is None,
                        decreases pid as int - self.fields@.len(),
                    {
                        self.fields.push(None);
                        proof {
                            assert(self.fields@.take(entry_fields.len() as int)
                                =~= entry_fields);
                        }
                    }
                    self.fields.push(Some(v));
                    proof {
                        assert forall|q: u16|
                            prop_at(self@.fields, q) == if q == pid {
                                opt_view(Some(v))
                            } else {
                                prop_at(old(self)@.fields, q)
                            } by {
                            if q < pid {
                                if q < entry_fields.len() {
                                    assert(entry_fields.take(entry_fields.len() as int)
                                        =~= entry_fields);
                                    assert(self.fields@[q as int] == entry_fields[q as int]);
                                }
                            }
                        }
                    }
                }
            }
        }
    }
}

/// One step of `written_value`: extending the applied prefix of a payload by
/// its entry at position `k`.
proof fn lemma_written_value_step(entries: Seq<EntryView>, k: int, q: u16)
    requires
        0 <= k < entries.len(),
    ensures
        written_value(entries.take(k + 1), q) == if entries[k].0 == q {
            Some(entries[k].1)
        } else {
            written_value(entries.take(k), q)
        },
{
    assert(entries.take(k + 1).drop_last() =~= entries.take(k));
    assert(entries.take(k + 1).last() == entries[k]);
}

/// Applies every entry of the payload, in order, to one record. Later
/// entries for the same property override earlier ones.
pub fn apply_update(rec: &mut Record, update: &IsarUpdate)
    ensures
        updated_to(final(rec)@, old(rec)@, update@),
{
    let n = update.0.len();
    let mut k: usize = 0;
    while k < n
        invariant
            n == update.0.len(),
            k <= n,
            rec@.id == old(rec)@.id,
            forall|q: u16|
                prop_at(rec@.fields, q) == applied_prop(
                    update@.take(k as int),
                    old(rec)@.fields,
                    q,
                ),
        decreases n - k,
    {
        let e = &update.0[k];
        let pid = e.0;
        let value = duplicate_opt(&e.1);
        proof {
            assert(update@[k as int] == (e.0, opt_view(e.1)));
        }
        rec.write_prop(pid, value);
        proof {
            assert forall|q: u16|
                prop_at(rec@.fields, q) == applied_prop(
                    update@.take(k + 1 as int),
                    old(rec)@.fields,
                    q,
                ) by {
                lemma_written_value_step(update@, k as int, q);
            }
        }
        k += 1;
    }
    proof {
        assert(update@.take(n as int) =~= update@);
    }
}

} // verus!
