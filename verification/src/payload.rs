use vstd::prelude::*;

use crate::value::{opt_view, IsarValue, IsarValueView};

verus! {

/// One payload entry at the mathematical level: a property index together
/// with the value it is to be set to, `None` meaning the explicit null.
pub type EntryView = (u16, Option<IsarValueView>);

/// An ordered, appendable list of (property index, present-or-absent value)
/// pairs. A payload is built by repeated appends and then consumed, exactly
/// once, by one of the appliers.
pub struct IsarUpdate(pub Vec<(u16, Option<IsarValue>)>);

impl View for IsarUpdate {
    type V = Seq<EntryView>;

    open spec fn view(&self) -> Seq<EntryView> {
        self.0@.map_values(|e: (u16, Option<IsarValue>)| (e.0, opt_view(e.1)))
    }
}

/// Returns an empty payload.
pub fn isar_update_new() -> (r: IsarUpdate)
    ensures
        r@ == Seq::<EntryView>::empty(),
{
    let r = IsarUpdate(Vec::new());
    proof {
        assert(r@ =~= Seq::<EntryView>::empty());
    }
    r
}

/// Appends one entry. The payload grows by exactly one entry; a supplied
/// carrier is moved into the payload, an absent one records the explicit
/// null, which is distinct from never mentioning the property.
pub fn isar_update_add_value(
    update: &mut IsarUpdate,
    property_index: u16,
    value: Option<IsarValue>,
)
    ensures
        final(update)@ == old(update)@.push((property_index, opt_view(value))),
{
    let ghost entry: EntryView = (property_index, opt_view(value));
    update.0.push((property_index, value));
    proof {
        assert(update@ =~= old(update)@.push(entry));
    }
}

} // verus!
