
use near_sdk::store::UnorderedSet;
use vstd::prelude::*;

verus! {

/// A storage set of account identifiers. It is opaque to the verifier: what
/// the library knows of it is given by `set_elements` and `set_slot_count`.
/// Its membership index lives in host storage under the set's prefix, which
/// other sets under that prefix share: membership answers may count values
/// that this set's element list does not hold.
#[verifier::external_body]
pub struct AccountSet {
    set: UnorderedSet<String>,
}

/// The elements of a storage set of account identifiers, in the order in which it
/// enumerates them.
pub uninterp spec fn set_elements(s: AccountSet) -> Seq<Seq<char>>;

/// The number of slots of the set's element list: occupied ones and those
/// that a removal left vacant.
pub uninterp spec fn set_slot_count(s: AccountSet) -> nat;

/// Relies on `UnorderedSet::new`: a new set has no elements and no slots.
#[verifier::external_body]
pub(crate) fn set_new(prefix: Vec<u8>) -> (r: AccountSet)
    ensures
        set_elements(r) == Seq::<Seq<char>>::empty(),
        set_slot_count(r) == 0,
{
    AccountSet { set: UnorderedSet::new(prefix) }
}

/// Relies on `UnorderedSet::contains`: it consults the membership index, so
/// it answers `true` for every element, and possibly for values written to
/// storage under the same prefix by another set.
#[verifier::external_body]
pub(crate) fn set_contains(s: &AccountSet, value: &String) -> (r: bool)
    ensures
        set_elements(*s).contains(value@) ==> r,
{
    s.set.contains(value)
}

/// Relies on `UnorderedSet::len`: the number of elements.
#[verifier::external_body]
pub(crate) fn set_len(s: &AccountSet) -> (r: u32)
    ensures
        r == set_elements(*s).len(),
{
    s.set.len()
}

/// Relies on `UnorderedSet::insert`: a value that the membership index holds
/// (every element, and possibly values that another set under the same prefix
/// wrote) changes nothing and gives `false`; any other value gives `true` and
/// takes the first vacant slot, or a slot pushed at the end when none is
/// vacant (the push panics once the slot list holds `u32::MAX` slots).
#[verifier::external_body]
pub(crate) fn set_insert(s: &mut AccountSet, value: String) -> (r: bool)
    requires
        set_slot_count(*old(s)) < u32::MAX,
    ensures
        r ==> !set_elements(*old(s)).contains(value@),
        !r ==> set_elements(*final(s)) == set_elements(*old(s)),
        !r ==> set_slot_count(*final(s)) == set_slot_count(*old(s)),
        r && set_slot_count(*old(s)) == set_elements(*old(s)).len() ==> set_elements(*final(s))
            == set_elements(*old(s)).push(value@),
        r && set_slot_count(*old(s)) == set_elements(*old(s)).len() ==> set_slot_count(*final(s))
            == set_slot_count(*old(s)) + 1,
        r && set_slot_count(*old(s)) != set_elements(*old(s)).len() ==> set_slot_count(*final(s))
            == set_slot_count(*old(s)),
        r && set_slot_count(*old(s)) != set_elements(*old(s)).len() ==> exists|i: int|
            0 <= i <= set_elements(*old(s)).len() && set_elements(*final(s))
                == set_elements(*old(s)).insert(i, value@),
{
    s.set.insert(value)
}

/// Relies on `UnorderedSet::iter`: it yields every element once, in the set's
/// order.
#[verifier::external_body]
pub(crate) fn set_to_vec(s: &AccountSet) -> (r: Vec<String>)
    ensures
        r@.map_values(|x: String| x@) == set_elements(*s),
{
    s.set.iter().cloned().collect()
}

} // verus!
