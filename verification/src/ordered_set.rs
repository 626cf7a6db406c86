use vstd::prelude::*;
use crate::vhdl::library_use::LibraryUse;

verus! {

#[verifier::external_type_specification]
#[verifier::external_body]
#[verifier::reject_recursive_types(T)]
#[verifier::reject_recursive_types(S)]
pub struct ExLinkedHashSet<T, S>(linked_hash_set::LinkedHashSet<T, S>);

/// What an insertion-ordered set of use-clauses holds, oldest first, each
/// clause as its three identifiers.
pub uninterp spec fn use_set_contents(s: linked_hash_set::LinkedHashSet<LibraryUse>) -> Seq<
    (Seq<char>, Seq<char>, Seq<char>),
>;

/// Relies on LinkedHashSet::new: the new set is empty.
#[verifier::external_body]
pub(crate) fn new_use_set() -> (r: linked_hash_set::LinkedHashSet<LibraryUse>)
    ensures
        use_set_contents(r) == Seq::<(Seq<char>, Seq<char>, Seq<char>)>::empty(),
{
    linked_hash_set::LinkedHashSet::new()
}

/// Relies on LinkedHashSet::insert_if_absent: a clause already present
/// leaves the set unchanged, a new one is appended.
#[verifier::external_body]
pub(crate) fn use_set_insert(s: &mut linked_hash_set::LinkedHashSet<LibraryUse>, u: LibraryUse)
    ensures
        use_set_contents(*final(s)) == if use_set_contents(*old(s)).contains(u.model()) {
            use_set_contents(*old(s))
        } else {
            use_set_contents(*old(s)).push(u.model())
        },
{
    s.insert_if_absent(u);
}

/// Relies on LinkedHashSet::clone: the copy holds the same clauses in the
/// same order.
#[verifier::external_body]
pub(crate) fn use_set_clone(s: &linked_hash_set::LinkedHashSet<LibraryUse>) -> (r:
    linked_hash_set::LinkedHashSet<LibraryUse>)
    ensures
        use_set_contents(r) == use_set_contents(*s),
{
    s.clone()
}

/// The three identifiers of each clause in a list of use-clauses.
pub open spec fn use_models_of(v: Seq<LibraryUse>) -> Seq<(Seq<char>, Seq<char>, Seq<char>)> {
    v.map_values(|u: LibraryUse| u.model())
}

/// Relies on LinkedHashSet::iter: the clauses come out in insertion
/// order.
#[verifier::external_body]
pub(crate) fn use_set_to_vec(s: &linked_hash_set::LinkedHashSet<LibraryUse>) -> (r: Vec<LibraryUse>)
    ensures
        use_models_of(r@) == use_set_contents(*s),
{
    s.iter().cloned().collect()
}

/// What an insertion-ordered set of signal names holds, oldest first.
pub uninterp spec fn signal_set_contents(s: linked_hash_set::LinkedHashSet<String>) -> Seq<
    Seq<char>,
>;

/// Relies on LinkedHashSet::new: the new set is empty.
#[verifier::external_body]
pub(crate) fn new_signal_set() -> (r: linked_hash_set::LinkedHashSet<String>)
    ensures
        signal_set_contents(r) == Seq::<Seq<char>>::empty(),
{
    linked_hash_set::LinkedHashSet::new()
}

/// Relies on LinkedHashSet::insert_if_absent: a value already present
/// leaves the set unchanged, a new one is appended.
#[verifier::external_body]
pub(crate) fn signal_set_insert_if_absent(
    s: &mut linked_hash_set::LinkedHashSet<String>,
    v: String,
) -> (r: bool)
    ensures
        r == !signal_set_contents(*old(s)).contains(v@),
        signal_set_contents(*final(s)) == if signal_set_contents(*old(s)).contains(v@) {
            signal_set_contents(*old(s))
        } else {
            signal_set_contents(*old(s)).push(v@)
        },
{
    s.insert_if_absent(v)
}

/// Relies on LinkedHashSet::is_empty.
#[verifier::external_body]
pub(crate) fn signal_set_is_empty(s: &linked_hash_set::LinkedHashSet<String>) -> (r: bool)
    ensures
        r == (signal_set_contents(*s).len() == 0),
{
    s.is_empty()
}

/// Relies on LinkedHashSet::iter: the names come out in insertion order.
#[verifier::external_body]
pub(crate) fn signal_set_to_vec(s: &linked_hash_set::LinkedHashSet<String>) -> (r: Vec<String>)
    ensures
        crate::element::views_of(r@) == signal_set_contents(*s),
{
    s.iter().cloned().collect()
}

} // verus!
