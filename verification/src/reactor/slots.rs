//! The slab that connections are kept in.

use slab::Slab;

use vstd::prelude::*;

use crate::reactor::connection::Connection;

verus! {

/// Declares `slab::Slab`.
#[verifier::external_type_specification]
#[verifier::external_body]
#[verifier::reject_recursive_types(T)]
pub struct ExSlab<T>(Slab<T>);

/// The values in a slab by their keys.
pub uninterp spec fn slab_contents(slab: Slab<Connection>) -> Map<usize, Connection>;

/// The keys that values put into a slab are going to get, last one first. The first key of the
/// list is the lowest one that was never given away, the others were given back.
pub uninterp spec fn slab_vacancies(slab: Slab<Connection>) -> Seq<usize>;

/// What is left of the keys once a value has got its key.
pub open spec fn occupied(vacancies: Seq<usize>) -> Seq<usize> {
    if vacancies.len() == 1 {
        seq![(vacancies[0] + 1) as usize]
    } else {
        vacancies.drop_last()
    }
}

/// Calls `Slab::with_capacity`: a slab without values. How much space it has set aside is not
/// stated. It panics if there cannot be that much space, so only little may be asked for.
#[verifier::external_body]
pub(crate) fn slab_with_capacity(capacity: usize) -> (slab: Slab<Connection>)
    requires
        capacity <= 1024,
    ensures
        (slab_contents(slab) == Map::<usize, Connection>::empty()),
        slab_vacancies(slab) == seq![0usize],
{
    Slab::with_capacity(capacity)
}

/// Calls `Slab::vacant_key`: the key that the next value gets. No value has that key.
#[verifier::external_body]
pub(crate) fn slab_vacant_key(slab: &Slab<Connection>) -> (key: usize)
    ensures
        key == slab_vacancies(*slab).last(),
        !slab_contents(*slab).contains_key(key),
{
    slab.vacant_key()
}

/// Calls `Slab::insert`: puts a value into the slab under the next key, which no value had. The
/// next value gets the key that was given back before that, or else one that was never given away.
#[verifier::external_body]
pub(crate) fn slab_insert(slab: &mut Slab<Connection>, value: Connection) -> (key: usize)
    ensures
        key == slab_vacancies(*old(slab)).last(),
        !slab_contents(*old(slab)).contains_key(key),
        slab_contents(*final(slab)) == slab_contents(*old(slab)).insert(key, value),
        slab_vacancies(*final(slab)) == occupied(slab_vacancies(*old(slab))),
{
    slab.insert(value)
}

/// Calls `Slab::get`: the value under a key, if there is one.
#[verifier::external_body]
pub(crate) fn slab_get(slab: &Slab<Connection>, key: usize) -> (value: Option<&Connection>)
    ensures
        match value {
            Some(value) => slab_contents(*slab).contains_key(key) && *value == slab_contents(
                *slab,
            )[key],
            None => !slab_contents(*slab).contains_key(key),
        },
{
    slab.get(key)
}

/// Calls `Slab::get_mut`: the value under a key, if there is one, for writing. What is written
/// becomes the value under that key; the other values and the vacant keys stay as they are.
#[verifier::external_body]
pub(crate) fn slab_get_mut(slab: &mut Slab<Connection>, key: usize) -> (value: Option<
    &mut Connection,
>)
    ensures
        slab_vacancies(*final(slab)) == slab_vacancies(*old(slab)),
        match value {
            Some(value) => {
                &&& slab_contents(*old(slab)).contains_key(key)
                &&& *value == slab_contents(*old(slab))[key]
                &&& slab_contents(*final(slab)) == slab_contents(*old(slab)).insert(
                    key,
                    *final(value),
                )
            },
            None => {
                &&& !slab_contents(*old(slab)).contains_key(key)
                &&& slab_contents(*final(slab)) == slab_contents(*old(slab))
            },
        },
{
    slab.get_mut(key)
}

/// Calls `Slab::remove`, which panics if there is no value under the key: takes the value under a
/// key out of the slab. Its key is the next one to be given away.
#[verifier::external_body]
pub(crate) fn slab_remove(slab: &mut Slab<Connection>, key: usize) -> (value: Connection)
    requires
        slab_contents(*old(slab)).contains_key(key),
    ensures
        value == slab_contents(*old(slab))[key],
        slab_contents(*final(slab)) == slab_contents(*old(slab)).remove(key),
        slab_vacancies(*final(slab)) == slab_vacancies(*old(slab)).push(key),
{
    slab.remove(key)
}

/// Calls `Slab::iter`, and keeps the keys: those of all values, in ascending order.
#[verifier::external_body]
pub(crate) fn slab_keys(slab: &Slab<Connection>) -> (keys: Vec<usize>)
    ensures
        forall|i: int, j: int| 0 <= i < j < keys@.len() ==> keys@[i] < keys@[j],
        forall|key: usize|
            slab_contents(*slab).contains_key(key) <==> #[trigger] keys@.contains(key),
{
    slab.iter().map(|entry| entry.0).collect()
}

} // verus!
