//! Occurrence counting over content keys, backed by `counter::Counter`.

use counter::Counter;
use vstd::multiset::Multiset;
use vstd::prelude::*;

verus! {

/// A content key: an integer and a byte string. A coin is keyed by its
/// denomination tier and serialized token, a deposit by its output index and
/// transaction id.
pub type Key = (u64, Vec<u8>);

/// The value of a content key.
pub type KeyView = (u64, Seq<u8>);

/// `counter::Counter`, a hash map from items to their counts. Opaque here:
/// what it holds is spoken of through [`tally_contents`] alone.
#[verifier::external_type_specification]
#[verifier::external_body]
#[verifier::reject_recursive_types(T)]
#[verifier::reject_recursive_types(N)]
#[verifier::reject_recursive_types(S)]
pub struct ExCounter<T, N, S>(Counter<T, N, S>);

/// What a counter holds: every key as often as it was counted.
pub uninterp spec fn tally_contents(c: Counter<Key>) -> Multiset<KeyView>;

/// Counts the keys of a list with `Counter`'s `FromIterator` impl (reached
/// through `collect`): it starts from an empty counter and adds one for each
/// item of the iterator. Trusted: the counter then holds each key as often as
/// the list does. Keys are compared by `Eq` of `(u64, Vec<u8>)`, which is
/// equality of the integer and of the bytes.
#[verifier::external_body]
pub(crate) fn tally(keys: Vec<Key>) -> (c: Counter<Key>)
    ensures
        tally_contents(c) == keys.deep_view().to_multiset(),
{
    keys.into_iter().collect()
}

/// Reads a count with `Counter`'s `Index<&Q>` impl, which returns the stored
/// count, or zero for a key that was never counted. Trusted: the result is
/// the multiplicity of the key in the counter.
#[verifier::external_body]
pub(crate) fn tally_count(c: &Counter<Key>, key: &Key) -> (n: usize)
    ensures
        n == tally_contents(*c).count(key.deep_view()),
{
    c[key]
}

} // verus!
