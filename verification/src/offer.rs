//! A model of what a clipboard offers, against which the backends state that
//! what they publish is what they read back.
//!
//! Nothing here runs: an offer is the ideal behaviour of a native clipboard,
//! which keeps the bytes it was handed under the format it was handed them
//! for.

use vstd::prelude::*;

verus! {

/// The offer that a clipboard makes after `entries` were published together:
/// under each format the bytes of the first entry that names it.
pub open spec fn offer_of<K>(entries: Seq<(K, Seq<u8>)>) -> Map<K, Seq<u8>>
    decreases entries.len(),
{
    if entries.len() == 0 {
        Map::empty()
    } else {
        offer_of(entries.drop_first()).insert(entries[0].0, entries[0].1)
    }
}

/// What a clipboard with `offer` answers when it is asked for `format`: the
/// bytes, or nothing where the format is not offered.
pub open spec fn answer_of<K>(offer: Map<K, Seq<u8>>, format: K) -> Option<Seq<u8>> {
    if offer.dom().contains(format) {
        Some(offer[format])
    } else {
        None
    }
}

/// An offer answers for a format with the bytes of the first entry that
/// names the format.
pub proof fn lemma_offer_answers<K>(entries: Seq<(K, Seq<u8>)>, i: int)
    requires
        0 <= i < entries.len(),
        forall|j: int| 0 <= j < i ==> (#[trigger] entries[j]).0 != entries[i].0,
    ensures
        answer_of(offer_of(entries), entries[i].0) == Some(entries[i].1),
    decreases entries.len(),
{
    if i > 0 {
        let rest = entries.drop_first();
        assert(rest[i - 1] == entries[i]);
        assert forall|j: int| 0 <= j < i - 1 implies (#[trigger] rest[j]).0 != rest[i - 1].0 by {
            assert(rest[j] == entries[j + 1]);
        }
        lemma_offer_answers(rest, i - 1);
        assert(entries[0].0 != entries[i].0);
    }
}

/// An offer answers for no format that no entry names.
pub proof fn lemma_offer_lacks<K>(entries: Seq<(K, Seq<u8>)>, format: K)
    requires
        forall|j: int| 0 <= j < entries.len() ==> (#[trigger] entries[j]).0 != format,
    ensures
        answer_of(offer_of(entries), format) is None,
    decreases entries.len(),
{
    if entries.len() > 0 {
        let rest = entries.drop_first();
        assert forall|j: int| 0 <= j < rest.len() implies (#[trigger] rest[j]).0 != format by {
            assert(rest[j] == entries[j + 1]);
        }
        lemma_offer_lacks(rest, format);
        assert(entries[0].0 != format);
    }
}

} // verus!
