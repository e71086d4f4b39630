//! Where the elements come from that a filter lets through.

use vstd::prelude::*;

verus! {

/// What a filter keeps stands at rising places of what it is given, and every
/// place whose element is wanted is among them.
pub proof fn lemma_filter_places<A>(all: Seq<A>, wanted: spec_fn(A) -> bool) -> (places: Seq<int>)
    ensures
        places.len() == all.filter(wanted).len(),
        forall|k: int|
            0 <= k < places.len() ==> 0 <= #[trigger] places[k] < all.len() && wanted(
                all[places[k]],
            ) && all.filter(wanted)[k] == all[places[k]],
        forall|k: int, l: int|
            0 <= k < l < places.len() ==> #[trigger] places[k] < #[trigger] places[l],
        forall|i: int| 0 <= i < all.len() && wanted(#[trigger] all[i]) ==> places.contains(i),
    decreases all.len(),
{
    reveal(Seq::filter);
    if all.len() == 0 {
        Seq::empty()
    } else {
        let before = all.drop_last();
        let places = lemma_filter_places(before, wanted);
        let more = if wanted(all.last()) {
            places.push(all.len() - 1)
        } else {
            places
        };
        assert forall|i: int| 0 <= i < all.len() && wanted(
            #[trigger] all[i],
        ) implies more.contains(i) by {
            if i < before.len() {
                assert(before[i] == all[i]);
                let k = places.index_of(i);
                assert(more[k] == i);
            } else {
                assert(more[more.len() - 1] == i);
            }
        }
        more
    }
}

/// What a filter that also maps keeps comes of rising places of what it is given,
/// and every place whose element it maps to something is among them. Where it
/// maps every element to something, none is lost.
pub proof fn lemma_filter_map_places<A, B>(all: Seq<A>, map: spec_fn(A) -> Option<B>) -> (places:
    Seq<int>)
    ensures
        places.len() == all.filter_map(map).len(),
        forall|k: int|
            0 <= k < places.len() ==> 0 <= #[trigger] places[k] < all.len() && map(all[places[k]])
                == Some(all.filter_map(map)[k]),
        forall|k: int, l: int|
            0 <= k < l < places.len() ==> #[trigger] places[k] < #[trigger] places[l],
        forall|i: int|
            0 <= i < all.len() && map(#[trigger] all[i]) is Some ==> places.contains(i),
        (forall|i: int| 0 <= i < all.len() ==> map(#[trigger] all[i]) is Some) ==> places.len()
            == all.len(),
    decreases all.len(),
{
    if all.len() == 0 {
        Seq::empty()
    } else {
        let before = all.drop_last();
        let places = lemma_filter_map_places(before, map);
        let more = if map(all.last()) is Some {
            places.push(all.len() - 1)
        } else {
            places
        };
        assert forall|i: int| 0 <= i < all.len() && map(
            #[trigger] all[i],
        ) is Some implies more.contains(i) by {
            if i < before.len() {
                assert(before[i] == all[i]);
                let k = places.index_of(i);
                assert(more[k] == i);
            } else {
                assert(more[more.len() - 1] == i);
            }
        }
        if forall|i: int| 0 <= i < all.len() ==> map(#[trigger] all[i]) is Some {
            assert forall|i: int| 0 <= i < before.len() implies map(#[trigger] before[i]) is Some by {
                assert(map(all[i]) is Some);
            }
            assert(map(all[all.len() - 1]) is Some);
        }
        more
    }
}

} // verus!
