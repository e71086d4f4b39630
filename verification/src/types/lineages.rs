//! Shards by descent: a shard is read behind the shard that it continues.

use crate::selection::lemma_filter_places;
use crate::types::shard::Shard;
use vstd::prelude::*;

verus! {

/// Whether the shard at `child` names the one at `parent` as its parent, and no
/// shard in front of it has the same id.
pub open spec fn is_parent(shards: Seq<Shard>, parent: int, child: int) -> bool {
    &&& 0 <= parent < shards.len()
    &&& shards[child]@.parent_shard_id == Some(shards[parent]@.id)
    &&& forall|earlier: int|
        0 <= earlier < parent ==> #[trigger] shards[earlier]@.id != shards[parent]@.id
}

/// Whether the parent of the shard at `child` is not among the shards.
pub open spec fn is_root(shards: Seq<Shard>, child: int) -> bool {
    forall|parent: int|
        0 <= parent < shards.len() ==> Some(#[trigger] shards[parent]@.id)
            != shards[child]@.parent_shard_id
}

/// The indices below `bound` that `chosen` holds of, from the lowest up.
pub open spec fn indices(bound: nat, chosen: spec_fn(int) -> bool) -> Seq<int> {
    Seq::new(bound, |i: int| i).filter(chosen)
}

/// Shards, of which each is read behind its parent.
#[derive(Debug, Clone)]
pub struct Lineages {
    shards: Vec<Shard>,
}

impl View for Lineages {
    type V = Seq<Shard>;

    closed spec fn view(&self) -> Seq<Shard> {
        self.shards@
    }
}

/// The places of a list of indices as mathematical integers.
pub open spec fn places(indices: Seq<usize>) -> Seq<int> {
    indices.map_values(|i: usize| i as int)
}

/// Appending the next index keeps a list of chosen indices complete.
proof fn lemma_indices_step(bound: nat, chosen: spec_fn(int) -> bool)
    ensures
        indices(bound + 1, chosen) == if chosen(bound as int) {
            indices(bound, chosen).push(bound as int)
        } else {
            indices(bound, chosen)
        },
{
    reveal(Seq::filter);
    let all = Seq::new(bound + 1, |i: int| i);
    assert(all.drop_last() =~= Seq::new(bound, |i: int| i));
    assert(all.last() == bound);
}

impl Lineages {
    /// Orders shards by descent.
    pub fn new(shards: Vec<Shard>) -> (lineages: Self)
        ensures
            lineages@ == shards@,
    {
        Self { shards }
    }

    /// The number of shards.
    pub fn len(&self) -> (len: usize)
        ensures
            len == self@.len(),
    {
        self.shards.len()
    }

    /// The shard at an index.
    pub fn shard(&self, index: usize) -> (shard: &Shard)
        requires
            index < self@.len(),
        ensures
            *shard == self@[index as int],
    {
        &self.shards[index]
    }

    /// The index of the parent of a shard, if the parent is among the shards.
    pub fn parent(&self, child: usize) -> (parent: Option<usize>)
        requires
            child < self@.len(),
        ensures
            match parent {
                Some(parent) => is_parent(self@, parent as int, child as int),
                None => is_root(self@, child as int),
            },
    {
        for i in 0..self.shards.len()
            invariant
                child < self@.len(),
                self@ == self.shards@,
                forall|earlier: int|
                    0 <= earlier < i ==> Some(#[trigger] self@[earlier]@.id)
                        != self@[child as int]@.parent_shard_id,
        {
            if self.shards[child].continues(&self.shards[i]) {
                return Some(i);
            }
        }
        None
    }

    /// The shards that can be read at once: those whose parent is not among the
    /// shards.
    pub fn roots(&self) -> (roots: Vec<usize>)
        ensures
            places(roots@) == indices(self@.len(), |i: int| is_root(self@, i)),
    {
        let ghost chosen = |i: int| is_root(self@, i);
        let mut roots: Vec<usize> = Vec::new();
        proof {
            reveal(Seq::filter);
            assert(places(roots@) =~= indices(0, chosen));
        }
        for i in 0..self.shards.len()
            invariant
                self@ == self.shards@,
                chosen == (|i: int| is_root(self@, i)),
                places(roots@) == indices(i as nat, chosen),
        {
            proof {
                lemma_indices_step(i as nat, chosen);
            }
            let ghost before = roots@;
            match self.parent(i) {
                Some(parent) => {
                    assert(Some(self@[parent as int]@.id) == self@[i as int]@.parent_shard_id);
                },
                None => {
                    roots.push(i);
                    assert(places(roots@) =~= places(before).push(i as int));
                },
            }
        }
        roots
    }

    /// The shards that can be read behind the one at `parent`.
    pub fn children(&self, parent: usize) -> (children: Vec<usize>)
        ensures
            places(children@) == indices(
                self@.len(),
                |i: int| is_parent(self@, parent as int, i),
            ),
    {
        let ghost chosen = |i: int| is_parent(self@, parent as int, i);
        let mut children: Vec<usize> = Vec::new();
        proof {
            reveal(Seq::filter);
            assert(places(children@) =~= indices(0, chosen));
        }
        for i in 0..self.shards.len()
            invariant
                self@ == self.shards@,
                chosen == (|i: int| is_parent(self@, parent as int, i)),
                places(children@) == indices(i as nat, chosen),
        {
            proof {
                lemma_indices_step(i as nat, chosen);
            }
            let ghost before = children@;
            match self.parent(i) {
                Some(found) => {
                    proof {
                        if is_parent(self@, parent as int, i as int) {
                            law_parent_is_unique(self@, parent as int, found as int, i as int);
                        }
                    }
                    if found == parent {
                        children.push(i);
                        assert(places(children@) =~= places(before).push(i as int));
                    }
                },
                None => {},
            }
        }
        children
    }
}

/// A shard has at most one parent among the shards.
pub proof fn law_parent_is_unique(shards: Seq<Shard>, one: int, other: int, child: int)
    requires
        is_parent(shards, one, child),
        is_parent(shards, other, child),
    ensures
        one == other,
{
    if one < other {
        assert(shards[one]@.id == shards[other]@.id);
    } else if other < one {
        assert(shards[other]@.id == shards[one]@.id);
    }
}

/// Each shard has a place: it is read at once, or behind a parent, and never
/// both.
pub proof fn law_every_shard_has_a_place(shards: Seq<Shard>, child: int)
    requires
        0 <= child < shards.len(),
    ensures
        is_root(shards, child) <==> !exists|parent: int| is_parent(shards, parent, child),
{
    if !is_root(shards, child) {
        let named = choose|parent: int|
            0 <= parent < shards.len() && Some(#[trigger] shards[parent]@.id)
                == shards[child]@.parent_shard_id;
        let first = lemma_first_with_id(shards, named);
        assert(is_parent(shards, first, child));
    }
}

/// The first shard that has the id of a given one.
proof fn lemma_first_with_id(shards: Seq<Shard>, index: int) -> (first: int)
    requires
        0 <= index < shards.len(),
    ensures
        0 <= first <= index,
        shards[first]@.id == shards[index]@.id,
        forall|earlier: int|
            0 <= earlier < first ==> #[trigger] shards[earlier]@.id != shards[first]@.id,
    decreases index,
{
    if exists|earlier: int|
        0 <= earlier < index && #[trigger] shards[earlier]@.id == shards[index]@.id {
        let earlier = choose|earlier: int|
            0 <= earlier < index && #[trigger] shards[earlier]@.id == shards[index]@.id;
        lemma_first_with_id(shards, earlier)
    } else {
        index
    }
}

/// Whether the shard at `child` is read in a generation: the shards that can be
/// read at once are the first, and each one behind it holds the children of the
/// one before.
pub open spec fn is_read_in(shards: Seq<Shard>, child: int, generation: nat) -> bool
    decreases generation,
{
    if generation == 0 {
        is_root(shards, child)
    } else {
        exists|parent: int| #[trigger]
            is_parent(shards, parent, child) && is_read_in(
                shards,
                parent,
                (generation - 1) as nat,
            )
    }
}

/// Every shard is read, and read once: it belongs to exactly one generation. No
/// shard may descend from itself, which is to say that descent can be ranked.
pub proof fn law_every_shard_is_read_once(
    shards: Seq<Shard>,
    rank: spec_fn(int) -> nat,
    child: int,
    one: nat,
    other: nat,
)
    requires
        0 <= child < shards.len(),
        forall|p: int, c: int|
            0 <= c < shards.len() && #[trigger] is_parent(shards, p, c) ==> rank(p) < rank(c),
    ensures
        exists|generation: nat| is_read_in(shards, child, generation),
        is_read_in(shards, child, one) && is_read_in(shards, child, other) ==> one == other,
{
    lemma_is_read(shards, rank, child);
    if is_read_in(shards, child, one) && is_read_in(shards, child, other) {
        lemma_is_read_once(shards, child, one, other);
    }
}

proof fn lemma_is_read(shards: Seq<Shard>, rank: spec_fn(int) -> nat, child: int)
    requires
        0 <= child < shards.len(),
        forall|p: int, c: int|
            0 <= c < shards.len() && #[trigger] is_parent(shards, p, c) ==> rank(p) < rank(c),
    ensures
        exists|generation: nat| is_read_in(shards, child, generation),
    decreases rank(child),
{
    law_every_shard_has_a_place(shards, child);
    if is_root(shards, child) {
        assert(is_read_in(shards, child, 0));
    } else {
        let parent = choose|parent: int| is_parent(shards, parent, child);
        lemma_is_read(shards, rank, parent);
        let generation = choose|generation: nat| is_read_in(shards, parent, generation);
        assert(is_read_in(shards, child, generation + 1));
    }
}

proof fn lemma_is_read_once(shards: Seq<Shard>, child: int, one: nat, other: nat)
    requires
        0 <= child < shards.len(),
        is_read_in(shards, child, one),
        is_read_in(shards, child, other),
    ensures
        one == other,
    decreases one,
{
    law_every_shard_has_a_place(shards, child);
    if one > 0 && other > 0 {
        let parent = choose|parent: int| #[trigger]
            is_parent(shards, parent, child) && is_read_in(shards, parent, (one - 1) as nat);
        let same = choose|parent: int| #[trigger]
            is_parent(shards, parent, child) && is_read_in(shards, parent, (other - 1) as nat);
        law_parent_is_unique(shards, parent, same, child);
        lemma_is_read_once(shards, parent, (one - 1) as nat, (other - 1) as nat);
    }
}

/// A shard that can be read at once names no shard among the shards as its parent,
/// one that is read behind another names it, and where a shard with the id that it
/// names is there, there is one that it is read behind.
pub proof fn law_descent_goes_by_the_named_parent(
    shards: Seq<Shard>,
    named: int,
    parent: int,
    child: int,
)
    requires
        0 <= named < shards.len(),
        0 <= child < shards.len(),
    ensures
        shards[child]@.parent_shard_id is None ==> is_root(shards, child),
        shards[child]@.parent_shard_id == Some(shards[named]@.id) ==> !is_root(shards, child)
            && exists|first: int|
            0 <= first <= named && shards[first]@.id == shards[named]@.id && #[trigger] is_parent(
                shards,
                first,
                child,
            ),
        is_parent(shards, parent, child) ==> 0 <= parent < shards.len()
            && shards[child]@.parent_shard_id == Some(shards[parent]@.id),
        (forall|k: int|
            0 <= k < shards.len() ==> shards[child]@.parent_shard_id != Some(
                (#[trigger] shards[k])@.id,
            )) ==> is_root(shards, child),
{
    if shards[child]@.parent_shard_id == Some(shards[named]@.id) {
        let first = lemma_first_with_id(shards, named);
        assert(is_parent(shards, first, child));
    }
    if forall|k: int|
        0 <= k < shards.len() ==> shards[child]@.parent_shard_id != Some((#[trigger] shards[k])@.id) {
        assert forall|parent: int| 0 <= parent < shards.len() implies Some(
            #[trigger] shards[parent]@.id,
        ) != shards[child]@.parent_shard_id by {
            assert(shards[child]@.parent_shard_id != Some(shards[parent]@.id));
        }
    }
}

/// A list of chosen indices holds every chosen index once, from the lowest up, and
/// nothing else.
pub proof fn law_every_chosen_index_is_listed(
    bound: nat,
    chosen: spec_fn(int) -> bool,
    listed: Seq<usize>,
)
    requires
        places(listed) == indices(bound, chosen),
    ensures
        forall|k: int|
            0 <= k < listed.len() ==> (#[trigger] listed[k]) < bound && chosen(listed[k] as int),
        forall|k: int, l: int|
            0 <= k < l < listed.len() ==> #[trigger] listed[k] < #[trigger] listed[l],
        forall|i: int|
            0 <= i < bound && #[trigger] chosen(i) ==> exists|k: int|
                0 <= k < listed.len() && #[trigger] listed[k] == i,
{
    let all = Seq::new(bound, |i: int| i);
    let at = lemma_filter_places(all, chosen);
    assert forall|k: int| 0 <= k < listed.len() implies #[trigger] listed[k] == at[k] by {
        assert(places(listed)[k] == listed[k]);
        assert(all[at[k]] == at[k]);
    }
    assert forall|k: int| 0 <= k < listed.len() implies (#[trigger] listed[k]) < bound && chosen(
        listed[k] as int,
    ) by {
        assert(0 <= at[k] < all.len() && chosen(all[at[k]]));
    }
    assert forall|k: int, l: int| 0 <= k < l < listed.len() implies #[trigger] listed[k]
        < #[trigger] listed[l] by {
        assert(at[k] < at[l]);
    }
    assert forall|i: int| 0 <= i < bound && #[trigger] chosen(i) implies exists|k: int|
        0 <= k < listed.len() && #[trigger] listed[k] == i by {
        assert(all[i] == i);
        let k = at.index_of(i);
        assert(listed[k] == i);
    }
}

} // verus!
