//! Shards of a stream.

use vstd::prelude::*;

verus! {

/// The characters of an optional string.
pub open spec fn text(s: Option<String>) -> Option<Seq<char>> {
    match s {
        Some(s) => Some(s@),
        None => None,
    }
}

/// The characters of an optional string slice.
pub open spec fn slice_text(s: Option<&str>) -> Option<Seq<char>> {
    match s {
        Some(s) => Some(s@),
        None => None,
    }
}

/// What a stream's description says of one of its shards.
#[derive(Debug, Clone)]
pub struct ShardDescription {
    /// The id of the shard, if the description names it.
    pub shard_id: Option<String>,
    /// The id of the shard that this one continues.
    pub parent_shard_id: Option<String>,
}

/// A shard, with the iterator that reads it next.
#[derive(Debug, Clone)]
pub struct Shard {
    id: String,
    parent_shard_id: Option<String>,
    iterator: Option<String>,
}

/// The contents of a [`Shard`].
pub struct ShardView {
    /// The id of the shard.
    pub id: Seq<char>,
    /// The id of the shard that this one continues.
    pub parent_shard_id: Option<Seq<char>>,
    /// The iterator that reads the shard next.
    pub iterator: Option<Seq<char>>,
}

/// The shard that a description stands for: none without an id, and one that no
/// iterator reads yet otherwise.
pub open spec fn described_shard(description: ShardDescription) -> Option<ShardView> {
    match description.shard_id {
        Some(id) => Some(
            ShardView {
                id: id@,
                parent_shard_id: text(description.parent_shard_id),
                iterator: None,
            },
        ),
        None => None,
    }
}

impl View for Shard {
    type V = ShardView;

    closed spec fn view(&self) -> ShardView {
        ShardView {
            id: self.id@,
            parent_shard_id: text(self.parent_shard_id),
            iterator: text(self.iterator),
        }
    }
}

impl Shard {
    /// Creates a shard.
    pub fn new(
        id: String,
        parent_shard_id: Option<String>,
        iterator: Option<String>,
    ) -> (shard: Self)
        ensures
            shard@ == (ShardView {
                id: id@,
                parent_shard_id: text(parent_shard_id),
                iterator: text(iterator),
            }),
    {
        Self { id, parent_shard_id, iterator }
    }

    /// Creates the shard that a description stands for.
    pub fn from_shard(description: ShardDescription) -> (shard: Option<Self>)
        ensures
            match shard {
                Some(shard) => described_shard(description) == Some(shard@),
                None => described_shard(description) is None,
            },
    {
        match description.shard_id {
            Some(id) => Some(Self::new(id, description.parent_shard_id, None)),
            None => None,
        }
    }

    /// The id of the shard.
    pub fn id(&self) -> (id: &str)
        ensures
            id@ == self@.id,
    {
        self.id.as_str()
    }

    /// The id of the shard that this one continues.
    pub fn parent_shard_id(&self) -> (id: Option<&str>)
        ensures
            slice_text(id) == self@.parent_shard_id,
    {
        match &self.parent_shard_id {
            Some(id) => Some(id.as_str()),
            None => None,
        }
    }

    /// The iterator that reads the shard next.
    pub fn iterator(&self) -> (iterator: Option<&str>)
        ensures
            slice_text(iterator) == self@.iterator,
    {
        match &self.iterator {
            Some(iterator) => Some(iterator.as_str()),
            None => None,
        }
    }

    /// Whether this shard continues another one.
    pub fn continues(&self, other: &Self) -> (continues: bool)
        ensures
            continues == (self@.parent_shard_id == Some(other@.id)),
    {
        match &self.parent_shard_id {
            Some(id) => *id == other.id,
            None => false,
        }
    }

    /// The same shard, to be read with another iterator. Without an iterator
    /// there is nothing left to read, and no shard.
    pub fn set_iterator(self, iterator: Option<String>) -> (shard: Option<Self>)
        ensures
            match shard {
                Some(shard) => iterator is Some && shard@ == (ShardView {
                    iterator: text(iterator),
                    ..self@
                }),
                None => iterator is None,
            },
    {
        match iterator {
            Some(iterator) => Some(Self { iterator: Some(iterator), ..self }),
            None => None,
        }
    }
}

/// An optional string has characters exactly if it is there, and they are its own.
pub proof fn law_text_is_that_of_the_string(s: Option<String>, slice: Option<&str>)
    ensures
        text(s) is Some <==> s is Some,
        s matches Some(s) ==> text(Some(s)) == Some(s@),
        slice_text(slice) is Some <==> slice is Some,
        slice matches Some(slice) ==> slice_text(Some(slice)) == Some(slice@),
{
}

/// A description stands for a shard exactly if it has an id, and the shard has that
/// id, the parent that the description names, whichever it is, and no iterator.
pub proof fn law_description_with_an_id_is_a_shard(description: ShardDescription)
    ensures
        described_shard(description) is Some <==> description.shard_id is Some,
        description.shard_id matches Some(id) ==> described_shard(description)->0.id == id@,
        description.shard_id is Some && description.parent_shard_id is None ==> described_shard(
            description,
        )->0.parent_shard_id is None,
        description.shard_id is Some ==> (description.parent_shard_id matches Some(parent)
            ==> described_shard(description)->0.parent_shard_id == Some(parent@)),
        description.shard_id is Some ==> described_shard(description)->0.iterator is None,
{
}

} // verus!
