//! Bulk synchronisation of a collection that is keyed by entity: the source
//! sends what was added or changed and what was removed, the observer folds
//! each batch into its own map.

use vstd::prelude::*;
use std::collections::{HashMap, HashSet};
use crate::channel::{DioxusRxChannel, Drained};
use vstd::std_specs::hash::*;
use vstd::std_specs::iter::IteratorSpec;

verus! {

broadcast use vstd::std_specs::hash::group_hash_axioms;

/// One batch of changes to an entity-keyed collection.
pub struct AddRemoveQueues<U> {
    /// The entities that are new or have changed, each with its value.
    pub add: HashMap<u64, U>,
    /// The entities that are gone.
    pub remove: HashSet<u64>,
}

/// A batch for the components of one kind.
pub type EntityComponentQueue<T> = AddRemoveQueues<T>;

/// The collection after a batch: first every removed key leaves, then every
/// added key is entered or overwritten.
pub open spec fn folded<U>(before: Map<u64, U>, add: Map<u64, U>, remove: Set<u64>) -> Map<u64, U> {
    before.remove_keys(remove).union_prefer_right(add)
}

/// The collection after a run of batches, applied in the order of receipt.
pub open spec fn folded_all<U>(before: Map<u64, U>, batches: Seq<AddRemoveQueues<U>>) -> Map<
    u64,
    U,
>
    decreases batches.len(),
{
    if batches.len() == 0 {
        before
    } else {
        folded(
            folded_all(before, batches.drop_last()),
            batches.last().add@,
            batches.last().remove@,
        )
    }
}

/// The map that a list of entries builds up: a later entry for a key
/// replaces an earlier one.
pub open spec fn entered<U>(entries: Seq<(u64, U)>) -> Map<u64, U>
    decreases entries.len(),
{
    if entries.len() == 0 {
        Map::empty()
    } else {
        entered(entries.drop_last()).insert(entries.last().0, entries.last().1)
    }
}

proof fn lemma_take_step<A>(s: Seq<A>, i: int)
    requires
        0 <= i < s.len(),
    ensures
        s.take(i + 1).to_set() == s.take(i).to_set().insert(s[i]),
{
    let longer = s.take(i + 1);
    let shorter = s.take(i);
    let lhs = longer.to_set();
    let rhs = shorter.to_set().insert(s[i]);
    assert forall|a: A| lhs.contains(a) == rhs.contains(a) by {
        if lhs.contains(a) {
            let j = choose|j: int| 0 <= j < longer.len() && longer[j] == a;
            if j < i {
                assert(shorter[j] == a);
            }
        }
        if rhs.contains(a) {
            if a == s[i] {
                assert(longer[i] == a);
            } else {
                let j = choose|j: int| 0 <= j < shorter.len() && shorter[j] == a;
                assert(longer[j] == a);
            }
        }
    }
    assert(lhs =~= rhs);
}

/// The members of `set`, each once, in no particular order.
fn members(set: &HashSet<u64>) -> (list: Vec<u64>)
    ensures
        list@.to_set() == set@,
        list@.no_duplicates(),
{
    let mut list: Vec<u64> = Vec::new();
    let ghost keys = spec_hash_keys_iter(set).remaining();
    for key in it: set.iter()
        invariant
            it.seq() == keys,
            list@ == keys.take(it.index() as int).unref(),
    {
        list.push(*key);
        proof {
            assert(list@ =~= keys.take(it.index() + 1).unref());
        }
    }
    proof {
        assert(keys.take(keys.len() as int) == keys);
        assert forall|i: int, j: int| 0 <= i < list@.len() && 0 <= j < list@.len() && i != j implies list@[i] != list@[j] by {
            assert(keys[i] != keys[j]);
        }
    }
    list
}

/// The keys of `map`, each once, in no particular order.
fn keys_of<U>(map: &HashMap<u64, U>) -> (list: Vec<u64>)
    ensures
        list@.to_set() == map@.dom(),
        list@.no_duplicates(),
{
    let mut list: Vec<u64> = Vec::new();
    let ghost keys = spec_keys_iter(map).remaining();
    for key in it: map.keys()
        invariant
            it.seq() == keys,
            list@ == keys.take(it.index() as int).unref(),
    {
        list.push(*key);
        proof {
            assert(list@ =~= keys.take(it.index() + 1).unref());
        }
    }
    proof {
        assert(keys.take(keys.len() as int) == keys);
        assert forall|i: int, j: int|
            0 <= i < list@.len() && 0 <= j < list@.len() && i != j implies list@[i] != list@[j] by {
            assert(keys[i] != keys[j]);
        }
    }
    list
}

impl<U> AddRemoveQueues<U> {
    /// The batch that changes nothing.
    pub fn new() -> (batch: Self)
        ensures
            batch.add@ == Map::<u64, U>::empty(),
            batch.remove@ == Set::<u64>::empty(),
    {
        AddRemoveQueues { add: HashMap::new(), remove: HashSet::new() }
    }

    /// Whether the batch changes nothing.
    pub fn is_empty(&self) -> (empty: bool)
        ensures
            empty == (self.add@ == Map::<u64, U>::empty() && self.remove@ == Set::<u64>::empty()),
    {
        let empty = self.add.is_empty() && self.remove.is_empty();
        proof {
            if self.add@.is_empty() {
                assert(self.add@ =~= Map::<u64, U>::empty());
            }
        }
        empty
    }

    /// The batch for one tick of the source: `changed` lists the entities
    /// that are new or have changed, each with its value, and `removed`
    /// those that are gone.
    pub fn from_changes(changed: Vec<(u64, U)>, removed: Vec<u64>) -> (batch: Self)
        ensures
            batch.add@ == entered(changed@),
            batch.remove@ == removed@.to_set(),
    {
        let mut batch = AddRemoveQueues::new();
        for entry in it: changed.into_iter()
            invariant
                it.seq() == changed@,
                batch.add@ == entered(it.seq().take(it.index() as int)),
                batch.remove@ == Set::<u64>::empty(),
        {
            proof {
                let done = it.seq().take(it.index() + 1);
                assert(done.drop_last() == it.seq().take(it.index() as int));
                assert(done.last() == entry);
            }
            batch.add.insert(entry.0, entry.1);
        }
        proof {
            assert(changed@.take(changed@.len() as int) == changed@);
            assert(removed@.take(0).to_set() =~= Set::<u64>::empty());
        }
        let mut at: usize = 0;
        while at < removed.len()
            invariant
                at <= removed@.len(),
                batch.add@ == entered(changed@),
                batch.remove@ == removed@.take(at as int).to_set(),
            decreases removed@.len() - at,
        {
            proof {
                lemma_take_step(removed@, at as int);
            }
            batch.remove.insert(removed[at]);
            at = at + 1;
        }
        proof {
            assert(removed@.take(removed@.len() as int) == removed@);
        }
        batch
    }

    /// Notes that `entity` is new or has changed and now holds `value`.
    pub fn note_changed(&mut self, entity: u64, value: U)
        ensures
            final(self).add@ == old(self).add@.insert(entity, value),
            final(self).remove@ == old(self).remove@,
    {
        self.add.insert(entity, value);
    }

    /// Notes that `entity` is gone.
    pub fn note_removed(&mut self, entity: u64)
        ensures
            final(self).add@ == old(self).add@,
            final(self).remove@ == old(self).remove@.insert(entity),
    {
        self.remove.insert(entity);
    }
}

impl<U> Default for AddRemoveQueues<U> {
    fn default() -> (batch: Self)
        ensures
            batch.add@ == Map::<u64, U>::empty(),
            batch.remove@ == Set::<u64>::empty(),
    {
        AddRemoveQueues::new()
    }
}

/// The observer's copy of an entity-keyed collection.
#[verifier::reject_recursive_types(T)]
pub struct BevyQueryComponents<T> {
    components: HashMap<u64, T>,
    query_read: DioxusRxChannel<AddRemoveQueues<T>>,
}

impl<T> View for BevyQueryComponents<T> {
    type V = Map<u64, T>;

    closed spec fn view(&self) -> Map<u64, T> {
        self.components@
    }
}

impl<T> BevyQueryComponents<T> {
    /// An empty copy that is filled from `query_read`.
    pub fn new(query_read: DioxusRxChannel<AddRemoveQueues<T>>) -> (copy: Self)
        ensures
            copy@ == Map::<u64, T>::empty(),
    {
        BevyQueryComponents { components: HashMap::new(), query_read }
    }

    /// The value that `entity` holds, if the collection has it.
    pub fn get(&self, entity: u64) -> (found: Option<&T>)
        ensures
            match found {
                Some(value) => self@.contains_key(entity) && self@[entity] == *value,
                None => !self@.contains_key(entity),
            },
    {
        self.components.get(&entity)
    }

    /// How many entities the collection holds.
    pub fn len(&self) -> (count: usize)
        ensures
            count == self@.len(),
    {
        self.components.len()
    }

    /// Folds one batch into the collection.
    pub fn apply_batch(&mut self, batch: AddRemoveQueues<T>)
        ensures
            final(self)@ == folded(old(self)@, batch.add@, batch.remove@),
    {
        let ghost start = self@;
        let AddRemoveQueues { add, remove } = batch;
        let mut add = add;
        let ghost fresh = add@;
        let gone = members(&remove);
        let mut at: usize = 0;
        while at < gone.len()
            invariant
                at <= gone@.len(),
                self@ == start.remove_keys(gone@.take(at as int).to_set()),
            decreases gone@.len() - at,
        {
            proof {
                lemma_take_step(gone@, at as int);
            }
            self.components.remove(&gone[at]);
            proof {
                assert(self@ =~= start.remove_keys(gone@.take(at + 1).to_set()));
            }
            at = at + 1;
        }
        proof {
            assert(gone@.take(gone@.len() as int) == gone@);
        }
        let ghost kept = self@;
        let entered = keys_of(&add);
        let mut at: usize = 0;
        while at < entered.len()
            invariant
                at <= entered@.len(),
                entered@.no_duplicates(),
                entered@.to_set() == fresh.dom(),
                add@ == fresh.remove_keys(entered@.take(at as int).to_set()),
                self@ == kept.union_prefer_right(fresh.restrict(entered@.take(at as int).to_set())),
            decreases entered@.len() - at,
        {
            let key = entered[at];
            proof {
                lemma_take_step(entered@, at as int);
                assert(entered@.to_set().contains(entered@[at as int]));
                assert(!entered@.take(at as int).to_set().contains(key)) by {
                    if entered@.take(at as int).to_set().contains(key) {
                        let earlier = entered@.take(at as int);
                        let j = choose|j: int| 0 <= j < earlier.len() && earlier[j] == key;
                        assert(entered@[j] == entered@[at as int]);
                    }
                }
            }
            match add.remove(&key) {
                Some(value) => {
                    self.components.insert(key, value);
                },
                None => {},
            }
            proof {
                assert(add@ =~= fresh.remove_keys(entered@.take(at + 1).to_set()));
                assert(self@ =~= kept.union_prefer_right(
                    fresh.restrict(entered@.take(at + 1).to_set()),
                ));
            }
            at = at + 1;
        }
        proof {
            assert(entered@.take(entered@.len() as int) == entered@);
            assert(fresh.restrict(fresh.dom()) =~= fresh);
        }
    }

    /// Folds a run of batches into the collection, in the order of receipt.
    pub fn apply_batches(&mut self, batches: Vec<AddRemoveQueues<T>>)
        ensures
            final(self)@ == folded_all(old(self)@, batches@),
    {
        let ghost start = self@;
        for batch in it: batches.into_iter()
            invariant
                it.seq() == batches@,
                self@ == folded_all(start, it.seq().take(it.index() as int)),
        {
            proof {
                let done = it.seq().take(it.index() + 1);
                assert(done.drop_last() == it.seq().take(it.index() as int));
                assert(done.last() == batch);
            }
            self.apply_batch(batch);
        }
        proof {
            assert(batches@.take(batches@.len() as int) == batches@);
        }
    }

    /// One poll cycle: takes the batches that are queued and folds them in.
    /// Returns the number of batches taken.
    pub fn poll(&mut self) -> (received: usize)
        ensures
            exists|batches: Seq<AddRemoveQueues<T>>|
                batches.len() == received && final(self)@ == #[trigger] folded_all(
                    old(self)@,
                    batches,
                ),
    {
        let Drained { messages, disconnected: _ } = self.query_read.drain();
        let received = messages.len();
        self.apply_batches(messages);
        received
    }
}

} // verus!
