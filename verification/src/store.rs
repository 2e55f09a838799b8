//! The grouping store: identifiers gathered under the folder they will be
//! saved in, each at most once per folder.

use crate::ident::ItemIdentifier;
use vstd::prelude::*;

verus! {

/// The identifiers gathered for one folder.
#[derive(Clone, Debug, PartialEq, Eq)]
pub struct Group {
    pub key: String,
    pub members: Vec<ItemIdentifier>,
}

/// Whether some group of the list has the key.
pub open spec fn has_key(groups: Seq<Group>, key: Seq<char>) -> bool {
    exists|i: int| 0 <= i < groups.len() && (#[trigger] groups[i]).key@ == key
}

/// An index at which a group with the key stands, where there is one.
pub open spec fn key_index(groups: Seq<Group>, key: Seq<char>) -> int {
    choose|i: int| 0 <= i < groups.len() && (#[trigger] groups[i]).key@ == key
}

/// No key occurs twice in the list, and no identifier twice in a group.
pub open spec fn no_duplicates(groups: Seq<Group>) -> bool {
    &&& forall|i: int, j: int|
        0 <= i < j < groups.len() ==> (#[trigger] groups[i]).key@ != (#[trigger] groups[j]).key@
    &&& forall|i: int| 0 <= i < groups.len() ==> (#[trigger] groups[i]).members@.no_duplicates()
}

/// The mapping that a list of groups stands for: from each key to the set of
/// its group's identifiers.
pub open spec fn groups_map(groups: Seq<Group>) -> Map<Seq<char>, Set<ItemIdentifier>> {
    Map::new(
        |key: Seq<char>| has_key(groups, key),
        |key: Seq<char>| groups[key_index(groups, key)].members@.to_set(),
    )
}

/// The store after `members` were merged into the set under `key`; the entry
/// is created where it was absent.
pub open spec fn ingested(
    store: Map<Seq<char>, Set<ItemIdentifier>>,
    key: Seq<char>,
    members: Set<ItemIdentifier>,
) -> Map<Seq<char>, Set<ItemIdentifier>> {
    if store.contains_key(key) {
        store.insert(key, store[key].union(members))
    } else {
        store.insert(key, members)
    }
}

/// What is left in a store that is drained, and what is handed out: nothing is
/// left, and all that was held is handed out.
pub open spec fn drained(store: Map<Seq<char>, Set<ItemIdentifier>>) -> (
    Map<Seq<char>, Set<ItemIdentifier>>,
    Map<Seq<char>, Set<ItemIdentifier>>,
) {
    (Map::empty(), store)
}

/// Groups keyed by folder. Within a group no identifier occurs twice, however
/// many collections named it.
#[derive(Debug)]
pub struct GroupingStore {
    groups: Vec<Group>,
}

/// In a list without duplicate keys a key is found where it stands.
proof fn lemma_key_index(groups: Seq<Group>, i: int)
    requires
        no_duplicates(groups),
        0 <= i < groups.len(),
    ensures
        has_key(groups, groups[i].key@),
        key_index(groups, groups[i].key@) == i,
{
    let key = groups[i].key@;
    let found = key_index(groups, key);
    if found < i {
        assert(groups[found].key@ != groups[i].key@);
    } else if i < found {
        assert(groups[i].key@ != groups[found].key@);
    }
}

/// The index of the group with the key, if there is one.
fn find_group(groups: &Vec<Group>, key: &String) -> (at: Option<usize>)
    requires
        no_duplicates(groups@),
    ensures
        match at {
            Some(i) => i < groups.len() && groups[i as int].key@ == key@ && key_index(
                groups@,
                key@,
            ) == i,
            None => !has_key(groups@, key@),
        },
{
    let mut i: usize = 0;
    while i < groups.len()
        invariant
            i <= groups.len(),
            no_duplicates(groups@),
            forall|j: int| 0 <= j < i ==> (#[trigger] groups[j]).key@ != key@,
        decreases groups.len() - i,
    {
        if groups[i].key == *key {
            proof {
                lemma_key_index(groups@, i as int);
            }
            return Some(i);
        }
        i += 1;
    }
    None
}

/// Whether the list holds the identifier.
fn holds(members: &Vec<ItemIdentifier>, id: ItemIdentifier) -> (yes: bool)
    ensures
        yes == members@.contains(id),
{
    let mut i: usize = 0;
    while i < members.len()
        invariant
            i <= members.len(),
            forall|j: int| 0 <= j < i ==> members[j] != id,
        decreases members.len() - i,
    {
        if members[i] == id {
            return true;
        }
        i += 1;
    }
    false
}

/// Adds to `into` each identifier of `from` that it does not hold yet.
fn merge_members(into: &mut Vec<ItemIdentifier>, from: &Vec<ItemIdentifier>)
    requires
        old(into)@.no_duplicates(),
    ensures
        final(into)@.no_duplicates(),
        final(into)@.to_set() == old(into)@.to_set().union(from@.to_set()),
{
    let mut i: usize = 0;
    while i < from.len()
        invariant
            i <= from.len(),
            into@.no_duplicates(),
            into@.to_set() == old(into)@.to_set().union(from@.take(i as int).to_set()),
        decreases from.len() - i,
    {
        let id = from[i];
        let ghost before = into@;
        proof {
            let seen = from@.take(i + 1);
            assert(seen =~= from@.take(i as int).push(id));
            from@.take(i as int).lemma_push_to_set_commute(id);
            before.lemma_push_to_set_commute(id);
        }
        if !holds(into, id) {
            into.push(id);
            assert(into@.to_set() =~= old(into)@.to_set().union(from@.take(i + 1).to_set()));
        } else {
            assert(before.to_set().contains(id));
            assert(into@.to_set() =~= old(into)@.to_set().union(from@.take(i + 1).to_set()));
        }
        i += 1;
    }
    proof {
        assert(from@.take(i as int) =~= from@);
    }
}

impl View for GroupingStore {
    type V = Map<Seq<char>, Set<ItemIdentifier>>;

    closed spec fn view(&self) -> Map<Seq<char>, Set<ItemIdentifier>> {
        groups_map(self.groups@)
    }
}

impl GroupingStore {
    #[verifier::type_invariant]
    closed spec fn well_formed(&self) -> bool {
        no_duplicates(self.groups@)
    }

    /// A store without groups.
    pub fn new() -> (store: GroupingStore)
        ensures
            store@ == Map::<Seq<char>, Set<ItemIdentifier>>::empty(),
    {
        let store = GroupingStore { groups: Vec::new() };
        assert(store@ =~= Map::<Seq<char>, Set<ItemIdentifier>>::empty());
        store
    }

    /// Whether the store has no group.
    pub fn is_empty(&self) -> (empty: bool)
        ensures
            empty == (self@ == Map::<Seq<char>, Set<ItemIdentifier>>::empty()),
    {
        let empty = self.groups.len() == 0;
        proof {
            if empty {
                assert(self@ =~= Map::<Seq<char>, Set<ItemIdentifier>>::empty());
            } else {
                assert(has_key(self.groups@, self.groups[0].key@));
                assert(self@.contains_key(self.groups[0].key@));
            }
        }
        empty
    }

    /// Merges `members` into the set stored under `key`, creating the entry
    /// where it is absent.
    pub fn ingest(&mut self, key: String, members: &Vec<ItemIdentifier>)
        ensures
            final(self)@ == ingested(old(self)@, key@, members@.to_set()),
    {
        proof {
            use_type_invariant(&*self);
        }
        let ghost before = self.groups@;
        let mut groups: Vec<Group> = Vec::new();
        std::mem::swap(&mut self.groups, &mut groups);
        match find_group(&groups, &key) {
            Some(i) => {
                let mut taken = groups.remove(i);
                merge_members(&mut taken.members, members);
                groups.insert(i, taken);
                proof {
                    let after = groups@;
                    assert forall|j: int| 0 <= j < after.len() implies (#[trigger] after[j]).key@
                        == before[j].key@ by {}
                    assert(no_duplicates(after)) by {
                        assert forall|j: int, k: int| 0 <= j < k < after.len() implies (
                        #[trigger] after[j]).key@ != (#[trigger] after[k]).key@ by {
                            assert(before[j].key@ != before[k].key@);
                        }
                        assert forall|j: int| 0 <= j < after.len() implies (
                        #[trigger] after[j]).members@.no_duplicates() by {
                            if j != i {
                                assert(after[j] == before[j]);
                            }
                        }
                    }
                    assert forall|k: Seq<char>| has_key(after, k) == has_key(before, k) by {
                        if has_key(after, k) {
                            let j = key_index(after, k);
                            assert(before[j].key@ == k);
                        }
                        if has_key(before, k) {
                            let j = key_index(before, k);
                            assert(after[j].key@ == k);
                        }
                    }
                    lemma_key_index(before, i as int);
                    assert forall|k: Seq<char>| has_key(after, k) implies groups_map(after)[k]
                        == ingested(groups_map(before), key@, members@.to_set())[k] by {
                        let j = key_index(after, k);
                        lemma_key_index(after, j);
                        lemma_key_index(before, j);
                        if j != i {
                            assert(after[j] == before[j]);
                        }
                    }
                    assert(groups_map(after) =~= ingested(
                        groups_map(before),
                        key@,
                        members@.to_set(),
                    ));
                }
            },
            None => {
                let mut fresh: Vec<ItemIdentifier> = Vec::new();
                merge_members(&mut fresh, members);
                groups.push(Group { key, members: fresh });
                proof {
                    let after = groups@;
                    let last = after.len() - 1;
                    assert(fresh@.to_set() =~= members@.to_set());
                    assert(no_duplicates(after)) by {
                        assert forall|j: int, k: int| 0 <= j < k < after.len() implies (
                        #[trigger] after[j]).key@ != (#[trigger] after[k]).key@ by {
                            assert(after[j] == before[j]);
                            if k < last {
                                assert(after[k] == before[k]);
                            }
                        }
                        assert forall|j: int| 0 <= j < after.len() implies (
                        #[trigger] after[j]).members@.no_duplicates() by {
                            if j < last {
                                assert(after[j] == before[j]);
                            }
                        }
                    }
                    assert(after[last].key@ == key@);
                    assert forall|k: Seq<char>| has_key(after, k) == (has_key(before, k) || k
                        == key@) by {
                        if has_key(after, k) && k != key@ {
                            let j = key_index(after, k);
                            assert(before[j].key@ == k);
                        }
                        if has_key(before, k) {
                            let j = key_index(before, k);
                            assert(after[j].key@ == k);
                        }
                    }
                    assert forall|k: Seq<char>| has_key(after, k) implies groups_map(after)[k]
                        == ingested(groups_map(before), key@, members@.to_set())[k] by {
                        let j = key_index(after, k);
                        lemma_key_index(after, j);
                        if j < last {
                            assert(after[j] == before[j]);
                            lemma_key_index(before, j);
                        }
                    }
                    assert(groups_map(after) =~= ingested(
                        groups_map(before),
                        key@,
                        members@.to_set(),
                    ));
                }
            },
        }
        self.groups = groups;
    }

    /// Empties the store and hands out what it held, one group per key.
    pub fn drain(&mut self) -> (groups: Vec<Group>)
        ensures
            (final(self)@, groups_map(groups@)) == drained(old(self)@),
            no_duplicates(groups@),
            old(self)@ == Map::<Seq<char>, Set<ItemIdentifier>>::empty() ==> groups@.len() == 0,
    {
        proof {
            use_type_invariant(&*self);
        }
        let mut groups: Vec<Group> = Vec::new();
        std::mem::swap(&mut self.groups, &mut groups);
        proof {
            assert(self@ =~= Map::<Seq<char>, Set<ItemIdentifier>>::empty());
            if groups_map(groups@) == Map::<Seq<char>, Set<ItemIdentifier>>::empty() {
                lemma_empty_mapping_has_no_groups(groups@);
            }
        }
        groups
    }
}

/// Merging two collections into one key, one after the other, leaves what
/// merging their union leaves: an identifier that both name is held once.
pub proof fn lemma_ingest_twice(
    store: Map<Seq<char>, Set<ItemIdentifier>>,
    key: Seq<char>,
    first: Set<ItemIdentifier>,
    second: Set<ItemIdentifier>,
)
    ensures
        ingested(ingested(store, key, first), key, second) == ingested(
            store,
            key,
            first.union(second),
        ),
{
    let once = ingested(store, key, first);
    assert(once.contains_key(key));
    if store.contains_key(key) {
        assert(store[key].union(first).union(second) =~= store[key].union(first.union(second)));
    }
    assert(ingested(once, key, second) =~= ingested(store, key, first.union(second)));
}

/// Draining twice in a row: the second drain hands out nothing, and leaves
/// nothing.
pub proof fn lemma_second_drain_is_empty(store: Map<Seq<char>, Set<ItemIdentifier>>)
    ensures
        drained(drained(store).0).1 == Map::<Seq<char>, Set<ItemIdentifier>>::empty(),
        drained(drained(store).0).0 == Map::<Seq<char>, Set<ItemIdentifier>>::empty(),
{
}

/// A list of groups that stands for the empty mapping has no group.
pub proof fn lemma_empty_mapping_has_no_groups(groups: Seq<Group>)
    requires
        groups_map(groups) == Map::<Seq<char>, Set<ItemIdentifier>>::empty(),
    ensures
        groups.len() == 0,
{
    if groups.len() > 0 {
        assert(has_key(groups, groups[0].key@));
        assert(groups_map(groups).contains_key(groups[0].key@));
    }
}

/// Merging into one key leaves every other key as it was.
pub proof fn lemma_ingest_keeps_others(
    store: Map<Seq<char>, Set<ItemIdentifier>>,
    key: Seq<char>,
    members: Set<ItemIdentifier>,
    other: Seq<char>,
)
    requires
        other != key,
    ensures
        ingested(store, key, members).contains_key(other) == store.contains_key(other),
        store.contains_key(other) ==> ingested(store, key, members)[other] == store[other],
{
}

/// A drained list holds each of its keys in one group, and each identifier of
/// a group once.
pub proof fn lemma_one_entry_each(groups: Seq<Group>, i: int, id: ItemIdentifier)
    requires
        no_duplicates(groups),
        0 <= i < groups.len(),
        groups[i].members@.contains(id),
    ensures
        groups_map(groups)[groups[i].key@].contains(id),
        groups[i].members@.filter(|m: ItemIdentifier| m == id).len() == 1,
        forall|j: int| 0 <= j < groups.len() && groups[j].key@ == groups[i].key@ ==> j == i,
{
    lemma_key_index(groups, i);
    assert forall|j: int| 0 <= j < groups.len() && groups[j].key@ == groups[i].key@ implies j
        == i by {
        lemma_key_index(groups, j);
    }
    lemma_filter_one(groups[i].members@, id);
}

/// In a sequence without duplicates an element that occurs, occurs once.
proof fn lemma_filter_one(members: Seq<ItemIdentifier>, id: ItemIdentifier)
    requires
        members.no_duplicates(),
        members.contains(id),
    ensures
        members.filter(|m: ItemIdentifier| m == id).len() == 1,
    decreases members.len(),
{
    let same = |m: ItemIdentifier| m == id;
    reveal(Seq::filter);
    if members.len() > 0 {
        let rest = members.drop_last();
        if members.last() == id {
            assert(!rest.contains(id)) by {
                if rest.contains(id) {
                    let k = choose|k: int| 0 <= k < rest.len() && rest[k] == id;
                    assert(members[k] == members[members.len() - 1]);
                }
            }
            lemma_filter_none(rest, id);
        } else {
            let k = choose|k: int| 0 <= k < members.len() && members[k] == id;
            assert(rest[k] == id);
            lemma_filter_one(rest, id);
        }
    }
}

/// Filtering for an element that does not occur leaves nothing.
proof fn lemma_filter_none(members: Seq<ItemIdentifier>, id: ItemIdentifier)
    requires
        !members.contains(id),
    ensures
        members.filter(|m: ItemIdentifier| m == id).len() == 0,
    decreases members.len(),
{
    reveal(Seq::filter);
    if members.len() > 0 {
        let rest = members.drop_last();
        assert(members[members.len() - 1] != id);
        assert(!rest.contains(id)) by {
            if rest.contains(id) {
                let k = choose|k: int| 0 <= k < rest.len() && rest[k] == id;
                assert(members[k] == id);
            }
        }
        lemma_filter_none(rest, id);
    }
}

} // verus!
