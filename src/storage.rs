use vstd::prelude::*;
use vstd::slice::slice_to_vec;
use vstd::string::StringSliceAdditionalSpecFns;

verus! {

/// The kinds of node that the state-tree storage keys are prefixed with.
#[derive(Clone, Copy, Debug, PartialEq, Eq, Structural)]
pub enum StarknetPrefix {
    InnerNode,
    StorageLeaf,
    StateTreeLeaf,
    CompiledClassLeaf,
}

/// The text of each storage prefix.
pub open spec fn prefix_text(p: StarknetPrefix) -> &'static str {
    match p {
        StarknetPrefix::InnerNode => "patricia_node",
        StarknetPrefix::StorageLeaf => "starknet_storage_leaf",
        StarknetPrefix::StateTreeLeaf => "contract_state",
        StarknetPrefix::CompiledClassLeaf => "contract_class_leaf",
    }
}

impl StarknetPrefix {
    /// The prefix's bytes: the UTF-8 encoding of its text.
    pub fn to_bytes(&self) -> (r: &'static [u8])
        ensures
            r@ == prefix_text(*self).spec_bytes(),
    {
        match self {
            StarknetPrefix::InnerNode => "patricia_node".as_bytes(),
            StarknetPrefix::StorageLeaf => "starknet_storage_leaf".as_bytes(),
            StarknetPrefix::StateTreeLeaf => "contract_state".as_bytes(),
            StarknetPrefix::CompiledClassLeaf => "contract_class_leaf".as_bytes(),
        }
    }

    pub fn to_storage_prefix(&self) -> (r: Vec<u8>)
        ensures
            r@ == prefix_text(*self).spec_bytes(),
    {
        slice_to_vec(self.to_bytes())
    }
}

/// A key of the state-tree storage.
#[derive(Debug, PartialEq, Eq, Hash)]
pub struct StorageKey(pub Vec<u8>);

/// A value of the state-tree storage.
#[derive(Debug, PartialEq, Eq)]
pub struct StorageValue(pub Vec<u8>);

/// The key of a node: its prefix, a colon, then its suffix.
pub open spec fn db_key(prefix: Seq<u8>, suffix: Seq<u8>) -> Seq<u8> {
    prefix + seq![58u8] + suffix
}

/// Builds the key of a node from its prefix and suffix.
pub fn create_db_key(prefix: Vec<u8>, suffix: &[u8]) -> (r: StorageKey)
    ensures
        r.0@ == db_key(prefix@, suffix@),
{
    let mut key = prefix;
    key.push(58u8);
    let ghost head = key@;
    let mut i: usize = 0;
    while i < suffix.len()
        invariant
            i <= suffix@.len(),
            head == prefix@ + seq![58u8],
            key@ == head + suffix@.subrange(0, i as int),
        decreases suffix@.len() - i,
    {
        key.push(suffix[i]);
        i = i + 1;
        assert(key@ =~= head + suffix@.subrange(0, i as int));
    }
    assert(suffix@.subrange(0, suffix@.len() as int) =~= suffix@);
    StorageKey(key)
}

/// The lowercase hexadecimal digit of a nibble.
pub open spec fn hex_digit(n: u8) -> char {
    seq!['0', '1', '2', '3', '4', '5', '6', '7', '8', '9', 'a', 'b', 'c', 'd', 'e', 'f'][n as int]
}

/// Two lowercase hexadecimal digits per byte, high nibble first.
pub open spec fn hex_of(b: Seq<u8>) -> Seq<char>
    decreases b.len(),
{
    if b.len() == 0 {
        Seq::empty()
    } else {
        hex_of(b.drop_last()) + seq![hex_digit(b.last() / 16), hex_digit(b.last() % 16)]
    }
}

/// Relies on hex::encode: each byte becomes two lowercase hexadecimal digits,
/// high nibble first, in the order of the bytes.
#[verifier::external_body]
fn encode_hex(bytes: &Vec<u8>) -> (r: String)
    ensures
        r@ == hex_of(bytes@),
{
    hex::encode(bytes)
}

impl StorageKey {
    /// The hexadecimal text under which the key is serialized.
    pub fn to_hex(&self) -> (r: String)
        ensures
            r@ == hex_of(self.0@),
    {
        encode_hex(&self.0)
    }
}

fn same_bytes(a: &Vec<u8>, b: &Vec<u8>) -> (r: bool)
    ensures
        r == (a@ == b@),
{
    if a.len() != b.len() {
        return false;
    }
    let mut i: usize = 0;
    while i < a.len()
        invariant
            a@.len() == b@.len(),
            i <= a@.len(),
            forall|k: int| 0 <= k < i ==> a@[k] == b@[k],
        decreases a@.len() - i,
    {
        if a[i] != b[i] {
            return false;
        }
        i = i + 1;
    }
    assert(a@ =~= b@);
    true
}

/// The keys of `entries` are pairwise distinct.
pub open spec fn keys_distinct(entries: Seq<(Seq<u8>, Seq<u8>)>) -> bool {
    forall|i: int, j: int|
        0 <= i < j < entries.len() ==> (#[trigger] entries[i]).0 != (#[trigger] entries[j]).0
}

/// The map that a list of distinct-key entries stands for.
pub open spec fn entries_map(entries: Seq<(Seq<u8>, Seq<u8>)>) -> Map<Seq<u8>, Seq<u8>>
    decreases entries.len(),
{
    if entries.len() == 0 {
        Map::empty()
    } else {
        entries_map(entries.drop_last()).insert(entries.last().0, entries.last().1)
    }
}

/// An in-memory key-value storage. Its entries are kept as a list whose keys
/// are pairwise distinct.
pub struct MapStorage {
    storage: Vec<(StorageKey, StorageValue)>,
}

pub open spec fn entry_view(e: (StorageKey, StorageValue)) -> (Seq<u8>, Seq<u8>) {
    (e.0.0@, e.1.0@)
}

proof fn lemma_entries_map_lookup(entries: Seq<(Seq<u8>, Seq<u8>)>, i: int)
    requires
        keys_distinct(entries),
        0 <= i < entries.len(),
    ensures
        entries_map(entries).contains_key(entries[i].0),
        entries_map(entries)[entries[i].0] == entries[i].1,
    decreases entries.len(),
{
    let rest = entries.drop_last();
    if i < entries.len() - 1 {
        assert(rest[i] == entries[i]);
        lemma_entries_map_lookup(rest, i);
        assert(entries[i].0 != entries.last().0);
    }
}

proof fn lemma_entries_map_absent(entries: Seq<(Seq<u8>, Seq<u8>)>, k: Seq<u8>)
    requires
        forall|i: int| 0 <= i < entries.len() ==> (#[trigger] entries[i]).0 != k,
    ensures
        !entries_map(entries).contains_key(k),
    decreases entries.len(),
{
    if entries.len() > 0 {
        let rest = entries.drop_last();
        assert forall|i: int| 0 <= i < rest.len() implies (#[trigger] rest[i]).0 != k by {
            assert(rest[i] == entries[i]);
        }
        lemma_entries_map_absent(rest, k);
    }
}

/// Removing the entry at `i` removes its key from the map and nothing else.
proof fn lemma_entries_map_remove(entries: Seq<(Seq<u8>, Seq<u8>)>, i: int)
    requires
        keys_distinct(entries),
        0 <= i < entries.len(),
    ensures
        keys_distinct(entries.remove(i)),
        entries_map(entries.remove(i)) == entries_map(entries).remove(entries[i].0),
    decreases entries.len(),
{
    let rest = entries.drop_last();
    let smaller = entries.remove(i);
    if i == entries.len() - 1 {
        assert(smaller =~= rest);
        assert forall|j: int| 0 <= j < rest.len() implies (#[trigger] rest[j]).0 != entries[i].0 by {
            assert(rest[j] == entries[j]);
        }
        lemma_entries_map_absent(rest, entries[i].0);
        assert(entries_map(smaller) =~= entries_map(entries).remove(entries[i].0));
    } else {
        assert(keys_distinct(rest)) by {
            assert forall|a: int, b: int| 0 <= a < b < rest.len() implies (#[trigger] rest[a]).0
                != (#[trigger] rest[b]).0 by {
                assert(rest[a] == entries[a] && rest[b] == entries[b]);
            }
        }
        lemma_entries_map_remove(rest, i);
        assert(smaller.drop_last() =~= rest.remove(i));
        assert(smaller.last() == entries.last());
        assert(entries[i] == rest[i]);
        assert(entries_map(smaller) =~= entries_map(entries).remove(entries[i].0));
    }
}

impl View for MapStorage {
    type V = Map<Seq<u8>, Seq<u8>>;

    closed spec fn view(&self) -> Map<Seq<u8>, Seq<u8>> {
        entries_map(self.storage@.map_values(|e: (StorageKey, StorageValue)| entry_view(e)))
    }
}

impl MapStorage {
    closed spec fn entries(&self) -> Seq<(Seq<u8>, Seq<u8>)> {
        self.storage@.map_values(|e: (StorageKey, StorageValue)| entry_view(e))
    }

    pub closed spec fn wf(&self) -> bool {
        keys_distinct(self.entries())
    }

    pub fn new() -> (r: MapStorage)
        ensures
            r.wf(),
            r@ == Map::<Seq<u8>, Seq<u8>>::empty(),
    {
        let r = MapStorage { storage: Vec::new() };
        assert(r.entries() =~= Seq::<(Seq<u8>, Seq<u8>)>::empty());
        r
    }

    fn find(&self, key: &StorageKey) -> (r: Option<usize>)
        requires
            self.wf(),
        ensures
            r matches Some(i) ==> i < self.storage@.len() && self.entries()[i as int].0
                == key.0@,
            r is None ==> forall|i: int|
                0 <= i < self.entries().len() ==> (#[trigger] self.entries()[i]).0 != key.0@,
    {
        let mut i: usize = 0;
        while i < self.storage.len()
            invariant
                i <= self.storage@.len(),
                forall|k: int| 0 <= k < i ==> (#[trigger] self.entries()[k]).0 != key.0@,
            decreases self.storage@.len() - i,
        {
            assert(self.entries()[i as int] == entry_view(self.storage@[i as int]));
            if same_bytes(&self.storage[i].0.0, &key.0) {
                return Some(i);
            }
            i = i + 1;
        }
        None
    }

    /// The value stored under `key`, if any.
    pub fn get(&self, key: &StorageKey) -> (r: Option<&StorageValue>)
        requires
            self.wf(),
        ensures
            self@.contains_key(key.0@) ==> (r matches Some(v) && v.0@ == self@[key.0@]),
            !self@.contains_key(key.0@) ==> r is None,
    {
        match self.find(key) {
            Some(i) => {
                proof {
                    lemma_entries_map_lookup(self.entries(), i as int);
                }
                Some(&self.storage[i].1)
            },
            None => {
                proof {
                    lemma_entries_map_absent(self.entries(), key.0@);
                }
                None
            },
        }
    }

    /// Removes the entry of `key` and hands back its value, if there was one.
    pub fn delete(&mut self, key: &StorageKey) -> (r: Option<StorageValue>)
        requires
            old(self).wf(),
        ensures
            final(self).wf(),
            final(self)@ == old(self)@.remove(key.0@),
            old(self)@.contains_key(key.0@) ==> (r matches Some(v) && v.0@ == old(self)@[key.0@]),
            !old(self)@.contains_key(key.0@) ==> r is None,
    {
        match self.find(key) {
            Some(i) => {
                let ghost before = self.entries();
                proof {
                    lemma_entries_map_lookup(before, i as int);
                    lemma_entries_map_remove(before, i as int);
                }
                let (_, v) = self.storage.remove(i);
                assert(self.entries() =~= before.remove(i as int));
                Some(v)
            },
            None => {
                proof {
                    lemma_entries_map_absent(self.entries(), key.0@);
                    assert(self@ =~= self@.remove(key.0@));
                }
                None
            },
        }
    }

    /// Stores `value` under `key` and hands back the value it replaces, if any.
    pub fn set(&mut self, key: StorageKey, value: StorageValue) -> (r: Option<StorageValue>)
        requires
            old(self).wf(),
        ensures
            final(self).wf(),
            final(self)@ == old(self)@.insert(key.0@, value.0@),
            old(self)@.contains_key(key.0@) ==> (r matches Some(v) && v.0@ == old(self)@[key.0@]),
            !old(self)@.contains_key(key.0@) ==> r is None,
    {
        let ghost k = key.0@;
        let ghost before = self@;
        let old_value = self.delete(&key);
        let ghost mid = self.entries();
        proof {
            assert(!self@.contains_key(k));
            if exists|i: int| 0 <= i < mid.len() && (#[trigger] mid[i]).0 == k {
                let i = choose|i: int| 0 <= i < mid.len() && (#[trigger] mid[i]).0 == k;
                lemma_entries_map_lookup(mid, i);
            }
        }
        self.storage.push((key, value));
        assert(self.entries() =~= mid.push((k, value.0@)));
        assert(self.entries().drop_last() =~= mid);
        assert(self@ =~= before.insert(k, value.0@));
        old_value
    }
}

} // verus!
