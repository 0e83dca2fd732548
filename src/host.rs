//! The read/write protocol against the in-process simulated host, and the
//! interpretation of what the real boundary reports.

use crate::buffer::{bytes_as_slice, bytes_copy_from_slice, bytes_view};
use crate::order::{compare_bytes, lemma_lex_irreflexive, lemma_lex_total, lemma_lex_transitive, lex_lt};
use std::collections::BTreeMap;
use vstd::prelude::*;

verus! {

broadcast use {vstd::laws_cmp::group_laws_cmp, vstd::std_specs::btree::group_btree_axioms};

/// The tag and bytes stored under `key` in keyspace `key_space`, if any.
pub open spec fn stored(s: StoreView, key_space: u64, key: Seq<u8>) -> Option<(u64, Seq<u8>)> {
    if s.contains_key((key_space, key)) {
        Some(s[(key_space, key)])
    } else {
        None
    }
}

/// The store after `value` was written with `tag` under `key` in
/// `key_space`: that one entry replaced whole, every other one untouched.
pub open spec fn written(s: StoreView, key_space: u64, key: Seq<u8>, tag: u64, value: Seq<u8>) -> StoreView {
    s.insert((key_space, key), (tag, value))
}

/// A failure of the boundary itself to complete an operation.
#[derive(Debug, Clone, Copy, PartialEq, Eq, Structural)]
pub enum Error {
    Transport,
}

/// The result of a successful read: the tag stored with the value, and the
/// destination that the caller's sizer handed out, now holding the value.
#[derive(Debug)]
pub struct Entry {
    pub tag: u64,
    pub data: Vec<u8>,
}

/// What a store holds: for a keyspace and a key, the tag and the bytes.
pub type StoreView = Map<(u64, Seq<u8>), (u64, Seq<u8>)>;

struct TaggedValue {
    tag: u64,
    value: bytes::Bytes,
}

spec fn key_of(e: (bytes::Bytes, TaggedValue)) -> Seq<u8> {
    bytes_view(e.0)
}

spec fn value_of(e: (bytes::Bytes, TaggedValue)) -> (u64, Seq<u8>) {
    (e.1.tag, bytes_view(e.1.value))
}

/// The stored values of one keyspace, kept sorted by key.
struct KeySpace {
    entries: Vec<(bytes::Bytes, TaggedValue)>,
    model: Ghost<Map<Seq<u8>, (u64, Seq<u8>)>>,
}

impl KeySpace {
    spec fn wf(&self) -> bool {
        &&& forall|i: int, j: int|
            0 <= i < j < self.entries@.len() ==> lex_lt(
                #[trigger] key_of(self.entries@[i]),
                #[trigger] key_of(self.entries@[j]),
            )
        &&& forall|i: int|
            0 <= i < self.entries@.len() ==> {
                &&& self.model@.contains_key(#[trigger] key_of(self.entries@[i]))
                &&& self.model@[key_of(self.entries@[i])] == value_of(self.entries@[i])
            }
        &&& forall|k: Seq<u8>|
            #[trigger] self.model@.contains_key(k) ==> exists|i: int|
                0 <= i < self.entries@.len() && #[trigger] key_of(self.entries@[i]) == k
    }

    fn new() -> (r: KeySpace)
        ensures
            r.wf(),
            r.model@ == Map::<Seq<u8>, (u64, Seq<u8>)>::empty(),
    {
        KeySpace { entries: Vec::new(), model: Ghost(Map::empty()) }
    }

    /// The stored value for `key`, if there is one.
    fn get(&self, key: &[u8]) -> (r: Option<&TaggedValue>)
        requires
            self.wf(),
        ensures
            r matches Some(tv) ==> self.model@.contains_key(key@) && self.model@[key@] == (
                tv.tag,
                bytes_view(tv.value),
            ),
            r is None ==> !self.model@.contains_key(key@),
    {
        match self.find(key) {
            Some(i) => Some(&self.entries[i].1),
            None => None,
        }
    }

    /// Position of the entry for `key`, if there is one.
    fn find(&self, key: &[u8]) -> (r: Option<usize>)
        requires
            self.wf(),
        ensures
            r matches Some(i) ==> i < self.entries@.len() && key_of(self.entries@[i as int]) == key@,
            r is None ==> !self.model@.contains_key(key@),
    {
        let mut i: usize = 0;
        while i < self.entries.len()
            invariant
                self.wf(),
                0 <= i <= self.entries@.len(),
                forall|j: int| 0 <= j < i ==> key_of(#[trigger] self.entries@[j]) != key@,
            decreases self.entries@.len() - i,
        {
            let k = bytes_as_slice(&self.entries[i].0);
            if matches!(compare_bytes(k, key), core::cmp::Ordering::Equal) {
                return Some(i);
            }
            i = i + 1;
        }
        None
    }

    /// Stores `value` with `tag` under `key`, replacing what was there.
    fn put(&mut self, key: &[u8], tag: u64, value: &[u8])
        requires
            old(self).wf(),
        ensures
            final(self).wf(),
            final(self).model@ == old(self).model@.insert(key@, (tag, value@)),
    {
        let ghost old_entries = self.entries@;
        let mut i: usize = 0;
        while i < self.entries.len()
            invariant
                self.wf(),
                self.entries@ == old_entries,
                0 <= i <= self.entries@.len(),
                forall|j: int| 0 <= j < i ==> lex_lt(key_of(#[trigger] self.entries@[j]), key@),
            ensures
                self.wf(),
                self.entries@ == old_entries,
                0 <= i <= self.entries@.len(),
                forall|j: int| 0 <= j < i ==> lex_lt(key_of(#[trigger] self.entries@[j]), key@),
                i < self.entries@.len() ==> !lex_lt(key_of(self.entries@[i as int]), key@),
            decreases self.entries@.len() - i,
        {
            let k = bytes_as_slice(&self.entries[i].0);
            if !matches!(compare_bytes(k, key), core::cmp::Ordering::Less) {
                break;
            }
            i = i + 1;
        }
        let entry = (
            bytes_copy_from_slice(key),
            TaggedValue { tag, value: bytes_copy_from_slice(value) },
        );
        let same = i < self.entries.len() && matches!(
            compare_bytes(bytes_as_slice(&self.entries[i].0), key),
            core::cmp::Ordering::Equal
        );
        let ghost new_model = self.model@.insert(key@, (tag, value@));
        if same {
            self.entries.set(i, entry);
            self.model = Ghost(new_model);
            assert forall|j: int| 0 <= j < self.entries@.len() && j != i implies key_of(
                #[trigger] self.entries@[j],
            ) != key@ by {
                if j < i {
                    lemma_lex_irreflexive(key@);
                } else {
                    assert(lex_lt(key_of(old_entries[i as int]), key_of(old_entries[j])));
                    lemma_lex_irreflexive(key@);
                }
            }
            assert forall|k: Seq<u8>| #[trigger] self.model@.contains_key(k) implies exists|j: int|
                0 <= j < self.entries@.len() && #[trigger] key_of(self.entries@[j]) == k by {
                if k != key@ {
                    let j = choose|j: int|
                        0 <= j < old_entries.len() && #[trigger] key_of(old_entries[j]) == k;
                    assert(key_of(self.entries@[j]) == k);
                } else {
                    assert(key_of(self.entries@[i as int]) == k);
                }
            }
        } else {
            proof {
                if i < old_entries.len() {
                    lemma_lex_total(key_of(old_entries[i as int]), key@);
                }
            }
            self.entries.insert(i, entry);
            self.model = Ghost(new_model);
            assert forall|a: int, b: int| 0 <= a < b < self.entries@.len() implies lex_lt(
                #[trigger] key_of(self.entries@[a]),
                #[trigger] key_of(self.entries@[b]),
            ) by {
                if b < i {
                } else if a < i && b == i {
                } else if a < i && b > i {
                    assert(self.entries@[b] == old_entries[b - 1]);
                } else if a == i {
                    assert(self.entries@[b] == old_entries[b - 1]);
                    if b - 1 > i {
                        assert(lex_lt(key_of(old_entries[i as int]), key_of(old_entries[b - 1])));
                        lemma_lex_transitive(key@, key_of(old_entries[i as int]), key_of(old_entries[b - 1]));
                    }
                } else {
                    assert(self.entries@[a] == old_entries[a - 1]);
                    assert(self.entries@[b] == old_entries[b - 1]);
                }
            }
            assert forall|j: int| 0 <= j < self.entries@.len() implies {
                &&& self.model@.contains_key(#[trigger] key_of(self.entries@[j]))
                &&& self.model@[key_of(self.entries@[j])] == value_of(self.entries@[j])
            } by {
                if j < i {
                    lemma_lex_irreflexive(key@);
                } else if j > i {
                    assert(self.entries@[j] == old_entries[j - 1]);
                    assert(key_of(self.entries@[i as int]) == key@);
                    assert(lex_lt(key_of(self.entries@[i as int]), key_of(self.entries@[j])));
                    lemma_lex_irreflexive(key@);
                }
            }
            assert forall|k: Seq<u8>| #[trigger] self.model@.contains_key(k) implies exists|j: int|
                0 <= j < self.entries@.len() && #[trigger] key_of(self.entries@[j]) == k by {
                if k != key@ {
                    let j = choose|j: int|
                        0 <= j < old_entries.len() && #[trigger] key_of(old_entries[j]) == k;
                    if j < i {
                        assert(key_of(self.entries@[j]) == k);
                    } else {
                        assert(self.entries@[j + 1] == old_entries[j]);
                        assert(key_of(self.entries@[j + 1]) == k);
                    }
                } else {
                    assert(key_of(self.entries@[i as int]) == k);
                }
            }
        }
    }
}

/// The simulated host: every keyspace with its stored values, held in this
/// process for the lifetime of one execution context.
pub struct LocalKV {
    db: BTreeMap<u64, KeySpace>,
}

impl View for LocalKV {
    type V = StoreView;

    closed spec fn view(&self) -> StoreView {
        Map::new(
            |p: (u64, Seq<u8>)| self.db@.contains_key(p.0) && self.db@[p.0].model@.contains_key(p.1),
            |p: (u64, Seq<u8>)| self.db@[p.0].model@[p.1],
        )
    }
}

impl LocalKV {
    /// Each keyspace keeps its entries sorted by key, with the model that
    /// the view reads in step with them.
    pub closed spec fn wf(&self) -> bool {
        forall|ks: u64| #[trigger] self.db@.contains_key(ks) ==> self.db@[ks].wf()
    }

    /// An empty store.
    pub fn new() -> (r: LocalKV)
        ensures
            r.wf(),
            r@ == StoreView::empty(),
    {
        let r = LocalKV { db: BTreeMap::new() };
        assert(r@ =~= StoreView::empty());
        r
    }

    fn lookup(&self, key_space: u64, key: &[u8]) -> (r: Option<&TaggedValue>)
        requires
            self.wf(),
        ensures
            r matches Some(tv) ==> stored(self@, key_space, key@) == Some(
                (tv.tag, bytes_view(tv.value)),
            ),
            r is None ==> stored(self@, key_space, key@) is None,
    {
        match self.db.get(&key_space) {
            Some(space) => space.get(key),
            None => None,
        }
    }

    fn put(&mut self, key_space: u64, key: &[u8], tag: u64, value: &[u8])
        requires
            old(self).wf(),
        ensures
            final(self).wf(),
            final(self)@ == written(old(self)@, key_space, key@, tag, value@),
    {
        let mut space = match self.db.remove(&key_space) {
            Some(space) => space,
            None => KeySpace::new(),
        };
        space.put(key, tag, value);
        self.db.insert(key_space, space);
        assert(self@ =~= written(old(self)@, key_space, key@, tag, value@));
    }
}

impl Default for LocalKV {
    fn default() -> (r: LocalKV)
        ensures
            r.wf(),
            r@ == StoreView::empty(),
    {
        LocalKV::new()
    }
}

/// Stores `value` with `value_tag` under `key` in `key_space`, replacing
/// whole whatever was stored there. The simulated host never fails.
pub fn write(kv: &mut LocalKV, key_space: u64, key: &[u8], value_tag: u64, value: &[u8]) -> (r: Result<(), Error>)
    requires
        old(kv).wf(),
    ensures
        final(kv).wf(),
        r == Ok::<(), Error>(()),
        final(kv)@ == written(old(kv)@, key_space, key@, value_tag, value@),
{
    kv.put(key_space, key, value_tag, value);
    Ok(())
}

/// Reads the value stored under `key` in `key_space`.
///
/// On a miss the result is `Ok(None)` and `sizer` is dropped uncalled. On a
/// hit `sizer` is called once, with the value's length, and the buffer it
/// hands out receives exactly the value's bytes; the entry returns that
/// buffer to the caller together with the value's tag.
pub fn read<F: FnOnce(usize) -> Vec<u8>>(kv: &LocalKV, key_space: u64, key: &[u8], sizer: F) -> (r: Result<Option<Entry>, Error>)
    requires
        kv.wf(),
        forall|n: usize| #[trigger] call_requires(sizer, (n,)),
    ensures
        stored(kv@, key_space, key@) is None ==> r matches Ok(None),
        stored(kv@, key_space, key@) matches Some((tag, value)) ==> r matches Ok(Some(e)) && e.tag
            == tag && e.data@ == value,
        stored(kv@, key_space, key@) matches Some((tag, value)) ==> exists|d: Vec<u8>|
            #[trigger] call_ensures(sizer, (value.len() as usize,), d),
{
    match kv.lookup(key_space, key) {
        None => Ok(None),
        Some(tv) => {
            let src = bytes_as_slice(&tv.value);
            let mut dest = sizer(src.len());
            let ghost given = dest;
            dest.clear();
            let mut i: usize = 0;
            while i < src.len()
                invariant
                    0 <= i <= src@.len(),
                    dest@ == src@.subrange(0, i as int),
                decreases src@.len() - i,
            {
                dest.push(src[i]);
                i = i + 1;
                assert(dest@ =~= src@.subrange(0, i as int));
            }
            assert(src@ =~= src@.subrange(0, src@.len() as int));
            let ghost hit = stored(kv@, key_space, key@)->0;
            assert(call_ensures(sizer, (hit.1.len() as usize,), given));
            Ok(Some(Entry { tag: tv.tag, data: dest }))
        }
    }
}

/// How many bytes `read_into` copies: the value's length, cut to the
/// destination's.
pub open spec fn filled_len(value: Seq<u8>, destination: Seq<u8>) -> int {
    if value.len() <= destination.len() {
        value.len() as int
    } else {
        destination.len() as int
    }
}

/// Reads the value stored under `key` in `key_space` into `destination`.
///
/// On a miss nothing is written and the result is `None`. On a hit the
/// first `filled_len` bytes of the value are copied to the front of
/// `destination`, the rest of it is left as it was, and the filled part is
/// returned: a destination shorter than the value receives a truncated copy.
pub fn read_into<'a>(kv: &LocalKV, key_space: u64, key: &[u8], destination: &'a mut [u8]) -> (r: Option<&'a [u8]>)
    requires
        kv.wf(),
    ensures
        stored(kv@, key_space, key@) is None ==> r is None && final(destination)@ == old(destination)@,
        stored(kv@, key_space, key@) matches Some((tag, value)) ==> {
            let n = filled_len(value, old(destination)@);
            &&& r matches Some(s) && s@ == value.subrange(0, n)
            &&& final(destination)@ == value.subrange(0, n) + old(destination)@.skip(n)
        },
{
    match kv.lookup(key_space, key) {
        None => None,
        Some(tv) => {
            let src = bytes_as_slice(&tv.value);
            let n = if src.len() <= destination.len() {
                src.len()
            } else {
                destination.len()
            };
            let ghost d0 = destination@;
            let mut i: usize = 0;
            while i < n
                invariant
                    n == filled_len(src@, d0),
                    0 <= i <= n,
                    destination@.len() == d0.len(),
                    destination@ == src@.subrange(0, i as int) + d0.skip(i as int),
                decreases n - i,
            {
                destination[i] = src[i];
                i = i + 1;
                assert(destination@ =~= src@.subrange(0, i as int) + d0.skip(i as int));
            }
            let filled: &'a [u8] = destination;
            Some(vstd::slice::slice_subrange(filled, 0, n))
        }
    }
}

/// Status of the boundary's read entry point: a value was found and copied.
pub const READ_FOUND: i32 = 0;

/// Status of the boundary's read entry point: no value under that key.
pub const READ_NOT_FOUND: i32 = 1;

/// Status of the boundary's write entry point: the value was stored.
pub const WRITE_OK: i32 = 0;

/// What the real host reports of a value it found: its length and its tag.
#[derive(Debug, Clone, Copy, PartialEq, Eq, Structural)]
pub struct ReadInfo {
    pub size: usize,
    pub tag: u64,
}

/// Turns what the boundary's read entry point reported into the result of a
/// read: its status, the size and tag it filled in, and the destination the
/// sizer handed out if the host asked for one.
///
/// A found value is a result only if the host asked for a destination and
/// that destination holds exactly the reported size; a miss only if it asked
/// for none. Anything else, and any other status, is a transport failure.
pub fn read_outcome(status: i32, info: ReadInfo, destination: Option<Vec<u8>>) -> (r: Result<Option<Entry>, Error>)
    ensures
        r matches Ok(None) <==> (status == READ_NOT_FOUND && destination is None),
        r matches Ok(Some(e)) <==> (status == READ_FOUND && (destination matches Some(d)
            && d@.len() == info.size)),
        r matches Ok(Some(e)) ==> e.tag == info.tag && destination == Some(e.data),
        r is Err ==> r matches Err(Error::Transport),
{
    if status == READ_FOUND {
        match destination {
            Some(data) => {
                if data.len() == info.size {
                    Ok(Some(Entry { tag: info.tag, data }))
                } else {
                    Err(Error::Transport)
                }
            },
            None => Err(Error::Transport),
        }
    } else if status == READ_NOT_FOUND {
        match destination {
            Some(_) => Err(Error::Transport),
            None => Ok(None),
        }
    } else {
        Err(Error::Transport)
    }
}

/// Turns the status of the boundary's write entry point into the result of
/// a write.
pub fn write_outcome(status: i32) -> (r: Result<(), Error>)
    ensures
        r is Ok <==> status == WRITE_OK,
        r is Err ==> r == Err::<(), Error>(Error::Transport),
{
    if status == WRITE_OK {
        Ok(())
    } else {
        Err(Error::Transport)
    }
}

/// A value written under a key is what a read of that key then finds, tag
/// and bytes alike.
pub proof fn lemma_round_trip(s: StoreView, key_space: u64, key: Seq<u8>, tag: u64, value: Seq<u8>)
    ensures
        stored(written(s, key_space, key, tag, value), key_space, key) == Some((tag, value)),
{
}

/// A key that was never written is not found: the empty store holds
/// nothing, and a write under another key leaves a missing key missing.
pub proof fn lemma_miss_before_write(
    s: StoreView,
    key_space: u64,
    key: Seq<u8>,
    other_space: u64,
    other_key: Seq<u8>,
    tag: u64,
    value: Seq<u8>,
)
    requires
        stored(s, key_space, key) is None,
        (other_space, other_key) != (key_space, key),
    ensures
        stored(StoreView::empty(), key_space, key) is None,
        stored(written(s, other_space, other_key, tag, value), key_space, key) is None,
{
}

/// A second write under a key replaces the first whole: a read finds the
/// second tag with the second bytes.
pub proof fn lemma_overwrite_replaces(
    s: StoreView,
    key_space: u64,
    key: Seq<u8>,
    tag1: u64,
    value1: Seq<u8>,
    tag2: u64,
    value2: Seq<u8>,
)
    ensures
        stored(
            written(written(s, key_space, key, tag1, value1), key_space, key, tag2, value2),
            key_space,
            key,
        ) == Some((tag2, value2)),
{
}

/// Keyspaces are independent: a write in one keyspace changes nothing that
/// a read in another finds, whatever the keys.
pub proof fn lemma_keyspace_isolation(
    s: StoreView,
    key_space: u64,
    key: Seq<u8>,
    tag: u64,
    value: Seq<u8>,
    other_space: u64,
    other_key: Seq<u8>,
)
    requires
        other_space != key_space,
    ensures
        stored(written(s, key_space, key, tag, value), other_space, other_key) == stored(
            s,
            other_space,
            other_key,
        ),
{
}

/// An empty value is stored like any other: a read finds the tag and no
/// bytes.
pub proof fn lemma_empty_value(s: StoreView, key_space: u64, key: Seq<u8>, tag: u64)
    ensures
        stored(written(s, key_space, key, tag, Seq::empty()), key_space, key) == Some(
            (tag, Seq::<u8>::empty()),
        ),
{
}

/// A sizer for `read`: a fresh buffer with room for `size` bytes.
pub fn reserve_vec_space(size: usize) -> (r: Vec<u8>)
    ensures
        r@.len() == 0,
{
    Vec::with_capacity(size)
}

} // verus!
