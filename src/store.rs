//! The record store: pastes held in memory, keyed by identifier.

use crate::gate::{byte_len, MAX_PASTE_BYTES};
use vstd::prelude::*;

verus! {

/// What the store holds for one paste.
pub struct PasteRecord {
    pub content: Seq<char>,
    pub created_at: u64,
    pub modified_at: u64,
}

/// One stored paste.
pub struct StoredPaste {
    id: String,
    content: String,
    created_at: u64,
    modified_at: u64,
}

impl StoredPaste {
    pub closed spec fn key(&self) -> Seq<char> {
        self.id@
    }

    pub closed spec fn record(&self) -> PasteRecord {
        PasteRecord {
            content: self.content@,
            created_at: self.created_at,
            modified_at: self.modified_at,
        }
    }
}

/// Whether some entry of `s` has identifier `k`.
spec fn holds_id(s: Seq<StoredPaste>, k: Seq<char>) -> bool {
    exists|i: int| 0 <= i < s.len() && (#[trigger] s[i]).key() == k
}

/// An index of `s` whose entry has identifier `k`.
spec fn index_of(s: Seq<StoredPaste>, k: Seq<char>) -> int {
    choose|i: int| 0 <= i < s.len() && (#[trigger] s[i]).key() == k
}

/// The map from identifier to record that `s` stands for.
spec fn map_of(s: Seq<StoredPaste>) -> Map<Seq<char>, PasteRecord> {
    Map::new(|k: Seq<char>| holds_id(s, k), |k: Seq<char>| s[index_of(s, k)].record())
}

/// No two entries of `s` share an identifier.
spec fn unique_ids(s: Seq<StoredPaste>) -> bool {
    forall|i: int, j: int|
        0 <= i < s.len() && 0 <= j < s.len() && i != j ==> (#[trigger] s[i]).key() != (
        #[trigger] s[j]).key()
}

/// In a sequence without repeated identifiers, entry `i` is what the map
/// holds under its identifier.
proof fn lemma_map_at(s: Seq<StoredPaste>, i: int)
    requires
        unique_ids(s),
        0 <= i < s.len(),
    ensures
        map_of(s).contains_key(s[i].key()),
        map_of(s)[s[i].key()] == s[i].record(),
{
    let k = s[i].key();
    assert(holds_id(s, k));
    let j = index_of(s, k);
    assert(s[j].key() == k);
}

/// Appending an entry with a new identifier inserts it into the map.
proof fn lemma_map_push(s: Seq<StoredPaste>, p: StoredPaste)
    requires
        unique_ids(s),
        !holds_id(s, p.key()),
    ensures
        unique_ids(s.push(p)),
        map_of(s.push(p)) == map_of(s).insert(p.key(), p.record()),
{
    let t = s.push(p);
    assert forall|i: int, j: int|
        0 <= i < t.len() && 0 <= j < t.len() && i != j implies (#[trigger] t[i]).key() != (
        #[trigger] t[j]).key() by {
        if i < s.len() && j < s.len() {
            assert(s[i] == t[i] && s[j] == t[j]);
        } else if i < s.len() {
            assert(s[i] == t[i]);
        } else if j < s.len() {
            assert(s[j] == t[j]);
        }
    }
    assert forall|k: Seq<char>| holds_id(t, k) <==> holds_id(s, k) || k == p.key() by {
        if holds_id(s, k) {
            let i = index_of(s, k);
            assert(t[i] == s[i]);
        }
        if k == p.key() {
            assert(t[s.len() as int] == p);
        }
        if holds_id(t, k) {
            let i = index_of(t, k);
            if i < s.len() {
                assert(t[i] == s[i]);
            }
        }
    }
    assert forall|k: Seq<char>| #[trigger] map_of(t).contains_key(k) implies map_of(t)[k] == map_of(
        s,
    ).insert(p.key(), p.record())[k] by {
        let i = index_of(t, k);
        lemma_map_at(t, i);
        if i < s.len() {
            assert(t[i] == s[i]);
            lemma_map_at(s, i);
        }
    }
    assert(map_of(t) =~= map_of(s).insert(p.key(), p.record()));
}

/// Replacing entry `i` by one with the same identifier updates the map.
proof fn lemma_map_update(s: Seq<StoredPaste>, i: int, p: StoredPaste)
    requires
        unique_ids(s),
        0 <= i < s.len(),
        p.key() == s[i].key(),
    ensures
        unique_ids(s.update(i, p)),
        map_of(s.update(i, p)) == map_of(s).insert(p.key(), p.record()),
{
    let t = s.update(i, p);
    assert forall|a: int, b: int|
        0 <= a < t.len() && 0 <= b < t.len() && a != b implies (#[trigger] t[a]).key() != (
        #[trigger] t[b]).key() by {
        assert(t[a].key() == s[a].key() && t[b].key() == s[b].key());
    }
    assert forall|k: Seq<char>| holds_id(t, k) <==> holds_id(s, k) by {
        if holds_id(s, k) {
            let j = index_of(s, k);
            assert(t[j].key() == s[j].key());
        }
        if holds_id(t, k) {
            let j = index_of(t, k);
            assert(t[j].key() == s[j].key());
        }
    }
    assert forall|k: Seq<char>| #[trigger] map_of(t).contains_key(k) implies map_of(t)[k] == map_of(
        s,
    ).insert(p.key(), p.record())[k] by {
        let j = index_of(t, k);
        lemma_map_at(t, j);
        if j != i {
            assert(t[j] == s[j]);
            lemma_map_at(s, j);
        }
    }
    assert(map_of(t) =~= map_of(s).insert(p.key(), p.record()));
}

/// Removing entry `i` removes its identifier from the map.
proof fn lemma_map_remove(s: Seq<StoredPaste>, i: int)
    requires
        unique_ids(s),
        0 <= i < s.len(),
    ensures
        unique_ids(s.remove(i)),
        map_of(s.remove(i)) == map_of(s).remove(s[i].key()),
{
    let t = s.remove(i);
    let gone = s[i].key();
    assert forall|a: int, b: int|
        0 <= a < t.len() && 0 <= b < t.len() && a != b implies (#[trigger] t[a]).key() != (
        #[trigger] t[b]).key() by {
        let sa = if a < i { a } else { a + 1 };
        let sb = if b < i { b } else { b + 1 };
        assert(t[a] == s[sa] && t[b] == s[sb]);
    }
    assert forall|k: Seq<char>| holds_id(t, k) <==> holds_id(s, k) && k != gone by {
        if holds_id(s, k) && k != gone {
            let j = index_of(s, k);
            if j < i {
                assert(t[j] == s[j]);
            } else {
                assert(t[j - 1] == s[j]);
            }
        }
        if holds_id(t, k) {
            let j = index_of(t, k);
            let sj = if j < i { j } else { j + 1 };
            assert(t[j] == s[sj]);
        }
    }
    assert forall|k: Seq<char>| #[trigger] map_of(t).contains_key(k) implies map_of(t)[k] == map_of(
        s,
    ).remove(gone)[k] by {
        let j = index_of(t, k);
        lemma_map_at(t, j);
        let sj = if j < i { j } else { j + 1 };
        assert(t[j] == s[sj]);
        lemma_map_at(s, sj);
    }
    assert(map_of(t) =~= map_of(s).remove(gone));
}

/// Every paste held in memory, keyed by identifier.
pub struct RecordStore {
    entries: Vec<StoredPaste>,
}

impl View for RecordStore {
    type V = Map<Seq<char>, PasteRecord>;

    closed spec fn view(&self) -> Map<Seq<char>, PasteRecord> {
        map_of(self.entries@)
    }
}

impl RecordStore {
    /// Identifiers are unique and no content exceeds the size limit.
    pub closed spec fn wf(&self) -> bool {
        &&& unique_ids(self.entries@)
        &&& forall|i: int|
            0 <= i < self.entries@.len() ==> byte_len((#[trigger] self.entries@[i]).content@)
                <= MAX_PASTE_BYTES
    }

    /// The empty store.
    pub fn new() -> (s: RecordStore)
        ensures
            s.wf(),
            s@ == Map::<Seq<char>, PasteRecord>::empty(),
    {
        let s = RecordStore { entries: Vec::new() };
        assert(s@ =~= Map::<Seq<char>, PasteRecord>::empty());
        s
    }

    /// Number of stored pastes.
    pub fn len(&self) -> (n: usize)
        requires
            self.wf(),
        ensures
            n == self@.len(),
    {
        proof {
            self.lemma_dom_len();
        }
        self.entries.len()
    }

    proof fn lemma_dom_len(&self)
        requires
            self.wf(),
        ensures
            self@.dom().finite(),
            self@.len() == self.entries@.len(),
        decreases self.entries@.len(),
    {
        let s = self.entries@;
        let dom = self@.dom();
        let keys = s.map_values(|p: StoredPaste| p.key());
        assert forall|i: int, j: int| 0 <= i < j < keys.len() implies keys[i] != keys[j] by {
            assert(s[i].key() != s[j].key());
        }
        assert(keys.no_duplicates());
        assert forall|k: Seq<char>| dom.contains(k) <==> keys.to_set().contains(k) by {
            if dom.contains(k) {
                let i = index_of(s, k);
                assert(keys[i] == k);
            }
            if keys.to_set().contains(k) {
                let i = choose|i: int| 0 <= i < keys.len() && keys[i] == k;
                assert(s[i].key() == k);
            }
        }
        assert(dom =~= keys.to_set());
        keys.unique_seq_to_set();
    }

    /// Finds the entry of paste `id`.
    fn find(&self, id: &str) -> (r: Option<usize>)
        requires
            self.wf(),
        ensures
            r is None <==> !self@.contains_key(id@),
            r is Some ==> r->0 < self.entries@.len() && self.entries@[r->0 as int].key() == id@,
    {
        let wanted = id.to_owned();
        let mut i: usize = 0;
        while i < self.entries.len()
            invariant
                wanted@ == id@,
                i <= self.entries@.len(),
                forall|j: int| 0 <= j < i ==> (#[trigger] self.entries@[j]).key() != id@,
            decreases self.entries@.len() - i,
        {
            if self.entries[i].id == wanted {
                return Some(i);
            }
            i = i + 1;
        }
        None
    }

    /// Whether a paste has identifier `id`.
    pub fn contains(&self, id: &str) -> (r: bool)
        requires
            self.wf(),
        ensures
            r == self@.contains_key(id@),
    {
        self.find(id).is_some()
    }

    /// The content of paste `id`.
    pub fn read(&self, id: &str) -> (r: Option<String>)
        requires
            self.wf(),
        ensures
            r is None <==> !self@.contains_key(id@),
            r is Some ==> r->0@ == self@[id@].content,
    {
        match self.find(id) {
            None => None,
            Some(i) => {
                proof {
                    lemma_map_at(self.entries@, i as int);
                }
                Some(self.entries[i].content.clone())
            },
        }
    }

    /// Stores `content` under `id` at time `now`: a new paste is created at
    /// `now`; an existing one keeps its creation time.
    pub fn write(&mut self, id: &str, content: String, now: u64)
        requires
            old(self).wf(),
            byte_len(content@) <= MAX_PASTE_BYTES,
        ensures
            final(self).wf(),
            final(self)@ == old(self)@.insert(
                id@,
                PasteRecord {
                    content: content@,
                    created_at: if old(self)@.contains_key(id@) {
                        old(self)@[id@].created_at
                    } else {
                        now
                    },
                    modified_at: now,
                },
            ),
    {
        match self.find(id) {
            None => {
                let p = StoredPaste {
                    id: id.to_owned(),
                    content,
                    created_at: now,
                    modified_at: now,
                };
                proof {
                    lemma_map_push(self.entries@, p);
                }
                self.entries.push(p);
            },
            Some(i) => {
                let created_at = self.entries[i].created_at;
                let p = StoredPaste { id: id.to_owned(), content, created_at, modified_at: now };
                proof {
                    lemma_map_at(self.entries@, i as int);
                    lemma_map_update(self.entries@, i as int, p);
                }
                self.entries.set(i, p);
            },
        }
    }

    /// Removes paste `id`; `false` where there was none.
    pub fn remove(&mut self, id: &str) -> (r: bool)
        requires
            old(self).wf(),
        ensures
            final(self).wf(),
            r == old(self)@.contains_key(id@),
            final(self)@ == old(self)@.remove(id@),
    {
        match self.find(id) {
            None => {
                assert(self@ =~= self@.remove(id@));
                false
            },
            Some(i) => {
                proof {
                    lemma_map_remove(self.entries@, i as int);
                }
                self.entries.remove(i);
                true
            },
        }
    }

    /// Every identifier with the time of its paste's last change.
    pub fn list_all(&self) -> (r: Vec<(String, u64)>)
        requires
            self.wf(),
        ensures
            forall|i: int|
                0 <= i < r@.len() ==> {
                    &&& self@.contains_key((#[trigger] r@[i]).0@)
                    &&& self@[r@[i].0@].modified_at == r@[i].1
                },
            forall|k: Seq<char>|
                #[trigger] self@.contains_key(k) ==> exists|i: int|
                    0 <= i < r@.len() && (#[trigger] r@[i]).0@ == k,
    {
        let mut r: Vec<(String, u64)> = Vec::new();
        for i in 0..self.entries.len()
            invariant
                self.wf(),
                r@.len() == i,
                forall|j: int|
                    0 <= j < i ==> (#[trigger] r@[j]).0@ == self.entries@[j].key() && r@[j].1
                        == self.entries@[j].record().modified_at,
        {
            let e = &self.entries[i];
            r.push((e.id.clone(), e.modified_at));
        }
        assert forall|i: int| 0 <= i < r@.len() implies {
            &&& self@.contains_key((#[trigger] r@[i]).0@)
            &&& self@[r@[i].0@].modified_at == r@[i].1
        } by {
            lemma_map_at(self.entries@, i);
        }
        assert forall|k: Seq<char>| #[trigger] self@.contains_key(k) implies exists|i: int|
            0 <= i < r@.len() && (#[trigger] r@[i]).0@ == k by {
            let i = index_of(self.entries@, k);
            assert(r@[i].0@ == k);
        }
        r
    }
}

} // verus!
