//! The paste service: submit, retrieve, replace, remove and sweep, with
//! the laws that relate them.

use crate::error::PasteError;
use crate::gate::{authorization, authorize, check_size, check_submission, size_check, submission_check};
use crate::ident::{is_base62_id, IdAllocator, ID_LEN, MAX_ID_LEN};
use crate::key::{derive_key, edit_key, Secret};
use crate::render::{highlighting, rendered_view, Highlighter, OutputMode, Rendered};
use crate::retention::{expired, is_expired, DAY_SECS};
use crate::store::{PasteRecord, RecordStore};
use vstd::prelude::*;

verus! {

/// The store's contents: identifier to record.
pub type Pastes = Map<Seq<char>, PasteRecord>;

/// What `submit` hands back: the new paste's identifier and its edit key.
pub struct NewPaste {
    pub id: String,
    pub key: String,
}

/// Submitting `content` at `now` created paste `id` with edit key `key`,
/// taking the store from `before` to `after`.
pub open spec fn submitted(
    before: Pastes,
    after: Pastes,
    secret: Seq<u8>,
    content: Seq<char>,
    now: u64,
    id: Seq<char>,
    key: Seq<char>,
) -> bool {
    &&& !before.contains_key(id)
    &&& is_base62_id(id)
    &&& ID_LEN <= id.len() <= MAX_ID_LEN
    &&& after == before.insert(
        id,
        PasteRecord { content, created_at: now, modified_at: now },
    )
    &&& key == edit_key(secret, id)
}

/// Outcome of reading paste `id`.
pub open spec fn retrieval(s: Pastes, id: Seq<char>) -> Result<Seq<char>, PasteError> {
    if s.contains_key(id) {
        Ok(s[id].content)
    } else {
        Err(PasteError::NotFound)
    }
}

/// Store and outcome after replacing the content of paste `id` with
/// `content` at `now`, with supplied key `key`.
pub open spec fn replacement(
    s: Pastes,
    secret: Seq<u8>,
    id: Seq<char>,
    key: Seq<char>,
    content: Seq<char>,
    now: u64,
) -> (Pastes, Result<(), PasteError>) {
    match authorization(s.contains_key(id), secret, id, key) {
        Err(e) => (s, Err(e)),
        Ok(_) => match size_check(content) {
            Err(e) => (s, Err(e)),
            Ok(_) => (
                s.insert(
                    id,
                    PasteRecord { content, created_at: s[id].created_at, modified_at: now },
                ),
                Ok(()),
            ),
        },
    }
}

/// Store and outcome after removing paste `id` with supplied key `key`.
pub open spec fn removal(s: Pastes, secret: Seq<u8>, id: Seq<char>, key: Seq<char>) -> (
    Pastes,
    Result<(), PasteError>,
) {
    match authorization(s.contains_key(id), secret, id, key) {
        Err(e) => (s, Err(e)),
        Ok(_) => (s.remove(id), Ok(())),
    }
}

/// The pastes of `s` that are not past retention at `now`.
pub open spec fn swept(s: Pastes, now: u64) -> Pastes {
    Map::new(
        |k: Seq<char>| s.contains_key(k) && !expired(now, s[k].modified_at),
        |k: Seq<char>| s[k],
    )
}

/// A text outcome, with the text viewed as characters.
pub open spec fn text_view(r: Result<String, PasteError>) -> Result<Seq<char>, PasteError> {
    match r {
        Ok(t) => Ok(t@),
        Err(e) => Err(e),
    }
}

/// `s` with the pastes among `ids` that are past retention at `now` removed.
spec fn swept_among(s: Pastes, now: u64, ids: Seq<Seq<char>>) -> Pastes {
    Map::new(
        |k: Seq<char>| s.contains_key(k) && !(expired(now, s[k].modified_at) && ids.contains(k)),
        |k: Seq<char>| s[k],
    )
}

/// The paste service: a record store and the secret that edit keys are
/// derived under.
pub struct PasteService {
    records: RecordStore,
    secret: Secret,
}

impl View for PasteService {
    type V = Pastes;

    closed spec fn view(&self) -> Pastes {
        self.records@
    }
}

impl PasteService {
    /// The secret that edit keys are derived under.
    pub closed spec fn secret(&self) -> Seq<u8> {
        self.secret@
    }

    /// The service's internal invariant.
    pub closed spec fn wf(&self) -> bool {
        self.records.wf()
    }

    /// An empty service whose edit keys are derived under `secret`.
    pub fn new(secret: Secret) -> (s: PasteService)
        ensures
            s.wf(),
            s@ == Map::<Seq<char>, PasteRecord>::empty(),
            s.secret() == secret@,
    {
        PasteService { records: RecordStore::new(), secret }
    }

    /// Number of stored pastes.
    pub fn len(&self) -> (n: usize)
        requires
            self.wf(),
        ensures
            n == self@.len(),
    {
        self.records.len()
    }

    /// Whether paste `id` exists.
    pub fn contains(&self, id: &str) -> (r: bool)
        requires
            self.wf(),
        ensures
            r == self@.contains_key(id@),
    {
        self.records.contains(id)
    }

    /// Draws candidate identifiers until one is free, or `None` once every
    /// length up to `MAX_ID_LEN` has been tried twice; that can only happen
    /// where some stored identifier has `MAX_ID_LEN` symbols.
    pub fn allocate_id(&self) -> (r: Option<String>)
        requires
            self.wf(),
        ensures
            r is Some ==> {
                &&& !self@.contains_key(r->0@)
                &&& is_base62_id(r->0@)
                &&& ID_LEN <= r->0@.len() <= MAX_ID_LEN
            },
            r is None ==> exists|k: Seq<char>| #[trigger]
                self@.contains_key(k) && k.len() == MAX_ID_LEN,
            (forall|k: Seq<char>| #[trigger] self@.contains_key(k) ==> k.len() != ID_LEN) ==> r is Some
                && r->0@.len() == ID_LEN,
            r is Some && r->0@.len() > ID_LEN ==> exists|k: Seq<char>| #[trigger]
                self@.contains_key(k) && k.len() == r->0@.len() - 1,
    {
        let mut alloc = IdAllocator::new();
        loop
            invariant
                self.wf(),
                ID_LEN <= alloc.candidate_len() <= MAX_ID_LEN + 1,
                alloc.exhausted() ==> exists|k: Seq<char>| #[trigger]
                    self@.contains_key(k) && k.len() == MAX_ID_LEN,
                alloc.candidate_len() > ID_LEN ==> exists|k: Seq<char>| #[trigger]
                    self@.contains_key(k) && k.len() == alloc.candidate_len() - 1,
                (forall|k: Seq<char>| #[trigger] self@.contains_key(k) ==> k.len() != ID_LEN)
                    ==> alloc.candidate_len() == ID_LEN && !alloc.retried(),
            decreases alloc.attempts_left(),
        {
            match alloc.next_candidate() {
                None => {
                    return None;
                },
                Some(id) => {
                    if !self.records.contains(id.as_str()) {
                        return Some(id);
                    }
                    assert(self@.contains_key(id@));
                },
            }
        }
    }

    /// Stores `content` as a new paste created at `now` and returns its
    /// identifier and edit key. Empty content is refused with `EmptyBody`,
    /// content over `MAX_PASTE_BYTES` with `SizeExceeded`; otherwise the
    /// paste is created unless no identifier is free.
    pub fn submit(&mut self, content: String, now: u64) -> (r: Result<NewPaste, PasteError>)
        requires
            old(self).wf(),
        ensures
            final(self).wf(),
            final(self).secret() == old(self).secret(),
            content@.len() == 0 ==> r == Err::<NewPaste, PasteError>(PasteError::EmptyBody),
            submission_check(content@) == Err::<(), PasteError>(PasteError::SizeExceeded) ==> r
                == Err::<NewPaste, PasteError>(PasteError::SizeExceeded),
            r is Err ==> final(self)@ == old(self)@,
            r is Ok ==> submitted(
                old(self)@,
                final(self)@,
                old(self).secret(),
                content@,
                now,
                r->Ok_0.id@,
                r->Ok_0.key@,
            ),
            submission_check(content@) is Ok && (forall|k: Seq<char>| #[trigger]
                old(self)@.contains_key(k) ==> k.len() != ID_LEN) ==> r is Ok && r->Ok_0.id@.len()
                == ID_LEN,
            r is Ok && r->Ok_0.id@.len() > ID_LEN ==> exists|k: Seq<char>| #[trigger]
                old(self)@.contains_key(k) && k.len() == r->Ok_0.id@.len() - 1,
            submission_check(content@) is Ok && r is Err ==> {
                &&& r == Err::<NewPaste, PasteError>(PasteError::IdSpaceExhausted)
                &&& exists|k: Seq<char>| #[trigger]
                    old(self)@.contains_key(k) && k.len() == MAX_ID_LEN
            },
    {
        if let Err(e) = check_submission(content.as_str()) {
            return Err(e);
        }
        let id = match self.allocate_id() {
            None => {
                return Err(PasteError::IdSpaceExhausted);
            },
            Some(id) => id,
        };
        self.records.write(id.as_str(), content, now);
        let key = derive_key(&self.secret, id.as_str());
        Ok(NewPaste { id, key })
    }

    /// The content of paste `id`, or `NotFound`.
    pub fn retrieve(&self, id: &str) -> (r: Result<String, PasteError>)
        requires
            self.wf(),
        ensures
            text_view(r) == retrieval(self@, id@),
    {
        match self.records.read(id) {
            None => Err(PasteError::NotFound),
            Some(c) => Ok(c),
        }
    }

    /// Paste `id` highlighted as the language of file extension `lang`, in
    /// the form `mode` asks for: `NotFound` where there is no such paste,
    /// `HighlightUnavailable` where the language cannot be highlighted.
    pub fn retrieve_rendered(
        &self,
        id: &str,
        lang: &str,
        mode: OutputMode,
        highlighter: &Highlighter,
    ) -> (r: Result<Rendered, PasteError>)
        requires
            self.wf(),
        ensures
            rendered_view(r) == if self@.contains_key(id@) {
                highlighting(self@[id@].content, lang@, mode)
            } else {
                Err(PasteError::NotFound)
            },
    {
        let content = self.retrieve(id)?;
        highlighter.highlight(content.as_str(), lang, mode)
    }

    /// Replaces the content of paste `id` at `now`, given its edit key:
    /// `NotFound` where there is no such paste, `Unauthorized` where `key` is
    /// not its edit key, `SizeExceeded` where `content` is too large.
    pub fn replace(&mut self, id: &str, key: &str, content: String, now: u64) -> (r: Result<
        (),
        PasteError,
    >)
        requires
            old(self).wf(),
        ensures
            final(self).wf(),
            final(self).secret() == old(self).secret(),
            (final(self)@, r) == replacement(
                old(self)@,
                old(self).secret(),
                id@,
                key@,
                content@,
                now,
            ),
    {
        let present = self.records.contains(id);
        authorize(present, &self.secret, id, key)?;
        check_size(content.as_str())?;
        self.records.write(id, content, now);
        Ok(())
    }

    /// Removes paste `id`, given its edit key: `NotFound` where there is no
    /// such paste, `Unauthorized` where `key` is not its edit key.
    pub fn remove(&mut self, id: &str, key: &str) -> (r: Result<(), PasteError>)
        requires
            old(self).wf(),
        ensures
            final(self).wf(),
            final(self).secret() == old(self).secret(),
            (final(self)@, r) == removal(old(self)@, old(self).secret(), id@, key@),
    {
        let present = self.records.contains(id);
        authorize(present, &self.secret, id, key)?;
        self.records.remove(id);
        Ok(())
    }

    /// Removes every paste past retention at `now` and returns their
    /// identifiers.
    pub fn sweep(&mut self, now: u64) -> (removed: Vec<String>)
        requires
            old(self).wf(),
        ensures
            final(self).wf(),
            final(self).secret() == old(self).secret(),
            final(self)@ == swept(old(self)@, now),
            forall|i: int|
                0 <= i < removed@.len() ==> {
                    &&& old(self)@.contains_key((#[trigger] removed@[i])@)
                    &&& expired(now, old(self)@[removed@[i]@].modified_at)
                },
            forall|k: Seq<char>|
                #[trigger] old(self)@.contains_key(k) && expired(now, old(self)@[k].modified_at)
                    ==> exists|i: int| 0 <= i < removed@.len() && (#[trigger] removed@[i])@ == k,
    {
        let ghost start = self@;
        let listing = self.records.list_all();
        let ghost ids = listing@.map_values(|e: (String, u64)| e.0@);
        let mut removed: Vec<String> = Vec::new();
        assert(self@ =~= swept_among(start, now, ids.take(0)));
        for i in 0..listing.len()
            invariant
                self.wf(),
                self.secret() == old(self).secret(),
                start == old(self)@,
                ids == listing@.map_values(|e: (String, u64)| e.0@),
                forall|j: int|
                    0 <= j < listing@.len() ==> {
                        &&& start.contains_key((#[trigger] listing@[j]).0@)
                        &&& start[listing@[j].0@].modified_at == listing@[j].1
                    },
                self@ == swept_among(start, now, ids.take(i as int)),
                forall|j: int|
                    0 <= j < removed@.len() ==> {
                        &&& start.contains_key((#[trigger] removed@[j])@)
                        &&& expired(now, start[removed@[j]@].modified_at)
                    },
                forall|k: Seq<char>|
                    #[trigger] start.contains_key(k) && expired(now, start[k].modified_at)
                        && ids.take(i as int).contains(k) ==> exists|j: int|
                        0 <= j < removed@.len() && (#[trigger] removed@[j])@ == k,
        {
            let ghost k = ids[i as int];
            let ghost prev = ids.take(i as int);
            let ghost next = ids.take(i + 1);
            assert forall|q: Seq<char>| next.contains(q) <==> prev.contains(q) || q == k by {
                if prev.contains(q) {
                    let j = choose|j: int| 0 <= j < prev.len() && prev[j] == q;
                    assert(next[j] == q);
                }
                if q == k {
                    assert(next[i as int] == q);
                }
                if next.contains(q) {
                    let j = choose|j: int| 0 <= j < next.len() && next[j] == q;
                    if j < i {
                        assert(prev[j] == q);
                    }
                }
            }
            assert(listing@[i as int].0@ == k);
            let ghost removed_before = removed@;
            if is_expired(now, listing[i].1) {
                let was_there = self.records.remove(listing[i].0.as_str());
                if was_there {
                    removed.push(listing[i].0.clone());
                    assert(removed@[removed@.len() - 1]@ == k);
                } else {
                    assert(ids.take(i as int).contains(k));
                }
            }
            assert(self@ =~= swept_among(start, now, next));
            assert forall|q: Seq<char>|
                #[trigger] start.contains_key(q) && expired(now, start[q].modified_at)
                    && next.contains(q) implies exists|j: int|
                    0 <= j < removed@.len() && (#[trigger] removed@[j])@ == q by {
                if prev.contains(q) {
                    let j = choose|j: int|
                        0 <= j < removed_before.len() && (#[trigger] removed_before[j])@ == q;
                    assert(removed@[j] == removed_before[j]);
                } else {
                    assert(q == k);
                    assert(removed@[removed@.len() - 1]@ == q);
                }
            }
        }
        assert forall|k: Seq<char>| start.contains_key(k) implies ids.contains(k) by {
            let j = choose|j: int| 0 <= j < listing@.len() && (#[trigger] listing@[j]).0@ == k;
            assert(ids[j] == k);
        }
        assert(ids.take(listing@.len() as int) =~= ids);
        assert(self@ =~= swept(start, now));
        removed
    }
}

/// A paste read back right after it was submitted has the submitted
/// content.
pub proof fn lemma_submit_then_retrieve(
    before: Pastes,
    after: Pastes,
    secret: Seq<u8>,
    content: Seq<char>,
    now: u64,
    id: Seq<char>,
    key: Seq<char>,
)
    requires
        submitted(before, after, secret, content, now, id, key),
    ensures
        retrieval(after, id) == Ok::<Seq<char>, PasteError>(content),
{
}

/// The edit key of a paste depends on the secret and the identifier only:
/// two derivations under one secret agree.
pub proof fn lemma_edit_key_stable(
    secret: Seq<u8>,
    id: Seq<char>,
    first: Seq<char>,
    second: Seq<char>,
)
    requires
        first == edit_key(secret, id),
        second == edit_key(secret, id),
    ensures
        first == second,
{
}

/// Replacing an existing paste with a key other than its edit key fails
/// with `Unauthorized` and leaves the store as it was.
pub proof fn lemma_replace_wrong_key(
    s: Pastes,
    secret: Seq<u8>,
    id: Seq<char>,
    key: Seq<char>,
    content: Seq<char>,
    now: u64,
)
    requires
        s.contains_key(id),
        key != edit_key(secret, id),
    ensures
        replacement(s, secret, id, key, content, now) == (s, Err::<(), PasteError>(
            PasteError::Unauthorized,
        )),
{
}

/// After a paste is removed with its edit key, reading it gives `NotFound`.
pub proof fn lemma_remove_then_retrieve(s: Pastes, secret: Seq<u8>, id: Seq<char>)
    ensures
        retrieval(removal(s, secret, id, edit_key(secret, id)).0, id) == Err::<
            Seq<char>,
            PasteError,
        >(PasteError::NotFound),
{
}

/// A sweep removes a paste last changed 31 days ago and keeps, unchanged,
/// one last changed a day ago.
pub proof fn lemma_sweep_old_and_recent(s: Pastes, now: u64, stale: Seq<char>, fresh: Seq<char>)
    requires
        s.contains_key(stale),
        s.contains_key(fresh),
        s[stale].modified_at + 31 * DAY_SECS == now,
        s[fresh].modified_at + DAY_SECS == now,
    ensures
        !swept(s, now).contains_key(stale),
        swept(s, now).contains_key(fresh),
        swept(s, now)[fresh] == s[fresh],
{
}

/// Pastes submitted one after another, `stores[i]` to `stores[i + 1]` for
/// the `i`-th, all get distinct identifiers that were free at the start, and
/// afterwards each holds its own content.
pub proof fn lemma_submissions_distinct(
    stores: Seq<Pastes>,
    secret: Seq<u8>,
    contents: Seq<Seq<char>>,
    times: Seq<u64>,
    ids: Seq<Seq<char>>,
    keys: Seq<Seq<char>>,
)
    requires
        stores.len() == ids.len() + 1,
        contents.len() == ids.len(),
        times.len() == ids.len(),
        keys.len() == ids.len(),
        forall|i: int|
            0 <= i < ids.len() ==> submitted(
                #[trigger] stores[i],
                stores[i + 1],
                secret,
                contents[i],
                times[i],
                ids[i],
                keys[i],
            ),
    ensures
        forall|i: int, j: int|
            0 <= i < ids.len() && 0 <= j < ids.len() && i != j ==> #[trigger] ids[i] != #[trigger] ids[j],
        forall|i: int|
            0 <= i < ids.len() ==> {
                &&& !stores[0].contains_key(#[trigger] ids[i])
                &&& stores.last().contains_key(ids[i])
                &&& stores.last()[ids[i]].content == contents[i]
            },
        forall|k: Seq<char>| #[trigger] stores[0].contains_key(k) ==> stores.last().contains_key(k),
    decreases ids.len(),
{
    let n = ids.len() as int;
    if n > 0 {
        let m = n - 1;
        let s = stores.drop_last();
        assert forall|i: int| 0 <= i < m implies submitted(
            #[trigger] s[i],
            s[i + 1],
            secret,
            contents.drop_last()[i],
            times.drop_last()[i],
            ids.drop_last()[i],
            keys.drop_last()[i],
        ) by {
            assert(stores[i] == s[i] && stores[i + 1] == s[i + 1]);
        }
        lemma_submissions_distinct(
            s,
            secret,
            contents.drop_last(),
            times.drop_last(),
            ids.drop_last(),
            keys.drop_last(),
        );
        assert(submitted(stores[m], stores[n], secret, contents[m], times[m], ids[m], keys[m]));
        assert(stores.last() == stores[n]);
        assert(s.last() == stores[m]);
        assert forall|i: int| 0 <= i < m implies ids[i] == ids.drop_last()[i] && contents[i]
            == contents.drop_last()[i] by {}
        assert forall|i: int, j: int|
            0 <= i < n && 0 <= j < n && i != j implies #[trigger] ids[i] != #[trigger] ids[j] by {
            if i < m && j < m {
                assert(ids.drop_last()[i] != ids.drop_last()[j]);
            } else if i == m {
                assert(stores[m].contains_key(ids.drop_last()[j]));
            } else {
                assert(stores[m].contains_key(ids.drop_last()[i]));
            }
        }
        assert forall|i: int| 0 <= i < n implies {
            &&& !stores[0].contains_key(#[trigger] ids[i])
            &&& stores.last().contains_key(ids[i])
            &&& stores.last()[ids[i]].content == contents[i]
        } by {
            if i < m {
                assert(!s[0].contains_key(ids.drop_last()[i]));
                assert(s.last().contains_key(ids.drop_last()[i]));
            } else {
                assert(stores[0] == s[0]);
            }
        }
    }
}

/// Two pastes submitted one after the other get distinct identifiers, and
/// both are live afterwards.
pub proof fn lemma_submitted_ids_distinct(
    s0: Pastes,
    s1: Pastes,
    s2: Pastes,
    secret: Seq<u8>,
    c1: Seq<char>,
    c2: Seq<char>,
    t1: u64,
    t2: u64,
    id1: Seq<char>,
    id2: Seq<char>,
    k1: Seq<char>,
    k2: Seq<char>,
)
    requires
        submitted(s0, s1, secret, c1, t1, id1, k1),
        submitted(s1, s2, secret, c2, t2, id2, k2),
    ensures
        id1 != id2,
        s2.contains_key(id1),
        s2.contains_key(id2),
{
    assert(s1.contains_key(id1));
}

} // verus!
