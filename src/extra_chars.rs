//! Out-of-band storage for the zero-width characters of cells, kept in an
//! arena that hands out small positive handles.

use smallvec::SmallVec;
use vstd::prelude::*;

verus! {

/// The characters of one entry, in a small vector that keeps up to five of
/// them inline. Verus cannot declare `SmallVec` itself (its `Array` bound is
/// refused), so it is held here out of Verus's sight.
#[verifier::external_body]
pub struct ExtraChars {
    inner: SmallVec<[char; 5]>,
}

/// The characters an entry holds, in order.
pub uninterp spec fn small_chars(v: ExtraChars) -> Seq<char>;

/// Relies on `SmallVec::from_vec`: the small vector holds the elements of
/// `v`, in order.
#[verifier::external_body]
fn small_from_vec(v: Vec<char>) -> (r: ExtraChars)
    ensures
        small_chars(r) == v@,
{
    ExtraChars { inner: SmallVec::from_vec(v) }
}

/// Relies on `SmallVec::as_slice`: the slice shows the elements, in order.
#[verifier::external_body]
fn small_as_slice(v: &ExtraChars) -> (r: &[char])
    ensures
        r@ == small_chars(*v),
{
    v.inner.as_slice()
}

/// Relies on `SmallVec::push`: `c` is appended after the elements. It
/// panics only when the length would overflow `usize`.
#[verifier::external_body]
fn small_push(v: &mut ExtraChars, c: char)
    requires
        small_chars(*old(v)).len() < usize::MAX,
    ensures
        small_chars(*final(v)) == small_chars(*old(v)).push(c),
{
    v.inner.push(c)
}

/// Largest handle the store hands out: handles run from 1 to this.
pub const MAX_HANDLES: usize = 65535;

/// Every handle of the store is taken.
#[derive(Debug, Clone, Copy, PartialEq, Eq, Structural)]
pub struct OverflowExhausted;

/// The arena: slot `h - 1` holds the characters of handle `h`.
pub struct ExtraCharStorage {
    slots: Vec<Option<ExtraChars>>,
}

/// The characters of a slot, if it is taken.
pub open spec fn slot_view(slot: Option<ExtraChars>) -> Option<Seq<char>> {
    match slot {
        Some(v) => Some(small_chars(v)),
        None => None,
    }
}

impl ExtraCharStorage {
    /// The slots, as sequences.
    pub closed spec fn slots(&self) -> Seq<Option<Seq<char>>> {
        self.slots@.map_values(|s: Option<ExtraChars>| slot_view(s))
    }

    /// The store never holds a slot beyond the largest handle.
    pub open spec fn wf(&self) -> bool {
        self.slots().len() <= MAX_HANDLES
    }

    /// Handle `h` is taken.
    pub open spec fn used(&self, h: nat) -> bool {
        1 <= h <= self.slots().len() && self.slots()[h - 1] is Some
    }

    /// Every handle is taken.
    pub open spec fn full(&self) -> bool {
        forall|h: nat| 1 <= h <= MAX_HANDLES ==> #[trigger] self.used(h)
    }

    /// `self` is `before` with `c` stored under `h`, the lowest handle that
    /// was free.
    pub open spec fn allocated(&self, before: &Self, c: Seq<char>, h: nat) -> bool {
        &&& 1 <= h <= MAX_HANDLES
        &&& !before.used(h)
        &&& forall|k: nat| 1 <= k < h ==> #[trigger] before.used(k)
        &&& self@ == before@.insert(h, c)
    }

    /// A handle is taken exactly when the store holds characters under it.
    pub proof fn lemma_used_is_key(&self, h: nat)
        ensures
            self.used(h) == self@.contains_key(h),
    {
    }

    /// An empty store.
    pub fn new() -> (r: ExtraCharStorage)
        ensures
            r.wf(),
            r@ == Map::<nat, Seq<char>>::empty(),
    {
        let r = ExtraCharStorage { slots: Vec::new() };
        assert(r@ =~= Map::<nat, Seq<char>>::empty());
        r
    }

    /// Stores `c` under the lowest handle that is free.
    pub fn put(&mut self, c: Vec<char>) -> (r: Result<u16, OverflowExhausted>)
        requires
            old(self).wf(),
        ensures
            final(self).wf(),
            old(self).full() ==> r == Err::<u16, OverflowExhausted>(OverflowExhausted)
                && final(self)@ == old(self)@,
            !old(self).full() ==> r is Ok,
            r matches Ok(h) ==> final(self).allocated(old(self), c@, h as nat),
    {
        let ghost before = self.slots();
        let mut i: usize = 0;
        while i < self.slots.len()
            invariant
                i <= self.slots@.len(),
                self.slots() == before,
                self.slots@ == old(self).slots@,
                before.len() <= MAX_HANDLES,
                forall|k: int| 0 <= k < i ==> #[trigger] before[k] is Some,
            decreases self.slots@.len() - i,
        {
            if self.slots[i].is_none() {
                self.slots.set(i, Some(small_from_vec(c)));
                proof {
                    assert forall|k: nat| 1 <= k < i + 1 implies #[trigger] old(self).used(k) by {
                        assert(before[k - 1] is Some);
                    }
                    assert(!old(self).used((i + 1) as nat));
                    assert(self.slots() =~= before.update(i as int, Some(c@)));
                    assert(self@ =~= old(self)@.insert((i + 1) as nat, c@));
                }
                return Ok((i + 1) as u16);
            }
            i += 1;
        }
        if self.slots.len() < MAX_HANDLES {
            let n = self.slots.len();
            self.slots.push(Some(small_from_vec(c)));
            proof {
                assert(!old(self).used((n + 1) as nat));
                assert(self.slots() =~= before.push(Some(c@)));
                assert forall|k: nat| 1 <= k < n + 1 implies #[trigger] old(self).used(k) by {
                    assert(before[k - 1] is Some);
                }
                assert(self@ =~= old(self)@.insert((n + 1) as nat, c@)) by {
                    assert(self.slots()[n as int] == Some(c@));
                }
            }
            Ok((n + 1) as u16)
        } else {
            assert(old(self).full()) by {
                assert forall|h: nat| 1 <= h <= MAX_HANDLES implies #[trigger] old(self).used(h) by {
                    assert(before[h - 1] is Some);
                }
            }
            Err(OverflowExhausted)
        }
    }

    /// A copy of the characters of handle `h`; `None` if it is free.
    pub fn get(&self, h: u16) -> (r: Option<Vec<char>>)
        ensures
            match r {
                Some(v) => self@.contains_key(h as nat) && v@ == self@[h as nat],
                None => !self@.contains_key(h as nat),
            },
    {
        if h == 0 || h as usize > self.slots.len() {
            return None;
        }
        match &self.slots[(h - 1) as usize] {
            Some(sv) => {
                let v = small_as_slice(sv);
                let mut out: Vec<char> = Vec::new();
                let mut i: usize = 0;
                while i < v.len()
                    invariant
                        i <= v@.len(),
                        out@ == v@.subrange(0, i as int),
                    decreases v@.len() - i,
                {
                    out.push(v[i]);
                    i += 1;
                    assert(out@ =~= v@.subrange(0, i as int));
                }
                assert(out@ =~= v@);
                Some(out)
            },
            None => None,
        }
    }

    /// Frees handle `h`; a free handle is left as it is.
    pub fn remove(&mut self, h: u16)
        requires
            old(self).wf(),
        ensures
            final(self).wf(),
            final(self)@ == old(self)@.remove(h as nat),
    {
        if h == 0 || h as usize > self.slots.len() {
            assert(self@ =~= old(self)@.remove(h as nat));
            return;
        }
        self.slots.set((h - 1) as usize, None);
        assert(self.slots() =~= old(self).slots().update(h - 1, None));
        assert(self@ =~= old(self)@.remove(h as nat));
    }

    /// Appends `c` to the characters of handle `h`; nothing happens if the
    /// handle is free, or already holds as many characters as `usize` counts.
    pub fn push_char(&mut self, h: u16, c: char)
        requires
            old(self).wf(),
        ensures
            final(self).wf(),
            old(self)@.contains_key(h as nat) && old(self)@[h as nat].len() < usize::MAX
                ==> final(self)@ == old(self)@.insert(h as nat, old(self)@[h as nat].push(c)),
            !(old(self)@.contains_key(h as nat) && old(self)@[h as nat].len() < usize::MAX)
                ==> final(self)@ == old(self)@,
    {
        if h == 0 || h as usize > self.slots.len() {
            return;
        }
        let i = (h - 1) as usize;
        if self.slots[i].is_none() {
            return;
        }
        if small_as_slice(self.slots[i].as_ref().unwrap()).len() == usize::MAX {
            return;
        }
        let mut taken: Option<ExtraChars> = None;
        std::mem::swap(&mut taken, &mut self.slots[i]);
        match taken {
            Some(mut v) => {
                small_push(&mut v, c);
                self.slots.set(i, Some(v));
            },
            None => {},
        }
        assert(self.slots() =~= old(self).slots().update(i as int, Some(old(self).slots()[i as int]->0.push(c))));
        assert(self@ =~= old(self)@.insert(h as nat, old(self)@[h as nat].push(c)));
    }
}

impl View for ExtraCharStorage {
    type V = Map<nat, Seq<char>>;

    /// The characters stored under each taken handle.
    closed spec fn view(&self) -> Map<nat, Seq<char>> {
        Map::new(|h: nat| self.used(h), |h: nat| self.slots()[h - 1]->0)
    }
}

/// Three allocations give three different handles, and once the second is
/// released the next allocation hands out that same handle again.
pub proof fn lemma_released_handle_reused(
    s0: ExtraCharStorage,
    s1: ExtraCharStorage,
    s2: ExtraCharStorage,
    s3: ExtraCharStorage,
    s4: ExtraCharStorage,
    s5: ExtraCharStorage,
    a: Seq<char>,
    b: Seq<char>,
    c: Seq<char>,
    d: Seq<char>,
    h1: nat,
    h2: nat,
    h3: nat,
    h4: nat,
)
    requires
        s1.allocated(&s0, a, h1),
        s2.allocated(&s1, b, h2),
        s3.allocated(&s2, c, h3),
        s4@ == s3@.remove(h2),
        s5.allocated(&s4, d, h4),
    ensures
        h1 != h2,
        h2 != h3,
        h1 != h3,
        h4 == h2,
{
    assert forall|k: nat| #![trigger s0.used(k)] #![trigger s1.used(k)] #![trigger s2.used(k)]
        #![trigger s3.used(k)] #![trigger s4.used(k)]
        s0.used(k) == s0@.contains_key(k) && s1.used(k) == s1@.contains_key(k) && s2.used(k)
            == s2@.contains_key(k) && s3.used(k) == s3@.contains_key(k) && s4.used(k)
            == s4@.contains_key(k) by {
        s0.lemma_used_is_key(k);
        s1.lemma_used_is_key(k);
        s2.lemma_used_is_key(k);
        s3.lemma_used_is_key(k);
        s4.lemma_used_is_key(k);
    }
    assert(s1.used(h1));
    assert(s2.used(h1) && s2.used(h2));
    assert(!s4.used(h2));
    if h4 < h2 {
        assert(s1.used(h4));
        assert(s3.used(h4));
        assert(s4.used(h4));
    }
}

/// The handle of one entry of the store. It is neither `Clone` nor `Copy`:
/// the entry has one owner, which frees it with `release`.
#[derive(Debug, PartialEq, Eq)]
pub struct NonzeroCharId(u16);

impl NonzeroCharId {
    /// The handle number.
    pub closed spec fn spec_handle(&self) -> nat {
        self.0 as nat
    }

    /// The handle number.
    pub fn handle(&self) -> (r: u16)
        ensures
            r == self.spec_handle(),
    {
        self.0
    }

    /// Takes the lowest free handle of `storage` for a new, empty entry.
    pub fn new(storage: &mut ExtraCharStorage) -> (r: Result<NonzeroCharId, OverflowExhausted>)
        requires
            old(storage).wf(),
        ensures
            final(storage).wf(),
            old(storage).full() ==> r == Err::<NonzeroCharId, OverflowExhausted>(OverflowExhausted)
                && final(storage)@ == old(storage)@,
            !old(storage).full() ==> r is Ok,
            r matches Ok(id) ==> final(storage).allocated(
                old(storage),
                Seq::<char>::empty(),
                id.spec_handle(),
            ),
    {
        match storage.put(Vec::new()) {
            Ok(h) => Ok(NonzeroCharId(h)),
            Err(e) => Err(e),
        }
    }

    /// The characters of the entry; empty if it is gone.
    pub fn get_chars(&self, storage: &ExtraCharStorage) -> (r: Vec<char>)
        ensures
            storage@.contains_key(self.spec_handle()) ==> r@ == storage@[self.spec_handle()],
            !storage@.contains_key(self.spec_handle()) ==> r@ == Seq::<char>::empty(),
    {
        match storage.get(self.0) {
            Some(v) => v,
            None => Vec::new(),
        }
    }

    /// Appends `c` to the entry; nothing happens if the entry is gone, or
    /// already holds as many characters as `usize` counts.
    pub fn put_char(&mut self, storage: &mut ExtraCharStorage, c: char)
        requires
            old(storage).wf(),
        ensures
            *final(self) == *old(self),
            final(storage).wf(),
            old(storage)@.contains_key(old(self).spec_handle())
                && old(storage)@[old(self).spec_handle()].len() < usize::MAX ==> final(storage)@
                == old(storage)@.insert(
                old(self).spec_handle(),
                old(storage)@[old(self).spec_handle()].push(c),
            ),
            !(old(storage)@.contains_key(old(self).spec_handle()) && old(storage)@[old(
                self,
            ).spec_handle()].len() < usize::MAX) ==> final(storage)@ == old(storage)@,
    {
        storage.push_char(self.0, c);
    }

    /// Frees the entry.
    pub fn release(self, storage: &mut ExtraCharStorage)
        requires
            old(storage).wf(),
        ensures
            final(storage).wf(),
            final(storage)@ == old(storage)@.remove(self.spec_handle()),
    {
        storage.remove(self.0);
    }
}

/// The reference a cell holds into the store: no handle, or the one it owns.
#[derive(Debug, PartialEq, Eq)]
pub struct ExtraCharStorageIndex(pub Option<NonzeroCharId>);

impl ExtraCharStorageIndex {
    /// No handle.
    pub fn new() -> (r: ExtraCharStorageIndex)
        ensures
            r.0.is_none(),
    {
        ExtraCharStorageIndex(None)
    }
}

} // verus!
