//! Opaque handles and the table that maps them to runtime objects.
//!
//! Every object the host sees is named by a non-zero `u64` handle; `0`
//! always means "no handle". Handles come from one counter that starts at
//! 1 and only grows, shared by every table, so no handle is handed out
//! twice and a freed handle stays dead.
use std::collections::HashMap;
use std::sync::Arc;
use vstd::prelude::*;
use vstd::std_specs::iter::IteratorSpec;

verus! {

broadcast use vstd::std_specs::hash::group_hash_axioms;

/// An opaque handle that the host sees as a `u64`; `0` is never valid.
#[derive(Debug, Clone, Copy, PartialEq, Eq, Hash, Structural)]
pub struct Handle(u64);

impl View for Handle {
    type V = u64;

    closed spec fn view(&self) -> u64 {
        self.0
    }
}

/// The source of fresh handles: the next value it will hand out.
pub struct HandleCounter {
    next: u64,
}

impl View for HandleCounter {
    type V = u64;

    closed spec fn view(&self) -> u64 {
        self.next
    }
}

/// The value a counter holds after handing out `n`: the next `u64`,
/// wrapping at the top of the range.
pub open spec fn successor(n: u64) -> u64 {
    if n == u64::MAX {
        0
    } else {
        (n + 1) as u64
    }
}

impl HandleCounter {
    /// A counter whose first handle is 1.
    pub fn new() -> (c: Self)
        ensures
            c@ == 1,
    {
        HandleCounter { next: 1 }
    }
}

impl Handle {
    /// Allocate the next handle from `counter`.
    pub fn new(counter: &mut HandleCounter) -> (h: Self)
        ensures
            h@ == old(counter)@,
            final(counter)@ == successor(old(counter)@),
        no_unwind
    {
        let h = Handle(counter.next);
        counter.next = if counter.next == u64::MAX {
            0
        } else {
            counter.next + 1
        };
        h
    }

    /// The raw `u64` passed across the FFI boundary.
    pub fn as_u64(self) -> (raw: u64)
        ensures
            raw == self@,
    {
        self.0
    }

    /// Rebuild a handle from a raw `u64`; `None` for the invalid value 0.
    pub fn from_u64(raw: u64) -> (h: Option<Self>)
        ensures
            h is None <==> raw == 0,
            h matches Some(x) ==> x@ == raw,
    {
        if raw == 0 {
            None
        } else {
            Some(Handle(raw))
        }
    }

    /// True for every non-zero handle.
    pub fn is_valid(self) -> (ok: bool)
        ensures
            ok == (self@ != 0),
    {
        self.0 != 0
    }
}

/// Cloning an `Arc` gives a pointer to the same value (`Arc::clone`).
#[verifier::external_body]
fn arc_clone<T>(a: &Arc<T>) -> (r: Arc<T>)
    ensures
        r == *a,
{
    a.clone()
}

/// `accs` is the run of a left fold of `f` over `vals` from `init`: one
/// accumulator before each value and one after the last.
pub open spec fn is_fold<T, R, F: Fn(R, &T) -> R>(f: F, init: R, vals: Seq<T>, accs: Seq<R>) -> bool {
    &&& accs.len() == vals.len() + 1
    &&& accs[0] == init
    &&& forall|i: int| 0 <= i < vals.len() ==> #[trigger] f.ensures((accs[i], &vals[i]), accs[i + 1])
}

/// A table mapping handles to shared objects.
///
/// Its handles come from a counter that every table of the process
/// shares, so a handle is never handed out twice, not even by two
/// tables. Every handle in the table is non-zero and at most the newest
/// handle the table was given.
pub struct HandleTable<T> {
    entries: HashMap<u64, Arc<T>>,
    last: u64,
}

impl<T> HandleTable<T> {
    #[verifier::type_invariant]
    spec fn well_formed(self) -> bool {
        forall|k: u64| #[trigger] self.entries@.contains_key(k) ==> 0 < k <= self.last
    }

    /// The objects in the table, by handle.
    pub closed spec fn view(&self) -> Map<u64, T> {
        self.entries@.map_values(|a: Arc<T>| *a)
    }

    /// The newest handle this table was given; 0 before the first.
    pub closed spec fn last_handle(&self) -> u64 {
        self.last
    }

    /// An empty table.
    pub fn new() -> (t: Self)
        ensures
            t.view() == Map::<u64, T>::empty(),
            t.last_handle() == 0,
    {
        let t = HandleTable { entries: HashMap::new(), last: 0 };
        assert(t.view() =~= Map::<u64, T>::empty());
        t
    }

    /// Whether an object can be inserted under the next handle of
    /// `counter`: handles are not exhausted and the counter is past every
    /// handle this table holds (always so when every table draws from the
    /// same counter).
    pub fn can_insert(&self, counter: &HandleCounter) -> (b: bool)
        ensures
            b == (self.last_handle() < counter@ && counter@ < u64::MAX),
    {
        self.last < counter.next && counter.next < u64::MAX
    }

    /// Insert an object under the next handle of `counter` and return
    /// that handle.
    pub fn insert(&mut self, counter: &mut HandleCounter, value: T) -> (h: Handle)
        requires
            old(self).last_handle() < old(counter)@ < u64::MAX,
        ensures
            h@ == old(counter)@,
            h@ != 0,
            final(counter)@ == h@ + 1,
            !old(self).view().contains_key(h@),
            final(self).view() == old(self).view().insert(h@, value),
            final(self).view().len() == old(self).view().len() + 1,
            final(self).last_handle() == h@,
    {
        proof {
            use_type_invariant(&*self);
            self.lemma_view_finite();
        }
        let mut entries = HashMap::new();
        std::mem::swap(&mut entries, &mut self.entries);
        let ghost old_entries = entries@;
        let h = Handle::new(counter);
        entries.insert(h.0, Arc::new(value));
        proof {
            assert(entries@.map_values(|a: Arc<T>| *a) =~= old_entries.map_values(
                |a: Arc<T>| *a,
            ).insert(h@, value));
        }
        self.last = h.0;
        self.entries = entries;
        h
    }

    /// Remove the object behind `handle`, returning it if it was there.
    pub fn remove(&mut self, handle: Handle) -> (r: Option<Arc<T>>)
        ensures
            r matches Some(a) ==> old(self).view().contains_key(handle@) && *a == old(
                self,
            ).view()[handle@],
            r is None ==> !old(self).view().contains_key(handle@),
            final(self).view() == old(self).view().remove(handle@),
            r is Some ==> final(self).view().len() == old(self).view().len() - 1,
            r is None ==> final(self).view() == old(self).view(),
            final(self).last_handle() == old(self).last_handle(),
    {
        proof {
            use_type_invariant(&*self);
            self.lemma_view_finite();
        }
        let mut entries = HashMap::new();
        std::mem::swap(&mut entries, &mut self.entries);
        let ghost old_entries = entries@;
        let r = entries.remove(&handle.0);
        proof {
            assert(entries@.map_values(|a: Arc<T>| *a) =~= old_entries.map_values(
                |a: Arc<T>| *a,
            ).remove(handle@));
        }
        self.entries = entries;
        r
    }

    /// A shared reference to the object behind `handle`.
    pub fn get(&self, handle: Handle) -> (r: Option<Arc<T>>)
        ensures
            r matches Some(a) ==> self.view().contains_key(handle@) && *a == self.view()[handle@],
            r is None ==> !self.view().contains_key(handle@),
    {
        match self.entries.get(&handle.0) {
            Some(a) => Some(arc_clone(a)),
            None => None,
        }
    }

    /// Run `f` on the object behind `handle`; `None` when there is none.
    pub fn with<F, R>(&self, handle: Handle, f: F) -> (r: Option<R>)
        where
            F: FnOnce(&T) -> R,
        requires
            self.view().contains_key(handle@) ==> f.requires((&self.view()[handle@],)),
        ensures
            r matches Some(x) ==> self.view().contains_key(handle@) && f.ensures(
                (&self.view()[handle@],),
                x,
            ),
            r is None ==> !self.view().contains_key(handle@),
    {
        match self.entries.get(&handle.0) {
            Some(a) => {
                let entry = arc_clone(a);
                Some(f(&*entry))
            },
            None => None,
        }
    }

    /// Run `f` on some live object (the "handle 0 means any runtime"
    /// convention); `None` when the table is empty.
    pub fn with_first<F, R>(&self, f: F) -> (r: Option<R>)
        where
            F: FnOnce(&T) -> R,
        requires
            forall|t: &T| f.requires((t,)),
        ensures
            r is None <==> self.view().dom().is_empty(),
            r matches Some(x) ==> exists|k: u64| #[trigger]
                self.view().contains_key(k) && f.ensures((&self.view()[k],), x),
    {
        let mut first: Option<u64> = None;
        let ghost keys = vstd::std_specs::hash::spec_keys_iter(&self.entries).remaining().unref();
        for k in it: self.entries.keys()
            invariant_except_break
                first is None,
                it.index() == 0,
            invariant
                it.seq().unref() == keys,
                keys.to_set() == self.entries@.dom(),
            ensures
                first is None ==> keys.len() == 0,
                first matches Some(k) ==> self.entries@.contains_key(k),
        {
            assert(keys.to_set().contains(keys[0]));
            first = Some(*k);
            break;
        }
        proof {
            if first is None {
                assert(keys.to_set() =~= Set::<u64>::empty());
            } else {
                assert(self.entries@.dom().contains(first->0));
            }
            assert(self.entries@.dom() =~= self.view().dom());
        }
        match first {
            Some(k) => {
                match self.entries.get(&k) {
                    Some(a) => {
                        let entry = arc_clone(a);
                        Some(f(&*entry))
                    },
                    None => None,
                }
            },
            None => None,
        }
    }

    /// Fold `f` over every live object once, in some order, starting at
    /// `init`.
    pub fn fold<F, R>(&self, init: R, f: F) -> (r: R)
        where
            F: Fn(R, &T) -> R,
        requires
            forall|acc: R, t: &T| #[trigger] f.requires((acc, t)),
        ensures
            exists|keys: Seq<u64>, accs: Seq<R>|
                {
                    &&& keys.no_duplicates()
                    &&& keys.to_set() == self.view().dom()
                    &&& is_fold(f, init, keys.map_values(|k: u64| self.view()[k]), accs)
                    &&& accs.last() == r
                },
    {
        let ghost keys = vstd::std_specs::hash::spec_keys_iter(&self.entries).remaining().unref();
        let ghost vals = keys.map_values(|k: u64| self.view()[k]);
        let ghost g_init = init;
        let ghost mut accs = seq![init];
        let mut acc = init;
        for k in it: self.entries.keys()
            invariant
                it.seq().unref() == keys,
                keys.to_set() == self.entries@.dom(),
                vals == keys.map_values(|k: u64| self.view()[k]),
                forall|acc: R, t: &T| #[trigger] f.requires((acc, t)),
                accs.len() == it.index() + 1,
                accs[0] == g_init,
                accs.last() == acc,
                forall|i: int|
                    0 <= i < it.index() ==> #[trigger] f.ensures((accs[i], &vals[i]), accs[i + 1]),
        {
            let ghost i = it.index();
            assert(keys.to_set().contains(keys[i]));
            match self.entries.get(k) {
                Some(a) => {
                    let entry = arc_clone(a);
                    acc = f(acc, &*entry);
                    proof {
                        let prev = accs;
                        accs = accs.push(acc);
                        assert forall|j: int|
                            0 <= j < i + 1 implies #[trigger] f.ensures(
                            (accs[j], &vals[j]),
                            accs[j + 1],
                        ) by {
                            if j < i {
                                assert(accs[j] == prev[j]);
                                assert(accs[j + 1] == prev[j + 1]);
                            }
                        }
                    }
                },
                None => {
                    proof {
                        assert(false);
                    }
                },
            }
        }
        proof {
            assert(vstd::std_specs::hash::spec_keys_iter(&self.entries).remaining().no_duplicates());
            assert(keys.to_set() =~= self.view().dom());
        }
        acc
    }

    /// The number of live entries.
    pub fn len(&self) -> (n: usize)
        ensures
            n == self.view().len(),
            self.view().dom().finite(),
    {
        proof {
            assert(self.entries@.dom() =~= self.view().dom());
        }
        self.entries.len()
    }

    /// The table holds finitely many objects.
    pub proof fn lemma_view_finite(&self)
        ensures
            self.view().dom().finite(),
    {
        assert(self.entries@.dom() =~= self.view().dom());
    }

    /// True when no handle is live.
    pub fn is_empty(&self) -> (b: bool)
        ensures
            b == (self.view().len() == 0),
    {
        self.len() == 0
    }
}

/// Handles from one counter are all different until the counter reaches
/// the top of its range: each allocation yields one more than the last.
pub proof fn lemma_handles_increase(n: u64)
    requires
        n < u64::MAX,
    ensures
        successor(n) == n + 1,
        successor(n) != n,
{
}

/// Handles drawn one after another from one counter, by inserts into any
/// tables, are all different: each draw takes the counter's value and
/// leaves it one higher, and nothing else changes the counter.
pub proof fn lemma_handles_never_repeat(hs: Seq<u64>)
    requires
        forall|i: int| 0 <= i < hs.len() - 1 ==> #[trigger] hs[i + 1] == hs[i] + 1,
    ensures
        forall|i: int, j: int| 0 <= i < j < hs.len() ==> hs[i] < hs[j],
        hs.no_duplicates(),
    decreases hs.len(),
{
    if hs.len() > 1 {
        let prefix = hs.drop_last();
        assert forall|i: int| 0 <= i < prefix.len() - 1 implies #[trigger] prefix[i + 1] == prefix[i]
            + 1 by {
            assert(hs[i + 1] == hs[i] + 1);
        }
        lemma_handles_never_repeat(prefix);
        assert forall|i: int, j: int| 0 <= i < j < hs.len() implies hs[i] < hs[j] by {
            if j < hs.len() - 1 {
                assert(prefix[i] == hs[i] && prefix[j] == hs[j]);
            } else {
                let k = j - 1;
                assert(hs[k + 1] == hs[k] + 1);
                if i < k {
                    assert(prefix[i] == hs[i] && prefix[k] == hs[k]);
                }
            }
        }
    }
}

/// A handle is its number: two handles with the same `u64` are the same
/// handle. With the contracts of `as_u64` and `from_u64` this gives the
/// round trip `from_u64(h.as_u64()) == Some(h)` for every valid `h`, and
/// `from_u64(raw)` yields a handle whose `as_u64` is `raw` for every
/// `raw != 0`.
pub proof fn lemma_handle_is_its_number(a: Handle, b: Handle)
    requires
        a@ == b@,
    ensures
        a == b,
{
}

/// Removing a freshly inserted handle gives back the table as it was, so
/// insert/remove cycles leave nothing behind; and the object inserted is
/// what the handle reads back until it is removed.
pub proof fn lemma_insert_then_remove<T>(m: Map<u64, T>, h: u64, v: T)
    requires
        !m.contains_key(h),
    ensures
        m.insert(h, v).remove(h) == m,
        m.insert(h, v).contains_key(h) && m.insert(h, v)[h] == v,
        m.insert(h, v).len() == m.len() + 1 || !m.dom().finite(),
{
    assert(m.insert(h, v).remove(h) =~= m);
}

} // verus!
