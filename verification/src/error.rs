//! The error channel: errors queued per runtime, polled by the host by id.
//!
//! The host asks for the oldest pending error's id, then takes the
//! record with that id, which removes it. Ids come from one counter that
//! every channel of the process shares, so an id is never handed out
//! twice, not even by two runtimes.
use vstd::prelude::*;

verus! {

/// A single error record.
pub struct ErrorRecord {
    pub id: u64,
    pub message: String,
}

/// The records of a channel as the host sees them: id and text, oldest
/// first.
pub open spec fn record_view(r: ErrorRecord) -> (u64, Seq<char>) {
    (r.id, r.message@)
}

/// The source of error ids that every channel shares: the next id it
/// will hand out. It starts at 1 and only grows.
pub struct ErrorIds {
    next: u64,
}

impl View for ErrorIds {
    type V = u64;

    closed spec fn view(&self) -> u64 {
        self.next
    }
}

impl ErrorIds {
    #[verifier::type_invariant]
    spec fn well_formed(self) -> bool {
        self.next >= 1
    }

    /// A counter whose first id is 1.
    pub fn new() -> (c: Self)
        ensures
            c@ == 1,
    {
        ErrorIds { next: 1 }
    }
}

/// A queue of error records, oldest first. Its ids increase from the
/// oldest record to the newest, and none is above the newest id the
/// channel has ever been given.
pub struct ErrorChannel {
    queue: Vec<ErrorRecord>,
    last_id: u64,
}

impl ErrorChannel {
    #[verifier::type_invariant]
    spec fn well_formed(self) -> bool {
        &&& forall|i: int|
            0 <= i < self.queue@.len() ==> 0 < #[trigger] self.queue@[i].id <= self.last_id
        &&& forall|i: int, j: int|
            0 <= i < j < self.queue@.len() ==> #[trigger] self.queue@[i].id
                < #[trigger] self.queue@[j].id
    }

    /// The pending records, oldest first.
    pub closed spec fn view(&self) -> Seq<(u64, Seq<char>)> {
        self.queue@.map_values(|r: ErrorRecord| record_view(r))
    }

    /// The id of the newest record ever pushed here; 0 before the first.
    pub closed spec fn last_id(&self) -> u64 {
        self.last_id
    }

    /// An empty channel.
    pub fn new() -> (c: Self)
        ensures
            c@ == Seq::<(u64, Seq<char>)>::empty(),
            c.last_id() == 0,
    {
        let c = ErrorChannel { queue: Vec::new(), last_id: 0 };
        assert(c@ =~= Seq::<(u64, Seq<char>)>::empty());
        c
    }

    /// Whether an error can be queued with an id from `ids`: the ids are
    /// not exhausted and the counter is past every id this channel holds
    /// (always so when every channel draws from the same counter).
    pub fn has_room(&self, ids: &ErrorIds) -> (b: bool)
        ensures
            b == (self.last_id() < ids@ && ids@ < u64::MAX),
    {
        self.last_id < ids.next && ids.next < u64::MAX
    }

    /// Queue an error under the next id of `ids` and return that id.
    pub fn push(&mut self, ids: &mut ErrorIds, message: String) -> (id: u64)
        requires
            old(self).last_id() < old(ids)@ < u64::MAX,
        ensures
            id == old(ids)@,
            id != 0,
            final(ids)@ == id + 1,
            forall|i: int| 0 <= i < old(self)@.len() ==> old(self)@[i].0 < id,
            final(self)@ == old(self)@.push((id, message@)),
            final(self).last_id() == id,
    {
        proof {
            use_type_invariant(&*self);
            use_type_invariant(&*ids);
        }
        let id = ids.next;
        ids.next = id + 1;
        let mut queue = Vec::new();
        std::mem::swap(&mut queue, &mut self.queue);
        let ghost old_view = queue@.map_values(|r: ErrorRecord| record_view(r));
        queue.push(ErrorRecord { id, message });
        self.last_id = id;
        self.queue = queue;
        assert(self@ =~= old_view.push((id, self.queue@.last().message@)));
        id
    }

    /// A copy of the oldest pending record.
    pub fn peek(&self) -> (r: Option<ErrorRecord>)
        ensures
            r is None <==> self@.len() == 0,
            r matches Some(rec) ==> record_view(rec) == self@[0],
    {
        if self.queue.len() == 0 {
            None
        } else {
            let first = &self.queue[0];
            Some(ErrorRecord { id: first.id, message: first.message.clone() })
        }
    }

    /// Remove and return the record with id `handle`.
    pub fn take(&mut self, handle: u64) -> (r: Option<ErrorRecord>)
        ensures
            r is None <==> forall|i: int| 0 <= i < old(self)@.len() ==> old(self)@[i].0 != handle,
            r is None ==> final(self)@ == old(self)@,
            r matches Some(rec) ==> exists|i: int|
                0 <= i < old(self)@.len() && old(self)@[i] == record_view(rec) && rec.id == handle
                    && final(self)@ == old(self)@.remove(i),
            forall|i: int| 0 <= i < final(self)@.len() ==> final(self)@[i].0 != handle,
            final(self).last_id() == old(self).last_id(),
    {
        proof {
            use_type_invariant(&*self);
        }
        let mut pos: usize = 0;
        while pos < self.queue.len()
            invariant
                pos <= self.queue@.len(),
                forall|j: int| 0 <= j < pos ==> #[trigger] self.queue@[j].id != handle,
            ensures
                pos <= self.queue@.len(),
                forall|j: int| 0 <= j < pos ==> #[trigger] self.queue@[j].id != handle,
                pos < self.queue@.len() ==> self.queue@[pos as int].id == handle,
            decreases self.queue.len() - pos,
        {
            if self.queue[pos].id == handle {
                break;
            }
            pos = pos + 1;
        }
        if pos == self.queue.len() {
            assert forall|i: int| 0 <= i < self@.len() implies self@[i].0 != handle by {
                assert(self.queue@[i].id != handle);
            }
            return None;
        }
        let mut queue = Vec::new();
        std::mem::swap(&mut queue, &mut self.queue);
        let ghost old_queue = queue@;
        let rec = queue.remove(pos);
        self.queue = queue;
        proof {
            assert forall|i: int| 0 <= i < self.queue@.len() implies self.queue@[i].id != handle by {
                if i < pos {
                    assert(self.queue@[i] == old_queue[i]);
                } else {
                    assert(self.queue@[i] == old_queue[i + 1]);
                    assert(old_queue[pos as int].id < old_queue[i + 1].id);
                }
            }
            assert(old_queue[pos as int] == rec);
            assert(old(self)@[pos as int] == record_view(rec));
            assert(self@ =~= old_queue.map_values(|r: ErrorRecord| record_view(r)).remove(
                pos as int,
            ));
        }
        Some(rec)
    }

    /// The id of the oldest pending error, or 0 when there is none.
    pub fn oldest_id(&self) -> (id: u64)
        ensures
            self@.len() == 0 ==> id == 0,
            self@.len() > 0 ==> id == self@[0].0 && id != 0,
    {
        proof {
            use_type_invariant(self);
        }
        match self.peek() {
            Some(r) => r.id,
            None => 0,
        }
    }

    /// Number of pending errors.
    pub fn len(&self) -> (n: usize)
        ensures
            n == self@.len(),
    {
        self.queue.len()
    }
}

/// Ids drawn one after another from one counter, by pushes on any
/// channels, are all different: each push takes the counter's value and
/// leaves it one higher, and nothing else changes the counter.
pub proof fn lemma_error_ids_never_repeat(ids: Seq<u64>)
    requires
        forall|i: int| 0 <= i < ids.len() - 1 ==> #[trigger] ids[i + 1] == ids[i] + 1,
    ensures
        forall|i: int, j: int| 0 <= i < j < ids.len() ==> ids[i] < ids[j],
        ids.no_duplicates(),
    decreases ids.len(),
{
    if ids.len() > 1 {
        let prefix = ids.drop_last();
        assert forall|i: int| 0 <= i < prefix.len() - 1 implies #[trigger] prefix[i + 1] == prefix[i]
            + 1 by {
            assert(ids[i + 1] == ids[i] + 1);
        }
        lemma_error_ids_never_repeat(prefix);
        assert forall|i: int, j: int| 0 <= i < j < ids.len() implies ids[i] < ids[j] by {
            if j < ids.len() - 1 {
                assert(prefix[i] == ids[i] && prefix[j] == ids[j]);
            } else {
                let k = j - 1;
                assert(ids[k + 1] == ids[k] + 1);
                if i < j - 1 {
                    assert(prefix[i] == ids[i] && prefix[j - 1] == ids[j - 1]);
                }
            }
        }
    }
}

/// What a take of a freshly pushed id gives back: a push appends
/// `(id, msg)` under an id above every id already queued, so the only
/// record with that id is the one just pushed, and taking it leaves the
/// channel as it was before the push.
pub proof fn lemma_take_after_push(before: Seq<(u64, Seq<char>)>, id: u64, msg: Seq<char>, i: int)
    requires
        forall|j: int| 0 <= j < before.len() ==> before[j].0 < id,
        0 <= i < before.len() + 1,
        before.push((id, msg))[i].0 == id,
    ensures
        i == before.len(),
        before.push((id, msg))[i] == (id, msg),
        before.push((id, msg)).remove(i) == before,
{
    if i < before.len() {
        assert(before.push((id, msg))[i] == before[i]);
    }
    assert(before.push((id, msg)).remove(before.len() as int) =~= before);
}

} // verus!
