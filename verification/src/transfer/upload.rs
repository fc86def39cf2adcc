//! The upload queue: a fixed number of slots, a queue in which buddies go
//! before everyone else, and the uploads under way.

use vstd::prelude::*;
use std::collections::{HashMap, VecDeque};
use std::time::Instant;
use crate::text::strs_view;
use crate::transfer::{Transfer, TransferId};

verus! {

broadcast use vstd::std_specs::hash::group_hash_axioms;

/// An upload waiting for a slot.
#[derive(Debug)]
pub struct QueuedUpload {
    pub id: TransferId,
    pub username: String,
    pub virtual_path: String,
    pub file_size: u64,
    pub token: u32,
    /// Whether the user is a buddy; set when the upload is queued.
    pub is_buddy: bool,
    pub queued_at: Instant,
}

/// What an `UploadQueue` holds.
pub struct UploadQueueView {
    /// How many uploads may run at once.
    pub slots: usize,
    /// Uploads under way, by token.
    pub active: Map<u32, Transfer>,
    /// Uploads waiting, next first.
    pub queue: Seq<QueuedUpload>,
    /// Names of buddies.
    pub buddies: Set<Seq<char>>,
}

/// Uploads waiting for a slot and uploads under way.
#[derive(Debug)]
pub struct UploadQueue {
    slots: usize,
    active: HashMap<u32, Transfer>,
    queue: VecDeque<QueuedUpload>,
    buddies: Vec<String>,
}

impl View for UploadQueue {
    type V = UploadQueueView;

    closed spec fn view(&self) -> UploadQueueView {
        UploadQueueView {
            slots: self.slots,
            active: self.active@,
            queue: self.queue@,
            buddies: strs_view(self.buddies@).to_set(),
        }
    }
}

/// The index of the first upload of a user who is not a buddy, from `i` on,
/// or the length of the queue.
pub open spec fn first_non_buddy_from(q: Seq<QueuedUpload>, i: int) -> int
    decreases q.len() - i,
{
    if i < 0 || i >= q.len() {
        q.len() as int
    } else if !q[i].is_buddy {
        i
    } else {
        first_non_buddy_from(q, i + 1)
    }
}

/// Where a buddy's upload goes: after the uploads of buddies at the front.
pub open spec fn first_non_buddy(q: Seq<QueuedUpload>) -> int {
    first_non_buddy_from(q, 0)
}

proof fn lemma_first_non_buddy_from(q: Seq<QueuedUpload>, i: int)
    requires
        0 <= i <= q.len(),
        forall|m: int| 0 <= m < i ==> (#[trigger] q[m]).is_buddy,
    ensures
        first_non_buddy(q) == first_non_buddy_from(q, i),
    decreases i,
{
    if i > 0 {
        lemma_first_non_buddy_from(q, i - 1);
    }
}

/// The queue after `u` is queued: a buddy's upload goes after the buddies'
/// uploads at the front, anyone else's at the back.
pub open spec fn queue_after_enqueue(q: Seq<QueuedUpload>, u: QueuedUpload) -> Seq<QueuedUpload> {
    if u.is_buddy {
        q.insert(first_non_buddy(q), u)
    } else {
        q.push(u)
    }
}

/// The free slots: the slots not taken by an upload under way.
pub open spec fn free_slots_of(v: UploadQueueView) -> usize {
    if v.slots > v.active.len() {
        (v.slots - v.active.len()) as usize
    } else {
        0
    }
}

/// The index of the first waiting upload of `path`, or the length.
pub open spec fn position_of(q: Seq<QueuedUpload>, path: Seq<char>, i: int) -> int
    decreases q.len() - i,
{
    if i < 0 || i >= q.len() {
        q.len() as int
    } else if q[i].virtual_path@ == path {
        i
    } else {
        position_of(q, path, i + 1)
    }
}

proof fn lemma_position_of(q: Seq<QueuedUpload>, path: Seq<char>, i: int)
    requires
        0 <= i <= q.len(),
        forall|m: int| 0 <= m < i ==> (#[trigger] q[m]).virtual_path@ != path,
    ensures
        position_of(q, path, 0) == position_of(q, path, i),
    decreases i,
{
    if i > 0 {
        lemma_position_of(q, path, i - 1);
    }
}

impl UploadQueue {
    /// An empty queue with `slots` upload slots and no buddies.
    pub fn new(slots: usize) -> (r: Self)
        ensures
            r@.slots == slots,
            r@.active == Map::<u32, Transfer>::empty(),
            r@.queue == Seq::<QueuedUpload>::empty(),
            r@.buddies == Set::<Seq<char>>::empty(),
    {
        let r = UploadQueue {
            slots,
            active: HashMap::new(),
            queue: VecDeque::new(),
            buddies: Vec::new(),
        };
        assert(strs_view(r.buddies@).to_set() =~= Set::<Seq<char>>::empty());
        r
    }

    /// Replaces the buddies.
    pub fn set_buddies(&mut self, buddies: Vec<String>)
        ensures
            final(self)@ == (UploadQueueView {
                buddies: strs_view(buddies@).to_set(),
                ..old(self)@
            }),
    {
        self.buddies = buddies;
    }

    /// Whether `name` is a buddy.
    fn is_buddy(&self, name: &String) -> (r: bool)
        ensures
            r == self@.buddies.contains(name@),
    {
        let mut i: usize = 0;
        while i < self.buddies.len()
            invariant
                i <= self.buddies.len(),
                forall|k: int| 0 <= k < i ==> (#[trigger] self.buddies@[k])@ != name@,
            decreases self.buddies.len() - i,
        {
            if self.buddies[i] == *name {
                assert(strs_view(self.buddies@)[i as int] == name@);
                return true;
            }
            i = i + 1;
        }
        assert(!strs_view(self.buddies@).contains(name@)) by {
            if strs_view(self.buddies@).contains(name@) {
                let k = choose|k: int|
                    0 <= k < strs_view(self.buddies@).len() && strs_view(self.buddies@)[k]
                        == name@;
                assert(self.buddies@[k]@ == name@);
            }
        }
        false
    }

    /// The slots not taken by an upload under way.
    pub fn free_slots(&self) -> (r: usize)
        ensures
            r == free_slots_of(self@),
    {
        let n = self.active.len();
        if self.slots > n {
            self.slots - n
        } else {
            0
        }
    }

    /// How many uploads are under way.
    pub fn active_count(&self) -> (r: usize)
        ensures
            r == self@.active.len(),
    {
        self.active.len()
    }

    /// How many uploads wait.
    pub fn queue_len(&self) -> (r: usize)
        ensures
            r == self@.queue.len(),
    {
        self.queue.len()
    }

    /// Queues an upload, marking whether its user is a buddy; a buddy's
    /// upload goes after the buddies' uploads at the front, anyone else's at
    /// the back.
    pub fn enqueue(&mut self, upload: QueuedUpload)
        ensures
            final(self)@ == (UploadQueueView {
                queue: queue_after_enqueue(
                    old(self)@.queue,
                    QueuedUpload {
                        is_buddy: old(self)@.buddies.contains(upload.username@),
                        ..upload
                    },
                ),
                ..old(self)@
            }),
    {
        let mut upload = upload;
        upload.is_buddy = self.is_buddy(&upload.username);
        if upload.is_buddy {
            let ghost q = self.queue@;
            let mut pos: usize = 0;
            while pos < self.queue.len() && self.queue[pos].is_buddy
                invariant
                    q == self.queue@,
                    pos <= q.len(),
                    forall|m: int| 0 <= m < pos ==> (#[trigger] q[m]).is_buddy,
                decreases q.len() - pos,
            {
                pos = pos + 1;
            }
            proof {
                lemma_first_non_buddy_from(q, pos as int);
            }
            let mut rest = self.queue.split_off(pos);
            self.queue.push_back(upload);
            self.queue.append(&mut rest);
            assert(self.queue@ =~= q.insert(pos as int, upload));
        } else {
            self.queue.push_back(upload);
        }
    }

    /// Takes the next waiting upload when a slot is free.
    pub fn try_start_next(&mut self) -> (r: Option<QueuedUpload>)
        ensures
            free_slots_of(old(self)@) == 0 || old(self)@.queue.len() == 0 ==> r.is_none()
                && final(self)@ == old(self)@,
            free_slots_of(old(self)@) > 0 && old(self)@.queue.len() > 0 ==> {
                &&& r == Some(old(self)@.queue[0])
                &&& final(self)@ == (UploadQueueView {
                    queue: old(self)@.queue.skip(1),
                    ..old(self)@
                })
            },
    {
        if self.free_slots() == 0 {
            return None;
        }
        let r = self.queue.pop_front();
        assert(r.is_some() ==> self.queue@ =~= old(self)@.queue.skip(1));
        r
    }

    /// Records that the upload under `token` has started.
    pub fn upload_started(&mut self, token: u32, transfer: Transfer)
        ensures
            final(self)@ == (UploadQueueView {
                active: old(self)@.active.insert(token, transfer),
                ..old(self)@
            }),
    {
        self.active.insert(token, transfer);
    }

    /// Records that the upload under `token` has ended, and gives it back.
    pub fn upload_finished(&mut self, token: u32) -> (r: Option<Transfer>)
        ensures
            final(self)@ == (UploadQueueView {
                active: old(self)@.active.remove(token),
                ..old(self)@
            }),
            match r {
                Some(t) => old(self)@.active.contains_key(token) && t == old(self)@.active[token],
                None => !old(self)@.active.contains_key(token),
            },
    {
        self.active.remove(&token)
    }

    /// The place, counted from 1, of the first waiting upload of
    /// `virtual_path`.
    pub fn queue_position(&self, virtual_path: &str) -> (r: Option<u32>)
        requires
            self@.queue.len() <= u32::MAX,
        ensures
            position_of(self@.queue, virtual_path@, 0) == self@.queue.len() ==> r.is_none(),
            position_of(self@.queue, virtual_path@, 0) < self@.queue.len() ==> r == Some(
                (position_of(self@.queue, virtual_path@, 0) + 1) as u32,
            ),
    {
        let path = virtual_path.to_owned();
        let ghost q = self.queue@;
        let mut i: usize = 0;
        while i < self.queue.len()
            invariant
                q == self.queue@,
                q.len() <= u32::MAX,
                i <= q.len(),
                path@ == virtual_path@,
                forall|m: int| 0 <= m < i ==> (#[trigger] q[m]).virtual_path@ != virtual_path@,
            decreases q.len() - i,
        {
            if self.queue[i].virtual_path == path {
                proof {
                    lemma_position_of(q, virtual_path@, i as int);
                }
                return Some(i as u32 + 1);
            }
            i = i + 1;
        }
        proof {
            lemma_position_of(q, virtual_path@, i as int);
        }
        None
    }
}

/// No upload of a non-buddy waits before an upload of a buddy.
pub open spec fn buddies_first(q: Seq<QueuedUpload>) -> bool {
    forall|i: int, j: int| 0 <= i < j < q.len() && (#[trigger] q[j]).is_buddy ==> (#[trigger] q[i]).is_buddy
}

proof fn lemma_first_non_buddy_facts(q: Seq<QueuedUpload>, i: int)
    requires
        0 <= i <= q.len(),
    ensures
        i <= first_non_buddy_from(q, i) <= q.len(),
        forall|m: int| i <= m < first_non_buddy_from(q, i) ==> (#[trigger] q[m]).is_buddy,
        first_non_buddy_from(q, i) < q.len() ==> !q[first_non_buddy_from(q, i)].is_buddy,
    decreases q.len() - i,
{
    if i < q.len() && q[i].is_buddy {
        lemma_first_non_buddy_facts(q, i + 1);
    }
}

/// Queueing an upload, or starting the next one, keeps the buddies'
/// uploads before everyone else's.
pub proof fn law_buddies_stay_first(q: Seq<QueuedUpload>, u: QueuedUpload)
    requires
        buddies_first(q),
    ensures
        buddies_first(queue_after_enqueue(q, u)),
        q.len() > 0 ==> buddies_first(q.skip(1)),
{
    lemma_first_non_buddy_facts(q, 0);
    let p = first_non_buddy(q);
    let r = queue_after_enqueue(q, u);
    if u.is_buddy {
        assert forall|i: int, j: int| 0 <= i < j < r.len() && (#[trigger] r[j]).is_buddy implies (
        #[trigger] r[i]).is_buddy by {
            if i < p {
                assert(r[i] == q[i]);
            } else if i == p {
                assert(r[i] == u);
            } else {
                assert(r[j] == q[j - 1]);
                assert(r[i] == q[i - 1]);
                assert(q[p].is_buddy == false);
                assert(q[j - 1].is_buddy ==> q[p].is_buddy);
            }
        }
    } else {
        assert forall|i: int, j: int| 0 <= i < j < r.len() && (#[trigger] r[j]).is_buddy implies (
        #[trigger] r[i]).is_buddy by {
            assert(j < q.len());
            assert(r[i] == q[i] && r[j] == q[j]);
        }
    }
    if q.len() > 0 {
        let t = q.skip(1);
        assert forall|i: int, j: int| 0 <= i < j < t.len() && (#[trigger] t[j]).is_buddy implies (
        #[trigger] t[i]).is_buddy by {
            assert(t[i] == q[i + 1] && t[j] == q[j + 1]);
        }
    }
}

} // verus!
