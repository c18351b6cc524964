//! Watchers of the running-application list and of a process's microphone
//! state: their handles, their registry, and the polling decisions.
use vstd::prelude::*;
use crate::audio::{audio_processes, is_process_actively_using_microphone, process_recording, EndpointsProbe};

verus! {

/// Each element is smaller than every later one.
pub open spec fn strictly_increasing(s: Seq<u32>) -> bool {
    forall|i: int, j: int| 0 <= i < j < s.len() ==> s[i] < s[j]
}

/// `a` and `b` hold the same process ids.
pub open spec fn same_ids(a: Seq<u32>, b: Seq<u32>) -> bool {
    forall|x: u32| a.contains(x) <==> b.contains(x)
}

/// The process ids of a snapshot of the system's processes, each once, in
/// increasing order.
pub fn running_process_ids(snapshot: &Vec<u32>) -> (ids: Vec<u32>)
    ensures
        strictly_increasing(ids@),
        same_ids(ids@, snapshot@),
{
    let mut ids: Vec<u32> = Vec::new();
    let n = snapshot.len();
    let mut i: usize = 0;
    while i < n
        invariant
            n == snapshot@.len(),
            i <= n,
            strictly_increasing(ids@),
            same_ids(ids@, snapshot@.take(i as int)),
        decreases n - i,
    {
        let x = snapshot[i];
        let m = ids.len();
        let mut pos: usize = 0;
        while pos < m && ids[pos] < x
            invariant
                m == ids@.len(),
                pos <= m,
                forall|k: int| 0 <= k < pos ==> ids@[k] < x,
            decreases m - pos,
        {
            pos = pos + 1;
        }
        let ghost before = ids@;
        assert(snapshot@.take(i + 1) =~= snapshot@.take(i as int).push(x));
        if pos < m && ids[pos] == x {
            assert(before.contains(x));
        } else {
            ids.insert(pos, x);
            assert forall|a: int, b: int| 0 <= a < b < ids@.len() implies ids@[a] < ids@[b] by {
                if b < pos {
                } else if b == pos {
                } else if a < pos {
                } else if a == pos {
                    assert(ids@[b] == before[b - 1]);
                } else {
                    assert(ids@[a] == before[a - 1]);
                }
            }
            assert forall|y: u32| ids@.contains(y) <==> before.contains(y) || y == x by {
                if ids@.contains(y) {
                    let k = choose|k: int| 0 <= k < ids@.len() && ids@[k] == y;
                    if k < pos {
                        assert(before[k] == y);
                    } else if k > pos {
                        assert(before[k - 1] == y);
                    }
                }
                if before.contains(y) {
                    let k = choose|k: int| 0 <= k < before.len() && before[k] == y;
                    if k < pos {
                        assert(ids@[k] == y);
                    } else {
                        assert(ids@[k + 1] == y);
                    }
                }
                if y == x {
                    assert(ids@[pos as int] == x);
                }
            }
        }
        let ghost t = snapshot@.take(i as int);
        let ghost t1 = snapshot@.take(i + 1);
        assert forall|y: u32| ids@.contains(y) <==> t1.contains(y) by {
            if t1.contains(y) {
                let k = choose|k: int| 0 <= k < t1.len() && #[trigger] t1[k] == y;
                if k < i {
                    assert(t[k] == y);
                }
            }
            if t.contains(y) {
                let k = choose|k: int| 0 <= k < t.len() && #[trigger] t[k] == y;
                assert(t1[k] == y);
            }
            if y == x {
                assert(t1[i as int] == x);
            }
        }
        i = i + 1;
    }
    assert(snapshot@.take(n as int) =~= snapshot@);
    ids
}

/// Two increasing sequences with the same elements are equal.
pub proof fn lemma_increasing_unique(a: Seq<u32>, b: Seq<u32>)
    requires
        strictly_increasing(a),
        strictly_increasing(b),
        same_ids(a, b),
    ensures
        a == b,
    decreases a.len() + b.len(),
{
    if a.len() == 0 {
        if b.len() > 0 {
            assert(b.contains(b[0]));
        }
        assert(a =~= b);
    } else if b.len() == 0 {
        assert(a.contains(a[0]));
    } else {
        assert(a.contains(a[0]));
        assert(b.contains(b[0]));
        let ka = choose|k: int| 0 <= k < b.len() && b[k] == a[0];
        let kb = choose|k: int| 0 <= k < a.len() && a[k] == b[0];
        if kb > 0 {
            assert(a[0] < a[kb]);
        }
        if ka > 0 {
            assert(b[0] < b[ka]);
        }
        assert(a[0] == b[0]);
        let a1 = a.drop_first();
        let b1 = b.drop_first();
        assert forall|x: u32| a1.contains(x) <==> b1.contains(x) by {
            if a1.contains(x) {
                let k = choose|k: int| 0 <= k < a1.len() && a1[k] == x;
                assert(a[k + 1] == x);
                assert(a.contains(x));
                let j = choose|j: int| 0 <= j < b.len() && b[j] == x;
                if j == 0 {
                    assert(a[0] < a[k + 1]);
                }
                assert(b1[j - 1] == x);
            }
            if b1.contains(x) {
                let k = choose|k: int| 0 <= k < b1.len() && b1[k] == x;
                assert(b[k + 1] == x);
                assert(b.contains(x));
                let j = choose|j: int| 0 <= j < a.len() && a[j] == x;
                if j == 0 {
                    assert(b[0] < b[k + 1]);
                }
                assert(a1[j - 1] == x);
            }
        }
        lemma_increasing_unique(a1, b1);
        assert(a =~= b) by {
            assert forall|k: int| 0 <= k < a.len() implies a[k] == b[k] by {
                if k > 0 {
                    assert(a[k] == a1[k - 1]);
                    assert(b[k] == b1[k - 1]);
                }
            }
        }
    }
}

/// Listing the running processes is idempotent: a list that is already
/// sorted without repeats is its own listing, so listing twice gives the same
/// list as listing once.
pub proof fn lemma_running_process_ids_canonical(snapshot: Seq<u32>, once: Seq<u32>, twice: Seq<u32>)
    requires
        strictly_increasing(once),
        same_ids(once, snapshot),
        strictly_increasing(twice),
        same_ids(twice, once),
    ensures
        twice == once,
{
    lemma_increasing_unique(twice, once);
}

/// Two snapshots list the same processes exactly when their listings are
/// equal.
pub proof fn lemma_listing_tracks_process_set(a: Seq<u32>, la: Seq<u32>, b: Seq<u32>, lb: Seq<u32>)
    requires
        strictly_increasing(la),
        same_ids(la, a),
        strictly_increasing(lb),
        same_ids(lb, b),
    ensures
        (la == lb) <==> same_ids(a, b),
{
    if same_ids(a, b) {
        assert(same_ids(la, lb));
        lemma_increasing_unique(la, lb);
    }
}

/// The source of watcher handles: consecutive numbers starting at 1, wrapping
/// around after the largest `u32`.
pub struct HandleAllocator {
    next: u32,
}

/// The handle that follows `h`.
pub open spec fn following_handle(h: u32) -> u32 {
    if h == u32::MAX {
        0
    } else {
        (h + 1) as u32
    }
}

impl HandleAllocator {
    /// The handle that the next allocation gives.
    pub closed spec fn upcoming(self) -> u32 {
        self.next
    }

    pub fn new() -> (a: Self)
        ensures
            a.upcoming() == 1,
    {
        HandleAllocator { next: 1 }
    }

    /// Hands out the next handle.
    pub fn allocate(&mut self) -> (h: u32)
        ensures
            h == old(self).upcoming(),
            final(self).upcoming() == following_handle(h),
    {
        let h = self.next;
        self.next = if h == u32::MAX {
            0
        } else {
            h + 1
        };
        h
    }
}

/// Two allocations in a row give different handles.
pub proof fn lemma_consecutive_handles_differ(first: u32)
    ensures
        following_handle(first) != first,
{
}

/// The handle that `k` allocations after the one that gave `h` give.
pub open spec fn handle_after(h: u32, k: nat) -> u32
    decreases k,
{
    if k == 0 {
        h
    } else {
        following_handle(handle_after(h, (k - 1) as nat))
    }
}

proof fn lemma_handle_after_value(h: u32, k: nat)
    requires
        k < 0x1_0000_0000,
    ensures
        handle_after(h, k) as int == if h + k < 0x1_0000_0000 {
            h + k
        } else {
            h + k - 0x1_0000_0000
        },
    decreases k,
{
    if k > 0 {
        lemma_handle_after_value(h, (k - 1) as nat);
    }
}

/// A handle differs from every handle allocated after it, as long as fewer
/// than 2^32 allocations follow: unsubscribing a later subscriber never
/// removes an earlier one's watcher.
pub proof fn lemma_later_handles_differ(first: u32, k: nat)
    requires
        0 < k < 0x1_0000_0000,
    ensures
        handle_after(first, k) != first,
{
    lemma_handle_after_value(first, k);
}

/// The position of the first entry registered under `handle`.
pub open spec fn handle_position<T>(s: Seq<(u32, T)>, handle: u32) -> Option<int>
    decreases s.len(),
{
    if s.len() == 0 {
        None
    } else if s[0].0 == handle {
        Some(0)
    } else {
        match handle_position(s.drop_first(), handle) {
            Some(k) => Some(k + 1),
            None => None,
        }
    }
}

proof fn lemma_handle_position_found<T>(s: Seq<(u32, T)>, handle: u32, i: int)
    requires
        0 <= i < s.len(),
        s[i].0 == handle,
        forall|j: int| 0 <= j < i ==> s[j].0 != handle,
    ensures
        handle_position(s, handle) == Some(i),
    decreases i,
{
    if i > 0 {
        assert forall|j: int| 0 <= j < i - 1 implies s.drop_first()[j].0 != handle by {
            assert(s.drop_first()[j] == s[j + 1]);
        }
        lemma_handle_position_found(s.drop_first(), handle, i - 1);
    }
}

proof fn lemma_handle_position_absent<T>(s: Seq<(u32, T)>, handle: u32)
    requires
        forall|j: int| 0 <= j < s.len() ==> s[j].0 != handle,
    ensures
        handle_position(s, handle) is None,
    decreases s.len(),
{
    if s.len() > 0 {
        assert forall|j: int| 0 <= j < s.len() - 1 implies s.drop_first()[j].0 != handle by {
            assert(s.drop_first()[j] == s[j + 1]);
        }
        lemma_handle_position_absent(s.drop_first(), handle);
    }
}

/// The active watchers, each under its handle, in the order they were
/// registered.
pub struct WatcherRegistry<T> {
    entries: Vec<(u32, T)>,
}

impl<T> WatcherRegistry<T> {
    pub closed spec fn entries(self) -> Seq<(u32, T)> {
        self.entries@
    }

    pub fn new() -> (r: Self)
        ensures
            r.entries() == Seq::<(u32, T)>::empty(),
    {
        WatcherRegistry { entries: Vec::new() }
    }

    pub fn len(&self) -> (n: usize)
        ensures
            n == self.entries().len(),
    {
        self.entries.len()
    }

    /// Registers a watcher under `handle`, after the others.
    pub fn register(&mut self, handle: u32, payload: T)
        ensures
            final(self).entries() == old(self).entries().push((handle, payload)),
    {
        self.entries.push((handle, payload));
    }

    /// Removes the first watcher registered under `handle` and hands it back;
    /// `None`, with nothing changed, where there is none.
    pub fn remove_by_handle(&mut self, handle: u32) -> (r: Option<T>)
        ensures
            match handle_position(old(self).entries(), handle) {
                None => r is None && final(self).entries() == old(self).entries(),
                Some(k) => r == Some(old(self).entries()[k].1) && final(self).entries()
                    == old(self).entries().remove(k),
            },
    {
        let n = self.entries.len();
        let mut i: usize = 0;
        while i < n
            invariant
                n == self.entries@.len(),
                i <= n,
                self.entries@ == old(self).entries@,
                forall|j: int| 0 <= j < i ==> self.entries@[j].0 != handle,
            decreases n - i,
        {
            if self.entries[i].0 == handle {
                proof {
                    lemma_handle_position_found(self.entries@, handle, i as int);
                }
                let (_, payload) = self.entries.remove(i);
                return Some(payload);
            }
            i = i + 1;
        }
        proof {
            lemma_handle_position_absent(self.entries@, handle);
        }
        None
    }
}

/// Unsubscribing right after subscribing hands back the payload just
/// registered and restores the registry, where no other watcher had that
/// handle.
pub proof fn lemma_unsubscribe_after_subscribe<T>(before: Seq<(u32, T)>, handle: u32, payload: T)
    requires
        handle_position(before, handle) is None,
    ensures
        handle_position(before.push((handle, payload)), handle) == Some(before.len() as int),
        before.push((handle, payload))[before.len() as int].1 == payload,
        before.push((handle, payload)).remove(before.len() as int) == before,
{
    let after = before.push((handle, payload));
    assert forall|j: int| 0 <= j < before.len() implies after[j].0 != handle by {
        if after[j].0 == handle {
            assert(before[j].0 == handle);
            lemma_handle_position_found_or_earlier(before, handle, j);
        }
    }
    lemma_handle_position_found(after, handle, before.len() as int);
    assert(after.remove(before.len() as int) =~= before);
}

proof fn lemma_handle_position_found_or_earlier<T>(s: Seq<(u32, T)>, handle: u32, i: int)
    requires
        0 <= i < s.len(),
        s[i].0 == handle,
    ensures
        handle_position(s, handle) is Some,
    decreases i,
{
    if i > 0 && s[0].0 != handle {
        assert(s.drop_first()[i - 1] == s[i]);
        lemma_handle_position_found_or_earlier(s.drop_first(), handle, i - 1);
    }
}

/// What one poll of a watcher decides: whether to notify, and the state it
/// remembers.
pub open spec fn poll_step(last: bool, current: bool) -> (bool, bool) {
    (current != last, current)
}

/// Whether process `pid` is recording according to `probe`; `false` where the
/// walk over the devices failed.
pub open spec fn recording_now(probe: EndpointsProbe, pid: u32) -> bool {
    match audio_processes(probe) {
        Ok(ps) => process_recording(ps, pid),
        Err(_) => false,
    }
}

/// Watches whether one process is recording, notifying on each change.
pub struct ProcessStateWatch {
    process_id: u32,
    last_state: bool,
}

impl ProcessStateWatch {
    pub closed spec fn watched(self) -> u32 {
        self.process_id
    }

    /// The state seen at the last poll.
    pub closed spec fn last(self) -> bool {
        self.last_state
    }

    /// A watch that has not yet seen the process recording.
    pub fn new(process_id: u32) -> (w: Self)
        ensures
            w.watched() == process_id,
            !w.last(),
    {
        ProcessStateWatch { process_id, last_state: false }
    }

    pub fn process_id(&self) -> (pid: u32)
        ensures
            pid == self.watched(),
    {
        self.process_id
    }

    /// One poll: notifies exactly when whether the process records changed
    /// since the last poll.
    pub fn poll(&mut self, probe: &EndpointsProbe) -> (notify: bool)
        ensures
            final(self).watched() == old(self).watched(),
            (notify, final(self).last()) == poll_step(
                old(self).last(),
                recording_now(*probe, old(self).watched()),
            ),
    {
        let current = match is_process_actively_using_microphone(probe, self.process_id) {
            Ok(b) => b,
            Err(_) => false,
        };
        let notify = current != self.last_state;
        self.last_state = current;
        notify
    }
}

/// A second poll that sees the same state as the first does not notify.
pub proof fn lemma_poll_settles(last: bool, current: bool)
    ensures
        !poll_step(poll_step(last, current).1, current).0,
{
}

/// Watches the list of running processes, notifying on each change.
pub struct ProcessListWatch {
    last: Vec<u32>,
}

impl ProcessListWatch {
    /// The list seen is sorted without repeats.
    #[verifier::type_invariant]
    spec fn well_formed(self) -> bool {
        strictly_increasing(self.last@)
    }

    /// The process ids seen at the last poll.
    pub closed spec fn seen(self) -> Seq<u32> {
        self.last@
    }

    /// A watch that starts from the processes of `snapshot`.
    pub fn new(snapshot: &Vec<u32>) -> (w: Self)
        ensures
            strictly_increasing(w.seen()),
            same_ids(w.seen(), snapshot@),
    {
        ProcessListWatch { last: running_process_ids(snapshot) }
    }

    /// The process ids seen at the last poll, each once, in increasing order.
    pub fn processes(&self) -> (ids: Vec<u32>)
        ensures
            ids@ == self.seen(),
            strictly_increasing(ids@),
    {
        proof {
            use_type_invariant(self);
        }
        self.last.clone()
    }

    /// One poll: notifies exactly when the set of running processes changed
    /// since the last poll, and then remembers the new list.
    pub fn poll(&mut self, snapshot: &Vec<u32>) -> (notify: bool)
        ensures
            strictly_increasing(final(self).seen()),
            same_ids(final(self).seen(), snapshot@),
            notify == !same_ids(snapshot@, old(self).seen()),
    {
        proof {
            use_type_invariant(&*self);
        }
        let current = running_process_ids(snapshot);
        let n = current.len();
        let mut same = n == self.last.len();
        let mut i: usize = 0;
        while same && i < n
            invariant
                n == current@.len(),
                i <= n,
                same ==> n == self.last@.len(),
                same ==> forall|k: int| 0 <= k < i ==> current@[k] == self.last@[k],
                !same ==> current@ != self.last@,
            decreases n - i,
        {
            if current[i] != self.last[i] {
                same = false;
            }
            i = i + 1;
        }
        proof {
            if same {
                assert(current@ =~= self.last@);
            }
            lemma_listing_tracks_process_set(current@, current@, self.last@, self.last@);
            assert(same_ids(self.last@, self.last@));
            assert(same_ids(current@, current@));
            if same_ids(snapshot@, self.last@) {
                assert(same_ids(current@, self.last@));
            }
            if same_ids(current@, self.last@) {
                assert(same_ids(snapshot@, self.last@));
            }
        }
        if !same {
            self.last = current;
        }
        !same
    }
}

} // verus!
