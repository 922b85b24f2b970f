//! The durable queue of deferred jobs, ordered by the time they fall due, and
//! the dispatch of the jobs that have fallen due.
//!
//! The queue drives itself through a single wake-up: after every change the
//! caller arms the platform timer at `next_wakeup()`, or arms nothing when the
//! queue is empty.
use crate::one_time::{
    live_grants, live_users, users_same, NotesVault, OneTimeKeyView, ONE_TIME_KEY_EXPIRATION,
};
use crate::timestamp::{add_secs, add_secs_spec};
use crate::users::ANONYMOUS_USER_DATA_EXPIRATION;
use vstd::prelude::*;

verus! {

/// A deferred job.
#[derive(Debug, Clone, PartialEq, Eq)]
pub enum Task {
    /// Fetch and cache the public keys, then start the periodic clean-ups.
    Initialize,
    /// Remove expired anonymous users, then run again a period later.
    CleanUpAnonymousUsers,
    /// Remove expired grants, then run again a period later.
    CleanUpKeys,
    /// Send an email.
    SendEmail { email: String, subject: String, body: String },
    /// Send a text message.
    SendText { phone_number: String, body: String },
}

/// One scheduled occurrence of a task.
pub struct TaskTimerEntry {
    pub task: Task,
    pub time: u64,
}

/// Whether the entries fall due in order.
pub open spec fn sorted(s: Seq<TaskTimerEntry>) -> bool {
    forall|i: int, j: int| 0 <= i < j < s.len() ==> s[i].time <= s[j].time
}

/// `new` is `old` with `e` inserted at `p`, after every entry due no later
/// than `e` and before every entry due after it.
pub open spec fn inserted_at(
    old: Seq<TaskTimerEntry>,
    new: Seq<TaskTimerEntry>,
    e: TaskTimerEntry,
    p: int,
) -> bool {
    &&& 0 <= p <= old.len()
    &&& new == old.insert(p, e)
    &&& forall|i: int| 0 <= i < p ==> old[i].time <= e.time
    &&& forall|i: int| p <= i < old.len() ==> old[i].time > e.time
}

/// The first `k` entries of `s` are due at `now` and the others are not.
pub open spec fn split_at(s: Seq<TaskTimerEntry>, now: u64, k: int) -> bool {
    &&& 0 <= k <= s.len()
    &&& forall|i: int| 0 <= i < k ==> s[i].time <= now
    &&& forall|i: int| k <= i < s.len() ==> s[i].time > now
}

/// Draining `old` at `now` hands out `due` and keeps `rest`.
pub open spec fn drained(
    old: Seq<TaskTimerEntry>,
    now: u64,
    due: Seq<TaskTimerEntry>,
    rest: Seq<TaskTimerEntry>,
) -> bool {
    exists|k: int|
        split_at(old, now, k) && due == old.subrange(0, k) && rest == old.subrange(
            k,
            old.len() as int,
        )
}

/// The wake-up a queue needs: its earliest time, or none when it is empty.
pub open spec fn wakeup_of(s: Seq<TaskTimerEntry>) -> Option<u64> {
    if s.len() == 0 {
        None
    } else {
        Some(s[0].time)
    }
}

/// A task scheduled to run now and then drained runs exactly once: what is
/// handed out is what was already due with the new entry added once, what
/// stays is what was not due, and the next wake-up is the earliest of those.
pub proof fn lemma_schedule_now_then_drain(
    q: Seq<TaskTimerEntry>,
    e: TaskTimerEntry,
    p: int,
    q2: Seq<TaskTimerEntry>,
    now: u64,
    due: Seq<TaskTimerEntry>,
    rest: Seq<TaskTimerEntry>,
)
    requires
        sorted(q),
        e.time <= now,
        inserted_at(q, q2, e, p),
        drained(q2, now, due, rest),
    ensures
        exists|kq: int|
            split_at(q, now, kq) && p <= kq && due == q.subrange(0, kq).insert(p, e) && rest
                == q.subrange(kq, q.len() as int),
        sorted(rest),
        wakeup_of(rest) matches Some(t) ==> forall|i: int| 0 <= i < rest.len() ==> t <= rest[i].time,
{
    let k = choose|k: int|
        split_at(q2, now, k) && due == q2.subrange(0, k) && rest == q2.subrange(
            k,
            q2.len() as int,
        );
    assert(q2[p] == e);
    assert(p < k);
    let kq = k - 1;
    assert forall|i: int| 0 <= i < kq implies q[i].time <= now by {
        if i < p {
            assert(q2[i] == q[i]);
        } else {
            assert(q2[i + 1] == q[i]);
        }
    }
    assert forall|i: int| kq <= i < q.len() implies q[i].time > now by {
        assert(q2[i + 1] == q[i]);
    }
    assert(split_at(q, now, kq));
    assert(due =~= q.subrange(0, kq).insert(p, e));
    assert(rest =~= q.subrange(kq, q.len() as int));
}

/// The queue of scheduled tasks, earliest first.
pub struct TaskTimer {
    entries: Vec<TaskTimerEntry>,
}

impl TaskTimer {
    /// The scheduled entries, earliest first.
    pub closed spec fn view(&self) -> Seq<TaskTimerEntry> {
        self.entries@
    }

    /// An empty queue.
    pub fn new() -> (r: TaskTimer)
        ensures
            r.view() == Seq::<TaskTimerEntry>::empty(),
    {
        TaskTimer { entries: Vec::new() }
    }

    /// Inserts `timer` after every entry due no later than it.
    pub fn push_timer(&mut self, timer: TaskTimerEntry)
        requires
            sorted(old(self).view()),
        ensures
            sorted(final(self).view()),
            exists|p: int| inserted_at(old(self).view(), final(self).view(), timer, p),
    {
        let mut p: usize = 0;
        while p < self.entries.len() && self.entries[p].time <= timer.time
            invariant
                p <= self.entries@.len(),
                self.entries@ == old(self).view(),
                forall|i: int| 0 <= i < p ==> self.entries@[i].time <= timer.time,
            decreases self.entries@.len() - p,
        {
            p = p + 1;
        }
        let ghost e = timer;
        let ghost before = self.entries@;
        assert forall|i: int| p <= i < before.len() implies before[i].time > e.time by {
            assert(before[p as int].time > e.time);
        }
        self.entries.insert(p, timer);
        assert(inserted_at(old(self).view(), self.entries@, e, p as int));
    }

    /// The earliest entry.
    pub fn peek_timer(&self) -> (r: Option<&TaskTimerEntry>)
        ensures
            self.view().len() == 0 ==> r is None,
            self.view().len() > 0 ==> (r matches Some(e) && *e == self.view()[0]),
    {
        if self.entries.len() == 0 {
            None
        } else {
            Some(&self.entries[0])
        }
    }

    /// Removes and returns the earliest entry.
    pub fn pop_timer(&mut self) -> (r: Option<TaskTimerEntry>)
        ensures
            old(self).view().len() == 0 ==> r is None && final(self).view() == old(self).view(),
            old(self).view().len() > 0 ==> (r matches Some(e) && e == old(self).view()[0])
                && final(self).view() == old(self).view().subrange(
                1,
                old(self).view().len() as int,
            ),
    {
        if self.entries.len() == 0 {
            None
        } else {
            let e = self.entries.remove(0);
            assert(self.entries@ =~= old(self).view().subrange(1, old(self).view().len() as int));
            Some(e)
        }
    }

    /// The time to arm the wake-up at: the earliest entry's, if any.
    pub fn next_wakeup(&self) -> (r: Option<u64>)
        ensures
            r == wakeup_of(self.view()),
    {
        if self.entries.len() == 0 {
            None
        } else {
            Some(self.entries[0].time)
        }
    }

    /// All scheduled entries, earliest first.
    pub fn get_timers(&self) -> (r: &[TaskTimerEntry])
        ensures
            r@ == self.view(),
    {
        self.entries.as_slice()
    }

    /// Removes and returns, earliest first, every entry due at `now`.
    pub fn drain(&mut self, now: u64) -> (r: Vec<TaskTimerEntry>)
        requires
            sorted(old(self).view()),
        ensures
            sorted(final(self).view()),
            drained(old(self).view(), now, r@, final(self).view()),
    {
        let mut due: Vec<TaskTimerEntry> = Vec::new();
        loop
            invariant
                sorted(self.entries@),
                due@ + self.entries@ == old(self).view(),
                forall|i: int| 0 <= i < due@.len() ==> due@[i].time <= now,
            ensures
                sorted(self.entries@),
                due@ + self.entries@ == old(self).view(),
                forall|i: int| 0 <= i < due@.len() ==> due@[i].time <= now,
                self.entries@.len() == 0 || self.entries@[0].time > now,
            decreases self.entries@.len(),
        {
            let is_due = match self.peek_timer() {
                Some(e) => e.time <= now,
                None => false,
            };
            if !is_due {
                break;
            }
            let ghost before = self.entries@;
            match self.pop_timer() {
                Some(e) => {
                    due.push(e);
                    assert(due@ + self.entries@ =~= old(self).view());
                },
                None => {
                    break;
                },
            }
        }
        let ghost k = due@.len() as int;
        let ghost all = old(self).view();
        assert(due@ =~= all.subrange(0, k));
        assert(self.entries@ =~= all.subrange(k, all.len() as int));
        assert forall|i: int| k <= i < all.len() implies all[i].time > now by {
            assert(all[k] == self.entries@[0]);
            assert(all[i] == self.entries@[i - k]);
        }
        assert(split_at(all, now, k));
        due
    }
}

/// Schedules `task` to fall due `after_sec` seconds after `now`, and returns
/// the wake-up to arm.
pub fn schedule_task(timer: &mut TaskTimer, now: u64, after_sec: u64, task: Task) -> (r: Option<
    u64,
>)
    requires
        sorted(old(timer).view()),
    ensures
        sorted(final(timer).view()),
        exists|p: int|
            inserted_at(
                old(timer).view(),
                final(timer).view(),
                TaskTimerEntry { task, time: add_secs_spec(now, after_sec) },
                p,
            ),
        r == wakeup_of(final(timer).view()),
        r is Some,
{
    let time = add_secs(now, after_sec);
    timer.push_timer(TaskTimerEntry { task, time });
    reschedule(timer)
}

/// The wake-up to arm for the queue as it stands.
pub fn reschedule(timer: &TaskTimer) -> (r: Option<u64>)
    ensures
        r == wakeup_of(timer.view()),
{
    timer.next_wakeup()
}

/// What the caller must do after a task ran: work that needs the outside world.
#[derive(Debug, PartialEq, Eq)]
pub enum TaskAction {
    /// Nothing further.
    Done,
    /// Fetch the public keys from the key-derivation service and cache them.
    FetchKeys,
    /// Hand the message task to the external channel.
    Send(Task),
}

/// The outside work that running `task` leaves to the caller.
pub open spec fn action_for(task: Task, a: TaskAction) -> bool {
    match task {
        Task::Initialize => a == TaskAction::FetchKeys,
        Task::CleanUpKeys => a == TaskAction::Done,
        Task::CleanUpAnonymousUsers => a == TaskAction::Done,
        Task::SendEmail { .. } => a == TaskAction::Send(task),
        Task::SendText { .. } => a == TaskAction::Send(task),
    }
}

/// The periodic grant clean-up, due one grant lifetime after `now`.
pub open spec fn next_key_cleanup(now: u64) -> TaskTimerEntry {
    TaskTimerEntry { task: Task::CleanUpKeys, time: add_secs_spec(now, ONE_TIME_KEY_EXPIRATION) }
}

/// The periodic user clean-up, due one user lifetime after `now`.
pub open spec fn next_user_cleanup(now: u64) -> TaskTimerEntry {
    TaskTimerEntry {
        task: Task::CleanUpAnonymousUsers,
        time: add_secs_spec(now, ANONYMOUS_USER_DATA_EXPIRATION),
    }
}

/// The entries that running `task` at `now` schedules.
pub open spec fn follow_ups(task: Task, now: u64) -> Seq<TaskTimerEntry> {
    match task {
        Task::Initialize => seq![next_key_cleanup(now), next_user_cleanup(now)],
        Task::CleanUpKeys => seq![next_key_cleanup(now)],
        Task::CleanUpAnonymousUsers => seq![next_user_cleanup(now)],
        Task::SendEmail { .. } => Seq::empty(),
        Task::SendText { .. } => Seq::empty(),
    }
}

/// The entries that running each task of `due` at `now`, in order, schedules.
pub open spec fn all_follow_ups(due: Seq<TaskTimerEntry>, now: u64) -> Seq<TaskTimerEntry>
    decreases due.len(),
{
    if due.len() == 0 {
        Seq::empty()
    } else {
        all_follow_ups(due.drop_last(), now) + follow_ups(due.last().task, now)
    }
}

/// Whether some entry of `due` is the task `t`.
pub open spec fn ran(due: Seq<TaskTimerEntry>, t: Task) -> bool {
    exists|i: int| 0 <= i < due.len() && due[i].task == t
}

/// The grants after a grant clean-up at `now`, if `cleaned`.
pub open spec fn grants_after(
    g: Map<u64, OneTimeKeyView>,
    now: u64,
    cleaned: bool,
) -> Map<u64, OneTimeKeyView> {
    if cleaned {
        live_grants(g, now)
    } else {
        g
    }
}

/// `v` holds the users of `v0`, after a user clean-up at `now` if `cleaned`.
pub open spec fn users_after(v0: NotesVault, v: NotesVault, now: u64, cleaned: bool) -> bool {
    if cleaned {
        &&& v.user_texts() == live_users(v0.user_texts(), v0.user_created(), now)
        &&& v.user_created() == live_users(v0.user_created(), v0.user_created(), now)
        &&& v.user_keys() == live_users(v0.user_keys(), v0.user_created(), now)
    } else {
        users_same(v, v0)
    }
}

/// An inserted entry adds one occurrence of it.
pub proof fn lemma_inserted_multiset(
    old: Seq<TaskTimerEntry>,
    new: Seq<TaskTimerEntry>,
    e: TaskTimerEntry,
    p: int,
)
    requires
        inserted_at(old, new, e, p),
    ensures
        new.to_multiset() == old.to_multiset().insert(e),
{
    vstd::seq_lib::to_multiset_insert(old, p, e);
}

/// Runs `task` at `now` on the vault and the queue, and says what outside
/// work remains.
pub fn execute_task(vault: &mut NotesVault, timer: &mut TaskTimer, task: Task, now: u64) -> (r:
    TaskAction)
    requires
        old(vault).wf(),
        sorted(old(timer).view()),
    ensures
        final(vault).wf(),
        sorted(final(timer).view()),
        action_for(task, r),
        final(timer).view().to_multiset() == old(timer).view().to_multiset().add(
            follow_ups(task, now).to_multiset(),
        ),
        final(vault).grants() == grants_after(old(vault).grants(), now, task == Task::CleanUpKeys),
        users_after(*old(vault), *final(vault), now, task == Task::CleanUpAnonymousUsers),
        final(vault).notes() == old(vault).notes(),
        final(vault).nonce_view() == old(vault).nonce_view(),
        final(vault).grant_ttl() == old(vault).grant_ttl(),
{
    broadcast use vstd::seq_lib::group_to_multiset_ensures;
    broadcast use vstd::multiset::group_multiset_axioms;

    let ghost q0 = timer.view();
    let ghost t = task;
    match task {
        Task::Initialize => {
            schedule_task(timer, now, ONE_TIME_KEY_EXPIRATION, Task::CleanUpKeys);
            let ghost q1 = timer.view();
            schedule_task(
                timer,
                now,
                ANONYMOUS_USER_DATA_EXPIRATION,
                Task::CleanUpAnonymousUsers,
            );
            proof {
                let p1 = choose|p: int| inserted_at(q0, q1, next_key_cleanup(now), p);
                lemma_inserted_multiset(q0, q1, next_key_cleanup(now), p1);
                let p2 = choose|p: int| inserted_at(q1, timer.view(), next_user_cleanup(now), p);
                lemma_inserted_multiset(q1, timer.view(), next_user_cleanup(now), p2);
                assert(follow_ups(t, now) =~= seq![next_key_cleanup(now)].push(
                    next_user_cleanup(now),
                ));
                assert(seq![next_key_cleanup(now)] =~= Seq::<TaskTimerEntry>::empty().push(
                    next_key_cleanup(now),
                ));
                assert(timer.view().to_multiset() =~= q0.to_multiset().add(
                    follow_ups(t, now).to_multiset(),
                ));
            }
            TaskAction::FetchKeys
        },
        Task::CleanUpKeys => {
            vault.remove_expired_one_time_keys(now);
            schedule_task(timer, now, ONE_TIME_KEY_EXPIRATION, Task::CleanUpKeys);
            proof {
                let p = choose|p: int| inserted_at(q0, timer.view(), next_key_cleanup(now), p);
                lemma_inserted_multiset(q0, timer.view(), next_key_cleanup(now), p);
                assert(follow_ups(t, now) =~= Seq::<TaskTimerEntry>::empty().push(
                    next_key_cleanup(now),
                ));
                assert(timer.view().to_multiset() =~= q0.to_multiset().add(
                    follow_ups(t, now).to_multiset(),
                ));
            }
            TaskAction::Done
        },
        Task::CleanUpAnonymousUsers => {
            vault.remove_expired_anonymous_users(now);
            schedule_task(
                timer,
                now,
                ANONYMOUS_USER_DATA_EXPIRATION,
                Task::CleanUpAnonymousUsers,
            );
            proof {
                let p = choose|p: int| inserted_at(q0, timer.view(), next_user_cleanup(now), p);
                lemma_inserted_multiset(q0, timer.view(), next_user_cleanup(now), p);
                assert(follow_ups(t, now) =~= Seq::<TaskTimerEntry>::empty().push(
                    next_user_cleanup(now),
                ));
                assert(timer.view().to_multiset() =~= q0.to_multiset().add(
                    follow_ups(t, now).to_multiset(),
                ));
            }
            TaskAction::Done
        },
        Task::SendEmail { email, subject, body } => {
            assert(timer.view().to_multiset() =~= q0.to_multiset().add(
                follow_ups(t, now).to_multiset(),
            ));
            TaskAction::Send(Task::SendEmail { email, subject, body })
        },
        Task::SendText { phone_number, body } => {
            assert(timer.view().to_multiset() =~= q0.to_multiset().add(
                follow_ups(t, now).to_multiset(),
            ));
            TaskAction::Send(Task::SendText { phone_number, body })
        },
    }
}

/// What the timer handler did: the outside work of the tasks it ran, in the
/// order they ran, and the wake-up to arm next.
pub struct TimerOutcome {
    pub actions: Vec<TaskAction>,
    pub wake_at: Option<u64>,
}

/// Handles a wake-up at `now`: takes every entry that has fallen due, runs
/// them earliest first, and returns the wake-up for what is left.
///
/// Afterwards the queue holds exactly the entries that were not due and those
/// the tasks that ran scheduled; each due task ran once, and the grant and
/// user clean-ups took effect if one of them was due.
pub fn global_timer(vault: &mut NotesVault, timer: &mut TaskTimer, now: u64) -> (r: TimerOutcome)
    requires
        old(vault).wf(),
        sorted(old(timer).view()),
    ensures
        final(vault).wf(),
        sorted(final(timer).view()),
        r.wake_at == wakeup_of(final(timer).view()),
        exists|due: Seq<TaskTimerEntry>, rest: Seq<TaskTimerEntry>|
            {
                &&& drained(old(timer).view(), now, due, rest)
                &&& r.actions@.len() == due.len()
                &&& forall|k: int|
                    0 <= k < due.len() ==> action_for(due[k].task, #[trigger] r.actions@[k])
                &&& final(timer).view().to_multiset() == rest.to_multiset().add(
                    all_follow_ups(due, now).to_multiset(),
                )
                &&& final(vault).grants() == grants_after(
                    old(vault).grants(),
                    now,
                    ran(due, Task::CleanUpKeys),
                )
                &&& users_after(*old(vault), *final(vault), now, ran(due, Task::CleanUpAnonymousUsers))
            },
        final(vault).notes() == old(vault).notes(),
        final(vault).nonce_view() == old(vault).nonce_view(),
        final(vault).grant_ttl() == old(vault).grant_ttl(),
{
    broadcast use vstd::seq_lib::group_to_multiset_ensures;
    broadcast use vstd::multiset::group_multiset_axioms;

    let mut due = timer.drain(now);
    let ghost due_seq = due@;
    let ghost rest = timer.view();
    let ghost v0 = *vault;
    let ghost g0 = vault.grants();
    let mut actions: Vec<TaskAction> = Vec::new();
    assert(due_seq.subrange(0, 0) =~= Seq::<TaskTimerEntry>::empty());
    assert(timer.view().to_multiset() =~= rest.to_multiset().add(
        all_follow_ups(due_seq.subrange(0, 0), now).to_multiset(),
    ));
    while due.len() > 0
        invariant
            vault.wf(),
            sorted(timer.view()),
            vault.notes() == v0.notes(),
            vault.nonce_view() == v0.nonce_view(),
            vault.grant_ttl() == v0.grant_ttl(),
            v0 == *old(vault),
            g0 == v0.grants(),
            actions@.len() <= due_seq.len(),
            due@ == due_seq.subrange(actions@.len() as int, due_seq.len() as int),
            forall|k: int|
                0 <= k < actions@.len() ==> action_for(due_seq[k].task, #[trigger] actions@[k]),
            timer.view().to_multiset() == rest.to_multiset().add(
                all_follow_ups(due_seq.subrange(0, actions@.len() as int), now).to_multiset(),
            ),
            vault.grants() == grants_after(
                g0,
                now,
                ran(due_seq.subrange(0, actions@.len() as int), Task::CleanUpKeys),
            ),
            users_after(
                v0,
                *vault,
                now,
                ran(due_seq.subrange(0, actions@.len() as int), Task::CleanUpAnonymousUsers),
            ),
        decreases due@.len(),
    {
        let ghost k = actions@.len() as int;
        let ghost before = *vault;
        let ghost q_before = timer.view();
        let ghost prefix = due_seq.subrange(0, k);
        let ghost next = due_seq.subrange(0, k + 1);
        let entry = due.remove(0);
        assert(entry == due_seq[k]);
        let ghost t = entry.task;
        let action = execute_task(vault, timer, entry.task, now);
        actions.push(action);
        proof {
            assert(next.drop_last() =~= prefix);
            assert(next.last() == due_seq[k]);
            lemma_ran_push(prefix, next, Task::CleanUpKeys);
            lemma_ran_push(prefix, next, Task::CleanUpAnonymousUsers);
            vstd::seq_lib::lemma_multiset_commutative(
                all_follow_ups(prefix, now),
                follow_ups(t, now),
            );
            assert(timer.view().to_multiset() =~= rest.to_multiset().add(
                all_follow_ups(next, now).to_multiset(),
            ));
            assert(live_grants(live_grants(g0, now), now) =~= live_grants(g0, now));
            let c0 = v0.user_created();
            assert(live_users(live_users(v0.user_texts(), c0, now), live_users(c0, c0, now), now)
                =~= live_users(v0.user_texts(), c0, now));
            assert(live_users(live_users(c0, c0, now), live_users(c0, c0, now), now)
                =~= live_users(c0, c0, now));
            assert(live_users(live_users(v0.user_keys(), c0, now), live_users(c0, c0, now), now)
                =~= live_users(v0.user_keys(), c0, now));
        }
        assert(due@ =~= due_seq.subrange(actions@.len() as int, due_seq.len() as int));
    }
    assert(due_seq.subrange(0, actions@.len() as int) =~= due_seq);
    assert(drained(old(timer).view(), now, due_seq, rest));
    TimerOutcome { actions, wake_at: reschedule(timer) }
}

/// Whether `t` is among the first `k + 1` entries: among the first `k`, or the
/// last one.
proof fn lemma_ran_push(prefix: Seq<TaskTimerEntry>, next: Seq<TaskTimerEntry>, t: Task)
    requires
        next.len() == prefix.len() + 1,
        next.drop_last() == prefix,
    ensures
        ran(next, t) == (ran(prefix, t) || next.last().task == t),
{
    if ran(prefix, t) {
        let i = choose|i: int| 0 <= i < prefix.len() && prefix[i].task == t;
        assert(next[i] == prefix[i]);
    }
    if ran(next, t) && next.last().task != t {
        let i = choose|i: int| 0 <= i < next.len() && next[i].task == t;
        assert(prefix[i] == next[i]);
    }
    if next.last().task == t {
        assert(next[next.len() - 1].task == t);
    }
}

} // verus!
