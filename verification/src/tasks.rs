//! Background tasks: the tickets they run under, the stages a ticket passes
//! through, and the task that the status bar reports.
use std::collections::HashSet;
use vstd::prelude::*;
use vstd::set_lib::set_int_range;

verus! {

broadcast use vstd::std_specs::hash::group_hash_axioms;

/// Stable identity for one background operation. Every pending receiver owns
/// exactly one ticket, so that it settles its own progress and no other.
#[derive(Clone, Copy, Debug, PartialEq, Eq, Structural)]
pub struct BackgroundTaskTicket(pub u64);

/// A task that the status bar should show, with the live progress that its
/// worker reports through.
pub struct ReportedTask<P> {
    pub ticket: BackgroundTaskTicket,
    pub label: String,
    pub progress: P,
}

/// A load whose result has not come in.
#[derive(Debug, Clone, Copy, PartialEq, Eq, Structural)]
pub struct PendingLoad {
    pub ticket: BackgroundTaskTicket,
    /// The console has a report of it.
    pub has_report: bool,
}

/// Some load runs under the ticket.
pub open spec fn loads_hold(loads: Seq<PendingLoad>, id: u64) -> bool {
    exists|i: int| 0 <= i < loads.len() && (#[trigger] loads[i]).ticket.0 == id
}

/// What a worker's progress stood at when it was looked at.
pub struct ProgressSnapshot<F, U> {
    pub fraction: F,
    pub units: Option<U>,
}

/// What the status bar shows of a running task.
pub struct StatusBarMessage<F, U> {
    pub text: String,
    pub progress: Option<F>,
    pub units: Option<U>,
}

/// The tickets in flight, by stage, and the tasks the status bar may show.
pub struct BackgroundTaskState<P> {
    /// Where the search for a free ticket starts.
    pub next_ticket: u64,
    /// Work is running on a background thread.
    pub cpu_pending: HashSet<u64>,
    /// The result is in and waits to be applied.
    pub awaiting_apply: HashSet<u64>,
    /// The result is applied and waits for its upload to the GPU.
    pub gpu_pending: HashSet<u64>,
    /// Tasks with a label, oldest first: the bar shows the longest-running one
    /// rather than flickering between several.
    pub reported: Vec<ReportedTask<P>>,
}

/// The `k`-th ticket at or after `start`, going round after the last one.
pub open spec fn nth_ticket(start: u64, k: nat) -> u64 {
    ((start + k) % 0x1_0000_0000_0000_0000) as u64
}

impl<P> BackgroundTaskState<P> {
    /// A ticket is in flight while any stage holds it.
    pub open spec fn in_flight(&self, id: u64) -> bool {
        self.cpu_pending@.contains(id) || self.awaiting_apply@.contains(id)
            || self.gpu_pending@.contains(id)
    }

    /// Some ticket is in flight.
    pub open spec fn busy(&self) -> bool {
        exists|id: u64| self.in_flight(id)
    }

    /// How many tickets the stages hold.
    pub open spec fn in_flight_count(&self) -> nat {
        self.cpu_pending@.len() + self.awaiting_apply@.len() + self.gpu_pending@.len()
    }

    /// A ticket is at one stage at a time.
    pub open spec fn wf(&self) -> bool {
        &&& self.cpu_pending@.disjoint(self.awaiting_apply@)
        &&& self.cpu_pending@.disjoint(self.gpu_pending@)
        &&& self.awaiting_apply@.disjoint(self.gpu_pending@)
        &&& self.cpu_pending@.finite()
        &&& self.awaiting_apply@.finite()
        &&& self.gpu_pending@.finite()
    }

    /// `k` is the number of taken tickets at and after the search's start.
    pub open spec fn first_free(&self, k: nat) -> bool {
        &&& !self.in_flight(nth_ticket(self.next_ticket, k))
        &&& forall|j: nat| j < k ==> self.in_flight(#[trigger] nth_ticket(self.next_ticket, j))
    }

    /// Some ticket is free as long as fewer are in flight than there are.
    pub proof fn a_ticket_is_free(&self) -> (k: nat)
        requires
            self.wf(),
            self.in_flight_count() <= u64::MAX,
        ensures
            !self.in_flight(nth_ticket(self.next_ticket, k)),
    {
        let all = set_int_range(0, 0x1_0000_0000_0000_0000);
        let start = self.next_ticket;
        let nth = |i: int| nth_ticket(start, i as nat);
        vstd::set_lib::lemma_int_range(0, 0x1_0000_0000_0000_0000);
        if forall|k: nat| self.in_flight(#[trigger] nth_ticket(start, k)) {
            assert forall|i: int, j: int|
                all.contains(i) && all.contains(j) && #[trigger] nth(i) == #[trigger] nth(
                    j,
                ) implies i == j by {}
            let image = all.map(nth);
            vstd::set_lib::lemma_map_size(all, image, nth);
            let ab = self.cpu_pending@.union(self.awaiting_apply@);
            let taken = ab.union(self.gpu_pending@);
            vstd::set_lib::lemma_len_union(self.cpu_pending@, self.awaiting_apply@);
            vstd::set_lib::lemma_len_union(ab, self.gpu_pending@);
            assert(image.subset_of(taken)) by {
                assert forall|id: u64| image.contains(id) implies taken.contains(id) by {
                    let i = choose|i: int| all.contains(i) && nth(i) == id;
                    assert(self.in_flight(nth_ticket(start, i as nat)));
                }
            }
            vstd::set_lib::lemma_len_subset(image, taken);
            assert(false);
        }
        choose|k: nat| !self.in_flight(#[trigger] nth_ticket(start, k))
    }

    /// No tasks.
    pub fn new() -> (state: BackgroundTaskState<P>)
        ensures
            state.wf(),
            state.next_ticket == 0,
            state.cpu_pending@ == Set::<u64>::empty(),
            state.awaiting_apply@ == Set::<u64>::empty(),
            state.gpu_pending@ == Set::<u64>::empty(),
            state.reported@ == Seq::<ReportedTask<P>>::empty(),
    {
        BackgroundTaskState {
            next_ticket: 0,
            cpu_pending: HashSet::new(),
            awaiting_apply: HashSet::new(),
            gpu_pending: HashSet::new(),
            reported: Vec::new(),
        }
    }

    /// Takes the first free ticket and starts its first stage.
    pub fn begin(&mut self) -> (ticket: BackgroundTaskTicket)
        requires
            old(self).wf(),
            old(self).in_flight_count() <= u64::MAX,
        ensures
            exists|k: nat| #[trigger]
                old(self).first_free(k) && ticket.0 == nth_ticket(old(self).next_ticket, k)
                    && final(self).next_ticket == nth_ticket(old(self).next_ticket, k + 1),
            !old(self).in_flight(ticket.0),
            final(self).cpu_pending@ == old(self).cpu_pending@.insert(ticket.0),
            final(self).awaiting_apply == old(self).awaiting_apply,
            final(self).gpu_pending == old(self).gpu_pending,
            final(self).reported == old(self).reported,
            final(self).wf(),
    {
        let ghost start = self.next_ticket;
        let ghost free: nat = self.a_ticket_is_free();
        let ghost mut k: nat = 0;
        loop
            invariant
                k <= free,
                old(self).wf(),
                start == old(self).next_ticket,
                self.next_ticket == nth_ticket(start, k),
                self.cpu_pending@ == old(self).cpu_pending@,
                self.awaiting_apply == old(self).awaiting_apply,
                self.gpu_pending == old(self).gpu_pending,
                self.reported == old(self).reported,
                !old(self).in_flight(nth_ticket(start, free)),
                forall|j: nat| j < k ==> old(self).in_flight(#[trigger] nth_ticket(start, j)),
            decreases free - k,
        {
            let id: u64 = self.next_ticket;
            self.next_ticket = self.next_ticket.wrapping_add(1);
            if !self.awaiting_apply.contains(&id) && !self.gpu_pending.contains(&id) {
                if self.cpu_pending.insert(id) {
                    proof {
                        assert(old(self).first_free(k));
                    }
                    return BackgroundTaskTicket(id);
                }
                proof {
                    assert(self.cpu_pending@ =~= old(self).cpu_pending@);
                }
            }
            proof {
                assert(old(self).in_flight(id));
                k = k + 1;
            }
        }
    }

    /// Puts a task on the list that the status bar draws from.
    pub fn report(&mut self, ticket: BackgroundTaskTicket, label: String, progress: P)
        ensures
            final(self).reported@ == old(self).reported@.push(
                ReportedTask { ticket, label, progress },
            ),
            *final(self) == (BackgroundTaskState { reported: final(self).reported, ..*old(self) }),
    {
        self.reported.push(ReportedTask { ticket, label, progress });
    }

    /// The reports that are not of `ticket`, in the same order.
    pub open spec fn reports_without(
        reports: Seq<ReportedTask<P>>,
        ticket: BackgroundTaskTicket,
    ) -> Seq<ReportedTask<P>> {
        reports.filter(|task: ReportedTask<P>| task.ticket != ticket)
    }

    /// Takes a task off the status bar's list.
    pub fn stop_reporting(&mut self, ticket: BackgroundTaskTicket)
        ensures
            final(self).reported@ == Self::reports_without(old(self).reported@, ticket),
            *final(self) == (BackgroundTaskState { reported: final(self).reported, ..*old(self) }),
    {
        let ghost before = self.reported@;
        let ghost keep = |task: ReportedTask<P>| task.ticket != ticket;
        let ghost mut seen: int = 0;
        let mut i: usize = 0;
        proof {
            assert(before.take(0).filter(keep) =~= Seq::empty()) by {
                reveal(Seq::filter);
            }
            assert(self.reported@ =~= before.take(0).filter(keep) + before.skip(0));
        }
        while i < self.reported.len()
            invariant
                0 <= seen <= before.len(),
                before == old(self).reported@,
                keep == (|task: ReportedTask<P>| task.ticket != ticket),
                i == before.take(seen).filter(keep).len(),
                self.reported@ == before.take(seen).filter(keep) + before.skip(seen),
                *self == (BackgroundTaskState { reported: self.reported, ..*old(self) }),
            decreases before.len() - seen,
        {
            let ghost kept = before.take(seen).filter(keep);
            proof {
                reveal(Seq::filter);
                assert(self.reported@[i as int] == before[seen]);
                assert(before.take(seen + 1).drop_last() =~= before.take(seen));
                assert(before.take(seen + 1).last() == before[seen]);
            }
            if self.reported[i].ticket.0 == ticket.0 {
                let _removed: ReportedTask<P> = self.reported.remove(i);
                proof {
                    assert(self.reported@ =~= kept + before.skip(seen + 1));
                }
            } else {
                proof {
                    assert(self.reported@ =~= kept.push(before[seen]) + before.skip(seen + 1));
                }
                i += 1;
            }
            proof {
                seen = seen + 1;
            }
        }
        proof {
            assert(seen == before.len());
            assert(before.take(seen) =~= before);
            assert(self.reported@ =~= before.filter(keep));
        }
    }

    /// The task that the status bar shows: the one reported longest.
    pub fn oldest_reported(&self) -> (task: Option<&ReportedTask<P>>)
        ensures
            task == (if self.reported@.len() == 0 {
                None::<&ReportedTask<P>>
            } else {
                Some(&self.reported@[0])
            }),
    {
        if self.reported.len() == 0 {
            None
        } else {
            Some(&self.reported[0])
        }
    }

    /// What the status bar should show, given what the progress of the oldest
    /// reported task stands at.
    pub fn status_message<F, U>(&self, snapshot: Option<ProgressSnapshot<F, U>>) -> (message: Option<
        StatusBarMessage<F, U>,
    >)
        ensures
            message is Some <==> self.reported@.len() > 0,
            message is Some ==> {
                &&& message->0.text@ == self.reported@[0].label@
                &&& message->0.progress == (match snapshot {
                    Some(s) => Some(s.fraction),
                    None => None,
                })
                &&& message->0.units == (match snapshot {
                    Some(s) => s.units,
                    None => None,
                })
            },
    {
        match self.oldest_reported() {
            None => None,
            Some(task) => {
                let text: String = task.label.clone();
                match snapshot {
                    None => Some(StatusBarMessage { text, progress: None, units: None }),
                    Some(s) => Some(
                        StatusBarMessage { text, progress: Some(s.fraction), units: s.units },
                    ),
                }
            },
        }
    }

    /// Ends a ticket's background work: it passes through the apply stage and
    /// is done, or waits for its upload. `known` tells whether the ticket had
    /// such work; where it had not, only its reports go.
    pub fn settle_cpu(&mut self, ticket: BackgroundTaskTicket, needs_gpu: bool) -> (known: bool)
        ensures
            known == old(self).cpu_pending@.contains(ticket.0),
            final(self).next_ticket == old(self).next_ticket,
            final(self).cpu_pending@ == old(self).cpu_pending@.remove(ticket.0),
            final(self).awaiting_apply@ == (if known {
                old(self).awaiting_apply@.remove(ticket.0)
            } else {
                old(self).awaiting_apply@
            }),
            final(self).gpu_pending@ == (if known && needs_gpu {
                old(self).gpu_pending@.insert(ticket.0)
            } else {
                old(self).gpu_pending@
            }),
            final(self).reported@ == Self::reports_without(old(self).reported@, ticket),
            old(self).wf() ==> final(self).wf(),
            old(self).wf() && known ==> final(self).in_flight(ticket.0) == needs_gpu,
            forall|id: u64|
                id != ticket.0 ==> #[trigger] final(self).in_flight(id) == old(self).in_flight(id),
    {
        self.stop_reporting(ticket);
        if !self.cpu_pending.remove(&ticket.0) {
            proof {
                assert(self.cpu_pending@ =~= old(self).cpu_pending@.remove(ticket.0));
            }
            return false;
        }
        let _inserted: bool = self.awaiting_apply.insert(ticket.0);
        let _removed: bool = self.awaiting_apply.remove(&ticket.0);
        proof {
            assert(self.awaiting_apply@ =~= old(self).awaiting_apply@.remove(ticket.0));
        }
        if needs_gpu {
            let _inserted: bool = self.gpu_pending.insert(ticket.0);
        }
        true
    }

    /// Takes a ticket out of the first stage that holds it. `known` tells
    /// whether any did.
    pub fn cancel(&mut self, ticket: BackgroundTaskTicket) -> (known: bool)
        ensures
            known == old(self).in_flight(ticket.0),
            final(self).next_ticket == old(self).next_ticket,
            final(self).cpu_pending@ == old(self).cpu_pending@.remove(ticket.0),
            final(self).awaiting_apply@ == (if old(self).cpu_pending@.contains(ticket.0) {
                old(self).awaiting_apply@
            } else {
                old(self).awaiting_apply@.remove(ticket.0)
            }),
            final(self).gpu_pending@ == (if old(self).cpu_pending@.contains(ticket.0)
                || old(self).awaiting_apply@.contains(ticket.0) {
                old(self).gpu_pending@
            } else {
                old(self).gpu_pending@.remove(ticket.0)
            }),
            final(self).reported@ == Self::reports_without(old(self).reported@, ticket),
            old(self).wf() ==> final(self).wf(),
            old(self).wf() ==> !final(self).in_flight(ticket.0),
            forall|id: u64|
                id != ticket.0 ==> #[trigger] final(self).in_flight(id) == old(self).in_flight(id),
    {
        self.stop_reporting(ticket);
        let known: bool = self.cpu_pending.remove(&ticket.0) || self.awaiting_apply.remove(
            &ticket.0,
        ) || self.gpu_pending.remove(&ticket.0);
        proof {
            assert(self.cpu_pending@ =~= old(self).cpu_pending@.remove(ticket.0));
            assert(!old(self).cpu_pending@.contains(ticket.0) ==> self.awaiting_apply@
                =~= old(self).awaiting_apply@.remove(ticket.0));
            assert(!old(self).cpu_pending@.contains(ticket.0) && !old(
                self,
            ).awaiting_apply@.contains(ticket.0) ==> self.gpu_pending@ =~= old(
                self,
            ).gpu_pending@.remove(ticket.0));
        }
        known
    }

    /// The state without the tickets of the loads.
    pub open spec fn without_loads(&self, loads: Seq<PendingLoad>, after: &Self) -> bool {
        &&& after.next_ticket == self.next_ticket
        &&& after.cpu_pending@ == self.cpu_pending@.filter(|id: u64| !loads_hold(loads, id))
        &&& after.awaiting_apply@ == self.awaiting_apply@.filter(|id: u64| !loads_hold(loads, id))
        &&& after.gpu_pending@ == self.gpu_pending@.filter(|id: u64| !loads_hold(loads, id))
        &&& after.reported@ == self.reported@.filter(
            |task: ReportedTask<P>| !loads_hold(loads, task.ticket.0),
        )
    }

    /// Cancels the tickets of the loads.
    pub fn cancel_loads(&mut self, loads: &Vec<PendingLoad>)
        requires
            old(self).wf(),
        ensures
            old(self).without_loads(loads@, final(self)),
            final(self).wf(),
    {
        let mut i: usize = 0;
        proof {
            lemma_filter_all(self.reported@, |task: ReportedTask<P>|
                !loads_hold(loads@.take(0), task.ticket.0));
            assert(old(self).without_loads(loads@.take(0), self)) by {
                assert(self.cpu_pending@ =~= self.cpu_pending@.filter(
                    |id: u64| !loads_hold(loads@.take(0), id),
                ));
                assert(self.awaiting_apply@ =~= self.awaiting_apply@.filter(
                    |id: u64| !loads_hold(loads@.take(0), id),
                ));
                assert(self.gpu_pending@ =~= self.gpu_pending@.filter(
                    |id: u64| !loads_hold(loads@.take(0), id),
                ));
            }
        }
        while i < loads.len()
            invariant
                i <= loads@.len(),
                self.wf(),
                old(self).without_loads(loads@.take(i as int), self),
            decreases loads.len() - i,
        {
            let ticket: BackgroundTaskTicket = loads[i].ticket;
            let ghost done = loads@.take(i as int);
            let ghost more = loads@.take(i + 1);
            let ghost before = *self;
            let _known: bool = self.cancel(ticket);
            proof {
                lemma_one_more_load(loads@, i as int);
                let kept = |task: ReportedTask<P>| !loads_hold(done, task.ticket.0);
                let other = |task: ReportedTask<P>| task.ticket != ticket;
                let both = |task: ReportedTask<P>| !loads_hold(more, task.ticket.0);
                lemma_filter_twice(old(self).reported@, kept, other, both);
                assert(self.cpu_pending@ =~= old(self).cpu_pending@.filter(
                    |id: u64| !loads_hold(more, id),
                ));
                assert(self.awaiting_apply@ =~= old(self).awaiting_apply@.filter(
                    |id: u64| !loads_hold(more, id),
                ));
                assert(self.gpu_pending@ =~= old(self).gpu_pending@.filter(
                    |id: u64| !loads_hold(more, id),
                ));
            }
            i += 1;
        }
        proof {
            assert(loads@.take(i as int) =~= loads@);
        }
    }

    /// All uploads are done.
    pub fn finish_gpu_uploads(&mut self)
        ensures
            final(self).gpu_pending@ == Set::<u64>::empty(),
            *final(self) == (BackgroundTaskState { gpu_pending: final(self).gpu_pending, ..*old(self)
            }),
            old(self).wf() ==> final(self).wf(),
    {
        self.gpu_pending.clear();
    }

    /// Whether an upload is still to come.
    pub fn has_gpu_uploads(&self) -> (yes: bool)
        ensures
            yes == (exists|id: u64| self.gpu_pending@.contains(id)),
    {
        let yes: bool = !self.gpu_pending.is_empty();
        proof {
            if yes {
                assert(exists|id: u64| self.gpu_pending@.contains(id)) by {
                    if forall|id: u64| !self.gpu_pending@.contains(id) {
                        assert(self.gpu_pending@ =~= Set::<u64>::empty());
                    }
                }
            }
        }
        yes
    }

    /// Whether any ticket is in flight.
    pub fn is_busy(&self) -> (yes: bool)
        ensures
            yes == self.busy(),
    {
        let yes: bool = !self.cpu_pending.is_empty() || !self.awaiting_apply.is_empty()
            || !self.gpu_pending.is_empty();
        proof {
            if yes && forall|id: u64| !self.in_flight(id) {
                assert(self.cpu_pending@ =~= Set::<u64>::empty()) by {
                    assert forall|id: u64| !self.cpu_pending@.contains(id) by {
                        assert(!self.in_flight(id));
                    }
                }
                assert(self.awaiting_apply@ =~= Set::<u64>::empty()) by {
                    assert forall|id: u64| !self.awaiting_apply@.contains(id) by {
                        assert(!self.in_flight(id));
                    }
                }
                assert(self.gpu_pending@ =~= Set::<u64>::empty()) by {
                    assert forall|id: u64| !self.gpu_pending@.contains(id) by {
                        assert(!self.in_flight(id));
                    }
                }
            }
        }
        yes
    }
}

proof fn lemma_one_more_load(loads: Seq<PendingLoad>, i: int)
    requires
        0 <= i < loads.len(),
    ensures
        forall|id: u64| #[trigger]
            loads_hold(loads.take(i + 1), id) <==> loads_hold(loads.take(i), id) || id
                == loads[i].ticket.0,
{
    let done = loads.take(i);
    let more = loads.take(i + 1);
    assert forall|id: u64| #[trigger]
        loads_hold(more, id) <==> loads_hold(done, id) || id == loads[i].ticket.0 by {
        if loads_hold(more, id) {
            let k = choose|k: int| 0 <= k < more.len() && (#[trigger] more[k]).ticket.0 == id;
            if k < i {
                assert(done[k] == more[k]);
            }
        }
        if loads_hold(done, id) {
            let k = choose|k: int| 0 <= k < done.len() && (#[trigger] done[k]).ticket.0 == id;
            assert(more[k] == done[k]);
        }
        if id == loads[i].ticket.0 {
            assert(more[i] == loads[i]);
        }
    }
}

/// Filtering by what holds of everything changes nothing.
proof fn lemma_filter_all<A>(list: Seq<A>, keep: spec_fn(A) -> bool)
    requires
        forall|a: A| #[trigger] keep(a),
    ensures
        list.filter(keep) == list,
    decreases list.len(),
{
    reveal(Seq::filter);
    if list.len() > 0 {
        lemma_filter_all(list.drop_last(), keep);
        assert(list.drop_last().push(list.last()) =~= list);
    }
}

/// Filtering twice is filtering by both conditions.
proof fn lemma_filter_twice<A>(
    list: Seq<A>,
    first: spec_fn(A) -> bool,
    second: spec_fn(A) -> bool,
    both: spec_fn(A) -> bool,
)
    requires
        forall|a: A| #[trigger] both(a) == (first(a) && second(a)),
    ensures
        list.filter(first).filter(second) == list.filter(both),
    decreases list.len(),
{
    reveal(Seq::filter);
    if list.len() > 0 {
        lemma_filter_twice(list.drop_last(), first, second, both);
        let rest = list.drop_last().filter(first);
        assert(rest.push(list.last()).drop_last() =~= rest);
    }
}

/// Once a ticket has settled or been cancelled, nothing of it is reported.
pub proof fn settled_tickets_are_not_reported<P>(
    reports: Seq<ReportedTask<P>>,
    ticket: BackgroundTaskTicket,
    i: int,
)
    requires
        0 <= i < BackgroundTaskState::<P>::reports_without(reports, ticket).len(),
    ensures
        BackgroundTaskState::<P>::reports_without(reports, ticket)[i].ticket != ticket,
        reports.contains(BackgroundTaskState::<P>::reports_without(reports, ticket)[i]),
{
    let keep = |task: ReportedTask<P>| task.ticket != ticket;
    reports.lemma_filter_pred(keep, i);
    reports.lemma_filter_contains_rev(keep, reports.filter(keep)[i]);
}

/// A task that is reported later, or another one that ends, does not take the
/// status bar from the task that is reported longest.
pub proof fn the_longest_running_task_keeps_the_bar<P>(
    reports: Seq<ReportedTask<P>>,
    later: ReportedTask<P>,
    ended: BackgroundTaskTicket,
)
    requires
        reports.len() > 0,
        reports[0].ticket != ended,
    ensures
        reports.push(later)[0] == reports[0],
        BackgroundTaskState::<P>::reports_without(reports, ended).len() > 0,
        BackgroundTaskState::<P>::reports_without(reports, ended)[0] == reports[0],
    decreases reports.len(),
{
    reveal(Seq::filter);
    let rest = reports.drop_last();
    if rest.len() > 0 {
        the_longest_running_task_keeps_the_bar(rest, later, ended);
    }
}

} // verus!
