//! Which events a flush sends, which records it removes, and what it accounts for, in terms of the
//! records that it finds.

use crate::fault::{Action, Fault, Notice, OsFailure};
use crate::files::Reply;
use crate::flush;
use crate::flush::{
    EventFlushView, EventStage, FlushFault, FlushReply, FlushStageView, FlushView,
};
use crate::flush_laws;
use crate::inventory::Found;
use crate::record::{Payload, Stored};
use vstd::prelude::*;

verus! {

/// The record at `at` has the event `id` to deliver.
pub open spec fn waits_at(records: Seq<Stored>, at: int, id: Seq<char>) -> bool {
    &&& 0 <= at < records.len()
    &&& records[at].record.payload is Pending
    &&& records[at].record.payload->Pending_event.id@ == id
}

/// The event at `at` waits in no record before.
pub open spec fn is_earliest(records: Seq<Stored>, at: int) -> bool {
    &&& 0 <= at < records.len()
    &&& records[at].record.payload is Pending
    &&& forall|i: int|
        0 <= i < at ==> !#[trigger] waits_at(
            records,
            i,
            records[at].record.payload->Pending_event.id@,
        )
}

/// The records before `limit` with the different events that wait, in the order of the records.
pub open spec fn different_events(records: Seq<Stored>, limit: int) -> Seq<int>
    decreases limit,
{
    if limit <= 0 {
        Seq::empty()
    } else if is_earliest(records, limit - 1) {
        different_events(records, limit - 1).push(limit - 1)
    } else {
        different_events(records, limit - 1)
    }
}

/// The record at `at` has an event to deliver that is that of one of the records `taken`.
pub open spec fn is_taken(records: Seq<Stored>, taken: Seq<int>, at: int) -> bool {
    &&& 0 <= at < records.len()
    &&& records[at].record.payload is Pending
    &&& exists|k: int|
        0 <= k < taken.len() && waits_at(
            records,
            #[trigger] taken[k],
            records[at].record.payload->Pending_event.id@,
        )
}

/// The records before `limit` whose events are those of the records `taken`, in order.
pub open spec fn taken_records(records: Seq<Stored>, taken: Seq<int>, limit: int) -> Seq<int>
    decreases limit,
{
    if limit <= 0 {
        Seq::empty()
    } else if is_taken(records, taken, limit - 1) {
        taken_records(records, taken, limit - 1).push(limit - 1)
    } else {
        taken_records(records, taken, limit - 1)
    }
}

/// The time for delivering was up, before a delivery or during one.
pub open spec fn was_cut_short(replies: Seq<FlushReply>) -> bool
    decreases replies.len(),
{
    replies.len() > 0 && {
        let stage = FlushView::start().after_all(replies.drop_last()).stage;
        ||| was_cut_short(replies.drop_last())
        ||| stage is Clock && replies.last() == FlushReply::Late(true)
        ||| stage is Deliver && replies.last() == FlushReply::TimedOut
    }
}

proof fn lemma_first(records: Seq<Stored>, at: int)
    ensures
        is_earliest(records, at) <==> flush::is_first(records, at),
{
    if flush::is_first(records, at) {
        let id = records[at].record.payload->Pending_event.id@;
        assert forall|i: int| 0 <= i < at implies !#[trigger] waits_at(records, i, id) by {
            assert(flush::pending_at(records, i) != flush::pending_at(records, at));
        }
    }
    if is_earliest(records, at) {
        let id = records[at].record.payload->Pending_event.id@;
        assert forall|i: int| 0 <= i < at implies #[trigger] flush::pending_at(records, i)
            != flush::pending_at(records, at) by {
            assert(!waits_at(records, i, id));
        }
    }
}

proof fn lemma_taken(records: Seq<Stored>, taken: Seq<int>, at: int)
    requires
        forall|k: int| 0 <= k < taken.len() ==> 0 <= #[trigger] taken[k] < records.len(),
    ensures
        is_taken(records, taken, at) <==> flush::is_accepted(records, taken, at),
{
    if flush::is_accepted(records, taken, at) {
        let k = choose|k: int|
            0 <= k < taken.len() && flush::pending_at(records, #[trigger] taken[k])
                == flush::pending_at(records, at);
        assert(waits_at(records, taken[k], records[at].record.payload->Pending_event.id@));
    }
    if is_taken(records, taken, at) {
        let k = choose|k: int|
            0 <= k < taken.len() && waits_at(
                records,
                #[trigger] taken[k],
                records[at].record.payload->Pending_event.id@,
            );
        assert(flush::pending_at(records, taken[k]) == flush::pending_at(records, at));
    }
}

proof fn lemma_different_events_skip(records: Seq<Stored>, from: int, to: int)
    requires
        0 <= from <= to,
        forall|i: int| from <= i < to ==> !flush::is_first(records, i),
    ensures
        different_events(records, from) == different_events(records, to),
    decreases to,
{
    if from < to {
        lemma_first(records, to - 1);
        assert(!flush::is_first(records, to - 1));
        lemma_different_events_skip(records, from, to - 1);
    }
}

proof fn lemma_different_events_extend(records: Seq<Stored>, from: int, to: int)
    requires
        0 <= from <= to,
    ensures
        different_events(records, from).len() <= different_events(records, to).len(),
        different_events(records, from) == different_events(records, to).take(
            different_events(records, from).len() as int,
        ),
    decreases to,
{
    if from < to {
        lemma_different_events_extend(records, from, to - 1);
        let all = different_events(records, to - 1);
        let some = different_events(records, from);
        assert(different_events(records, to).take(some.len() as int) =~= all.take(some.len() as int));
    } else {
        assert(different_events(records, from) =~= different_events(records, to).take(
            different_events(records, from).len() as int,
        ));
    }
}

/// What has been sent in a flush that got these answers.
pub open spec fn sent_in_order(flush: FlushView, replies: Seq<FlushReply>) -> bool {
    let sent = flush_laws::deliveries(replies);
    let all = different_events(flush.records, flush.records.len() as int);
    match flush.stage {
        FlushStageView::Lock | FlushStageView::Inventory => sent.len() == 0 && !was_cut_short(
            replies,
        ),
        FlushStageView::Clock { at } | FlushStageView::SyncSlot { at } | FlushStageView::Deliver {
            at,
        } => {
            &&& is_earliest(flush.records, at)
            &&& sent == different_events(flush.records, at)
            &&& flush.attempts == sent.len() + 1
            &&& sent.len() < 8
            &&& !was_cut_short(replies)
        },
        FlushStageView::Remove { .. } | FlushStageView::Recheck => {
            &&& sent.len() <= 8
            &&& sent.len() <= all.len()
            &&& sent == all.take(sent.len() as int)
            &&& !was_cut_short(replies) ==> sent.len() == 8 || sent.len() == all.len()
        },
        FlushStageView::Done(_) => {
            &&& sent.len() <= 8
            &&& sent.len() <= all.len()
            &&& sent == all.take(sent.len() as int)
        },
    }
}

proof fn lemma_delivering(flush: FlushView, sent: Seq<int>, from: int)
    requires
        0 <= from,
        sent == different_events(flush.records, from),
        flush.attempts == sent.len() <= 8,
    ensures
        ({
            let after = flush.delivering(from);
            let all = different_events(flush.records, flush.records.len() as int);
            &&& after.records == flush.records
            &&& match after.stage {
                FlushStageView::Clock { at } => is_earliest(flush.records, at) && sent
                    == different_events(flush.records, at) && after.attempts == sent.len() + 1
                    && sent.len() < 8,
                FlushStageView::Remove { .. } | FlushStageView::Recheck => sent.len() <= all.len()
                    && sent == all.take(sent.len() as int) && (sent.len() == 8 || sent.len()
                    == all.len()),
                _ => false,
            }
        }),
{
    let records = flush.records;
    let last = records.len() as int;
    flush_laws::lemma_next_first(records, from);
    flush_laws::lemma_no_first_between(records, from);
    match flush::next_first(records, from) {
        Some(at) => {
            lemma_first(records, at);
            lemma_different_events_skip(records, from, at);
            lemma_different_events_extend(records, from, last);
        },
        None => {
            if from <= last {
                lemma_different_events_skip(records, from, last);
            } else {
                assert forall|i: int| last <= i < from implies !flush::is_first(records, i) by {}
                lemma_different_events_skip(records, last, from);
            }
            assert(sent.take(sent.len() as int) =~= sent);
        },
    }
}

proof fn lemma_sent_in_order(replies: Seq<FlushReply>)
    ensures
        sent_in_order(FlushView::start().after_all(replies), replies),
    decreases replies.len(),
{
    if replies.len() > 0 {
        let before = replies.drop_last();
        let reply = replies.last();
        lemma_sent_in_order(before);
        let flush = FlushView::start().after_all(before);
        let sent = flush_laws::deliveries(before);
        let all = different_events(flush.records, flush.records.len() as int);
        match flush.stage {
            FlushStageView::Lock => {
                assert(sent =~= all.take(0));
            },
            FlushStageView::Inventory => {
                assert(sent =~= all.take(0));
                if let FlushReply::Stock(Ok(found)) = reply {
                    let begun = FlushView {
                        records: found.records@,
                        faults: found.faults@,
                        ..FlushView::start()
                    };
                    assert(sent =~= different_events(found.records@, 0));
                    lemma_delivering(begun, sent, 0);
                }
            },
            FlushStageView::Clock { at } | FlushStageView::SyncSlot { at } => {
                lemma_different_events_extend(flush.records, at, flush.records.len() as int);
            },
            FlushStageView::Deliver { at } => {
                lemma_different_events_extend(flush.records, at + 1, flush.records.len() as int);
                assert(different_events(flush.records, at + 1) == sent.push(at));
                match reply {
                    FlushReply::Delivered(Ok(())) => {
                        lemma_delivering(
                            FlushView { accepted: flush.accepted.push(at), ..flush },
                            sent.push(at),
                            at + 1,
                        );
                    },
                    FlushReply::Delivered(Err(fault)) => {
                        lemma_delivering(
                            flush.with_fault(flush.at_event(at, fault)),
                            sent.push(at),
                            at + 1,
                        );
                    },
                    _ => {},
                }
            },
            _ => {},
        }
    }
}

/// Whatever a flush is answered, the events that it has sent are the first ones of the different
/// events that wait, in the order of the records, each once and no more than eight.
pub proof fn law_events_are_sent_in_order(replies: Seq<FlushReply>)
    ensures
        ({
            let records = FlushView::start().after_all(replies).records;
            let sent = flush_laws::deliveries(replies);
            let all = different_events(records, records.len() as int);
            &&& sent.len() <= 8
            &&& sent.len() <= all.len()
            &&& sent == all.take(sent.len() as int)
        }),
{
    lemma_sent_in_order(replies);
    let flush = FlushView::start().after_all(replies);
    let records = flush.records;
    let sent = flush_laws::deliveries(replies);
    let all = different_events(records, records.len() as int);
    match flush.stage {
        FlushStageView::Clock { at } | FlushStageView::SyncSlot { at } | FlushStageView::Deliver {
            at,
        } => {
            lemma_different_events_extend(records, at, records.len() as int);
        },
        FlushStageView::Lock | FlushStageView::Inventory => {
            assert(sent =~= all.take(0));
        },
        _ => {},
    }
}

/// A flush that was not cut short and comes to taking stock once more has sent as many of the
/// different events that wait as belong to one flush: all of them, or the first eight. Faults that
/// were found at the start, and events that the relay refused, keep no other event back.
pub proof fn law_flush_sends_what_belongs_to_it(replies: Seq<FlushReply>)
    requires
        FlushView::start().after_all(replies).stage == FlushStageView::Recheck,
        !was_cut_short(replies),
    ensures
        ({
            let records = FlushView::start().after_all(replies).records;
            let all = different_events(records, records.len() as int);
            flush_laws::deliveries(replies) == all.take(
                if all.len() < 8 {
                    all.len() as int
                } else {
                    8
                },
            )
        }),
{
    lemma_sent_in_order(replies);
}

/// A run without an answer that says that time is up is not cut short.
pub proof fn law_run_in_time_is_not_cut_short(replies: Seq<FlushReply>)
    requires
        forall|i: int|
            0 <= i < replies.len() ==> #[trigger] replies[i] != FlushReply::Late(true) && replies[i]
                != FlushReply::TimedOut,
    ensures
        !was_cut_short(replies),
    decreases replies.len(),
{
    if replies.len() > 0 {
        let before = replies.drop_last();
        assert forall|i: int| 0 <= i < before.len() implies #[trigger] before[i] != FlushReply::Late(
            true,
        ) && before[i] != FlushReply::TimedOut by {
            assert(before[i] == replies[i]);
        }
        law_run_in_time_is_not_cut_short(before);
        assert(replies.last() == replies[replies.len() - 1]);
    }
}

/// Each record with an event to deliver has the event of one of the different events.
pub proof fn law_different_events_are_all_events(records: Seq<Stored>, limit: int)
    requires
        0 <= limit <= records.len(),
    ensures
        ({
            let all = different_events(records, limit);
            &&& forall|k: int|
                0 <= k < all.len() ==> 0 <= #[trigger] all[k] < limit && is_earliest(records, all[k])
            &&& forall|j: int, k: int| 0 <= j < k < all.len() ==> #[trigger] all[j] < #[trigger] all[k]
            &&& forall|at: int| 0 <= at < limit && #[trigger] is_earliest(records, at) ==> exists|
                k: int,
            |
                0 <= k < all.len() && #[trigger] all[k] == at
        }),
    decreases limit,
{
    if limit > 0 {
        law_different_events_are_all_events(records, limit - 1);
        let before = different_events(records, limit - 1);
        let all = different_events(records, limit);
        assert forall|at: int|
            0 <= at < limit && #[trigger] is_earliest(records, at) implies exists|k: int|
            0 <= k < all.len() && #[trigger] all[k] == at by {
            if at == limit - 1 {
                assert(all[before.len() as int] == at);
            } else {
                let k = choose|k: int| 0 <= k < before.len() && #[trigger] before[k] == at;
                assert(all[k] == at);
            }
        }
    }
}

proof fn lemma_taken_records_skip(records: Seq<Stored>, taken: Seq<int>, from: int, to: int)
    requires
        0 <= from <= to,
        forall|k: int| 0 <= k < taken.len() ==> 0 <= #[trigger] taken[k] < records.len(),
        forall|i: int| from <= i < to ==> !flush::is_accepted(records, taken, i),
    ensures
        taken_records(records, taken, from) == taken_records(records, taken, to),
    decreases to,
{
    if from < to {
        lemma_taken(records, taken, to - 1);
        assert(!flush::is_accepted(records, taken, to - 1));
        lemma_taken_records_skip(records, taken, from, to - 1);
    }
}

/// What has been removed in a flush that got these answers.
pub open spec fn removed_in_order(flush: FlushView, replies: Seq<FlushReply>) -> bool {
    let taken = flush_laws::acceptances(replies);
    let removed = flush_laws::removals(replies);
    &&& flush.accepted == taken
    &&& forall|k: int| 0 <= k < taken.len() ==> 0 <= #[trigger] taken[k] < flush.records.len()
    &&& match flush.stage {
        FlushStageView::Remove { at } => is_taken(flush.records, taken, at) && removed
            == taken_records(flush.records, taken, at),
        FlushStageView::Recheck => removed == taken_records(
            flush.records,
            taken,
            flush.records.len() as int,
        ),
        FlushStageView::Done(_) => true,
        _ => removed.len() == 0,
    }
}

proof fn lemma_removing(flush: FlushView, removed: Seq<int>, from: int)
    requires
        0 <= from,
        forall|k: int|
            0 <= k < flush.accepted.len() ==> 0 <= #[trigger] flush.accepted[k]
                < flush.records.len(),
        removed == taken_records(flush.records, flush.accepted, from),
    ensures
        match flush.removing(from).stage {
            FlushStageView::Remove { at } => is_taken(flush.records, flush.accepted, at) && removed
                == taken_records(flush.records, flush.accepted, at),
            FlushStageView::Recheck => removed == taken_records(
                flush.records,
                flush.accepted,
                flush.records.len() as int,
            ),
            _ => false,
        },
{
    let records = flush.records;
    let taken = flush.accepted;
    let last = records.len() as int;
    flush_laws::lemma_next_accepted(records, taken, from);
    match flush::next_accepted(records, taken, from) {
        Some(at) => {
            lemma_taken(records, taken, at);
            lemma_taken_records_skip(records, taken, from, at);
        },
        None => {
            if from <= last {
                lemma_taken_records_skip(records, taken, from, last);
            } else {
                assert forall|i: int| last <= i < from implies !flush::is_accepted(
                    records,
                    taken,
                    i,
                ) by {}
                lemma_taken_records_skip(records, taken, last, from);
            }
        },
    }
}

proof fn lemma_removed_in_order(replies: Seq<FlushReply>)
    ensures
        removed_in_order(FlushView::start().after_all(replies), replies),
    decreases replies.len(),
{
    if replies.len() > 0 {
        let before = replies.drop_last();
        let reply = replies.last();
        lemma_removed_in_order(before);
        flush_laws::lemma_flush_is_sound(before);
        flush_laws::lemma_flush_is_sound(replies);
        let flush = FlushView::start().after_all(before);
        let after = flush.after(reply);
        let taken = flush_laws::acceptances(replies);
        let removed = flush_laws::removals(replies);
        assert(after.accepted == taken);
        match flush.stage {
            FlushStageView::Inventory => {
                if let FlushReply::Stock(Ok(found)) = reply {
                    assert(removed =~= taken_records(found.records@, taken, 0));
                    lemma_removing(after, removed, 0);
                }
            },
            FlushStageView::Clock { .. } | FlushStageView::Deliver { .. } => {
                assert(after.records == flush.records);
                assert(removed =~= taken_records(after.records, taken, 0));
                lemma_removing(after, removed, 0);
            },
            FlushStageView::Remove { at } => {
                assert(after.records == flush.records);
                if let FlushReply::Removed(_) = reply {
                    assert(removed == taken_records(after.records, taken, at + 1));
                    lemma_removing(after, removed, at + 1);
                }
            },
            _ => {},
        }
    }
}

/// A flush that comes to taking stock once more has removed exactly the records whose events the
/// relay accepted during that flush, each once and in their order, whatever else went wrong.
pub proof fn law_flush_removes_what_was_accepted(replies: Seq<FlushReply>)
    requires
        FlushView::start().after_all(replies).stage == FlushStageView::Recheck,
    ensures
        ({
            let records = FlushView::start().after_all(replies).records;
            flush_laws::removals(replies) == taken_records(
                records,
                flush_laws::acceptances(replies),
                records.len() as int,
            )
        }),
{
    lemma_removed_in_order(replies);
}

/// Some record has an event to deliver.
pub open spec fn something_waits(records: Seq<Stored>) -> bool {
    exists|i: int| 0 <= i < records.len() && (#[trigger] records[i]).record.payload is Pending
}

proof fn lemma_something_waits(records: Seq<Stored>)
    ensures
        something_waits(records) <==> flush::has_pending(records),
{
    if something_waits(records) {
        let i = choose|i: int|
            0 <= i < records.len() && (#[trigger] records[i]).record.payload is Pending;
        assert(flush::pending_at(records, i) is Some);
    }
    if flush::has_pending(records) {
        let i = choose|i: int|
            0 <= i < records.len() && #[trigger] flush::pending_at(records, i) is Some;
        assert(records[i].record.payload is Pending);
    }
}

/// How a flush ends once it has taken stock again: with success, and the number of accepted events,
/// exactly where there was no fault before, there is none in the outbox now, and nothing waits in it
/// any more. Otherwise it hands over all faults, those of the outbox behind its own, and last that
/// something still waits, with the number of accepted events.
pub proof fn law_flush_concludes(flush: FlushView, left: Found, fault: Fault)
    requires
        flush.stage == FlushStageView::Recheck,
        flush.accepted.len() <= usize::MAX,
    ensures
        ({
            let after = flush.after(FlushReply::Stock(Ok(left)));
            let faults = flush.faults + left.faults@;
            let waits = something_waits(left.records@);
            let accepted = flush.accepted.len() as usize;
            &&& faults.len() == 0 && !waits ==> after.stage == FlushStageView::Done(Ok(accepted))
            &&& faults.len() > 0 && !waits ==> after.stage == FlushStageView::Done(
                Err(FlushFault::Incomplete { accepted, faults }),
            )
            &&& waits ==> after.stage == FlushStageView::Done(
                Err(
                    FlushFault::Incomplete {
                        accepted,
                        faults: faults.push(Fault::Notice(Notice::StillPending)),
                    },
                ),
            )
            &&& flush.after(FlushReply::Stock(Err(fault))).stage == FlushStageView::Done(
                Err(flush::ended_by(fault)),
            )
        }),
{
    lemma_something_waits(left.records@);
}

/// A fault that ends a flush is handed over as it is, unless it lists faults itself.
pub proof fn law_fault_is_handed_over(fault: Fault, accepted: usize, faults: Vec<Fault>)
    ensures
        !(fault is Incomplete) ==> flush::ended_by(fault) == FlushFault::Single(fault),
        flush::ended_by(Fault::Incomplete { accepted, faults }) == (FlushFault::Incomplete {
            accepted,
            faults: faults@,
        }),
{
}

/// `next` is the first of the different events at or behind `from`.
pub open spec fn is_next(records: Seq<Stored>, from: int, next: int) -> bool {
    &&& from <= next
    &&& is_earliest(records, next)
    &&& forall|i: int| from <= i < next ==> !#[trigger] is_earliest(records, i)
}

/// `next` is the first record at or behind `from` whose event was accepted.
pub open spec fn is_next_taken(
    records: Seq<Stored>,
    accepted: Seq<int>,
    from: int,
    next: int,
) -> bool {
    &&& from <= next
    &&& is_taken(records, accepted, next)
    &&& forall|i: int| from <= i < next ==> !#[trigger] is_taken(records, accepted, i)
}

/// From delivering a flush goes over to removing: it takes up the first record whose event was
/// accepted, or takes stock where there is none.
pub open spec fn goes_over(flush: FlushView) -> bool {
    match flush.stage {
        FlushStageView::Remove { at } => is_next_taken(flush.records, flush.accepted, 0, at),
        FlushStageView::Recheck => forall|i: int|
            !#[trigger] is_taken(flush.records, flush.accepted, i),
        _ => false,
    }
}

/// A flush names only records that it has found.
pub open spec fn is_within(flush: FlushView) -> bool {
    forall|k: int|
        0 <= k < flush.accepted.len() ==> 0 <= #[trigger] flush.accepted[k] < flush.records.len()
}

proof fn lemma_goes_over(flush: FlushView)
    requires
        is_within(flush),
    ensures
        goes_over(flush.removing(0)),
{
    flush_laws::lemma_next_accepted(flush.records, flush.accepted, 0);
    assert forall|i: int| #[trigger]
        is_taken(flush.records, flush.accepted, i) == flush::is_accepted(
            flush.records,
            flush.accepted,
            i,
        ) by {
        lemma_taken(flush.records, flush.accepted, i);
    }
}

/// What is done after the events before `from` were taken up, in a flush that has taken up fewer than
/// eight events or eight: the next event is taken up where there is one and it may be; where it may
/// not, the limit is noted; and in both other cases removing begins.
pub open spec fn takes_up(before: FlushView, from: int, after: FlushView) -> bool {
    &&& after.records == before.records
    &&& after.accepted == before.accepted
    &&& match after.stage {
        FlushStageView::Clock { at } => {
            &&& is_next(before.records, from, at)
            &&& before.attempts < 8
            &&& after.attempts == before.attempts + 1
            &&& after.faults == before.faults
        },
        _ => {
            &&& goes_over(after)
            &&& after.attempts == before.attempts
            &&& if exists|at: int| from <= at && #[trigger] is_earliest(before.records, at) {
                before.attempts >= 8 && after.faults == before.faults.push(
                    Fault::Notice(Notice::BatchLimit),
                )
            } else {
                after.faults == before.faults
            }
        },
    }
}

proof fn lemma_takes_up(flush: FlushView, from: int)
    requires
        0 <= from,
        is_within(flush),
    ensures
        takes_up(flush, from, flush.delivering(from)),
{
    flush_laws::lemma_next_first(flush.records, from);
    flush_laws::lemma_no_first_between(flush.records, from);
    assert forall|i: int| #[trigger]
        is_earliest(flush.records, i) == flush::is_first(flush.records, i) by {
        lemma_first(flush.records, i);
    }
    lemma_goes_over(flush);
    lemma_goes_over(flush.with_fault(Fault::Notice(Notice::BatchLimit)));
    if let Some(at) = flush::next_first(flush.records, from) {
        assert(is_earliest(flush.records, at));
    }
}

/// How a flush begins: it keeps others out or is refused, takes stock or ends with what went wrong,
/// and takes up the first event, with the faults that were found and nothing accepted.
pub proof fn law_flush_begins(flush: FlushView, found: Found, fault: Fault)
    ensures
        FlushView::start().stage == FlushStageView::Lock,
        FlushView::start().after(FlushReply::Locked(true)).stage == FlushStageView::Inventory,
        FlushView::start().after(FlushReply::Locked(false)).stage == FlushStageView::Done(
            Err(FlushFault::Single(Fault::Notice(Notice::AlreadyFlushing))),
        ),
        flush.stage == FlushStageView::Inventory ==> flush.after(
            FlushReply::Stock(Err(fault)),
        ).stage == FlushStageView::Done(Err(flush::ended_by(fault))),
        flush.stage == FlushStageView::Inventory ==> takes_up(
            (FlushView {
                records: found.records@,
                faults: found.faults@,
                attempts: 0,
                accepted: Seq::empty(),
                stage: FlushStageView::Lock,
            }),
            0,
            flush.after(FlushReply::Stock(Ok(found))),
        ),
{
    lemma_takes_up(
        FlushView {
            records: found.records@,
            faults: found.faults@,
            attempts: 0,
            accepted: Seq::empty(),
            stage: FlushStageView::Lock,
        },
        0,
    );
}

/// How an event is delivered: while there is time, and once its slot is durable. Without time the
/// limit is noted and removing begins; where the slot cannot be made durable, the flush ends.
pub proof fn law_event_is_delivered_in_time(flush: FlushView, at: int, failure: OsFailure)
    requires
        is_within(flush),
    ensures
        flush.stage == (FlushStageView::Clock { at }) ==> flush.after(FlushReply::Late(false)) == (
        FlushView { stage: FlushStageView::SyncSlot { at }, ..flush }),
        flush.stage == (FlushStageView::Clock { at }) ==> {
            let after = flush.after(FlushReply::Late(true));
            &&& goes_over(after)
            &&& after.records == flush.records && after.accepted == flush.accepted
            &&& after.faults == flush.faults.push(Fault::Notice(Notice::BatchLimit))
        },
        flush.stage == (FlushStageView::SyncSlot { at }) ==> flush.after(
            FlushReply::Files(Reply::Done),
        ) == (FlushView { stage: FlushStageView::Deliver { at }, ..flush }),
        flush.stage == (FlushStageView::SyncSlot { at }) ==> flush.after(
            FlushReply::Files(Reply::Failed(failure)),
        ).stage == FlushStageView::Done(
            Err(
                FlushFault::Single(
                    Fault::Os { action: Action::SyncDirectory, text: failure.text },
                ),
            ),
        ),
{
    lemma_goes_over(flush.with_fault(Fault::Notice(Notice::BatchLimit)));
}

/// What becomes of a delivery: an accepted event is counted; a refused one is noted with its
/// identifier and the fault; and in both cases the next event is taken up. Where the time ran out,
/// that is noted and removing begins.
pub proof fn law_delivery_is_accounted_for(flush: FlushView, at: int, fault: Fault)
    requires
        is_within(flush),
        flush.stage == (FlushStageView::Deliver { at }),
        0 <= at < flush.records.len(),
        flush.records[at].record.payload is Pending,
    ensures
        takes_up(
            (FlushView { accepted: flush.accepted.push(at), ..flush }),
            at + 1,
            flush.after(FlushReply::Delivered(Ok(()))),
        ),
        takes_up(
            (FlushView {
                faults: flush.faults.push(
                    Fault::AtEvent {
                        id: flush.records[at].record.payload->Pending_event.id,
                        cause: Box::new(fault),
                    },
                ),
                ..flush
            }),
            at + 1,
            flush.after(FlushReply::Delivered(Err(fault))),
        ),
        ({
            let after = flush.after(FlushReply::TimedOut);
            &&& goes_over(after)
            &&& after.records == flush.records && after.accepted == flush.accepted
            &&& after.faults == flush.faults.push(Fault::Notice(Notice::BatchTimedOut))
        }),
{
    let accepted = FlushView { accepted: flush.accepted.push(at), ..flush };
    lemma_takes_up(accepted, at + 1);
    lemma_takes_up(flush.with_fault(flush.at_event(at, fault)), at + 1);
    lemma_goes_over(flush.with_fault(Fault::Notice(Notice::BatchTimedOut)));
}

/// What becomes of a removal: a failed one is noted, and in both cases the next record whose event was
/// accepted is taken up, or stock is taken where there is none.
pub proof fn law_removal_is_accounted_for(flush: FlushView, at: int, fault: Fault)
    requires
        is_within(flush),
        flush.stage == (FlushStageView::Remove { at }),
        0 <= at,
    ensures
        ({
            let removed = flush.after(FlushReply::Removed(Ok(())));
            let kept = flush.after(FlushReply::Removed(Err(fault)));
            &&& removed.faults == flush.faults
            &&& kept.faults == flush.faults.push(fault)
            &&& removed.stage == kept.stage
            &&& removed.records == flush.records && kept.records == flush.records
            &&& removed.accepted == flush.accepted && kept.accepted == flush.accepted
            &&& match removed.stage {
                FlushStageView::Remove { at: next } => is_next_taken(
                    flush.records,
                    flush.accepted,
                    at + 1,
                    next,
                ),
                FlushStageView::Recheck => forall|i: int|
                    at < i ==> !#[trigger] is_taken(flush.records, flush.accepted, i),
                _ => false,
            }
        }),
{
    flush_laws::lemma_next_accepted(flush.records, flush.accepted, at + 1);
    assert forall|i: int| #[trigger]
        is_taken(flush.records, flush.accepted, i) == flush::is_accepted(
            flush.records,
            flush.accepted,
            i,
        ) by {
        lemma_taken(flush.records, flush.accepted, i);
    }
}

/// `at` is the first record at or behind `from` that has the event `id` to deliver.
pub open spec fn is_next_of(records: Seq<Stored>, id: Seq<char>, from: int, at: int) -> bool {
    &&& from <= at
    &&& waits_at(records, at, id)
    &&& forall|i: int| from <= i < at ==> !#[trigger] waits_at(records, i, id)
}

/// No record at or behind `from` has the event `id` to deliver.
pub open spec fn is_gone(records: Seq<Stored>, id: Seq<char>, from: int) -> bool {
    forall|i: int| from <= i ==> !#[trigger] waits_at(records, i, id)
}

proof fn lemma_next_of_event(records: Seq<Stored>, id: Seq<char>, from: int)
    requires
        0 <= from,
    ensures
        match flush::next_of(records, id, from) {
            Some(at) => is_next_of(records, id, from, at),
            None => is_gone(records, id, from),
        },
{
    flush_laws::lemma_next_of(records, id, from);
    assert forall|i: int| 0 <= i < records.len() implies #[trigger] waits_at(records, i, id) == (
    flush::pending_at(records, i) == Some(id)) by {}
}

/// How the flush of one event begins: an identifier of 64 hexadecimal digits is waited for, and
/// nothing else; where others are kept out, stock is taken; and the first record with the event is
/// made durable, or the event does not wait.
pub proof fn law_event_flush_begins(
    flush: EventFlushView,
    id: Seq<char>,
    found: Found,
    fault: Fault,
)
    ensures
        ({
            let start = EventFlushView::start(id);
            &&& start.event_id == id
            &&& start.stage == EventStage::Lock <==> crate::publish_laws::is_identifier(id)
            &&& !crate::publish_laws::is_identifier(id) ==> start.stage == EventStage::Done(
                Err(Fault::Notice(Notice::InvalidEventId)),
            )
        }),
        flush.stage == EventStage::Lock ==> flush.after(FlushReply::Locked(true)) == (
        EventFlushView { stage: EventStage::Inventory, ..flush }),
        flush.stage == EventStage::Lock ==> flush.after(FlushReply::Locked(false)).stage
            == EventStage::Done(Err(Fault::Notice(Notice::LockTimedOut))),
        flush.stage == EventStage::Inventory ==> flush.after(FlushReply::Stock(Err(fault))).stage
            == EventStage::Done(Err(fault)),
        flush.stage == EventStage::Inventory ==> {
            let after = flush.after(FlushReply::Stock(Ok(found)));
            &&& after.event_id == flush.event_id
            &&& after.records == found.records@
            &&& match after.stage {
                EventStage::SyncSlot { at } => is_next_of(
                    found.records@,
                    flush.event_id,
                    0,
                    at as int,
                ),
                stage => is_gone(found.records@, flush.event_id, 0) && stage == EventStage::Done(
                    Err(Fault::Notice(Notice::NotPending)),
                ),
            }
        },
{
    let total: usize = found.records.len();
    assert(total == found.records@.len());
    lemma_next_of_event(found.records@, flush.event_id, 0);
}

/// Removing the event goes on with the first record at or behind `from` that holds it, and succeeds
/// where there is none.
pub open spec fn goes_on_removing(before: EventFlushView, from: int, after: EventFlushView) -> bool {
    &&& after.event_id == before.event_id
    &&& after.records == before.records
    &&& match after.stage {
        EventStage::Remove { at } => is_next_of(before.records, before.event_id, from, at as int),
        stage => is_gone(before.records, before.event_id, from) && stage == EventStage::Done(Ok(())),
    }
}

/// How the flush of one event goes on: it is delivered once its slot is durable, every record with it
/// is removed once it is accepted, and any failure ends it with what went wrong.
pub proof fn law_event_flush_goes_on(
    flush: EventFlushView,
    at: usize,
    fault: Fault,
    failure: OsFailure,
)
    requires
        flush.records.len() <= usize::MAX,
    ensures
        flush.stage == (EventStage::SyncSlot { at }) ==> {
            &&& flush.after(FlushReply::Files(Reply::Done)) == (EventFlushView {
                stage: EventStage::Deliver { at },
                ..flush
            })
            &&& flush.after(FlushReply::Files(Reply::Failed(failure))).stage == EventStage::Done(
                Err(Fault::Os { action: Action::SyncDirectory, text: failure.text }),
            )
        },
        flush.stage == (EventStage::Deliver { at }) ==> {
            &&& goes_on_removing(flush, 0, flush.after(FlushReply::Delivered(Ok(()))))
            &&& flush.after(FlushReply::Delivered(Err(fault))).stage == EventStage::Done(Err(fault))
            &&& flush.after(FlushReply::TimedOut).stage == EventStage::Done(
                Err(Fault::Notice(Notice::DeliveryTimedOut)),
            )
        },
        flush.stage == (EventStage::Remove { at }) ==> {
            &&& goes_on_removing(flush, at + 1, flush.after(FlushReply::Removed(Ok(()))))
            &&& flush.after(FlushReply::Removed(Err(fault))).stage == EventStage::Done(Err(fault))
        },
{
    lemma_next_of_event(flush.records, flush.event_id, 0);
    lemma_next_of_event(flush.records, flush.event_id, at + 1);
}

/// An answer that does not belong to the stage changes nothing, and a flush that is over stays so.
pub proof fn law_flush_waits_for_its_answer(
    flush: FlushView,
    event_flush: EventFlushView,
    reply: FlushReply,
)
    ensures
        ({
            let is_awaited = match flush.stage {
                FlushStageView::Lock => reply is Locked,
                FlushStageView::Inventory | FlushStageView::Recheck => reply is Stock,
                FlushStageView::Clock { .. } => reply is Late,
                FlushStageView::SyncSlot { .. } => reply matches FlushReply::Files(files) && (
                files is Done || files is Failed),
                FlushStageView::Deliver { .. } => reply is Delivered || reply is TimedOut,
                FlushStageView::Remove { .. } => reply is Removed,
                FlushStageView::Done(_) => false,
            };
            !is_awaited ==> flush.after(reply) == flush
        }),
        ({
            let is_awaited = match event_flush.stage {
                EventStage::Lock => reply is Locked,
                EventStage::Inventory => reply is Stock,
                EventStage::SyncSlot { .. } => reply matches FlushReply::Files(files) && (files
                    is Done || files is Failed),
                EventStage::Deliver { .. } => reply is Delivered || reply is TimedOut,
                EventStage::Remove { .. } => reply is Removed,
                EventStage::Done(_) => false,
            };
            !is_awaited ==> event_flush.after(reply) == event_flush
        }),
{
}

} // verus!
