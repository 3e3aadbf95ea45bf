//! What flushing the outbox comes to.

use crate::fault::Fault;
use crate::flush;
use crate::flush::{
    EventFlushView, EventStage, FlushReply, FlushStageView, FlushView, MAX_BATCH,
};
use crate::inventory::Found;
use crate::record::Stored;
use vstd::prelude::*;

verus! {

pub(crate) proof fn lemma_next_first(records: Seq<Stored>, from: int)
    requires
        0 <= from,
    ensures
        flush::next_first(records, from) matches Some(at) ==> from <= at && flush::is_first(
            records,
            at,
        ),
    decreases records.len() - from,
{
    if from < records.len() && !flush::is_first(records, from) {
        lemma_next_first(records, from + 1);
    }
}

pub(crate) proof fn lemma_next_accepted(records: Seq<Stored>, accepted: Seq<int>, from: int)
    requires
        0 <= from,
    ensures
        match flush::next_accepted(records, accepted, from) {
            Some(at) => from <= at && flush::is_accepted(records, accepted, at) && forall|i: int|
                from <= i < at ==> !flush::is_accepted(records, accepted, i),
            None => forall|i: int| from <= i ==> !flush::is_accepted(records, accepted, i),
        },
    decreases records.len() - from,
{
    if from < records.len() && !flush::is_accepted(records, accepted, from) {
        lemma_next_accepted(records, accepted, from + 1);
    }
}

/// The records whose events were sent, one after the other, in a flush that got these answers.
pub open spec fn deliveries(replies: Seq<FlushReply>) -> Seq<int>
    decreases replies.len(),
{
    if replies.len() == 0 {
        Seq::empty()
    } else {
        let before = deliveries(replies.drop_last());
        let flush = FlushView::start().after_all(replies.drop_last());
        match (flush.stage, replies.last()) {
            (FlushStageView::Deliver { at }, FlushReply::Delivered(_)) => before.push(at),
            (FlushStageView::Deliver { at }, FlushReply::TimedOut) => before.push(at),
            _ => before,
        }
    }
}

/// The records whose events the relay accepted, in a flush that got these answers.
pub open spec fn acceptances(replies: Seq<FlushReply>) -> Seq<int>
    decreases replies.len(),
{
    if replies.len() == 0 {
        Seq::empty()
    } else {
        let before = acceptances(replies.drop_last());
        let flush = FlushView::start().after_all(replies.drop_last());
        match (flush.stage, replies.last()) {
            (FlushStageView::Deliver { at }, FlushReply::Delivered(Ok(()))) => before.push(at),
            _ => before,
        }
    }
}

/// The records that were taken up for removal, in a flush that got these answers.
pub open spec fn removals(replies: Seq<FlushReply>) -> Seq<int>
    decreases replies.len(),
{
    if replies.len() == 0 {
        Seq::empty()
    } else {
        let before = removals(replies.drop_last());
        let flush = FlushView::start().after_all(replies.drop_last());
        match (flush.stage, replies.last()) {
            (FlushStageView::Remove { at }, FlushReply::Removed(_)) => before.push(at),
            _ => before,
        }
    }
}

/// These records are the first ones that have their events to deliver, in order and all before
/// `limit`.
pub open spec fn are_firsts(records: Seq<Stored>, list: Seq<int>, limit: int) -> bool {
    &&& forall|i: int| 0 <= i < list.len() ==> flush::is_first(records, #[trigger] list[i])
    &&& forall|i: int| 0 <= i < list.len() ==> #[trigger] list[i] < limit
    &&& forall|i: int, j: int| 0 <= i < j < list.len() ==> #[trigger] list[i] < #[trigger] list[j]
}

/// Every accepted record before `limit` was taken up for removal, and no other record was.
pub open spec fn removed_so_far(
    records: Seq<Stored>,
    accepted: Seq<int>,
    removed: Seq<int>,
    limit: int,
) -> bool {
    &&& forall|i: int|
        0 <= i < removed.len() ==> flush::is_accepted(records, accepted, #[trigger] removed[i])
    &&& forall|i: int|
        0 <= i < limit && #[trigger] flush::is_accepted(records, accepted, i) ==> removed.contains(i)
}

/// What holds of a flush that got these answers.
pub open spec fn flush_is_sound(flush: FlushView, replies: Seq<FlushReply>) -> bool {
    let sent = deliveries(replies);
    let taken = acceptances(replies);
    let removed = removals(replies);
    &&& flush.accepted == taken
    &&& taken.len() <= sent.len() <= flush.attempts <= MAX_BATCH
    &&& match flush.stage {
        FlushStageView::Lock | FlushStageView::Inventory => sent.len() == 0 && taken.len() == 0
            && removed.len() == 0 && flush.records.len() == 0,
        FlushStageView::Clock { at } | FlushStageView::SyncSlot { at } | FlushStageView::Deliver {
            at,
        } => {
            &&& flush::is_first(flush.records, at)
            &&& are_firsts(flush.records, sent, at)
            &&& are_firsts(flush.records, taken, at)
            &&& sent.len() < flush.attempts
            &&& removed.len() == 0
        },
        FlushStageView::Remove { at } => {
            &&& flush::is_accepted(flush.records, taken, at)
            &&& are_firsts(flush.records, sent, flush.records.len() as int)
            &&& are_firsts(flush.records, taken, flush.records.len() as int)
            &&& removed_so_far(flush.records, taken, removed, at)
        },
        FlushStageView::Recheck => {
            &&& are_firsts(flush.records, sent, flush.records.len() as int)
            &&& are_firsts(flush.records, taken, flush.records.len() as int)
            &&& removed_so_far(flush.records, taken, removed, flush.records.len() as int)
        },
        FlushStageView::Done(outcome) => {
            &&& are_firsts(flush.records, sent, flush.records.len() as int)
            &&& are_firsts(flush.records, taken, flush.records.len() as int)
            &&& outcome matches Ok(accepted) ==> accepted == taken.len() && removed_so_far(
                flush.records,
                taken,
                removed,
                flush.records.len() as int,
            )
            &&& forall|i: int|
                0 <= i < removed.len() ==> flush::is_accepted(
                    flush.records,
                    taken,
                    #[trigger] removed[i],
                )
        },
    }
}

proof fn lemma_removing(flush: FlushView, removed: Seq<int>, from: int)
    requires
        0 <= from,
        removed_so_far(flush.records, flush.accepted, removed, from),
    ensures
        match flush.removing(from).stage {
            FlushStageView::Remove { at } => flush::is_accepted(flush.records, flush.accepted, at)
                && removed_so_far(flush.records, flush.accepted, removed, at),
            FlushStageView::Recheck => removed_so_far(
                flush.records,
                flush.accepted,
                removed,
                flush.records.len() as int,
            ),
            _ => false,
        },
{
    lemma_next_accepted(flush.records, flush.accepted, from);
}

/// What holds of every flush, whatever it is answered.
pub(crate) proof fn lemma_flush_is_sound(replies: Seq<FlushReply>)
    ensures
        flush_is_sound(FlushView::start().after_all(replies), replies),
    decreases replies.len(),
{
    if replies.len() > 0 {
        let before = replies.drop_last();
        lemma_flush_is_sound(before);
        let flush = FlushView::start().after_all(before);
        lemma_flush_stays_sound(flush, before, replies.last());
        assert(before.push(replies.last()) =~= replies);
    }
}

proof fn lemma_stock_is_taken(flush: FlushView, before: Seq<FlushReply>, reply: FlushReply)
    requires
        flush == FlushView::start().after_all(before),
        flush_is_sound(flush, before),
        flush.stage == FlushStageView::Inventory,
    ensures
        flush_is_sound(flush.after(reply), before.push(reply)),
{
    let replies = before.push(reply);
    assert(replies.drop_last() =~= before);
    assert(replies.last() == reply);
    let after = flush.after(reply);
    assert(deliveries(replies) =~= Seq::<int>::empty());
    assert(acceptances(replies) =~= Seq::<int>::empty());
    assert(removals(replies) =~= Seq::<int>::empty());
    if let FlushReply::Stock(Ok(found)) = reply {
        lemma_next_first(found.records@, 0);
        assert(after.accepted == Seq::<int>::empty());
        assert(after.records == found.records@);
        lemma_removing(after, Seq::empty(), 0);
    } else {
        assert(after.accepted == flush.accepted && after.records == flush.records);
        assert(after.attempts == flush.attempts);
    }
}

proof fn lemma_delivery_is_taken(flush: FlushView, before: Seq<FlushReply>, reply: FlushReply)
    requires
        flush == FlushView::start().after_all(before),
        flush_is_sound(flush, before),
        flush.stage is Deliver,
    ensures
        flush_is_sound(flush.after(reply), before.push(reply)),
{
    let replies = before.push(reply);
    assert(replies.drop_last() =~= before);
    assert(replies.last() == reply);
    let at = flush.stage->Deliver_at;
    let after = flush.after(reply);
    let sent = deliveries(replies);
    let taken = acceptances(replies);
    let removed = removals(replies);
    assert(removed =~= Seq::<int>::empty());
    assert(are_firsts(flush.records, sent, at + 1));
    assert(are_firsts(flush.records, taken, at + 1));
    assert(after.records == flush.records);
    assert(after.accepted == taken);
    lemma_next_first(flush.records, at + 1);
    lemma_removing(after, removed, 0);
}

proof fn lemma_removal_is_taken(flush: FlushView, before: Seq<FlushReply>, reply: FlushReply)
    requires
        flush == FlushView::start().after_all(before),
        flush_is_sound(flush, before),
        flush.stage is Remove,
    ensures
        flush_is_sound(flush.after(reply), before.push(reply)),
{
    let replies = before.push(reply);
    assert(replies.drop_last() =~= before);
    assert(replies.last() == reply);
    let at = flush.stage->Remove_at;
    let after = flush.after(reply);
    let taken = acceptances(replies);
    let earlier = removals(before);
    let removed = removals(replies);
    assert(taken == acceptances(before) && deliveries(replies) == deliveries(before));
    assert(after.records == flush.records && after.accepted == taken);
    assert(after.attempts == flush.attempts);
    if let FlushReply::Removed(_) = reply {
        assert(removed == earlier.push(at));
        assert(removed[earlier.len() as int] == at);
        assert forall|i: int|
            0 <= i < at + 1 && #[trigger] flush::is_accepted(
                flush.records,
                taken,
                i,
            ) implies removed.contains(i) by {
            if i < at {
                let k = choose|k: int| 0 <= k < earlier.len() && earlier[k] == i;
                assert(removed[k] == i);
            }
        }
        lemma_removing(after, removed, at + 1);
    } else {
        assert(removed == earlier);
    }
}

proof fn lemma_flush_stays_sound(flush: FlushView, before: Seq<FlushReply>, reply: FlushReply)
    requires
        flush == FlushView::start().after_all(before),
        flush_is_sound(flush, before),
    ensures
        flush_is_sound(flush.after(reply), before.push(reply)),
{
    if flush.stage is Inventory {
        lemma_stock_is_taken(flush, before, reply);
    } else if flush.stage is Deliver {
        lemma_delivery_is_taken(flush, before, reply);
    } else if flush.stage is Remove {
        lemma_removal_is_taken(flush, before, reply);
    } else {
        let replies = before.push(reply);
        assert(replies.drop_last() =~= before);
        assert(replies.last() == reply);
        let after = flush.after(reply);
        assert(deliveries(replies) == deliveries(before));
        assert(acceptances(replies) == acceptances(before));
        assert(removals(replies) == removals(before));
        assert(after.records == flush.records && after.accepted == flush.accepted);
        if flush.stage is Clock {
            lemma_removing(after, removals(replies), 0);
        }
    }
}

/// Whatever a flush is answered, it sends each event at most once, and no more events than belong
/// to one flush.
pub proof fn law_each_event_is_sent_once(replies: Seq<FlushReply>)
    ensures
        ({
            let records = FlushView::start().after_all(replies).records;
            let sent = deliveries(replies);
            &&& sent.len() <= MAX_BATCH
            &&& forall|i: int|
                0 <= i < sent.len() ==> 0 <= (#[trigger] sent[i]) < records.len()
                    && flush::pending_at(records, sent[i]) is Some
            &&& forall|i: int, j: int|
                0 <= i < j < sent.len() ==> flush::pending_at(records, #[trigger] sent[i])
                    != flush::pending_at(records, #[trigger] sent[j])
        }),
{
    lemma_flush_is_sound(replies);
    let records = FlushView::start().after_all(replies).records;
    let sent = deliveries(replies);
    assert forall|i: int, j: int| 0 <= i < j < sent.len() implies flush::pending_at(
        records,
        #[trigger] sent[i],
    ) != flush::pending_at(records, #[trigger] sent[j]) by {
        assert(flush::is_first(records, sent[j]));
        assert(sent[i] < sent[j]);
        assert(flush::is_first(records, sent[i]));
    }
}

/// Whatever a flush is answered, it removes no record but those whose event the relay has accepted
/// during that flush. A draft is never removed.
pub proof fn law_only_accepted_records_are_removed(replies: Seq<FlushReply>)
    ensures
        ({
            let records = FlushView::start().after_all(replies).records;
            let taken = acceptances(replies);
            let removed = removals(replies);
            forall|i: int|
                0 <= i < removed.len() ==> {
                    &&& 0 <= (#[trigger] removed[i]) < records.len()
                    &&& flush::pending_at(records, removed[i]) is Some
                    &&& flush::is_accepted(records, taken, removed[i])
                }
        }),
{
    lemma_flush_is_sound(replies);
}

/// A flush that succeeds has taken up for removal every record whose event was accepted, and says
/// how many events those are.
pub proof fn law_successful_flush_removes_what_was_accepted(replies: Seq<FlushReply>, accepted: usize)
    requires
        FlushView::start().after_all(replies).stage == FlushStageView::Done(Ok(accepted)),
    ensures
        ({
            let records = FlushView::start().after_all(replies).records;
            let taken = acceptances(replies);
            &&& accepted == taken.len()
            &&& forall|i: int|
                0 <= i < records.len() && #[trigger] flush::is_accepted(records, taken, i)
                    ==> removals(replies).contains(i)
        }),
{
    lemma_flush_is_sound(replies);
}

/// Every run that comes to taking stock at its end has taken up for removal each record whose event
/// was accepted, also where it then ends with faults.
pub proof fn law_accepted_records_are_removed_despite_faults(replies: Seq<FlushReply>, at: int)
    requires
        0 <= at <= replies.len(),
        FlushView::start().after_all(replies.take(at)).stage == FlushStageView::Recheck,
    ensures
        ({
            let records = FlushView::start().after_all(replies).records;
            let taken = acceptances(replies);
            forall|i: int|
                0 <= i < records.len() && #[trigger] flush::is_accepted(records, taken, i)
                    ==> removals(replies).contains(i)
        }),
{
    lemma_flush_is_sound(replies.take(at));
    lemma_recheck_ends(replies, at);
}

/// Behind the last taking of stock nothing more is sent or removed.
proof fn lemma_recheck_ends(replies: Seq<FlushReply>, at: int)
    requires
        0 <= at <= replies.len(),
        FlushView::start().after_all(replies.take(at)).stage == FlushStageView::Recheck,
    ensures
        ({
            let then = FlushView::start().after_all(replies.take(at));
            let now = FlushView::start().after_all(replies);
            &&& now.stage is Recheck || now.stage is Done
            &&& now.records == then.records
            &&& acceptances(replies) == acceptances(replies.take(at))
            &&& removals(replies) == removals(replies.take(at))
        }),
    decreases replies.len(),
{
    if at == replies.len() {
        assert(replies.take(at) =~= replies);
    } else {
        let before = replies.drop_last();
        assert(before.take(at) =~= replies.take(at));
        lemma_recheck_ends(before, at);
    }
}

/// Every first record before `limit` was accepted.
pub open spec fn firsts_accepted(records: Seq<Stored>, taken: Seq<int>, limit: int) -> bool {
    forall|i: int| 0 <= i < limit && #[trigger] flush::is_first(records, i) ==> taken.contains(i)
}

/// What holds of a flush without a fault.
pub open spec fn faultless_is_complete(flush: FlushView) -> bool {
    match flush.stage {
        FlushStageView::Clock { at } | FlushStageView::SyncSlot { at } | FlushStageView::Deliver {
            at,
        } => flush.faults.len() == 0 ==> firsts_accepted(flush.records, flush.accepted, at),
        FlushStageView::Remove { .. } | FlushStageView::Recheck => flush.faults.len() == 0
            ==> firsts_accepted(flush.records, flush.accepted, flush.records.len() as int),
        FlushStageView::Done(Ok(_)) => firsts_accepted(
            flush.records,
            flush.accepted,
            flush.records.len() as int,
        ),
        _ => true,
    }
}

pub(crate) proof fn lemma_no_first_between(records: Seq<Stored>, from: int)
    requires
        0 <= from,
    ensures
        match flush::next_first(records, from) {
            Some(at) => forall|i: int| from <= i < at ==> !flush::is_first(records, i),
            None => forall|i: int| from <= i ==> !flush::is_first(records, i),
        },
    decreases records.len() - from,
{
    if from < records.len() && !flush::is_first(records, from) {
        lemma_no_first_between(records, from + 1);
    }
}

proof fn lemma_delivering_is_complete(flush: FlushView, from: int)
    requires
        0 <= from,
        flush.faults.len() == 0 ==> firsts_accepted(flush.records, flush.accepted, from),
    ensures
        faultless_is_complete(flush.delivering(from)),
{
    lemma_no_first_between(flush.records, from);
    let after = flush.delivering(from);
    assert(after.records == flush.records && after.accepted == flush.accepted);
}

proof fn lemma_faultless_is_complete(replies: Seq<FlushReply>)
    ensures
        faultless_is_complete(FlushView::start().after_all(replies)),
    decreases replies.len(),
{
    if replies.len() > 0 {
        let before = replies.drop_last();
        let reply = replies.last();
        let flush = FlushView::start().after_all(before);
        lemma_faultless_is_complete(before);
        lemma_flush_is_sound(before);
        match (flush.stage, reply) {
            (FlushStageView::Inventory, FlushReply::Stock(Ok(found))) => {
                lemma_delivering_is_complete(
                    FlushView {
                        records: found.records@,
                        faults: found.faults@,
                        ..FlushView::start()
                    },
                    0,
                );
            },
            (FlushStageView::Deliver { at }, FlushReply::Delivered(Ok(()))) => {
                let taken = flush.accepted.push(at);
                assert(taken[flush.accepted.len() as int] == at);
                assert forall|i: int|
                    flush.faults.len() == 0 && 0 <= i < at + 1 && #[trigger] flush::is_first(
                        flush.records,
                        i,
                    ) implies taken.contains(i) by {
                    if i < at {
                        assert(flush.accepted.contains(i));
                        let k = choose|k: int|
                            0 <= k < flush.accepted.len() && flush.accepted[k] == i;
                        assert(taken[k] == i);
                    }
                }
                lemma_delivering_is_complete(FlushView { accepted: taken, ..flush }, at + 1);
            },
            (FlushStageView::Deliver { at }, FlushReply::Delivered(Err(fault))) => {
                lemma_delivering_is_complete(flush.with_fault(flush.at_event(at, fault)), at + 1);
            },
            _ => {},
        }
    }
}

/// Among the records that have the same event to deliver, one is the first.
proof fn lemma_first_of_event(records: Seq<Stored>, at: int) -> (first: int)
    requires
        0 <= at < records.len(),
        flush::pending_at(records, at) is Some,
    ensures
        flush::is_first(records, first),
        flush::pending_at(records, first) == flush::pending_at(records, at),
    decreases at,
{
    if flush::is_first(records, at) {
        at
    } else {
        let i = choose|i: int|
            0 <= i < at && #[trigger] flush::pending_at(records, i) == flush::pending_at(
                records,
                at,
            );
        lemma_first_of_event(records, i)
    }
}

/// A flush that succeeds had every waiting event accepted. It accepted each different event once,
/// says how many those are, and they are no more than belong to one flush.
pub proof fn law_successful_flush_accepted_everything(replies: Seq<FlushReply>, accepted: usize)
    requires
        FlushView::start().after_all(replies).stage == FlushStageView::Done(Ok(accepted)),
    ensures
        ({
            let records = FlushView::start().after_all(replies).records;
            let taken = acceptances(replies);
            &&& accepted == taken.len()
            &&& accepted <= MAX_BATCH
            &&& forall|i: int, j: int|
                0 <= i < j < taken.len() ==> flush::pending_at(records, #[trigger] taken[i])
                    != flush::pending_at(records, #[trigger] taken[j])
            &&& forall|i: int|
                0 <= i < records.len() && #[trigger] flush::pending_at(records, i) is Some
                    ==> flush::is_accepted(records, taken, i)
        }),
{
    lemma_flush_is_sound(replies);
    lemma_faultless_is_complete(replies);
    let records = FlushView::start().after_all(replies).records;
    let taken = acceptances(replies);
    assert forall|i: int, j: int| 0 <= i < j < taken.len() implies flush::pending_at(
        records,
        #[trigger] taken[i],
    ) != flush::pending_at(records, #[trigger] taken[j]) by {
        assert(flush::is_first(records, taken[j]));
        assert(flush::is_first(records, taken[i]));
        assert(taken[i] < taken[j]);
    }
    assert forall|i: int|
        0 <= i < records.len() && #[trigger] flush::pending_at(
            records,
            i,
        ) is Some implies flush::is_accepted(records, taken, i) by {
        let first = lemma_first_of_event(records, i);
        assert(taken.contains(first));
        let k = choose|k: int| 0 <= k < taken.len() && taken[k] == first;
        assert(flush::pending_at(records, taken[k]) == flush::pending_at(records, i));
    }
}

/// A flush succeeds exactly where nothing went wrong on the way, there is no fault in the outbox at
/// its end, and no event is left in it.
pub proof fn law_flush_succeeds_where_nothing_is_left(flush: FlushView, left: Found)
    requires
        flush.stage == FlushStageView::Recheck,
    ensures
        (flush.after(FlushReply::Stock(Ok(left))).stage matches FlushStageView::Done(Ok(_)))
            <==> (flush.faults.len() == 0 && left.faults@.len() == 0 && !flush::has_pending(
            left.records@,
        )),
{
}

/// A second flush is refused while one is under way.
pub proof fn law_flushes_do_not_overlap()
    ensures
        FlushView::start().after(FlushReply::Locked(false)).stage == FlushStageView::Done(
            Err(flush::ended_by(Fault::Notice(crate::fault::Notice::AlreadyFlushing))),
        ),
{
}

pub(crate) proof fn lemma_next_of(records: Seq<Stored>, id: Seq<char>, from: int)
    requires
        0 <= from,
    ensures
        match flush::next_of(records, id, from) {
            Some(at) => from <= at < records.len() && flush::pending_at(records, at) == Some(id)
                && forall|i: int|
                from <= i < at ==> #[trigger] flush::pending_at(records, i) != Some(id),
            None => forall|i: int|
                from <= i < records.len() ==> #[trigger] flush::pending_at(records, i) != Some(id),
        },
    decreases records.len() - from,
{
    if from < records.len() && flush::pending_at(records, from) != Some(id) {
        lemma_next_of(records, id, from + 1);
    }
}

/// The flush of one event sends and removes no record but those that hold this event.
pub open spec fn event_flush_is_sound(flush: EventFlushView, id: Seq<char>) -> bool {
    &&& flush.event_id == id
    &&& flush.records.len() <= usize::MAX
    &&& match flush.stage {
        EventStage::SyncSlot { at } | EventStage::Deliver { at } | EventStage::Remove { at } => {
            &&& at < flush.records.len()
            &&& flush::pending_at(flush.records, at as int) == Some(id)
        },
        _ => true,
    }
}

/// Whatever the flush of one event is answered, it sends and removes no record but those that hold
/// this event.
pub proof fn law_event_flush_touches_its_event_alone(id: Seq<char>, replies: Seq<FlushReply>)
    ensures
        event_flush_is_sound(EventFlushView::start(id).after_all(replies), id),
    decreases replies.len(),
{
    if replies.len() > 0 {
        let before = replies.drop_last();
        law_event_flush_touches_its_event_alone(id, before);
        let flush = EventFlushView::start(id).after_all(before);
        match (flush.stage, replies.last()) {
            (EventStage::Inventory, FlushReply::Stock(Ok(found))) => {
                let total: usize = found.records.len();
                assert(total == found.records@.len());
                lemma_next_of(found.records@, id, 0);
            },
            (EventStage::Deliver { at }, _) => {
                lemma_next_of(flush.records, id, 0);
            },
            (EventStage::Remove { at }, _) => {
                lemma_next_of(flush.records, id, at + 1);
            },
            _ => {},
        }
    }
}

/// The records that were taken up for removal, in the flush of one event that got these answers.
pub open spec fn event_removals(id: Seq<char>, replies: Seq<FlushReply>) -> Seq<int>
    decreases replies.len(),
{
    if replies.len() == 0 {
        Seq::empty()
    } else {
        let before = event_removals(id, replies.drop_last());
        let flush = EventFlushView::start(id).after_all(replies.drop_last());
        match (flush.stage, replies.last()) {
            (EventStage::Remove { at }, FlushReply::Removed(_)) => before.push(at as int),
            _ => before,
        }
    }
}

/// The answer says that the relay has accepted an event.
pub open spec fn is_acceptance(reply: FlushReply) -> bool {
    reply matches FlushReply::Delivered(Ok(()))
}

/// An event was accepted, and every record before `limit` that holds it was taken up for removal.
pub open spec fn event_removed_so_far(
    records: Seq<Stored>,
    id: Seq<char>,
    replies: Seq<FlushReply>,
    limit: int,
) -> bool {
    &&& exists|i: int| 0 <= i < replies.len() && #[trigger] is_acceptance(replies[i])
    &&& forall|i: int|
        0 <= i < limit && #[trigger] flush::pending_at(records, i) == Some(id) ==> event_removals(
            id,
            replies,
        ).contains(i)
}

proof fn lemma_event_is_removed(id: Seq<char>, replies: Seq<FlushReply>)
    ensures
        ({
            let flush = EventFlushView::start(id).after_all(replies);
            match flush.stage {
                EventStage::Remove { at } => event_removed_so_far(
                    flush.records,
                    id,
                    replies,
                    at as int,
                ),
                EventStage::Done(Ok(())) => event_removed_so_far(
                    flush.records,
                    id,
                    replies,
                    flush.records.len() as int,
                ),
                _ => true,
            }
        }),
    decreases replies.len(),
{
    if replies.len() > 0 {
        let before = replies.drop_last();
        let flush = EventFlushView::start(id).after_all(before);
        let after = flush.after(replies.last());
        lemma_event_is_removed(id, before);
        law_event_flush_touches_its_event_alone(id, before);
        if exists|i: int| 0 <= i < before.len() && #[trigger] is_acceptance(before[i]) {
            let i = choose|i: int| 0 <= i < before.len() && #[trigger] is_acceptance(before[i]);
            assert(is_acceptance(replies[i]));
        }
        assert(is_acceptance(replies.last()) == is_acceptance(replies[replies.len() - 1]));
        match flush.stage {
            EventStage::Deliver { at } => {
                lemma_next_of(flush.records, id, 0);
            },
            EventStage::Remove { at } => {
                lemma_next_of(flush.records, id, at + 1);
                if let FlushReply::Removed(_) = replies.last() {
                    let earlier = event_removals(id, before);
                    let removed = event_removals(id, replies);
                    assert(removed == earlier.push(at as int));
                    assert(removed[earlier.len() as int] == at);
                    assert forall|i: int|
                        0 <= i < at + 1 && #[trigger] flush::pending_at(flush.records, i) == Some(
                            id,
                        ) implies removed.contains(i) by {
                        if i < at {
                            let k = choose|k: int| 0 <= k < earlier.len() && earlier[k] == i;
                            assert(removed[k] == i);
                        }
                    }
                }
            },
            _ => {},
        }
    }
}

/// The flush of one event succeeds only where the relay has accepted an event, and every record that
/// holds the event was then taken up for removal.
pub proof fn law_flushed_event_is_removed(id: Seq<char>, replies: Seq<FlushReply>)
    requires
        EventFlushView::start(id).after_all(replies).stage == EventStage::Done(Ok(())),
    ensures
        exists|i: int| 0 <= i < replies.len() && #[trigger] is_acceptance(replies[i]),
        ({
            let records = EventFlushView::start(id).after_all(replies).records;
            forall|i: int|
                0 <= i < records.len() && #[trigger] flush::pending_at(records, i) == Some(id)
                    ==> event_removals(id, replies).contains(i)
        }),
{
    lemma_event_is_removed(id, replies);
}

/// An event that does not wait in the outbox is not sent.
pub proof fn law_absent_event_is_not_sent(id: Seq<char>, found: Found)
    requires
        crate::event::is_event_id(id),
        forall|i: int|
            0 <= i < found.records@.len() ==> #[trigger] flush::pending_at(found.records@, i) != Some(
                id,
            ),
    ensures
        EventFlushView::start(id).after(FlushReply::Locked(true)).after(
            FlushReply::Stock(Ok(found)),
        ).stage == EventStage::Done(Err(Fault::Notice(crate::fault::Notice::NotPending))),
{
    lemma_next_of(found.records@, id, 0);
}

} // verus!
