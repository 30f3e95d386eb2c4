//! What holds of every run of the driver.
//!
//! A run is the sequence of events that the driver accepted from some state
//! on, together with the operations it answered with: the operation at
//! index `i` is the answer to the event at index `i`. A scan is a run that
//! begins in [`State::Listing`].

use crate::config::ConfigView;
use crate::driver::{is_missing_root, next, ActionView, EventView, State};
use crate::failure::Failure;
use crate::scanner::is_dicom;
use crate::uploader::failure_of;
use vstd::prelude::*;

verus! {

/// Where a run ended and what the driver asked for on the way.
pub struct Run {
    pub state: State,
    pub actions: Seq<ActionView>,
}

/// The run that `events` give from `start` on, or `None` where the driver
/// refuses one of them.
pub open spec fn run_from(config: ConfigView, start: State, events: Seq<EventView>) -> Option<Run>
    decreases events.len(),
{
    if events.len() == 0 {
        Some(Run { state: start, actions: Seq::empty() })
    } else {
        match run_from(config, start, events.drop_last()) {
            Some(before) => match next(config, before.state, events.last()) {
                Some((state, action)) => Some(Run { state, actions: before.actions.push(action) }),
                None => None,
            },
            None => None,
        }
    }
}

/// The event reports an entry whose name makes it a candidate.
pub open spec fn is_candidate(event: EventView) -> bool {
    event matches EventView::Entry { file_name } && is_dicom(file_name)
}

/// The event reports an upload that was no failure.
pub open spec fn is_uploaded(event: EventView) -> bool {
    event matches EventView::UploadFinished { outcome } && failure_of(outcome) is None
}

/// The operation sends a request.
pub open spec fn is_upload(action: ActionView) -> bool {
    action is Upload
}

/// The operation changes the directory.
pub open spec fn is_unlink(action: ActionView) -> bool {
    action is Unlink
}

/// How many of the events report a candidate.
pub open spec fn candidates_in(events: Seq<EventView>) -> nat
    decreases events.len(),
{
    if events.len() == 0 {
        0
    } else {
        candidates_in(events.drop_last()) + if is_candidate(events.last()) {
            1nat
        } else {
            0nat
        }
    }
}

/// How many of the operations send a request.
pub open spec fn uploads_in(actions: Seq<ActionView>) -> nat
    decreases actions.len(),
{
    if actions.len() == 0 {
        0
    } else {
        uploads_in(actions.drop_last()) + if is_upload(actions.last()) {
            1nat
        } else {
            0nat
        }
    }
}

/// The candidate reported at index `i` was uploaded with success and its
/// removal was confirmed.
pub open spec fn removed(events: Seq<EventView>, i: int) -> bool {
    &&& i + 2 < events.len()
    &&& is_uploaded(events[i + 1])
    &&& events[i + 2] == EventView::Unlinked
}

/// `action` is the operation that a driver in `state` waits for.
pub open spec fn awaits(state: State, action: ActionView) -> bool {
    match state {
        State::Listing => action is BeginScan || action is NextEntry,
        State::Uploading => action is Upload,
        State::Unlinking => action is Unlink,
        State::Sleeping => action is Sleep,
        State::Failed(failure) => action == (ActionView::Abort { failure }),
    }
}

/// Every beginning of a run is a run, with the same answers.
pub proof fn lemma_run_prefix(config: ConfigView, start: State, events: Seq<EventView>, k: int)
    requires
        run_from(config, start, events) is Some,
        0 <= k <= events.len(),
    ensures
        run_from(config, start, events.take(k)) is Some,
        run_from(config, start, events)->0.actions.len() == events.len(),
        run_from(config, start, events.take(k))->0.actions == run_from(
            config,
            start,
            events,
        )->0.actions.take(k),
    decreases events.len(),
{
    if events.len() == 0 {
        assert(events.take(k) =~= events);
    } else {
        lemma_run_prefix(config, start, events.drop_last(), events.len() - 1);
        if k == events.len() {
            assert(events.take(k) =~= events);
        } else {
            lemma_run_prefix(config, start, events.drop_last(), k);
            assert(events.drop_last().take(k) =~= events.take(k));
        }
    }
}

/// The answer at index `i` of a run is the transition that the event at
/// index `i` causes in the state that the events before it led to, and the
/// state reached is the one that waits for that answer.
pub proof fn lemma_run_step(config: ConfigView, start: State, events: Seq<EventView>, i: int)
    requires
        run_from(config, start, events) is Some,
        0 <= i < events.len(),
    ensures
        run_from(config, start, events)->0.actions.len() == events.len(),
        run_from(config, start, events.take(i)) is Some,
        run_from(config, start, events.take(i + 1)) is Some,
        next(config, run_from(config, start, events.take(i))->0.state, events[i]) == Some(
            (
                run_from(config, start, events.take(i + 1))->0.state,
                run_from(config, start, events)->0.actions[i],
            ),
        ),
        awaits(
            run_from(config, start, events.take(i + 1))->0.state,
            run_from(config, start, events)->0.actions[i],
        ),
        i > 0 ==> awaits(
            run_from(config, start, events.take(i))->0.state,
            run_from(config, start, events)->0.actions[i - 1],
        ),
        i == 0 ==> run_from(config, start, events.take(i))->0.state == start,
{
    let whole = run_from(config, start, events)->0;
    let upto = events.take(i + 1);
    lemma_run_prefix(config, start, events, i);
    lemma_run_prefix(config, start, events, i + 1);
    assert(upto.drop_last() =~= events.take(i));
    assert(upto.last() == events[i]);
    let before = run_from(config, start, events.take(i))->0;
    let after = run_from(config, start, upto)->0;
    let answer = next(config, before.state, events[i]);
    assert(answer is Some);
    let (_, action) = answer->0;
    assert(after.actions == before.actions.push(action));
    assert(before.actions.len() == i);
    assert(after.actions[i] == whole.actions[i]);
    if i > 0 {
        let earlier = events.take(i);
        assert(earlier.drop_last() =~= events.take(i - 1));
        assert(earlier.last() == events[i - 1]);
        lemma_run_prefix(config, start, events, i - 1);
        let first = run_from(config, start, events.take(i - 1))->0;
        let previous = next(config, first.state, events[i - 1]);
        assert(previous is Some);
        let (_, action_before) = previous->0;
        assert(before.actions == first.actions.push(action_before));
        assert(first.actions.len() == i - 1);
        assert(before.actions[i - 1] == whole.actions[i - 1]);
    } else {
        assert(events.take(0).len() == 0);
    }
}

/// A scan starts at index `k` of a run: at the run's own start, or right
/// after the end of a sleep.
pub open spec fn scan_starts_at(events: Seq<EventView>, k: int) -> bool {
    k == 0 || (0 < k <= events.len() && events[k - 1] == EventView::Slept)
}

/// Each scan within a run is a run of its own: the events from the start of
/// a scan on are accepted from [`State::Listing`], with the same answers and
/// the same states. So what holds of every run that begins there holds of
/// every scan, the first and each later one.
pub proof fn lemma_scan_is_a_run(config: ConfigView, events: Seq<EventView>, k: int, m: int)
    requires
        run_from(config, State::Listing, events) is Some,
        0 <= k <= m <= events.len(),
        scan_starts_at(events, k),
    ensures
        run_from(config, State::Listing, events.subrange(k, m)) is Some,
        run_from(config, State::Listing, events.take(m)) is Some,
        run_from(config, State::Listing, events.subrange(k, m))->0.state == run_from(
            config,
            State::Listing,
            events.take(m),
        )->0.state,
        run_from(config, State::Listing, events.subrange(k, m))->0.actions == run_from(
            config,
            State::Listing,
            events,
        )->0.actions.subrange(k, m),
    decreases m - k,
{
    let whole = run_from(config, State::Listing, events)->0;
    let part = events.subrange(k, m);
    lemma_run_prefix(config, State::Listing, events, m);
    if m == k {
        assert(part.len() == 0);
        assert(whole.actions.subrange(k, m) =~= Seq::<ActionView>::empty());
        if k == 0 {
            assert(events.take(0).len() == 0);
        } else {
            lemma_run_step(config, State::Listing, events, k - 1);
        }
    } else {
        lemma_scan_is_a_run(config, events, k, m - 1);
        lemma_run_step(config, State::Listing, events, m - 1);
        assert(part.drop_last() =~= events.subrange(k, m - 1));
        assert(part.last() == events[m - 1]);
        assert(whole.actions.subrange(k, m - 1).push(whole.actions[m - 1])
            =~= whole.actions.subrange(k, m));
    }
}

/// Only candidates are sent, and only to the configured endpoint: within a
/// scan, a request is the answer to the report of an entry whose name ends
/// in `.dcm`, and to nothing else. An entry with any other name is answered
/// by the request for the next entry: nothing is done to it.
pub proof fn lemma_uploads_are_candidates(config: ConfigView, events: Seq<EventView>, i: int)
    requires
        run_from(config, State::Listing, events) is Some,
        0 <= i < events.len(),
    ensures
        ({
            let actions = run_from(config, State::Listing, events)->0.actions;
            &&& actions.len() == events.len()
            &&& is_upload(actions[i]) <==> is_candidate(events[i])
            &&& is_upload(actions[i]) ==> actions[i] == (ActionView::Upload {
                url: config.server_address,
            })
            &&& events[i] is Entry && !is_candidate(events[i]) ==> actions[i]
                == ActionView::NextEntry
        }),
{
    lemma_run_step(config, State::Listing, events, i);
}

/// Only what was sent is removed: within a scan, a removal is the answer to
/// the report of a successful upload, and that upload was the answer to the
/// report of a candidate. So the entry to remove, the one last reported, is
/// that candidate.
pub proof fn lemma_unlinks_follow_uploads(config: ConfigView, events: Seq<EventView>, i: int)
    requires
        run_from(config, State::Listing, events) is Some,
        0 <= i < events.len(),
        is_unlink(run_from(config, State::Listing, events)->0.actions[i]),
    ensures
        i >= 1,
        is_uploaded(events[i]),
        is_upload(run_from(config, State::Listing, events)->0.actions[i - 1]),
        is_candidate(events[i - 1]),
{
    lemma_run_step(config, State::Listing, events, i);
    lemma_uploads_are_candidates(config, events, i - 1);
}

/// One request per candidate: within a scan, as many requests are asked for
/// as candidates were reported, whatever the server answered and wherever
/// the scan stands.
pub proof fn lemma_one_upload_per_candidate(config: ConfigView, events: Seq<EventView>)
    requires
        run_from(config, State::Listing, events) is Some,
    ensures
        uploads_in(run_from(config, State::Listing, events)->0.actions) == candidates_in(events),
    decreases events.len(),
{
    if events.len() > 0 {
        let i = events.len() - 1;
        let actions = run_from(config, State::Listing, events)->0.actions;
        lemma_run_prefix(config, State::Listing, events, i);
        assert(events.take(i) =~= events.drop_last());
        assert(actions.take(i) =~= actions.drop_last());
        lemma_one_upload_per_candidate(config, events.drop_last());
        lemma_uploads_are_candidates(config, events, i);
    }
}

/// No candidate is left behind: for a candidate reported in a scan, either
/// its removal was confirmed, or it is the entry that the driver is busy
/// with, or the driver has failed on it and its last answer says which
/// operation failed.
pub proof fn lemma_candidate_removed_or_failed(config: ConfigView, events: Seq<EventView>, i: int)
    requires
        run_from(config, State::Listing, events) is Some,
        0 <= i < events.len(),
        is_candidate(events[i]),
    ensures
        ({
            let run = run_from(config, State::Listing, events)->0;
            ||| removed(events, i)
            ||| events.len() <= i + 2 && (run.state == State::Uploading || run.state
                == State::Unlinking)
            ||| events.len() <= i + 3 && run.state is Failed && run.state != State::Failed(
                Failure::Scan,
            ) && run.actions.last() == (ActionView::Abort { failure: run.state->Failed_0 })
        }),
{
    let n = events.len() as int;
    assert(events.take(n) =~= events);
    lemma_run_step(config, State::Listing, events, i);
    if i + 1 < n {
        lemma_run_step(config, State::Listing, events, i + 1);
        if i + 2 < n {
            lemma_run_step(config, State::Listing, events, i + 2);
            if i + 3 < n {
                lemma_run_step(config, State::Listing, events, i + 3);
            }
        }
    }
}

/// At the end of a scan every candidate is gone: when the driver sleeps, or
/// asks for the next entry, the removal of each candidate reported so far
/// was confirmed.
pub proof fn lemma_scan_leaves_no_candidate(config: ConfigView, events: Seq<EventView>, i: int)
    requires
        run_from(config, State::Listing, events) matches Some(run) && (run.state
            == State::Sleeping || run.state == State::Listing),
        0 <= i < events.len(),
        is_candidate(events[i]),
    ensures
        removed(events, i),
{
    lemma_candidate_removed_or_failed(config, events, i);
}

/// A scan without candidates does nothing: where no entry reported has a
/// name that ends in `.dcm`, the driver asks for no request and no removal.
pub proof fn lemma_no_candidate_no_effect(config: ConfigView, events: Seq<EventView>, i: int)
    requires
        run_from(config, State::Listing, events) is Some,
        forall|j: int| 0 <= j < events.len() ==> !is_candidate(#[trigger] events[j]),
        0 <= i < events.len(),
    ensures
        !is_upload(run_from(config, State::Listing, events)->0.actions[i]),
        !is_unlink(run_from(config, State::Listing, events)->0.actions[i]),
{
    lemma_uploads_are_candidates(config, events, i);
    if is_unlink(run_from(config, State::Listing, events)->0.actions[i]) {
        lemma_unlinks_follow_uploads(config, events, i);
    }
}

/// A failure ends the run: once the driver has asked the host to give up, it
/// accepts no event, so that request is the last answer of the run.
pub proof fn lemma_abort_is_last(config: ConfigView, events: Seq<EventView>, i: int)
    requires
        run_from(config, State::Listing, events) is Some,
        0 <= i < events.len(),
        run_from(config, State::Listing, events)->0.actions[i] is Abort,
    ensures
        i == events.len() - 1,
        run_from(config, State::Listing, events)->0.state is Failed,
{
    lemma_run_step(config, State::Listing, events, i);
    if i + 1 < events.len() {
        lemma_run_step(config, State::Listing, events, i + 1);
    } else {
        assert(events.take(i + 1) =~= events);
    }
}

/// A sleep of the configured length lies between two scans: a scan is begun
/// only in answer to the end of a sleep, that sleep was asked for with the
/// configured number of seconds, and it was asked for when the scanner had
/// nothing more to report.
pub proof fn lemma_sleep_between_scans(config: ConfigView, events: Seq<EventView>, i: int)
    requires
        run_from(config, State::Listing, events) is Some,
        0 <= i < events.len(),
        run_from(config, State::Listing, events)->0.actions[i] is BeginScan,
    ensures
        i >= 1,
        events[i] == EventView::Slept,
        run_from(config, State::Listing, events)->0.actions[i - 1] == (ActionView::Sleep {
            seconds: config.sleep_seconds,
        }),
        events[i - 1] is Exhausted || (events[i - 1] matches EventView::EntryFailed {
            depth,
            not_found,
        } && is_missing_root(depth, not_found)),
        run_from(config, State::Listing, events)->0.actions[i] == (ActionView::BeginScan {
            root: config.directory_path,
        }),
{
    lemma_run_step(config, State::Listing, events, i);
    lemma_run_step(config, State::Listing, events, i - 1);
}

} // verus!
