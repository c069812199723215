//! What holds of every recording: how ordinals, parents and depths come out
//! of the engine's start and end calls, that an unmatched end call stays
//! within its transaction, that what a flush writes can be read back, and
//! that file names and completion lines tell batches apart.

use crate::batch::{file_path, marker_line, RecorderView};
use crate::decimal::{decimal, lemma_decimal_has_no_dash, lemma_decimal_is_injective};
use crate::decode::{decode, lemma_batch_round_trip};
use crate::trace::{BatchView, MessageHeader};
use crate::transaction::{
    lemma_close_keeps_wf, lemma_open_keeps_wf, lemma_stack_entry_bound, ProtocolError,
    RecordingView, MAX_INSTRUCTIONS,
};
use vstd::prelude::*;

verus! {

/// One instruction call of the engine within a transaction.
pub enum FrameEvent {
    Start { program_id: Seq<char>, account_keys: Seq<Seq<char>>, data: Seq<u8> },
    End,
}

/// The recording after one call.
pub open spec fn step(recording: RecordingView, event: FrameEvent) -> RecordingView {
    match event {
        FrameEvent::Start { program_id, account_keys, data } => recording.open(
            program_id,
            account_keys,
            data,
        ),
        FrameEvent::End => recording.close(),
    }
}

/// The recording after the calls `events`, made in order on `recording`.
pub open spec fn replay(recording: RecordingView, events: Seq<FrameEvent>) -> RecordingView
    decreases events.len(),
{
    if events.len() == 0 {
        recording
    } else {
        step(replay(recording, events.drop_last()), events.last())
    }
}

/// The number of start calls among `events`.
pub open spec fn starts(events: Seq<FrameEvent>) -> nat
    decreases events.len(),
{
    if events.len() == 0 {
        0
    } else if events.last() is Start {
        starts(events.drop_last()) + 1
    } else {
        starts(events.drop_last())
    }
}

/// The number of start calls among `events` less the number of end calls:
/// the nesting level after them.
pub open spec fn level(events: Seq<FrameEvent>) -> int
    decreases events.len(),
{
    if events.len() == 0 {
        0
    } else if events.last() is Start {
        level(events.drop_last()) + 1
    } else {
        level(events.drop_last()) - 1
    }
}

/// Whether each end call of `events` matches an earlier start call that no
/// other end call has matched.
pub open spec fn well_nested(events: Seq<FrameEvent>) -> bool {
    forall|k: int| 0 <= k <= events.len() ==> level(#[trigger] events.take(k)) >= 0
}

/// A recording as a transaction has it when it starts: no frame recorded,
/// none open.
pub open spec fn fresh(recording: RecordingView) -> bool {
    recording.frame_count() == 0 && recording.nesting() == 0
}

/// A prefix of a sequence of calls holds no more start calls than the whole.
pub proof fn lemma_starts_of_prefix(events: Seq<FrameEvent>, k: int)
    requires
        0 <= k <= events.len(),
    ensures
        starts(events.take(k)) <= starts(events),
        k < events.len() && events[k] is Start ==> starts(events.take(k)) < starts(events),
    decreases events.len(),
{
    if k == events.len() {
        assert(events.take(k) =~= events);
    } else {
        let shorter = events.drop_last();
        assert(shorter.take(k) =~= events.take(k));
        lemma_starts_of_prefix(shorter, k);
    }
}

/// What one call does to a well-formed recording, when a start call finds
/// an ordinal left and an end call finds a frame open: the frames recorded
/// before stay as they are, and a start call appends a frame whose depth is
/// the nesting level before the call.
pub proof fn lemma_step(before: RecordingView, event: FrameEvent)
    requires
        before.wf(),
        event is Start ==> before.can_open(),
        event is End ==> before.nesting() > 0,
    ensures
        step(before, event).wf(),
        step(before, event).poisoned == before.poisoned,
        event is Start ==> step(before, event).frame_count() == before.frame_count() + 1,
        event is Start ==> step(before, event).nesting() == before.nesting() + 1,
        event is Start ==> step(before, event).trace.instructions[before.frame_count() as int].depth
            == before.nesting(),
        event is End ==> step(before, event).frame_count() == before.frame_count(),
        event is End ==> step(before, event).nesting() == before.nesting() - 1,
        forall|i: int|
            0 <= i < before.frame_count() ==> #[trigger] step(before, event).trace.instructions[i]
                == before.trace.instructions[i],
{
    match event {
        FrameEvent::Start { program_id, account_keys, data } => {
            lemma_open_keeps_wf(before, program_id, account_keys, data);
            if before.nesting() > 0 {
                lemma_stack_entry_bound(before, before.nesting() - 1);
            }
        },
        FrameEvent::End => {
            lemma_close_keeps_wf(before);
        },
    }
}

/// A sequence of calls whose every prefix is well nested leaves the
/// recording well formed, with one frame for each start call and as many
/// frames open as the nesting level says; no call poisons the transaction.
pub proof fn lemma_replay_counts(recording: RecordingView, events: Seq<FrameEvent>)
    requires
        recording.wf(),
        fresh(recording),
        well_nested(events),
        starts(events) <= MAX_INSTRUCTIONS,
    ensures
        replay(recording, events).wf(),
        replay(recording, events).frame_count() == starts(events),
        replay(recording, events).nesting() == level(events),
        replay(recording, events).poisoned == recording.poisoned,
    decreases events.len(),
{
    assert(events.take(events.len() as int) =~= events);
    if events.len() > 0 {
        let shorter = events.drop_last();
        lemma_prefix_well_nested(events, events.len() - 1);
        lemma_replay_counts(recording, shorter);
        lemma_step(replay(recording, shorter), events.last());
    }
}

/// A prefix of a well-nested sequence of calls is well nested.
pub proof fn lemma_prefix_well_nested(events: Seq<FrameEvent>, k: int)
    requires
        well_nested(events),
        0 <= k <= events.len(),
    ensures
        well_nested(events.take(k)),
{
    assert forall|j: int| 0 <= j <= events.take(k).len() implies level(
        #[trigger] events.take(k).take(j),
    ) >= 0 by {
        assert(events.take(k).take(j) =~= events.take(j));
    }
}

/// Later calls leave the frames of earlier calls as they are.
pub proof fn lemma_replay_keeps_frames(recording: RecordingView, events: Seq<FrameEvent>, k: int)
    requires
        recording.wf(),
        fresh(recording),
        well_nested(events),
        starts(events) <= MAX_INSTRUCTIONS,
        0 <= k <= events.len(),
    ensures
        forall|i: int|
            0 <= i < starts(events.take(k)) ==> #[trigger] replay(
                recording,
                events,
            ).trace.instructions[i] == replay(recording, events.take(k)).trace.instructions[i],
    decreases events.len() - k,
{
    if k == events.len() {
        assert(events.take(k) =~= events);
    } else {
        let shorter = events.drop_last();
        let last = events.len() - 1;
        assert(events.take(events.len() as int) =~= events);
        lemma_prefix_well_nested(events, last);
        assert(shorter.take(k) =~= events.take(k));
        lemma_starts_of_prefix(shorter, k);
        lemma_replay_counts(recording, shorter);
        lemma_step(replay(recording, shorter), events.last());
        if k < last {
            lemma_replay_keeps_frames(recording, shorter, k);
        } else {
            assert(shorter.take(k) =~= shorter);
        }
    }
}

/// Ordinals count the start calls, and depth is the nesting level.
///
/// For every well-nested sequence of start and end calls on a fresh
/// transaction, with no more start calls than there are ordinals: there is
/// one frame for each start call, the frames carry the ordinals 1, 2, ... in
/// call order, the number of open frames after the calls is the nesting
/// level, each frame's depth is the nesting level at which its start call
/// was made, and no call poisons the transaction.
pub proof fn lemma_well_nested_ordinals(recording: RecordingView, events: Seq<FrameEvent>)
    requires
        recording.wf(),
        fresh(recording),
        well_nested(events),
        starts(events) <= MAX_INSTRUCTIONS,
    ensures
        replay(recording, events).wf(),
        replay(recording, events).frame_count() == starts(events),
        forall|i: int|
            0 <= i < starts(events) ==> (#[trigger] replay(
                recording,
                events,
            ).trace.instructions[i]).ordinal == i + 1,
        replay(recording, events).nesting() == level(events),
        forall|k: int|
            0 <= k < events.len() && (#[trigger] events[k]) is Start ==> replay(
                recording,
                events,
            ).trace.instructions[starts(events.take(k)) as int].depth == level(events.take(k)),
        replay(recording, events).poisoned == recording.poisoned,
{
    let after = replay(recording, events);
    lemma_replay_counts(recording, events);
    assert forall|k: int|
        0 <= k < events.len() && (#[trigger] events[k]) is Start implies after.trace.instructions[
            starts(events.take(k)) as int
        ].depth == level(events.take(k)) by {
        lemma_frame_depth(recording, events, k);
    }
}

/// The frame that the start call at position `k` opens has the nesting level
/// before that call as its depth.
pub proof fn lemma_frame_depth(recording: RecordingView, events: Seq<FrameEvent>, k: int)
    requires
        recording.wf(),
        fresh(recording),
        well_nested(events),
        starts(events) <= MAX_INSTRUCTIONS,
        0 <= k < events.len(),
        events[k] is Start,
    ensures
        replay(recording, events).trace.instructions[starts(events.take(k)) as int].depth == level(
            events.take(k),
        ),
{
    let upto = events.take(k + 1);
    let before = events.take(k);
    lemma_prefix_well_nested(events, k);
    lemma_prefix_well_nested(events, k + 1);
    lemma_starts_of_prefix(events, k);
    lemma_starts_of_prefix(events, k + 1);
    assert(upto.drop_last() =~= before);
    lemma_replay_counts(recording, before);
    lemma_step(replay(recording, before), events[k]);
    lemma_replay_keeps_frames(recording, events, k + 1);
}

/// Ordinals belong to a transaction, not to the batch.
///
/// Whatever the recorder holds, the first instruction started after a new
/// transaction was started gets ordinal 1, no parent and depth 0, and is the
/// only frame of that transaction.
pub proof fn lemma_ordinals_restart(
    recorder: RecorderView,
    sigs: Seq<Seq<char>>,
    header: MessageHeader,
    keys: Seq<Seq<char>>,
    recent_blockhash: Seq<char>,
    program_id: Seq<char>,
    account_keys: Seq<Seq<char>>,
    data: Seq<u8>,
)
    requires
        sigs.len() > 0,
    ensures
        ({
            let started = recorder.begin(sigs, header, keys, recent_blockhash);
            let after = started.open(program_id, account_keys, data);
            &&& started.open_result() is Ok
            &&& after.pending() == recorder.pending() + 1
            &&& after.active().frame_count() == 1
            &&& after.active().trace.instructions[0].ordinal == 1
            &&& after.active().trace.instructions[0].parent_ordinal == 0
            &&& after.active().trace.instructions[0].depth == 0
            &&& forall|i: int|
                0 <= i < recorder.pending() ==> #[trigger] after.trxs[i] == recorder.trxs[i]
        }),
{
}

/// An unmatched end call stays within its transaction.
///
/// When the active transaction has no open frame, ending an instruction
/// answers the unbalanced-frame error, poisons that transaction, and leaves
/// every trace of the batch, and every other transaction, as it was.
pub proof fn lemma_unbalanced_end_is_contained(recorder: RecorderView)
    requires
        recorder.has_active(),
        recorder.active().nesting() == 0,
    ensures
        recorder.close_result() == Err::<(), ProtocolError>(ProtocolError::UnbalancedFrame),
        recorder.close().active().poisoned,
        recorder.close().same_traces(recorder),
        recorder.close().same_but_active(recorder),
{
}

/// What a flush writes can be read back.
///
/// A reader of the wire format finds in the bytes that a flush hands out the
/// batch that was recorded: the recorder's batch number and the traces of
/// its transactions that are not poisoned, in start order, each as it was
/// recorded.
pub proof fn lemma_flush_round_trip(recorder: RecorderView)
    ensures
        decode::<BatchView>(recorder.artifact().bytes) == Some(recorder.batch()),
{
    lemma_batch_round_trip(recorder.batch());
}

/// A flush without transactions gives a well-formed artifact.
///
/// With no transaction pending, the batch fits the wire format, no
/// transaction is named as left out, and a reader finds in the bytes the
/// batch with the recorder's number and no transaction.
pub proof fn lemma_empty_flush(recorder: RecorderView)
    requires
        recorder.pending() == 0,
    ensures
        recorder.artifact().bytes.len() <= 11,
        recorder.artifact().quarantined.len() == 0,
        decode::<BatchView>(recorder.artifact().bytes) == Some(
            BatchView { batch_number: recorder.batch_number, transactions: Seq::empty() },
        ),
{
    let batch = recorder.batch();
    lemma_batch_round_trip(batch);
    crate::batch::lemma_empty_batch_short(recorder.batch_number);
}

/// Where two texts without a dash are each followed by a dash and a further
/// text, and the results are the same, the texts are the same on both sides
/// of the dash.
pub proof fn lemma_dash_separates(
    left: Seq<char>,
    left_rest: Seq<char>,
    right: Seq<char>,
    right_rest: Seq<char>,
)
    requires
        forall|i: int| 0 <= i < left.len() ==> left[i] != '-',
        forall|i: int| 0 <= i < right.len() ==> right[i] != '-',
        left.push('-') + left_rest == right.push('-') + right_rest,
    ensures
        left == right,
        left_rest == right_rest,
{
    let joined = left.push('-') + left_rest;
    let other = right.push('-') + right_rest;
    assert(joined[left.len() as int] == '-');
    assert(other[right.len() as int] == '-');
    if left.len() < right.len() {
        assert(other[left.len() as int] == right[left.len() as int]);
    }
    if right.len() < left.len() {
        assert(joined[right.len() as int] == left[right.len() as int]);
    }
    assert(left =~= right) by {
        assert forall|i: int| 0 <= i < left.len() implies left[i] == right[i] by {
            assert(joined[i] == left[i]);
            assert(other[i] == right[i]);
        }
    }
    assert(left_rest =~= right_rest) by {
        assert(joined.len() == other.len());
        assert forall|i: int| 0 <= i < left_rest.len() implies left_rest[i] == right_rest[i] by {
            assert(joined[left.len() + 1 + i] == left_rest[i]);
            assert(other[right.len() + 1 + i] == right_rest[i]);
        }
    }
}

/// Each shard and batch has a file of its own.
///
/// Within one directory, two file names are the same only if they are made
/// for the same shard and the same batch.
pub proof fn lemma_file_path_is_unique(
    directory: Seq<char>,
    first_shard: nat,
    first_batch: nat,
    second_shard: nat,
    second_batch: nat,
)
    requires
        file_path(directory, first_shard, first_batch) == file_path(
            directory,
            second_shard,
            second_batch,
        ),
    ensures
        first_shard == second_shard,
        first_batch == second_batch,
{
    reveal_strlit("dmlog-");
    reveal_strlit("-");
    let head = directory + "dmlog-"@;
    let first = decimal(first_shard + 1).push('-') + decimal(first_batch);
    let second = decimal(second_shard + 1).push('-') + decimal(second_batch);
    assert(file_path(directory, first_shard, first_batch) =~= head + first);
    assert(file_path(directory, second_shard, second_batch) =~= head + second);
    assert(first =~= (head + first).skip(head.len() as int));
    assert(second =~= (head + second).skip(head.len() as int));
    lemma_decimal_has_no_dash(first_shard + 1);
    lemma_decimal_has_no_dash(second_shard + 1);
    lemma_dash_separates(
        decimal(first_shard + 1),
        decimal(first_batch),
        decimal(second_shard + 1),
        decimal(second_batch),
    );
    lemma_decimal_is_injective(first_shard + 1, second_shard + 1);
    lemma_decimal_is_injective(first_batch, second_batch);
}

/// The completion line names the file.
///
/// Two completion lines are the same only if they announce the same path.
pub proof fn lemma_marker_names_the_path(first: Seq<char>, second: Seq<char>)
    requires
        marker_line(first) == marker_line(second),
    ensures
        first == second,
{
    let tag = "DMLOG BATCH_FILE "@;
    assert(second =~= marker_line(second).skip(tag.len() as int));
}

} // verus!
