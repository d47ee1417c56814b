//! Whole decodes: the runs of events that a [`Decoder`](crate::decoder::Decoder)
//! accepts, and what holds of every one of them.
//!
//! An event is what a caller reports through one method of the decoder. The
//! laws here follow a decode from its start through any number of events:
//! what it has collected at each point, where a sample of each block comes to
//! stand, and which shapes a decode that is over can have.

use vstd::prelude::*;
use crate::status::SoxErrorT;
use crate::decoder::{
    converted,
    delivered,
    ends_stream,
    is_valid_read,
    open_failure,
    BlockRead,
    DecoderState,
    Event,
    Phase,
    READ_EOF,
    SAMPLES,
};

verus! {

/// Whether `event` is a read, and one that ends the stream exactly if `last`.
pub open spec fn is_read(event: Event, last: bool) -> bool {
    event matches Event::Block(read) && (ends_stream(read.count) <==> last)
}

/// The state after a run of events, reported to `state` in turn; `None` where
/// one of them was not accepted.
pub open spec fn run(state: DecoderState, events: Seq<Event>) -> Option<DecoderState>
    decreases events.len(),
{
    if events.len() == 0 {
        Some(state)
    } else if state.accepts(events[0]) {
        run(state.after(events[0]), events.drop_first())
    } else {
        None
    }
}

/// The reads among a run of events, in order.
pub open spec fn reads_in(events: Seq<Event>) -> Seq<BlockRead>
    decreases events.len(),
{
    if events.len() == 0 {
        Seq::empty()
    } else {
        match events[0] {
            Event::Block(read) => seq![read] + reads_in(events.drop_first()),
            _ => reads_in(events.drop_first()),
        }
    }
}

/// Whether every read of a run is one that the engine can report.
pub open spec fn all_valid(reads: Seq<BlockRead>) -> bool {
    forall|k: int|
        0 <= k < reads.len() ==> is_valid_read((#[trigger] reads[k]).count, reads[k].block)
}

/// The stream that a run of reads holds: what each read delivers, one after
/// the other.
pub open spec fn stream_of(reads: Seq<BlockRead>) -> Seq<i32>
    decreases reads.len(),
{
    if reads.len() == 0 {
        Seq::empty()
    } else {
        delivered(reads[0].count, reads[0].block) + stream_of(reads.drop_first())
    }
}

/// The number of samples that a run of reads reports: the sum of the counts,
/// where the end of the file counts as no sample.
pub open spec fn counted(reads: Seq<BlockRead>) -> nat
    decreases reads.len(),
{
    if reads.len() == 0 {
        0
    } else {
        let first: nat = if reads[0].count == READ_EOF {
            0
        } else {
            reads[0].count as nat
        };
        first + counted(reads.drop_first())
    }
}

/// The reads of an accepted run are valid, and the run has collected what it
/// had before and what the reads delivered.
proof fn lemma_run_collects(state: DecoderState, events: Seq<Event>)
    requires
        run(state, events) is Some,
    ensures
        all_valid(reads_in(events)),
        run(state, events)->0.samples == state.samples + stream_of(reads_in(events)),
    decreases events.len(),
{
    let reads = reads_in(events);
    if events.len() == 0 {
        assert(state.samples + stream_of(reads) =~= state.samples);
    } else {
        let rest = events.drop_first();
        let next = state.after(events[0]);
        lemma_run_collects(next, rest);
        match events[0] {
            Event::Block(read) => {
                assert(reads[0] == read);
                assert(reads.drop_first() =~= reads_in(rest));
                assert forall|k: int| 0 <= k < reads.len() implies is_valid_read(
                    (#[trigger] reads[k]).count,
                    reads[k].block,
                ) by {
                    if k > 0 {
                        assert(reads[k] == reads_in(rest)[k - 1]);
                    }
                }
                assert(next.samples + stream_of(reads_in(rest)) =~= state.samples + stream_of(
                    reads,
                ));
            },
            _ => {},
        }
    }
}

/// A run of valid reads holds as many samples as the reads report.
pub proof fn lemma_stream_length(reads: Seq<BlockRead>)
    requires
        all_valid(reads),
    ensures
        stream_of(reads).len() == counted(reads),
    decreases reads.len(),
{
    if reads.len() > 0 {
        let rest = reads.drop_first();
        assert(is_valid_read(reads[0].count, reads[0].block));
        assert forall|k: int| 0 <= k < rest.len() implies is_valid_read(
            (#[trigger] rest[k]).count,
            rest[k].block,
        ) by {
            assert(rest[k] == reads[k + 1]);
        }
        lemma_stream_length(rest);
    }
}

/// At every point of every decode, the samples collected are those that the
/// reads so far delivered, in the order of the reads, and there are as many of
/// them as the reads reported.
pub proof fn lemma_collected_is_delivered(events: Seq<Event>)
    requires
        run(DecoderState::start(), events) is Some,
    ensures
        run(DecoderState::start(), events)->0.samples == stream_of(reads_in(events)),
        run(DecoderState::start(), events)->0.samples.len() == counted(reads_in(events)),
{
    lemma_run_collects(DecoderState::start(), events);
    lemma_stream_length(reads_in(events));
    assert(Seq::<i32>::empty() + stream_of(reads_in(events)) =~= stream_of(reads_in(events)));
}

/// A decode that closed its handle returns the patterns of the samples that
/// its reads delivered, one for one and in the order of the stream: as many as
/// the reads reported, and the same whenever the reads are the same.
pub proof fn lemma_decode_result(events: Seq<Event>)
    requires
        run(DecoderState::start(), events) matches Some(end) && end.phase is Finished,
    ensures
        run(DecoderState::start(), events)->0.outcome() == Ok::<Seq<u32>, SoxErrorT>(
            converted(stream_of(reads_in(events))),
        ),
        converted(stream_of(reads_in(events))).len() == counted(reads_in(events)),
{
    lemma_collected_is_delivered(events);
}

/// Nothing is dropped or doubled where one block ends and the next begins:
/// after `j` full blocks, sample `i` of the next read stands at place
/// `j * SAMPLES + i` of the stream.
pub proof fn lemma_block_position(reads: Seq<BlockRead>, j: int, i: int)
    requires
        all_valid(reads),
        0 <= j < reads.len(),
        forall|k: int| 0 <= k < j ==> (#[trigger] reads[k]).count == SAMPLES,
        0 <= i < delivered(reads[j].count, reads[j].block).len(),
    ensures
        j * SAMPLES + i < stream_of(reads).len(),
        stream_of(reads)[j * SAMPLES + i] == reads[j].block[i],
    decreases j,
{
    let first = reads[0];
    assert(is_valid_read(first.count, first.block));
    if j > 0 {
        let rest = reads.drop_first();
        assert(first.count == SAMPLES);
        assert forall|k: int| 0 <= k < rest.len() implies is_valid_read(
            (#[trigger] rest[k]).count,
            rest[k].block,
        ) by {
            assert(rest[k] == reads[k + 1]);
        }
        assert forall|k: int| 0 <= k < j - 1 implies (#[trigger] rest[k]).count == SAMPLES by {
            assert(rest[k] == reads[k + 1]);
        }
        assert(rest[j - 1] == reads[j]);
        lemma_block_position(rest, j - 1, i);
        assert(j * SAMPLES + i == SAMPLES + ((j - 1) * SAMPLES + i)) by (nonlinear_arith);
    }
}

/// Once a decode is over, nothing more can be reported.
proof fn lemma_run_when_over(state: DecoderState, events: Seq<Event>)
    requires
        state.is_over(),
        run(state, events) is Some,
    ensures
        events.len() == 0,
{
}

/// From the closing phase a decode is over after exactly one event, the close.
proof fn lemma_run_from_closing(state: DecoderState, events: Seq<Event>)
    requires
        state.phase is Closing,
        run(state, events) matches Some(end) && end.is_over(),
    ensures
        events.len() == 1,
        events[0] is Closed,
        run(state, events) == Some(state.after(events[0])),
{
    reveal_with_fuel(run, 2);
    lemma_run_when_over(state.after(events[0]), events.drop_first());
}

/// From the reading phase a decode is over after its reads, of which the last
/// and no other ends the stream, and the close.
proof fn lemma_run_from_reading(state: DecoderState, events: Seq<Event>)
    requires
        state.phase is Reading,
        run(state, events) matches Some(end) && end.is_over(),
    ensures
        events.len() >= 2,
        events.last() is Closed,
        run(state, events)->0.phase == (Phase::Finished {
            close_status: events.last()->Closed_status,
        }),
        forall|k: int|
            0 <= k < events.len() - 1 ==> is_read(#[trigger] events[k], k == events.len() - 2),
    decreases events.len(),
{
    let rest = events.drop_first();
    let next = state.after(events[0]);
    assert(events[0] is Block);
    let first = events[0]->Block_0;
    if ends_stream(first.count) {
        lemma_run_from_closing(next, rest);
        assert(events.last() == rest[0]);
    } else {
        lemma_run_from_reading(next, rest);
        assert(events.last() == rest.last());
        assert forall|k: int| 0 <= k < events.len() - 1 implies is_read(
            #[trigger] events[k],
            k == events.len() - 2,
        ) by {
            if k > 0 {
                assert(events[k] == rest[k - 1]);
            }
        }
    }
}

/// Every decode that is over has one of two shapes.
///
/// Either the open failed: that is the only event, and the decode fails with
/// the failure of the open. Or the file was opened and the signal requested;
/// then blocks were read, at least one, of which the last and no other ended
/// the stream; then the handle was closed, once, by the last event. The
/// decode then returns samples, whatever the close reported.
pub proof fn lemma_decode_shape(events: Seq<Event>)
    requires
        run(DecoderState::start(), events) matches Some(end) && end.is_over(),
    ensures
        match run(DecoderState::start(), events)->0.phase {
            Phase::Failed { error } => {
                &&& events.len() == 1
                &&& events[0] matches Event::OpenFailed { status }
                &&& error == open_failure(status as int)
            },
            Phase::Finished { close_status } => {
                &&& events.len() >= 4
                &&& events[0] is Opened
                &&& events[1] is Configured
                &&& forall|k: int|
                    2 <= k < events.len() - 1 ==> is_read(
                        #[trigger] events[k],
                        k == events.len() - 2,
                    )
                &&& events.last() == (Event::Closed { status: close_status })
            },
            _ => false,
        },
{
    reveal_with_fuel(run, 3);
    let start = DecoderState::start();
    let rest = events.drop_first();
    let next = start.after(events[0]);
    match events[0] {
        Event::OpenFailed { status } => {
            lemma_run_when_over(next, rest);
        },
        _ => {
            assert(events[0] is Opened);
            let rest2 = rest.drop_first();
            let next2 = next.after(rest[0]);
            assert(rest[0] is Configured);
            lemma_run_from_reading(next2, rest2);
            assert(events.last() == rest2.last());
            assert(events[1] == rest[0]);
            assert forall|k: int| 2 <= k < events.len() - 1 implies is_read(
                #[trigger] events[k],
                k == events.len() - 2,
            ) by {
                assert(events[k] == rest2[k - 2]);
            }
        },
    }
}

/// The handle is closed exactly once in a decode that returns samples, and by
/// its last event; it is never closed, and nothing is read, in one that fails.
pub proof fn lemma_closed_exactly_once(events: Seq<Event>, k: int)
    requires
        run(DecoderState::start(), events) matches Some(end) && end.is_over(),
        0 <= k < events.len(),
    ensures
        run(DecoderState::start(), events)->0.phase is Finished ==> (events[k] is Closed <==> k
            == events.len() - 1),
        run(DecoderState::start(), events)->0.phase is Failed ==> !(events[k] is Closed) && !(
        events[k] is Block),
{
    lemma_decode_shape(events);
}

} // verus!
