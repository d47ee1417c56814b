//! The decode protocol.
//!
//! Decoding a file alternates work that only the engine can do (open, read a
//! block, close) with decisions: what to ask of the engine next, which part of
//! a block to keep, when the stream has ended, what to report. A [`Decoder`]
//! makes the decisions. Its caller does what an [`Action`] asks and reports
//! the outcome through the method that the action names:
//!
//! ```text
//! Open       -> opened | open_failed
//! Configure  -> configured
//! Read       -> block_read
//! Close      -> closed
//! Done       -> finish
//! ```
//!
//! A handle that was opened is closed exactly once, after the last read, and
//! there is no way from a failed open to a sequence of samples: see
//! [`crate::trace`] for these and the other laws of whole decodes.

use vstd::prelude::*;
use rayon::iter::{IntoParallelIterator, ParallelIterator};
use crate::sample::{sample_bits, sox_sample_to_float_32bit};
use crate::status::SoxErrorT;

verus! {

/// The capacity of the sample block, and the number of samples that each read
/// asks for.
pub const SAMPLES: usize = 8192;

/// The count by which a read reports the end of the stream: the engine's
/// end-of-file status, -1, as an unsigned count.
pub const READ_EOF: usize = usize::MAX;

/// The sample rate that the engine is asked to deliver, in Hz.
pub const OUTPUT_RATE: u32 = 44100;

/// The number of channels that the engine is asked to deliver.
pub const OUTPUT_CHANNELS: u32 = 1;

/// Where a decode stands.
#[derive(Clone, Copy, Debug, PartialEq, Eq, Structural)]
pub enum Phase {
    /// Nothing has happened yet: the file is to be opened.
    Opening,
    /// The file is open and the output signal is to be requested.
    Configuring,
    /// Blocks are being read.
    Reading,
    /// The stream has ended and the handle is to be closed.
    Closing,
    /// The handle is closed, with the status that the engine gave for it.
    Finished { close_status: i32 },
    /// The file could not be opened. There is no handle.
    Failed { error: SoxErrorT },
}

/// What the caller is to do next.
#[derive(Clone, Copy, Debug, PartialEq, Eq, Structural)]
pub enum Action {
    /// Open the file for reading.
    Open,
    /// Ask the engine for this output signal. The engine may not honour it.
    Configure { rate: u32, channels: u32 },
    /// Read up to `max` samples into the block.
    Read { max: usize },
    /// Close the handle.
    Close,
    /// Nothing: the decode is over.
    Done,
}

/// One read, as the engine reported it: the count that it returned and the
/// block as it was left.
pub struct BlockRead {
    pub count: usize,
    pub block: Seq<i32>,
}

/// What a caller reports to a decoder, each through the method of its name.
pub enum Event {
    /// The file was opened.
    Opened,
    /// The file could not be opened, and the engine gave this status for it.
    OpenFailed { status: i32 },
    /// The output signal was requested.
    Configured,
    /// A block was read.
    Block(BlockRead),
    /// The handle was closed, and the engine gave this status for it.
    Closed { status: i32 },
}

/// Whether a read with this count ends the stream: the engine reported the
/// end of the file, or delivered less than a full block.
pub open spec fn ends_stream(count: usize) -> bool {
    count == READ_EOF || count != SAMPLES
}

/// The samples that a read delivers: none where the count reports the end of
/// the file, and else the first `count` of the block. The rest of the block is
/// stale.
pub open spec fn delivered(count: usize, block: Seq<i32>) -> Seq<i32> {
    if count == READ_EOF {
        Seq::empty()
    } else {
        block.take(count as int)
    }
}

/// Whether a read is one that the engine can report: its count is the end of
/// the file or lies within the block.
pub open spec fn is_valid_read(count: usize, block: Seq<i32>) -> bool {
    count == READ_EOF || count <= block.len()
}

/// The failure that an open is reported as, from the status that came with
/// it: the failure that the status names, and `InvalidArgument` where it names
/// none.
pub open spec fn open_failure(status: int) -> SoxErrorT {
    match SoxErrorT::of_code(status) {
        Some(error) => if error.names_failure() {
            error
        } else {
            SoxErrorT::InvalidArgument
        },
        None => SoxErrorT::InvalidArgument,
    }
}

/// The patterns of the converted samples, one for one and in order.
pub open spec fn converted(samples: Seq<i32>) -> Seq<u32> {
    Seq::new(samples.len(), |i: int| sample_bits(samples[i]))
}

/// The state of a decode: its phase and the native samples collected so far,
/// in stream order.
pub struct DecoderState {
    pub phase: Phase,
    pub samples: Seq<i32>,
}

impl DecoderState {
    /// The state in which every decode starts.
    pub open spec fn start() -> DecoderState {
        DecoderState { phase: Phase::Opening, samples: Seq::empty() }
    }

    /// What the caller is to do in this state.
    pub open spec fn pending(self) -> Action {
        match self.phase {
            Phase::Opening => Action::Open,
            Phase::Configuring => Action::Configure {
                rate: OUTPUT_RATE,
                channels: OUTPUT_CHANNELS,
            },
            Phase::Reading => Action::Read { max: SAMPLES },
            Phase::Closing => Action::Close,
            Phase::Finished { .. } => Action::Done,
            Phase::Failed { .. } => Action::Done,
        }
    }

    /// Whether `event` may be reported in this state: an open or its failure
    /// at the start, the request of the signal once the file is open, a read
    /// that the engine can report while blocks are read, the close once the
    /// stream has ended; and nothing once the decode is over.
    pub open spec fn accepts(self, event: Event) -> bool {
        match event {
            Event::Opened => self.phase is Opening,
            Event::OpenFailed { .. } => self.phase is Opening,
            Event::Configured => self.phase is Configuring,
            Event::Block(read) => self.phase is Reading && is_valid_read(read.count, read.block),
            Event::Closed { .. } => self.phase is Closing,
        }
    }

    /// The state after `event` was reported.
    ///
    /// Only a read changes what is collected: it appends what it delivers.
    /// A full block is followed by another read; any other read ends the
    /// stream.
    pub open spec fn after(self, event: Event) -> DecoderState {
        match event {
            Event::Opened => DecoderState { phase: Phase::Configuring, ..self },
            Event::OpenFailed { status } => DecoderState {
                phase: Phase::Failed { error: open_failure(status as int) },
                ..self
            },
            Event::Configured => DecoderState { phase: Phase::Reading, ..self },
            Event::Block(read) => DecoderState {
                phase: if ends_stream(read.count) {
                    Phase::Closing
                } else {
                    Phase::Reading
                },
                samples: self.samples + delivered(read.count, read.block),
            },
            Event::Closed { status } => DecoderState {
                phase: Phase::Finished { close_status: status },
                ..self
            },
        }
    }

    /// Whether the decode is over.
    pub open spec fn is_over(self) -> bool {
        self.phase is Finished || self.phase is Failed
    }

    /// What a decode that is over returns: the converted samples, or the
    /// failure of the open.
    pub open spec fn outcome(self) -> Result<Seq<u32>, SoxErrorT> {
        match self.phase {
            Phase::Failed { error } => Err(error),
            _ => Ok(converted(self.samples)),
        }
    }
}

/// A decode in progress.
pub struct Decoder {
    phase: Phase,
    samples: Vec<i32>,
}

impl View for Decoder {
    type V = DecoderState;

    closed spec fn view(&self) -> DecoderState {
        DecoderState { phase: self.phase, samples: self.samples@ }
    }
}

/// Converts every sample, on the threads of rayon's pool.
///
/// Calls `rayon::iter::IntoParallelIterator::into_par_iter` on the vector,
/// `rayon::iter::ParallelIterator::map` with the conversion of one sample, and
/// `rayon::iter::ParallelIterator::collect` into a vector. The contract claims
/// of rayon that the collected vector holds one result for each item, in the
/// order of the items: the result at an index is the conversion of the sample
/// at that index.
#[verifier::external_body]
fn convert_in_parallel(samples: Vec<i32>) -> (patterns: Vec<u32>)
    ensures
        patterns@.len() == samples@.len(),
        forall|i: int|
            0 <= i < samples@.len() ==> patterns@[i] == sample_bits(#[trigger] samples@[i]),
{
    samples.into_par_iter().map(|v| sox_sample_to_float_32bit(v)).collect()
}

impl Decoder {
    /// A decode that has not begun.
    pub fn new() -> (decoder: Decoder)
        ensures
            decoder@ == DecoderState::start(),
    {
        Decoder { phase: Phase::Opening, samples: Vec::new() }
    }

    /// Where the decode stands.
    pub fn phase(&self) -> (phase: Phase)
        ensures
            phase == self@.phase,
    {
        self.phase
    }

    /// What the caller is to do next.
    pub fn pending(&self) -> (action: Action)
        ensures
            action == self@.pending(),
    {
        match self.phase {
            Phase::Opening => Action::Open,
            Phase::Configuring => Action::Configure {
                rate: OUTPUT_RATE,
                channels: OUTPUT_CHANNELS,
            },
            Phase::Reading => Action::Read { max: SAMPLES },
            Phase::Closing => Action::Close,
            Phase::Finished { .. } => Action::Done,
            Phase::Failed { .. } => Action::Done,
        }
    }

    /// The number of native samples collected so far.
    pub fn collected(&self) -> (count: usize)
        ensures
            count == self@.samples.len(),
    {
        self.samples.len()
    }

    /// The status that the engine gave for the close, once the handle is
    /// closed.
    pub fn close_status(&self) -> (status: Option<i32>)
        ensures
            status == match self@.phase {
                Phase::Finished { close_status } => Some(close_status),
                _ => None,
            },
    {
        match self.phase {
            Phase::Finished { close_status } => Some(close_status),
            _ => None,
        }
    }

    /// Whether the close failed: the handle is closed, and the engine gave a
    /// status other than success for it.
    pub fn close_failed(&self) -> (failed: bool)
        ensures
            failed == (self@.phase matches Phase::Finished { close_status } && close_status
                != SoxErrorT::Success.status_code()),
    {
        match self.phase {
            Phase::Finished { close_status } => close_status != SoxErrorT::Success.code(),
            _ => false,
        }
    }

    /// Whether the decode is over, so that its result can be taken.
    pub fn is_over(&self) -> (over: bool)
        ensures
            over == self@.is_over(),
    {
        match self.phase {
            Phase::Finished { .. } => true,
            Phase::Failed { .. } => true,
            _ => false,
        }
    }

    /// The engine opened the file. The output signal is requested next.
    pub fn opened(&mut self) -> (next: Action)
        requires
            old(self)@.accepts(Event::Opened),
        ensures
            final(self)@ == old(self)@.after(Event::Opened),
            next == final(self)@.pending(),
    {
        self.phase = Phase::Configuring;
        self.pending()
    }

    /// The engine could not open the file and gave `status` for it. The decode
    /// is over: nothing is read and there is no handle to close.
    pub fn open_failed(&mut self, status: i32) -> (next: Action)
        requires
            old(self)@.accepts((Event::OpenFailed { status })),
        ensures
            final(self)@ == old(self)@.after((Event::OpenFailed { status })),
            next == final(self)@.pending(),
            next == Action::Done,
    {
        let error = match SoxErrorT::from_code(status) {
            Some(error) => if error.is_failure() {
                error
            } else {
                SoxErrorT::InvalidArgument
            },
            None => SoxErrorT::InvalidArgument,
        };
        self.phase = Phase::Failed { error };
        Action::Done
    }

    /// The output signal was requested. The first block is read next.
    pub fn configured(&mut self) -> (next: Action)
        requires
            old(self)@.accepts(Event::Configured),
        ensures
            final(self)@ == old(self)@.after(Event::Configured),
            next == final(self)@.pending(),
    {
        self.phase = Phase::Reading;
        self.pending()
    }

    /// The engine returned `count` from a read into `block`.
    ///
    /// Where `count` reports the end of the file, nothing is kept. Else the
    /// first `count` samples of the block are appended to those collected. A
    /// full block is followed by another read; anything else ends the stream,
    /// and the handle is closed next.
    pub fn block_read(&mut self, count: usize, block: &[i32]) -> (next: Action)
        requires
            old(self)@.accepts(Event::Block((BlockRead { count, block: block@ }))),
        ensures
            final(self)@ == old(self)@.after(
                Event::Block((BlockRead { count, block: block@ })),
            ),
            next == final(self)@.pending(),
            next == if ends_stream(count) {
                Action::Close
            } else {
                Action::Read { max: SAMPLES }
            },
    {
        if count != READ_EOF {
            self.samples.extend_from_slice(&block[0..count]);
        }
        if count != SAMPLES {
            self.phase = Phase::Closing;
        }
        assert(self.samples@ =~= old(self).samples@ + delivered(count, block@));
        self.pending()
    }

    /// The engine closed the handle and gave `status` for it. The decode is
    /// over, and a failure of the close takes nothing from it.
    pub fn closed(&mut self, status: i32) -> (next: Action)
        requires
            old(self)@.accepts((Event::Closed { status })),
        ensures
            final(self)@ == old(self)@.after((Event::Closed { status })),
            next == final(self)@.pending(),
            next == Action::Done,
    {
        self.phase = Phase::Finished { close_status: status };
        Action::Done
    }

    /// The result of a decode that is over: the patterns of the converted
    /// samples in stream order, or the failure of the open.
    pub fn finish(self) -> (result: Result<Vec<u32>, SoxErrorT>)
        requires
            self@.is_over(),
        ensures
            match result {
                Ok(patterns) => self@.outcome() == Ok::<Seq<u32>, SoxErrorT>(patterns@),
                Err(error) => self@.outcome() == Err::<Seq<u32>, SoxErrorT>(error),
            },
    {
        match self.phase {
            Phase::Failed { error } => Err(error),
            _ => {
                let ghost samples = self.samples@;
                let patterns = convert_in_parallel(self.samples);
                assert(patterns@ =~= converted(samples));
                Ok(patterns)
            },
        }
    }
}

/// A decode whose open failed is over at once with an error that names a
/// failure: nothing is read, nothing is closed, and no sequence of samples
/// comes of it, not even an empty one.
pub proof fn lemma_failed_open_is_an_error(status: i32)
    ensures
        ({
            let failed = DecoderState::start().after((Event::OpenFailed { status }));
            &&& failed.is_over()
            &&& failed.pending() == Action::Done
            &&& failed.samples.len() == 0
            &&& failed.outcome() == Err::<Seq<u32>, SoxErrorT>(open_failure(status as int))
            &&& open_failure(status as int).names_failure()
        }),
{
}

/// A failed open is reported as the failure that its status names.
pub proof fn lemma_open_failure_keeps_named_failure(error: SoxErrorT)
    requires
        error.names_failure(),
    ensures
        open_failure(error.status_code()) == error,
{
}

/// A decode that is over returns samples exactly where its handle was opened
/// and closed, and then as many as it collected.
pub proof fn lemma_outcome(state: DecoderState)
    requires
        state.is_over(),
    ensures
        state.outcome() is Ok <==> state.phase is Finished,
        state.outcome() is Err <==> state.phase is Failed,
        state.outcome() matches Ok(patterns) ==> patterns.len() == state.samples.len(),
{
}

} // verus!
