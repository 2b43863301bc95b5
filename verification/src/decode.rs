//! Collecting the frames that come out of a decoder.
use vstd::prelude::*;

verus! {

/// Stands for a missing timestamp where one has to be a number.
pub const NO_PTS: i64 = i64::MIN;

pub open spec fn spec_packet_timestamp(ts: i64) -> Option<i64> {
    if ts == NO_PTS {
        None
    } else {
        Some(ts)
    }
}

/// The timestamp of a packet.
pub fn packet_timestamp(ts: i64) -> (r: Option<i64>)
    ensures
        r == spec_packet_timestamp(ts),
{
    if ts != NO_PTS {
        Some(ts)
    } else {
        None
    }
}

pub open spec fn spec_frame_timestamp(ts: Option<i64>, missing: i64) -> i64 {
    match ts {
        Some(t) => t,
        None => missing,
    }
}

/// Timestamps survive the way through a decoder that keeps them.
pub proof fn timestamps_survive(ts: i64)
    ensures
        spec_frame_timestamp(spec_packet_timestamp(ts), NO_PTS) == ts,
{
}

/// What a decoder answers when it is asked for a frame.
#[derive(Clone, Copy, PartialEq, Eq, Structural, Debug)]
pub enum Received {
    Frame { width: u32, height: u32, pts: Option<i64> },
    /// There will be no more frames.
    Eof,
    /// There is no frame until another packet comes.
    Again,
    Failed,
}

/// What is done about the answer.
#[derive(Clone, Copy, PartialEq, Eq, Structural, Debug)]
pub enum Receive {
    /// Export the frame, and ask for another one.
    Export,
    /// All frames of the packet are out.
    Finished,
    /// The frames so far are dropped.
    Failed,
}

/// The size of the last frame.
#[derive(Clone, Copy, PartialEq, Eq, Structural, Debug)]
pub struct Metadata {
    pub width: u32,
    pub height: u32,
}

/// What is done about a frame that could not be exported.
#[derive(Clone, Copy, PartialEq, Eq, Structural, Debug)]
pub enum OnFailure {
    /// The whole packet fails.
    FailPacket,
    /// The frame is left out.
    SkipFrame,
}

/// Which timestamp a frame gets.
#[derive(Clone, Copy, PartialEq, Eq, Structural, Debug)]
pub enum TimestampOf {
    /// That of the frame as it was decoded.
    Decoded,
    /// That of the frame as it was exported, which conversions may have dropped.
    Exported,
}

/// How a decoder treats its frames.
#[derive(Clone, Copy, PartialEq, Eq, Structural, Debug)]
pub struct BatchPolicy {
    /// Stands for a missing timestamp.
    pub missing: i64,
    pub on_failure: OnFailure,
    pub timestamp_of: TimestampOf,
}

impl BatchPolicy {
    pub open spec fn spec_decoder() -> BatchPolicy {
        BatchPolicy {
            missing: NO_PTS,
            on_failure: OnFailure::FailPacket,
            timestamp_of: TimestampOf::Decoded,
        }
    }

    pub open spec fn spec_prime_decoder() -> BatchPolicy {
        BatchPolicy {
            missing: NO_PTS,
            on_failure: OnFailure::SkipFrame,
            timestamp_of: TimestampOf::Decoded,
        }
    }

    pub open spec fn spec_plain_decoder() -> BatchPolicy {
        BatchPolicy {
            missing: 0,
            on_failure: OnFailure::FailPacket,
            timestamp_of: TimestampOf::Exported,
        }
    }

    /// For the decoder of raw frames or of frames in DMA-BUFs.
    pub fn decoder() -> (r: BatchPolicy)
        ensures
            r == BatchPolicy::spec_decoder(),
            r == (BatchPolicy {
                missing: NO_PTS,
                on_failure: OnFailure::FailPacket,
                timestamp_of: TimestampOf::Decoded,
            }),
    {
        BatchPolicy {
            missing: NO_PTS,
            on_failure: OnFailure::FailPacket,
            timestamp_of: TimestampOf::Decoded,
        }
    }

    /// For the decoder that hands its frames out plane by plane.
    pub fn prime_decoder() -> (r: BatchPolicy)
        ensures
            r == BatchPolicy::spec_prime_decoder(),
            r == (BatchPolicy {
                missing: NO_PTS,
                on_failure: OnFailure::SkipFrame,
                timestamp_of: TimestampOf::Decoded,
            }),
    {
        BatchPolicy {
            missing: NO_PTS,
            on_failure: OnFailure::SkipFrame,
            timestamp_of: TimestampOf::Decoded,
        }
    }

    /// For the decoder of raw frames in one of three layouts.
    pub fn plain_decoder() -> (r: BatchPolicy)
        ensures
            r == BatchPolicy::spec_plain_decoder(),
            r == (BatchPolicy {
                missing: 0,
                on_failure: OnFailure::FailPacket,
                timestamp_of: TimestampOf::Exported,
            }),
    {
        BatchPolicy {
            missing: 0,
            on_failure: OnFailure::FailPacket,
            timestamp_of: TimestampOf::Exported,
        }
    }
}

/// What is done about an answer.
pub open spec fn spec_receive(answer: Received) -> Receive {
    match answer {
        Received::Frame { .. } => Receive::Export,
        Received::Failed => Receive::Failed,
        _ => Receive::Finished,
    }
}

/// The size of the last frame after an answer.
pub open spec fn size_after(answer: Received, before: Metadata) -> Metadata {
    match answer {
        Received::Frame { width, height, .. } => Metadata { width, height },
        _ => before,
    }
}

/// A frame is exported, and its size is kept. The packet ends where there is no frame for now or
/// none any more, and fails where the decoder does; the last frame's size stays.
pub proof fn answers_are_told_apart(answer: Received, before: Metadata)
    ensures
        answer matches Received::Frame { width, height, pts } ==> spec_receive(answer)
            == Receive::Export && size_after(answer, before).width == width && size_after(
            answer,
            before,
        ).height == height,
        answer is Eof || answer is Again ==> spec_receive(answer) == Receive::Finished,
        answer is Failed ==> spec_receive(answer) == Receive::Failed,
        !(answer is Frame) ==> size_after(answer, before) == before,
{
}

/// The frames that one packet brought out.
pub struct DecodeBatch<F> {
    pub pts_list: Vec<i64>,
    pub frames: Vec<F>,
    /// The frame that is being exported, by its timestamp.
    pub current: Option<Option<i64>>,
    pub policy: BatchPolicy,
}

impl<F> DecodeBatch<F> {
    /// Each frame has its timestamp.
    pub open spec fn wf(self) -> bool {
        self.pts_list@.len() == self.frames@.len()
    }

    pub fn new(policy: BatchPolicy) -> (r: DecodeBatch<F>)
        ensures
            r.wf(),
            r.frames@.len() == 0,
            r.current is None,
            r.policy == policy,
    {
        DecodeBatch { pts_list: Vec::new(), frames: Vec::new(), current: None, policy }
    }

    /// Decides what is done about an answer, and keeps note of the frame's size.
    pub fn receive(&mut self, answer: Received, metadata: &mut Metadata) -> (r: Receive)
        requires
            old(self).wf(),
        ensures
            final(self).wf(),
            final(self).pts_list == old(self).pts_list,
            final(self).frames == old(self).frames,
            final(self).policy == old(self).policy,
            r == spec_receive(answer),
            *final(metadata) == size_after(answer, *old(metadata)),
            match answer {
                Received::Frame { width, height, pts } => {
                    &&& r == Receive::Export
                    &&& *final(metadata) == (Metadata { width, height })
                    &&& final(self).current == Some(pts)
                },
                Received::Failed => {
                    &&& r == Receive::Failed
                    &&& *final(metadata) == *old(metadata)
                    &&& final(self).current is None
                },
                _ => {
                    &&& r == Receive::Finished
                    &&& *final(metadata) == *old(metadata)
                    &&& final(self).current is None
                },
            },
    {
        match answer {
            Received::Frame { width, height, pts } => {
                *metadata = Metadata { width, height };
                self.current = Some(pts);
                Receive::Export
            },
            Received::Failed => {
                self.current = None;
                Receive::Failed
            },
            Received::Eof | Received::Again => {
                self.current = None;
                Receive::Finished
            },
        }
    }

    /// The timestamp that the frame gets: `decoded` as it came out of the decoder, `exported`
    /// as it was exported.
    pub open spec fn spec_timestamp(self, decoded: Option<i64>, exported: Option<i64>) -> i64 {
        spec_frame_timestamp(
            match self.policy.timestamp_of {
                TimestampOf::Decoded => decoded,
                TimestampOf::Exported => exported,
            },
            self.policy.missing,
        )
    }

    /// Takes the outcome of an export: the frame with the timestamp it has now, or the error. An
    /// error comes back where it makes the packet fail.
    pub fn export_done<E>(&mut self, result: Result<(F, Option<i64>), E>) -> (r: Result<(), E>)
        requires
            old(self).wf(),
            old(self).current is Some,
        ensures
            final(self).wf(),
            final(self).current is None,
            final(self).policy == old(self).policy,
            match result {
                Ok((frame, exported)) => {
                    &&& r is Ok
                    &&& final(self).frames@ == old(self).frames@.push(frame)
                    &&& final(self).pts_list@ == old(self).pts_list@.push(
                        old(self).spec_timestamp(old(self).current->0, exported),
                    )
                },
                Err(e) => {
                    &&& final(self).frames == old(self).frames
                    &&& final(self).pts_list == old(self).pts_list
                    &&& match old(self).policy.on_failure {
                        OnFailure::FailPacket => r == Err::<(), E>(e),
                        OnFailure::SkipFrame => r is Ok,
                    }
                },
            },
    {
        let decoded: Option<i64> = match self.current.take() {
            Some(pts) => pts,
            None => None,
        };
        match result {
            Ok((frame, exported)) => {
                let pts = match self.policy.timestamp_of {
                    TimestampOf::Decoded => decoded,
                    TimestampOf::Exported => exported,
                };
                self.pts_list.push(
                    match pts {
                        Some(t) => t,
                        None => self.policy.missing,
                    },
                );
                self.frames.push(frame);
                Ok(())
            },
            Err(e) => match self.policy.on_failure {
                OnFailure::FailPacket => Err(e),
                OnFailure::SkipFrame => Ok(()),
            },
        }
    }
}

/// Only the smallest number stands for a missing timestamp; every other one is taken as it is.
pub proof fn packets_keep_their_timestamps(ts: i64)
    ensures
        spec_packet_timestamp(ts) is None <==> ts == -0x8000_0000_0000_0000,
        spec_packet_timestamp(ts) matches Some(t) ==> t == ts,
{
}

/// A frame gets the timestamp that its decoder goes by, and the stand-in where there is none.
pub proof fn frames_get_their_timestamps<F>(
    batch: DecodeBatch<F>,
    decoded: Option<i64>,
    exported: Option<i64>,
)
    ensures
        ({
            let t = batch.spec_timestamp(decoded, exported);
            let by_decoder = batch.policy.timestamp_of == TimestampOf::Decoded;
            &&& by_decoder && decoded is Some ==> t == decoded->0
            &&& by_decoder && decoded is None ==> t == batch.policy.missing
            &&& !by_decoder && exported is Some ==> t == exported->0
            &&& !by_decoder && exported is None ==> t == batch.policy.missing
        }),
{
}

/// Only the decoder that works plane by plane leaves frames out that it cannot export. Only the
/// one for three layouts goes by the timestamps of exported frames and has zero for those that are
/// missing; for the others the smallest number stands in.
pub proof fn decoders_differ_in_their_policy()
    ensures
        BatchPolicy::spec_prime_decoder().on_failure is SkipFrame,
        BatchPolicy::spec_decoder().on_failure is FailPacket,
        BatchPolicy::spec_plain_decoder().on_failure is FailPacket,
        BatchPolicy::spec_plain_decoder().timestamp_of is Exported,
        BatchPolicy::spec_decoder().timestamp_of is Decoded,
        BatchPolicy::spec_prime_decoder().timestamp_of is Decoded,
        BatchPolicy::spec_plain_decoder().missing == 0,
        BatchPolicy::spec_decoder().missing == -0x8000_0000_0000_0000,
        BatchPolicy::spec_prime_decoder().missing == -0x8000_0000_0000_0000,
{
}

} // verus!
