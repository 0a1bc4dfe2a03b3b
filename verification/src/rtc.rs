//! Media tracks, codecs and connections.

use bytes::Bytes;
use tokio::sync::broadcast;
use vstd::prelude::*;

use crate::payload::bytes_contents;

verus! {

/// `tokio::sync::broadcast::Receiver`, the receiving end of a channel that hands every
/// message to every receiver.
#[verifier::external_type_specification]
#[verifier::external_body]
#[verifier::reject_recursive_types(T)]
pub struct ExReceiver<T>(broadcast::Receiver<T>);

/// `tokio::sync::broadcast::Sender`, the sending end of that channel.
#[verifier::external_type_specification]
#[verifier::external_body]
#[verifier::reject_recursive_types(T)]
pub struct ExSender<T>(broadcast::Sender<T>);

/// The kind of media that a track carries.
#[derive(Debug, Clone, Copy, PartialEq, Eq, Structural)]
pub enum TrackKind {
    Audio,
    Video,
}

/// The channel layout of an Opus stream.
#[derive(Debug, Clone, Copy, PartialEq, Eq, Structural)]
pub enum OpusChannels {
    Mono,
    Stereo,
}

impl OpusChannels {
    /// The number of interleaved channels.
    pub open spec fn channel_count(self) -> usize {
        match self {
            OpusChannels::Mono => 1,
            OpusChannels::Stereo => 2,
        }
    }

    /// Returns the number of interleaved channels.
    pub fn count(self) -> (n: usize)
        ensures
            n == self.channel_count(),
    {
        match self {
            OpusChannels::Mono => 1,
            OpusChannels::Stereo => 2,
        }
    }
}

/// A codec that a track is encoded with.
#[derive(Debug, Clone, Copy, PartialEq, Eq, Structural)]
#[non_exhaustive]
pub enum Codec {
    Opus { channels: OpusChannels },
}

impl Codec {
    /// The RTP payload type that stands for a codec.
    pub open spec fn payload_type(self) -> u8 {
        match self {
            Codec::Opus { channels: OpusChannels::Mono } => 96,
            Codec::Opus { channels: OpusChannels::Stereo } => 97,
        }
    }

    /// Returns the RTP payload type. The "dynamic" identifiers 96 to 127 are used
    /// in a "static" way, which makes a session description unnecessary.
    pub fn rtp_payload_type(&self) -> (payload_type: u8)
        ensures
            payload_type == self.payload_type(),
    {
        match self {
            Codec::Opus { channels: OpusChannels::Mono } => 96,
            Codec::Opus { channels: OpusChannels::Stereo } => 97,
        }
    }

    /// The codec that an RTP payload type stands for.
    pub open spec fn of_payload_type(payload_type: u8) -> Option<Codec> {
        if payload_type == 96 {
            Some(Codec::Opus { channels: OpusChannels::Mono })
        } else if payload_type == 97 {
            Some(Codec::Opus { channels: OpusChannels::Stereo })
        } else {
            None
        }
    }

    /// Returns the codec that an RTP payload type stands for, if it stands for one.
    pub fn try_from_rtp_payload_type(payload_type: u8) -> (codec: Option<Self>)
        ensures
            codec == Codec::of_payload_type(payload_type),
    {
        match payload_type {
            96 => Some(Codec::Opus { channels: OpusChannels::Mono }),
            97 => Some(Codec::Opus { channels: OpusChannels::Stereo }),
            _ => None,
        }
    }

    /// Returns the sample rate in Hertz.
    pub fn sample_rate(&self) -> (rate: u32)
        ensures
            rate == 48_000,
    {
        48_000
    }

    /// The kind of media that a codec encodes.
    pub open spec fn media_kind(self) -> TrackKind {
        match self {
            Codec::Opus { .. } => TrackKind::Audio,
        }
    }

    /// Returns the kind of media that the codec encodes.
    pub fn kind(&self) -> (kind: TrackKind)
        ensures
            kind == self.media_kind(),
    {
        match self {
            Codec::Opus { .. } => TrackKind::Audio,
        }
    }
}

/// A codec is found again by its payload type, and a payload type that stands for a
/// codec is the one of that codec. The types are taken from the dynamic range.
pub proof fn payload_types_identify_codecs(codec: Codec, payload_type: u8)
    ensures
        Codec::of_payload_type(codec.payload_type()) == Some(codec),
        Codec::of_payload_type(payload_type) matches Some(found) ==> found.payload_type()
            == payload_type,
        96 <= codec.payload_type() <= 127,
{
}

/// A frame of encoded media.
#[derive(Debug)]
pub struct MediaFrame {
    pub payload: Bytes,
    pub sample_count: Option<u32>,
    pub skipped_frames: Option<u32>,
    pub skipped_samples: Option<u32>,
}

impl MediaFrame {
    /// Whether two frames carry the same bytes and counts.
    pub open spec fn same_as(self, other: MediaFrame) -> bool {
        &&& bytes_contents(self.payload) == bytes_contents(other.payload)
        &&& self.sample_count == other.sample_count
        &&& self.skipped_frames == other.skipped_frames
        &&& self.skipped_samples == other.skipped_samples
    }

    /// Makes the frame for a payload that was just encoded from `sample_count` samples.
    pub fn encoded(payload: Bytes, sample_count: u32) -> (frame: Self)
        ensures
            frame.payload == payload,
            frame.sample_count == Some(sample_count),
            frame.skipped_frames == None::<u32>,
            frame.skipped_samples == None::<u32>,
    {
        MediaFrame {
            payload,
            sample_count: Some(sample_count),
            skipped_frames: None,
            skipped_samples: None,
        }
    }
}

impl Clone for MediaFrame {
    fn clone(&self) -> (copy: Self)
        ensures
            copy.same_as(*self),
    {
        MediaFrame {
            payload: self.payload.clone(),
            sample_count: self.sample_count,
            skipped_frames: self.skipped_frames,
            skipped_samples: self.skipped_samples,
        }
    }
}

/// What came of asking a track for its next frame without waiting.
pub enum RecvOutcome {
    /// The next frame.
    Frame(MediaFrame),
    /// No frame is there yet.
    Empty,
    /// This many frames were overwritten before they were read.
    Lagged(u64),
    /// The sender is gone and nothing is left.
    Closed,
}

/// Whether a track can give an outcome: one that has missed nothing does not say that it
/// has.
pub open spec fn can_happen(outcome: RecvOutcome) -> bool {
    outcome matches RecvOutcome::Lagged(count) ==> count > 0
}

/// Whether a receiver and a sender are ends of the same `tokio::sync::broadcast` channel, so
/// that the receiver is handed what the sender sends. Both keep their channel for as long as they live.
pub uninterp spec fn hears(
    receiver: broadcast::Receiver<MediaFrame>,
    sender: broadcast::Sender<MediaFrame>,
) -> bool;

/// Whether two receivers are of the same channel: they hear the same senders.
pub open spec fn same_channel(
    a: broadcast::Receiver<MediaFrame>,
    b: broadcast::Receiver<MediaFrame>,
) -> bool {
    forall|sender: broadcast::Sender<MediaFrame>|
        #![trigger hears(a, sender)]
        #![trigger hears(b, sender)]
        hears(a, sender) == hears(b, sender)
}

/// How many frames the channel of a sender keeps for receivers that fall behind.
pub uninterp spec fn kept_frames(sender: broadcast::Sender<MediaFrame>) -> nat;

/// `tokio::sync::broadcast::Receiver::try_recv`, its result one for one. Which it is
/// depends on what the sender has done meanwhile. A receiver that has fallen behind has
/// missed at least one frame. The receiver stays with its channel.
#[verifier::external_body]
pub(crate) fn receiver_try_recv(receiver: broadcast::Receiver<MediaFrame>) -> (given: (
    broadcast::Receiver<MediaFrame>,
    RecvOutcome,
))
    ensures
        can_happen(given.1),
        same_channel(given.0, receiver),
{
    let mut receiver = receiver;
    let outcome = match receiver.try_recv() {
        Ok(frame) => RecvOutcome::Frame(frame),
        Err(broadcast::error::TryRecvError::Empty) => RecvOutcome::Empty,
        Err(broadcast::error::TryRecvError::Lagged(count)) => RecvOutcome::Lagged(count),
        Err(broadcast::error::TryRecvError::Closed) => RecvOutcome::Closed,
    };
    (receiver, outcome)
}

/// Whether asking a receiver once for its next frame has given the outcome, and has made of
/// the receiver what it is afterwards: this is what the channel has answered.
pub closed spec fn gives(
    before: broadcast::Receiver<MediaFrame>,
    outcome: RecvOutcome,
    after: broadcast::Receiver<MediaFrame>,
) -> bool {
    call_ensures(receiver_try_recv, (before,), (after, outcome))
}

/// What is given is what the channel itself has answered when it was asked once.
pub(crate) proof fn given_is_answered(
    before: broadcast::Receiver<MediaFrame>,
    outcome: RecvOutcome,
    after: broadcast::Receiver<MediaFrame>,
)
    ensures
        gives(before, outcome, after) <==> call_ensures(
            receiver_try_recv,
            (before,),
            (after, outcome),
        ),
        gives(before, outcome, after) ==> can_happen(outcome) && same_channel(after, before),
{
}

/// Whether asking a receiver again and again has given the outcomes, one by one.
pub open spec fn given_in_turn(
    receivers: Seq<broadcast::Receiver<MediaFrame>>,
    outcomes: Seq<RecvOutcome>,
) -> bool {
    &&& receivers.len() == outcomes.len() + 1
    &&& forall|i: int|
        0 <= i < outcomes.len() ==> gives(receivers[i], #[trigger] outcomes[i], receivers[i + 1])
}

/// Whether asking a receiver, which was `first` and is `last`, has given the outcomes, in
/// order and nothing besides.
pub open spec fn gives_all(
    first: broadcast::Receiver<MediaFrame>,
    outcomes: Seq<RecvOutcome>,
    last: broadcast::Receiver<MediaFrame>,
) -> bool {
    exists|receivers: Seq<broadcast::Receiver<MediaFrame>>|
        {
            &&& #[trigger] given_in_turn(receivers, outcomes)
            &&& receivers[0] == first
            &&& receivers.last() == last
        }
}

pub(crate) proof fn gives_nothing(receiver: broadcast::Receiver<MediaFrame>)
    ensures
        gives_all(receiver, Seq::empty(), receiver),
{
    assert(given_in_turn(seq![receiver], Seq::empty()));
}

pub(crate) proof fn gives_one_more(
    first: broadcast::Receiver<MediaFrame>,
    outcomes: Seq<RecvOutcome>,
    middle: broadcast::Receiver<MediaFrame>,
    outcome: RecvOutcome,
    last: broadcast::Receiver<MediaFrame>,
)
    requires
        gives_all(first, outcomes, middle),
        gives(middle, outcome, last),
    ensures
        gives_all(first, outcomes.push(outcome), last),
{
    let receivers = choose|receivers: Seq<broadcast::Receiver<MediaFrame>>|
        {
            &&& #[trigger] given_in_turn(receivers, outcomes)
            &&& receivers[0] == first
            &&& receivers.last() == middle
        };
    let more = outcomes.push(outcome);
    assert forall|i: int| 0 <= i < more.len() implies gives(
        receivers.push(last)[i],
        #[trigger] more[i],
        receivers.push(last)[i + 1],
    ) by {
        if i < outcomes.len() {
            assert(more[i] == outcomes[i]);
        }
    }
    assert(given_in_turn(receivers.push(last), more));
}

/// What a receiver gives over time is what its channel has answered each time it was asked:
/// one outcome for each time, the receiver of one answer being the one that is asked next,
/// and all of them of one channel.
pub proof fn outcomes_are_answers(
    first: broadcast::Receiver<MediaFrame>,
    outcomes: Seq<RecvOutcome>,
    last: broadcast::Receiver<MediaFrame>,
)
    requires
        gives_all(first, outcomes, last),
    ensures
        exists|receivers: Seq<broadcast::Receiver<MediaFrame>>|
            {
                &&& #[trigger] receivers.len() == outcomes.len() + 1
                &&& receivers[0] == first
                &&& receivers[outcomes.len() as int] == last
                &&& forall|i: int|
                    0 <= i < outcomes.len() ==> gives(
                        receivers[i],
                        #[trigger] outcomes[i],
                        receivers[i + 1],
                    )
            },
        same_channel(last, first),
    decreases outcomes.len(),
{
    let receivers = choose|receivers: Seq<broadcast::Receiver<MediaFrame>>|
        {
            &&& #[trigger] given_in_turn(receivers, outcomes)
            &&& receivers[0] == first
            &&& receivers.last() == last
        };
    assert(receivers.len() == outcomes.len() + 1);
    if outcomes.len() > 0 {
        let before = outcomes.drop_last();
        let n = outcomes.len() as int;
        assert forall|i: int| 0 <= i < before.len() implies gives(
            receivers.drop_last()[i],
            #[trigger] before[i],
            receivers.drop_last()[i + 1],
        ) by {
            assert(before[i] == outcomes[i]);
        }
        assert(given_in_turn(receivers.drop_last(), before));
        outcomes_are_answers(first, before, receivers[n - 1]);
        assert(gives(receivers[n - 1], outcomes[n - 1], receivers[n]));
        given_is_answered(receivers[n - 1], outcomes[n - 1], receivers[n]);
    }
}

/// `tokio::sync::broadcast::Receiver::resubscribe`: another receiver of the same channel.
/// It receives what is sent from now on; what that is, is not claimed.
#[verifier::external_body]
fn receiver_resubscribe(receiver: &broadcast::Receiver<MediaFrame>) -> (other: broadcast::Receiver<
    MediaFrame,
>)
    ensures
        same_channel(other, *receiver),
{
    receiver.resubscribe()
}

/// A stream of encoded frames.
#[derive(Debug)]
pub struct MediaTrack {
    pub receiver: broadcast::Receiver<MediaFrame>,
    pub track_codec: Codec,
    pub track_kind: TrackKind,
}

impl Clone for MediaTrack {
    /// A track of the same codec and kind that receives what is sent from now on.
    fn clone(&self) -> (track: Self)
        ensures
            track.track_codec == self.track_codec,
            track.track_kind == self.track_kind,
            same_channel(track.receiver, self.receiver),
    {
        MediaTrack {
            receiver: receiver_resubscribe(&self.receiver),
            track_codec: self.track_codec,
            track_kind: self.track_kind,
        }
    }
}

impl MediaTrack {
    /// Makes a track from the receiving end of its channel.
    pub fn new(
        receiver: broadcast::Receiver<MediaFrame>,
        codec: Codec,
        kind: TrackKind,
    ) -> (track: Self)
        ensures
            track.receiver == receiver,
            track.track_codec == codec,
            track.track_kind == kind,
    {
        MediaTrack { receiver, track_codec: codec, track_kind: kind }
    }

    /// Makes the track for a flow that a remote node sends with the given codec.
    pub fn remote(receiver: broadcast::Receiver<MediaFrame>, codec: Codec) -> (track: Self)
        ensures
            track.receiver == receiver,
            track.track_codec == codec,
            track.track_kind == codec.media_kind(),
    {
        MediaTrack { receiver, track_codec: codec, track_kind: codec.kind() }
    }

    /// Asks for the next frame without waiting. Another receiver of the channel holds the
    /// place of the track's own while that one is asked.
    pub fn try_recv(&mut self) -> (outcome: RecvOutcome)
        ensures
            final(self).track_codec == old(self).track_codec,
            final(self).track_kind == old(self).track_kind,
            can_happen(outcome),
            same_channel(final(self).receiver, old(self).receiver),
            gives(old(self).receiver, outcome, final(self).receiver),
    {
        let mut receiver: broadcast::Receiver<MediaFrame> = receiver_resubscribe(&self.receiver);
        core::mem::swap(&mut self.receiver, &mut receiver);
        let (receiver, outcome) = receiver_try_recv(receiver);
        self.receiver = receiver;
        outcome
    }

    /// Asks for the next frame without waiting. The track is handed over and comes back.
    pub fn received(self) -> (given: (Self, RecvOutcome))
        ensures
            given.0.track_codec == self.track_codec,
            given.0.track_kind == self.track_kind,
            can_happen(given.1),
            same_channel(given.0.receiver, self.receiver),
            gives(self.receiver, given.1, given.0.receiver),
    {
        let (receiver, outcome) = receiver_try_recv(self.receiver);
        (
            MediaTrack {
                receiver,
                track_codec: self.track_codec,
                track_kind: self.track_kind,
            },
            outcome,
        )
    }

    /// Returns the kind of media that the track carries.
    pub fn kind(&self) -> (kind: TrackKind)
        ensures
            kind == self.track_kind,
    {
        self.track_kind
    }

    /// Returns the codec that the track is encoded with.
    pub fn codec(&self) -> (codec: Codec)
        ensures
            codec == self.track_codec,
    {
        self.track_codec
    }
}

/// A source of flow identifiers.
#[derive(Debug)]
pub struct NextId {
    pub upcoming: u32,
}

/// The identifier after `id`. The last one is followed by zero.
pub open spec fn following_id(id: u32) -> u32 {
    if id == u32::MAX {
        0
    } else {
        (id + 1) as u32
    }
}

impl Default for NextId {
    fn default() -> (ids: Self)
        ensures
            ids.upcoming == 0,
    {
        NextId { upcoming: 0 }
    }
}

impl NextId {
    /// Whether a source that hands out `id` becomes `after`.
    pub open spec fn hands_out(self, id: u32, after: NextId) -> bool {
        &&& id == self.upcoming
        &&& after.upcoming == following_id(id)
    }

    /// Hands out the upcoming identifier.
    pub fn next(&mut self) -> (id: u32)
        ensures
            old(self).hands_out(id, *final(self)),
    {
        let id: u32 = self.upcoming;
        self.upcoming = if id == u32::MAX {
            0
        } else {
            id + 1
        };
        id
    }
}

/// A direction in which a flow is opened.
#[derive(Debug, Clone, Copy, PartialEq, Eq, Structural)]
pub enum FlowOp {
    Send,
    Receive,
}

/// The flow identifiers of a connection. Both sides count their flows from zero, so that
/// the flow that one side opens is the one that the other side waits for.
#[derive(Debug)]
pub struct RtcConnection {
    pub next_recv_flow_id: NextId,
    pub next_send_flow_id: NextId,
}

impl RtcConnection {
    /// Makes the state of a connection that has no flow yet.
    pub fn new() -> (conn: Self)
        ensures
            conn.next_recv_flow_id.upcoming == 0,
            conn.next_send_flow_id.upcoming == 0,
    {
        RtcConnection { next_recv_flow_id: NextId::default(), next_send_flow_id: NextId::default() }
    }

    /// Whether a connection that numbers a flow `flow_id` becomes `after`. The flows of the
    /// other direction keep their count.
    pub open spec fn opens(self, op: FlowOp, flow_id: u32, after: RtcConnection) -> bool {
        match op {
            FlowOp::Send => {
                &&& self.next_send_flow_id.hands_out(flow_id, after.next_send_flow_id)
                &&& after.next_recv_flow_id == self.next_recv_flow_id
            },
            FlowOp::Receive => {
                &&& self.next_recv_flow_id.hands_out(flow_id, after.next_recv_flow_id)
                &&& after.next_send_flow_id == self.next_send_flow_id
            },
        }
    }

    /// Returns the identifier of the flow that the next track is sent over. The identifier is
    /// used up, whatever comes of opening the flow.
    pub fn send_track(&mut self) -> (flow_id: u32)
        ensures
            old(self).opens(FlowOp::Send, flow_id, *final(self)),
    {
        self.next_send_flow_id.next()
    }

    /// Returns the identifier of the flow that the next track is received from. The
    /// identifier is used up, whatever comes of opening the flow.
    pub fn recv_track(&mut self) -> (flow_id: u32)
        ensures
            old(self).opens(FlowOp::Receive, flow_id, *final(self)),
    {
        self.next_recv_flow_id.next()
    }
}

/// How many identifiers there are.
pub const ID_COUNT: u64 = 0x1_0000_0000;

/// Whether `ids` are what a source hands out in calls that come one after the other, it
/// being as in `sources` before and after each of them.
pub open spec fn handed_out(sources: Seq<NextId>, ids: Seq<u32>) -> bool {
    &&& sources.len() == ids.len() + 1
    &&& forall|k: int|
        0 <= k < ids.len() ==> (#[trigger] sources[k]).hands_out(ids[k], sources[k + 1])
}

proof fn following_counts_on(id: u32, count: int)
    requires
        count >= 0,
        id as int == count % (ID_COUNT as int),
    ensures
        following_id(id) as int == (count + 1) % (ID_COUNT as int),
{
    assert(ID_COUNT == 0x1_0000_0000);
    assert((count + 1) % 0x1_0000_0000 == if count % 0x1_0000_0000 == 0xffff_ffff {
        0
    } else {
        count % 0x1_0000_0000 + 1
    });
}

/// From a fresh source, the identifier of the call at position `k`, counted from zero, is
/// `k`, and after the last one they start again. It makes no difference which holder of the
/// source makes a call.
pub proof fn ids_count_calls(sources: Seq<NextId>, ids: Seq<u32>, k: int)
    requires
        handed_out(sources, ids),
        sources[0].upcoming == 0,
        0 <= k < ids.len(),
    ensures
        ids[k] as int == k % (ID_COUNT as int),
    decreases k,
{
    assert(sources[k].hands_out(ids[k], sources[k + 1]));
    if k > 0 {
        ids_count_calls(sources, ids, k - 1);
        assert(sources[k - 1].hands_out(ids[k - 1], sources[k]));
        following_counts_on(ids[k - 1], k - 1);
    }
}

/// As long as there are no more calls than identifiers, those that a fresh source hands out
/// are all different and ascend, whichever holders of the source make the calls and in
/// whatever order, and they are the first ones there are.
pub proof fn ids_are_distinct(sources: Seq<NextId>, ids: Seq<u32>)
    requires
        handed_out(sources, ids),
        sources[0].upcoming == 0,
        ids.len() <= ID_COUNT,
    ensures
        forall|i: int, j: int| 0 <= i < j < ids.len() ==> ids[i] < ids[j],
        ids.no_duplicates(),
        forall|id: u32| ids.contains(id) <==> id < ids.len(),
{
    assert forall|k: int| 0 <= k < ids.len() implies #[trigger] ids[k] == k by {
        ids_count_calls(sources, ids, k);
    }
    assert forall|id: u32| id < ids.len() implies ids.contains(id) by {
        assert(ids[id as int] == id);
    }
}

/// Whether `ids` are the identifiers of flows that are opened one after the other, the
/// connection being as in `conns` before and after each of them.
pub open spec fn flows_opened(conns: Seq<RtcConnection>, ops: Seq<FlowOp>, ids: Seq<u32>) -> bool {
    &&& conns.len() == ops.len() + 1
    &&& ids.len() == ops.len()
    &&& forall|k: int|
        0 <= k < ops.len() ==> (#[trigger] conns[k]).opens(ops[k], ids[k], conns[k + 1])
}

/// How many of the flows are opened in a direction.
pub open spec fn flows_in(ops: Seq<FlowOp>, direction: FlowOp) -> nat
    decreases ops.len(),
{
    if ops.len() == 0 {
        0
    } else if ops.last() == direction {
        flows_in(ops.drop_last(), direction) + 1
    } else {
        flows_in(ops.drop_last(), direction)
    }
}

proof fn flows_count_up(conns: Seq<RtcConnection>, ops: Seq<FlowOp>, ids: Seq<u32>, k: int)
    requires
        flows_opened(conns, ops, ids),
        conns[0].next_send_flow_id.upcoming == 0,
        conns[0].next_recv_flow_id.upcoming == 0,
        0 <= k <= ops.len(),
    ensures
        conns[k].next_send_flow_id.upcoming as int == (flows_in(ops.take(k), FlowOp::Send) as int)
            % (ID_COUNT as int),
        conns[k].next_recv_flow_id.upcoming as int == (flows_in(ops.take(k), FlowOp::Receive)
            as int) % (ID_COUNT as int),
    decreases k,
{
    if k > 0 {
        flows_count_up(conns, ops, ids, k - 1);
        assert(conns[k - 1].opens(ops[k - 1], ids[k - 1], conns[k]));
        assert(ops.take(k).drop_last() =~= ops.take(k - 1));
        assert(ops.take(k).last() == ops[k - 1]);
        let n = flows_in(ops.take(k - 1), ops[k - 1]) as int;
        following_counts_on(ids[k - 1], n);
    }
}

/// A new connection numbers the flows of each direction by themselves, from zero on:
/// whichever holders of the connection open flows, and whatever comes of it, a flow bears
/// the number of those that were asked for in its direction before.
pub proof fn flows_are_counted_apart(
    conns: Seq<RtcConnection>,
    ops: Seq<FlowOp>,
    ids: Seq<u32>,
    k: int,
)
    requires
        flows_opened(conns, ops, ids),
        conns[0].next_send_flow_id.upcoming == 0,
        conns[0].next_recv_flow_id.upcoming == 0,
        0 <= k < ops.len(),
    ensures
        ids[k] as int == (flows_in(ops.take(k), ops[k]) as int) % (ID_COUNT as int),
{
    flows_count_up(conns, ops, ids, k);
    assert(conns[k].opens(ops[k], ids[k], conns[k + 1]));
}

/// How far a packet's number is ahead of another one, the numbers starting again after the
/// last one.
pub open spec fn ahead(last: u16, number: u16) -> int {
    if number >= last {
        number - last
    } else {
        number - last + 0x1_0000
    }
}

/// Decides whether a packet comes too late: its number is not ahead of the newest one by
/// less than half of all numbers.
pub fn is_late(last: Option<u16>, number: u16) -> (late: bool)
    ensures
        late == (match last {
            Some(last) => !(0 < ahead(last, number) < 0x8000),
            None => false,
        }),
{
    match last {
        Some(last) => {
            let distance: u16 = number.wrapping_sub(last);
            distance == 0 || distance >= 0x8000
        },
        None => false,
    }
}

/// Returns how many packets are missing before one, given the newest one before it. Nothing
/// is missing before a packet that comes too late.
pub fn skipped_before(last: Option<u16>, number: u16) -> (skipped: Option<u32>)
    ensures
        skipped == (match last {
            Some(last) => if 1 < ahead(last, number) < 0x8000 {
                Some((ahead(last, number) - 1) as u32)
            } else {
                None
            },
            None => None,
        }),
{
    match last {
        Some(last) => {
            let distance: u16 = number.wrapping_sub(last);
            if 1 < distance && distance < 0x8000 {
                Some((distance - 1) as u32)
            } else {
                None
            }
        },
        None => None,
    }
}

/// What is done with a track that a remote node opened.
#[derive(Debug, Clone, Copy, PartialEq, Eq, Structural)]
pub enum TrackAction {
    /// Add it to what is played back.
    Play,
    /// Give up: there is no playback for it.
    Unsupported,
}

/// Decides what is done with a track that a remote node opened.
pub fn handle_remote_track(kind: TrackKind) -> (action: TrackAction)
    ensures
        action == (match kind {
            TrackKind::Audio => TrackAction::Play,
            TrackKind::Video => TrackAction::Unsupported,
        }),
{
    match kind {
        TrackKind::Audio => TrackAction::Play,
        TrackKind::Video => TrackAction::Unsupported,
    }
}

/// How far a number is ahead of another one leads from that one to it, going round once at most.
pub proof fn numbers_go_round(last: u16, number: u16)
    ensures
        0 <= ahead(last, number) < 0x1_0000,
        (last + ahead(last, number)) % 0x1_0000 == number,
        ahead(last, last) == 0,
{
}

/// A copy of a frame carries the same bytes and counts: being the same is told by all of them.
pub proof fn copies_are_the_same(a: MediaFrame, b: MediaFrame)
    ensures
        a.same_as(b) <==> bytes_contents(a.payload) == bytes_contents(b.payload) && a.sample_count
            == b.sample_count && a.skipped_frames == b.skipped_frames && a.skipped_samples
            == b.skipped_samples,
{
}

/// Receivers of the same channel hear the same senders.
pub proof fn channels_are_shared(
    a: broadcast::Receiver<MediaFrame>,
    b: broadcast::Receiver<MediaFrame>,
    sender: broadcast::Sender<MediaFrame>,
)
    requires
        same_channel(a, b),
    ensures
        hears(a, sender) == hears(b, sender),
        same_channel(b, a),
{
}

/// An identifier is followed by the next one, and the last by zero; a source that hands one out
/// has the following one upcoming.
pub proof fn sources_go_on(source: NextId, id: u32, after: NextId)
    ensures
        id < u32::MAX ==> following_id(id) == id + 1,
        following_id(u32::MAX) == 0,
        source.hands_out(id, after) <==> id == source.upcoming && after.upcoming == following_id(
            source.upcoming,
        ),
{
}

/// A flow takes the upcoming identifier of its direction and leaves the other direction alone.
pub proof fn flows_take_their_identifier(before: RtcConnection, id: u32, after: RtcConnection)
    ensures
        before.opens(FlowOp::Send, id, after) ==> id == before.next_send_flow_id.upcoming
            && after.next_send_flow_id.upcoming == following_id(id) && after.next_recv_flow_id
            == before.next_recv_flow_id,
        before.opens(FlowOp::Receive, id, after) ==> id == before.next_recv_flow_id.upcoming
            && after.next_recv_flow_id.upcoming == following_id(id) && after.next_send_flow_id
            == before.next_send_flow_id,
{
}

/// Codecs are audio, and a layout has as many channels as it says.
pub proof fn codecs_are_audio(channels: OpusChannels)
    ensures
        (Codec::Opus { channels }).media_kind() == TrackKind::Audio,
        OpusChannels::Mono.channel_count() == 1,
        OpusChannels::Stereo.channel_count() == 2,
{
}

/// Of packets that are numbered in turn, one that comes `count` after the newest one is in time
/// if `count` is less than half of all numbers, and those between the two are missing. It is late
/// if it comes further ahead, which is as well behind, and then nothing is missing before it. The
/// first packet is in time, and nothing is missing before it.
pub proof fn numbers_tell_what_is_missing(
    last: u16,
    number: u16,
    count: int,
    late: bool,
    skipped: Option<u32>,
    first_late: bool,
    first_skipped: Option<u32>,
)
    requires
        call_ensures(is_late, (Some(last), number), late),
        call_ensures(skipped_before, (Some(last), number), skipped),
        call_ensures(is_late, (None, number), first_late),
        call_ensures(skipped_before, (None, number), first_skipped),
        1 <= count <= 0x1_0000,
        number == (last + count) % 0x1_0000,
    ensures
        count == 1 ==> !late && skipped is None,
        1 < count < 0x8000 ==> !late && skipped == Some((count - 1) as u32),
        count >= 0x8000 ==> late && skipped is None,
        !first_late,
        first_skipped is None,
{
}

/// Audio is played, and there is no playback for anything else.
pub proof fn only_audio_is_played(kind: TrackKind, action: TrackAction)
    requires
        call_ensures(handle_remote_track, (kind,), action),
    ensures
        action is Play <==> kind == TrackKind::Audio,
{
}

/// A frame that was just encoded carries its bytes and its count of samples, and nothing was
/// skipped before it.
pub proof fn encoded_frames_skip_nothing(payload: Bytes, sample_count: u32, frame: MediaFrame)
    requires
        call_ensures(MediaFrame::encoded, (payload, sample_count), frame),
    ensures
        frame.payload == payload,
        frame.sample_count == Some(sample_count),
        frame.skipped_frames is None,
        frame.skipped_samples is None,
{
}

/// A codec is known again by the payload type that it is announced with, and every other payload
/// type is unknown.
pub proof fn announced_codecs_are_known(
    codec: Codec,
    announced: u8,
    payload_type: u8,
    found: Option<Codec>,
)
    requires
        call_ensures(Codec::rtp_payload_type, (&codec,), announced),
        call_ensures(Codec::try_from_rtp_payload_type, (payload_type,), found),
    ensures
        payload_type == announced ==> found == Some(codec),
        found == Some(codec) ==> payload_type == announced,
        found is Some <==> payload_type == 96 || payload_type == 97,
{
    payload_types_identify_codecs(codec, payload_type);
}

} // verus!
