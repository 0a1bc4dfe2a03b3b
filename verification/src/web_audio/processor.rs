//! The worklet that runs the audio processor on what passes through it.

use vstd::prelude::*;

use crate::ring::lesser;

verus! {

/// The samples of one channel that the audio processor works on at once.
pub const NUM_SAMPLES_PER_FRAME: usize = 480;

/// Which side of the processor the worklet runs.
#[derive(Debug, Clone, Copy, PartialEq, Eq, Structural)]
pub enum Direction {
    Capture,
    Render,
}

/// Two channels with their samples in turns, as far as both reach.
pub open spec fn woven(a: Seq<u32>, b: Seq<u32>) -> Seq<u32> {
    Seq::new(
        2 * lesser(a.len(), b.len()),
        |i: int|
            if i % 2 == 0 {
                a[i / 2]
            } else {
                b[i / 2]
            },
    )
}

/// The first `count` pairs of channels, each with its samples in turns, one pair after the
/// other.
pub open spec fn woven_pairs(a: Seq<Vec<u32>>, b: Seq<Vec<u32>>, count: nat) -> Seq<u32>
    decreases count,
{
    if count == 0 {
        Seq::empty()
    } else {
        woven_pairs(a, b, (count - 1) as nat) + woven(a[count - 1]@, b[count - 1]@)
    }
}

/// All pairs of channels, as far as both lists reach.
pub open spec fn woven_all(a: Seq<Vec<u32>>, b: Seq<Vec<u32>>) -> Seq<u32> {
    woven_pairs(a, b, lesser(a.len(), b.len()))
}

/// The samples of some channels.
pub open spec fn channel_samples(channels: Seq<Vec<u32>>) -> nat
    decreases channels.len(),
{
    if channels.len() == 0 {
        0
    } else {
        channel_samples(channels.drop_last()) + channels.last()@.len()
    }
}

/// The samples of all channels of some ports.
pub open spec fn port_samples(ports: Seq<Vec<Vec<u32>>>) -> nat
    decreases ports.len(),
{
    if ports.len() == 0 {
        0
    } else {
        port_samples(ports.drop_last()) + channel_samples(ports.last()@)
    }
}

/// Whether channels have kept their lengths, and from their lengths in the other list on
/// also their samples.
pub open spec fn same_beyond(
    before: Seq<Vec<u32>>,
    after: Seq<Vec<u32>>,
    other: Seq<Vec<u32>>,
) -> bool {
    &&& after.len() == before.len()
    &&& forall|c: int|
        0 <= c < before.len() ==> {
            &&& (#[trigger] after[c])@.len() == before[c]@.len()
            &&& c >= other.len() ==> after[c]@ == before[c]@
            &&& c < other.len() ==> forall|i: int|
                other[c]@.len() <= i < before[c]@.len() ==> #[trigger] after[c]@[i] == before[c]@[i]
        }
}

proof fn channel_samples_cover(channels: Seq<Vec<u32>>, other: Seq<Vec<u32>>)
    ensures
        woven_all(channels, other).len() <= channel_samples(channels) + channel_samples(other),
{
    channel_samples_reach(channels, lesser(channels.len(), other.len()));
    channel_samples_reach(other, lesser(channels.len(), other.len()));
    woven_pairs_reach(channels, other, lesser(channels.len(), other.len()));
}

proof fn channel_samples_reach(channels: Seq<Vec<u32>>, count: nat)
    requires
        count <= channels.len(),
    ensures
        channel_samples(channels.take(count as int)) <= channel_samples(channels),
    decreases channels.len(),
{
    if count < channels.len() {
        assert(channels.take(count as int) =~= channels.drop_last().take(count as int));
        channel_samples_reach(channels.drop_last(), count);
    } else {
        assert(channels.take(count as int) =~= channels);
    }
}

proof fn woven_pairs_reach(a: Seq<Vec<u32>>, b: Seq<Vec<u32>>, count: nat)
    requires
        count <= a.len(),
        count <= b.len(),
    ensures
        woven_pairs(a, b, count).len() <= channel_samples(a.take(count as int)) + channel_samples(
            b.take(count as int),
        ),
    decreases count,
{
    if count > 0 {
        woven_pairs_reach(a, b, (count - 1) as nat);
        assert(a.take(count as int).drop_last() =~= a.take(count - 1));
        assert(b.take(count as int).drop_last() =~= b.take(count - 1));
    }
}

proof fn first_ports_count(ports: Seq<Vec<Vec<u32>>>)
    requires
        ports.len() >= 2,
    ensures
        channel_samples(ports[0]@) + channel_samples(ports[1]@) <= port_samples(ports),
    decreases ports.len(),
{
    if ports.len() == 2 {
        assert(ports.drop_last().drop_last() =~= Seq::<Vec<Vec<u32>>>::empty());
        assert(port_samples(ports.drop_last().drop_last()) == 0);
        assert(ports.drop_last().last() == ports[0]);
        assert(port_samples(ports.drop_last()) == channel_samples(ports[0]@));
    } else {
        first_ports_count(ports.drop_last());
    }
}

proof fn woven_pairs_same(
    a: Seq<Vec<u32>>,
    b: Seq<Vec<u32>>,
    c: Seq<Vec<u32>>,
    d: Seq<Vec<u32>>,
    count: nat,
)
    requires
        count <= a.len(),
        count <= b.len(),
        count <= c.len(),
        count <= d.len(),
        forall|i: int| 0 <= i < count ==> (#[trigger] a[i])@ == c[i]@,
        forall|i: int| 0 <= i < count ==> (#[trigger] b[i])@ == d[i]@,
    ensures
        woven_pairs(a, b, count) == woven_pairs(c, d, count),
    decreases count,
{
    if count > 0 {
        woven_pairs_same(a, b, c, d, (count - 1) as nat);
    }
}

/// Appends two channels with their samples in turns.
fn weave(a: &Vec<u32>, b: &Vec<u32>, out: &mut Vec<u32>)
    ensures
        final(out)@ == old(out)@ + woven(a@, b@),
{
    let mut next: usize = 0;
    while next < a.len() && next < b.len()
        invariant
            next <= a@.len(),
            next <= b@.len(),
            out@ == old(out)@ + woven(a@, b@).take(2 * next),
        decreases a@.len() - next,
    {
        let ghost before = out@;
        out.push(a[next]);
        out.push(b[next]);
        assert(out@ =~= old(out)@ + woven(a@, b@).take(2 * next + 2));
        next = next + 1;
    }
    assert(woven(a@, b@).take(2 * next) =~= woven(a@, b@));
}

fn weave_all(a: &Vec<Vec<u32>>, b: &Vec<Vec<u32>>, out: &mut Vec<u32>)
    ensures
        final(out)@ == old(out)@ + woven_all(a@, b@),
{
    let mut next: usize = 0;
    assert(out@ =~= old(out)@ + woven_pairs(a@, b@, 0));
    while next < a.len() && next < b.len()
        invariant
            next <= a@.len(),
            next <= b@.len(),
            out@ == old(out)@ + woven_pairs(a@, b@, next as nat),
        decreases a@.len() - next,
    {
        weave(&a[next], &b[next], out);
        next = next + 1;
        assert(out@ =~= old(out)@ + woven_pairs(a@, b@, next as nat));
    }
}

/// Spreads samples over two channels in turns, as far as both reach.
fn unweave(source: &Vec<u32>, from: usize, a: &mut Vec<u32>, b: &mut Vec<u32>) -> (to: usize)
    requires
        from + 2 * lesser(old(a)@.len(), old(b)@.len()) <= source@.len(),
    ensures
        to == from + 2 * lesser(old(a)@.len(), old(b)@.len()),
        final(a)@.len() == old(a)@.len(),
        final(b)@.len() == old(b)@.len(),
        woven(final(a)@, final(b)@) == source@.subrange(from as int, to as int),
        forall|i: int| old(b)@.len() <= i < old(a)@.len() ==> final(a)@[i] == old(a)@[i],
        forall|i: int| old(a)@.len() <= i < old(b)@.len() ==> final(b)@[i] == old(b)@[i],
{
    let len: usize = source.len();
    let mut to: usize = from;
    let mut next: usize = 0;
    while next < a.len() && next < b.len()
        invariant
            next <= a@.len(),
            next <= b@.len(),
            a@.len() == old(a)@.len(),
            b@.len() == old(b)@.len(),
            to == from + 2 * next,
            len == source@.len(),
            from + 2 * lesser(a@.len(), b@.len()) <= source@.len(),
            forall|i: int| 0 <= i < next ==> #[trigger] a@[i] == source@[from + 2 * i],
            forall|i: int| 0 <= i < next ==> #[trigger] b@[i] == source@[from + 2 * i + 1],
            forall|i: int| next <= i < a@.len() ==> a@[i] == old(a)@[i],
            forall|i: int| next <= i < b@.len() ==> b@[i] == old(b)@[i],
        decreases a@.len() - next,
    {
        a[next] = source[to];
        b[next] = source[to + 1];
        next = next + 1;
        to = to + 2;
    }
    assert(woven(a@, b@) =~= source@.subrange(from as int, to as int)) by {
        assert forall|i: int| 0 <= i < 2 * next implies woven(a@, b@)[i] == source@[from + i] by {
            assert(a@[i / 2] == source@[from + 2 * (i / 2)]);
            assert(b@[i / 2] == source@[from + 2 * (i / 2) + 1]);
        }
    }
    to
}

/// Spreads samples over pairs of channels, as far as both lists reach.
fn unweave_all(source: &Vec<u32>, a: &mut Vec<Vec<u32>>, b: &mut Vec<Vec<u32>>)
    requires
        woven_all(old(a)@, old(b)@).len() <= source@.len(),
    ensures
        woven_all(final(a)@, final(b)@) == source@.take(woven_all(old(a)@, old(b)@).len() as int),
        same_beyond(old(a)@, final(a)@, old(b)@),
        same_beyond(old(b)@, final(b)@, old(a)@),
{
    let mut at: usize = 0;
    let mut next: usize = 0;
    let ghost a0 = a@;
    let ghost b0 = b@;
    let ghost count = lesser(a0.len(), b0.len());
    assert(source@.take(0) =~= woven_pairs(a@, b@, 0));
    while next < a.len() && next < b.len()
        invariant
            next <= count,
            count == lesser(a0.len(), b0.len()),
            a@.len() == a0.len(),
            b@.len() == b0.len(),
            at == woven_pairs(a0, b0, next as nat).len(),
            at <= source@.len(),
            woven_pairs(a0, b0, count).len() <= source@.len(),
            woven_pairs(a@, b@, next as nat) == source@.take(at as int),
            same_beyond(a0, a@, b0),
            same_beyond(b0, b@, a0),
            forall|c: int| next <= c < a0.len() ==> (#[trigger] a@[c])@ == a0[c]@,
            forall|c: int| next <= c < b0.len() ==> (#[trigger] b@[c])@ == b0[c]@,
        decreases a0.len() - next,
    {
        let ghost a1 = a@;
        let ghost b1 = b@;
        let ghost from = at;
        proof {
            woven_pairs_grow(a0, b0, (next + 1) as nat, count);
        }
        at = unweave(source, at, &mut a[next], &mut b[next]);
        proof {
            woven_pairs_same(a1, b1, a@, b@, next as nat);
        }
        assert(source@.take(at as int) =~= source@.take(from as int) + source@.subrange(
            from as int,
            at as int,
        ));
        next = next + 1;
    }
}

proof fn woven_pairs_grow(a: Seq<Vec<u32>>, b: Seq<Vec<u32>>, few: nat, many: nat)
    requires
        few <= many,
    ensures
        woven_pairs(a, b, few).len() <= woven_pairs(a, b, many).len(),
    decreases many,
{
    if few < many {
        woven_pairs_grow(a, b, few, (many - 1) as nat);
    }
}

fn count_channels(channels: &Vec<Vec<u32>>) -> (samples: usize)
    requires
        channel_samples(channels@) <= usize::MAX,
    ensures
        samples == channel_samples(channels@),
{
    let mut samples: usize = 0;
    let mut next: usize = 0;
    while next < channels.len()
        invariant
            next <= channels@.len(),
            samples == channel_samples(channels@.take(next as int)),
            channel_samples(channels@) <= usize::MAX,
        decreases channels@.len() - next,
    {
        assert(channels@.take(next + 1).drop_last() =~= channels@.take(next as int));
        proof {
            channel_samples_reach(channels@, (next + 1) as nat);
        }
        samples = samples + channels[next].len();
        next = next + 1;
    }
    assert(channels@.take(next as int) =~= channels@);
    samples
}

proof fn port_samples_reach(ports: Seq<Vec<Vec<u32>>>, count: nat)
    requires
        count <= ports.len(),
    ensures
        port_samples(ports.take(count as int)) <= port_samples(ports),
    decreases ports.len(),
{
    if count < ports.len() {
        assert(ports.take(count as int) =~= ports.drop_last().take(count as int));
        port_samples_reach(ports.drop_last(), count);
    } else {
        assert(ports.take(count as int) =~= ports);
    }
}

fn count_ports(ports: &Vec<Vec<Vec<u32>>>) -> (samples: usize)
    requires
        port_samples(ports@) <= usize::MAX,
    ensures
        samples == port_samples(ports@),
{
    let mut samples: usize = 0;
    let mut next: usize = 0;
    while next < ports.len()
        invariant
            next <= ports@.len(),
            samples == port_samples(ports@.take(next as int)),
            port_samples(ports@) <= usize::MAX,
        decreases ports@.len() - next,
    {
        assert(ports@.take(next + 1).drop_last() =~= ports@.take(next as int));
        proof {
            port_samples_reach(ports@, (next + 1) as nat);
        }
        samples = samples + count_channels(&ports[next]);
        next = next + 1;
    }
    assert(ports@.take(next as int) =~= ports@);
    samples
}

/// What the worklet holds: what has come in and waits to be processed, and what has been
/// processed and waits to go out.
pub struct WebrtcProcessor {
    pub direction: Direction,
    pub unprocessed: Vec<u32>,
    pub processed: Vec<u32>,
}

impl WebrtcProcessor {
    /// Makes a worklet for one side of the processor.
    pub fn constructor(direction: Direction) -> (worklet: Self)
        ensures
            worklet.direction == direction,
            worklet.unprocessed@ == Seq::<u32>::empty(),
            worklet.processed@ == Seq::<u32>::empty(),
    {
        WebrtcProcessor { direction, unprocessed: Vec::new(), processed: Vec::new() }
    }

    /// What waits to be processed once the first two inputs have come in.
    pub open spec fn waiting(self, inputs: Seq<Vec<Vec<u32>>>) -> Seq<u32> {
        self.unprocessed@ + woven_all(inputs[0]@, inputs[1]@)
    }

    /// The samples that are processed at once.
    pub open spec fn frame_len(inputs: Seq<Vec<Vec<u32>>>) -> nat {
        NUM_SAMPLES_PER_FRAME as nat * inputs.len()
    }

    /// Takes the first two inputs in, and returns a frame to be processed if there is one.
    pub fn take_in(&mut self, inputs: &Vec<Vec<Vec<u32>>>) -> (frame: Option<Vec<u32>>)
        requires
            inputs@.len() >= 2,
            Self::frame_len(inputs@) <= usize::MAX,
        ensures
            final(self).direction == old(self).direction,
            final(self).processed@ == old(self).processed@,
            match frame {
                Some(samples) => {
                    &&& old(self).waiting(inputs@).len() >= Self::frame_len(inputs@)
                    &&& samples@ == old(self).waiting(inputs@).take(
                        Self::frame_len(inputs@) as int,
                    )
                    &&& final(self).unprocessed@ == old(self).waiting(inputs@).skip(
                        Self::frame_len(inputs@) as int,
                    )
                },
                None => {
                    &&& old(self).waiting(inputs@).len() < Self::frame_len(inputs@)
                    &&& final(self).unprocessed@ == old(self).waiting(inputs@)
                },
            },
    {
        let len: usize = NUM_SAMPLES_PER_FRAME * inputs.len();
        weave_all(&inputs[0], &inputs[1], &mut self.unprocessed);
        if self.unprocessed.len() >= len {
            let rest: Vec<u32> = self.unprocessed.split_off(len);
            let mut frame: Vec<u32> = Vec::new();
            frame.append(&mut self.unprocessed);
            self.unprocessed = rest;
            Some(frame)
        } else {
            None
        }
    }

    /// Whether the outputs carry the first samples of `source`: the first two of them by
    /// pairs of channels, and what is beyond the pairs as it was.
    pub open spec fn carries(
        before: Seq<Vec<Vec<u32>>>,
        after: Seq<Vec<Vec<u32>>>,
        source: Seq<u32>,
    ) -> bool {
        &&& after.len() == before.len()
        &&& woven_all(after[0]@, after[1]@) == source.take(
            woven_all(before[0]@, before[1]@).len() as int,
        )
        &&& same_beyond(before[0]@, after[0]@, before[1]@)
        &&& same_beyond(before[1]@, after[1]@, before[0]@)
        &&& forall|p: int| 2 <= p < before.len() ==> #[trigger] after[p] == before[p]
    }

    /// Fills the first two outputs, and returns whether there was enough for them. The
    /// outputs are filled with silence until more has been processed than all of them take.
    pub fn give_out(&mut self, outputs: &mut Vec<Vec<Vec<u32>>>) -> (enough: bool)
        requires
            old(outputs)@.len() >= 2,
            port_samples(old(outputs)@) <= usize::MAX,
        ensures
            final(self).direction == old(self).direction,
            final(self).unprocessed@ == old(self).unprocessed@,
            enough == (old(self).processed@.len() > port_samples(old(outputs)@)),
            final(self).processed@ == if enough {
                old(self).processed@.skip(port_samples(old(outputs)@) as int)
            } else {
                old(self).processed@
            },
            Self::carries(
                old(outputs)@,
                final(outputs)@,
                if enough {
                    old(self).processed@
                } else {
                    Seq::new(port_samples(old(outputs)@), |i: int| 0u32)
                },
            ),
    {
        let output_len: usize = count_ports(outputs);
        proof {
            first_ports_count(outputs@);
            channel_samples_cover(outputs@[0]@, outputs@[1]@);
        }
        let mut second: Vec<Vec<u32>> = outputs.remove(1);
        let mut first: Vec<Vec<u32>> = outputs.remove(0);
        let enough: bool = self.processed.len() > output_len;
        if enough {
            unweave_all(&self.processed, &mut first, &mut second);
            self.processed = self.processed.split_off(output_len);
        } else {
            let mut silence: Vec<u32> = Vec::new();
            silence.resize(output_len, 0);
            assert(silence@ =~= Seq::new(output_len as nat, |i: int| 0u32));
            unweave_all(&silence, &mut first, &mut second);
        }
        outputs.insert(0, first);
        outputs.insert(1, second);
        enough
    }

    /// Whether the worklet has become `after`, and the outputs were filled, once the samples
    /// in `done` have been processed.
    pub open spec fn gives_out(
        self,
        done: Seq<u32>,
        after: Self,
        outputs: Seq<Vec<Vec<u32>>>,
        filled: Seq<Vec<Vec<u32>>>,
    ) -> bool {
        let ready = self.processed@ + done;
        let total = port_samples(outputs);
        if ready.len() > total {
            &&& after.processed@ == ready.skip(total as int)
            &&& Self::carries(outputs, filled, ready)
        } else {
            &&& after.processed@ == ready
            &&& Self::carries(outputs, filled, Seq::new(total, |i: int| 0u32))
        }
    }

    /// Runs the worklet on one block: takes the inputs in, has a frame processed by `work`
    /// if there is one, and fills the outputs. The worklet need not be kept running once
    /// its inputs have gone.
    pub fn process<F: Fn(Direction, Vec<u32>) -> Vec<u32>>(
        &mut self,
        inputs: &Vec<Vec<Vec<u32>>>,
        outputs: &mut Vec<Vec<Vec<u32>>>,
        work: &F,
    ) -> (keep: bool)
        requires
            inputs@.len() >= 2,
            Self::frame_len(inputs@) <= usize::MAX,
            old(outputs)@.len() >= 2,
            port_samples(old(outputs)@) <= usize::MAX,
            forall|direction: Direction, frame: Vec<u32>| #[trigger]
                work.requires((direction, frame)),
        ensures
            !keep,
            final(self).direction == old(self).direction,
            ({
                let waiting = old(self).waiting(inputs@);
                let len = Self::frame_len(inputs@) as int;
                if waiting.len() < len {
                    &&& final(self).unprocessed@ == waiting
                    &&& old(self).gives_out(Seq::empty(), *final(self), old(outputs)@, final(outputs)@)
                } else {
                    &&& final(self).unprocessed@ == waiting.skip(len)
                    &&& exists|frame: Vec<u32>, done: Vec<u32>|
                        {
                            &&& frame@ == waiting.take(len)
                            &&& #[trigger] work.ensures((old(self).direction, frame), done)
                            &&& old(self).gives_out(done@, *final(self), old(outputs)@, final(outputs)@)
                        }
                }
            }),
    {
        match self.take_in(inputs) {
            Some(frame) => {
                let ghost given = frame;
                let mut done: Vec<u32> = work(self.direction, frame);
                let ghost back = done;
                self.processed.append(&mut done);
                self.give_out(outputs);
                assert(work.ensures((old(self).direction, given), back));
                assert(old(self).gives_out(back@, *self, old(outputs)@, outputs@));
            },
            None => {
                assert(self.processed@ + Seq::<u32>::empty() =~= self.processed@);
                self.give_out(outputs);
            },
        }
        false
    }
}

/// Whether two ports have the same channels, of the same lengths.
pub open spec fn same_shape(a: Seq<Vec<u32>>, b: Seq<Vec<u32>>) -> bool {
    &&& a.len() == b.len()
    &&& forall|c: int| 0 <= c < a.len() ==> (#[trigger] a[c])@.len() == b[c]@.len()
}

proof fn same_shape_count(a: Seq<Vec<u32>>, b: Seq<Vec<u32>>)
    requires
        same_shape(a, b),
    ensures
        woven_all(a, b).len() == channel_samples(a) + channel_samples(b),
    decreases a.len(),
{
    if a.len() > 0 {
        let n = (a.len() - 1) as nat;
        same_shape_count(a.drop_last(), b.drop_last());
        woven_pairs_same(a, b, a.drop_last(), b.drop_last(), n);
    }
}

/// A worklet with two outputs of the same shape loses, invents and reorders nothing: if
/// there was enough to fill the outputs, what they carry and what waits to go out are what
/// was ready; if there was not, everything still waits.
pub proof fn worklets_keep_every_sample(
    before: WebrtcProcessor,
    done: Seq<u32>,
    after: WebrtcProcessor,
    outputs: Seq<Vec<Vec<u32>>>,
    filled: Seq<Vec<Vec<u32>>>,
)
    requires
        outputs.len() == 2,
        same_shape(outputs[0]@, outputs[1]@),
        before.gives_out(done, after, outputs, filled),
    ensures
        if before.processed@.len() + done.len() > port_samples(outputs) {
            woven_all(filled[0]@, filled[1]@) + after.processed@ == before.processed@ + done
        } else {
            after.processed@ == before.processed@ + done
        },
{
    let ready = before.processed@ + done;
    same_shape_count(outputs[0]@, outputs[1]@);
    assert(port_samples(outputs) == channel_samples(outputs[0]@) + channel_samples(outputs[1]@))
        by {
        assert(outputs.drop_last().drop_last() =~= Seq::<Vec<Vec<u32>>>::empty());
        assert(port_samples(outputs.drop_last().drop_last()) == 0);
        assert(outputs.drop_last().last() == outputs[0]);
        assert(port_samples(outputs.drop_last()) == channel_samples(outputs[0]@));
    }
    let total = port_samples(outputs) as int;
    if ready.len() > total {
        assert(ready.take(total) + ready.skip(total) =~= ready);
    }
}

/// Two channels are woven sample by sample: the samples of the first stand at the even places,
/// those of the second at the odd ones, as many of each as the shorter channel has.
pub proof fn channels_are_woven_in_turns(a: Seq<u32>, b: Seq<u32>, i: int)
    ensures
        a.len() <= b.len() ==> woven(a, b).len() == 2 * a.len(),
        b.len() <= a.len() ==> woven(a, b).len() == 2 * b.len(),
        0 <= i < a.len() && i < b.len() ==> woven(a, b)[2 * i] == a[i] && woven(a, b)[2 * i + 1]
            == b[i],
{
}

/// Pairs of channels follow each other, each woven of its own, and a list that is longer than the
/// other adds nothing.
pub proof fn pairs_follow_each_other(
    a: Seq<Vec<u32>>,
    b: Seq<Vec<u32>>,
    x: Vec<u32>,
    y: Vec<u32>,
)
    ensures
        woven_all(Seq::<Vec<u32>>::empty(), b).len() == 0,
        woven_all(a, Seq::<Vec<u32>>::empty()).len() == 0,
        a.len() == b.len() ==> woven_all(a.push(x), b.push(y)) == woven_all(a, b) + woven(x@, y@),
        a.len() >= b.len() ==> woven_all(a.push(x), b) == woven_all(a, b),
        b.len() >= a.len() ==> woven_all(a, b.push(y)) == woven_all(a, b),
{
    if a.len() == b.len() {
        woven_pairs_same(a, b, a.push(x), b.push(y), a.len());
    }
    if a.len() >= b.len() {
        woven_pairs_same(a, b, a.push(x), b, b.len());
    }
    if b.len() >= a.len() {
        woven_pairs_same(a, b, a, b.push(y), a.len());
    }
}

/// The samples of channels, and those of ports, add up.
pub proof fn samples_add_up(
    channels: Seq<Vec<u32>>,
    channel: Vec<u32>,
    ports: Seq<Vec<Vec<u32>>>,
    port: Vec<Vec<u32>>,
)
    ensures
        channel_samples(Seq::<Vec<u32>>::empty()) == 0,
        channel_samples(channels.push(channel)) == channel_samples(channels) + channel@.len(),
        port_samples(Seq::<Vec<Vec<u32>>>::empty()) == 0,
        port_samples(ports.push(port)) == port_samples(ports) + channel_samples(port@),
{
    assert(channels.push(channel).drop_last() =~= channels);
    assert(ports.push(port).drop_last() =~= ports);
}

/// What comes in waits behind what waited already, and a frame has 480 samples for each input.
pub proof fn inputs_wait_behind(worklet: WebrtcProcessor, inputs: Seq<Vec<Vec<u32>>>)
    requires
        inputs.len() >= 2,
    ensures
        worklet.waiting(inputs).take(worklet.unprocessed@.len() as int) == worklet.unprocessed@,
        worklet.waiting(inputs).skip(worklet.unprocessed@.len() as int) == woven_all(
            inputs[0]@,
            inputs[1]@,
        ),
        WebrtcProcessor::frame_len(inputs) == 480 * inputs.len(),
{
    assert(worklet.waiting(inputs).take(worklet.unprocessed@.len() as int)
        =~= worklet.unprocessed@);
    assert(worklet.waiting(inputs).skip(worklet.unprocessed@.len() as int) =~= woven_all(
        inputs[0]@,
        inputs[1]@,
    ));
}

/// Filling the outputs changes no length and no output but the first two. A sample of those two
/// that has no partner in the other one stays as it was.
pub proof fn filling_keeps_the_shape(
    before: WebrtcProcessor,
    done: Seq<u32>,
    after: WebrtcProcessor,
    outputs: Seq<Vec<Vec<u32>>>,
    filled: Seq<Vec<Vec<u32>>>,
    p: int,
    c: int,
    i: int,
)
    requires
        outputs.len() >= 2,
        before.gives_out(done, after, outputs, filled),
        0 <= p < outputs.len(),
    ensures
        filled.len() == outputs.len(),
        p >= 2 ==> filled[p] == outputs[p],
        filled[p]@.len() == outputs[p]@.len(),
        0 <= c < outputs[p]@.len() ==> filled[p]@[c]@.len() == outputs[p]@[c]@.len(),
        p < 2 && 0 <= c < outputs[p]@.len() && 0 <= i < outputs[p]@[c]@.len() && (c >= outputs[1
            - p]@.len() || i >= outputs[1 - p]@[c]@.len()) ==> filled[p]@[c]@[i]
            == outputs[p]@[c]@[i],
{
    if p < 2 && 0 <= c < outputs[p]@.len() {
        assert(filled[p]@[c]@.len() == outputs[p]@[c]@.len());
    }
}

/// The outputs carry samples that were ready, in order, only if more was ready than all of them
/// take, and all that they take is then gone. Else they carry silence, and all of it still waits.
pub proof fn outputs_carry_what_was_ready(
    before: WebrtcProcessor,
    done: Seq<u32>,
    after: WebrtcProcessor,
    outputs: Seq<Vec<Vec<u32>>>,
    filled: Seq<Vec<Vec<u32>>>,
    at: int,
)
    requires
        outputs.len() >= 2,
        before.gives_out(done, after, outputs, filled),
        0 <= at < woven_all(filled[0]@, filled[1]@).len(),
    ensures
        woven_all(filled[0]@, filled[1]@).len() == woven_all(outputs[0]@, outputs[1]@).len(),
        before.processed@.len() + done.len() > port_samples(outputs) ==> {
            &&& woven_all(filled[0]@, filled[1]@)[at] == (before.processed@ + done)[at]
            &&& after.processed@ == (before.processed@ + done).skip(port_samples(outputs) as int)
        },
        before.processed@.len() + done.len() <= port_samples(outputs) ==> {
            &&& woven_all(filled[0]@, filled[1]@)[at] == 0
            &&& after.processed@ == before.processed@ + done
        },
{
    first_ports_count(outputs);
    channel_samples_cover(outputs[0]@, outputs[1]@);
}

/// Ports of the same shape have as many channels as each other, each as long as the other one's.
pub proof fn shapes_are_told_by_lengths(a: Seq<Vec<u32>>, b: Seq<Vec<u32>>, c: int)
    requires
        same_shape(a, b),
        0 <= c < a.len(),
    ensures
        c < b.len(),
        a[c]@.len() == b[c]@.len(),
        same_shape(b, a),
{
}

} // verus!
