//! Cutting a stream of samples into frames of a fixed length.

use vstd::prelude::*;

verus! {

/// Whether `frames` are the whole frames of `len` samples that `samples` starts with, and
/// `rest` is what is left after the last of them, too little for another one.
pub open spec fn framed(samples: Seq<u32>, len: nat, frames: Seq<Vec<u32>>, rest: Seq<u32>) -> bool {
    &&& rest.len() < len
    &&& samples.len() == frames.len() * len + rest.len()
    &&& forall|j: int|
        0 <= j < frames.len() ==> (#[trigger] frames[j])@ == samples.subrange(
            j * len,
            j * len + len,
        )
    &&& rest == samples.skip((frames.len() * len) as int)
}

/// The samples of the frames, one frame after the other.
pub open spec fn joined(frames: Seq<Vec<u32>>) -> Seq<u32>
    decreases frames.len(),
{
    if frames.len() == 0 {
        Seq::empty()
    } else {
        joined(frames.drop_last()) + frames.last()@
    }
}

/// Cutting a stream into frames neither loses, invents nor reorders samples.
pub proof fn framing_keeps_every_sample(
    samples: Seq<u32>,
    len: nat,
    frames: Seq<Vec<u32>>,
    rest: Seq<u32>,
)
    requires
        framed(samples, len, frames, rest),
    ensures
        joined(frames) + rest == samples,
        forall|j: int| 0 <= j < frames.len() ==> (#[trigger] frames[j])@.len() == len,
        rest.len() < len,
{
    joined_is_prefix(samples, len, frames);
    assert forall|j: int| 0 <= j < frames.len() implies (#[trigger] frames[j])@.len() == len by {
        let n = frames.len() as int;
        assert(0 <= j * len && j * len + len <= n * len) by (nonlinear_arith)
            requires
                0 <= j < n,
                len >= 0,
        ;
    }
}

proof fn joined_is_prefix(samples: Seq<u32>, len: nat, frames: Seq<Vec<u32>>)
    requires
        frames.len() * len <= samples.len(),
        forall|j: int|
            0 <= j < frames.len() ==> (#[trigger] frames[j])@ == samples.subrange(
                j * len,
                j * len + len,
            ),
    ensures
        joined(frames) == samples.take((frames.len() * len) as int),
    decreases frames.len(),
{
    if frames.len() > 0 {
        let n = frames.len() - 1;
        assert(frames.len() * len == n * len + len) by (nonlinear_arith)
            requires
                frames.len() == n + 1,
        ;
        assert forall|j: int| 0 <= j < frames.drop_last().len() implies (
        #[trigger] frames.drop_last()[j])@ == samples.subrange(j * len, j * len + len) by {
            assert(frames.drop_last()[j] == frames[j]);
        }
        joined_is_prefix(samples, len, frames.drop_last());
        assert(n * len >= 0) by (nonlinear_arith)
            requires
                n >= 0,
        ;
        assert(frames[n]@ == samples.subrange(n * len, n * len + len));
    } else {
        assert(0 * len == 0) by (nonlinear_arith);
    }
}

/// The frames do not depend on the portions in which a stream arrives: cutting the first
/// portion, and then its rest with the second portion, gives the frames of the whole.
pub proof fn framing_ignores_portions(
    first: Seq<u32>,
    second: Seq<u32>,
    len: nat,
    first_frames: Seq<Vec<u32>>,
    first_rest: Seq<u32>,
    second_frames: Seq<Vec<u32>>,
    second_rest: Seq<u32>,
)
    requires
        framed(first, len, first_frames, first_rest),
        framed(first_rest + second, len, second_frames, second_rest),
    ensures
        framed(first + second, len, first_frames + second_frames, second_rest),
{
    let m = first_frames.len() as int;
    let n = second_frames.len() as int;
    let l = len as int;
    let whole = first + second;
    let frames = first_frames + second_frames;
    assert((m + n) * l == m * l + n * l && m * l >= 0 && n * l >= 0) by (nonlinear_arith)
        requires
            m >= 0,
            n >= 0,
            l >= 0,
    ;
    assert(whole.skip(m * l) == first_rest + second);
    assert forall|j: int| 0 <= j < frames.len() implies (#[trigger] frames[j])@ == whole.subrange(
        j * len,
        j * len + len,
    ) by {
        if j < m {
            assert(0 <= j * l && j * l + l <= m * l) by (nonlinear_arith)
                requires
                    0 <= j < m,
                    l >= 0,
            ;
            assert(frames[j] == first_frames[j]);
        } else {
            assert(frames[j] == second_frames[j - m]);
            assert((j - m) * l == j * l - m * l && 0 <= (j - m) * l && (j - m) * l + l <= n * l)
                by (nonlinear_arith)
                requires
                    m <= j < m + n,
                    l >= 0,
            ;
            assert(whole.subrange(j * l, j * l + l) == (first_rest + second).subrange(
                (j - m) * l,
                (j - m) * l + l,
            ));
        }
    }
    assert(second_rest == whole.skip((m + n) * l));
}

/// The frames and the rest are fixed by the samples and the length of a frame.
pub proof fn framing_is_unique(
    samples: Seq<u32>,
    len: nat,
    frames: Seq<Vec<u32>>,
    rest: Seq<u32>,
    other_frames: Seq<Vec<u32>>,
    other_rest: Seq<u32>,
)
    requires
        framed(samples, len, frames, rest),
        framed(samples, len, other_frames, other_rest),
    ensures
        frames.len() == other_frames.len(),
        rest == other_rest,
        forall|j: int| 0 <= j < frames.len() ==> (#[trigger] frames[j])@ == other_frames[j]@,
{
    let a = frames.len() as int;
    let b = other_frames.len() as int;
    let l = len as int;
    if a < b {
        assert(b * l >= a * l + l) by (nonlinear_arith)
            requires
                a < b,
                l > 0,
        ;
    } else if b < a {
        assert(a * l >= b * l + l) by (nonlinear_arith)
            requires
                b < a,
                l > 0,
        ;
    }
    assert forall|j: int| 0 <= j < frames.len() implies (#[trigger] frames[j])@
        == other_frames[j]@ by {
        assert(other_frames[j]@ == samples.subrange(j * len, j * len + len));
    }
}

/// How many samples are drawn for a frame of `len` samples of which `pending` are there: as
/// many as it lacks, or all there are.
pub open spec fn drawn_len(pending: Seq<u32>, samples: Seq<u32>, len: nat) -> nat {
    if pending.len() + samples.len() >= len {
        (len - pending.len()) as nat
    } else {
        samples.len()
    }
}

/// Whether a frame of `len` samples was drawn from samples, the frame's first samples
/// pending before, and `rest` pending afterwards. There is none where there are too few.
pub open spec fn frame_drawn(
    pending: Seq<u32>,
    samples: Seq<u32>,
    len: nat,
    frame: Option<(Vec<u32>, u32)>,
    rest: Seq<u32>,
) -> bool {
    if pending.len() + samples.len() >= len {
        &&& frame matches Some((drawn, count))
        &&& drawn@ == pending + samples.take(len - pending.len())
        &&& count == len as u32
        &&& rest == Seq::<u32>::empty()
    } else {
        &&& frame is None
        &&& rest == pending + samples
    }
}

/// Whether `frames` are drawn from samples one after the other until there are too few.
pub open spec fn all_drawn(
    pending: Seq<u32>,
    samples: Seq<u32>,
    len: nat,
    frames: Seq<Vec<u32>>,
    rest: Seq<u32>,
) -> bool
    decreases frames.len(),
{
    if frames.len() == 0 {
        &&& pending.len() + samples.len() < len
        &&& rest == pending + samples
    } else {
        &&& pending.len() + samples.len() >= len
        &&& frames[0]@ == pending + samples.take(len - pending.len())
        &&& all_drawn(
            Seq::empty(),
            samples.skip(len - pending.len()),
            len,
            frames.drop_first(),
            rest,
        )
    }
}

/// Drawing frames one by one until there are too few samples gives the frames that cutting
/// all of them at once gives.
pub proof fn drawing_gives_all_frames(
    pending: Seq<u32>,
    samples: Seq<u32>,
    len: nat,
    frames: Seq<Vec<u32>>,
    rest: Seq<u32>,
)
    requires
        pending.len() < len,
        all_drawn(pending, samples, len, frames, rest),
    ensures
        framed(pending + samples, len, frames, rest),
    decreases frames.len(),
{
    if frames.len() == 0 {
        assert(0 * len == 0) by (nonlinear_arith);
        assert((pending + samples).skip(0) =~= pending + samples);
    } else {
        let lacking = len - pending.len();
        let first = pending + samples.take(lacking);
        let later = samples.skip(lacking);
        drawing_gives_all_frames(Seq::empty(), later, len, frames.drop_first(), rest);
        let one = seq![frames[0]];
        let none = Seq::<u32>::empty();
        assert(1 * len == len && 0 * len == 0) by (nonlinear_arith);
        assert(first.subrange(0, len as int) =~= first);
        assert(first.skip(len as int) =~= none);
        assert(framed(first, len, one, none));
        framing_ignores_portions(first, later, len, one, none, frames.drop_first(), rest);
        assert(first + later =~= pending + samples);
        assert(one + frames.drop_first() =~= frames);
    }
}

/// A frame that is drawn after others comes after them, and what was drawn in vain adds to
/// the rest.
pub(crate) proof fn framed_draw(
    samples: Seq<u32>,
    len: nat,
    frames: Seq<Vec<u32>>,
    pending: Seq<u32>,
    left: Seq<u32>,
    frame: Option<(Vec<u32>, u32)>,
    rest: Seq<u32>,
)
    requires
        framed(samples, len, frames, pending),
        frame_drawn(pending, left, len, frame, rest),
    ensures
        match frame {
            Some((drawn, _)) => framed(
                samples + left.take(drawn_len(pending, left, len) as int),
                len,
                frames.push(drawn),
                rest,
            ),
            None => framed(samples + left, len, frames, rest),
        },
{
    match frame {
        Some((drawn, _)) => {
            let part = left.take(len - pending.len());
            let one = seq![drawn];
            assert(1 * len == len && 0 * len == 0) by (nonlinear_arith);
            assert((pending + part).subrange(0, len as int) =~= pending + part);
            assert((pending + part).skip(len as int) =~= Seq::<u32>::empty());
            assert(framed(pending + part, len, one, rest));
            framing_ignores_portions(samples, part, len, frames, pending, one, rest);
            assert(frames + one =~= frames.push(drawn));
        },
        None => {
            let none = Seq::<Vec<u32>>::empty();
            assert(0 * len == 0) by (nonlinear_arith);
            assert((pending + left).skip(0) =~= pending + left);
            assert(framed(pending + left, len, none, rest));
            framing_ignores_portions(samples, left, len, frames, pending, none, rest);
            assert(frames + none =~= frames);
        },
    }
}

/// Where nothing was framed yet, all is the rest.
pub(crate) proof fn framed_nothing(pending: Seq<u32>, len: nat)
    requires
        pending.len() < len,
    ensures
        framed(pending, len, Seq::empty(), pending),
{
    assert(0 * len == 0) by (nonlinear_arith);
    assert(pending.skip(0) =~= pending);
}

/// One more sample either completes a frame or adds to the rest.
pub(crate) proof fn framed_push(
    samples: Seq<u32>,
    len: nat,
    frames: Seq<Vec<u32>>,
    rest: Seq<u32>,
    sample: u32,
    frame: Vec<u32>,
)
    requires
        framed(samples, len, frames, rest),
        frame@ == rest.push(sample),
    ensures
        rest.len() + 1 < len ==> framed(samples.push(sample), len, frames, rest.push(sample)),
        rest.len() + 1 == len ==> framed(
            samples.push(sample),
            len,
            frames.push(frame),
            Seq::<u32>::empty(),
        ),
{
    let m = frames.len() as int;
    let l = len as int;
    let longer = samples.push(sample);
    assert(m * l >= 0 && (m + 1) * l == m * l + l) by (nonlinear_arith)
        requires
            m >= 0,
            l >= 0,
    ;
    assert forall|j: int| 0 <= j < m implies (#[trigger] frames[j])@ == longer.subrange(
        j * len,
        j * len + len,
    ) by {
        assert(0 <= j * l && j * l + l <= m * l) by (nonlinear_arith)
            requires
                0 <= j < m,
                l >= 0,
        ;
        assert(longer.subrange(j * l, j * l + l) == samples.subrange(j * l, j * l + l));
    }
    assert(longer.skip(m * l) == rest.push(sample));
    if rest.len() + 1 == len {
        let more = frames.push(frame);
        assert(longer.subrange(m * l, m * l + l) == rest.push(sample));
        assert forall|j: int| 0 <= j < more.len() implies (#[trigger] more[j])@ == longer.subrange(
            j * len,
            j * len + len,
        ) by {
            if j < m {
                assert(more[j] == frames[j]);
            }
        }
        assert(longer.skip((m + 1) * l) == Seq::<u32>::empty());
    }
}

/// Takes the whole frames of `len` samples out of a buffer and leaves the rest in it.
pub fn take_frames(buffer: &mut Vec<u32>, len: usize) -> (frames: Vec<Vec<u32>>)
    requires
        len > 0,
    ensures
        framed(old(buffer)@, len as nat, frames@, final(buffer)@),
{
    let total: usize = buffer.len();
    let mut frames: Vec<Vec<u32>> = Vec::new();
    let mut start: usize = 0;
    assert(0 * len == 0) by (nonlinear_arith);
    while total - start >= len
        invariant
            len > 0,
            total == buffer@.len(),
            buffer@ == old(buffer)@,
            start <= total,
            start == frames@.len() * len,
            forall|j: int|
                0 <= j < frames@.len() ==> (#[trigger] frames@[j])@ == buffer@.subrange(
                    j * len,
                    j * len + len,
                ),
        decreases total - start,
    {
        let frame: Vec<u32> = vstd::slice::slice_to_vec(
            vstd::slice::slice_subrange(buffer.as_slice(), start, start + len),
        );
        assert((frames@.len() + 1) * len == frames@.len() * len + len) by (nonlinear_arith);
        frames.push(frame);
        start = start + len;
    }
    let rest: Vec<u32> = buffer.split_off(start);
    *buffer = rest;
    frames
}

/// Whether `done` is what `work` has made of each of the frames, one after the other: it goes
/// from each of the states to the next.
pub open spec fn done_in_turn<S, F: Fn(S, Vec<u32>) -> (S, Vec<u32>)>(
    work: F,
    states: Seq<S>,
    frames: Seq<Vec<u32>>,
    done: Seq<Vec<u32>>,
) -> bool {
    &&& states.len() == frames.len() + 1
    &&& done.len() == frames.len()
    &&& forall|i: int|
        0 <= i < done.len() ==> work.ensures(
            (states[i], frames[i]),
            (states[i + 1], #[trigger] done[i]),
        )
}

/// Whether `done` is what `work` has made of each of the frames, in order, going from the
/// first state to the last.
pub open spec fn each_done<S, F: Fn(S, Vec<u32>) -> (S, Vec<u32>)>(
    work: F,
    first: S,
    frames: Seq<Vec<u32>>,
    done: Seq<Vec<u32>>,
    last: S,
) -> bool {
    exists|states: Seq<S>|
        {
            &&& #[trigger] done_in_turn(work, states, frames, done)
            &&& states[0] == first
            &&& states.last() == last
        }
}

/// Has `work` done on each of the frames, in order. It is handed its state, and hands it on.
pub fn process_each<S, F: Fn(S, Vec<u32>) -> (S, Vec<u32>)>(
    frames: Vec<Vec<u32>>,
    first: S,
    work: &F,
) -> (result: (Vec<Vec<u32>>, S))
    requires
        forall|state: S, frame: Vec<u32>| #[trigger] work.requires((state, frame)),
    ensures
        each_done(*work, first, frames@, result.0@, result.1),
{
    let mut waiting: Vec<Vec<u32>> = frames;
    let mut done: Vec<Vec<u32>> = Vec::new();
    let mut state: S = first;
    let ghost mut states: Seq<S> = seq![first];
    while waiting.len() > 0
        invariant
            done@.len() + waiting@.len() == frames@.len(),
            waiting@ == frames@.skip(done@.len() as int),
            states.len() == done@.len() + 1,
            states[0] == first,
            states.last() == state,
            forall|state: S, frame: Vec<u32>| #[trigger] work.requires((state, frame)),
            forall|i: int|
                0 <= i < done@.len() ==> work.ensures(
                    (states[i], frames@[i]),
                    (states[i + 1], #[trigger] done@[i]),
                ),
        decreases waiting@.len(),
    {
        let frame: Vec<u32> = waiting.remove(0);
        let (next, result) = work(state, frame);
        state = next;
        done.push(result);
        proof {
            states = states.push(state);
        }
        assert(waiting@ =~= frames@.skip(done@.len() as int));
    }
    assert(done_in_turn(*work, states, frames@, done@));
    (done, state)
}

/// Whether `work` gives back the frames that it is given.
pub open spec fn passes_frames<S, F: Fn(S, Vec<u32>) -> (S, Vec<u32>)>(work: F) -> bool {
    forall|state: S, given: Vec<u32>, next: S, back: Vec<u32>| #[trigger]
        work.ensures((state, given), (next, back)) ==> back@ == given@
}

/// Frames that are given back have the same samples altogether.
pub(crate) proof fn passed_frames_join<S, F: Fn(S, Vec<u32>) -> (S, Vec<u32>)>(
    work: F,
    first: S,
    frames: Seq<Vec<u32>>,
    done: Seq<Vec<u32>>,
    last: S,
)
    requires
        each_done(work, first, frames, done, last),
        passes_frames::<S, F>(work),
    ensures
        joined(done) == joined(frames),
{
    let states = choose|states: Seq<S>|
        {
            &&& #[trigger] done_in_turn(work, states, frames, done)
            &&& states[0] == first
            &&& states.last() == last
        };
    assert forall|i: int| 0 <= i < done.len() implies (#[trigger] done[i])@ == frames[i]@ by {
        assert(work.ensures((states[i], frames[i]), (states[i + 1], done[i])));
    }
    joined_same(done, frames);
}

/// Returns the samples of the frames, one frame after the other.
pub fn join_frames(frames: &Vec<Vec<u32>>) -> (samples: Vec<u32>)
    ensures
        samples@ == joined(frames@),
{
    let mut samples: Vec<u32> = Vec::new();
    let mut next: usize = 0;
    assert(samples@ =~= joined(frames@.take(0)));
    while next < frames.len()
        invariant
            next <= frames@.len(),
            samples@ == joined(frames@.take(next as int)),
        decreases frames@.len() - next,
    {
        assert(frames@.take(next + 1).drop_last() =~= frames@.take(next as int));
        let mut frame: Vec<u32> = vstd::slice::slice_to_vec(frames[next].as_slice());
        samples.append(&mut frame);
        next = next + 1;
    }
    assert(frames@.take(next as int) =~= frames@);
    samples
}

/// One more frame adds its samples at the end.
pub(crate) proof fn joined_push(frames: Seq<Vec<u32>>, frame: Vec<u32>)
    ensures
        joined(frames.push(frame)) == joined(frames) + frame@,
{
    assert(frames.push(frame).drop_last() =~= frames);
}

/// The samples of more frames come after those of the first ones.
pub(crate) proof fn joined_append(frames: Seq<Vec<u32>>, more: Seq<Vec<u32>>)
    ensures
        joined(frames + more) == joined(frames) + joined(more),
    decreases more.len(),
{
    if more.len() == 0 {
        assert(frames + more =~= frames);
        assert(joined(frames) + joined(more) =~= joined(frames));
    } else {
        joined_append(frames, more.drop_last());
        assert((frames + more).drop_last() =~= frames + more.drop_last());
        assert(joined(frames + more) =~= joined(frames) + joined(more));
    }
}

/// Frames with the same samples, one by one, have the same samples altogether.
proof fn joined_same(frames: Seq<Vec<u32>>, other: Seq<Vec<u32>>)
    requires
        frames.len() == other.len(),
        forall|i: int| 0 <= i < frames.len() ==> (#[trigger] frames[i])@ == other[i]@,
    ensures
        joined(frames) == joined(other),
    decreases frames.len(),
{
    if frames.len() > 0 {
        joined_same(frames.drop_last(), other.drop_last());
    }
}

/// The samples of no frames are none, and each frame adds its own at the end.
pub proof fn frames_are_joined_in_order(frames: Seq<Vec<u32>>, frame: Vec<u32>)
    ensures
        joined(Seq::<Vec<u32>>::empty()) == Seq::<u32>::empty(),
        joined(frames.push(frame)) == joined(frames) + frame@,
{
    joined_push(frames, frame);
}

/// A frame is drawn exactly if there are enough samples for it. It has the samples that were
/// pending and then as many of the others as it lacks, and counts them. What was drawn, in the
/// frame or pending, is what was pending and what was taken; no more is taken than a frame
/// lacks.
pub proof fn draws_take_what_a_frame_lacks(
    pending: Seq<u32>,
    samples: Seq<u32>,
    len: nat,
    frame: Option<(Vec<u32>, u32)>,
    rest: Seq<u32>,
)
    requires
        pending.len() < len,
        frame_drawn(pending, samples, len, frame, rest),
    ensures
        frame is Some <==> pending.len() + samples.len() >= len,
        ({
            let taken = drawn_len(pending, samples, len);
            &&& taken <= samples.len()
            &&& pending.len() + taken <= len
            &&& frame is None ==> taken == samples.len() && rest == pending + samples
            &&& frame matches Some((drawn, count)) ==> {
                &&& drawn@.len() == len
                &&& count == len as u32
                &&& drawn@ == pending + samples.take(taken as int)
                &&& rest.len() == 0
            }
        }),
{
    if frame is None {
        assert(rest =~= pending + samples);
    }
}

/// Work that is done in turn hands its state on: the first piece of work is done in the first
/// state, each other in the state that the one before it has left, and the last leaves the last.
pub proof fn work_hands_its_state_on<S, F: Fn(S, Vec<u32>) -> (S, Vec<u32>)>(
    work: F,
    first: S,
    frames: Seq<Vec<u32>>,
    done: Seq<Vec<u32>>,
    last: S,
)
    requires
        each_done(work, first, frames, done, last),
    ensures
        done.len() == frames.len(),
        frames.len() == 0 ==> first == last,
        exists|states: Seq<S>|
            {
                &&& #[trigger] states.len() == frames.len() + 1
                &&& states[0] == first
                &&& states[frames.len() as int] == last
                &&& forall|i: int|
                    0 <= i < frames.len() ==> work.ensures(
                        (states[i], #[trigger] frames[i]),
                        (states[i + 1], done[i]),
                    )
            },
{
    let states = choose|states: Seq<S>|
        {
            &&& #[trigger] done_in_turn(work, states, frames, done)
            &&& states[0] == first
            &&& states.last() == last
        };
    assert(states.len() == frames.len() + 1);
    assert forall|i: int| 0 <= i < frames.len() implies work.ensures(
        (states[i], #[trigger] frames[i]),
        (states[i + 1], done[i]),
    ) by {
        let piece = done[i];
    }
}

} // verus!
