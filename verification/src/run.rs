//! The course of a call that is run to its end, and what is told of it meanwhile.

use vstd::prelude::*;

use crate::node_id::NodeId;

verus! {

/// What is told of a call.
#[derive(Debug, Clone, Copy)]
pub enum NetEvent {
    Established(NodeId),
    Closed(NodeId),
}

/// How a call is run.
#[derive(Debug, Clone, Copy)]
pub enum Mode {
    /// A connection that comes in. The audio devices are set up once it is there.
    Accept,
    /// A connection to a node. The audio devices are set up once it is there.
    Connect(NodeId),
    /// One of several connections to nodes that share audio devices.
    ConnectShared(NodeId),
    /// One end of a call to oneself. Nothing is told of it.
    Feedback,
}

/// Why a call fails.
#[derive(Debug, Clone, Copy, PartialEq, Eq, Structural)]
pub enum RunError {
    /// The endpoint does not accept connections any more.
    EndpointDied,
    /// The connection speaks another protocol.
    InvalidAlpn,
    /// The connection was not established.
    NotConnected,
    /// The connection does not tell which node is at its other end.
    NoRemoteNodeId,
    /// The audio devices could not be set up.
    NoAudio,
    /// The connection has ended with an error.
    Broken,
}

/// Where a call is.
#[derive(Debug, Clone, Copy)]
pub enum Stage {
    /// The connection is awaited.
    Connecting,
    /// The audio devices are being set up.
    Preparing(Option<NodeId>),
    /// Audio runs.
    Running(Option<NodeId>),
    /// The call is over.
    Over(Result<(), RunError>),
}

/// What happens to a call.
#[derive(Debug, Clone, Copy)]
pub enum Happening {
    EndpointDied,
    /// A connection has come in, which speaks our protocol or does not.
    Incoming { speaks_protocol: bool },
    /// The connection is there, to this node where it tells which.
    Connected { remote: Option<NodeId> },
    ConnectFailed,
    AudioReady,
    AudioFailed,
    /// The connection has ended, with an error or without.
    Ended { with_error: bool },
}

/// The node that is told of, once the connection is there.
pub open spec fn told_node(mode: Mode, remote: Option<NodeId>) -> Option<NodeId> {
    match mode {
        Mode::Accept => remote,
        Mode::Connect(node_id) => Some(node_id),
        Mode::ConnectShared(node_id) => Some(node_id),
        Mode::Feedback => None,
    }
}

/// The stage after something has happened. What cannot happen at a stage changes nothing.
pub open spec fn stage_after(mode: Mode, stage: Stage, happening: Happening) -> Stage {
    match (stage, happening) {
        (Stage::Connecting, Happening::EndpointDied) => Stage::Over(Err(RunError::EndpointDied)),
        (Stage::Connecting, Happening::Incoming { speaks_protocol: false }) => Stage::Over(
            Err(RunError::InvalidAlpn),
        ),
        (Stage::Connecting, Happening::ConnectFailed) => Stage::Over(Err(RunError::NotConnected)),
        (Stage::Connecting, Happening::Connected { remote }) => if mode is Accept && remote is None {
            Stage::Over(Err(RunError::NoRemoteNodeId))
        } else if mode is ConnectShared {
            Stage::Running(told_node(mode, remote))
        } else {
            Stage::Preparing(told_node(mode, remote))
        },
        (Stage::Preparing(node_id), Happening::AudioReady) => Stage::Running(node_id),
        (Stage::Preparing(_), Happening::AudioFailed) => Stage::Over(Err(RunError::NoAudio)),
        (Stage::Running(_), Happening::Ended { with_error }) => if mode is Feedback && with_error {
            Stage::Over(Err(RunError::Broken))
        } else {
            Stage::Over(Ok(()))
        },
        _ => stage,
    }
}

/// What is told when something has happened.
pub open spec fn told_after(mode: Mode, stage: Stage, happening: Happening) -> Option<NetEvent> {
    match (stage, happening) {
        (Stage::Connecting, Happening::Connected { remote }) => match told_node(mode, remote) {
            Some(node_id) => Some(NetEvent::Established(node_id)),
            None => None,
        },
        (Stage::Running(Some(node_id)), Happening::Ended { .. }) => Some(NetEvent::Closed(node_id)),
        _ => None,
    }
}

/// Decides the stage after something has happened, and what is told then. An error that
/// ends a connection fails only a call to oneself.
pub fn advance(mode: Mode, stage: Stage, happening: Happening) -> (next: (Stage, Option<NetEvent>))
    ensures
        next.0 == stage_after(mode, stage, happening),
        next.1 == told_after(mode, stage, happening),
{
    match (stage, happening) {
        (Stage::Connecting, Happening::EndpointDied) => (
            Stage::Over(Err(RunError::EndpointDied)),
            None,
        ),
        (Stage::Connecting, Happening::Incoming { speaks_protocol }) => if speaks_protocol {
            (stage, None)
        } else {
            (Stage::Over(Err(RunError::InvalidAlpn)), None)
        },
        (Stage::Connecting, Happening::ConnectFailed) => (
            Stage::Over(Err(RunError::NotConnected)),
            None,
        ),
        (Stage::Connecting, Happening::Connected { remote }) => match mode {
            Mode::Accept => match remote {
                Some(node_id) => (
                    Stage::Preparing(Some(node_id)),
                    Some(NetEvent::Established(node_id)),
                ),
                None => (Stage::Over(Err(RunError::NoRemoteNodeId)), None),
            },
            Mode::Connect(node_id) => (
                Stage::Preparing(Some(node_id)),
                Some(NetEvent::Established(node_id)),
            ),
            Mode::ConnectShared(node_id) => (
                Stage::Running(Some(node_id)),
                Some(NetEvent::Established(node_id)),
            ),
            Mode::Feedback => (Stage::Preparing(None), None),
        },
        (Stage::Preparing(node_id), Happening::AudioReady) => (Stage::Running(node_id), None),
        (Stage::Preparing(_), Happening::AudioFailed) => (
            Stage::Over(Err(RunError::NoAudio)),
            None,
        ),
        (Stage::Running(node_id), Happening::Ended { with_error }) => {
            let event: Option<NetEvent> = match node_id {
                Some(node_id) => Some(NetEvent::Closed(node_id)),
                None => None,
            };
            match mode {
                Mode::Feedback => if with_error {
                    (Stage::Over(Err(RunError::Broken)), event)
                } else {
                    (Stage::Over(Ok(())), event)
                },
                _ => (Stage::Over(Ok(())), event),
            }
        },
        _ => (stage, None),
    }
}

/// Where a call is after all that has happened, and all that was told of it.
pub open spec fn course(mode: Mode, happenings: Seq<Happening>) -> (Stage, Seq<NetEvent>)
    decreases happenings.len(),
{
    if happenings.len() == 0 {
        (Stage::Connecting, Seq::empty())
    } else {
        let (stage, told) = course(mode, happenings.drop_last());
        let next = stage_after(mode, stage, happenings.last());
        match told_after(mode, stage, happenings.last()) {
            Some(event) => (next, told.push(event)),
            None => (next, told),
        }
    }
}

/// Whether what was told of a call is what its stage allows: nothing before the connection
/// is there; that it is established while the devices are set up or audio runs; and once
/// the call has ended well, that it is established and then closed. Of a call that has
/// failed at most the first was told, and of a call to oneself nothing.
pub open spec fn told_in_order(mode: Mode, stage: Stage, told: Seq<NetEvent>) -> bool {
    if mode is Feedback {
        &&& told.len() == 0
        &&& stage matches Stage::Preparing(node_id) ==> node_id is None
        &&& stage matches Stage::Running(node_id) ==> node_id is None
    } else {
        match stage {
            Stage::Connecting => told.len() == 0,
            Stage::Preparing(node_id) | Stage::Running(node_id) => {
                &&& node_id matches Some(id)
                &&& told == seq![NetEvent::Established(id)]
            },
            Stage::Over(Ok(_)) => {
                &&& told.len() == 2
                &&& told[0] matches NetEvent::Established(id)
                &&& told[1] == NetEvent::Closed(id)
            },
            Stage::Over(Err(_)) => {
                &&& told.len() <= 1
                &&& told.len() == 1 ==> told[0] is Established
            },
        }
    }
}

/// Whatever happens to a call, what is told of it comes in order: first that it is
/// established, then, and always if it ends well, that it is closed, both of the same node
/// and each at most once.
pub proof fn calls_are_told_in_order(mode: Mode, happenings: Seq<Happening>)
    ensures
        told_in_order(mode, course(mode, happenings).0, course(mode, happenings).1),
    decreases happenings.len(),
{
    if happenings.len() > 0 {
        calls_are_told_in_order(mode, happenings.drop_last());
        let (stage, told) = course(mode, happenings.drop_last());
        if let Some(NetEvent::Established(node_id)) = told_after(mode, stage, happenings.last()) {
            assert(told.push(NetEvent::Established(node_id)) =~= seq![
                NetEvent::Established(node_id),
            ]);
        }
    }
}

/// Once a call is over, nothing changes any more.
pub proof fn over_is_over(mode: Mode, stage: Stage, happening: Happening)
    requires
        stage is Over,
    ensures
        stage_after(mode, stage, happening) == stage,
        told_after(mode, stage, happening) is None,
{
}

/// A call whose devices are being set up runs once they are ready, however it is run, and it
/// fails for want of audio exactly if they could not be set up. Nothing is told of either.
pub proof fn devices_decide_on_audio(mode: Mode, node_id: Option<NodeId>)
    ensures
        stage_after(mode, Stage::Preparing(node_id), Happening::AudioReady) == Stage::Running(
            node_id,
        ),
        stage_after(mode, Stage::Preparing(node_id), Happening::AudioFailed) == Stage::Over(
            Err(RunError::NoAudio),
        ),
        told_after(mode, Stage::Preparing(node_id), Happening::AudioReady) is None,
        told_after(mode, Stage::Preparing(node_id), Happening::AudioFailed) is None,
{
}

/// A connection that is there leads on: to the setting up of devices, or to audio at once
/// where devices are shared; and it is told of, under the node that was called or that has
/// called. Only a call that comes in fails where the connection does not tell its node, and of
/// a call to oneself nothing is told.
pub proof fn connections_lead_on(mode: Mode, remote: Option<NodeId>, node_id: NodeId)
    ensures
        ({
            let happening = Happening::Connected { remote: Some(node_id) };
            &&& stage_after(Mode::Accept, Stage::Connecting, happening) == Stage::Preparing(
                Some(node_id),
            )
            &&& told_after(Mode::Accept, Stage::Connecting, happening) == Some(
                NetEvent::Established(node_id),
            )
        }),
        ({
            let happening = Happening::Connected { remote: None };
            &&& stage_after(Mode::Accept, Stage::Connecting, happening) == Stage::Over(
                Err(RunError::NoRemoteNodeId),
            )
            &&& told_after(Mode::Accept, Stage::Connecting, happening) is None
        }),
        ({
            let happening = Happening::Connected { remote };
            &&& stage_after(Mode::Connect(node_id), Stage::Connecting, happening)
                == Stage::Preparing(Some(node_id))
            &&& told_after(Mode::Connect(node_id), Stage::Connecting, happening) == Some(
                NetEvent::Established(node_id),
            )
            &&& stage_after(Mode::ConnectShared(node_id), Stage::Connecting, happening)
                == Stage::Running(Some(node_id))
            &&& told_after(Mode::ConnectShared(node_id), Stage::Connecting, happening) == Some(
                NetEvent::Established(node_id),
            )
            &&& stage_after(Mode::Feedback, Stage::Connecting, happening) == Stage::Preparing(None)
            &&& told_after(Mode::Feedback, Stage::Connecting, happening) is None
        }),
{
}

/// A call that runs is over when its connection ends: well, but for a call to oneself that
/// has ended with an error. It is told to be closed under the node it was told under.
pub proof fn running_calls_end(mode: Mode, node_id: NodeId, with_error: bool)
    ensures
        mode is Feedback && with_error ==> stage_after(
            mode,
            Stage::Running(None),
            Happening::Ended { with_error },
        ) == Stage::Over(Err(RunError::Broken)),
        !(mode is Feedback && with_error) ==> {
            &&& stage_after(mode, Stage::Running(None), Happening::Ended { with_error })
                == Stage::Over(Ok(()))
            &&& stage_after(mode, Stage::Running(Some(node_id)), Happening::Ended { with_error })
                == Stage::Over(Ok(()))
        },
        told_after(mode, Stage::Running(Some(node_id)), Happening::Ended { with_error }) == Some(
            NetEvent::Closed(node_id),
        ),
        told_after(mode, Stage::Running(None), Happening::Ended { with_error }) is None,
{
}

/// What fails while the connection is awaited fails the call with its reason, and a
/// connection that speaks our protocol goes on being awaited. Nothing is told of any of it.
pub proof fn awaited_connections_fail(mode: Mode)
    ensures
        stage_after(mode, Stage::Connecting, Happening::EndpointDied) == Stage::Over(
            Err(RunError::EndpointDied),
        ),
        stage_after(mode, Stage::Connecting, Happening::ConnectFailed) == Stage::Over(
            Err(RunError::NotConnected),
        ),
        stage_after(mode, Stage::Connecting, Happening::Incoming { speaks_protocol: false })
            == Stage::Over(Err(RunError::InvalidAlpn)),
        stage_after(mode, Stage::Connecting, Happening::Incoming { speaks_protocol: true })
            == Stage::Connecting,
        told_after(mode, Stage::Connecting, Happening::EndpointDied) is None,
        told_after(mode, Stage::Connecting, Happening::ConnectFailed) is None,
        told_after(mode, Stage::Connecting, Happening::Incoming { speaks_protocol: false }) is None,
        told_after(mode, Stage::Connecting, Happening::Incoming { speaks_protocol: true }) is None,
{
}

/// A failure has its cause: a call turns into a failed one only through what the failure says,
/// at the stage where that can happen. It ends well only when audio has run and the connection
/// has ended. It comes to run only from a connection with shared devices or from devices that
/// are ready.
pub proof fn outcomes_have_their_cause(mode: Mode, stage: Stage, happening: Happening)
    requires
        !(stage is Over),
    ensures
        ({
            let next = stage_after(mode, stage, happening);
            &&& next == Stage::Over(Err(RunError::EndpointDied)) ==> stage is Connecting
                && happening is EndpointDied
            &&& next == Stage::Over(Err(RunError::InvalidAlpn)) ==> stage is Connecting
                && happening == (Happening::Incoming { speaks_protocol: false })
            &&& next == Stage::Over(Err(RunError::NotConnected)) ==> stage is Connecting
                && happening is ConnectFailed
            &&& next == Stage::Over(Err(RunError::NoRemoteNodeId)) ==> stage is Connecting
                && mode is Accept && happening == (Happening::Connected { remote: None })
            &&& next == Stage::Over(Err(RunError::NoAudio)) ==> stage is Preparing
                && happening is AudioFailed
            &&& next == Stage::Over(Err(RunError::Broken)) ==> stage is Running && mode is Feedback
                && happening == (Happening::Ended { with_error: true })
            &&& next == Stage::Over(Ok(())) ==> stage is Running && happening is Ended
            &&& next is Running && !(stage is Running) ==> (stage is Preparing
                && happening is AudioReady) || (mode is ConnectShared && stage is Connecting
                && happening is Connected)
            &&& next is Preparing && !(stage is Preparing) ==> stage is Connecting
                && happening is Connected && !(mode is ConnectShared)
            &&& next is Connecting ==> stage is Connecting
        }),
{
}

/// A course goes on from where it was: the next happening is taken at the stage that those
/// before it have led to, and what is told of it comes after what was told before.
pub proof fn courses_go_on(mode: Mode, happenings: Seq<Happening>, happening: Happening)
    ensures
        course(mode, Seq::empty()) == (Stage::Connecting, Seq::<NetEvent>::empty()),
        ({
            let (stage, told) = course(mode, happenings);
            let (next, all) = course(mode, happenings.push(happening));
            &&& next == stage_after(mode, stage, happening)
            &&& told_after(mode, stage, happening) is None ==> all == told
            &&& told_after(mode, stage, happening) matches Some(event) ==> all == told.push(event)
        }),
{
    assert(happenings.push(happening).drop_last() =~= happenings);
}

/// A call fails for want of audio only if its devices could not be set up.
pub proof fn audio_fails_with_its_devices(mode: Mode, happenings: Seq<Happening>)
    requires
        course(mode, happenings).0 == Stage::Over(Err(RunError::NoAudio)),
    ensures
        exists|i: int| 0 <= i < happenings.len() && #[trigger] happenings[i] is AudioFailed,
    decreases happenings.len(),
{
    let before = happenings.drop_last();
    let stage = course(mode, before).0;
    if stage is Over {
        over_is_over(mode, stage, happenings.last());
        audio_fails_with_its_devices(mode, before);
        let i = choose|i: int| 0 <= i < before.len() && #[trigger] before[i] is AudioFailed;
        assert(happenings[i] is AudioFailed);
    } else {
        outcomes_have_their_cause(mode, stage, happenings.last());
        assert(happenings[happenings.len() - 1] is AudioFailed);
    }
}

/// A call to a node that is connected, whose devices are set up and whose connection then
/// ends, has ended well, with or without an error of the connection, and it was told to be
/// established and closed.
pub proof fn placed_calls_run(node_id: NodeId, remote: Option<NodeId>, with_error: bool)
    ensures
        course(
            Mode::Connect(node_id),
            seq![
                Happening::Connected { remote },
                Happening::AudioReady,
                Happening::Ended { with_error },
            ],
        ) == (
            Stage::Over(Ok(())),
            seq![NetEvent::Established(node_id), NetEvent::Closed(node_id)],
        ),
{
    let mode = Mode::Connect(node_id);
    let none = Seq::<Happening>::empty();
    let one = none.push(Happening::Connected { remote });
    let two = one.push(Happening::AudioReady);
    let three = two.push(Happening::Ended { with_error });
    courses_go_on(mode, none, Happening::Connected { remote });
    courses_go_on(mode, one, Happening::AudioReady);
    courses_go_on(mode, two, Happening::Ended { with_error });
    assert(three =~= seq![
        Happening::Connected { remote },
        Happening::AudioReady,
        Happening::Ended { with_error },
    ]);
    assert(course(mode, three).1 =~= seq![
        NetEvent::Established(node_id),
        NetEvent::Closed(node_id),
    ]);
}

/// Whether the result at position `at` is the first failure.
pub open spec fn first_failure(results: Seq<Result<(), RunError>>, at: int) -> bool {
    &&& 0 <= at < results.len()
    &&& results[at] is Err
    &&& forall|i: int| 0 <= i < at ==> #[trigger] results[i] is Ok
}

/// Returns what several calls come to, given their results in the order in which they are
/// awaited: the first failure, if there is one.
pub fn joined_result(results: &Vec<Result<(), RunError>>) -> (result: Result<(), RunError>)
    ensures
        result is Ok <==> forall|i: int|
            0 <= i < results@.len() ==> #[trigger] results@[i] is Ok,
        match result {
            Ok(_) => forall|i: int| 0 <= i < results@.len() ==> #[trigger] results@[i] is Ok,
            Err(_) => exists|at: int|
                #[trigger] first_failure(results@, at) && result == results@[at],
        },
{
    let mut next: usize = 0;
    while next < results.len()
        invariant
            next <= results@.len(),
            forall|i: int| 0 <= i < next ==> #[trigger] results@[i] is Ok,
        decreases results@.len() - next,
    {
        match results[next] {
            Ok(_) => {},
            Err(error) => {
                assert(first_failure(results@, next as int));
                return Err(error);
            },
        }
        next = next + 1;
    }
    Ok(())
}

/// Of several results there is one first failure at most, and there is one as soon as any of them
/// is a failure.
pub proof fn first_failures_come_first(results: Seq<Result<(), RunError>>, at: int, other: int)
    ensures
        first_failure(results, at) && first_failure(results, other) ==> at == other,
        first_failure(results, at) && 0 <= other < at ==> results[other] is Ok,
        first_failure(results, at) ==> results[at] is Err,
        0 <= other < results.len() && results[other] is Err ==> exists|i: int|
            i <= other && #[trigger] first_failure(results, i),
    decreases other,
{
    if 0 <= other < results.len() && results[other] is Err {
        if exists|i: int| 0 <= i < other && #[trigger] results[i] is Err {
            let i = choose|i: int| 0 <= i < other && #[trigger] results[i] is Err;
            first_failures_come_first(results, at, i);
        } else {
            assert forall|i: int| 0 <= i < other implies #[trigger] results[i] is Ok by {
                assert(!(results[i] is Err));
            }
            assert(first_failure(results, other));
        }
    }
    if first_failure(results, at) && first_failure(results, other) {
        if at < other {
            assert(results[at] is Ok);
        }
        if other < at {
            assert(results[other] is Ok);
        }
    }
}

/// Several calls succeed together exactly if each of them does, and fail as the first that fails.
pub proof fn calls_fail_as_the_first(
    results: &Vec<Result<(), RunError>>,
    at: int,
    result: Result<(), RunError>,
)
    requires
        call_ensures(joined_result, (results,), result),
    ensures
        (forall|i: int| 0 <= i < results@.len() ==> #[trigger] results@[i] is Ok) ==> result is Ok,
        0 <= at < results@.len() && results@[at] is Err ==> result is Err,
        0 <= at < results@.len() && results@[at] is Err && (forall|i: int|
            0 <= i < at ==> #[trigger] results@[i] is Ok) ==> result == results@[at],
{
    if 0 <= at < results@.len() && result is Ok {
        assert(results@[at] is Ok);
    }
    if 0 <= at < results@.len() && results@[at] is Err && (forall|i: int|
        0 <= i < at ==> #[trigger] results@[i] is Ok) {
        assert(first_failure(results@, at));
        let first = choose|first: int|
            #[trigger] first_failure(results@, first) && result == results@[first];
        first_failures_come_first(results@, at, first);
    }
}

} // verus!
