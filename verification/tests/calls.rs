use callme::audio::AudioConfig;
use callme::node_id::NodeId;
use callme::run::{
    advance, joined_result, Happening, Mode, NetEvent, RunError, Stage,
};
use callme::worker::{
    call_steps, Action, CallInfo, CallState, CallStep, Command, Connected, Connection, Event,
    Failure, Input, Turn, Worker,
};

fn id(first: u8) -> NodeId {
    let mut bytes = [0; 32];
    bytes[0] = first;
    NodeId { bytes }
}

fn connection(handle: u64, first: u8) -> Connection {
    Connection { handle, remote: Some(id(first)) }
}

fn config() -> AudioConfig {
    AudioConfig::from_environment(None, None)
}

fn tells(action: &Action, node_id: NodeId, expected: CallState) -> bool {
    match action {
        Action::Emit { event: Event::SetCallState(told, state), .. } => {
            *told == node_id && *state == expected
        }
        _ => false,
    }
}

#[test]
fn users_are_told_which_node_we_are() {
    let (worker, actions) = Worker::start(id(1));
    assert_eq!(worker.active_calls.len(), 0);
    assert_eq!(actions.len(), 1);
    match &actions[0] {
        Action::Emit { event: Event::EndpointBound(node_id), notify: false } => {
            assert_eq!(*node_id, id(1))
        }
        other => panic!("unexpected: {other:?}"),
    }
}

#[test]
fn calling_a_node_connects_to_it_once() {
    let mut worker = Worker::start(id(9)).0;
    let actions = worker.handle_command(Command::Call { node_id: id(1) });
    assert_eq!(actions.len(), 2);
    assert!(tells(&actions[0], id(1), CallState::Calling));
    assert!(matches!(&actions[1], Action::Connect { node_id } if *node_id == id(1)));
    assert!(worker.handle_command(Command::Call { node_id: id(1) }).is_empty());
}

#[test]
fn callbacks_are_notified_once_they_are_set() {
    let mut worker = Worker::start(id(9)).0;
    assert!(worker.handle_command(Command::SetUpdateCallback).is_empty());
    let actions = worker.handle_command(Command::Call { node_id: id(1) });
    assert!(matches!(actions[0], Action::Emit { notify: true, .. }));
}

#[test]
fn connected_calls_become_active() {
    let mut worker = Worker::start(id(9)).0;
    worker.audio_context_created(true);
    worker.handle_command(Command::Call { node_id: id(1) });
    let made = Connected { connection: connection(7, 1), track: 3 };
    let actions = worker.handle_connected(id(1), Some(made));
    assert!(tells(&actions[0], id(1), CallState::Active));
    match &actions[1] {
        Action::StartCall { node_id, handle: 7, track: Some(3) } => assert_eq!(*node_id, id(1)),
        other => panic!("unexpected: {other:?}"),
    }
    assert!(matches!(worker.active_calls.get(&id(1)), Some(CallInfo::Active(_))));
}

#[test]
fn calls_need_audio() {
    let mut worker = Worker::start(id(9)).0;
    let made = Connected { connection: connection(7, 1), track: 3 };
    let actions = worker.handle_connected(id(1), Some(made));
    assert!(tells(&actions[0], id(1), CallState::Active));
    assert!(matches!(actions[1], Action::Fail(Failure::MissingAudioContext)));
}

#[test]
fn calls_that_do_not_connect_are_aborted() {
    let mut worker = Worker::start(id(9)).0;
    worker.handle_command(Command::Call { node_id: id(1) });
    let actions = worker.handle_connected(id(1), None);
    assert_eq!(actions.len(), 1);
    assert!(tells(&actions[0], id(1), CallState::Aborted));
    assert!(!worker.active_calls.contains_key(&id(1)));
}

#[test]
fn incoming_calls_ring_and_are_accepted() {
    let mut worker = Worker::start(id(9)).0;
    worker.audio_context_created(true);
    let actions = worker.handle_incoming(connection(4, 2));
    assert_eq!(actions.len(), 1);
    assert!(tells(&actions[0], id(2), CallState::Incoming));
    let actions = worker.handle_command(Command::HandleIncoming { node_id: id(2), accept: true });
    assert!(tells(&actions[0], id(2), CallState::Active));
    assert!(matches!(actions[1], Action::StartCall { handle: 4, track: None, .. }));
}

#[test]
fn incoming_calls_are_declined() {
    let mut worker = Worker::start(id(9)).0;
    worker.handle_incoming(connection(4, 2));
    let actions = worker.handle_command(Command::HandleIncoming { node_id: id(2), accept: false });
    assert!(matches!(actions[0], Action::Close { handle: 4 }));
    assert!(tells(&actions[1], id(2), CallState::Aborted));
    assert_eq!(worker.active_calls.len(), 0);
}

#[test]
fn answers_to_calls_that_do_not_ring_forget_them() {
    let mut worker = Worker::start(id(9)).0;
    worker.handle_command(Command::Call { node_id: id(1) });
    let answer = Command::HandleIncoming { node_id: id(1), accept: true };
    assert!(worker.handle_command(answer).is_empty());
    assert_eq!(worker.active_calls.len(), 0);
}

#[test]
fn aborted_calls_are_closed() {
    let mut worker = Worker::start(id(9)).0;
    worker.handle_incoming(connection(4, 2));
    worker.handle_command(Command::Call { node_id: id(1) });
    let actions = worker.handle_command(Command::Abort { node_id: id(2) });
    assert!(matches!(actions[0], Action::Close { handle: 4 }));
    assert!(tells(&actions[1], id(2), CallState::Aborted));
    let actions = worker.handle_command(Command::Abort { node_id: id(1) });
    assert_eq!(actions.len(), 1);
    assert!(tells(&actions[0], id(1), CallState::Aborted));
    assert!(worker.handle_command(Command::Abort { node_id: id(1) }).is_empty());
}

#[test]
fn nameless_connections_fail() {
    let mut worker = Worker::start(id(9)).0;
    let nameless = Connection { handle: 1, remote: None };
    let actions = worker.handle_incoming(nameless);
    assert!(matches!(actions[..], [Action::Fail(Failure::NoRemoteNodeId)]));
    let actions = worker.handle_connected(id(1), Some(Connected { connection: nameless, track: 1 }));
    assert!(matches!(actions[..], [Action::Fail(Failure::NoRemoteNodeId)]));
}

#[test]
fn audio_stays_when_a_later_setup_fails() {
    let mut worker = Worker::start(id(9)).0;
    let actions = worker.handle_command(Command::SetAudioConfig { audio_config: config() });
    assert!(matches!(actions[..], [Action::CreateAudioContext { .. }]));
    let actions = worker.audio_context_created(false);
    assert!(matches!(actions[..], [Action::Fail(Failure::AudioContextFailed)]));
    assert!(!worker.audio_context);
    worker.audio_context_created(true);
    worker.audio_context_created(false);
    assert!(worker.audio_context);
}

#[test]
fn turns_tell_what_a_failure_means() {
    let mut worker = Worker::start(id(9)).0;
    assert!(matches!(worker.run(Input::Command(Command::SetUpdateCallback)), Turn::Try(_)));
    assert!(matches!(worker.run(Input::AudioContextCreated(true)), Turn::Try(_)));
    assert!(matches!(worker.run(Input::Incoming(connection(1, 1))), Turn::Must(_)));
    match worker.run(Input::CallEnded(id(1))) {
        Turn::Must(actions) => assert!(tells(&actions[0], id(1), CallState::Aborted)),
        other => panic!("unexpected: {other:?}"),
    }
    assert!(matches!(worker.run(Input::ConnectEnded(id(1), None)), Turn::Must(_)));
    assert!(matches!(worker.run(Input::IncomingEnded), Turn::Stop));
    assert!(matches!(worker.run(Input::IncomingFailed), Turn::Fail));
    assert!(matches!(worker.run(Input::CommandsClosed), Turn::Fail));
}

#[test]
fn calls_take_their_steps_in_order() {
    assert_eq!(
        call_steps(Some(3)),
        vec![CallStep::PlayTrack(3), CallStep::SendCapture, CallStep::LeaveRemoteTracks]
    );
    assert_eq!(call_steps(None), vec![CallStep::SendCapture, CallStep::PlayRemoteTracks]);
}

fn run_through(mode: Mode, happenings: &[Happening]) -> (Stage, Vec<NetEvent>) {
    let mut stage = Stage::Connecting;
    let mut told = Vec::new();
    for happening in happenings {
        let (next, event) = advance(mode, stage, *happening);
        stage = next;
        told.extend(event);
    }
    (stage, told)
}

#[test]
fn accepted_calls_are_established_and_closed() {
    let (stage, told) = run_through(
        Mode::Accept,
        &[
            Happening::Incoming { speaks_protocol: true },
            Happening::Connected { remote: Some(id(3)) },
            Happening::AudioReady,
            Happening::Ended { with_error: true },
        ],
    );
    assert!(matches!(stage, Stage::Over(Ok(()))));
    match told[..] {
        [NetEvent::Established(first), NetEvent::Closed(second)] => {
            assert_eq!((first, second), (id(3), id(3)))
        }
        _ => panic!("unexpected: {told:?}"),
    }
}

#[test]
fn accepting_fails() {
    let cases = [
        (Happening::EndpointDied, RunError::EndpointDied),
        (Happening::Incoming { speaks_protocol: false }, RunError::InvalidAlpn),
        (Happening::ConnectFailed, RunError::NotConnected),
        (Happening::Connected { remote: None }, RunError::NoRemoteNodeId),
    ];
    for (happening, error) in cases {
        let (stage, told) = run_through(Mode::Accept, &[happening]);
        assert!(matches!(stage, Stage::Over(Err(found)) if found == error));
        assert!(told.is_empty());
    }
}

#[test]
fn calls_without_audio_fail_after_they_were_established() {
    let (stage, told) = run_through(
        Mode::Connect(id(5)),
        &[Happening::Connected { remote: None }, Happening::AudioFailed],
    );
    assert!(matches!(stage, Stage::Over(Err(RunError::NoAudio))));
    assert!(matches!(told[..], [NetEvent::Established(_)]));
}

#[test]
fn calls_with_shared_audio_run_at_once() {
    let (stage, told) = run_through(
        Mode::ConnectShared(id(5)),
        &[Happening::Connected { remote: None }, Happening::Ended { with_error: false }],
    );
    assert!(matches!(stage, Stage::Over(Ok(()))));
    assert_eq!(told.len(), 2);
}

#[test]
fn calls_to_oneself_fail_with_their_connection() {
    let begin = [Happening::Connected { remote: Some(id(1)) }, Happening::AudioReady];
    let (stage, told) = run_through(Mode::Feedback, &begin);
    assert!(matches!(stage, Stage::Running(None)));
    assert!(told.is_empty());
    let (stage, event) = advance(Mode::Feedback, stage, Happening::Ended { with_error: true });
    assert!(matches!(stage, Stage::Over(Err(RunError::Broken))));
    assert!(event.is_none());
}

#[test]
fn calls_that_are_over_stay_so() {
    let over = Stage::Over(Err(RunError::NoAudio));
    for happening in [
        Happening::EndpointDied,
        Happening::Connected { remote: Some(id(1)) },
        Happening::AudioReady,
        Happening::Ended { with_error: false },
    ] {
        let (stage, event) = advance(Mode::Accept, over, happening);
        assert!(matches!(stage, Stage::Over(Err(RunError::NoAudio))));
        assert!(event.is_none());
    }
}

#[test]
fn joined_calls_give_the_first_failure() {
    assert_eq!(joined_result(&vec![]), Ok(()));
    assert_eq!(joined_result(&vec![Ok(()), Ok(())]), Ok(()));
    let results = vec![Ok(()), Err(RunError::NoAudio), Err(RunError::Broken)];
    assert_eq!(joined_result(&results), Err(RunError::NoAudio));
}
