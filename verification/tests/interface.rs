use callme::app::{
    fmt_node_id, state_name, App, AppState, CallClick, ConfigClick, Reaction, RemoteLine,
    UiAudioConfig, UiSection, DEFAULT,
};
use callme::audio::{AudioConfig, Devices};
use callme::node_id::NodeId;
use callme::worker::{Action, CallState, Command, Connection, Event, Input, Turn, Worker};

const KEY: &str = "3b6a27bcceb6a42d62a3a8d02a6f0d73653215771de243a63ac048a18b59da29";

fn id(first: u8) -> NodeId {
    let mut bytes = [0; 32];
    bytes[0] = first;
    NodeId { bytes }
}

fn state() -> AppState {
    let devices = Devices {
        input: vec!["mic".to_string(), "line".to_string()],
        output: vec!["speaker".to_string()],
    };
    App::new(devices).state
}

#[test]
fn the_first_update_sets_the_callback() {
    let mut app = App::new(Devices::default());
    assert!(matches!(app.update(), Some(Command::SetUpdateCallback)));
    assert!(app.update().is_none());
}

#[test]
fn interfaces_start_with_the_settings() {
    let state = state();
    assert_eq!(state.section, UiSection::Config);
    let config = state.audio_config();
    assert_eq!(config.input_device, None);
    assert_eq!(config.output_device, None);
    assert!(config.processing_enabled);
}

#[test]
fn the_default_choice_names_no_device() {
    let chosen = UiAudioConfig {
        selected_input: "mic".to_string(),
        selected_output: DEFAULT.to_string(),
        processing_enabled: false,
    };
    let config = AudioConfig::from(&chosen);
    assert_eq!(config.input_device, Some("mic".to_string()));
    assert_eq!(config.output_device, None);
    assert!(!config.processing_enabled);
}

#[test]
fn settings_offer_the_default_and_the_devices() {
    let mut state = state();
    state.click_config(ConfigClick::Input(2));
    let section = state.ui_section_config();
    let labels: Vec<&str> = section.input.iter().map(|choice| choice.label.as_str()).collect();
    assert_eq!(labels, vec!["<default>", "mic", "line"]);
    let selected: Vec<bool> = section.input.iter().map(|choice| choice.selected).collect();
    assert_eq!(selected, vec![false, false, true]);
    assert_eq!(section.output.len(), 2);
    assert!(section.output[0].selected);
    assert!(section.processing_enabled);
}

#[test]
fn saved_settings_go_to_the_worker() {
    let mut state = state();
    assert!(matches!(state.click_config(ConfigClick::Input(1)), Reaction::Nothing));
    assert!(matches!(state.click_config(ConfigClick::Output(1)), Reaction::Nothing));
    assert!(matches!(state.click_config(ConfigClick::Processing(false)), Reaction::Nothing));
    assert_eq!(state.section, UiSection::Config);
    match state.click_config(ConfigClick::Save) {
        Reaction::Send(Command::SetAudioConfig { audio_config }) => {
            assert_eq!(audio_config.input_device, Some("mic".to_string()));
            assert_eq!(audio_config.output_device, Some("speaker".to_string()));
            assert!(!audio_config.processing_enabled);
        }
        other => panic!("unexpected: {other:?}"),
    }
    assert_eq!(state.section, UiSection::Main);
}

#[test]
fn choices_can_be_taken_back() {
    let mut state = state();
    state.click_config(ConfigClick::Input(1));
    state.click_config(ConfigClick::Input(9));
    assert_eq!(state.audio_config.selected_input, "mic");
    state.click_config(ConfigClick::Input(0));
    assert_eq!(state.audio_config().input_device, None);
}

#[test]
fn events_change_what_is_shown() {
    let mut state = state();
    state.update(vec![
        Event::EndpointBound(id(9)),
        Event::SetCallState(id(2), CallState::Incoming),
        Event::SetCallState(id(1), CallState::Calling),
        Event::SetCallState(id(3), CallState::Active),
    ]);
    state.update(vec![Event::SetCallState(id(3), CallState::Aborted)]);
    let section = state.ui_section_call();
    assert_eq!(section.own, Some("0900000000…".to_string()));
    assert!(matches!(section.remote, RemoteLine::Nothing));
    assert_eq!(section.rows.len(), 2);
    assert_eq!(section.rows[0].label, "0100000000…");
    assert_eq!(section.rows[0].state, "Calling");
    assert!(!section.rows[0].answerable);
    assert_eq!(section.rows[1].node_id, id(2));
    assert_eq!(section.rows[1].state, "Incoming");
    assert!(section.rows[1].answerable);
}

#[test]
fn pasted_node_ids_can_be_called() {
    let mut state = state();
    assert!(matches!(state.click_call(CallClick::Call), Reaction::Nothing));
    assert!(matches!(state.click_call(CallClick::Paste(KEY.to_string())), Reaction::Nothing));
    match state.ui_section_call().remote {
        RemoteLine::Callable { label } => assert_eq!(label, "3b6a27bcce…"),
        other => panic!("unexpected: {other:?}"),
    }
    match state.click_call(CallClick::Call) {
        Reaction::Send(Command::Call { node_id }) => assert_eq!(node_id.to_text(), KEY),
        other => panic!("unexpected: {other:?}"),
    }
}

#[test]
fn other_pasted_texts_are_refused() {
    let mut state = state();
    state.click_call(CallClick::Paste("hello".to_string()));
    match state.ui_section_call().remote {
        RemoteLine::Invalid { message } => assert!(message.starts_with("Invalid node id: ")),
        other => panic!("unexpected: {other:?}"),
    }
    assert!(matches!(state.click_call(CallClick::Call), Reaction::Nothing));
}

#[test]
fn copied_node_ids_can_be_pasted() {
    let ours = NodeId::from_text(KEY).unwrap();
    let mut state = state();
    assert!(matches!(state.click_call(CallClick::Copy), Reaction::Nothing));
    state.update(vec![Event::EndpointBound(ours)]);
    let copied = match state.click_call(CallClick::Copy) {
        Reaction::SetClipboard(text) => text,
        other => panic!("unexpected: {other:?}"),
    };
    state.click_call(CallClick::Paste(copied));
    assert!(matches!(&state.remote_node_id, Some(Ok(pasted)) if *pasted == ours));
}

#[test]
fn buttons_follow_the_state_of_a_call() {
    let mut state = state();
    state.update(vec![
        Event::SetCallState(id(1), CallState::Incoming),
        Event::SetCallState(id(2), CallState::Active),
    ]);
    assert!(matches!(
        state.click_call(CallClick::Accept(id(1))),
        Reaction::Send(Command::HandleIncoming { accept: true, .. })
    ));
    assert!(matches!(
        state.click_call(CallClick::Decline(id(1))),
        Reaction::Send(Command::HandleIncoming { accept: false, .. })
    ));
    assert!(matches!(state.click_call(CallClick::Drop(id(1))), Reaction::Nothing));
    assert!(matches!(
        state.click_call(CallClick::Drop(id(2))),
        Reaction::Send(Command::Abort { .. })
    ));
    assert!(matches!(state.click_call(CallClick::Accept(id(2))), Reaction::Nothing));
    assert!(matches!(state.click_call(CallClick::Drop(id(3))), Reaction::Nothing));
}

#[test]
fn updates_may_come_in_parts() {
    let events = [
        Event::SetCallState(id(1), CallState::Calling),
        Event::SetCallState(id(2), CallState::Incoming),
        Event::SetCallState(id(1), CallState::Aborted),
    ];
    let mut at_once = state();
    at_once.update(events.to_vec());
    let mut in_parts = state();
    in_parts.update(events[..1].to_vec());
    in_parts.update(events[1..].to_vec());
    for state in [&at_once, &in_parts] {
        assert_eq!(state.calls.len(), 1);
        assert_eq!(state.calls.get(&id(2)), Some(&CallState::Incoming));
    }
}

#[test]
fn screens_answer_calls_that_ring() {
    let mut worker = Worker::start(id(9)).0;
    let mut state = state();
    let connection = Connection { handle: 1, remote: Some(id(2)) };
    for action in worker.handle_incoming(connection) {
        if let Action::Emit { event, .. } = action {
            state.update(vec![event]);
        }
    }
    let command = match state.click_call(CallClick::Decline(id(2))) {
        Reaction::Send(command) => command,
        other => panic!("unexpected: {other:?}"),
    };
    let actions = worker.handle_command(command);
    assert!(matches!(actions[0], Action::Close { handle: 1 }));
}

#[test]
fn labels_are_marked_as_cut_off() {
    assert_eq!(fmt_node_id("ab"), "ab…");
    assert_eq!(state_name(CallState::Active), "Active");
    assert_eq!(state_name(CallState::Aborted), "Aborted");
}

#[test]
fn screens_show_the_calls_of_the_worker() {
    let (mut worker, first) = Worker::start(id(9));
    let mut state = state();
    for action in first {
        if let Action::Emit { event, .. } = action {
            state.update(vec![event]);
        }
    }
    assert_eq!(state.our_node_id, Some(id(9)));
    let inputs = vec![
        Input::Command(Command::Call { node_id: id(1) }),
        Input::Command(Command::Call { node_id: id(2) }),
        Input::ConnectEnded(id(2), None),
        Input::Command(Command::Abort { node_id: id(7) }),
    ];
    for input in inputs {
        let actions = match worker.run(input) {
            Turn::Try(actions) | Turn::Must(actions) => actions,
            other => panic!("unexpected: {other:?}"),
        };
        let mut events = Vec::new();
        for action in actions {
            if let Action::Emit { event, .. } = action {
                events.push(event);
            }
        }
        state.update(events);
        assert_eq!(state.calls.len(), worker.active_calls.len());
    }
    assert_eq!(state.calls.len(), 1);
    assert_eq!(state.calls.get(&id(1)), Some(&CallState::Calling));
}
