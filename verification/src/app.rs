//! The graphical interface without its graphics: what is shown, and what follows from the
//! events that come in and the buttons that are clicked.

use vstd::prelude::*;

use crate::audio::device::Devices;
use crate::audio::AudioConfig;
use crate::call_table::{entries_are_mapped, CallTable};
use crate::node_id::{hex_of, is_no_key, reads_as, NodeId};
use crate::text::same_text;
use crate::worker::{
    after_inputs, all_answerable, first_actions, shown_after, shown_after_all, state_of, states_of,
    users_always_see_the_calls, Action, CallState, Command, Event, Input, WorkerView,
};

verus! {

/// The choice that leaves the device to the host.
pub const DEFAULT: &'static str = "<default>";

/// The audio settings that are chosen.
#[derive(Debug)]
pub struct UiAudioConfig {
    pub selected_input: String,
    pub selected_output: String,
    pub processing_enabled: bool,
}

impl Default for UiAudioConfig {
    fn default() -> (config: Self)
        ensures
            config.selected_input@ == DEFAULT@,
            config.selected_output@ == DEFAULT@,
            config.processing_enabled,
    {
        UiAudioConfig {
            selected_input: DEFAULT.to_string(),
            selected_output: DEFAULT.to_string(),
            processing_enabled: true,
        }
    }
}

/// The device that a choice stands for.
pub open spec fn chosen_device(selected: String) -> Option<String> {
    if selected@ == DEFAULT@ {
        None
    } else {
        Some(selected)
    }
}

fn device_of(selected: &String) -> (device: Option<String>)
    ensures
        device == chosen_device(*selected),
{
    if same_text(selected.as_str(), DEFAULT) {
        None
    } else {
        Some(selected.clone())
    }
}

impl From<&UiAudioConfig> for AudioConfig {
    fn from(value: &UiAudioConfig) -> (config: Self) {
        AudioConfig {
            input_device: device_of(&value.selected_input),
            output_device: device_of(&value.selected_output),
            processing_enabled: value.processing_enabled,
        }
    }
}

impl vstd::std_specs::convert::FromSpecImpl<&UiAudioConfig> for AudioConfig {
    open spec fn obeys_from_spec() -> bool {
        true
    }

    open spec fn from_spec(value: &UiAudioConfig) -> Self {
        AudioConfig {
            input_device: chosen_device(value.selected_input),
            output_device: chosen_device(value.selected_output),
            processing_enabled: value.processing_enabled,
        }
    }
}

/// What is on the screen.
#[derive(Debug, Clone, Copy, PartialEq, Eq, Structural)]
pub enum UiSection {
    Config,
    Main,
}

/// The state of the interface.
pub struct AppState {
    pub section: UiSection,
    pub remote_node_id: Option<Result<NodeId, String>>,
    pub our_node_id: Option<NodeId>,
    pub devices: Devices,
    pub audio_config: UiAudioConfig,
    pub calls: CallTable<CallState>,
}

/// The interface.
pub struct App {
    pub is_first_update: bool,
    pub state: AppState,
}

impl App {
    /// Makes the interface for a host with the given devices.
    pub fn new(devices: Devices) -> (app: Self)
        ensures
            app.is_first_update,
            app.state.wf(),
            app.state.section == UiSection::Config,
            app.state.remote_node_id is None,
            app.state.our_node_id is None,
            app.state.devices == devices,
            app.state.audio_config.selected_input@ == DEFAULT@,
            app.state.audio_config.selected_output@ == DEFAULT@,
            app.state.audio_config.processing_enabled,
            app.state.calls@ == Map::<Seq<u8>, CallState>::empty(),
    {
        App {
            is_first_update: true,
            state: AppState {
                section: UiSection::Config,
                remote_node_id: None,
                our_node_id: None,
                devices,
                audio_config: UiAudioConfig::default(),
                calls: CallTable::new(),
            },
        }
    }

    /// Called for each frame. The first time, the worker is to be given a callback.
    pub fn update(&mut self) -> (command: Option<Command>)
        ensures
            !final(self).is_first_update,
            final(self).state == old(self).state,
            command == if old(self).is_first_update {
                Some(Command::SetUpdateCallback)
            } else {
                None
            },
    {
        if self.is_first_update {
            self.is_first_update = false;
            Some(Command::SetUpdateCallback)
        } else {
            None
        }
    }
}

/// The calls that are shown after some events.
pub open spec fn shown_after_events(shown: Map<Seq<u8>, CallState>, events: Seq<Event>) -> Map<
    Seq<u8>,
    CallState,
>
    decreases events.len(),
{
    if events.len() == 0 {
        shown
    } else {
        shown_after(shown_after_events(shown, events.drop_last()), events.last())
    }
}

/// The identifier of our node after some events.
pub open spec fn our_id_after(before: Option<NodeId>, events: Seq<Event>) -> Option<NodeId>
    decreases events.len(),
{
    if events.len() == 0 {
        before
    } else {
        match events.last() {
            Event::EndpointBound(node_id) => Some(node_id),
            _ => our_id_after(before, events.drop_last()),
        }
    }
}

/// The short form of a node identifier, marked as cut off.
pub open spec fn node_label(node_id: NodeId) -> Seq<char> {
    hex_of(node_id@.take(5)) + "…"@
}

/// Returns a text marked as cut off.
pub fn fmt_node_id(text: &str) -> (label: String)
    ensures
        label@ == text@ + "…"@,
{
    let mut label: String = text.to_string();
    label.append("…");
    label
}

/// The message for a text that is no node identifier.
pub open spec fn invalid_message(reason: Seq<char>) -> Seq<char> {
    "Invalid node id: "@ + reason
}

/// The name of a call's state.
pub open spec fn state_label(state: CallState) -> Seq<char> {
    match state {
        CallState::Incoming => "Incoming"@,
        CallState::Calling => "Calling"@,
        CallState::Active => "Active"@,
        CallState::Aborted => "Aborted"@,
    }
}

/// Returns the name of a call's state.
pub fn state_name(state: CallState) -> (name: &'static str)
    ensures
        name@ == state_label(state),
{
    match state {
        CallState::Incoming => "Incoming",
        CallState::Calling => "Calling",
        CallState::Active => "Active",
        CallState::Aborted => "Aborted",
    }
}

/// The line about the node to call.
#[derive(Debug)]
pub enum RemoteLine {
    /// Nothing was pasted yet.
    Nothing,
    /// A button to call, and the node's label.
    Callable { label: String },
    /// Why what was pasted is no node identifier.
    Invalid { message: String },
}

/// The line about a call.
#[derive(Debug)]
pub struct CallRow {
    pub node_id: NodeId,
    pub label: String,
    pub state: &'static str,
    /// Whether there are buttons to accept and to decline the call, rather than one to
    /// drop it.
    pub answerable: bool,
}

/// What the screen for calls shows.
#[derive(Debug)]
pub struct CallSection {
    pub remote: RemoteLine,
    /// The label of our own node, with a button to copy its identifier.
    pub own: Option<String>,
    pub rows: Vec<CallRow>,
}

/// A click on the screen for calls.
#[derive(Debug)]
pub enum CallClick {
    /// Paste, with the text of the clipboard.
    Paste(String),
    Call,
    Copy,
    Accept(NodeId),
    Decline(NodeId),
    Drop(NodeId),
}

/// What follows from a click.
#[derive(Debug)]
pub enum Reaction {
    Nothing,
    Send(Command),
    SetClipboard(String),
}

/// A device that can be chosen.
#[derive(Debug)]
pub struct Choice {
    pub label: String,
    pub selected: bool,
}

/// What the screen for the settings shows.
#[derive(Debug)]
pub struct ConfigSection {
    pub input: Vec<Choice>,
    pub output: Vec<Choice>,
    pub processing_enabled: bool,
}

/// A click on the screen for the settings.
#[derive(Debug, Clone, Copy)]
pub enum ConfigClick {
    /// Choose the input device at this position of the list.
    Input(usize),
    /// Choose the output device at this position of the list.
    Output(usize),
    /// Turn echo cancellation on or off.
    Processing(bool),
    /// Save the settings and go on to the screen for calls.
    Save,
}

/// Whether a line shows a call.
pub open spec fn row_shows(row: CallRow, node_id: NodeId, state: CallState) -> bool {
    &&& row.node_id == node_id
    &&& row.label@ == node_label(node_id)
    &&& row.state@ == state_label(state)
    &&& row.answerable == (state == CallState::Incoming)
}

/// Whether choices are the default and then the devices, with the selected ones marked.
pub open spec fn offers(choices: Seq<Choice>, devices: Seq<String>, selected: Seq<char>) -> bool {
    &&& choices.len() == devices.len() + 1
    &&& choices[0].label@ == DEFAULT@
    &&& choices[0].selected == (selected == DEFAULT@)
    &&& forall|i: int|
        0 < i < choices.len() ==> {
            &&& (#[trigger] choices[i]).label@ == devices[i - 1]@
            &&& choices[i].selected == (selected == devices[i - 1]@)
        }
}

fn choices(devices: &Vec<String>, selected: &String) -> (list: Vec<Choice>)
    ensures
        offers(list@, devices@, selected@),
{
    let mut list: Vec<Choice> = Vec::new();
    list.push(
        Choice {
            label: DEFAULT.to_string(),
            selected: same_text(selected.as_str(), DEFAULT),
        },
    );
    let mut next: usize = 0;
    while next < devices.len()
        invariant
            next <= devices@.len(),
            list@.len() == next + 1,
            list@[0].label@ == DEFAULT@,
            list@[0].selected == (selected@ == DEFAULT@),
            forall|i: int|
                0 < i < list@.len() ==> {
                    &&& (#[trigger] list@[i]).label@ == devices@[i - 1]@
                    &&& list@[i].selected == (selected@ == devices@[i - 1]@)
                },
        decreases devices@.len() - next,
    {
        list.push(
            Choice {
                label: devices[next].clone(),
                selected: same_text(selected.as_str(), devices[next].as_str()),
            },
        );
        next = next + 1;
    }
    list
}

/// The choice after a click on a position of the list.
pub open spec fn choice_at(devices: Seq<String>, at: usize, current: Seq<char>) -> Seq<char> {
    if at == 0 {
        DEFAULT@
    } else if at <= devices.len() {
        devices[at - 1]@
    } else {
        current
    }
}

fn choice_of(devices: &Vec<String>, at: usize, current: &String) -> (selected: String)
    ensures
        selected@ == choice_at(devices@, at, current@),
{
    if at == 0 {
        DEFAULT.to_string()
    } else if at <= devices.len() {
        devices[at - 1].clone()
    } else {
        current.clone()
    }
}

impl AppState {
    /// The table of calls is in order.
    pub open spec fn wf(self) -> bool {
        self.calls.wf()
    }

    /// Takes in the events that have arrived.
    pub fn update(&mut self, events: Vec<Event>)
        requires
            old(self).wf(),
        ensures
            final(self).wf(),
            final(self).calls@ == shown_after_events(old(self).calls@, events@),
            final(self).our_node_id == our_id_after(old(self).our_node_id, events@),
            final(self).section == old(self).section,
            final(self).remote_node_id == old(self).remote_node_id,
            final(self).devices == old(self).devices,
            final(self).audio_config == old(self).audio_config,
    {
        let mut next: usize = 0;
        while next < events.len()
            invariant
                next <= events@.len(),
                self.wf(),
                self.calls@ == shown_after_events(old(self).calls@, events@.take(next as int)),
                self.our_node_id == our_id_after(old(self).our_node_id, events@.take(next as int)),
                self.section == old(self).section,
                self.remote_node_id == old(self).remote_node_id,
                self.devices == old(self).devices,
                self.audio_config == old(self).audio_config,
            decreases events@.len() - next,
        {
            assert(events@.take(next + 1).drop_last() =~= events@.take(next as int));
            match events[next] {
                Event::EndpointBound(node_id) => {
                    self.our_node_id = Some(node_id);
                },
                Event::SetCallState(node_id, state) => {
                    if state == CallState::Aborted {
                        self.calls.remove(&node_id);
                    } else {
                        self.calls.insert(node_id, state);
                    }
                },
            }
            next = next + 1;
        }
        assert(events@.take(next as int) =~= events@);
    }

    /// Returns the audio configuration that is chosen.
    pub fn audio_config(&self) -> (config: AudioConfig)
        ensures
            config.input_device == chosen_device(self.audio_config.selected_input),
            config.output_device == chosen_device(self.audio_config.selected_output),
            config.processing_enabled == self.audio_config.processing_enabled,
    {
        AudioConfig::from(&self.audio_config)
    }

    /// Returns what the screen for calls shows. The calls are listed in the order of their
    /// nodes.
    pub fn ui_section_call(&self) -> (section: CallSection)
        requires
            self.wf(),
        ensures
            match self.remote_node_id {
                None => section.remote is Nothing,
                Some(Ok(node_id)) => section.remote matches RemoteLine::Callable { label }
                    && label@ == node_label(node_id),
                Some(Err(reason)) => section.remote matches RemoteLine::Invalid { message }
                    && message@ == invalid_message(reason@),
            },
            match self.our_node_id {
                None => section.own is None,
                Some(node_id) => section.own matches Some(label) && label@ == node_label(node_id),
            },
            section.rows@.len() == self.calls.listed().len(),
            forall|i: int|
                0 <= i < section.rows@.len() ==> row_shows(
                    #[trigger] section.rows@[i],
                    self.calls.listed()[i].0,
                    self.calls.listed()[i].1,
                ),
    {
        let remote: RemoteLine = match &self.remote_node_id {
            None => RemoteLine::Nothing,
            Some(Ok(node_id)) => RemoteLine::Callable {
                label: fmt_node_id(node_id.fmt_short().as_str()),
            },
            Some(Err(reason)) => {
                let mut message: String = "Invalid node id: ".to_string();
                message.append(reason.as_str());
                RemoteLine::Invalid { message }
            },
        };
        let own: Option<String> = match self.our_node_id {
            None => None,
            Some(node_id) => Some(fmt_node_id(node_id.fmt_short().as_str())),
        };
        let mut rows: Vec<CallRow> = Vec::new();
        let mut next: usize = 0;
        while next < self.calls.len()
            invariant
                next <= self.calls.listed().len(),
                rows@.len() == next,
                forall|i: int|
                    0 <= i < next ==> row_shows(
                        #[trigger] rows@[i],
                        self.calls.listed()[i].0,
                        self.calls.listed()[i].1,
                    ),
            decreases self.calls.listed().len() - next,
        {
            let (node_id, state) = *self.calls.entry(next);
            rows.push(
                CallRow {
                    node_id,
                    label: fmt_node_id(node_id.fmt_short().as_str()),
                    state: state_name(state),
                    answerable: state == CallState::Incoming,
                },
            );
            next = next + 1;
        }
        CallSection { remote, own, rows }
    }

    /// Whether a call has buttons to accept and to decline it.
    pub open spec fn rings(self, node_id: NodeId) -> bool {
        self.calls@.contains_key(node_id@) && self.calls@[node_id@] == CallState::Incoming
    }

    /// Whether a call has a button to drop it.
    pub open spec fn can_drop(self, node_id: NodeId) -> bool {
        self.calls@.contains_key(node_id@) && self.calls@[node_id@] != CallState::Incoming
    }

    /// Reacts to a click on the screen for calls. A button that is not shown cannot be
    /// clicked, and nothing follows.
    pub fn click_call(&mut self, click: CallClick) -> (reaction: Reaction)
        requires
            old(self).wf(),
        ensures
            final(self).wf(),
            final(self).section == old(self).section,
            final(self).our_node_id == old(self).our_node_id,
            final(self).devices == old(self).devices,
            final(self).audio_config == old(self).audio_config,
            final(self).calls == old(self).calls,
            match click {
                CallClick::Paste(text) => {
                    &&& reaction is Nothing
                    &&& match final(self).remote_node_id {
                        None => false,
                        Some(Ok(node_id)) => {
                            &&& reads_as(text@, node_id@)
                            &&& reads_as(hex_of(node_id@), node_id@)
                            &&& forall|copied: NodeId|
                                text@ == #[trigger] hex_of(copied@) ==> node_id == copied
                        },
                        Some(Err(reason)) => is_no_key(text@, reason@),
                    }
                },
                _ => final(self).remote_node_id == old(self).remote_node_id,
            },
            match click {
                CallClick::Paste(_) => true,
                CallClick::Call => match old(self).remote_node_id {
                    Some(Ok(node_id)) => reaction == Reaction::Send(Command::Call { node_id }),
                    _ => reaction is Nothing,
                },
                CallClick::Copy => match old(self).our_node_id {
                    Some(node_id) => reaction matches Reaction::SetClipboard(text) && text@
                        == hex_of(node_id@),
                    None => reaction is Nothing,
                },
                CallClick::Accept(node_id) => reaction == if old(self).rings(node_id) {
                    Reaction::Send(Command::HandleIncoming { node_id, accept: true })
                } else {
                    Reaction::Nothing
                },
                CallClick::Decline(node_id) => reaction == if old(self).rings(node_id) {
                    Reaction::Send(Command::HandleIncoming { node_id, accept: false })
                } else {
                    Reaction::Nothing
                },
                CallClick::Drop(node_id) => reaction == if old(self).can_drop(node_id) {
                    Reaction::Send(Command::Abort { node_id })
                } else {
                    Reaction::Nothing
                },
            },
    {
        match click {
            CallClick::Paste(text) => {
                self.remote_node_id = Some(NodeId::from_text(text.as_str()));
                Reaction::Nothing
            },
            CallClick::Call => match &self.remote_node_id {
                Some(Ok(node_id)) => Reaction::Send(Command::Call { node_id: *node_id }),
                _ => Reaction::Nothing,
            },
            CallClick::Copy => match self.our_node_id {
                Some(node_id) => Reaction::SetClipboard(node_id.to_text()),
                None => Reaction::Nothing,
            },
            CallClick::Accept(node_id) => match self.calls.get(&node_id) {
                Some(CallState::Incoming) => Reaction::Send(
                    Command::HandleIncoming { node_id, accept: true },
                ),
                _ => Reaction::Nothing,
            },
            CallClick::Decline(node_id) => match self.calls.get(&node_id) {
                Some(CallState::Incoming) => Reaction::Send(
                    Command::HandleIncoming { node_id, accept: false },
                ),
                _ => Reaction::Nothing,
            },
            CallClick::Drop(node_id) => match self.calls.get(&node_id) {
                Some(CallState::Incoming) => Reaction::Nothing,
                Some(_) => Reaction::Send(Command::Abort { node_id }),
                None => Reaction::Nothing,
            },
        }
    }

    /// Returns what the screen for the settings shows.
    pub fn ui_section_config(&self) -> (section: ConfigSection)
        ensures
            offers(section.input@, self.devices.input@, self.audio_config.selected_input@),
            offers(section.output@, self.devices.output@, self.audio_config.selected_output@),
            section.processing_enabled == self.audio_config.processing_enabled,
    {
        ConfigSection {
            input: choices(&self.devices.input, &self.audio_config.selected_input),
            output: choices(&self.devices.output, &self.audio_config.selected_output),
            processing_enabled: self.audio_config.processing_enabled,
        }
    }

    /// Reacts to a click on the screen for the settings.
    pub fn click_config(&mut self, click: ConfigClick) -> (reaction: Reaction)
        ensures
            final(self).remote_node_id == old(self).remote_node_id,
            final(self).our_node_id == old(self).our_node_id,
            final(self).devices == old(self).devices,
            final(self).calls == old(self).calls,
            final(self).audio_config.selected_input@ == (match click {
                ConfigClick::Input(at) => choice_at(
                    old(self).devices.input@,
                    at,
                    old(self).audio_config.selected_input@,
                ),
                _ => old(self).audio_config.selected_input@,
            }),
            final(self).audio_config.selected_output@ == (match click {
                ConfigClick::Output(at) => choice_at(
                    old(self).devices.output@,
                    at,
                    old(self).audio_config.selected_output@,
                ),
                _ => old(self).audio_config.selected_output@,
            }),
            final(self).audio_config.processing_enabled == (match click {
                ConfigClick::Processing(enabled) => enabled,
                _ => old(self).audio_config.processing_enabled,
            }),
            match click {
                ConfigClick::Save => {
                    &&& final(self).section == UiSection::Main
                    &&& reaction matches Reaction::Send(Command::SetAudioConfig { audio_config })
                    &&& audio_config.input_device == chosen_device(
                        old(self).audio_config.selected_input,
                    )
                    &&& audio_config.output_device == chosen_device(
                        old(self).audio_config.selected_output,
                    )
                    &&& audio_config.processing_enabled
                        == old(self).audio_config.processing_enabled
                },
                _ => {
                    &&& final(self).section == old(self).section
                    &&& reaction is Nothing
                },
            },
    {
        match click {
            ConfigClick::Input(at) => {
                self.audio_config.selected_input = choice_of(
                    &self.devices.input,
                    at,
                    &self.audio_config.selected_input,
                );
                Reaction::Nothing
            },
            ConfigClick::Output(at) => {
                self.audio_config.selected_output = choice_of(
                    &self.devices.output,
                    at,
                    &self.audio_config.selected_output,
                );
                Reaction::Nothing
            },
            ConfigClick::Processing(enabled) => {
                self.audio_config.processing_enabled = enabled;
                Reaction::Nothing
            },
            ConfigClick::Save => {
                let audio_config: AudioConfig = self.audio_config();
                self.section = UiSection::Main;
                Reaction::Send(Command::SetAudioConfig { audio_config })
            },
        }
    }
}

/// The events among some actions of the worker.
pub open spec fn told(actions: Seq<Action>) -> Seq<Event>
    decreases actions.len(),
{
    if actions.len() == 0 {
        Seq::empty()
    } else {
        let before = told(actions.drop_last());
        match actions.last() {
            Action::Emit { event, .. } => before.push(event),
            _ => before,
        }
    }
}

/// The events that the worker on a node has sent after a series of inputs, from its start on.
pub open spec fn told_after_inputs(node_id: NodeId, inputs: Seq<Input>) -> Seq<Event>
    decreases inputs.len(),
{
    if inputs.len() == 0 {
        told(first_actions(node_id))
    } else {
        let worker = after_inputs(inputs.drop_last()).0;
        told_after_inputs(node_id, inputs.drop_last()) + told(worker.woken(inputs.last()).1)
    }
}

proof fn told_first(node_id: NodeId)
    ensures
        told(first_actions(node_id)) == seq![Event::EndpointBound(node_id)],
{
    let actions = first_actions(node_id);
    assert(actions.drop_last() =~= Seq::<Action>::empty());
    assert(told(actions.drop_last()) == Seq::<Event>::empty());
    assert(told(actions) =~= seq![Event::EndpointBound(node_id)]);
}

proof fn turns_tell_of_calls(worker: WorkerView, input: Input, at: int)
    requires
        0 <= at < told(worker.woken(input).1).len(),
    ensures
        told(worker.woken(input).1)[at] is SetCallState,
{
    let actions = worker.woken(input).1;
    told_are_emitted(actions, at);
}

proof fn told_are_emitted(actions: Seq<Action>, at: int)
    requires
        0 <= at < told(actions).len(),
    ensures
        exists|k: int|
            0 <= k < actions.len() && (#[trigger] actions[k] matches Action::Emit { event, .. }
                && event == told(actions)[at]),
    decreases actions.len(),
{
    let before = actions.drop_last();
    if at < told(before).len() {
        told_are_emitted(before, at);
        let k = choose|k: int|
            0 <= k < before.len() && (#[trigger] before[k] matches Action::Emit { event, .. }
                && event == told(before)[at]);
        assert(actions[k] == before[k]);
    } else {
        assert(actions[actions.len() - 1] == actions.last());
    }
}

/// The first thing that is told is which node we are, ahead of any call, and it is told once:
/// all that follows is about calls. So the screen knows our node from the first event on.
pub proof fn our_node_is_told_first(node_id: NodeId, inputs: Seq<Input>)
    ensures
        told_after_inputs(node_id, inputs).len() > 0,
        told_after_inputs(node_id, inputs)[0] == Event::EndpointBound(node_id),
        forall|i: int|
            0 < i < told_after_inputs(node_id, inputs).len() ==> #[trigger] told_after_inputs(
                node_id,
                inputs,
            )[i] is SetCallState,
    decreases inputs.len(),
{
    told_first(node_id);
    if inputs.len() > 0 {
        let before = inputs.drop_last();
        our_node_is_told_first(node_id, before);
        let worker = after_inputs(before).0;
        let earlier = told_after_inputs(node_id, before);
        let later = told(worker.woken(inputs.last()).1);
        assert forall|i: int| 0 < i < (earlier + later).len() implies #[trigger] (earlier
            + later)[i] is SetCallState by {
            if i >= earlier.len() {
                turns_tell_of_calls(worker, inputs.last(), i - earlier.len());
            }
        }
    }
}

/// It makes no difference over how many updates events arrive.
pub proof fn updates_may_be_split(
    shown: Map<Seq<u8>, CallState>,
    first: Seq<Event>,
    second: Seq<Event>,
)
    ensures
        shown_after_events(shown, first + second) == shown_after_events(
            shown_after_events(shown, first),
            second,
        ),
    decreases second.len(),
{
    if second.len() == 0 {
        assert(first + second =~= first);
    } else {
        assert((first + second).drop_last() =~= first + second.drop_last());
        updates_may_be_split(shown, first, second.drop_last());
    }
}

proof fn told_is_shown(shown: Map<Seq<u8>, CallState>, actions: Seq<Action>)
    ensures
        shown_after_events(shown, told(actions)) == shown_after_all(shown, actions),
    decreases actions.len(),
{
    if actions.len() > 0 {
        told_is_shown(shown, actions.drop_last());
        let before = told(actions.drop_last());
        if let Action::Emit { event, .. } = actions.last() {
            assert(before.push(event).drop_last() =~= before);
        }
    }
}

/// A screen that has taken in all that the worker has told since its start shows the
/// worker's calls as they are, provided that no answer was given to a call that is not
/// ringing.
pub proof fn screens_show_the_calls(node_id: NodeId, inputs: Seq<Input>)
    requires
        all_answerable(inputs),
    ensures
        shown_after_events(Map::empty(), told_after_inputs(node_id, inputs)) == states_of(
            after_inputs(inputs).0.calls,
        ),
    decreases inputs.len(),
{
    users_always_see_the_calls(inputs);
    if inputs.len() > 0 {
        let before = inputs.drop_last();
        screens_show_the_calls(node_id, before);
        users_always_see_the_calls(before);
        let (worker, shown) = after_inputs(before);
        let actions = worker.woken(inputs.last()).1;
        updates_may_be_split(Map::empty(), told_after_inputs(node_id, before), told(actions));
        told_is_shown(shown, actions);
    } else {
        told_first(node_id);
        let bound = told(first_actions(node_id));
        assert(bound.drop_last() =~= Seq::<Event>::empty());
        assert(shown_after_events(Map::empty(), bound.drop_last()) == Map::<
            Seq<u8>,
            CallState,
        >::empty());
    }
}

/// Each call on the screen has the buttons that something follows from: those to accept and
/// to decline it if it rings, else the one to drop it.
pub proof fn buttons_take_effect(state: AppState, at: int)
    requires
        state.wf(),
        0 <= at < state.calls.listed().len(),
    ensures
        state.rings(state.calls.listed()[at].0) == (state.calls.listed()[at].1
            == CallState::Incoming),
        state.can_drop(state.calls.listed()[at].0) == (state.calls.listed()[at].1
            != CallState::Incoming),
{
    entries_are_mapped(state.calls.listed(), at);
}

/// From a screen that shows the calls as they are, only calls that ring are answered.
pub proof fn screens_answer_ringing_calls(
    state: AppState,
    worker: WorkerView,
    node_id: NodeId,
    accept: bool,
)
    requires
        state.calls@ == states_of(worker.calls),
        state.rings(node_id),
    ensures
        worker.answerable(Input::Command(Command::HandleIncoming { node_id, accept })),
{
    assert(states_of(worker.calls)[node_id@] == state_of(worker.calls[node_id@]));
}

/// A device that is chosen from the list is the one that the configuration names, unless
/// it bears the name of the default.
pub proof fn chosen_devices_are_named(devices: Seq<String>, at: usize, current: Seq<char>, selected: String)
    requires
        0 < at <= devices.len(),
        devices[at - 1]@ != DEFAULT@,
        selected@ == choice_at(devices, at, current),
    ensures
        chosen_device(selected) matches Some(device) && device@ == devices[at - 1]@,
{
}

/// Events are taken in one by one, in order: each changes what the ones before it have left. Our
/// node is the one that was told last.
pub proof fn events_are_taken_in_order(
    shown: Map<Seq<u8>, CallState>,
    before: Option<NodeId>,
    events: Seq<Event>,
    event: Event,
    node_id: NodeId,
    state: CallState,
)
    ensures
        shown_after_events(shown, Seq::<Event>::empty()) == shown,
        shown_after_events(shown, events.push(event)) == shown_after(
            shown_after_events(shown, events),
            event,
        ),
        our_id_after(before, Seq::<Event>::empty()) == before,
        our_id_after(before, events.push(Event::EndpointBound(node_id))) == Some(node_id),
        our_id_after(before, events.push(Event::SetCallState(node_id, state))) == our_id_after(
            before,
            events,
        ),
{
    assert(events.push(event).drop_last() =~= events);
    assert(events.push(Event::EndpointBound(node_id)).drop_last() =~= events);
    assert(events.push(Event::SetCallState(node_id, state)).drop_last() =~= events);
}

/// The first choice of a list is the default, the others are the devices in order, and a click
/// beside the list changes nothing. The default names no device, and any other choice names the
/// device that it bears the name of.
pub proof fn choices_are_those_of_the_list(
    devices: Seq<String>,
    at: usize,
    current: Seq<char>,
    selected: String,
)
    ensures
        choice_at(devices, 0, current) == "<default>"@,
        0 < at <= devices.len() ==> choice_at(devices, at, current) == devices[at - 1]@,
        at > devices.len() ==> choice_at(devices, at, current) == current,
        selected@ == "<default>"@ ==> chosen_device(selected) is None,
        selected@ != "<default>"@ ==> chosen_device(selected) == Some(selected),
{
}

/// A list of choices shows the default and then each device, in order and by name, and marks
/// those that bear the selected name, and no others.
pub proof fn lists_mark_what_is_selected(
    choices: Seq<Choice>,
    devices: Seq<String>,
    selected: Seq<char>,
    at: int,
)
    requires
        offers(choices, devices, selected),
        0 <= at < choices.len(),
    ensures
        choices.len() == devices.len() + 1,
        choices[0].label@ == "<default>"@,
        at > 0 ==> choices[at].label@ == devices[at - 1]@,
        choices[at].selected <==> choices[at].label@ == selected,
{
}

/// A call is shown under the first five bytes of its node's identifier, marked as cut off, and by
/// the name of its state, and it can be answered exactly if it rings.
pub proof fn calls_are_shown_by_name(row: CallRow, node_id: NodeId, state: CallState)
    requires
        row_shows(row, node_id, state),
    ensures
        row.node_id == node_id,
        row.label@ == hex_of(node_id@.take(5)) + "…"@,
        row.answerable <==> state is Incoming,
        state is Incoming ==> row.state@ == "Incoming"@,
        state is Calling ==> row.state@ == "Calling"@,
        state is Active ==> row.state@ == "Active"@,
        state is Aborted ==> row.state@ == "Aborted"@,
{
}

/// The screen labels a node by its first five bytes, and says of a text that is no node
/// identifier that it is invalid, and why.
pub proof fn labels_say_what_they_stand_for(
    node_id: NodeId,
    reason: Seq<char>,
    state: AppState,
)
    ensures
        node_label(node_id) == hex_of(node_id@.take(5)) + "…"@,
        invalid_message(reason) == "Invalid node id: "@ + reason,
        state.rings(node_id) <==> state.calls@.contains_key(node_id@) && state.calls@[node_id@]
            is Incoming,
        state.can_drop(node_id) <==> state.calls@.contains_key(node_id@)
            && !(state.calls@[node_id@] is Incoming),
{
}

/// Of what the worker does, exactly the events are told, in order, whether or not the interface
/// is woken for them.
pub proof fn events_are_told_in_order(
    actions: Seq<Action>,
    action: Action,
    event: Event,
    notify: bool,
)
    ensures
        told(Seq::<Action>::empty()).len() == 0,
        told(actions.push(Action::Emit { event, notify })) == told(actions).push(event),
        !(action is Emit) ==> told(actions.push(action)) == told(actions),
{
    assert(actions.push(Action::Emit { event, notify }).drop_last() =~= actions);
    assert(actions.push(action).drop_last() =~= actions);
}

/// A configuration has the devices and the echo cancellation that were chosen: each direction its
/// own device, and none where the default was chosen.
pub proof fn settings_become_the_configuration(settings: &UiAudioConfig, config: AudioConfig)
    requires
        config == <AudioConfig as vstd::std_specs::convert::FromSpec<&UiAudioConfig>>::from_spec(
            settings,
        ),
    ensures
        config.input_device is None <==> settings.selected_input@ == "<default>"@,
        config.input_device matches Some(device) ==> device == settings.selected_input,
        config.output_device is None <==> settings.selected_output@ == "<default>"@,
        config.output_device matches Some(device) ==> device == settings.selected_output,
        config.processing_enabled == settings.processing_enabled,
{
}

/// The screen for calls says what can be called, which node is ours, and lists every call once, in
/// order, each with its own node.
pub proof fn screens_list_every_call(state: &AppState, section: CallSection, at: int)
    requires
        call_ensures(AppState::ui_section_call, (state,), section),
        0 <= at < section.rows@.len(),
    ensures
        section.rows@.len() == state.calls.listed().len(),
        section.rows@[at].node_id == state.calls.listed()[at].0,
        section.rows@[at].answerable <==> state.calls.listed()[at].1 is Incoming,
        section.remote is Callable <==> (state.remote_node_id matches Some(read) && read is Ok),
        section.remote is Invalid <==> (state.remote_node_id matches Some(read) && read is Err),
        section.own is Some <==> state.our_node_id is Some,
{
    assert(row_shows(
        section.rows@[at],
        state.calls.listed()[at].0,
        state.calls.listed()[at].1,
    ));
}

/// The screen for the settings offers the inputs to record from and the outputs to play on, and
/// shows whether processing is on.
pub proof fn screens_offer_each_direction(state: &AppState, section: ConfigSection, at: int)
    requires
        call_ensures(AppState::ui_section_config, (state,), section),
    ensures
        0 < at < section.input@.len() ==> section.input@[at].label@ == state.devices.input@[at
            - 1]@,
        0 < at < section.output@.len() ==> section.output@[at].label@ == state.devices.output@[at
            - 1]@,
        section.input@.len() == state.devices.input@.len() + 1,
        section.output@.len() == state.devices.output@.len() + 1,
        section.processing_enabled == state.audio_config.processing_enabled,
{
}

} // verus!
