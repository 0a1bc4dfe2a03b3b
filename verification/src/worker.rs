//! The life of calls: which there are, what their users are told of them, and what is to
//! be done for them.
//!
//! The worker decides. Its caller performs the actions in order, and stops with the first
//! one that fails.

use vstd::prelude::*;

use crate::audio::AudioConfig;
use crate::call_table::CallTable;
use crate::node_id::NodeId;

verus! {

/// The state of a call, as users see it.
#[derive(Debug, Clone, Copy, PartialEq, Eq, Structural)]
pub enum CallState {
    Incoming,
    Calling,
    Active,
    Aborted,
}

/// A connection: the handle that the caller keeps it under, and the identifier of the
/// remote node where the connection has one.
#[derive(Debug, Clone, Copy)]
pub struct Connection {
    pub handle: u64,
    pub remote: Option<NodeId>,
}

/// A call that is under way.
#[derive(Debug, Clone, Copy)]
pub enum CallInfo {
    /// We are connecting to the node.
    Calling,
    /// The node has connected to us and waits for an answer.
    Incoming(Connection),
    /// Audio runs in both directions.
    Active(Connection),
}

/// What users are told.
#[derive(Debug, Clone, Copy)]
pub enum Event {
    EndpointBound(NodeId),
    SetCallState(NodeId, CallState),
}

/// What users ask for.
#[derive(Debug)]
pub enum Command {
    SetUpdateCallback,
    SetAudioConfig { audio_config: AudioConfig },
    Call { node_id: NodeId },
    HandleIncoming { node_id: NodeId, accept: bool },
    Abort { node_id: NodeId },
}

/// Why the worker gives up what it was about to do.
#[derive(Debug, Clone, Copy, PartialEq, Eq, Structural)]
pub enum Failure {
    /// The connection does not tell which node is at its other end.
    NoRemoteNodeId,
    /// No audio devices have been set up.
    MissingAudioContext,
    /// The audio devices could not be set up.
    AudioContextFailed,
}

/// What is to be done.
#[derive(Debug)]
pub enum Action {
    /// Send the event, then call the update callback if `notify` is set.
    Emit { event: Event, notify: bool },
    /// Set up the audio devices and report back.
    CreateAudioContext { audio_config: AudioConfig },
    /// Connect to the node, wait for its first track and report back.
    Connect { node_id: NodeId },
    /// Run a call over the connection. Start by playing the track, if there is one.
    StartCall { node_id: NodeId, handle: u64, track: Option<u64> },
    /// Close the connection.
    Close { handle: u64 },
    /// Report the failure.
    Fail(Failure),
}

/// A connection that was made, with its first track.
#[derive(Debug, Clone, Copy)]
pub struct Connected {
    pub connection: Connection,
    pub track: u64,
}

/// What a worker is woken up by.
#[derive(Debug)]
pub enum Input {
    /// A user asks for something.
    Command(Command),
    /// Nobody is left to ask for anything.
    CommandsClosed,
    /// A node has connected to us.
    Incoming(Connection),
    /// No node will connect to us any more.
    IncomingEnded,
    /// Waiting for nodes to connect to us has failed.
    IncomingFailed,
    /// The call with a node has ended.
    CallEnded(NodeId),
    /// Connecting to a node has ended.
    ConnectEnded(NodeId, Option<Connected>),
    /// Setting up the audio devices has ended.
    AudioContextCreated(bool),
}

/// What a worker does when it is woken up.
#[derive(Debug)]
pub enum Turn {
    /// Perform the actions. When one fails, warn and go on.
    Try(Vec<Action>),
    /// Perform the actions. When one fails, stop with the failure.
    Must(Vec<Action>),
    /// Stop.
    Stop,
    /// Stop with the failure.
    Fail,
}

/// The calls under way, and what has been set up.
pub struct Worker {
    pub active_calls: CallTable<CallInfo>,
    pub audio_context: bool,
    pub update_callback: bool,
}

/// The state of a worker.
#[verifier::ext_equal]
pub struct WorkerView {
    pub calls: Map<Seq<u8>, CallInfo>,
    pub audio: bool,
    pub notify: bool,
}

/// The state of a worker that has just been made.
pub open spec fn fresh_worker() -> WorkerView {
    WorkerView { calls: Map::empty(), audio: false, notify: false }
}

/// What a worker on the given node does before all else.
pub open spec fn first_actions(node_id: NodeId) -> Seq<Action> {
    seq![Action::Emit { event: Event::EndpointBound(node_id), notify: false }]
}

impl View for Worker {
    type V = WorkerView;

    open spec fn view(&self) -> WorkerView {
        WorkerView {
            calls: self.active_calls@,
            audio: self.audio_context,
            notify: self.update_callback,
        }
    }
}

impl WorkerView {
    /// The action that tells users of a call's state.
    pub open spec fn tell(self, node_id: NodeId, state: CallState) -> Action {
        Action::Emit { event: Event::SetCallState(node_id, state), notify: self.notify }
    }

    /// The worker with the call of a node set.
    pub open spec fn with_call(self, node_id: NodeId, info: CallInfo) -> WorkerView {
        WorkerView { calls: self.calls.insert(node_id@, info), ..self }
    }

    /// The worker without the call of a node.
    pub open spec fn without_call(self, node_id: NodeId) -> WorkerView {
        WorkerView { calls: self.calls.remove(node_id@), ..self }
    }

    /// What follows when a call becomes active over a connection: the call is entered under
    /// the connection's remote node, users are told, and it is started if there is audio.
    pub open spec fn activated(
        self,
        connection: Connection,
        track: Option<u64>,
    ) -> (WorkerView, Seq<Action>) {
        match connection.remote {
            None => (self, seq![Action::Fail(Failure::NoRemoteNodeId)]),
            Some(node_id) => (
                self.with_call(node_id, CallInfo::Active(connection)),
                seq![
                    self.tell(node_id, CallState::Active),
                    if self.audio {
                        Action::StartCall { node_id, handle: connection.handle, track }
                    } else {
                        Action::Fail(Failure::MissingAudioContext)
                    },
                ],
            ),
        }
    }

    /// What follows from a command.
    pub open spec fn commanded(self, command: Command) -> (WorkerView, Seq<Action>) {
        match command {
            Command::SetUpdateCallback => (WorkerView { notify: true, ..self }, Seq::empty()),
            Command::SetAudioConfig { audio_config } => (
                self,
                seq![Action::CreateAudioContext { audio_config }],
            ),
            Command::Call { node_id } => if self.calls.contains_key(node_id@) {
                (self, Seq::empty())
            } else {
                (
                    self.with_call(node_id, CallInfo::Calling),
                    seq![self.tell(node_id, CallState::Calling), Action::Connect { node_id }],
                )
            },
            Command::HandleIncoming { node_id, accept } => if !self.calls.contains_key(node_id@) {
                (self, Seq::empty())
            } else {
                match self.calls[node_id@] {
                    CallInfo::Incoming(connection) => if accept {
                        self.without_call(node_id).activated(connection, None)
                    } else {
                        (
                            self.without_call(node_id),
                            seq![
                                Action::Close { handle: connection.handle },
                                self.tell(node_id, CallState::Aborted),
                            ],
                        )
                    },
                    _ => (self.without_call(node_id), Seq::empty()),
                }
            },
            Command::Abort { node_id } => if !self.calls.contains_key(node_id@) {
                (self, Seq::empty())
            } else {
                (
                    self.without_call(node_id),
                    match self.calls[node_id@] {
                        CallInfo::Calling => seq![self.tell(node_id, CallState::Aborted)],
                        CallInfo::Active(connection) => seq![
                            Action::Close { handle: connection.handle },
                            self.tell(node_id, CallState::Aborted),
                        ],
                        CallInfo::Incoming(connection) => seq![
                            Action::Close { handle: connection.handle },
                            self.tell(node_id, CallState::Aborted),
                        ],
                    },
                )
            },
        }
    }

    /// What follows when a node has connected to us.
    pub open spec fn rung(self, connection: Connection) -> (WorkerView, Seq<Action>) {
        match connection.remote {
            None => (self, seq![Action::Fail(Failure::NoRemoteNodeId)]),
            Some(node_id) => (
                self.with_call(node_id, CallInfo::Incoming(connection)),
                seq![self.tell(node_id, CallState::Incoming)],
            ),
        }
    }

    /// What follows when connecting to a node has ended.
    pub open spec fn connected(
        self,
        node_id: NodeId,
        result: Option<Connected>,
    ) -> (WorkerView, Seq<Action>) {
        match result {
            Some(made) => self.activated(made.connection, Some(made.track)),
            None => self.ended(node_id),
        }
    }

    /// What follows when the setting up of the audio devices has ended.
    pub open spec fn equipped(self, created: bool) -> (WorkerView, Seq<Action>) {
        (
            WorkerView { audio: self.audio || created, ..self },
            if created {
                Seq::empty()
            } else {
                seq![Action::Fail(Failure::AudioContextFailed)]
            },
        )
    }

    /// What follows from an input.
    pub open spec fn woken(self, input: Input) -> (WorkerView, Seq<Action>) {
        match input {
            Input::Command(command) => self.commanded(command),
            Input::Incoming(connection) => self.rung(connection),
            Input::CallEnded(node_id) => self.ended(node_id),
            Input::ConnectEnded(node_id, result) => self.connected(node_id, result),
            Input::AudioContextCreated(created) => self.equipped(created),
            _ => (self, Seq::empty()),
        }
    }

    /// What follows when the call with a node has ended.
    pub open spec fn ended(self, node_id: NodeId) -> (WorkerView, Seq<Action>) {
        (self.without_call(node_id), seq![self.tell(node_id, CallState::Aborted)])
    }
}

impl Worker {
    /// The table of calls is in order.
    pub open spec fn wf(self) -> bool {
        self.active_calls.wf()
    }

    /// Makes a worker without calls on the given node. Before all else, users are told which
    /// node that is.
    pub fn start(node_id: NodeId) -> (started: (Self, Vec<Action>))
        ensures
            started.0.wf(),
            started.0@ == fresh_worker(),
            started.1@ == first_actions(node_id),
    {
        let worker: Worker = Worker {
            active_calls: CallTable::new(),
            audio_context: false,
            update_callback: false,
        };
        let mut actions: Vec<Action> = Vec::new();
        actions.push(worker.emit(Event::EndpointBound(node_id)));
        (worker, actions)
    }

    fn emit(&self, event: Event) -> (action: Action)
        ensures
            action == (Action::Emit { event, notify: self.update_callback }),
    {
        Action::Emit { event, notify: self.update_callback }
    }

    /// A node has connected to us.
    pub fn handle_incoming(&mut self, connection: Connection) -> (actions: Vec<Action>)
        requires
            old(self).wf(),
        ensures
            final(self).wf(),
            (final(self)@, actions@) == old(self)@.rung(connection),
    {
        let mut actions: Vec<Action> = Vec::new();
        match connection.remote {
            Some(node_id) => {
                self.active_calls.insert(node_id, CallInfo::Incoming(connection));
                actions.push(self.emit(Event::SetCallState(node_id, CallState::Incoming)));
            },
            None => {
                actions.push(Action::Fail(Failure::NoRemoteNodeId));
            },
        }
        actions
    }

    /// Connecting to a node has ended, with a connection and its first track or without.
    pub fn handle_connected(&mut self, node_id: NodeId, result: Option<Connected>) -> (actions: Vec<
        Action,
    >)
        requires
            old(self).wf(),
        ensures
            final(self).wf(),
            (final(self)@, actions@) == old(self)@.connected(node_id, result),
    {
        match result {
            Some(made) => self.accept_from_connect(made.connection, made.track),
            None => self.call_ended(node_id),
        }
    }

    fn accept_from_connect(&mut self, connection: Connection, track: u64) -> (actions: Vec<Action>)
        requires
            old(self).wf(),
        ensures
            final(self).wf(),
            (final(self)@, actions@) == old(self)@.activated(connection, Some(track)),
    {
        self.activate(connection, Some(track))
    }

    fn accept_from_accept(&mut self, connection: Connection) -> (actions: Vec<Action>)
        requires
            old(self).wf(),
        ensures
            final(self).wf(),
            (final(self)@, actions@) == old(self)@.activated(connection, None),
    {
        self.activate(connection, None)
    }

    fn activate(&mut self, connection: Connection, track: Option<u64>) -> (actions: Vec<Action>)
        requires
            old(self).wf(),
        ensures
            final(self).wf(),
            (final(self)@, actions@) == old(self)@.activated(connection, track),
    {
        let mut actions: Vec<Action> = Vec::new();
        match connection.remote {
            Some(node_id) => {
                self.active_calls.insert(node_id, CallInfo::Active(connection));
                actions.push(self.emit(Event::SetCallState(node_id, CallState::Active)));
                if self.audio_context {
                    actions.push(Action::StartCall { node_id, handle: connection.handle, track });
                } else {
                    actions.push(Action::Fail(Failure::MissingAudioContext));
                }
            },
            None => {
                actions.push(Action::Fail(Failure::NoRemoteNodeId));
            },
        }
        actions
    }

    /// The call with a node has ended.
    pub fn call_ended(&mut self, node_id: NodeId) -> (actions: Vec<Action>)
        requires
            old(self).wf(),
        ensures
            final(self).wf(),
            (final(self)@, actions@) == old(self)@.ended(node_id),
    {
        let mut actions: Vec<Action> = Vec::new();
        self.active_calls.remove(&node_id);
        actions.push(self.emit(Event::SetCallState(node_id, CallState::Aborted)));
        actions
    }

    /// Setting up the audio devices has ended. Where it failed, the devices that were set
    /// up before stay in use.
    pub fn audio_context_created(&mut self, created: bool) -> (actions: Vec<Action>)
        requires
            old(self).wf(),
        ensures
            final(self).wf(),
            (final(self)@, actions@) == old(self)@.equipped(created),
    {
        let mut actions: Vec<Action> = Vec::new();
        if created {
            self.audio_context = true;
        } else {
            actions.push(Action::Fail(Failure::AudioContextFailed));
        }
        actions
    }

    /// Carries out a command.
    pub fn handle_command(&mut self, command: Command) -> (actions: Vec<Action>)
        requires
            old(self).wf(),
        ensures
            final(self).wf(),
            (final(self)@, actions@) == old(self)@.commanded(command),
    {
        let mut actions: Vec<Action> = Vec::new();
        match command {
            Command::SetUpdateCallback => {
                self.update_callback = true;
            },
            Command::SetAudioConfig { audio_config } => {
                actions.push(Action::CreateAudioContext { audio_config });
            },
            Command::Call { node_id } => {
                if self.active_calls.contains_key(&node_id) {
                    return actions;
                }
                self.active_calls.insert(node_id, CallInfo::Calling);
                actions.push(self.emit(Event::SetCallState(node_id, CallState::Calling)));
                actions.push(Action::Connect { node_id });
            },
            Command::HandleIncoming { node_id, accept } => {
                match self.active_calls.remove(&node_id) {
                    Some(CallInfo::Incoming(connection)) => {
                        if accept {
                            return self.accept_from_accept(connection);
                        }
                        actions.push(Action::Close { handle: connection.handle });
                        actions.push(self.emit(Event::SetCallState(node_id, CallState::Aborted)));
                    },
                    Some(_) => {},
                    None => {
                        assert(old(self)@.calls.remove(node_id@) =~= old(self)@.calls);
                    },
                }
            },
            Command::Abort { node_id } => {
                match self.active_calls.remove(&node_id) {
                    Some(info) => {
                        match info {
                            CallInfo::Calling => {},
                            CallInfo::Active(connection) => {
                                actions.push(Action::Close { handle: connection.handle });
                            },
                            CallInfo::Incoming(connection) => {
                                actions.push(Action::Close { handle: connection.handle });
                            },
                        }
                        actions.push(self.emit(Event::SetCallState(node_id, CallState::Aborted)));
                    },
                    None => {
                        assert(old(self)@.calls.remove(node_id@) =~= old(self)@.calls);
                    },
                }
            },
        }
        actions
    }

    /// Decides what is done when the worker is woken up. A command that fails is given up;
    /// any other failure, and the end of what can wake the worker up, ends it.
    pub fn run(&mut self, input: Input) -> (turn: Turn)
        requires
            old(self).wf(),
        ensures
            final(self).wf(),
            final(self)@ == old(self)@.woken(input).0,
            match input {
                Input::Command(_) | Input::AudioContextCreated(_) => turn matches Turn::Try(actions)
                    && actions@ == old(self)@.woken(input).1,
                Input::Incoming(_) | Input::CallEnded(_) | Input::ConnectEnded(_, _) => turn
                    matches Turn::Must(actions) && actions@ == old(self)@.woken(input).1,
                Input::IncomingEnded => turn is Stop,
                Input::CommandsClosed | Input::IncomingFailed => turn is Fail,
            },
    {
        match input {
            Input::Command(command) => Turn::Try(self.handle_command(command)),
            Input::CommandsClosed => Turn::Fail,
            Input::Incoming(connection) => Turn::Must(self.handle_incoming(connection)),
            Input::IncomingEnded => Turn::Stop,
            Input::IncomingFailed => Turn::Fail,
            Input::CallEnded(node_id) => Turn::Must(self.call_ended(node_id)),
            Input::ConnectEnded(node_id, result) => Turn::Must(
                self.handle_connected(node_id, result),
            ),
            Input::AudioContextCreated(created) => Turn::Try(self.audio_context_created(created)),
        }
    }
}

/// A step of a call that runs. The call ends where one fails.
#[derive(Debug, Clone, Copy, PartialEq, Eq, Structural)]
pub enum CallStep {
    /// Play a track.
    PlayTrack(u64),
    /// Send what is recorded.
    SendCapture,
    /// Play each track that the remote node opens, until it opens no more.
    PlayRemoteTracks,
    /// Leave each track that the remote node opens, until it opens no more.
    LeaveRemoteTracks,
}

/// Returns the steps of a call, in order. The side that has connected plays the track that
/// it has received, and the other side whatever tracks it will receive.
pub fn call_steps(track: Option<u64>) -> (steps: Vec<CallStep>)
    ensures
        steps@ == (match track {
            Some(track) => seq![
                CallStep::PlayTrack(track),
                CallStep::SendCapture,
                CallStep::LeaveRemoteTracks,
            ],
            None => seq![CallStep::SendCapture, CallStep::PlayRemoteTracks],
        }),
{
    let mut steps: Vec<CallStep> = Vec::new();
    match track {
        Some(track) => {
            steps.push(CallStep::PlayTrack(track));
            steps.push(CallStep::SendCapture);
            steps.push(CallStep::LeaveRemoteTracks);
        },
        None => {
            steps.push(CallStep::SendCapture);
            steps.push(CallStep::PlayRemoteTracks);
        },
    }
    steps
}

/// The calls that users see after an event.
pub open spec fn shown_after(shown: Map<Seq<u8>, CallState>, event: Event) -> Map<
    Seq<u8>,
    CallState,
> {
    match event {
        Event::EndpointBound(_) => shown,
        Event::SetCallState(node_id, CallState::Aborted) => shown.remove(node_id@),
        Event::SetCallState(node_id, state) => shown.insert(node_id@, state),
    }
}

/// The calls that users see after the events among some actions.
pub open spec fn shown_after_all(shown: Map<Seq<u8>, CallState>, actions: Seq<Action>) -> Map<
    Seq<u8>,
    CallState,
>
    decreases actions.len(),
{
    if actions.len() == 0 {
        shown
    } else {
        let before = shown_after_all(shown, actions.drop_last());
        match actions.last() {
            Action::Emit { event, .. } => shown_after(before, event),
            _ => before,
        }
    }
}

/// The state that users see of a call.
pub open spec fn state_of(info: CallInfo) -> CallState {
    match info {
        CallInfo::Calling => CallState::Calling,
        CallInfo::Incoming(_) => CallState::Incoming,
        CallInfo::Active(_) => CallState::Active,
    }
}

/// The states of calls.
pub open spec fn states_of(calls: Map<Seq<u8>, CallInfo>) -> Map<Seq<u8>, CallState> {
    calls.map_values(|info: CallInfo| state_of(info))
}

impl WorkerView {
    /// Each call that has a connection is entered under the node at its other end.
    pub open spec fn keyed(self) -> bool {
        forall|id: Seq<u8>| #[trigger]
            self.calls.contains_key(id) ==> match self.calls[id] {
                CallInfo::Calling => true,
                CallInfo::Incoming(connection) => connection.remote matches Some(node_id)
                    && node_id@ == id,
                CallInfo::Active(connection) => connection.remote matches Some(node_id)
                    && node_id@ == id,
            }
    }

    /// An answer to a call answers one that is ringing, or none at all.
    pub open spec fn answerable(self, input: Input) -> bool {
        match input {
            Input::Command(Command::HandleIncoming { node_id, .. }) => self.calls.contains_key(
                node_id@,
            ) ==> self.calls[node_id@] is Incoming,
            _ => true,
        }
    }
}

/// Whatever wakes a worker up, each call stays entered under the node at its other end.
pub proof fn calls_stay_keyed(worker: WorkerView, input: Input)
    requires
        worker.keyed(),
    ensures
        worker.woken(input).0.keyed(),
{
}

proof fn shown_after_two(shown: Map<Seq<u8>, CallState>, first: Action, second: Action)
    ensures
        shown_after_all(shown, seq![first]) == (match first {
            Action::Emit { event, .. } => shown_after(shown, event),
            _ => shown,
        }),
        shown_after_all(shown, seq![first, second]) == (match second {
            Action::Emit { event, .. } => shown_after(shown_after_all(shown, seq![first]), event),
            _ => shown_after_all(shown, seq![first]),
        }),
{
    assert(seq![first].drop_last() =~= Seq::<Action>::empty());
    assert(seq![first, second].drop_last() =~= seq![first]);
    assert(shown_after_all(shown, Seq::<Action>::empty()) == shown);
}

/// Users see the calls as they are: where what they see agrees with the calls of a worker,
/// it still does after the worker was woken up and they were told all that it tells. Not
/// so where an answer is given to a call that is not ringing: that call is forgotten, and
/// nobody is told.
pub proof fn users_see_the_calls(
    worker: WorkerView,
    input: Input,
    shown: Map<Seq<u8>, CallState>,
)
    requires
        worker.keyed(),
        worker.answerable(input),
        shown == states_of(worker.calls),
    ensures
        shown_after_all(shown, worker.woken(input).1) == states_of(worker.woken(input).0.calls),
{
    let (after, actions) = worker.woken(input);
    assert(shown_after_all(shown, Seq::<Action>::empty()) == shown);
    if actions.len() == 1 {
        assert(actions =~= seq![actions[0]]);
        shown_after_two(shown, actions[0], actions[0]);
    } else if actions.len() == 2 {
        assert(actions =~= seq![actions[0], actions[1]]);
        shown_after_two(shown, actions[0], actions[1]);
    } else {
        assert(actions =~= Seq::<Action>::empty());
    }
    assert(shown_after_all(shown, actions) =~= states_of(after.calls));
}

/// The worker after a series of inputs, and what users see then.
pub open spec fn after_inputs(inputs: Seq<Input>) -> (WorkerView, Map<Seq<u8>, CallState>)
    decreases inputs.len(),
{
    if inputs.len() == 0 {
        (fresh_worker(), Map::empty())
    } else {
        let (worker, shown) = after_inputs(inputs.drop_last());
        let (woken, actions) = worker.woken(inputs.last());
        (woken, shown_after_all(shown, actions))
    }
}

/// Whether no input of a series answers a call that is not ringing.
pub open spec fn all_answerable(inputs: Seq<Input>) -> bool
    decreases inputs.len(),
{
    inputs.len() == 0 || {
        &&& all_answerable(inputs.drop_last())
        &&& after_inputs(inputs.drop_last()).0.answerable(inputs.last())
    }
}

/// From the start on, users see the calls as they are.
pub proof fn users_always_see_the_calls(inputs: Seq<Input>)
    requires
        all_answerable(inputs),
    ensures
        after_inputs(inputs).0.keyed(),
        after_inputs(inputs).1 == states_of(after_inputs(inputs).0.calls),
    decreases inputs.len(),
{
    if inputs.len() == 0 {
        assert(states_of(Map::<Seq<u8>, CallInfo>::empty()) =~= Map::<Seq<u8>, CallState>::empty());
    } else {
        users_always_see_the_calls(inputs.drop_last());
        let (worker, shown) = after_inputs(inputs.drop_last());
        calls_stay_keyed(worker, inputs.last());
        users_see_the_calls(worker, inputs.last(), shown);
    }
}

/// A call becomes active when connecting to its node has succeeded, and when it rings and is
/// accepted. With audio it is then started over its connection, with the track that was
/// received first if there is one, after users were told; it makes no difference whether they
/// are notified. Without audio that is reported in place of the start.
pub proof fn active_calls_are_started(
    worker: WorkerView,
    called: NodeId,
    made: Connected,
    node_id: NodeId,
)
    requires
        made.connection.remote == Some(node_id),
    ensures
        ({
            let (after, actions) = worker.woken(Input::ConnectEnded(called, Some(made)));
            &&& actions.len() == 2
            &&& actions[0] == (Action::Emit {
                event: Event::SetCallState(node_id, CallState::Active),
                notify: worker.notify,
            })
            &&& worker.audio ==> actions[1] == (Action::StartCall {
                node_id,
                handle: made.connection.handle,
                track: Some(made.track),
            })
            &&& !worker.audio ==> actions[1] == Action::Fail(Failure::MissingAudioContext)
            &&& after.calls == worker.calls.insert(node_id@, CallInfo::Active(made.connection))
            &&& after.audio == worker.audio
            &&& after.notify == worker.notify
        }),
        worker.calls.contains_key(called@) && worker.calls[called@] == CallInfo::Incoming(
            made.connection,
        ) ==> {
            let (after, actions) = worker.woken(
                Input::Command(Command::HandleIncoming { node_id: called, accept: true }),
            );
            &&& actions.len() == 2
            &&& actions[0] == (Action::Emit {
                event: Event::SetCallState(node_id, CallState::Active),
                notify: worker.notify,
            })
            &&& worker.audio ==> actions[1] == (Action::StartCall {
                node_id,
                handle: made.connection.handle,
                track: None,
            })
            &&& !worker.audio ==> actions[1] == Action::Fail(Failure::MissingAudioContext)
            &&& after.calls == worker.calls.remove(called@).insert(
                node_id@,
                CallInfo::Active(made.connection),
            )
            &&& after.audio == worker.audio
            &&& after.notify == worker.notify
        },
{
}

/// A connection that does not tell its node makes no call active and rings nowhere: that is
/// reported, and nothing else. A call that was accepted over it is gone.
pub proof fn nameless_connections_are_reported(
    worker: WorkerView,
    called: NodeId,
    made: Connected,
)
    requires
        made.connection.remote is None,
    ensures
        worker.woken(Input::ConnectEnded(called, Some(made))).0 == worker,
        worker.woken(Input::ConnectEnded(called, Some(made))).1 == seq![
            Action::Fail(Failure::NoRemoteNodeId),
        ],
        worker.woken(Input::Incoming(made.connection)).0 == worker,
        worker.woken(Input::Incoming(made.connection)).1 == seq![
            Action::Fail(Failure::NoRemoteNodeId),
        ],
        worker.calls.contains_key(called@) && worker.calls[called@] == CallInfo::Incoming(
            made.connection,
        ) ==> {
            let (after, actions) = worker.woken(
                Input::Command(Command::HandleIncoming { node_id: called, accept: true }),
            );
            &&& actions == seq![Action::Fail(Failure::NoRemoteNodeId)]
            &&& after.calls == worker.calls.remove(called@)
        },
{
}

/// Calling a node enters the call, tells users and connects, in this order, once: a node with
/// which there is a call already is not called again.
pub proof fn nodes_are_called_once(worker: WorkerView, node_id: NodeId)
    ensures
        ({
            let (after, actions) = worker.woken(Input::Command(Command::Call { node_id }));
            if worker.calls.contains_key(node_id@) {
                after == worker && actions.len() == 0
            } else {
                &&& after.calls == worker.calls.insert(node_id@, CallInfo::Calling)
                &&& after.audio == worker.audio
                &&& after.notify == worker.notify
                &&& actions.len() == 2
                &&& actions[0] == (Action::Emit {
                    event: Event::SetCallState(node_id, CallState::Calling),
                    notify: worker.notify,
                })
                &&& actions[1] == (Action::Connect { node_id })
            }
        }),
{
}

/// A node that has connected to us rings: the call is entered with its connection, and users
/// are told, and nothing else is done.
pub proof fn incoming_calls_ring(worker: WorkerView, connection: Connection, node_id: NodeId)
    requires
        connection.remote == Some(node_id),
    ensures
        ({
            let (after, actions) = worker.woken(Input::Incoming(connection));
            &&& after.calls == worker.calls.insert(node_id@, CallInfo::Incoming(connection))
            &&& after.audio == worker.audio
            &&& after.notify == worker.notify
            &&& actions.len() == 1
            &&& actions[0] == (Action::Emit {
                event: Event::SetCallState(node_id, CallState::Incoming),
                notify: worker.notify,
            })
        }),
{
}

/// A call that has ended, and one that could not be connected, is gone, and users are told so.
pub proof fn ended_calls_are_gone(worker: WorkerView, node_id: NodeId)
    ensures
        worker.woken(Input::CallEnded(node_id)) == worker.woken(Input::ConnectEnded(node_id, None)),
        ({
            let (after, actions) = worker.woken(Input::CallEnded(node_id));
            &&& after.calls == worker.calls.remove(node_id@)
            &&& after.audio == worker.audio
            &&& after.notify == worker.notify
            &&& actions.len() == 1
            &&& actions[0] == (Action::Emit {
                event: Event::SetCallState(node_id, CallState::Aborted),
                notify: worker.notify,
            })
        }),
{
}

/// A call that is aborted, and one that is declined, is gone; its connection is closed before
/// users are told, and nothing else is done. Where there is no call, nothing is done.
pub proof fn aborting_closes_and_tells(worker: WorkerView, node_id: NodeId, accept: bool)
    ensures
        ({
            let (after, actions) = worker.woken(Input::Command(Command::Abort { node_id }));
            let told = Action::Emit {
                event: Event::SetCallState(node_id, CallState::Aborted),
                notify: worker.notify,
            };
            &&& after.calls == worker.calls.remove(node_id@)
            &&& after.audio == worker.audio
            &&& after.notify == worker.notify
            &&& !worker.calls.contains_key(node_id@) ==> actions.len() == 0
            &&& worker.calls.contains_key(node_id@) ==> match worker.calls[node_id@] {
                CallInfo::Calling => actions.len() == 1 && actions[0] == told,
                CallInfo::Incoming(connection) | CallInfo::Active(connection) => {
                    &&& actions.len() == 2
                    &&& actions[0] == (Action::Close { handle: connection.handle })
                    &&& actions[1] == told
                },
            }
        }),
        ({
            let (after, actions) = worker.woken(
                Input::Command(Command::HandleIncoming { node_id, accept: false }),
            );
            &&& after.calls == worker.calls.remove(node_id@)
            &&& worker.calls.contains_key(node_id@) ==> (worker.calls[node_id@] matches
                CallInfo::Incoming(connection) ==> {
                &&& actions.len() == 2
                &&& actions[0] == (Action::Close { handle: connection.handle })
                &&& actions[1] == (Action::Emit {
                    event: Event::SetCallState(node_id, CallState::Aborted),
                    notify: worker.notify,
                })
            })
        }),
        !(worker.calls.contains_key(node_id@) && worker.calls[node_id@] is Incoming) ==> {
            let (after, actions) = worker.woken(
                Input::Command(Command::HandleIncoming { node_id, accept }),
            );
            &&& actions.len() == 0
            &&& after.calls == worker.calls.remove(node_id@)
            &&& after.audio == worker.audio
            &&& after.notify == worker.notify
        },
{
    assert(!worker.calls.contains_key(node_id@) ==> worker.calls.remove(node_id@)
        =~= worker.calls);
}

/// Settings are set up as they are asked for. Devices that were set up stay in use until
/// others are, and a failure to set up is reported. A callback, once set, is notified from then
/// on. None of it touches a call, nor does the end of what wakes the worker up.
pub proof fn settings_touch_no_call(worker: WorkerView, audio_config: AudioConfig)
    ensures
        ({
            let (after, actions) = worker.woken(
                Input::Command(Command::SetAudioConfig { audio_config }),
            );
            &&& after == worker
            &&& actions.len() == 1
            &&& actions[0] == (Action::CreateAudioContext { audio_config })
        }),
        ({
            let (after, actions) = worker.woken(Input::Command(Command::SetUpdateCallback));
            &&& after.calls == worker.calls
            &&& after.audio == worker.audio
            &&& after.notify
            &&& actions.len() == 0
        }),
        ({
            let (after, actions) = worker.woken(Input::AudioContextCreated(true));
            &&& after.calls == worker.calls
            &&& after.audio
            &&& after.notify == worker.notify
            &&& actions.len() == 0
        }),
        ({
            let (after, actions) = worker.woken(Input::AudioContextCreated(false));
            &&& after == worker
            &&& actions.len() == 1
            &&& actions[0] == Action::Fail(Failure::AudioContextFailed)
        }),
        worker.woken(Input::CommandsClosed) == (worker, Seq::<Action>::empty()),
        worker.woken(Input::IncomingEnded) == (worker, Seq::<Action>::empty()),
        worker.woken(Input::IncomingFailed) == (worker, Seq::<Action>::empty()),
{
}

/// A worker that has just been made has no calls, no audio and nobody to notify, and what it
/// does first is to tell which node it is on.
pub proof fn workers_start_empty(node_id: NodeId)
    ensures
        fresh_worker().calls == Map::<Seq<u8>, CallInfo>::empty(),
        !fresh_worker().audio,
        !fresh_worker().notify,
        first_actions(node_id).len() == 1,
        first_actions(node_id)[0] == (Action::Emit {
            event: Event::EndpointBound(node_id),
            notify: false,
        }),
{
}

/// Users see a call under its node from the event that tells of it on, until one tells that it
/// is aborted, and an event about one node changes nothing of what they see of another.
pub proof fn events_are_shown(
    shown: Map<Seq<u8>, CallState>,
    node_id: NodeId,
    state: CallState,
    other: Seq<u8>,
)
    ensures
        shown_after(shown, Event::EndpointBound(node_id)) == shown,
        ({
            let after = shown_after(shown, Event::SetCallState(node_id, state));
            &&& state == CallState::Aborted ==> !after.contains_key(node_id@)
            &&& state != CallState::Aborted ==> after.contains_key(node_id@) && after[node_id@]
                == state
            &&& other != node_id@ ==> {
                &&& after.contains_key(other) == shown.contains_key(other)
                &&& shown.contains_key(other) ==> after[other] == shown[other]
            }
        }),
        state_of(CallInfo::Calling) == CallState::Calling,
        forall|connection: Connection| #[trigger]
            state_of(CallInfo::Incoming(connection)) == CallState::Incoming,
        forall|connection: Connection| #[trigger]
            state_of(CallInfo::Active(connection)) == CallState::Active,
{
}

/// What wakes a worker up about one node touches no call with another.
pub proof fn other_calls_are_untouched(worker: WorkerView, input: Input, other: Seq<u8>)
    requires
        match input {
            Input::Command(Command::Call { node_id }) => node_id@ != other,
            Input::Command(Command::HandleIncoming { node_id, .. }) => node_id@ != other && (
            worker.calls.contains_key(node_id@) ==> (worker.calls[node_id@] matches
                CallInfo::Incoming(connection) ==> (connection.remote matches Some(id) ==> id@
                != other))),
            Input::Command(Command::Abort { node_id }) => node_id@ != other,
            Input::Incoming(connection) => connection.remote matches Some(id) ==> id@ != other,
            Input::CallEnded(node_id) => node_id@ != other,
            Input::ConnectEnded(node_id, result) => node_id@ != other && (result matches Some(made)
                ==> (made.connection.remote matches Some(id) ==> id@ != other)),
            _ => true,
        },
    ensures
        worker.woken(input).0.calls.contains_key(other) == worker.calls.contains_key(other),
        worker.calls.contains_key(other) ==> worker.woken(input).0.calls[other]
            == worker.calls[other],
{
}

/// A call that is aborted, or declined while it rings, is gone, and a connection that it
/// had is closed.
pub proof fn aborted_calls_are_closed(worker: WorkerView, node_id: NodeId)
    requires
        worker.calls.contains_key(node_id@),
    ensures
        ({
            let (after, actions) = worker.commanded(Command::Abort { node_id });
            &&& !after.calls.contains_key(node_id@)
            &&& worker.calls[node_id@] matches CallInfo::Incoming(connection) ==> actions.contains(
                Action::Close { handle: connection.handle },
            )
            &&& worker.calls[node_id@] matches CallInfo::Active(connection) ==> actions.contains(
                Action::Close { handle: connection.handle },
            )
        }),
        worker.calls[node_id@] matches CallInfo::Incoming(connection) ==> {
            let (after, actions) = worker.commanded(
                Command::HandleIncoming { node_id, accept: false },
            );
            &&& !after.calls.contains_key(node_id@)
            &&& actions.contains(Action::Close { handle: connection.handle })
        },
{
    let aborted = worker.commanded(Command::Abort { node_id }).1;
    let declined = worker.commanded(Command::HandleIncoming { node_id, accept: false }).1;
    match worker.calls[node_id@] {
        CallInfo::Incoming(connection) => {
            assert(aborted[0] == (Action::Close { handle: connection.handle }));
            assert(declined[0] == (Action::Close { handle: connection.handle }));
        },
        CallInfo::Active(connection) => {
            assert(aborted[0] == (Action::Close { handle: connection.handle }));
        },
        CallInfo::Calling => {},
    }
}

/// Every call sends what is recorded, once. The side that has connected plays the track that it
/// was given before all else, and leaves the others; the other side plays all that come.
pub proof fn calls_send_and_play(track: Option<u64>, steps: Vec<CallStep>, at: int)
    requires
        call_ensures(call_steps, (track,), steps),
        0 <= at < steps@.len(),
    ensures
        steps@[at] is SendCapture <==> at == steps@.len() - 2,
        steps@[at] is PlayTrack <==> at == 0 && track is Some,
        steps@[at] matches CallStep::PlayTrack(played) ==> track == Some(played),
        steps@[at] is LeaveRemoteTracks <==> at == steps@.len() - 1 && track is Some,
        steps@[at] is PlayRemoteTracks <==> at == steps@.len() - 1 && track is None,
        steps@.len() >= 2,
{
}

} // verus!
