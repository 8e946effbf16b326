//! The reconfiguration controller.
//!
//! The controller decides; the host acts. Each call of `step` takes what
//! happened (a command of the caller, or the host's answer to the last
//! action) and returns what the host is to do next. Between a command and
//! the action `Settled` or `Failed` the caller performs each action and
//! hands its outcome back.

use crate::audio_server::audio_sink::{
    port_name_regex, port_pattern, AudioSink, ChannelRecord, ConfigurationError, SinkType,
};
use crate::audio_server::registry::{
    all_unbound, awaits_resource, bound_record, bound_records, held_resources,
    lemma_restored_resources_come_back, unbound_records, ChannelRegistry,
};
use crate::audio_server::invariants::{
    lemma_initial_is_well_formed, lemma_transition_keeps_well_formed, well_formed,
};
use crate::stage::Stage;
use vstd::prelude::*;
use vstd::string::*;

verus! {

/// Whether a callback is installed.
#[derive(Clone, Copy, Debug, PartialEq, Eq, Structural)]
pub enum EngineState {
    /// No callback is installed; channels may or may not exist.
    Idle,
    /// A callback is installed and the host calls it for every block.
    Live,
}

/// Where the controller stands.
#[derive(Clone, Copy, Debug, PartialEq, Eq, Structural)]
pub enum Phase {
    /// Nothing is installed and nothing is under way.
    Idle,
    /// Activating: the host is removing the ports of earlier channels.
    Clearing { channels: usize, stage: Stage },
    /// Activating: the host is registering the ports of channel `next`.
    Registering { next: usize, stage: Stage },
    /// The host is installing a callback with `stage` for every channel.
    Installing { stage: Stage },
    /// The callback with `stage` is installed.
    Live { stage: Stage },
    /// The host is removing the callback, to install one with the stage
    /// `resume`, or to shut down where there is none.
    Suspending { resume: Option<Stage> },
    /// Shutting down: the host is removing the ports.
    Releasing,
    /// Shut down for good.
    Closed,
}

/// What happened: a command, or the host's answer to the last action.
#[derive(Debug, PartialEq, Eq)]
pub enum Event<R> {
    /// Command: set up `channels` channels and run `stage` on each.
    Activate { channels: usize, stage: Stage },
    /// Command: replace the stage of every channel by `stage`.
    Reconfigure { stage: Stage },
    /// Command: remove the callback and the channels.
    Shutdown,
    /// The host has removed every port of the client.
    PortsCleared,
    /// The host has registered the two ports of a channel.
    PortsGranted(R),
    /// The host has refused to register the ports of a channel.
    PortsRefused,
    /// The host has installed the callback.
    Installed,
    /// The host has removed the callback, which gives back the resources
    /// that it held, by ascending channel number.
    Suspended(Vec<R>),
}

/// What the host is to do next.
#[derive(Debug, PartialEq, Eq)]
pub enum Action<R> {
    /// Remove every port of the client.
    ClearPorts,
    /// Register the two ports of channel `number`, under the names on
    /// record.
    RegisterPorts { number: usize },
    /// Install a callback that runs `stage` on each of `channels`.
    Install { stage: Stage, channels: Vec<R> },
    /// Remove the installed callback.
    Suspend,
    /// Nothing: the command is carried out.
    Settled,
    /// Nothing: the command has failed.
    Failed(ConfigurationError),
    /// Nothing: the event has no place where the controller stands, and
    /// comes back unused.
    Rejected(Event<R>),
}

/// An action with the resources of `Install` as a sequence.
pub enum ActionView<R> {
    ClearPorts,
    RegisterPorts { number: usize },
    Install { stage: Stage, channels: Seq<R> },
    Suspend,
    Settled,
    Failed(ConfigurationError),
    Rejected(Event<R>),
}

impl<R> View for Action<R> {
    type V = ActionView<R>;

    open spec fn view(&self) -> ActionView<R> {
        match *self {
            Action::ClearPorts => ActionView::ClearPorts,
            Action::RegisterPorts { number } => ActionView::RegisterPorts { number },
            Action::Install { stage, channels } => ActionView::Install { stage, channels: channels@ },
            Action::Suspend => ActionView::Suspend,
            Action::Settled => ActionView::Settled,
            Action::Failed(error) => ActionView::Failed(error),
            Action::Rejected(event) => ActionView::Rejected(event),
        }
    }
}

/// What a controller is, to its contracts.
pub struct ControllerModel<R> {
    /// The name of the host's client.
    pub client_name: Seq<char>,
    /// The topology, fixed when the controller is made.
    pub topology: SinkType,
    /// Where the controller stands.
    pub phase: Phase,
    /// The registry's records.
    pub records: Seq<ChannelRecord<R>>,
}

impl<R> ControllerModel<R> {
    /// The same controller in another phase.
    pub open spec fn at(self, phase: Phase) -> Self {
        ControllerModel { phase, ..self }
    }

    /// The same controller in another phase and with other records.
    pub open spec fn with(self, phase: Phase, records: Seq<ChannelRecord<R>>) -> Self {
        ControllerModel { phase, records, ..self }
    }

    /// Whether a callback is installed.
    pub open spec fn engine_state(self) -> EngineState {
        match self.phase {
            Phase::Live { .. } | Phase::Suspending { .. } => EngineState::Live,
            _ => EngineState::Idle,
        }
    }
}

/// The controller as it is made: idle, without channels.
pub open spec fn initial<R>(client_name: Seq<char>, topology: SinkType) -> ControllerModel<R> {
    ControllerModel { client_name, topology, phase: Phase::Idle, records: Seq::empty() }
}

/// A command to activate.
pub open spec fn on_activate<R>(m: ControllerModel<R>, channels: usize, stage: Stage) -> (
    ControllerModel<R>,
    ActionView<R>,
) {
    match m.phase {
        Phase::Idle => (m.at(Phase::Clearing { channels, stage }), ActionView::ClearPorts),
        _ => (m, ActionView::Rejected(Event::Activate { channels, stage })),
    }
}

/// A command to reconfigure.
pub open spec fn on_reconfigure<R>(m: ControllerModel<R>, stage: Stage) -> (
    ControllerModel<R>,
    ActionView<R>,
) {
    match m.phase {
        Phase::Live { .. } => (m.at(Phase::Suspending { resume: Some(stage) }), ActionView::Suspend),
        _ => (m, ActionView::Rejected(Event::Reconfigure { stage })),
    }
}

/// A command to shut down.
pub open spec fn on_shutdown<R>(m: ControllerModel<R>) -> (ControllerModel<R>, ActionView<R>) {
    match m.phase {
        Phase::Live { .. } => (m.at(Phase::Suspending { resume: None }), ActionView::Suspend),
        Phase::Idle => (m.at(Phase::Releasing), ActionView::ClearPorts),
        _ => (m, ActionView::Rejected(Event::Shutdown)),
    }
}

/// The host has removed the ports.
pub open spec fn on_ports_cleared<R>(m: ControllerModel<R>) -> (
    ControllerModel<R>,
    ActionView<R>,
) {
    match m.phase {
        Phase::Clearing { channels, stage } => {
            if !m.topology.supported() {
                (
                    m.with(Phase::Idle, Seq::empty()),
                    ActionView::Failed(ConfigurationError::UnsupportedTopology),
                )
            } else if channels == 0 {
                (
                    m.with(Phase::Installing { stage }, Seq::empty()),
                    ActionView::Install { stage, channels: Seq::empty() },
                )
            } else {
                (
                    m.with(Phase::Registering { next: 1, stage }, unbound_records(channels as nat)),
                    ActionView::RegisterPorts { number: 1 },
                )
            }
        },
        Phase::Releasing => (m.with(Phase::Closed, Seq::empty()), ActionView::Settled),
        _ => (m, ActionView::Rejected(Event::PortsCleared)),
    }
}

/// The host has registered the ports of a channel.
pub open spec fn on_ports_granted<R>(m: ControllerModel<R>, channel: R) -> (
    ControllerModel<R>,
    ActionView<R>,
) {
    match m.phase {
        Phase::Registering { next, stage } => {
            if !awaits_resource(m.records, next as nat) {
                (m, ActionView::Rejected(Event::PortsGranted(channel)))
            } else {
                let records = m.records.update(next - 1, bound_record(next as nat, channel));
                if next < records.len() {
                    (
                        m.with(Phase::Registering { next: (next + 1) as usize, stage }, records),
                        ActionView::RegisterPorts { number: (next + 1) as usize },
                    )
                } else {
                    (
                        m.with(Phase::Installing { stage }, unbound_records(records.len())),
                        ActionView::Install { stage, channels: held_resources(records) },
                    )
                }
            }
        },
        _ => (m, ActionView::Rejected(Event::PortsGranted(channel))),
    }
}

/// The host has refused the ports of a channel.
pub open spec fn on_ports_refused<R>(m: ControllerModel<R>) -> (
    ControllerModel<R>,
    ActionView<R>,
) {
    match m.phase {
        Phase::Registering { .. } => (
            m.at(Phase::Idle),
            ActionView::Failed(ConfigurationError::PortRegistrationFailed),
        ),
        _ => (m, ActionView::Rejected(Event::PortsRefused)),
    }
}

/// The host has installed the callback.
pub open spec fn on_installed<R>(m: ControllerModel<R>) -> (ControllerModel<R>, ActionView<R>) {
    match m.phase {
        Phase::Installing { stage } => (m.at(Phase::Live { stage }), ActionView::Settled),
        _ => (m, ActionView::Rejected(Event::Installed)),
    }
}

/// The host has removed the callback.
pub open spec fn on_suspended<R>(m: ControllerModel<R>, channels: Vec<R>) -> (
    ControllerModel<R>,
    ActionView<R>,
) {
    match m.phase {
        Phase::Suspending { resume } => {
            if !(channels@.len() == m.records.len() && all_unbound(m.records)) {
                (m, ActionView::Rejected(Event::Suspended(channels)))
            } else {
                match resume {
                    Some(stage) => (
                        m.with(Phase::Installing { stage }, unbound_records(m.records.len())),
                        ActionView::Install { stage, channels: channels@ },
                    ),
                    None => (
                        m.with(Phase::Releasing, bound_records(channels@)),
                        ActionView::ClearPorts,
                    ),
                }
            }
        },
        _ => (m, ActionView::Rejected(Event::Suspended(channels))),
    }
}

/// The controller after an event, and the action that it asks for.
pub open spec fn transition<R>(m: ControllerModel<R>, event: Event<R>) -> (
    ControllerModel<R>,
    ActionView<R>,
) {
    match event {
        Event::Activate { channels, stage } => on_activate(m, channels, stage),
        Event::Reconfigure { stage } => on_reconfigure(m, stage),
        Event::Shutdown => on_shutdown(m),
        Event::PortsCleared => on_ports_cleared(m),
        Event::PortsGranted(channel) => on_ports_granted(m, channel),
        Event::PortsRefused => on_ports_refused(m),
        Event::Installed => on_installed(m),
        Event::Suspended(channels) => on_suspended(m, channels),
    }
}

/// The control plane of an engine: the registry of its channels and the
/// phase of the transition under way.
pub struct Controller<R> {
    client_name: String,
    registry: ChannelRegistry<R>,
    phase: Phase,
}

impl<R> View for Controller<R> {
    type V = ControllerModel<R>;

    closed spec fn view(&self) -> ControllerModel<R> {
        ControllerModel {
            client_name: self.client_name@,
            topology: self.registry.topology(),
            phase: self.phase,
            records: self.registry@,
        }
    }
}

impl<R> Controller<R> {
    /// An idle controller without channels, for the host's client
    /// `client_name` and the topology `sink_type`.
    pub fn new(client_name: &str, sink_type: SinkType) -> (controller: Self)
        ensures
            controller@ == initial::<R>(client_name@, sink_type),
            well_formed(controller@),
    {
        proof {
            lemma_initial_is_well_formed::<R>(client_name@, sink_type);
        }
        Controller {
            client_name: String::from_str(client_name),
            registry: ChannelRegistry::new(sink_type),
            phase: Phase::Idle,
        }
    }

    /// Where the controller stands.
    pub fn phase(&self) -> (phase: Phase)
        ensures
            phase == self@.phase,
    {
        self.phase
    }

    /// Whether a callback is installed.
    pub fn state(&self) -> (state: EngineState)
        ensures
            state == self@.engine_state(),
    {
        match self.phase {
            Phase::Live { .. } | Phase::Suspending { .. } => EngineState::Live,
            _ => EngineState::Idle,
        }
    }

    /// The registry of the channels.
    pub fn registry(&self) -> (registry: &ChannelRegistry<R>)
        ensures
            registry@ == self@.records,
            registry.topology() == self@.topology,
    {
        &self.registry
    }

    /// The pattern that matches the names of the ports that `ClearPorts`
    /// removes: every port of this controller's client.
    pub fn port_name_regex(&self) -> (pattern: String)
        ensures
            pattern@ == port_pattern(self@.client_name),
    {
        port_name_regex(self.client_name.as_str())
    }

    /// Takes an event and returns the action that the host is to perform
    /// next. A well-formed controller stays well formed.
    pub fn step(&mut self, event: Event<R>) -> (action: Action<R>)
        ensures
            (final(self)@, action@) == transition(old(self)@, event),
            well_formed(old(self)@) ==> well_formed(final(self)@),
    {
        proof {
            if well_formed(self@) {
                lemma_transition_keeps_well_formed(self@, event);
            }
        }
        match event {
            Event::Activate { channels, stage } => match self.phase {
                Phase::Idle => {
                    self.phase = Phase::Clearing { channels, stage };
                    Action::ClearPorts
                },
                _ => Action::Rejected(Event::Activate { channels, stage }),
            },
            Event::Reconfigure { stage } => match self.phase {
                Phase::Live { .. } => {
                    self.phase = Phase::Suspending { resume: Some(stage) };
                    Action::Suspend
                },
                _ => Action::Rejected(Event::Reconfigure { stage }),
            },
            Event::Shutdown => match self.phase {
                Phase::Live { .. } => {
                    self.phase = Phase::Suspending { resume: None };
                    Action::Suspend
                },
                Phase::Idle => {
                    self.phase = Phase::Releasing;
                    Action::ClearPorts
                },
                _ => Action::Rejected(Event::Shutdown),
            },
            Event::PortsCleared => match self.phase {
                Phase::Clearing { channels, stage } => {
                    match self.registry.init(channels) {
                        Err(error) => {
                            self.phase = Phase::Idle;
                            Action::Failed(error)
                        },
                        Ok(()) => {
                            if channels == 0 {
                                self.phase = Phase::Installing { stage };
                                assert(self.registry@ =~= Seq::<ChannelRecord<R>>::empty());
                                Action::Install { stage, channels: Vec::new() }
                            } else {
                                self.phase = Phase::Registering { next: 1, stage };
                                Action::RegisterPorts { number: 1 }
                            }
                        },
                    }
                },
                Phase::Releasing => {
                    self.registry.reset();
                    self.phase = Phase::Closed;
                    Action::Settled
                },
                _ => Action::Rejected(Event::PortsCleared),
            },
            Event::PortsGranted(channel) => match self.phase {
                Phase::Registering { next, stage } => {
                    match self.registry.bind(next, channel) {
                        Some(channel) => Action::Rejected(Event::PortsGranted(channel)),
                        None => {
                            if next < self.registry.len() {
                                self.phase = Phase::Registering { next: next + 1, stage };
                                Action::RegisterPorts { number: next + 1 }
                            } else {
                                let channels = self.registry.take_resources();
                                self.phase = Phase::Installing { stage };
                                Action::Install { stage, channels }
                            }
                        },
                    }
                },
                _ => Action::Rejected(Event::PortsGranted(channel)),
            },
            Event::PortsRefused => match self.phase {
                Phase::Registering { .. } => {
                    self.phase = Phase::Idle;
                    Action::Failed(ConfigurationError::PortRegistrationFailed)
                },
                _ => Action::Rejected(Event::PortsRefused),
            },
            Event::Installed => match self.phase {
                Phase::Installing { stage } => {
                    self.phase = Phase::Live { stage };
                    Action::Settled
                },
                _ => Action::Rejected(Event::Installed),
            },
            Event::Suspended(channels) => match self.phase {
                Phase::Suspending { resume } => {
                    match self.registry.restore(channels) {
                        Some(channels) => Action::Rejected(Event::Suspended(channels)),
                        None => match resume {
                            Some(stage) => {
                                proof {
                                    lemma_restored_resources_come_back(channels@);
                                }
                                let channels = self.registry.take_resources();
                                self.phase = Phase::Installing { stage };
                                Action::Install { stage, channels }
                            },
                            None => {
                                self.phase = Phase::Releasing;
                                Action::ClearPorts
                            },
                        },
                    }
                },
                _ => Action::Rejected(Event::Suspended(channels)),
            },
        }
    }

    /// Begins to set up `channels` channels with `stage` on each.
    pub fn activate(&mut self, channels: usize, stage: Stage) -> (action: Action<R>)
        ensures
            (final(self)@, action@) == on_activate(old(self)@, channels, stage),
            well_formed(old(self)@) ==> well_formed(final(self)@),
    {
        self.step(Event::Activate { channels, stage })
    }

    /// Begins to replace the stage of every channel by `stage`.
    pub fn reconfigure(&mut self, stage: Stage) -> (action: Action<R>)
        ensures
            (final(self)@, action@) == on_reconfigure(old(self)@, stage),
            well_formed(old(self)@) ==> well_formed(final(self)@),
    {
        self.step(Event::Reconfigure { stage })
    }

    /// Begins to remove the callback and the channels.
    pub fn shutdown(&mut self) -> (action: Action<R>)
        ensures
            (final(self)@, action@) == on_shutdown(old(self)@),
            well_formed(old(self)@) ==> well_formed(final(self)@),
    {
        self.step(Event::Shutdown)
    }
}

} // verus!
