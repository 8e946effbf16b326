use channel_engine::audio_server::audio_sink::{ConfigurationError, SinkType};
use channel_engine::audio_server::controller::{Action, Controller, EngineState, Event, Phase};
use channel_engine::fuzz::EffectParameters;
use channel_engine::stage::Stage;

fn fuzz() -> Stage {
    Stage::Fuzz(
        EffectParameters::new(0.8f32.to_bits(), 0.5f32.to_bits(), 48_000.0f32.to_bits()).unwrap(),
    )
}

fn ids(controller: &Controller<u32>) -> Vec<usize> {
    let registry = controller.registry();
    (1..=registry.len()).map(|number| registry.port_info(number).unwrap().number).collect()
}

/// A host that grants every registration: the resource of channel `k` is
/// `100 + k`. Returns the stage and the resources of the callback that it
/// was asked to install.
fn run(controller: &mut Controller<u32>, first: Action<u32>) -> (Stage, Vec<u32>) {
    let mut action = first;
    let mut installed = None;
    loop {
        let event = match action {
            Action::ClearPorts => Event::PortsCleared,
            Action::RegisterPorts { number } => Event::PortsGranted(100 + number as u32),
            Action::Install { stage, channels } => {
                installed = Some((stage, channels));
                Event::Installed
            }
            Action::Settled => return installed.unwrap(),
            other => panic!("nothing to do for {:?}", other),
        };
        action = controller.step(event);
    }
}

fn live(channels: usize, stage: Stage) -> Controller<u32> {
    let mut controller: Controller<u32> = Controller::new("engine", SinkType::OneToOne);
    let first = controller.activate(channels, stage);
    let (installed, resources) = run(&mut controller, first);
    assert_eq!(installed, stage);
    assert_eq!(resources.len(), channels);
    controller
}

#[test]
fn a_new_controller_is_idle() {
    let controller: Controller<u32> = Controller::new("123", SinkType::OneToOne);
    assert_eq!(controller.state(), EngineState::Idle);
    assert_eq!(controller.phase(), Phase::Idle);
    assert_eq!(controller.registry().len(), 0);
    assert_eq!(controller.registry().sink_type(), SinkType::OneToOne);
    assert_eq!(controller.port_name_regex(), "123:.*");
}

#[test]
fn activation_asks_for_each_step_in_turn() {
    let mut controller: Controller<u32> = Controller::new("engine", SinkType::OneToOne);
    assert_eq!(controller.activate(2, Stage::PassThrough), Action::ClearPorts);
    assert_eq!(controller.phase(), Phase::Clearing { channels: 2, stage: Stage::PassThrough });
    assert_eq!(controller.step(Event::PortsCleared), Action::RegisterPorts { number: 1 });
    assert_eq!(ids(&controller), vec![1, 2]);
    assert_eq!(controller.registry().port_info(1).unwrap().input_port_name, "input_port_1");
    assert_eq!(controller.registry().port_info(2).unwrap().output_port_name, "output_port_2");
    assert_eq!(controller.step(Event::PortsGranted(11)), Action::RegisterPorts { number: 2 });
    assert_eq!(controller.registry().port_info(1).unwrap().channel, Some(11));
    assert_eq!(controller.state(), EngineState::Idle);
    assert_eq!(
        controller.step(Event::PortsGranted(22)),
        Action::Install { stage: Stage::PassThrough, channels: vec![11, 22] }
    );
    assert_eq!(controller.phase(), Phase::Installing { stage: Stage::PassThrough });
    assert_eq!(controller.registry().port_info(1).unwrap().channel, None);
    assert_eq!(controller.registry().port_info(2).unwrap().channel, None);
    assert_eq!(controller.state(), EngineState::Idle);
    assert_eq!(controller.step(Event::Installed), Action::Settled);
    assert_eq!(controller.state(), EngineState::Live);
    assert_eq!(controller.phase(), Phase::Live { stage: Stage::PassThrough });
    assert_eq!(ids(&controller), vec![1, 2]);
}

#[test]
fn reconfiguration_keeps_the_channels_and_swaps_the_stage() {
    let mut controller = live(2, Stage::PassThrough);
    assert_eq!(ids(&controller), vec![1, 2]);
    assert_eq!(controller.reconfigure(fuzz()), Action::Suspend);
    assert_eq!(controller.state(), EngineState::Live);
    assert_eq!(
        controller.step(Event::Suspended(vec![101, 102])),
        Action::Install { stage: fuzz(), channels: vec![101, 102] }
    );
    assert_eq!(controller.state(), EngineState::Idle);
    assert_eq!(controller.step(Event::Installed), Action::Settled);
    assert_eq!(controller.state(), EngineState::Live);
    assert_eq!(controller.phase(), Phase::Live { stage: fuzz() });
    assert_eq!(ids(&controller), vec![1, 2]);
    assert_eq!(controller.registry().port_info(1).unwrap().input_port_name, "input_port_1");
    assert_eq!(controller.registry().port_info(2).unwrap().input_port_name, "input_port_2");
}

#[test]
fn reconfiguration_can_be_repeated() {
    let mut controller = live(3, fuzz());
    for stage in [Stage::PassThrough, fuzz(), fuzz(), Stage::PassThrough] {
        assert_eq!(controller.reconfigure(stage), Action::Suspend);
        assert_eq!(
            controller.step(Event::Suspended(vec![101, 102, 103])),
            Action::Install { stage, channels: vec![101, 102, 103] }
        );
        assert_eq!(controller.step(Event::Installed), Action::Settled);
        assert_eq!(controller.phase(), Phase::Live { stage });
        assert_eq!(ids(&controller), vec![1, 2, 3]);
    }
}

#[test]
fn reconfiguration_is_only_valid_when_live() {
    let mut controller: Controller<u32> = Controller::new("engine", SinkType::OneToOne);
    assert_eq!(
        controller.reconfigure(fuzz()),
        Action::Rejected(Event::Reconfigure { stage: fuzz() })
    );
    assert_eq!(controller.phase(), Phase::Idle);
    assert_eq!(controller.activate(1, Stage::PassThrough), Action::ClearPorts);
    assert_eq!(
        controller.reconfigure(fuzz()),
        Action::Rejected(Event::Reconfigure { stage: fuzz() })
    );
    assert_eq!(controller.phase(), Phase::Clearing { channels: 1, stage: Stage::PassThrough });
}

#[test]
fn all_to_one_fails_the_activation() {
    let mut controller: Controller<u32> = Controller::new("engine", SinkType::AllToOne);
    assert_eq!(controller.activate(2, Stage::PassThrough), Action::ClearPorts);
    assert_eq!(
        controller.step(Event::PortsCleared),
        Action::Failed(ConfigurationError::UnsupportedTopology)
    );
    assert_eq!(controller.phase(), Phase::Idle);
    assert_eq!(controller.state(), EngineState::Idle);
    assert_eq!(controller.registry().len(), 0);
    assert_eq!(controller.activate(0, Stage::PassThrough), Action::ClearPorts);
    assert_eq!(
        controller.step(Event::PortsCleared),
        Action::Failed(ConfigurationError::UnsupportedTopology)
    );
}

#[test]
fn a_refused_registration_fails_the_activation() {
    let mut controller: Controller<u32> = Controller::new("engine", SinkType::OneToOne);
    assert_eq!(controller.activate(3, Stage::PassThrough), Action::ClearPorts);
    assert_eq!(controller.step(Event::PortsCleared), Action::RegisterPorts { number: 1 });
    assert_eq!(controller.step(Event::PortsGranted(1)), Action::RegisterPorts { number: 2 });
    assert_eq!(
        controller.step(Event::PortsRefused),
        Action::Failed(ConfigurationError::PortRegistrationFailed)
    );
    assert_eq!(controller.phase(), Phase::Idle);
    assert_eq!(controller.state(), EngineState::Idle);
    assert_eq!(ids(&controller), vec![1, 2, 3]);
    assert_eq!(controller.registry().port_info(1).unwrap().channel, Some(1));
    let first = controller.activate(2, fuzz());
    let (stage, resources) = run(&mut controller, first);
    assert_eq!(stage, fuzz());
    assert_eq!(resources, vec![101, 102]);
    assert_eq!(ids(&controller), vec![1, 2]);
}

#[test]
fn activation_without_channels_installs_an_empty_callback() {
    let mut controller: Controller<u32> = Controller::new("engine", SinkType::OneToOne);
    assert_eq!(controller.activate(0, Stage::PassThrough), Action::ClearPorts);
    assert_eq!(
        controller.step(Event::PortsCleared),
        Action::Install { stage: Stage::PassThrough, channels: Vec::new() }
    );
    assert_eq!(controller.step(Event::Installed), Action::Settled);
    assert_eq!(controller.state(), EngineState::Live);
    assert!(ids(&controller).is_empty());
}

#[test]
fn shutdown_removes_callback_and_channels() {
    let mut controller = live(2, fuzz());
    assert_eq!(controller.shutdown(), Action::Suspend);
    assert_eq!(controller.state(), EngineState::Live);
    assert_eq!(controller.step(Event::Suspended(vec![101, 102])), Action::ClearPorts);
    assert_eq!(controller.phase(), Phase::Releasing);
    assert_eq!(controller.registry().port_info(1).unwrap().channel, Some(101));
    assert_eq!(controller.registry().port_info(2).unwrap().channel, Some(102));
    assert_eq!(controller.step(Event::PortsCleared), Action::Settled);
    assert_eq!(controller.phase(), Phase::Closed);
    assert_eq!(controller.state(), EngineState::Idle);
    assert_eq!(controller.registry().len(), 0);
}

#[test]
fn shutdown_of_an_idle_controller_removes_the_ports() {
    let mut controller: Controller<u32> = Controller::new("engine", SinkType::OneToOne);
    assert_eq!(controller.shutdown(), Action::ClearPorts);
    assert_eq!(controller.step(Event::PortsCleared), Action::Settled);
    assert_eq!(controller.phase(), Phase::Closed);
}

#[test]
fn a_closed_controller_rejects_everything() {
    let mut controller = live(1, Stage::PassThrough);
    assert_eq!(controller.shutdown(), Action::Suspend);
    assert_eq!(controller.step(Event::Suspended(vec![101])), Action::ClearPorts);
    assert_eq!(controller.step(Event::PortsCleared), Action::Settled);
    let events: Vec<Event<u32>> = vec![
        Event::Activate { channels: 1, stage: Stage::PassThrough },
        Event::Reconfigure { stage: fuzz() },
        Event::Shutdown,
        Event::PortsCleared,
        Event::PortsGranted(5),
        Event::PortsRefused,
        Event::Installed,
        Event::Suspended(vec![1]),
    ];
    for event in events {
        let copy = match &event {
            Event::PortsGranted(channel) => Event::PortsGranted(*channel),
            Event::Suspended(channels) => Event::Suspended(channels.clone()),
            Event::Activate { channels, stage } => Event::Activate { channels: *channels, stage: *stage },
            Event::Reconfigure { stage } => Event::Reconfigure { stage: *stage },
            Event::Shutdown => Event::Shutdown,
            Event::PortsCleared => Event::PortsCleared,
            Event::PortsRefused => Event::PortsRefused,
            Event::Installed => Event::Installed,
        };
        assert_eq!(controller.step(event), Action::Rejected(copy));
        assert_eq!(controller.phase(), Phase::Closed);
    }
}

#[test]
fn events_out_of_place_come_back_unused() {
    let mut controller = live(2, Stage::PassThrough);
    assert_eq!(controller.step(Event::PortsGranted(9)), Action::Rejected(Event::PortsGranted(9)));
    assert_eq!(controller.step(Event::Installed), Action::Rejected(Event::Installed));
    assert_eq!(controller.step(Event::PortsCleared), Action::Rejected(Event::PortsCleared));
    assert_eq!(controller.step(Event::PortsRefused), Action::Rejected(Event::PortsRefused));
    assert_eq!(
        controller.step(Event::Suspended(vec![1, 2])),
        Action::Rejected(Event::Suspended(vec![1, 2]))
    );
    assert_eq!(
        controller.activate(1, fuzz()),
        Action::Rejected(Event::Activate { channels: 1, stage: fuzz() })
    );
    assert_eq!(controller.phase(), Phase::Live { stage: Stage::PassThrough });
    assert_eq!(ids(&controller), vec![1, 2]);
}

#[test]
fn the_callback_must_return_as_many_resources_as_there_are_channels() {
    let mut controller = live(2, Stage::PassThrough);
    assert_eq!(controller.reconfigure(fuzz()), Action::Suspend);
    assert_eq!(
        controller.step(Event::Suspended(vec![101])),
        Action::Rejected(Event::Suspended(vec![101]))
    );
    assert_eq!(controller.phase(), Phase::Suspending { resume: Some(fuzz()) });
    assert_eq!(
        controller.step(Event::Suspended(vec![101, 102, 103])),
        Action::Rejected(Event::Suspended(vec![101, 102, 103]))
    );
    assert_eq!(
        controller.step(Event::Suspended(vec![101, 102])),
        Action::Install { stage: fuzz(), channels: vec![101, 102] }
    );
}

#[test]
fn the_host_sees_the_resources_in_channel_order() {
    let mut controller: Controller<u32> = Controller::new("engine", SinkType::OneToOne);
    let first = controller.activate(5, fuzz());
    let (stage, resources) = run(&mut controller, first);
    assert_eq!(stage, fuzz());
    assert_eq!(resources, vec![101, 102, 103, 104, 105]);
    assert_eq!(ids(&controller), vec![1, 2, 3, 4, 5]);
}
