//! What holds of every controller that is reached from a new one, and of
//! activation, reconfiguration and shutdown from their command to the end.

use crate::audio_server::audio_sink::{
    channel_identity, unbound_record, ChannelRecord, ConfigurationError, SinkType,
};
use crate::audio_server::controller::{
    initial, transition, ActionView, ControllerModel, EngineState, Event, Phase,
};
use crate::audio_server::registry::{
    all_unbound, awaits_resource, bound_record, bound_records, channel_ids, held_resources,
    lemma_restored_resources_come_back, lemma_unbound_records_identities, unbound_records,
};
use crate::stage::Stage;
use vstd::prelude::*;

verus! {

/// The records while channel `next` waits for its ports: the channels
/// before it hold their resources, it and those after it hold none.
pub open spec fn bound_below<R>(records: Seq<ChannelRecord<R>>, next: nat) -> bool {
    &&& 1 <= next <= records.len()
    &&& forall|i: int| 0 <= i < next - 1 ==> (#[trigger] records[i]).channel is Some
    &&& forall|i: int| next - 1 <= i < records.len() ==> (#[trigger] records[i]).channel is None
}

/// What holds of a controller whatever happened to it: the channels can be
/// counted in a `usize`, are numbered from 1 without gaps and carry the
/// names of their numbers; while ports are being registered, exactly the
/// channels before the one in turn hold a resource; and from the moment a
/// callback is handed to the host until the host has given it back, the
/// registry holds no resource, so that no resource is ever with both.
pub open spec fn well_formed<R>(m: ControllerModel<R>) -> bool {
    &&& m.records.len() <= usize::MAX
    &&& forall|i: int|
        0 <= i < m.records.len() ==> (#[trigger] m.records[i]).identity == channel_identity(
            (i + 1) as nat,
        )
    &&& match m.phase {
        Phase::Registering { next, .. } => bound_below(m.records, next as nat),
        Phase::Installing { .. } | Phase::Live { .. } | Phase::Suspending { .. } => all_unbound(
            m.records,
        ),
        _ => true,
    }
}

/// A new controller is well formed.
pub proof fn lemma_initial_is_well_formed<R>(client_name: Seq<char>, topology: SinkType)
    ensures
        well_formed(initial::<R>(client_name, topology)),
{
}

/// No event leads a well-formed controller to one that is not, and none
/// changes the client's name or the topology.
pub proof fn lemma_transition_keeps_well_formed<R>(m: ControllerModel<R>, event: Event<R>)
    requires
        well_formed(m),
    ensures
        well_formed(transition(m, event).0),
        transition(m, event).0.client_name == m.client_name,
        transition(m, event).0.topology == m.topology,
{
    let after = transition(m, event).0;
    match event {
        Event::PortsGranted(channel) => {
            if let Phase::Registering { next, stage } = m.phase {
                if awaits_resource(m.records, next as nat) {
                    let records = m.records.update(next - 1, bound_record(next as nat, channel));
                    if next < records.len() {
                        assert(after.records == records);
                        assert forall|i: int| 0 <= i < records.len() implies (
                        #[trigger] records[i]).identity == channel_identity((i + 1) as nat) by {
                            assert(m.records[i].identity == channel_identity((i + 1) as nat));
                        }
                        assert forall|i: int| 0 <= i < next implies (
                        #[trigger] records[i]).channel is Some by {
                            if i < next - 1 {
                                assert(m.records[i].channel is Some);
                            }
                        }
                        assert forall|i: int| next <= i < records.len() implies (
                        #[trigger] records[i]).channel is None by {
                            assert(m.records[i].channel is None);
                        }
                        assert(bound_below(records, (next + 1) as nat));
                    } else {
                        assert(after.records == unbound_records::<R>(records.len()));
                    }
                }
            }
        },
        Event::Suspended(channels) => {
            if let Phase::Suspending { resume } = m.phase {
                if channels@.len() == m.records.len() && all_unbound(m.records) {
                    if resume is Some {
                        assert(after.records == unbound_records::<R>(m.records.len()));
                    } else {
                        assert(after.records == bound_records(channels@));
                    }
                }
            }
        },
        Event::PortsCleared => {
            if let Phase::Clearing { channels, stage } = m.phase {
                if m.topology.supported() && channels > 0 {
                    assert(after.records == unbound_records::<R>(channels as nat));
                    assert(bound_below(after.records, 1));
                }
            }
        },
        _ => {},
    }
}

/// While a callback is installed the registry holds no resource, and the
/// channel numbers are 1 to the number of channels.
pub proof fn lemma_live_registry_holds_nothing<R>(m: ControllerModel<R>)
    requires
        well_formed(m),
        m.engine_state() == EngineState::Live,
    ensures
        m.records == unbound_records::<R>(m.records.len()),
        channel_ids(m.records) == Set::new(|id: nat| 1 <= id <= m.records.len()),
{
    assert(m.records =~= unbound_records::<R>(m.records.len()));
    lemma_unbound_records_identities::<R>(m.records.len());
}

/// An event that has no place where the controller stands changes nothing.
pub proof fn lemma_rejected_event_changes_nothing<R>(m: ControllerModel<R>, event: Event<R>)
    requires
        transition(m, event).1 is Rejected,
    ensures
        transition(m, event) == (m, ActionView::Rejected(event)),
{
}

/// A controller that was shut down stays so: it rejects every event.
pub proof fn lemma_closed_is_final<R>(m: ControllerModel<R>, event: Event<R>)
    requires
        m.phase == Phase::Closed,
    ensures
        transition(m, event) == (m, ActionView::Rejected(event)),
{
}

/// Reconfiguration keeps the channels and replaces the stage. From a live
/// controller, the command asks the host to remove the callback; when the
/// host has done so and returned the resources, as many as there are
/// channels, the controller asks for a callback with the new stage on the
/// same resources in the same order; when that is installed the controller
/// is live with the new stage, and its records are what they were.
pub proof fn lemma_reconfigure_keeps_channels<R>(
    m: ControllerModel<R>,
    stage: Stage,
    returned: Vec<R>,
)
    requires
        well_formed(m),
        m.phase is Live,
        returned@.len() == m.records.len(),
    ensures
        ({
            let (suspending, first) = transition(m, Event::Reconfigure { stage });
            let (installing, second) = transition(suspending, Event::Suspended(returned));
            let (live, third) = transition(installing, Event::Installed);
            &&& first == ActionView::<R>::Suspend
            &&& suspending.engine_state() == EngineState::Live
            &&& second == ActionView::Install { stage, channels: returned@ }
            &&& installing.engine_state() == EngineState::Idle
            &&& third == ActionView::<R>::Settled
            &&& live == m.at(Phase::Live { stage })
            &&& channel_ids(live.records) == channel_ids(m.records)
        }),
{
    let (suspending, first) = transition(m, Event::Reconfigure { stage });
    let (installing, second) = transition(suspending, Event::Suspended(returned));
    assert(installing.records =~= m.records);
}

/// Under a topology without a port mapping, activation fails once the
/// host has removed the earlier ports: the controller is idle again,
/// without channels, and no port is asked for.
pub proof fn lemma_unsupported_topology_fails<R>(
    m: ControllerModel<R>,
    channels: usize,
    stage: Stage,
)
    requires
        m.phase == Phase::Idle,
        !m.topology.supported(),
    ensures
        ({
            let (clearing, first) = transition(m, Event::Activate { channels, stage });
            let (idle, second) = transition(clearing, Event::PortsCleared);
            &&& first == ActionView::<R>::ClearPorts
            &&& second == ActionView::<R>::Failed(ConfigurationError::UnsupportedTopology)
            &&& idle == m.with(Phase::Idle, Seq::empty())
        }),
{
}

/// A refused registration fails the activation and leaves the controller
/// idle, with the channels on record as they were.
pub proof fn lemma_refusal_fails_activation<R>(m: ControllerModel<R>)
    requires
        m.phase is Registering,
    ensures
        transition(m, Event::PortsRefused) == (
            m.at(Phase::Idle),
            ActionView::<R>::Failed(ConfigurationError::PortRegistrationFailed),
        ),
{
}

/// The controller after the host has granted the ports of one channel
/// after another.
pub open spec fn after_grants<R>(m: ControllerModel<R>, granted: Seq<R>) -> ControllerModel<R>
    decreases granted.len(),
{
    if granted.len() == 0 {
        m
    } else {
        transition(after_grants(m, granted.drop_last()), Event::PortsGranted(granted.last())).0
    }
}

/// The records of `n` channels of which the first hold the resources
/// `granted`.
pub open spec fn partly_bound<R>(n: nat, granted: Seq<R>) -> Seq<ChannelRecord<R>> {
    Seq::new(
        n,
        |i: int|
            if i < granted.len() {
                bound_record((i + 1) as nat, granted[i])
            } else {
                unbound_record::<R>((i + 1) as nat)
            },
    )
}

/// While fewer resources are granted than there are channels, the
/// controller keeps asking, channel by channel.
proof fn lemma_grants_in_turn<R>(m: ControllerModel<R>, stage: Stage, n: usize, granted: Seq<R>)
    requires
        n > 0,
        m.phase == (Phase::Registering { next: 1, stage }),
        m.records == unbound_records::<R>(n as nat),
        granted.len() < n,
    ensures
        after_grants(m, granted) == m.with(
            Phase::Registering { next: (granted.len() + 1) as usize, stage },
            partly_bound(n as nat, granted),
        ),
    decreases granted.len(),
{
    if granted.len() == 0 {
        assert(partly_bound(n as nat, granted) =~= m.records);
    } else {
        let earlier = granted.drop_last();
        lemma_grants_in_turn(m, stage, n, earlier);
        let before = after_grants(m, earlier);
        let next = granted.len();
        assert(before.records.update(next - 1, bound_record(next as nat, granted.last()))
            =~= partly_bound(n as nat, granted));
    }
}

/// Activation sets up channels 1 to `n`. From an idle controller with a
/// supported topology, the command asks the host to remove the earlier
/// ports, then to register the ports of channel 1, and after each grant
/// those of the next channel. With the last grant it asks for a callback
/// with the given stage on the granted resources, in the order of the
/// channels; when that is installed the controller is live, with exactly
/// the channels 1 to `n` on record.
pub proof fn lemma_activate_sets_up_channels<R>(
    m: ControllerModel<R>,
    stage: Stage,
    n: usize,
    granted: Seq<R>,
)
    requires
        m.phase == Phase::Idle,
        m.topology.supported(),
        granted.len() == n,
    ensures
        ({
            let (clearing, first) = transition(m, Event::Activate { channels: n, stage });
            let (registering, second) = transition(clearing, Event::PortsCleared);
            let (installing, third) = if n == 0 {
                (registering, second)
            } else {
                transition(
                    after_grants(registering, granted.drop_last()),
                    Event::PortsGranted(granted.last()),
                )
            };
            let (live, fourth) = transition(installing, Event::Installed);
            &&& first == ActionView::<R>::ClearPorts
            &&& n > 0 ==> second == ActionView::<R>::RegisterPorts { number: 1 }
            &&& third == ActionView::Install { stage, channels: granted }
            &&& fourth == ActionView::<R>::Settled
            &&& live == m.with(Phase::Live { stage }, unbound_records(n as nat))
            &&& channel_ids(live.records) == Set::new(|id: nat| 1 <= id <= n)
        }),
{
    let (clearing, first) = transition(m, Event::Activate { channels: n, stage });
    let (registering, second) = transition(clearing, Event::PortsCleared);
    lemma_unbound_records_identities::<R>(n as nat);
    if n == 0 {
        assert(granted =~= Seq::<R>::empty());
        assert(unbound_records::<R>(0) =~= Seq::<ChannelRecord<R>>::empty());
    } else {
        let earlier = granted.drop_last();
        lemma_grants_in_turn(registering, stage, n, earlier);
        let before = after_grants(registering, earlier);
        let records = before.records.update(n - 1, bound_record(n as nat, granted.last()));
        assert(records =~= bound_records(granted));
        lemma_restored_resources_come_back(granted);
    }
}

/// Shutting down a live controller removes the callback, then the ports,
/// and leaves the controller closed, without channels.
pub proof fn lemma_shutdown_closes<R>(m: ControllerModel<R>, returned: Vec<R>)
    requires
        well_formed(m),
        m.phase is Live,
        returned@.len() == m.records.len(),
    ensures
        ({
            let (suspending, first) = transition(m, Event::Shutdown);
            let (releasing, second) = transition(suspending, Event::Suspended(returned));
            let (closed, third) = transition(releasing, Event::PortsCleared);
            &&& first == ActionView::<R>::Suspend
            &&& second == ActionView::<R>::ClearPorts
            &&& held_resources(releasing.records) == returned@
            &&& third == ActionView::<R>::Settled
            &&& closed == m.with(Phase::Closed, Seq::empty())
            &&& closed.engine_state() == EngineState::Idle
        }),
{
    lemma_restored_resources_come_back(returned@);
}

} // verus!
