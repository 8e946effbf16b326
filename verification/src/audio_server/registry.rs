//! The channel registry: which channels exist, and which of them hold the
//! resource that the host granted.

use crate::audio_server::audio_sink::{
    channel_identity, unbound_record, AudioSink, ChannelRecord, ConfigurationError, PortInfo,
    SinkType,
};
use vstd::prelude::*;

verus! {

/// The records of channels 1, 2, ... that hold the given resources.
pub open spec fn records_of<R>(channels: Seq<Option<R>>) -> Seq<ChannelRecord<R>> {
    Seq::new(
        channels.len(),
        |i: int| ChannelRecord { identity: channel_identity((i + 1) as nat), channel: channels[i] },
    )
}

/// The record of channel `id` with the resource `channel`.
pub open spec fn bound_record<R>(id: nat, channel: R) -> ChannelRecord<R> {
    ChannelRecord { identity: channel_identity(id), channel: Some(channel) }
}

/// The records of channels 1 to `n`, none of them with a resource.
pub open spec fn unbound_records<R>(n: nat) -> Seq<ChannelRecord<R>> {
    Seq::new(n, |i: int| unbound_record::<R>((i + 1) as nat))
}

/// The records of channels 1, 2, ..., each with its resource.
pub open spec fn bound_records<R>(channels: Seq<R>) -> Seq<ChannelRecord<R>> {
    Seq::new(
        channels.len(),
        |i: int| bound_record((i + 1) as nat, channels[i]),
    )
}

/// The resources that the records hold, by ascending channel number.
pub open spec fn held_resources<R>(records: Seq<ChannelRecord<R>>) -> Seq<R>
    decreases records.len(),
{
    if records.len() == 0 {
        Seq::empty()
    } else {
        let before = held_resources(records.drop_last());
        match records.last().channel {
            Some(channel) => before.push(channel),
            None => before,
        }
    }
}

/// The numbers of the channels on record.
pub open spec fn channel_ids<R>(records: Seq<ChannelRecord<R>>) -> Set<nat> {
    Set::new(|id: nat| exists|i: int| 0 <= i < records.len() && #[trigger] records[i].identity.id == id)
}

/// Whether no record holds a resource.
pub open spec fn all_unbound<R>(records: Seq<ChannelRecord<R>>) -> bool {
    forall|i: int| 0 <= i < records.len() ==> (#[trigger] records[i]).channel is None
}

/// Whether channel `number` is on record and holds no resource.
pub open spec fn awaits_resource<R>(records: Seq<ChannelRecord<R>>, number: nat) -> bool {
    1 <= number <= records.len() && records[number - 1].channel is None
}

/// The channels of an engine: numbered from 1 without gaps, each with the
/// names derived from its number, and with the host's resource while the
/// registry owns it.
pub struct ChannelRegistry<R> {
    sink_type: SinkType,
    port_infos: Vec<PortInfo<R>>,
}

impl<R> View for ChannelRegistry<R> {
    type V = Seq<ChannelRecord<R>>;

    /// The records by ascending channel number.
    open spec fn view(&self) -> Seq<ChannelRecord<R>> {
        records_of(self.channels())
    }
}

impl<R> ChannelRegistry<R> {
    /// Every record carries the identity that belongs to its place.
    #[verifier::type_invariant]
    spec fn consistent(self) -> bool {
        forall|i: int|
            0 <= i < self.port_infos@.len() ==> (#[trigger] self.port_infos@[i])@.identity
                == channel_identity((i + 1) as nat)
    }

    /// What each channel holds: entry `i` belongs to channel `i + 1`.
    pub closed spec fn channels(&self) -> Seq<Option<R>> {
        Seq::new(self.port_infos@.len(), |i: int| self.port_infos@[i].channel)
    }

    /// The topology that the registry was made for.
    pub closed spec fn topology(&self) -> SinkType {
        self.sink_type
    }

    /// A registry without channels.
    pub fn new(sink_type: SinkType) -> (registry: Self)
        ensures
            registry@ == Seq::<ChannelRecord<R>>::empty(),
            registry.topology() == sink_type,
    {
        ChannelRegistry { sink_type, port_infos: Vec::new() }
    }

    /// The topology that the registry was made for.
    pub fn sink_type(&self) -> (sink_type: SinkType)
        ensures
            sink_type == self.topology(),
    {
        self.sink_type
    }

    /// The number of channels on record.
    pub fn len(&self) -> (n: usize)
        ensures
            n == self@.len(),
    {
        self.port_infos.len()
    }

    /// The record of channel `number`, if there is one.
    pub fn port_info(&self, number: usize) -> (info: Option<&PortInfo<R>>)
        ensures
            1 <= number <= self@.len() ==> info.is_some() && info.unwrap()@ == self@[number - 1],
            !(1 <= number <= self@.len()) ==> info.is_none(),
    {
        proof {
            use_type_invariant(self);
        }
        if 1 <= number && number <= self.port_infos.len() {
            Some(&self.port_infos[number - 1])
        } else {
            None
        }
    }

    /// Forgets every channel, with whatever resource it holds.
    pub fn reset(&mut self)
        ensures
            final(self)@ == Seq::<ChannelRecord<R>>::empty(),
            final(self).topology() == old(self).topology(),
    {
        self.port_infos = Vec::new();
    }

    /// Replaces the records by those of channels 1 to `n`, none of them with
    /// a resource yet. A topology without a port mapping is refused, and
    /// the registry is then left as it was.
    pub fn materialize(&mut self, n: usize, topology: SinkType) -> (outcome: Result<
        (),
        ConfigurationError,
    >)
        ensures
            final(self).topology() == old(self).topology(),
            topology.supported() ==> outcome == Ok::<(), ConfigurationError>(()) && final(self)@
                == unbound_records::<R>(n as nat),
            !topology.supported() ==> outcome == Err::<(), ConfigurationError>(
                ConfigurationError::UnsupportedTopology,
            ) && final(self)@ == old(self)@,
    {
        match topology.check() {
            Err(error) => Err(error),
            Ok(()) => {
                let mut infos: Vec<PortInfo<R>> = Vec::new();
                let mut number: usize = 0;
                while number < n
                    invariant
                        number <= n,
                        infos@.len() == number,
                        forall|i: int|
                            0 <= i < number ==> (#[trigger] infos@[i])@ == unbound_record::<R>(
                                (i + 1) as nat,
                            ),
                    decreases n - number,
                {
                    number += 1;
                    infos.push(PortInfo::new(number));
                }
                self.port_infos = infos;
                assert(self@ =~= unbound_records::<R>(n as nat));
                Ok(())
            },
        }
    }

    /// Hands the resource `channel` to channel `number`. Where that channel
    /// is not on record, or holds a resource already, the registry is left
    /// as it was and `channel` comes back.
    pub fn bind(&mut self, number: usize, channel: R) -> (refused: Option<R>)
        ensures
            final(self).topology() == old(self).topology(),
            awaits_resource(old(self)@, number as nat) ==> refused is None && final(self)@ == old(
                self,
            )@.update(number - 1, bound_record(number as nat, channel)),
            !awaits_resource(old(self)@, number as nat) ==> refused == Some(channel) && final(self)@
                == old(self)@,
    {
        proof {
            use_type_invariant(&*self);
        }
        if number < 1 || number > self.port_infos.len() {
            return Some(channel);
        }
        if self.port_infos[number - 1].channel.is_some() {
            return Some(channel);
        }
        let mut infos: Vec<PortInfo<R>> = Vec::new();
        core::mem::swap(&mut self.port_infos, &mut infos);
        infos[number - 1].channel = Some(channel);
        self.port_infos = infos;
        assert(self@ =~= old(self)@.update(number - 1, bound_record(number as nat, channel)));
        None
    }

    /// Takes back the resources of all channels at once, `channels[i]` for
    /// channel `i + 1`. Where their number is not that of the channels on
    /// record, or a channel holds a resource already, the registry is left
    /// as it was and `channels` comes back.
    pub fn restore(&mut self, channels: Vec<R>) -> (refused: Option<Vec<R>>)
        ensures
            final(self).topology() == old(self).topology(),
            channels@.len() == old(self)@.len() && all_unbound(old(self)@) ==> refused is None
                && final(self)@ == bound_records(channels@),
            !(channels@.len() == old(self)@.len() && all_unbound(old(self)@)) ==> refused == Some(
                channels,
            ) && final(self)@ == old(self)@,
    {
        proof {
            use_type_invariant(&*self);
        }
        let n: usize = self.port_infos.len();
        if channels.len() != n {
            return Some(channels);
        }
        let mut i: usize = 0;
        while i < n
            invariant
                i <= n,
                n == self.port_infos@.len(),
                forall|j: int| 0 <= j < i ==> (#[trigger] self.port_infos@[j]).channel is None,
            decreases n - i,
        {
            if self.port_infos[i].channel.is_some() {
                assert(self@[i as int].channel is Some);
                return Some(channels);
            }
            i += 1;
        }
        let ghost given = channels@;
        let mut channels = channels;
        let mut infos: Vec<PortInfo<R>> = Vec::new();
        core::mem::swap(&mut self.port_infos, &mut infos);
        let mut k: usize = n;
        while k > 0
            invariant
                k <= n,
                n == infos@.len(),
                n == given.len(),
                channels@ == given.take(k as int),
                forall|j: int|
                    0 <= j < n ==> (#[trigger] infos@[j])@.identity == channel_identity(
                        (j + 1) as nat,
                    ),
                forall|j: int| k <= j < n ==> (#[trigger] infos@[j]).channel == Some(given[j]),
            decreases k,
        {
            let last = channels.pop();
            k -= 1;
            match last {
                Some(channel) => {
                    infos[k].channel = Some(channel);
                },
                None => {},
            }
            assert(channels@ =~= given.take(k as int));
        }
        self.port_infos = infos;
        assert(self@ =~= bound_records(given));
        None
    }

    /// Removes the resources from the records and hands them out, by
    /// ascending channel number. The channels themselves stay on record.
    pub fn take_resources(&mut self) -> (channels: Vec<R>)
        ensures
            final(self).topology() == old(self).topology(),
            channels@ == held_resources(old(self)@),
            final(self)@ == unbound_records::<R>(old(self)@.len()),
    {
        proof {
            use_type_invariant(&*self);
        }
        let ghost before = self@;
        let mut infos: Vec<PortInfo<R>> = Vec::new();
        core::mem::swap(&mut self.port_infos, &mut infos);
        let n: usize = infos.len();
        let mut channels: Vec<R> = Vec::new();
        let mut i: usize = 0;
        while i < n
            invariant
                i <= n,
                n == infos@.len(),
                n == before.len(),
                forall|j: int|
                    0 <= j < n ==> (#[trigger] infos@[j])@.identity == channel_identity(
                        (j + 1) as nat,
                    ),
                forall|j: int| 0 <= j < i ==> (#[trigger] infos@[j]).channel is None,
                forall|j: int| i <= j < n ==> (#[trigger] infos@[j]).channel == before[j].channel,
                channels@ == held_resources(before.take(i as int)),
            decreases n - i,
        {
            let taken = infos[i].channel.take();
            assert(before.take(i + 1).drop_last() =~= before.take(i as int));
            match taken {
                Some(channel) => {
                    channels.push(channel);
                },
                None => {},
            }
            i += 1;
        }
        assert(before.take(n as int) =~= before);
        self.port_infos = infos;
        assert(self@ =~= unbound_records::<R>(n as nat));
        channels
    }
}

impl<R> AudioSink for ChannelRegistry<R> {
    /// Forgets every channel and puts channels 1 to `number_of_channels` on
    /// record, as the registry's topology maps them.
    fn init(&mut self, number_of_channels: usize) -> (outcome: Result<(), ConfigurationError>)
        ensures
            final(self).topology() == old(self).topology(),
            old(self).topology().supported() ==> outcome == Ok::<(), ConfigurationError>(())
                && final(self)@ == unbound_records::<R>(number_of_channels as nat),
            !old(self).topology().supported() ==> outcome == Err::<(), ConfigurationError>(
                ConfigurationError::UnsupportedTopology,
            ) && final(self)@ == Seq::<ChannelRecord<R>>::empty(),
    {
        self.reset();
        let topology = self.sink_type;
        self.materialize(number_of_channels, topology)
    }
}

/// The channels of `unbound_records(n)` are numbered 1 to `n`: no number is
/// missing, none occurs twice, and each record carries the names derived
/// from its number.
pub proof fn lemma_unbound_records_identities<R>(n: nat)
    ensures
        channel_ids(unbound_records::<R>(n)) == Set::new(|id: nat| 1 <= id <= n),
        forall|i: int|
            0 <= i < n ==> (#[trigger] unbound_records::<R>(n)[i]).identity == channel_identity(
                (i + 1) as nat,
            ),
        forall|i: int, j: int|
            0 <= i < j < n ==> (#[trigger] unbound_records::<R>(n)[i]).identity.id != (
            #[trigger] unbound_records::<R>(n)[j]).identity.id,
{
    let records = unbound_records::<R>(n);
    assert forall|id: nat| 1 <= id <= n implies channel_ids(records).contains(id) by {
        assert(records[id - 1].identity.id == id);
    }
    assert(channel_ids(records) =~= Set::new(|id: nat| 1 <= id <= n));
}

/// Binding or releasing resources changes no identity: the channel numbers
/// of `records_of(channels)` are 1 to the number of channels, whatever the
/// channels hold.
pub proof fn lemma_records_identities<R>(channels: Seq<Option<R>>)
    ensures
        channel_ids(records_of(channels)) == Set::new(|id: nat| 1 <= id <= channels.len()),
{
    let records = records_of(channels);
    assert forall|id: nat| 1 <= id <= channels.len() implies channel_ids(records).contains(
        id,
    ) by {
        assert(records[id - 1].identity.id == id);
    }
    assert(channel_ids(records) =~= Set::new(|id: nat| 1 <= id <= channels.len()));
}

/// What was restored comes out again: the resources held by
/// `bound_records(channels)` are `channels`, in the same order.
pub proof fn lemma_restored_resources_come_back<R>(channels: Seq<R>)
    ensures
        held_resources(bound_records(channels)) == channels,
    decreases channels.len(),
{
    if channels.len() > 0 {
        assert(bound_records(channels).drop_last() =~= bound_records(channels.drop_last()));
        lemma_restored_resources_come_back(channels.drop_last());
        assert(channels.drop_last().push(channels.last()) =~= channels);
    } else {
        assert(held_resources(bound_records(channels)) =~= channels);
    }
}

} // verus!
