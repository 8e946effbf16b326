use channel_engine::audio_server::audio_sink::{AudioSink, ConfigurationError, PortInfo, SinkType};
use channel_engine::audio_server::registry::ChannelRegistry;
use std::collections::hash_map::DefaultHasher;
use std::hash::{Hash, Hasher};

fn numbers(registry: &ChannelRegistry<u32>) -> Vec<usize> {
    let mut found = Vec::new();
    for number in 0..=registry.len() + 1 {
        if let Some(info) = registry.port_info(number) {
            found.push(info.number);
        }
    }
    found
}

fn names(registry: &ChannelRegistry<u32>) -> Vec<(String, String)> {
    (1..=registry.len())
        .map(|number| {
            let info = registry.port_info(number).unwrap();
            (info.input_port_name.clone(), info.output_port_name.clone())
        })
        .collect()
}

fn pair(number: usize) -> (String, String) {
    (format!("input_port_{}", number), format!("output_port_{}", number))
}

#[test]
fn a_new_registry_is_empty() {
    let registry: ChannelRegistry<u32> = ChannelRegistry::new(SinkType::OneToOne);
    assert_eq!(registry.len(), 0);
    assert_eq!(registry.sink_type(), SinkType::OneToOne);
    assert!(registry.port_info(0).is_none());
    assert!(registry.port_info(1).is_none());
}

#[test]
fn materialize_creates_channels_one_to_n() {
    let mut registry: ChannelRegistry<u32> = ChannelRegistry::new(SinkType::OneToOne);
    assert_eq!(registry.materialize(3, SinkType::OneToOne), Ok(()));
    assert_eq!(registry.len(), 3);
    assert_eq!(numbers(&registry), vec![1, 2, 3]);
    assert_eq!(names(&registry), vec![pair(1), pair(2), pair(3)]);
    for number in 1..=3 {
        assert!(registry.port_info(number).unwrap().channel.is_none());
    }
    assert!(registry.port_info(0).is_none());
    assert!(registry.port_info(4).is_none());
}

#[test]
fn reset_then_materialize_leaves_nothing_behind() {
    let mut registry: ChannelRegistry<u32> = ChannelRegistry::new(SinkType::OneToOne);
    assert_eq!(registry.materialize(3, SinkType::OneToOne), Ok(()));
    assert!(registry.bind(2, 22).is_none());
    registry.reset();
    assert_eq!(registry.len(), 0);
    assert!(numbers(&registry).is_empty());
    assert_eq!(registry.materialize(5, SinkType::OneToOne), Ok(()));
    assert_eq!(numbers(&registry), vec![1, 2, 3, 4, 5]);
    assert_eq!(names(&registry), vec![pair(1), pair(2), pair(3), pair(4), pair(5)]);
    for number in 1..=5 {
        assert!(registry.port_info(number).unwrap().channel.is_none());
    }
}

#[test]
fn materialize_replaces_a_larger_set() {
    let mut registry: ChannelRegistry<u32> = ChannelRegistry::new(SinkType::OneToOne);
    assert_eq!(registry.materialize(5, SinkType::OneToOne), Ok(()));
    assert_eq!(registry.materialize(2, SinkType::OneToOne), Ok(()));
    assert_eq!(numbers(&registry), vec![1, 2]);
}

#[test]
fn materialize_twice_gives_the_same_names() {
    let mut registry: ChannelRegistry<u32> = ChannelRegistry::new(SinkType::OneToOne);
    assert_eq!(registry.materialize(4, SinkType::OneToOne), Ok(()));
    let first = names(&registry);
    registry.reset();
    assert_eq!(registry.materialize(4, SinkType::OneToOne), Ok(()));
    assert_eq!(names(&registry), first);
}

#[test]
fn materialize_nothing() {
    let mut registry: ChannelRegistry<u32> = ChannelRegistry::new(SinkType::OneToOne);
    assert_eq!(registry.materialize(0, SinkType::OneToOne), Ok(()));
    assert_eq!(registry.len(), 0);
}

#[test]
fn all_to_one_is_refused_and_changes_nothing() {
    let mut registry: ChannelRegistry<u32> = ChannelRegistry::new(SinkType::AllToOne);
    assert_eq!(
        registry.materialize(3, SinkType::AllToOne),
        Err(ConfigurationError::UnsupportedTopology)
    );
    assert_eq!(registry.len(), 0);
    assert_eq!(registry.materialize(2, SinkType::OneToOne), Ok(()));
    assert!(registry.bind(1, 11).is_none());
    assert_eq!(
        registry.materialize(7, SinkType::AllToOne),
        Err(ConfigurationError::UnsupportedTopology)
    );
    assert_eq!(
        registry.materialize(0, SinkType::AllToOne),
        Err(ConfigurationError::UnsupportedTopology)
    );
    assert_eq!(numbers(&registry), vec![1, 2]);
    assert_eq!(names(&registry), vec![pair(1), pair(2)]);
    assert_eq!(registry.port_info(1).unwrap().channel, Some(11));
    assert_eq!(registry.port_info(2).unwrap().channel, None);
}

#[test]
fn the_topology_check_tells_the_two_apart() {
    assert_eq!(SinkType::OneToOne.check(), Ok(()));
    assert_eq!(SinkType::AllToOne.check(), Err(ConfigurationError::UnsupportedTopology));
}

#[test]
fn init_resets_and_materializes() {
    let mut registry: ChannelRegistry<u32> = ChannelRegistry::new(SinkType::OneToOne);
    assert_eq!(registry.init(3), Ok(()));
    assert!(registry.bind(3, 33).is_none());
    assert_eq!(registry.init(2), Ok(()));
    assert_eq!(numbers(&registry), vec![1, 2]);
    assert!(registry.take_resources().is_empty());
}

#[test]
fn init_under_all_to_one_fails_after_the_reset() {
    let mut registry: ChannelRegistry<u32> = ChannelRegistry::new(SinkType::AllToOne);
    assert_eq!(registry.materialize(2, SinkType::OneToOne), Ok(()));
    assert_eq!(registry.init(2), Err(ConfigurationError::UnsupportedTopology));
    assert_eq!(registry.len(), 0);
    assert_eq!(registry.sink_type(), SinkType::AllToOne);
}

#[test]
fn bind_gives_a_channel_its_resource() {
    let mut registry: ChannelRegistry<u32> = ChannelRegistry::new(SinkType::OneToOne);
    assert_eq!(registry.materialize(3, SinkType::OneToOne), Ok(()));
    assert_eq!(registry.bind(2, 20), None);
    assert_eq!(registry.port_info(1).unwrap().channel, None);
    assert_eq!(registry.port_info(2).unwrap().channel, Some(20));
    assert_eq!(registry.port_info(3).unwrap().channel, None);
    assert_eq!(numbers(&registry), vec![1, 2, 3]);
}

#[test]
fn bind_hands_back_what_it_cannot_place() {
    let mut registry: ChannelRegistry<u32> = ChannelRegistry::new(SinkType::OneToOne);
    assert_eq!(registry.materialize(2, SinkType::OneToOne), Ok(()));
    assert_eq!(registry.bind(0, 5), Some(5));
    assert_eq!(registry.bind(3, 6), Some(6));
    assert_eq!(registry.bind(1, 7), None);
    assert_eq!(registry.bind(1, 8), Some(8));
    assert_eq!(registry.port_info(1).unwrap().channel, Some(7));
    assert_eq!(registry.port_info(2).unwrap().channel, None);
}

#[test]
fn take_resources_leaves_the_identities() {
    let mut registry: ChannelRegistry<u32> = ChannelRegistry::new(SinkType::OneToOne);
    assert_eq!(registry.materialize(4, SinkType::OneToOne), Ok(()));
    assert_eq!(registry.bind(3, 30), None);
    assert_eq!(registry.bind(1, 10), None);
    assert_eq!(registry.bind(4, 40), None);
    assert_eq!(registry.take_resources(), vec![10, 30, 40]);
    assert_eq!(numbers(&registry), vec![1, 2, 3, 4]);
    assert_eq!(names(&registry), vec![pair(1), pair(2), pair(3), pair(4)]);
    for number in 1..=4 {
        assert!(registry.port_info(number).unwrap().channel.is_none());
    }
    assert!(registry.take_resources().is_empty());
}

#[test]
fn restore_binds_every_channel_in_order() {
    let mut registry: ChannelRegistry<u32> = ChannelRegistry::new(SinkType::OneToOne);
    assert_eq!(registry.materialize(3, SinkType::OneToOne), Ok(()));
    assert_eq!(registry.restore(vec![7, 8, 9]), None);
    assert_eq!(registry.port_info(1).unwrap().channel, Some(7));
    assert_eq!(registry.port_info(2).unwrap().channel, Some(8));
    assert_eq!(registry.port_info(3).unwrap().channel, Some(9));
    assert_eq!(registry.take_resources(), vec![7, 8, 9]);
}

#[test]
fn restore_hands_back_what_does_not_fit() {
    let mut registry: ChannelRegistry<u32> = ChannelRegistry::new(SinkType::OneToOne);
    assert_eq!(registry.materialize(3, SinkType::OneToOne), Ok(()));
    assert_eq!(registry.restore(vec![7, 8]), Some(vec![7, 8]));
    assert_eq!(registry.restore(vec![7, 8, 9, 10]), Some(vec![7, 8, 9, 10]));
    assert_eq!(registry.bind(2, 2), None);
    assert_eq!(registry.restore(vec![7, 8, 9]), Some(vec![7, 8, 9]));
    assert_eq!(registry.take_resources(), vec![2]);
    let mut empty: ChannelRegistry<u32> = ChannelRegistry::new(SinkType::OneToOne);
    assert_eq!(empty.restore(Vec::new()), None);
    assert_eq!(empty.restore(vec![1]), Some(vec![1]));
}

fn hash_of(info: &PortInfo<u32>) -> u64 {
    let mut hasher = DefaultHasher::new();
    info.hash(&mut hasher);
    hasher.finish()
}

#[test]
fn records_are_equal_by_number_alone() {
    let plain: PortInfo<u32> = PortInfo::new(2);
    let mut bound: PortInfo<u32> = PortInfo::new(2);
    bound.channel = Some(5);
    bound.input_port_name = String::from("renamed");
    let other: PortInfo<u32> = PortInfo::new(3);
    assert!(plain == bound);
    assert!(plain != other);
    assert_eq!(hash_of(&plain), hash_of(&bound));
    let mut hasher = DefaultHasher::new();
    2usize.hash(&mut hasher);
    assert_eq!(hash_of(&plain), hasher.finish());
}

#[test]
fn a_new_record_carries_the_derived_names() {
    let info: PortInfo<u32> = PortInfo::new(17);
    assert_eq!(info.number, 17);
    assert_eq!(info.input_port_name, "input_port_17");
    assert_eq!(info.output_port_name, "output_port_17");
    assert!(info.channel.is_none());
}
