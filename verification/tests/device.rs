use tunelock::device::{
    common_rates_in_ranges, describe_device, device_list, distinct_sorted_channels,
    find_device_by_name, resolve_stream_settings, stream_buffer_size, AudioDeviceConfig,
    BufferSizePreference, StreamBufferSize,
};

#[test]
fn default_config_is_all_none() {
    let cfg = AudioDeviceConfig::default();
    assert!(cfg.device_name.is_none());
    assert!(cfg.sample_rate.is_none());
    assert!(cfg.channels.is_none());
    assert!(cfg.buffer_size.is_none());
}

#[test]
fn buffer_size_preference_fixed_preserves_value() {
    let b = BufferSizePreference::Fixed(256);
    assert_eq!(b, BufferSizePreference::Fixed(256));
}

#[test]
fn common_rates_within_supported_ranges() {
    let rates = common_rates_in_ranges(&vec![(44100, 48000), (8000, 32000)]);
    assert_eq!(rates, vec![22050, 32000, 44100, 48000]);
    let all = common_rates_in_ranges(&vec![(1, 400000)]);
    assert_eq!(all, vec![22050, 32000, 44100, 48000, 88200, 96000, 176400, 192000]);
    assert!(common_rates_in_ranges(&vec![]).is_empty());
    assert!(common_rates_in_ranges(&vec![(44101, 47999)]).is_empty());
}

#[test]
fn channel_counts_are_distinct_and_ascending() {
    assert_eq!(distinct_sorted_channels(&vec![2, 1, 2, 6, 1]), vec![1, 2, 6]);
    assert!(distinct_sorted_channels(&vec![]).is_empty());
}

#[test]
fn device_description_falls_back_without_default_config() {
    let d = describe_device("Speakers".to_string(), &vec![(48000, 48000)], &vec![2, 2], None, true);
    assert_eq!(d.name, "Speakers");
    assert_eq!(d.sample_rates, vec![48000]);
    assert_eq!(d.channel_counts, vec![2]);
    assert_eq!(d.default_sample_rate, 44100);
    assert_eq!(d.default_channels, 2);
    assert!(d.is_default);

    let e = describe_device("Interface".to_string(), &vec![], &vec![8], Some((96000, 8)), false);
    assert_eq!(e.default_sample_rate, 96000);
    assert_eq!(e.default_channels, 8);
    assert!(!e.is_default);
}

#[test]
fn device_list_points_at_the_default_device() {
    let a = describe_device("A".to_string(), &vec![], &vec![], None, false);
    let b = describe_device("B".to_string(), &vec![], &vec![], None, true);
    let c = describe_device("C".to_string(), &vec![], &vec![], None, false);
    let list = device_list(vec![a.clone(), b, c.clone()]);
    assert_eq!(list.devices.len(), 3);
    assert_eq!(list.default_device_index, Some(1));
    let none = device_list(vec![a, c]);
    assert_eq!(none.default_device_index, None);
}

#[test]
fn stream_settings_follow_the_request_then_the_device() {
    let cfg = AudioDeviceConfig::default();
    let s = resolve_stream_settings(&cfg, 44100, 2);
    assert_eq!(s.sample_rate, 44100);
    assert_eq!(s.channels, 2);
    assert_eq!(s.buffer_size, None);

    let cfg = AudioDeviceConfig {
        device_name: None,
        sample_rate: Some(48000),
        channels: Some(6),
        buffer_size: Some(BufferSizePreference::Minimal),
    };
    let s = resolve_stream_settings(&cfg, 44100, 2);
    assert_eq!(s.sample_rate, 48000);
    assert_eq!(s.channels, 6);
    assert_eq!(s.buffer_size, Some(StreamBufferSize::Fixed(64)));
}

#[test]
fn buffer_preferences_map_to_stream_sizes() {
    assert_eq!(stream_buffer_size(BufferSizePreference::Default), StreamBufferSize::Default);
    assert_eq!(stream_buffer_size(BufferSizePreference::Minimal), StreamBufferSize::Fixed(64));
    assert_eq!(stream_buffer_size(BufferSizePreference::Fixed(512)), StreamBufferSize::Fixed(512));
}

#[test]
fn device_lookup_by_name() {
    let names = vec!["Built-in".to_string(), "USB Audio".to_string(), "USB Audio".to_string()];
    assert_eq!(find_device_by_name(&names, &"USB Audio".to_string()), Some(1));
    assert_eq!(find_device_by_name(&names, &"__nonexistent_device_12345__".to_string()), None);
}
