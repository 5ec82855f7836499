use ringrtc_devices::device::{
    AudioDevice, DeviceCollectionWrapper, DeviceDescription, DevicePref, DeviceState, DeviceType,
    MULTIMEDIA, NOTIFICATION, VOICE,
};
use ringrtc_devices::profile::Platform;

fn description(device_id: &str, friendly_name: &str, preferred: DevicePref) -> DeviceDescription {
    DeviceDescription {
        devid: 0,
        device_id: Some(device_id.to_string()),
        friendly_name: Some(friendly_name.to_string()),
        device_type: DeviceType::Input,
        preferred,
        state: DeviceState::Enabled,
    }
}

fn shown(name: &str, unique_id: &str) -> Option<AudioDevice> {
    Some(AudioDevice {
        name: name.to_string(),
        unique_id: unique_id.to_string(),
        i18n_key: "".to_string(),
    })
}

#[test]
fn extract_names_handles_normal() {
    let devs = DeviceCollectionWrapper::new(&vec![
        description("devid1", "Device 1", DevicePref::all()),
        description("devid2", "Device 2", DevicePref::empty()),
    ]);

    for platform in [Platform::MacOs, Platform::Linux] {
        let names = DeviceCollectionWrapper::extract_names(&devs, platform);
        assert_eq!(
            names,
            vec![
                shown("default (Device 1)", "devid1"),
                shown("Device 1", "devid1"),
                shown("Device 2", "devid2"),
            ],
        );
    }

    let names = DeviceCollectionWrapper::extract_names(&devs, Platform::Windows);
    assert_eq!(
        names,
        vec![
            shown("Default - Device 1", "devid1"),
            shown("Communication - Device 1", "devid1"),
            shown("Device 1", "devid1"),
            shown("Device 2", "devid2"),
        ],
    );
}

#[test]
fn extract_names_handles_no_preferred_device() {
    let devs = DeviceCollectionWrapper::new(&vec![
        description("devid1", "Device 1", DevicePref::empty()),
        description("devid2", "Device 2", DevicePref::empty()),
    ]);

    for platform in [Platform::MacOs, Platform::Linux] {
        let names = DeviceCollectionWrapper::extract_names(&devs, platform);
        assert_eq!(
            names,
            vec![None, shown("Device 1", "devid1"), shown("Device 2", "devid2")],
        );
    }

    // Windows expects an extra communication device.
    let names = DeviceCollectionWrapper::extract_names(&devs, Platform::Windows);
    assert_eq!(
        names,
        vec![None, None, shown("Device 1", "devid1"), shown("Device 2", "devid2")],
    );
}

#[test]
fn devices_without_a_friendly_name_are_not_kept() {
    let mut nameless = description("devid1", "", DevicePref::all());
    nameless.friendly_name = None;
    let devs =
        DeviceCollectionWrapper::new(&vec![nameless, description("d2", "Two", DevicePref::empty())]);
    let names: Vec<&str> = devs.iter().iter().map(|d| d.friendly_name.as_str()).collect();
    assert_eq!(names, ["Two"]);
    assert_eq!(devs.iter()[0].device_id.as_deref(), Some("d2"));
    assert_eq!(devs.clone(), devs);
}

#[test]
fn only_enabled_devices_count() {
    let mut unplugged = description("d1", "One", DevicePref::all());
    unplugged.state = DeviceState::Unplugged;
    let mut disabled = description("d2", "Two", DevicePref::all());
    disabled.state = DeviceState::Disabled;
    let devs = DeviceCollectionWrapper::new(&vec![unplugged, disabled]);
    for platform in [Platform::Windows, Platform::MacOs, Platform::Linux] {
        assert_eq!(devs.count(platform), 0);
        assert!(devs.get(platform, 0).is_none());
        assert!(devs.get(platform, 1).is_none());
    }
}

#[test]
fn no_devices_at_all() {
    let devs = DeviceCollectionWrapper::default();
    assert_eq!(devs.extract_names(Platform::MacOs), vec![]);
    assert_eq!(devs.extract_names(Platform::Linux), vec![]);
    assert_eq!(devs.extract_names(Platform::Windows), vec![None, None]);
}

#[test]
fn windows_has_two_defaults() {
    let devs = DeviceCollectionWrapper::new(&vec![
        description("d1", "One", DevicePref { bits: VOICE }),
        description("d2", "Two", DevicePref { bits: MULTIMEDIA | NOTIFICATION }),
    ]);
    assert_eq!(devs.count(Platform::Windows), 2);
    let name = |idx: usize| devs.get(Platform::Windows, idx).map(|d| d.friendly_name.clone());
    assert_eq!(name(0), Some("Two".to_string()));
    assert_eq!(name(1), Some("One".to_string()));
    assert_eq!(name(2), Some("One".to_string()));
    assert_eq!(name(3), Some("Two".to_string()));
    assert_eq!(name(4), None);
    assert_eq!(name(usize::MAX), None);
}

#[test]
fn linux_does_not_list_monitors() {
    let devs = DeviceCollectionWrapper::new(&vec![
        description("out.monitor", "Monitor", DevicePref { bits: VOICE }),
        description("mic", "Mic", DevicePref::empty()),
    ]);
    // The monitor is the default, and is respected as such.
    assert_eq!(
        devs.extract_names(Platform::Linux),
        vec![shown("default (Monitor)", "out.monitor"), shown("Mic", "mic")],
    );
    assert_eq!(devs.iter_non_monitor().len(), 1);
    assert_eq!(devs.iter().len(), 2);
    // Elsewhere a name like that means nothing.
    assert_eq!(
        devs.extract_names(Platform::MacOs),
        vec![
            shown("default (Monitor)", "out.monitor"),
            shown("Monitor", "out.monitor"),
            shown("Mic", "mic"),
        ],
    );
}

#[test]
fn only_inputs_are_monitors() {
    let mut output = description("out.monitor", "Out", DevicePref::empty());
    output.device_type = DeviceType::Output;
    let mut both = description("both.monitor", "Both", DevicePref::empty());
    both.device_type = DeviceType::InputAndOutput;
    let mut nameless = description("", "Nameless", DevicePref::empty());
    nameless.device_id = None;
    let devs = DeviceCollectionWrapper::new(&vec![output, both, nameless]);
    assert_eq!(devs.iter_non_monitor().len(), 3);
}

#[test]
fn linux_allows_a_default_that_is_a_monitor() {
    let monitor = description("out.monitor", "Monitor", DevicePref { bits: VOICE });
    let devs = DeviceCollectionWrapper::new(&vec![monitor]);
    assert_eq!(devs.count(Platform::Linux), 1);
    assert_eq!(
        devs.extract_names(Platform::Linux),
        vec![shown("default (Monitor)", "out.monitor")],
    );
    assert!(devs.get(Platform::Linux, 1).is_none());
    let plain = description("out.monitor", "Monitor", DevicePref::empty());
    let devs = DeviceCollectionWrapper::new(&vec![plain]);
    assert_eq!(devs.count(Platform::Linux), 0);
    assert_eq!(devs.count(Platform::MacOs), 2);
}

#[test]
fn a_device_without_an_identifier_gets_name_and_number() {
    let mut devices: Vec<DeviceDescription> = Vec::new();
    for _ in 0..11 {
        let mut device = description("", "Mic", DevicePref { bits: VOICE });
        device.device_id = None;
        devices.push(device);
    }
    let names = DeviceCollectionWrapper::new(&devices).extract_names(Platform::MacOs);
    assert_eq!(names.len(), 12);
    assert_eq!(names[0], shown("default (Mic)", "Mic-0"));
    assert_eq!(names[7], shown("Mic", "Mic-7"));
    assert_eq!(names[11], shown("Mic", "Mic-11"));
}

#[test]
fn preferences_are_sets_of_flags() {
    assert!(DevicePref::all().contains(MULTIMEDIA | VOICE | NOTIFICATION));
    assert!(!DevicePref::empty().contains(VOICE));
    assert!(DevicePref::empty().contains(0));
    assert!(!DevicePref { bits: VOICE }.contains(VOICE | MULTIMEDIA));
}
