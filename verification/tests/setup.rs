use ringrtc_devices::audio::{
    set_default_audio_devices, DeviceKind, SetupAction, SetupEvent, SetupState,
    AUDIO_DEVICE_TIMEOUT,
};
use ringrtc_devices::device::AudioDevice;

fn device() -> AudioDevice {
    AudioDevice {
        name: "Mic".to_string(),
        unique_id: "mic".to_string(),
        i18n_key: "".to_string(),
    }
}

fn run(events: Vec<SetupEvent>) -> SetupState {
    let mut state = SetupState::begin();
    for event in events {
        state = set_default_audio_devices(state, event);
    }
    state
}

fn found(kind_events: &mut Vec<SetupEvent>) {
    kind_events.push(SetupEvent::ClockStarted);
    kind_events.push(SetupEvent::Elapsed(0));
    kind_events.push(SetupEvent::Polled(Some(vec![device()])));
    kind_events.push(SetupEvent::Logged);
}

#[test]
fn both_devices_are_selected() {
    let mut events: Vec<SetupEvent> = Vec::new();
    found(&mut events);
    found(&mut events);
    let state = run(events);
    assert_eq!(state.action(), SetupAction::Select(DeviceKind::Playout, 0));
    let state = set_default_audio_devices(state, SetupEvent::Selected(true));
    assert_eq!(state.action(), SetupAction::Select(DeviceKind::Recording, 0));
    let state = set_default_audio_devices(state, SetupEvent::Selected(true));
    assert!(matches!(state, SetupState::Finished));
    assert_eq!(state.action(), SetupAction::Stop);
    assert_eq!(state.timeout_message(), None);
}

#[test]
fn devices_are_asked_for_again_after_a_pause() {
    let mut state = run(vec![SetupEvent::ClockStarted, SetupEvent::Elapsed(0)]);
    for answer in [None, Some(vec![])] {
        assert_eq!(state.action(), SetupAction::Poll(DeviceKind::Playout));
        state = set_default_audio_devices(state, SetupEvent::Polled(answer));
        assert_eq!(state.action(), SetupAction::Pause(100_000_000));
        state = set_default_audio_devices(state, SetupEvent::Paused);
        assert_eq!(state.action(), SetupAction::ReadClock);
        state = set_default_audio_devices(state, SetupEvent::Elapsed(AUDIO_DEVICE_TIMEOUT - 1));
    }
    let state = set_default_audio_devices(state, SetupEvent::Polled(Some(vec![device()])));
    assert_eq!(state.action(), SetupAction::LogDevices(DeviceKind::Playout));
    match &state {
        SetupState::Found(kind, devices) => {
            assert_eq!(*kind, DeviceKind::Playout);
            assert_eq!(devices, &vec![device()]);
        }
        _ => panic!("no devices"),
    }
}

#[test]
fn waits_time_out() {
    let state = run(vec![SetupEvent::ClockStarted, SetupEvent::Elapsed(5_000_000_000)]);
    assert!(matches!(state, SetupState::TimedOut(DeviceKind::Playout)));
    assert_eq!(state.timeout_message(), Some("timed out waiting for playout devices"));
    let mut events: Vec<SetupEvent> = Vec::new();
    found(&mut events);
    events.push(SetupEvent::ClockStarted);
    events.push(SetupEvent::Elapsed(u128::MAX));
    let state = run(events);
    assert!(matches!(state, SetupState::TimedOut(DeviceKind::Recording)));
    assert_eq!(state.timeout_message(), Some("timed out waiting for playout devices"));
    // Nothing follows.
    let state = set_default_audio_devices(state, SetupEvent::ClockStarted);
    assert_eq!(state.action(), SetupAction::Stop);
}

#[test]
fn a_failed_selection_ends_the_setup() {
    let mut events: Vec<SetupEvent> = Vec::new();
    found(&mut events);
    found(&mut events);
    events.push(SetupEvent::Selected(false));
    let state = run(events);
    assert!(matches!(state, SetupState::Failed(DeviceKind::Playout)));
    let state = set_default_audio_devices(state, SetupEvent::Selected(true));
    assert!(matches!(state, SetupState::Failed(DeviceKind::Playout)));
    assert_eq!(state.timeout_message(), None);
}

#[test]
fn events_out_of_turn_change_nothing() {
    let state = run(vec![SetupEvent::Selected(true), SetupEvent::Elapsed(7), SetupEvent::Paused]);
    assert!(matches!(state, SetupState::Starting(DeviceKind::Playout)));
    assert_eq!(state.action(), SetupAction::StartClock);
}
