//! Choosing the default audio devices when a call starts.
//!
//! Audio devices are not necessarily there at once. Callbacks could tell when
//! they are, but they tell of *changes*, and the devices might have been fetched
//! before a callback was registered. So the lists are asked for a few times, up
//! to a limit, first the playout devices and then the recording ones. Then the
//! default device of either kind is selected.
//!
//! A [`SetupState`] says what to do next. Whoever drives the setup does it and
//! hands what came of it to [`set_default_audio_devices`], which gives the next
//! state.
use vstd::prelude::*;

use crate::device::AudioDevice;

verus! {

/// How long to wait for devices of one kind, in nanoseconds.
pub const AUDIO_DEVICE_TIMEOUT: u128 = 5_000_000_000;

/// How long to pause before the devices are asked for again, in nanoseconds.
pub const POLL_PAUSE: u64 = 100_000_000;

/// The number of the default device.
pub const DEFAULT_DEVICE: u16 = 0;

/// What a device is used for.
#[derive(Clone, Copy, Debug, PartialEq, Eq, Structural)]
pub enum DeviceKind {
    Playout,
    Recording,
}

/// How far the setup has come, which tells what is to be done.
#[derive(Debug)]
pub enum SetupState {
    /// The wait for devices begins: its clock is to be started.
    Starting(DeviceKind),
    /// The clock is to be read.
    Waiting(DeviceKind),
    /// The devices are to be asked for.
    Polling(DeviceKind),
    /// There were no devices: a pause is due.
    Pausing(DeviceKind),
    /// There are devices. They may be logged.
    Found(DeviceKind, Vec<AudioDevice>),
    /// The default device is to be selected.
    Selecting(DeviceKind),
    /// Both default devices are selected.
    Finished,
    /// No devices appeared in time.
    TimedOut(DeviceKind),
    /// The default device could not be selected.
    Failed(DeviceKind),
}

/// What came of doing what a state tells.
#[derive(Debug)]
pub enum SetupEvent {
    ClockStarted,
    /// The nanoseconds since the clock was started.
    Elapsed(u128),
    /// The devices there are, or `None` if asking for them failed.
    Polled(Option<Vec<AudioDevice>>),
    Paused,
    Logged,
    /// Whether the device was selected.
    Selected(bool),
}

/// What is to be done next.
#[derive(Clone, Copy, Debug, PartialEq, Eq, Structural)]
pub enum SetupAction {
    StartClock,
    ReadClock,
    Poll(DeviceKind),
    /// Pause for this many nanoseconds.
    Pause(u64),
    LogDevices(DeviceKind),
    /// Select the device with this number.
    Select(DeviceKind, u16),
    /// Nothing: the setup is over.
    Stop,
}

/// The state after an event. An event that the state does not wait for changes
/// nothing.
pub open spec fn next_state(state: SetupState, event: SetupEvent) -> SetupState {
    match (state, event) {
        (SetupState::Starting(kind), SetupEvent::ClockStarted) => SetupState::Waiting(kind),
        (SetupState::Waiting(kind), SetupEvent::Elapsed(nanos)) => if nanos
            < AUDIO_DEVICE_TIMEOUT {
            SetupState::Polling(kind)
        } else {
            SetupState::TimedOut(kind)
        },
        (SetupState::Polling(kind), SetupEvent::Polled(answer)) => match answer {
            Some(devices) => if devices@.len() > 0 {
                SetupState::Found(kind, devices)
            } else {
                SetupState::Pausing(kind)
            },
            None => SetupState::Pausing(kind),
        },
        (SetupState::Pausing(kind), SetupEvent::Paused) => SetupState::Waiting(kind),
        (SetupState::Found(DeviceKind::Playout, _), SetupEvent::Logged) => SetupState::Starting(
            DeviceKind::Recording,
        ),
        (SetupState::Found(DeviceKind::Recording, _), SetupEvent::Logged) => SetupState::Selecting(
            DeviceKind::Playout,
        ),
        (SetupState::Selecting(kind), SetupEvent::Selected(selected)) => if !selected {
            SetupState::Failed(kind)
        } else if kind == DeviceKind::Playout {
            SetupState::Selecting(DeviceKind::Recording)
        } else {
            SetupState::Finished
        },
        _ => state,
    }
}

/// What a state tells to do.
pub open spec fn action_in(state: SetupState) -> SetupAction {
    match state {
        SetupState::Starting(_) => SetupAction::StartClock,
        SetupState::Waiting(_) => SetupAction::ReadClock,
        SetupState::Polling(kind) => SetupAction::Poll(kind),
        SetupState::Pausing(_) => SetupAction::Pause(POLL_PAUSE),
        SetupState::Found(kind, _) => SetupAction::LogDevices(kind),
        SetupState::Selecting(kind) => SetupAction::Select(kind, DEFAULT_DEVICE),
        _ => SetupAction::Stop,
    }
}

impl SetupState {
    /// The setup begins with the wait for playout devices.
    pub fn begin() -> (state: SetupState)
        ensures
            state == SetupState::Starting(DeviceKind::Playout),
    {
        SetupState::Starting(DeviceKind::Playout)
    }

    /// What is to be done next.
    pub fn action(&self) -> (action: SetupAction)
        ensures
            action == action_in(*self),
    {
        match self {
            SetupState::Starting(_) => SetupAction::StartClock,
            SetupState::Waiting(_) => SetupAction::ReadClock,
            SetupState::Polling(kind) => SetupAction::Poll(*kind),
            SetupState::Pausing(_) => SetupAction::Pause(POLL_PAUSE),
            SetupState::Found(kind, _) => SetupAction::LogDevices(*kind),
            SetupState::Selecting(kind) => SetupAction::Select(*kind, DEFAULT_DEVICE),
            _ => SetupAction::Stop,
        }
    }

    /// Why the setup is over, if it is over without success and the reason is
    /// not the selection's own: no devices appeared in time.
    pub fn timeout_message(&self) -> (message: Option<&'static str>)
        ensures
            match message {
                Some(text) => self is TimedOut && text@ == "timed out waiting for playout devices"@,
                None => !(self is TimedOut),
            },
    {
        match self {
            SetupState::TimedOut(_) => Some("timed out waiting for playout devices"),
            _ => None,
        }
    }
}

/// One step of the wait for devices: what follows the clock's reading.
fn keep_waiting(kind: DeviceKind, elapsed: u128) -> (state: SetupState)
    ensures
        state == next_state(SetupState::Waiting(kind), SetupEvent::Elapsed(elapsed)),
{
    if elapsed < AUDIO_DEVICE_TIMEOUT {
        SetupState::Polling(kind)
    } else {
        SetupState::TimedOut(kind)
    }
}

/// One step of the wait for devices: what follows the answer.
fn take_answer(kind: DeviceKind, answer: Option<Vec<AudioDevice>>) -> (state: SetupState)
    ensures
        state == next_state(SetupState::Polling(kind), SetupEvent::Polled(answer)),
{
    match answer {
        Some(devices) => if devices.len() > 0 {
            SetupState::Found(kind, devices)
        } else {
            SetupState::Pausing(kind)
        },
        None => SetupState::Pausing(kind),
    }
}

/// Takes the setup of the default audio devices one step further.
pub fn set_default_audio_devices(state: SetupState, event: SetupEvent) -> (next: SetupState)
    ensures
        next == next_state(state, event),
{
    match (state, event) {
        (SetupState::Starting(kind), SetupEvent::ClockStarted) => SetupState::Waiting(kind),
        (SetupState::Waiting(kind), SetupEvent::Elapsed(nanos)) => keep_waiting(kind, nanos),
        (SetupState::Polling(kind), SetupEvent::Polled(answer)) => take_answer(kind, answer),
        (SetupState::Pausing(kind), SetupEvent::Paused) => SetupState::Waiting(kind),
        (SetupState::Found(DeviceKind::Playout, _), SetupEvent::Logged) => SetupState::Starting(
            DeviceKind::Recording,
        ),
        (SetupState::Found(DeviceKind::Recording, _), SetupEvent::Logged) => SetupState::Selecting(
            DeviceKind::Playout,
        ),
        (SetupState::Selecting(kind), SetupEvent::Selected(selected)) => if !selected {
            SetupState::Failed(kind)
        } else if kind == DeviceKind::Playout {
            SetupState::Selecting(DeviceKind::Recording)
        } else {
            SetupState::Finished
        },
        (state, _) => state,
    }
}

/// The state after a sequence of events.
pub open spec fn run(state: SetupState, events: Seq<SetupEvent>) -> SetupState
    decreases events.len(),
{
    if events.len() == 0 {
        state
    } else {
        next_state(run(state, events.drop_last()), events.last())
    }
}

/// The setup is over.
pub open spec fn is_over(state: SetupState) -> bool {
    state is Finished || state is TimedOut || state is Failed
}

/// How many of its stages the setup has left behind: waiting for playout
/// devices, logging them, waiting for recording devices, logging them, selecting
/// the playout device and selecting the recording device.
pub open spec fn stages_done(state: SetupState) -> int {
    match state {
        SetupState::Starting(kind) | SetupState::Waiting(kind) | SetupState::Polling(kind)
        | SetupState::Pausing(kind) | SetupState::TimedOut(kind) => if kind
            == DeviceKind::Playout {
            0
        } else {
            2
        },
        SetupState::Found(kind, _) => if kind == DeviceKind::Playout {
            1
        } else {
            3
        },
        SetupState::Selecting(kind) | SetupState::Failed(kind) => if kind == DeviceKind::Playout {
            4
        } else {
            5
        },
        SetupState::Finished => 6,
    }
}

/// The event is a list of devices that is not empty.
pub open spec fn brings_devices(event: SetupEvent) -> bool {
    event matches SetupEvent::Polled(Some(devices)) && devices@.len() > 0
}

/// The setup goes through its stages in order: no event leaves more than one
/// behind or returns to one. A wait is left only for a list of devices that is
/// not empty, and a selection only when it succeeded.
pub proof fn stages_come_in_order(state: SetupState, event: SetupEvent)
    ensures
        stages_done(state) <= stages_done(next_state(state, event)) <= stages_done(state) + 1,
        stages_done(next_state(state, event)) > stages_done(state) ==> if state is Polling {
            brings_devices(event)
        } else if state is Selecting {
            event == SetupEvent::Selected(true)
        } else {
            state is Found && event is Logged
        },
{
}

/// The event is what comes of doing the action.
pub open spec fn answers(event: SetupEvent, action: SetupAction) -> bool {
    match action {
        SetupAction::StartClock => event is ClockStarted,
        SetupAction::ReadClock => event is Elapsed,
        SetupAction::Poll(_) => event is Polled,
        SetupAction::Pause(_) => event is Paused,
        SetupAction::LogDevices(_) => event is Logged,
        SetupAction::Select(_, _) => event is Selected,
        SetupAction::Stop => false,
    }
}

/// The setup never stands still: doing what a state tells leads to another
/// state, and nothing else does.
pub proof fn every_answer_moves_on(state: SetupState, event: SetupEvent)
    ensures
        next_state(state, event) != state <==> answers(event, action_in(state)),
        action_in(state) == SetupAction::Stop <==> is_over(state),
{
}

/// What is over stays over, whatever else happens.
pub proof fn the_end_is_final(state: SetupState, events: Seq<SetupEvent>)
    requires
        is_over(state),
    ensures
        run(state, events) == state,
        action_in(state) == SetupAction::Stop,
    decreases events.len(),
{
    if events.len() > 0 {
        the_end_is_final(state, events.drop_last());
    }
}

/// A wait ends without devices if and only if its clock is read at or after the
/// limit; before that the devices are asked for.
pub proof fn waits_end_at_the_limit(kind: DeviceKind, event: SetupEvent)
    ensures
        next_state(SetupState::Waiting(kind), event) is TimedOut <==> (
        event matches SetupEvent::Elapsed(nanos) && nanos >= 5_000_000_000),
        forall|state: SetupState|
            !(state is Waiting) && !is_over(state) ==> !(#[trigger] next_state(
                state,
                event,
            ) is TimedOut),
{
}

/// How many of the events are of a kind.
pub open spec fn count_of(events: Seq<SetupEvent>, what: spec_fn(SetupEvent) -> bool) -> nat {
    events.filter(what).len()
}

/// The setup succeeds only after two lists of devices that were not empty and
/// two selections that succeeded.
pub proof fn success_takes_devices_and_selections(events: Seq<SetupEvent>)
    requires
        run(SetupState::Starting(DeviceKind::Playout), events) is Finished,
    ensures
        count_of(events, |event: SetupEvent| brings_devices(event)) >= 2,
        count_of(events, |event: SetupEvent| event == SetupEvent::Selected(true)) >= 2,
{
    count_stages(events);
}

/// The events of a run are enough for the stages that it has left behind.
proof fn count_stages(events: Seq<SetupEvent>)
    ensures
        ({
            let done = stages_done(run(SetupState::Starting(DeviceKind::Playout), events));
            let lists = count_of(events, |event: SetupEvent| brings_devices(event));
            let selections = count_of(
                events,
                |event: SetupEvent| event == SetupEvent::Selected(true),
            );
            &&& done >= 1 ==> lists >= 1
            &&& done >= 3 ==> lists >= 2
            &&& done >= 5 ==> selections >= 1
            &&& done >= 6 ==> selections >= 2
        }),
    decreases events.len(),
{
    reveal(Seq::filter);
    if events.len() > 0 {
        count_stages(events.drop_last());
        stages_come_in_order(
            run(SetupState::Starting(DeviceKind::Playout), events.drop_last()),
            events.last(),
        );
    }
}

/// Any list with at least one device ends the wait for its kind, however many
/// devices it holds, and is handed on as it is. An empty list, or none, leads to
/// a pause.
pub proof fn devices_end_the_wait(kind: DeviceKind, answer: Option<Vec<AudioDevice>>)
    ensures
        match answer {
            Some(devices) => devices@.len() != 0 ==> next_state(
                SetupState::Polling(kind),
                SetupEvent::Polled(answer),
            ) == SetupState::Found(kind, devices),
            None => true,
        },
        !(answer matches Some(devices) && devices@.len() != 0) ==> next_state(
            SetupState::Polling(kind),
            SetupEvent::Polled(answer),
        ) == SetupState::Pausing(kind),
{
}

/// The setup progresses exactly where it should: from a wait by devices, from a
/// selection by its success, and past devices once they were logged.
pub proof fn progress_is_made(state: SetupState, event: SetupEvent)
    ensures
        stages_done(next_state(state, event)) == stages_done(state) + 1 <==> {
            ||| state is Polling && (event matches SetupEvent::Polled(Some(devices))
                && devices@.len() != 0)
            ||| state is Selecting && event == SetupEvent::Selected(true)
            ||| state is Found && event is Logged
        },
{
}

/// Running one sequence of events and then another is running both as one.
pub proof fn runs_compose(state: SetupState, first: Seq<SetupEvent>, second: Seq<SetupEvent>)
    ensures
        run(state, first + second) == run(run(state, first), second),
    decreases second.len(),
{
    if second.len() == 0 {
        assert(first + second =~= first);
    } else {
        assert((first + second).drop_last() =~= first + second.drop_last());
        runs_compose(state, first, second.drop_last());
    }
}

/// The state after one event.
proof fn one_event(state: SetupState, event: SetupEvent)
    ensures
        run(state, seq![event]) == next_state(state, event),
{
    assert(seq![event].drop_last() =~= Seq::empty());
    assert(run(state, Seq::empty()) == state);
}

/// While the limit is not reached, a look that brings no devices is followed by
/// a pause of a tenth of a second and another reading of the same clock. Each
/// look is for the kind that is waited for.
pub proof fn a_look_without_devices_is_repeated(
    kind: DeviceKind,
    nanos: u128,
    answer: Option<Vec<AudioDevice>>,
)
    requires
        nanos < 5_000_000_000,
        answer matches Some(devices) ==> devices@.len() == 0,
    ensures
        ({
            let waiting = SetupState::Waiting(kind);
            let asked = next_state(waiting, SetupEvent::Elapsed(nanos));
            let answered = next_state(asked, SetupEvent::Polled(answer));
            &&& action_in(waiting) == SetupAction::ReadClock
            &&& action_in(asked) == SetupAction::Poll(kind)
            &&& action_in(answered) == SetupAction::Pause(100_000_000)
            &&& next_state(answered, SetupEvent::Paused) == waiting
        }),
{
}

/// A look at the devices that brings none: the clock's reading before it, and
/// the answer.
pub open spec fn fruitless(look: (u128, Option<Vec<AudioDevice>>)) -> bool {
    look.0 < 5_000_000_000 && (look.1 matches Some(devices) ==> devices@.len() == 0)
}

/// The events of looks at the devices, one after the other.
pub open spec fn looks(of: Seq<(u128, Option<Vec<AudioDevice>>)>) -> Seq<SetupEvent>
    decreases of.len(),
{
    if of.len() == 0 {
        Seq::empty()
    } else {
        looks(of.drop_last()) + seq![SetupEvent::Elapsed(of.last().0)] + seq![
            SetupEvent::Polled(of.last().1),
        ] + seq![SetupEvent::Paused]
    }
}

/// However many looks bring no devices, the wait goes on.
pub proof fn fruitless_looks_keep_the_wait(
    kind: DeviceKind,
    of: Seq<(u128, Option<Vec<AudioDevice>>)>,
)
    requires
        forall|i: int| 0 <= i < of.len() ==> fruitless(#[trigger] of[i]),
    ensures
        run(SetupState::Waiting(kind), looks(of)) == SetupState::Waiting(kind),
    decreases of.len(),
{
    if of.len() > 0 {
        let rest = of.drop_last();
        let waiting = SetupState::Waiting(kind);
        assert forall|i: int| 0 <= i < rest.len() implies fruitless(#[trigger] rest[i]) by {
            assert(rest[i] == of[i]);
        }
        fruitless_looks_keep_the_wait(kind, rest);
        let read = seq![SetupEvent::Elapsed(of.last().0)];
        let polled = seq![SetupEvent::Polled(of.last().1)];
        let paused = seq![SetupEvent::Paused];
        assert(fruitless(of[of.len() - 1]));
        runs_compose(waiting, looks(rest) + read + polled, paused);
        runs_compose(waiting, looks(rest) + read, polled);
        runs_compose(waiting, looks(rest), read);
        one_event(waiting, SetupEvent::Elapsed(of.last().0));
        one_event(SetupState::Polling(kind), SetupEvent::Polled(of.last().1));
        one_event(SetupState::Pausing(kind), SetupEvent::Paused);
    }
}

/// The events of a wait that ends with devices: any number of looks that bring
/// none, then one that brings these.
pub open spec fn wait_for(
    of: Seq<(u128, Option<Vec<AudioDevice>>)>,
    nanos: u128,
    devices: Vec<AudioDevice>,
) -> Seq<SetupEvent> {
    seq![SetupEvent::ClockStarted] + looks(of) + seq![SetupEvent::Elapsed(nanos)] + seq![
        SetupEvent::Polled(Some(devices)),
    ]
}

/// A wait in which devices appear before the limit ends with those devices,
/// whatever came before.
pub proof fn timely_devices_are_found(
    kind: DeviceKind,
    of: Seq<(u128, Option<Vec<AudioDevice>>)>,
    nanos: u128,
    devices: Vec<AudioDevice>,
)
    requires
        forall|i: int| 0 <= i < of.len() ==> fruitless(#[trigger] of[i]),
        nanos < 5_000_000_000,
        devices@.len() != 0,
    ensures
        action_in(SetupState::Starting(kind)) == SetupAction::StartClock,
        run(SetupState::Starting(kind), wait_for(of, nanos, devices)) == SetupState::Found(
            kind,
            devices,
        ),
        action_in(SetupState::Found(kind, devices)) == SetupAction::LogDevices(kind),
{
    let starting = SetupState::Starting(kind);
    let started = seq![SetupEvent::ClockStarted];
    let read = seq![SetupEvent::Elapsed(nanos)];
    let polled = seq![SetupEvent::Polled(Some(devices))];
    runs_compose(starting, started + looks(of) + read, polled);
    runs_compose(starting, started + looks(of), read);
    runs_compose(starting, started, looks(of));
    one_event(starting, SetupEvent::ClockStarted);
    fruitless_looks_keep_the_wait(kind, of);
    one_event(SetupState::Waiting(kind), SetupEvent::Elapsed(nanos));
    one_event(SetupState::Polling(kind), SetupEvent::Polled(Some(devices)));
}

/// Where playout devices and then recording devices appear in time, device 0 of
/// either kind is selected, the playout device first, and the setup succeeds.
pub proof fn both_default_devices_are_selected(playout: Vec<AudioDevice>, recording: Vec<AudioDevice>)
    ensures
        ({
            let waited = next_state(
                SetupState::Found(DeviceKind::Playout, playout),
                SetupEvent::Logged,
            );
            let first = next_state(
                SetupState::Found(DeviceKind::Recording, recording),
                SetupEvent::Logged,
            );
            let second = next_state(first, SetupEvent::Selected(true));
            &&& waited == SetupState::Starting(DeviceKind::Recording)
            &&& action_in(first) == SetupAction::Select(DeviceKind::Playout, 0)
            &&& action_in(second) == SetupAction::Select(DeviceKind::Recording, 0)
            &&& next_state(second, SetupEvent::Selected(true)) == SetupState::Finished
            &&& next_state(first, SetupEvent::Selected(false)) == SetupState::Failed(
                DeviceKind::Playout,
            )
            &&& next_state(second, SetupEvent::Selected(false)) == SetupState::Failed(
                DeviceKind::Recording,
            )
        }),
{
}

/// A setup in which devices of both kinds appear in time and both selections
/// succeed is successful, however many looks were needed and however many
/// devices there are.
pub proof fn a_timely_setup_succeeds(
    playout_looks: Seq<(u128, Option<Vec<AudioDevice>>)>,
    playout_nanos: u128,
    playout: Vec<AudioDevice>,
    recording_looks: Seq<(u128, Option<Vec<AudioDevice>>)>,
    recording_nanos: u128,
    recording: Vec<AudioDevice>,
)
    requires
        forall|i: int| 0 <= i < playout_looks.len() ==> fruitless(#[trigger] playout_looks[i]),
        forall|i: int| 0 <= i < recording_looks.len() ==> fruitless(#[trigger] recording_looks[i]),
        playout_nanos < 5_000_000_000,
        recording_nanos < 5_000_000_000,
        playout@.len() != 0,
        recording@.len() != 0,
    ensures
        run(
            SetupState::Starting(DeviceKind::Playout),
            wait_for(playout_looks, playout_nanos, playout) + seq![SetupEvent::Logged] + wait_for(
                recording_looks,
                recording_nanos,
                recording,
            ) + seq![SetupEvent::Logged] + seq![SetupEvent::Selected(true)] + seq![
                SetupEvent::Selected(true),
            ],
        ) is Finished,
{
    let start = SetupState::Starting(DeviceKind::Playout);
    let a = wait_for(playout_looks, playout_nanos, playout);
    let b = wait_for(recording_looks, recording_nanos, recording);
    let logged = seq![SetupEvent::Logged];
    let selected = seq![SetupEvent::Selected(true)];
    runs_compose(start, a + logged + b + logged + selected, selected);
    runs_compose(start, a + logged + b + logged, selected);
    runs_compose(start, a + logged + b, logged);
    runs_compose(start, a + logged, b);
    runs_compose(start, a, logged);
    timely_devices_are_found(DeviceKind::Playout, playout_looks, playout_nanos, playout);
    timely_devices_are_found(DeviceKind::Recording, recording_looks, recording_nanos, recording);
    one_event(SetupState::Found(DeviceKind::Playout, playout), SetupEvent::Logged);
    one_event(SetupState::Found(DeviceKind::Recording, recording), SetupEvent::Logged);
    one_event(SetupState::Selecting(DeviceKind::Playout), SetupEvent::Selected(true));
    one_event(SetupState::Selecting(DeviceKind::Recording), SetupEvent::Selected(true));
}

/// A clock read at the limit or after it ends the wait, whichever kind is waited
/// for; there is nothing more to do then.
pub proof fn a_late_clock_ends_the_wait(kind: DeviceKind, nanos: u128)
    requires
        nanos >= 5_000_000_000,
    ensures
        next_state(SetupState::Starting(kind), SetupEvent::ClockStarted) == SetupState::Waiting(
            kind,
        ),
        next_state(SetupState::Waiting(kind), SetupEvent::Elapsed(nanos)) == SetupState::TimedOut(
            kind,
        ),
        action_in(SetupState::TimedOut(kind)) == SetupAction::Stop,
{
}

} // verus!
