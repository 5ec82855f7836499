//! The audio devices of a machine, and the numbers by which callers know them.
use vstd::prelude::*;

use crate::profile::Platform;
use crate::text::{append_decimal, decimal, decimals_read_back, ends_with};

verus! {

/// The state of a device.
#[derive(Clone, Copy, Debug, PartialEq, Eq, Structural)]
pub enum DeviceState {
    /// The device has been disabled at the system level.
    Disabled,
    /// The device is enabled, but nothing is plugged into it.
    Unplugged,
    /// The device is enabled.
    Enabled,
}

/// Whether a device takes sound in or gives it out.
#[derive(Clone, Copy, Debug, PartialEq, Eq, Structural)]
pub enum DeviceType {
    Unknown,
    Input,
    Output,
    InputAndOutput,
}

/// A device is preferred for multimedia.
pub const MULTIMEDIA: u32 = 0x01;

/// A device is preferred for voice.
pub const VOICE: u32 = 0x02;

/// A device is preferred for notifications.
pub const NOTIFICATION: u32 = 0x04;

/// What a device is preferred for: a set of flags.
#[derive(Clone, Copy, Debug, PartialEq, Eq, Structural)]
pub struct DevicePref {
    pub bits: u32,
}

impl DevicePref {
    /// All of the flags in `flags` are set.
    pub open spec fn has(self, flags: u32) -> bool {
        self.bits & flags == flags
    }

    /// No preference.
    pub fn empty() -> (pref: DevicePref)
        ensures
            pref.bits == 0,
    {
        DevicePref { bits: 0 }
    }

    /// Preferred for everything.
    pub fn all() -> (pref: DevicePref)
        ensures
            pref.bits == 0x0F,
            pref.has(MULTIMEDIA),
            pref.has(VOICE),
            pref.has(NOTIFICATION),
    {
        assert(0x0Fu32 & 0x01 == 0x01) by (bit_vector);
        assert(0x0Fu32 & 0x02 == 0x02) by (bit_vector);
        assert(0x0Fu32 & 0x04 == 0x04) by (bit_vector);
        DevicePref { bits: 0x0F }
    }

    /// Whether all of the flags in `flags` are set.
    pub fn contains(&self, flags: u32) -> (contained: bool)
        ensures
            contained == self.has(flags),
    {
        self.bits & flags == flags
    }
}

/// A device as the audio library describes it.
#[derive(Clone, Debug, PartialEq, Eq)]
pub struct DeviceDescription {
    /// The audio library's handle for the device.
    pub devid: usize,
    pub device_id: Option<String>,
    pub friendly_name: Option<String>,
    pub device_type: DeviceType,
    pub preferred: DevicePref,
    pub state: DeviceState,
}

/// What the library keeps of a device.
#[derive(Debug, PartialEq, Eq)]
pub struct MinimalDeviceInfo {
    /// The audio library's handle for the device.
    pub devid: usize,
    pub device_id: Option<String>,
    pub friendly_name: String,
    pub device_type: DeviceType,
    pub preferred: DevicePref,
    pub state: DeviceState,
}

impl Clone for MinimalDeviceInfo {
    fn clone(&self) -> (copy: MinimalDeviceInfo)
        ensures
            copy == *self,
    {
        MinimalDeviceInfo {
            devid: self.devid,
            device_id: match &self.device_id {
                Some(id) => Some(id.clone()),
                None => None,
            },
            friendly_name: self.friendly_name.clone(),
            device_type: self.device_type,
            preferred: self.preferred,
            state: self.state,
        }
    }
}

/// A device as callers see it.
#[derive(Clone, Debug, PartialEq, Eq)]
pub struct AudioDevice {
    pub name: String,
    pub unique_id: String,
    pub i18n_key: String,
}

/// The texts of an [`AudioDevice`].
pub struct AudioDeviceTexts {
    pub name: Seq<char>,
    pub unique_id: Seq<char>,
    pub i18n_key: Seq<char>,
}

impl View for AudioDevice {
    type V = AudioDeviceTexts;

    open spec fn view(&self) -> AudioDeviceTexts {
        AudioDeviceTexts {
            name: self.name@,
            unique_id: self.unique_id@,
            i18n_key: self.i18n_key@,
        }
    }
}

/// The texts of a device, where there is one.
pub open spec fn texts(device: Option<AudioDevice>) -> Option<AudioDeviceTexts> {
    match device {
        Some(device) => Some(device@),
        None => None,
    }
}

/// What is kept of a described device: all of it, if it has a friendly name.
pub open spec fn minimal(device: DeviceDescription) -> Option<MinimalDeviceInfo> {
    match device.friendly_name {
        Some(friendly_name) => Some(
            MinimalDeviceInfo {
                devid: device.devid,
                device_id: device.device_id,
                friendly_name,
                device_type: device.device_type,
                preferred: device.preferred,
                state: device.state,
            },
        ),
        None => None,
    }
}

/// Monitors are inputs that play back what an output plays; PulseAudio names
/// them after the output.
pub open spec fn is_monitor(device: MinimalDeviceInfo) -> bool {
    device.device_type == DeviceType::Input && (device.device_id matches Some(id)
        && ".monitor"@.is_suffix_of(id@))
}

/// The devices that are plugged in and not disabled by the operating system.
pub open spec fn enabled(devices: Seq<MinimalDeviceInfo>) -> Seq<MinimalDeviceInfo> {
    devices.filter(|device: MinimalDeviceInfo| device.state == DeviceState::Enabled)
}

/// The enabled devices that are no monitors.
pub open spec fn enabled_non_monitors(devices: Seq<MinimalDeviceInfo>) -> Seq<MinimalDeviceInfo> {
    devices.filter(
        |device: MinimalDeviceInfo|
            device.state == DeviceState::Enabled && !is_monitor(device),
    )
}

/// The devices that are listed after the default ones. Linux lists no monitors.
pub open spec fn listed(platform: Platform, devices: Seq<MinimalDeviceInfo>) -> Seq<
    MinimalDeviceInfo,
> {
    match platform {
        Platform::Linux => enabled_non_monitors(devices),
        _ => enabled(devices),
    }
}

/// The element at `i`, if there is one.
pub open spec fn nth<T>(s: Seq<T>, i: int) -> Option<T> {
    if 0 <= i < s.len() {
        Some(s[i])
    } else {
        None
    }
}

/// The first enabled device that is preferred for `flags`. It may be a monitor:
/// if that is what the user chose as the default, it is respected.
pub open spec fn preferred_for(flags: u32, devices: Seq<MinimalDeviceInfo>) -> Option<
    MinimalDeviceInfo,
> {
    nth(
        enabled(devices).filter(|device: MinimalDeviceInfo| device.preferred.has(flags)),
        0,
    )
}

/// The number of devices. Windows counts the listed devices alone. The others
/// count the default device too, where anything is listed; on Linux a default
/// that is a monitor counts even if nothing is listed.
pub open spec fn device_count(platform: Platform, devices: Seq<MinimalDeviceInfo>) -> nat {
    let n = listed(platform, devices).len();
    match platform {
        Platform::Windows => n,
        Platform::MacOs => if n == 0 {
            0
        } else {
            n + 1
        },
        Platform::Linux => if n > 0 {
            n + 1
        } else if preferred_for(VOICE, devices) is Some {
            1
        } else {
            0
        },
    }
}

/// The device with number `idx`. On Windows 0 is the default device, 1 the
/// default communications device, and the listed devices follow. Elsewhere 0 is
/// the default device, and the listed devices follow.
pub open spec fn device_at(
    platform: Platform,
    devices: Seq<MinimalDeviceInfo>,
    idx: int,
) -> Option<MinimalDeviceInfo> {
    if device_count(platform, devices) == 0 {
        None
    } else {
        match platform {
            Platform::Windows => if idx > 1 {
                nth(listed(platform, devices), idx - 2)
            } else if idx == 1 {
                preferred_for(VOICE, devices)
            } else {
                preferred_for(MULTIMEDIA, devices)
            },
            _ => if idx > 0 {
                nth(listed(platform, devices), idx - 1)
            } else {
                preferred_for(VOICE, devices)
            },
        }
    }
}

/// The number of devices that have a number, the default ones included.
pub open spec fn addressable(platform: Platform, devices: Seq<MinimalDeviceInfo>) -> nat {
    match platform {
        Platform::Windows => device_count(platform, devices) + 2,
        _ => device_count(platform, devices),
    }
}

/// The name under which the device with number `idx` is shown.
pub open spec fn shown_name(platform: Platform, friendly_name: Seq<char>, idx: int) -> Seq<char> {
    match platform {
        Platform::Windows => if idx == 0 {
            "Default - "@ + friendly_name
        } else if idx == 1 {
            "Communication - "@ + friendly_name
        } else {
            friendly_name
        },
        _ => if idx == 0 {
            "default ("@ + friendly_name + ")"@
        } else {
            friendly_name
        },
    }
}

/// How the device with number `idx` is shown. One without an identifier gets its
/// name and number for it.
pub open spec fn shown(platform: Platform, device: MinimalDeviceInfo, idx: int) -> AudioDeviceTexts {
    AudioDeviceTexts {
        name: shown_name(platform, device.friendly_name@, idx),
        unique_id: match device.device_id {
            Some(id) => id@,
            None => device.friendly_name@ + "-"@ + decimal(idx as nat),
        },
        i18n_key: Seq::empty(),
    }
}

/// How the devices are shown, in the order of their numbers; a number without a
/// device has no entry.
pub open spec fn shown_devices(platform: Platform, devices: Seq<MinimalDeviceInfo>) -> Seq<
    Option<AudioDeviceTexts>,
> {
    Seq::new(
        addressable(platform, devices),
        |idx: int|
            match device_at(platform, devices, idx) {
                Some(device) => Some(shown(platform, device, idx)),
                None => None,
            },
    )
}

/// The devices of a machine, with their default devices.
///
/// The handle of a device may point to state of the audio library's context, so
/// no value of this type should outlive that context.
#[derive(Debug, PartialEq, Eq)]
pub struct DeviceCollectionWrapper {
    device_collection: Vec<MinimalDeviceInfo>,
}

impl View for DeviceCollectionWrapper {
    type V = Seq<MinimalDeviceInfo>;

    closed spec fn view(&self) -> Seq<MinimalDeviceInfo> {
        self.device_collection@
    }
}

impl Clone for DeviceCollectionWrapper {
    fn clone(&self) -> (copy: DeviceCollectionWrapper)
        ensures
            copy@ == self@,
    {
        proof {
            use_type_invariant(self);
        }
        let device_collection = self.device_collection.clone();
        proof {
            assert(device_collection@ =~= self.device_collection@);
        }
        DeviceCollectionWrapper { device_collection }
    }
}

impl Default for DeviceCollectionWrapper {
    /// No devices.
    fn default() -> (devices: DeviceCollectionWrapper)
        ensures
            devices@ == Seq::<MinimalDeviceInfo>::empty(),
    {
        DeviceCollectionWrapper { device_collection: Vec::new() }
    }
}

/// Whether a device is a monitor.
fn device_is_monitor(device: &MinimalDeviceInfo) -> (monitor: bool)
    ensures
        monitor == is_monitor(*device),
{
    if device.device_type != DeviceType::Input {
        return false;
    }
    match &device.device_id {
        Some(id) => ends_with(id.as_str(), ".monitor"),
        None => false,
    }
}

impl DeviceCollectionWrapper {
    /// The numbers of all devices, the two default ones included, fit in `usize`.
    #[verifier::type_invariant]
    spec fn numbers_fit(self) -> bool {
        self.device_collection@.len() + 2 <= usize::MAX
    }

    /// Keeps the described devices that have a friendly name.
    pub fn new(devices: &Vec<DeviceDescription>) -> (collection: DeviceCollectionWrapper)
        requires
            devices@.len() + 2 <= usize::MAX,
        ensures
            collection@ == devices@.filter_map(|device: DeviceDescription| minimal(device)),
    {
        let mut out: Vec<MinimalDeviceInfo> = Vec::new();
        let ghost keep = |device: DeviceDescription| minimal(device);
        for i in 0..devices.len()
            invariant
                keep == (|device: DeviceDescription| minimal(device)),
                out@.len() <= i,
                out@ == devices@.take(i as int).filter_map(keep),
        {
            proof {
                assert(devices@.take(i + 1).drop_last() =~= devices@.take(i as int));
            }
            let device = &devices[i];
            if let Some(friendly) = &device.friendly_name {
                let device_id = match &device.device_id {
                    Some(id) => Some(id.clone()),
                    None => None,
                };
                out.push(
                    MinimalDeviceInfo {
                        devid: device.devid,
                        device_id,
                        friendly_name: friendly.clone(),
                        device_type: device.device_type,
                        preferred: device.preferred,
                        state: device.state,
                    },
                );
            }
        }
        proof {
            assert(devices@.take(devices@.len() as int) =~= devices@);
        }
        DeviceCollectionWrapper { device_collection: out }
    }

    /// All enabled devices (those that are plugged in and not disabled by the
    /// operating system).
    pub fn iter(&self) -> (found: Vec<&MinimalDeviceInfo>)
        ensures
            found@.unref() == enabled(self@),
    {
        let mut found: Vec<&MinimalDeviceInfo> = Vec::new();
        let ghost keep = |device: MinimalDeviceInfo| device.state == DeviceState::Enabled;
        proof {
            reveal(Seq::filter);
            assert(found@.unref() =~= Seq::empty());
        }
        for i in 0..self.device_collection.len()
            invariant
                keep == (|device: MinimalDeviceInfo| device.state == DeviceState::Enabled),
                found@.unref() == self@.take(i as int).filter(keep),
        {
            proof {
                reveal(Seq::filter);
                assert(self@.take(i + 1).drop_last() =~= self@.take(i as int));
            }
            let ghost before = found@;
            let device = &self.device_collection[i];
            if device.state == DeviceState::Enabled {
                found.push(device);
                proof {
                    assert(found@.unref() =~= before.unref().push(*device));
                }
            }
        }
        proof {
            assert(self@.take(self@.len() as int) =~= self@);
        }
        found
    }

    /// All enabled devices that are no monitors.
    pub fn iter_non_monitor(&self) -> (found: Vec<&MinimalDeviceInfo>)
        ensures
            found@.unref() == enabled_non_monitors(self@),
    {
        let mut found: Vec<&MinimalDeviceInfo> = Vec::new();
        let ghost keep = |device: MinimalDeviceInfo|
            device.state == DeviceState::Enabled && !is_monitor(device);
        proof {
            reveal(Seq::filter);
            assert(found@.unref() =~= Seq::empty());
        }
        for i in 0..self.device_collection.len()
            invariant
                keep == (|device: MinimalDeviceInfo|
                    device.state == DeviceState::Enabled && !is_monitor(device)),
                found@.unref() == self@.take(i as int).filter(keep),
        {
            proof {
                reveal(Seq::filter);
                assert(self@.take(i + 1).drop_last() =~= self@.take(i as int));
            }
            let ghost before = found@;
            let device = &self.device_collection[i];
            if device.state == DeviceState::Enabled && !device_is_monitor(device) {
                found.push(device);
                proof {
                    assert(found@.unref() =~= before.unref().push(*device));
                }
            }
        }
        proof {
            assert(self@.take(self@.len() as int) =~= self@);
        }
        found
    }

    /// The devices that are listed after the default ones.
    fn list(&self, platform: Platform) -> (found: Vec<&MinimalDeviceInfo>)
        ensures
            found@.unref() == listed(platform, self@),
            found@.len() + 2 <= usize::MAX,
    {
        proof {
            use_type_invariant(self);
            self@.lemma_filter_len(
                |device: MinimalDeviceInfo| device.state == DeviceState::Enabled,
            );
            self@.lemma_filter_len(
                |device: MinimalDeviceInfo|
                    device.state == DeviceState::Enabled && !is_monitor(device),
            );
        }
        match platform {
            Platform::Linux => self.iter_non_monitor(),
            _ => self.iter(),
        }
    }

    /// The first enabled device that is preferred for `flags`.
    fn find_preferred(&self, flags: u32) -> (found: Option<&MinimalDeviceInfo>)
        ensures
            match found {
                Some(device) => preferred_for(flags, self@) == Some(*device),
                None => preferred_for(flags, self@) is None,
            },
    {
        let candidates = self.iter();
        let ghost all = enabled(self@);
        let ghost keep = |device: MinimalDeviceInfo| device.preferred.has(flags);
        proof {
            reveal(Seq::filter);
        }
        for i in 0..candidates.len()
            invariant
                keep == (|device: MinimalDeviceInfo| device.preferred.has(flags)),
                all == enabled(self@),
                candidates@.unref() == all,
                all.take(i as int).filter(keep).len() == 0,
        {
            proof {
                reveal(Seq::filter);
                assert(all.take(i + 1).drop_last() =~= all.take(i as int));
            }
            let device = candidates[i];
            if device.preferred.contains(flags) {
                proof {
                    let head = all.take(i + 1);
                    assert(head.filter(keep) =~= seq![*device]);
                    assert(all =~= head + all.skip(i + 1));
                    Seq::filter_distributes_over_add(head, all.skip(i + 1), keep);
                    assert(all.filter(keep)[0] == *device);
                }
                return Some(device);
            }
        }
        proof {
            assert(all.take(all.len() as int) =~= all);
        }
        None
    }

    /// The device with number `idx`, the default devices included.
    pub fn get(&self, platform: Platform, idx: usize) -> (found: Option<&MinimalDeviceInfo>)
        ensures
            match found {
                Some(device) => device_at(platform, self@, idx as int) == Some(*device),
                None => device_at(platform, self@, idx as int) is None,
            },
    {
        if self.count(platform) == 0 {
            return None;
        }
        let defaults: usize = match platform {
            Platform::Windows => 2,
            _ => 1,
        };
        if idx >= defaults {
            let devices = self.list(platform);
            if idx - defaults < devices.len() {
                proof {
                    assert(devices@.unref()[idx - defaults] == *devices@[idx - defaults]);
                }
                return Some(devices[idx - defaults]);
            }
            return None;
        }
        match platform {
            Platform::Windows => if idx == 1 {
                self.find_preferred(VOICE)
            } else {
                self.find_preferred(MULTIMEDIA)
            },
            _ => self.find_preferred(VOICE),
        }
    }

    /// The number of devices. On Windows this is 2 smaller than the number of
    /// addressable devices, because the default device and the default
    /// communications device are not counted. Elsewhere the default device is
    /// counted.
    pub fn count(&self, platform: Platform) -> (count: usize)
        ensures
            count == device_count(platform, self@),
            addressable(platform, self@) <= usize::MAX,
    {
        let n: usize = self.list(platform).len();
        match platform {
            Platform::Windows => n,
            Platform::MacOs => if n == 0 {
                0
            } else {
                n + 1
            },
            Platform::Linux => if n > 0 {
                n + 1
            } else if self.find_preferred(VOICE).is_some() {
                1
            } else {
                0
            },
        }
    }

    /// All names and identifiers, *including repetitions* for the default devices.
    pub fn extract_names(&self, platform: Platform) -> (names: Vec<Option<AudioDevice>>)
        ensures
            names@.map_values(|name: Option<AudioDevice>| texts(name)) == shown_devices(
                platform,
                self@,
            ),
    {
        let count: usize = match platform {
            Platform::Windows => self.count(platform) + 2,
            _ => self.count(platform),
        };
        let mut names: Vec<Option<AudioDevice>> = Vec::new();
        for i in 0..count
            invariant
                count == addressable(platform, self@),
                names@.len() == i,
                forall|j: int|
                    0 <= j < i ==> texts(#[trigger] names@[j]) == shown_devices(platform, self@)[j],
        {
            let name = match self.get(platform, i) {
                Some(device) => Some(show(platform, device, i)),
                None => None,
            };
            names.push(name);
        }
        proof {
            assert(names@.map_values(|name: Option<AudioDevice>| texts(name)) =~= shown_devices(
                platform,
                self@,
            ));
        }
        names
    }
}

/// How the device with number `idx` is shown.
fn show(platform: Platform, device: &MinimalDeviceInfo, idx: usize) -> (audio_device: AudioDevice)
    ensures
        audio_device@ == shown(platform, *device, idx as int),
{
    let friendly = device.friendly_name.as_str();
    let mut name = String::new();
    match platform {
        Platform::Windows => {
            if idx == 0 {
                name.append("Default - ");
            } else if idx == 1 {
                name.append("Communication - ");
            }
            name.append(friendly);
        },
        _ => {
            if idx == 0 {
                name.append("default (");
                name.append(friendly);
                name.append(")");
            } else {
                name.append(friendly);
            }
        },
    }
    let unique_id = match &device.device_id {
        Some(id) => id.clone(),
        None => {
            let mut id = String::new();
            id.append(friendly);
            id.append("-");
            append_decimal(&mut id, idx);
            id
        },
    };
    let audio_device = AudioDevice { name, unique_id, i18n_key: String::new() };
    proof {
        let model = shown(platform, *device, idx as int);
        assert(audio_device.name@ =~= model.name);
        assert(audio_device.unique_id@ =~= model.unique_id);
    }
    audio_device
}

/// The number of default devices, which come before the listed ones.
pub open spec fn defaults(platform: Platform) -> int {
    match platform {
        Platform::Windows => 2,
        _ => 1,
    }
}

/// The default device, number 0, is the first enabled device that is preferred
/// for voice, on Windows for multimedia. It may be a monitor, and there is none
/// only if no enabled device is preferred so. On Windows number 1 is the first
/// enabled device that is preferred for voice.
pub proof fn default_device_is_the_preferred_one(
    platform: Platform,
    devices: Seq<MinimalDeviceInfo>,
)
    ensures
        device_at(platform, devices, 0) == preferred_for(
            if platform == Platform::Windows {
                MULTIMEDIA
            } else {
                VOICE
            },
            devices,
        ),
        platform == Platform::Windows ==> device_at(platform, devices, 1) == preferred_for(
            VOICE,
            devices,
        ),
{
    let all = enabled(devices);
    all.lemma_filter_len(|device: MinimalDeviceInfo| device.preferred.has(VOICE));
    all.lemma_filter_len(|device: MinimalDeviceInfo| device.preferred.has(MULTIMEDIA));
}

/// The listed devices follow the default ones, each once and in order, and are
/// shown under their own names.
pub proof fn listed_devices_follow_the_defaults(
    platform: Platform,
    devices: Seq<MinimalDeviceInfo>,
    i: int,
)
    requires
        0 <= i < listed(platform, devices).len(),
    ensures
        addressable(platform, devices) == defaults(platform) + listed(platform, devices).len(),
        device_at(platform, devices, defaults(platform) + i) == Some(listed(platform, devices)[i]),
        shown_devices(platform, devices)[defaults(platform) + i] == Some(
            shown(platform, listed(platform, devices)[i], defaults(platform) + i),
        ),
        shown(platform, listed(platform, devices)[i], defaults(platform) + i).name == listed(
            platform,
            devices,
        )[i].friendly_name@,
{
}

/// No number past the addressable ones has a device.
pub proof fn numbers_past_the_end_have_no_device(
    platform: Platform,
    devices: Seq<MinimalDeviceInfo>,
    idx: int,
)
    requires
        idx >= addressable(platform, devices),
    ensures
        device_at(platform, devices, idx) is None,
{
    default_device_is_the_preferred_one(platform, devices);
}

/// Every device that has a number is among the enabled ones. On Linux no number
/// but 0 has a monitor.
pub proof fn numbered_devices_are_enabled(
    platform: Platform,
    devices: Seq<MinimalDeviceInfo>,
    idx: int,
)
    requires
        device_at(platform, devices, idx) is Some,
    ensures
        device_at(platform, devices, idx)->0.state == DeviceState::Enabled,
        devices.contains(device_at(platform, devices, idx)->0),
        platform == Platform::Linux && idx > 0 ==> !is_monitor(
            device_at(platform, devices, idx)->0,
        ),
{
    broadcast use vstd::seq_lib::group_filter_ensures;

    let found = device_at(platform, devices, idx)->0;
    let on = |device: MinimalDeviceInfo| device.state == DeviceState::Enabled;
    let no_monitor = |device: MinimalDeviceInfo|
        device.state == DeviceState::Enabled && !is_monitor(device);
    let voice = |device: MinimalDeviceInfo| device.preferred.has(VOICE);
    let multimedia = |device: MinimalDeviceInfo| device.preferred.has(MULTIMEDIA);
    if idx >= defaults(platform) && platform == Platform::Linux {
        devices.lemma_filter_contains_rev(no_monitor, found);
    } else {
        if idx < defaults(platform) {
            if platform == Platform::Windows && idx != 1 {
                enabled(devices).lemma_filter_contains_rev(multimedia, found);
            } else {
                enabled(devices).lemma_filter_contains_rev(voice, found);
            }
        }
        devices.lemma_filter_contains_rev(on, found);
    }
}

/// On Linux, if only monitors are enabled and one of them is the default, that
/// one is allowed, and it is the only device.
pub proof fn a_default_monitor_is_allowed(devices: Seq<MinimalDeviceInfo>)
    requires
        enabled_non_monitors(devices).len() == 0,
        preferred_for(VOICE, devices) is Some,
    ensures
        device_count(Platform::Linux, devices) == 1,
        device_at(Platform::Linux, devices, 0) == preferred_for(VOICE, devices),
        shown_devices(Platform::Linux, devices).len() == 1,
{
}

/// The lowest three bits of a preference are those for multimedia, voice and
/// notifications. No flags are always set, and flags together are set if each is.
pub proof fn preferences_are_bits(pref: DevicePref, a: u32, b: u32)
    ensures
        pref.has(MULTIMEDIA) <==> pref.bits % 2 == 1,
        pref.has(VOICE) <==> pref.bits / 2 % 2 == 1,
        pref.has(NOTIFICATION) <==> pref.bits / 4 % 2 == 1,
        pref.has(0),
        pref.has(a | b) <==> pref.has(a) && pref.has(b),
        pref.has(a) <==> forall|i: u32|
            i < 32 && #[trigger] (a >> i) & 1 == 1 ==> (pref.bits >> i) & 1 == 1,
{
    let bits = pref.bits;
    assert((bits & 0x01 == 0x01) <==> (bits % 2 == 1)) by (bit_vector);
    assert((bits & 0x02 == 0x02) <==> (bits / 2 % 2 == 1)) by (bit_vector);
    assert((bits & 0x04 == 0x04) <==> (bits / 4 % 2 == 1)) by (bit_vector);
    assert(bits & 0 == 0) by (bit_vector);
    assert((bits & (a | b) == (a | b)) <==> (bits & a == a && bits & b == b)) by (bit_vector);
    if pref.has(a) {
        assert forall|i: u32| i < 32 && #[trigger] (a >> i) & 1 == 1 implies (bits >> i) & 1
            == 1 by {
            assert(bits & a == a && (a >> i) & 1 == 1 ==> (bits >> i) & 1 == 1) by (bit_vector);
        }
    } else {
        flags_differ_in_a_bit(bits, a);
    }
}

/// Where not all flags are set, one of them is not.
proof fn flags_differ_in_a_bit(bits: u32, flags: u32)
    requires
        bits & flags != flags,
    ensures
        exists|i: u32| i < 32 && #[trigger] (flags >> i) & 1 == 1 && (bits >> i) & 1 != 1,
{
    let missing = flags & !bits;
    assert(missing != 0) by (bit_vector)
        requires
            bits & flags != flags,
            missing == flags & !bits,
    ;
    assert(missing >> 0 == missing) by (bit_vector);
    let i = lowest_bit(missing, 0);
    assert((flags >> i) & 1 == 1 && (bits >> i) & 1 != 1) by (bit_vector)
        requires
            missing == flags & !bits,
            (missing >> i) & 1 == 1,
            i < 32,
    ;
}

/// A bit that is set, at `from` or above, where there is one.
proof fn lowest_bit(bits: u32, from: u32) -> (i: u32)
    requires
        from < 32,
        bits >> from != 0,
    ensures
        i < 32,
        (bits >> i) & 1 == 1,
    decreases 32 - from,
{
    if (bits >> from) & 1 == 1 {
        from
    } else {
        let next = (from + 1) as u32;
        assert(next < 32 && bits >> next != 0) by (bit_vector)
            requires
                from < 32,
                next == from + 1,
                bits >> from != 0,
                (bits >> from) & 1 != 1,
        ;
        lowest_bit(bits, next)
    }
}

/// Every described device that has a friendly name is kept, at the end of those
/// before it and with all that was described of it. One without a name is left
/// out.
pub proof fn one_more_description(devices: Seq<DeviceDescription>, device: DeviceDescription)
    ensures
        ({
            let kept = |of: Seq<DeviceDescription>|
                of.filter_map(|device: DeviceDescription| minimal(device));
            &&& kept(Seq::empty()).len() == 0
            &&& device.friendly_name matches Some(friendly_name) ==> {
                let last = kept(devices.push(device)).last();
                &&& kept(devices.push(device)).len() == kept(devices).len() + 1
                &&& kept(devices.push(device)).drop_last() == kept(devices)
                &&& last.devid == device.devid
                &&& last.device_id == device.device_id
                &&& last.friendly_name == friendly_name
                &&& last.device_type == device.device_type
                &&& last.preferred == device.preferred
                &&& last.state == device.state
            }
            &&& device.friendly_name is None ==> kept(devices.push(device)) == kept(devices)
        }),
{
    let keep = |device: DeviceDescription| minimal(device);
    assert(devices.push(device).drop_last() =~= devices);
    if device.friendly_name is Some {
        assert(devices.push(device).filter_map(keep).drop_last() =~= devices.filter_map(keep));
    }
}

/// Monitors are the inputs whose identifier is something followed by `.monitor`.
pub proof fn monitors_are_known_by_type_and_identifier(device: MinimalDeviceInfo)
    ensures
        is_monitor(device) ==> device.device_type == DeviceType::Input && device.device_id is Some,
        forall|start: Seq<char>|
            device.device_type == DeviceType::Input && (device.device_id matches Some(id) && id@
                == #[trigger] (start + ".monitor"@)) ==> is_monitor(device),
        is_monitor(device) ==> exists|start: Seq<char>|
            (device.device_id->0)@ == #[trigger] (start + ".monitor"@),
{
    let end = ".monitor"@;
    if is_monitor(device) {
        let id = (device.device_id->0)@;
        let start = id.take(id.len() - end.len());
        assert(id =~= start + end);
    }
    assert forall|start: Seq<char>|
        device.device_type == DeviceType::Input && (device.device_id matches Some(id) && id@
            == #[trigger] (start + end)) implies is_monitor(device) by {
        let id = (device.device_id->0)@;
        assert(id.subrange(id.len() - end.len(), id.len() as int) =~= end);
    }
}

/// Every enabled device is listed among the enabled ones, whatever its type, at
/// the end of those before it, and no other device is. The same holds of the
/// enabled devices that are no monitors.
pub proof fn one_more_device(devices: Seq<MinimalDeviceInfo>, device: MinimalDeviceInfo)
    ensures
        enabled(Seq::empty()).len() == 0,
        enabled_non_monitors(Seq::empty()).len() == 0,
        device.state == DeviceState::Enabled ==> enabled(devices.push(device)) == enabled(
            devices,
        ).push(device),
        device.state != DeviceState::Enabled ==> enabled(devices.push(device)) == enabled(devices)
            && enabled_non_monitors(devices.push(device)) == enabled_non_monitors(devices),
        device.state == DeviceState::Enabled && !is_monitor(device) ==> enabled_non_monitors(
            devices.push(device),
        ) == enabled_non_monitors(devices).push(device),
        is_monitor(device) ==> enabled_non_monitors(devices.push(device)) == enabled_non_monitors(
            devices,
        ),
{
    reveal(Seq::filter);
    assert(devices.push(device).drop_last() =~= devices);
}

/// What is listed of two lists of devices together is what is listed of either.
pub proof fn listings_join(
    platform: Platform,
    a: Seq<MinimalDeviceInfo>,
    b: Seq<MinimalDeviceInfo>,
)
    ensures
        enabled(a + b) == enabled(a) + enabled(b),
        enabled_non_monitors(a + b) == enabled_non_monitors(a) + enabled_non_monitors(b),
        listed(platform, a + b) == listed(platform, a) + listed(platform, b),
{
    Seq::filter_distributes_over_add(
        a,
        b,
        |device: MinimalDeviceInfo| device.state == DeviceState::Enabled,
    );
    Seq::filter_distributes_over_add(
        a,
        b,
        |device: MinimalDeviceInfo| device.state == DeviceState::Enabled && !is_monitor(device),
    );
}

/// Which devices are listed: on Windows and macOS every enabled one, input or
/// output, on Linux every enabled one that is no monitor.
pub open spec fn belongs(platform: Platform, device: MinimalDeviceInfo) -> bool {
    device.state == DeviceState::Enabled && !(platform == Platform::Linux && device.device_type
        == DeviceType::Input && (device.device_id matches Some(id) && ".monitor"@.is_suffix_of(
        id@,
    )))
}

/// Every device that belongs to the list has a number: it comes right after the
/// default devices and those that are listed before it. So all of them are
/// listed, each as often as it occurs, and in their order.
pub proof fn every_device_has_its_number(
    platform: Platform,
    devices: Seq<MinimalDeviceInfo>,
    k: int,
)
    requires
        0 <= k < devices.len(),
        belongs(platform, devices[k]),
    ensures
        ({
            let number = if platform == Platform::Windows {
                2int
            } else {
                1int
            } + listed(platform, devices.take(k)).len();
            &&& device_at(platform, devices, number) == Some(devices[k])
            &&& number < addressable(platform, devices)
            &&& number < shown_devices(platform, devices).len()
            &&& shown_devices(platform, devices)[number] == Some(
                shown(platform, devices[k], number),
            )
        }),
{
    let before = devices.take(k);
    let upto = before.push(devices[k]);
    let after = devices.skip(k + 1);
    assert(devices =~= upto + after);
    one_more_device(before, devices[k]);
    listings_join(platform, upto, after);
    assert(listed(platform, devices)[listed(platform, before).len() as int] == devices[k]);
}

/// The number of listed devices grows by one with each that belongs to the list.
pub proof fn listed_devices_are_counted(
    platform: Platform,
    devices: Seq<MinimalDeviceInfo>,
    device: MinimalDeviceInfo,
)
    ensures
        listed(platform, Seq::empty()).len() == 0,
        listed(platform, devices.push(device)).len() == listed(platform, devices).len() + if belongs(
            platform,
            device,
        ) {
            1int
        } else {
            0int
        },
{
    one_more_device(devices, device);
}

/// How many devices there are. Windows counts those that belong to the list, and
/// two more have numbers. macOS counts one more where there is any. So does
/// Linux, and where there is none it counts a default of voice alone.
pub proof fn devices_are_counted(platform: Platform, devices: Seq<MinimalDeviceInfo>)
    ensures
        ({
            let n = listed(platform, devices).len();
            &&& platform == Platform::Windows ==> device_count(platform, devices) == n
                && addressable(platform, devices) == n + 2
            &&& platform != Platform::Windows ==> addressable(platform, devices) == device_count(
                platform,
                devices,
            )
            &&& platform != Platform::Windows && n > 0 ==> device_count(platform, devices) == n + 1
            &&& platform == Platform::MacOs && n == 0 ==> device_count(platform, devices) == 0
            &&& platform == Platform::Linux && n == 0 ==> device_count(platform, devices) == if (
            exists|k: int|
                0 <= k < devices.len() && (#[trigger] devices[k]).state == DeviceState::Enabled
                    && devices[k].preferred.bits / 2 % 2 == 1) {
                1int
            } else {
                0int
            }
            &&& shown_devices(platform, devices).len() == addressable(platform, devices)
        }),
{
    if exists|k: int|
        0 <= k < devices.len() && (#[trigger] devices[k]).state == DeviceState::Enabled
            && devices[k].preferred.bits / 2 % 2 == 1 {
        let k = choose|k: int|
            0 <= k < devices.len() && (#[trigger] devices[k]).state == DeviceState::Enabled
                && devices[k].preferred.bits / 2 % 2 == 1;
        preferences_are_bits(devices[k].preferred, 0, 0);
        a_preferred_device_is_found(VOICE, devices, k);
    } else if preferred_for(VOICE, devices) is Some {
        let k = found_device_is_the_first(VOICE, devices);
        preferences_are_bits(devices[k].preferred, 0, 0);
    }
}

/// Where an enabled device has the flags, a preferred device is found.
pub proof fn a_preferred_device_is_found(flags: u32, devices: Seq<MinimalDeviceInfo>, k: int)
    requires
        0 <= k < devices.len(),
        devices[k].state == DeviceState::Enabled,
        devices[k].preferred.bits & flags == flags,
    ensures
        preferred_for(flags, devices) is Some,
{
    let wanted = |device: MinimalDeviceInfo| device.preferred.has(flags);
    devices.lemma_filter_contains(
        |device: MinimalDeviceInfo| device.state == DeviceState::Enabled,
        k,
    );
    let i = enabled(devices).index_of(devices[k]);
    enabled(devices).lemma_filter_contains(wanted, i);
}

/// The preferred device is the first enabled device that has the flags: the one
/// at the returned place.
pub proof fn found_device_is_the_first(flags: u32, devices: Seq<MinimalDeviceInfo>) -> (k: int)
    requires
        preferred_for(flags, devices) is Some,
    ensures
        0 <= k < devices.len(),
        preferred_for(flags, devices) == Some(devices[k]),
        devices[k].state == DeviceState::Enabled,
        devices[k].preferred.bits & flags == flags,
        forall|j: int|
            0 <= j < k && (#[trigger] devices[j]).state == DeviceState::Enabled
                ==> devices[j].preferred.bits & flags != flags,
    decreases devices.len(),
{
    let wanted = |device: MinimalDeviceInfo| device.preferred.has(flags);
    reveal(Seq::filter);
    if devices.len() == 0 {
        assert(enabled(devices).filter(wanted).len() == 0);
        0
    } else {
        let rest = devices.drop_last();
        let last = devices.last();
        assert(devices =~= rest.push(last));
        one_more_device(rest, last);
        assert(enabled(rest).push(last).drop_last() =~= enabled(rest));
        if preferred_for(flags, rest) is Some {
            let k = found_device_is_the_first(flags, rest);
            assert(forall|j: int| 0 <= j < rest.len() ==> #[trigger] devices[j] == rest[j]);
            k
        } else {
            let k = rest.len() as int;
            assert forall|j: int|
                0 <= j < k && (#[trigger] devices[j]).state == DeviceState::Enabled implies
                devices[j].preferred.bits & flags != flags by {
                assert(rest[j] == devices[j]);
                if devices[j].preferred.bits & flags == flags {
                    a_preferred_device_is_found(flags, rest, j);
                }
            }
            k
        }
    }
}

/// The default devices, by the bits of what they are preferred for: on Windows
/// number 0 is for multimedia and number 1 for voice, elsewhere number 0 is for
/// voice. Each is the first enabled device with that bit, and is there if any
/// is.
pub proof fn default_devices_have_the_bit(platform: Platform, devices: Seq<MinimalDeviceInfo>, idx: int)
    requires
        idx == 0 || (idx == 1 && platform == Platform::Windows),
    ensures
        ({
            let wanted = |device: MinimalDeviceInfo|
                device.state == DeviceState::Enabled && if platform == Platform::Windows && idx
                    == 0 {
                    device.preferred.bits % 2 == 1
                } else {
                    device.preferred.bits / 2 % 2 == 1
                };
            match device_at(platform, devices, idx) {
                Some(device) => exists|k: int|
                    0 <= k < devices.len() && #[trigger] devices[k] == device && wanted(device)
                        && forall|j: int| 0 <= j < k ==> !wanted(#[trigger] devices[j]),
                None => forall|j: int| 0 <= j < devices.len() ==> !wanted(#[trigger] devices[j]),
            }
        }),
{
    default_device_is_the_preferred_one(platform, devices);
    let flags: u32 = if platform == Platform::Windows && idx == 0 {
        MULTIMEDIA
    } else {
        VOICE
    };
    assert(device_at(platform, devices, idx) == preferred_for(flags, devices));
    assert forall|j: int| 0 <= j < devices.len() implies (#[trigger] devices[j]).preferred.has(
        flags,
    ) == if platform == Platform::Windows && idx == 0 {
        devices[j].preferred.bits % 2 == 1
    } else {
        devices[j].preferred.bits / 2 % 2 == 1
    } by {
        preferences_are_bits(devices[j].preferred, 0, 0);
    }
    if preferred_for(flags, devices) is Some {
        let k = found_device_is_the_first(flags, devices);
        assert(devices[k].preferred.has(flags));
        assert forall|j: int|
            0 <= j < k && (#[trigger] devices[j]).state == DeviceState::Enabled implies
            !devices[j].preferred.has(flags) by {}
    } else {
        assert forall|j: int|
            0 <= j < devices.len() && (#[trigger] devices[j]).state == DeviceState::Enabled implies
            !devices[j].preferred.has(flags) by {
            if devices[j].preferred.has(flags) {
                a_preferred_device_is_found(flags, devices, j);
            }
        }
    }
}

/// A number is shown exactly if it has a device, and then as that device.
pub proof fn numbers_show_their_devices(
    platform: Platform,
    devices: Seq<MinimalDeviceInfo>,
    idx: int,
)
    requires
        0 <= idx < shown_devices(platform, devices).len(),
    ensures
        match device_at(platform, devices, idx) {
            Some(device) => shown_devices(platform, devices)[idx] == Some(
                shown(platform, device, idx),
            ),
            None => shown_devices(platform, devices)[idx] is None,
        },
{
}

/// How a device is shown: by its friendly name, which the default devices have
/// marked as the platform does, and by its identifier, in place of which a device
/// that has none gets its name and number.
pub proof fn devices_are_shown_by_name(platform: Platform, device: MinimalDeviceInfo, idx: nat)
    ensures
        ({
            let out = shown(platform, device, idx as int);
            let name = device.friendly_name@;
            &&& platform == Platform::Windows && idx == 0 ==> out.name == "Default - "@ + name
            &&& platform == Platform::Windows && idx == 1 ==> out.name == "Communication - "@ + name
            &&& platform != Platform::Windows && idx == 0 ==> out.name == "default ("@ + name
                + ")"@
            &&& idx > 1 || (platform != Platform::Windows && idx == 1) ==> out.name == name
            &&& device.device_id matches Some(id) ==> out.unique_id == id@
            &&& device.device_id is None ==> out.unique_id == name + "-"@ + decimal(idx)
            &&& out.i18n_key.len() == 0
        }),
{
}

/// Two numbers of one device without an identifier are told apart by the
/// identifiers that it is shown under.
pub proof fn made_up_identifiers_differ(
    platform: Platform,
    device: MinimalDeviceInfo,
    a: nat,
    b: nat,
)
    requires
        device.device_id is None,
        a != b,
    ensures
        shown(platform, device, a as int).unique_id != shown(platform, device, b as int).unique_id,
{
    let start = device.friendly_name@ + "-"@;
    let n = start.len() as int;
    decimals_read_back(a);
    decimals_read_back(b);
    if start + decimal(a) == start + decimal(b) {
        assert(decimal(a) =~= (start + decimal(a)).skip(n));
        assert(decimal(b) =~= (start + decimal(b)).skip(n));
    }
}

/// A device's texts are its three fields, and a device that is not there has
/// none.
pub proof fn texts_are_the_fields(device: AudioDevice)
    ensures
        texts(Some(device)) matches Some(of) && of.name == device.name@ && of.unique_id
            == device.unique_id@ && of.i18n_key == device.i18n_key@,
        texts(None) is None,
{
}

} // verus!
