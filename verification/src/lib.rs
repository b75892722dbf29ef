//! Safety policy and device facts for a Razer Blade HID controller.
//!
//! The policy layer exists so that an unsupported model or an unsafe value
//! never reaches the layer that writes to the embedded controller: every
//! operation is checked against the compiled-in capability table first.

use vstd::prelude::*;
use vstd::string::*;

pub mod backend;
pub mod cli;
pub mod client;
pub mod config;
pub mod daemon;
pub mod ipc;
pub mod protocol;
pub mod readback;
pub mod telemetry;
pub mod text;

use crate::text::{dec, hex_fixed, push_dec, push_hex};

verus! {

pub const RAZER_VENDOR_ID: u16 = 0x1532;

pub const BLADE_14_2023_PRODUCT_ID: u16 = 0x029d;

/// A USB vendor/product pair.
#[derive(Debug, Clone, Copy, PartialEq, Eq, Structural)]
pub struct DeviceId {
    pub vendor_id: u16,
    pub product_id: u16,
}

/// The manual fan speeds a model accepts, inclusive.
#[derive(Debug, Clone, Copy, PartialEq, Eq, Structural)]
pub struct FanRange {
    pub min_rpm: u16,
    pub max_rpm: u16,
}

/// One row of the capability table.
#[derive(Debug, Clone, Copy, PartialEq, Eq)]
pub struct DeviceCapabilities {
    pub name: &'static str,
    pub id: DeviceId,
    pub fan_range: FanRange,
    pub supports_battery_health_optimizer: bool,
    pub supports_boost: bool,
    pub supports_logo_led: bool,
}

pub open spec fn blade_14_2023_id() -> DeviceId {
    DeviceId { vendor_id: RAZER_VENDOR_ID, product_id: BLADE_14_2023_PRODUCT_ID }
}

/// The Razer Blade 14 (2023): fan 2000–5400 RPM, Battery Health Optimizer,
/// CPU boost level, and a lid logo LED.
pub open spec fn blade_14_2023_spec() -> DeviceCapabilities {
    DeviceCapabilities {
        name: "Razer Blade 14 (2023)",
        id: blade_14_2023_id(),
        fan_range: FanRange { min_rpm: 2000, max_rpm: 5400 },
        supports_battery_health_optimizer: true,
        supports_boost: true,
        supports_logo_led: true,
    }
}

/// The capability-table entry of the Razer Blade 14 (2023).
pub fn blade_14_2023() -> (d: DeviceCapabilities)
    ensures
        d == blade_14_2023_spec(),
{
    DeviceCapabilities {
        name: "Razer Blade 14 (2023)",
        id: DeviceId { vendor_id: RAZER_VENDOR_ID, product_id: BLADE_14_2023_PRODUCT_ID },
        fan_range: FanRange { min_rpm: 2000, max_rpm: 5400 },
        supports_battery_health_optimizer: true,
        supports_boost: true,
        supports_logo_led: true,
    }
}

/// The table lookup: only an exact vendor/product match is supported.
pub open spec fn find_device_spec(id: DeviceId) -> Option<DeviceCapabilities> {
    if id == blade_14_2023_id() {
        Some(blade_14_2023_spec())
    } else {
        None
    }
}

pub fn find_device(id: DeviceId) -> (r: Option<DeviceCapabilities>)
    ensures
        r == find_device_spec(id),
{
    if id.vendor_id == RAZER_VENDOR_ID && id.product_id == BLADE_14_2023_PRODUCT_ID {
        Some(blade_14_2023())
    } else {
        None
    }
}

#[derive(Debug, Clone, Copy, PartialEq, Eq, Structural)]
pub enum FanMode {
    Auto,
    Manual(u16),
}

/// CPU/GPU power level inside the Custom profile: 0 low, 1 medium, 2 high,
/// 3 boost (CPU only, and only on models whose table says so).
#[derive(Debug, Clone, Copy, PartialEq, Eq, Structural)]
pub enum BoostLevel {
    Low,
    Medium,
    High,
    Boost,
}

impl BoostLevel {
    pub open spec fn wire(self) -> u8 {
        match self {
            BoostLevel::Low => 0,
            BoostLevel::Medium => 1,
            BoostLevel::High => 2,
            BoostLevel::Boost => 3,
        }
    }

    pub fn wire_value(self) -> (r: u8)
        ensures
            r == self.wire(),
    {
        match self {
            BoostLevel::Low => 0,
            BoostLevel::Medium => 1,
            BoostLevel::High => 2,
            BoostLevel::Boost => 3,
        }
    }
}

/// Performance profile.  Balanced and Gaming are the EC's own modes 0 and
/// 1; Silent and Custom are both EC mode 4, Silent pinning both boosts low.
#[derive(Debug, Clone, Copy, PartialEq, Eq, Structural)]
pub enum Profile {
    Silent,
    Balanced,
    Gaming,
    Custom { cpu: BoostLevel, gpu: BoostLevel },
}

impl Profile {
    pub open spec fn mode_wire(self) -> u8 {
        match self {
            Profile::Balanced => 0,
            Profile::Gaming => 1,
            Profile::Silent => 4,
            Profile::Custom { .. } => 4,
        }
    }

    pub open spec fn boosts_spec(self) -> Option<(BoostLevel, BoostLevel)> {
        match self {
            Profile::Silent => Some((BoostLevel::Low, BoostLevel::Low)),
            Profile::Custom { cpu, gpu } => Some((cpu, gpu)),
            _ => None,
        }
    }

    /// The mode byte of EC command 0x0d/0x02.
    pub fn mode_wire_value(self) -> (r: u8)
        ensures
            r == self.mode_wire(),
    {
        match self {
            Profile::Balanced => 0,
            Profile::Gaming => 1,
            Profile::Silent => 4,
            Profile::Custom { .. } => 4,
        }
    }

    /// The boost pair the profile pins, when it pins one.
    pub fn boosts(self) -> (r: Option<(BoostLevel, BoostLevel)>)
        ensures
            r == self.boosts_spec(),
    {
        match self {
            Profile::Silent => Some((BoostLevel::Low, BoostLevel::Low)),
            Profile::Custom { cpu, gpu } => Some((cpu, gpu)),
            Profile::Balanced => None,
            Profile::Gaming => None,
        }
    }
}

/// Keyboard backlight effect.
#[derive(Debug, Clone, Copy, PartialEq, Eq, Structural)]
pub enum LightingEffect {
    Off,
    Static { red: u8, green: u8, blue: u8 },
    Spectrum,
    Wave,
}

/// Lid logo LED mode.
#[derive(Debug, Clone, Copy, PartialEq, Eq, Structural)]
pub enum LogoMode {
    Off,
    Static,
    Breathing,
}

/// Daemon-tracked EC state that the wire encoding of other operations
/// depends on: the mode byte rides along in every fan-state packet, and the
/// manual-fan flag in every profile packet.
#[derive(Debug, Clone, Copy, PartialEq, Eq, Structural)]
pub struct EcContext {
    pub profile: Profile,
    pub fan_manual: bool,
}

impl EcContext {
    /// Balanced profile, automatic fans.
    pub fn balanced() -> (r: EcContext)
        ensures
            r == (EcContext { profile: Profile::Balanced, fan_manual: false }),
    {
        EcContext { profile: Profile::Balanced, fan_manual: false }
    }
}

impl Default for EcContext {
    fn default() -> (r: EcContext)
        ensures
            r == (EcContext { profile: Profile::Balanced, fan_manual: false }),
    {
        EcContext::balanced()
    }
}

#[derive(Debug, Clone, Copy, PartialEq, Eq, Structural)]
pub enum RequestedOperation {
    Fan(FanMode),
    BatteryHealthLimit(u8),
    BatteryHealthOff,
    /// Experimental: refused without the opt-in flag.
    Profile(Profile),
    /// Keyboard backlight brightness in percent (0-100).  Experimental.
    KeyboardBrightness(u8),
    /// Keyboard backlight effect.  Experimental.
    KeyboardEffect(LightingEffect),
    /// Lid logo LED mode.  Experimental, and gated on the device table.
    Logo(LogoMode),
}

#[derive(Debug, Clone, Copy, PartialEq, Eq)]
pub enum PolicyError {
    UnsupportedDevice(DeviceId),
    FanOutOfRange { requested: u16, range: FanRange },
    InvalidChargeLimit(u8),
    InvalidBrightness(u8),
    FeatureUnsupported(&'static str),
    ExperimentalFeatureDisabled(&'static str),
}

/// The policy's verdict on one operation for one device.
pub open spec fn policy_verdict(
    id: DeviceId,
    operation: RequestedOperation,
    allow_experimental: bool,
) -> Result<(), PolicyError> {
    match find_device_spec(id) {
        None => Err(PolicyError::UnsupportedDevice(id)),
        Some(device) => match operation {
            RequestedOperation::Fan(FanMode::Auto) => Ok(()),
            RequestedOperation::Fan(FanMode::Manual(rpm)) => {
                if device.fan_range.min_rpm <= rpm && rpm <= device.fan_range.max_rpm {
                    Ok(())
                } else {
                    Err(PolicyError::FanOutOfRange { requested: rpm, range: device.fan_range })
                }
            },
            RequestedOperation::BatteryHealthLimit(limit) => {
                if device.supports_battery_health_optimizer && 50 <= limit && limit <= 80 {
                    Ok(())
                } else {
                    Err(PolicyError::InvalidChargeLimit(limit))
                }
            },
            RequestedOperation::BatteryHealthOff => {
                if device.supports_battery_health_optimizer {
                    Ok(())
                } else {
                    Err(PolicyError::FeatureUnsupported("battery health optimizer"))
                }
            },
            RequestedOperation::KeyboardBrightness(percent) => {
                if !allow_experimental {
                    Err(PolicyError::ExperimentalFeatureDisabled("keyboard lighting"))
                } else if percent > 100 {
                    Err(PolicyError::InvalidBrightness(percent))
                } else {
                    Ok(())
                }
            },
            RequestedOperation::KeyboardEffect(_) => {
                if allow_experimental {
                    Ok(())
                } else {
                    Err(PolicyError::ExperimentalFeatureDisabled("keyboard lighting"))
                }
            },
            RequestedOperation::Logo(_) => {
                if !device.supports_logo_led {
                    Err(PolicyError::FeatureUnsupported("logo LED"))
                } else if allow_experimental {
                    Ok(())
                } else {
                    Err(PolicyError::ExperimentalFeatureDisabled("logo lighting"))
                }
            },
            RequestedOperation::Profile(profile) => {
                if !allow_experimental {
                    Err(PolicyError::ExperimentalFeatureDisabled("performance profiles"))
                } else {
                    match profile {
                        Profile::Custom { cpu, gpu } => {
                            if gpu == BoostLevel::Boost {
                                Err(PolicyError::FeatureUnsupported("GPU boost level"))
                            } else if cpu == BoostLevel::Boost && !device.supports_boost {
                                Err(PolicyError::FeatureUnsupported("CPU boost level"))
                            } else {
                                Ok(())
                            }
                        },
                        _ => Ok(()),
                    }
                }
            },
        },
    }
}

/// Hardware outside the capability table is refused for every operation,
/// before any write layer is reached.
pub proof fn law_unknown_devices_are_always_refused(
    id: DeviceId,
    operation: RequestedOperation,
    allow_experimental: bool,
)
    requires
        id != blade_14_2023_id(),
    ensures
        policy_verdict(id, operation, allow_experimental) == Err::<(), PolicyError>(
            PolicyError::UnsupportedDevice(id),
        ),
{
}

/// Profiles and lighting are refused without the experimental opt-in, on
/// every device.
pub proof fn law_experimental_operations_need_the_opt_in(id: DeviceId, operation: RequestedOperation)
    requires
        operation is Profile || operation is KeyboardBrightness || operation is KeyboardEffect
            || operation is Logo,
    ensures
        policy_verdict(id, operation, false) is Err,
{
}

/// A manual fan speed is accepted exactly when it lies in the supported
/// device's verified range, with or without the opt-in.
pub proof fn law_manual_fan_speeds_stay_in_the_verified_range(
    id: DeviceId,
    rpm: u16,
    allow_experimental: bool,
)
    ensures
        policy_verdict(id, RequestedOperation::Fan(FanMode::Manual(rpm)), allow_experimental) is Ok
            <==> (id == blade_14_2023_id() && 2000 <= rpm <= 5400),
{
}

/// What the policy accepts: on the Razer Blade 14 (2023), USB `1532:029d`,
/// automatic fans always, manual fans from 2000 through 5400 RPM, a charge
/// limit from 50 % through 80 %, turning the limit off, and, only with the
/// experimental opt-in, the named profiles, a custom profile whose GPU
/// level is not boost, keyboard brightness from 0 % through 100 %, every
/// keyboard effect and every logo mode; on any other device nothing.
pub proof fn law_accepted_operations(id: DeviceId, operation: RequestedOperation, allow_experimental: bool)
    ensures
        policy_verdict(id, operation, allow_experimental) is Ok <==> (id == (DeviceId {
            vendor_id: 0x1532,
            product_id: 0x029d,
        }) && match operation {
            RequestedOperation::Fan(FanMode::Auto) => true,
            RequestedOperation::Fan(FanMode::Manual(rpm)) => 2000 <= rpm <= 5400,
            RequestedOperation::BatteryHealthLimit(limit) => 50 <= limit <= 80,
            RequestedOperation::BatteryHealthOff => true,
            RequestedOperation::Profile(Profile::Custom { cpu, gpu }) => allow_experimental && gpu
                != BoostLevel::Boost,
            RequestedOperation::Profile(_) => allow_experimental,
            RequestedOperation::KeyboardBrightness(percent) => allow_experimental && percent <= 100,
            RequestedOperation::KeyboardEffect(_) => allow_experimental,
            RequestedOperation::Logo(_) => allow_experimental,
        }),
{
}

/// Keyboard brightness on the supported device with the opt-in: every
/// percentage up to and including 100 % is accepted, and above it the
/// refusal names the value asked for.
pub proof fn law_keyboard_brightness_up_to_full(percent: u8)
    ensures
        policy_verdict(
            DeviceId { vendor_id: 0x1532, product_id: 0x029d },
            RequestedOperation::KeyboardBrightness(percent),
            true,
        ) == if percent <= 100 {
            Ok::<(), PolicyError>(())
        } else {
            Err(PolicyError::InvalidBrightness(percent))
        },
{
}

/// Checks one operation against the capability table and the experimental
/// gate; the verdict is exactly [`policy_verdict`].
pub fn validate_operation(
    id: DeviceId,
    operation: RequestedOperation,
    allow_experimental: bool,
) -> (r: Result<(), PolicyError>)
    ensures
        r == policy_verdict(id, operation, allow_experimental),
{
    let device = match find_device(id) {
        Some(device) => device,
        None => return Err(PolicyError::UnsupportedDevice(id)),
    };
    match operation {
        RequestedOperation::Fan(FanMode::Auto) => Ok(()),
        RequestedOperation::Fan(FanMode::Manual(rpm)) => {
            if device.fan_range.min_rpm <= rpm && rpm <= device.fan_range.max_rpm {
                Ok(())
            } else {
                Err(PolicyError::FanOutOfRange { requested: rpm, range: device.fan_range })
            }
        },
        RequestedOperation::BatteryHealthLimit(limit) => {
            if device.supports_battery_health_optimizer && 50 <= limit && limit <= 80 {
                Ok(())
            } else {
                Err(PolicyError::InvalidChargeLimit(limit))
            }
        },
        RequestedOperation::BatteryHealthOff => {
            if device.supports_battery_health_optimizer {
                Ok(())
            } else {
                Err(PolicyError::FeatureUnsupported("battery health optimizer"))
            }
        },
        RequestedOperation::KeyboardBrightness(percent) => {
            if !allow_experimental {
                return Err(PolicyError::ExperimentalFeatureDisabled("keyboard lighting"));
            }
            if percent > 100 {
                return Err(PolicyError::InvalidBrightness(percent));
            }
            Ok(())
        },
        RequestedOperation::KeyboardEffect(_) => {
            if allow_experimental {
                Ok(())
            } else {
                Err(PolicyError::ExperimentalFeatureDisabled("keyboard lighting"))
            }
        },
        RequestedOperation::Logo(_) => {
            if !device.supports_logo_led {
                Err(PolicyError::FeatureUnsupported("logo LED"))
            } else if allow_experimental {
                Ok(())
            } else {
                Err(PolicyError::ExperimentalFeatureDisabled("logo lighting"))
            }
        },
        RequestedOperation::Profile(profile) => {
            if !allow_experimental {
                return Err(PolicyError::ExperimentalFeatureDisabled("performance profiles"));
            }
            match profile {
                Profile::Custom { cpu, gpu } => {
                    if gpu == BoostLevel::Boost {
                        Err(PolicyError::FeatureUnsupported("GPU boost level"))
                    } else if cpu == BoostLevel::Boost && !device.supports_boost {
                        Err(PolicyError::FeatureUnsupported("CPU boost level"))
                    } else {
                        Ok(())
                    }
                },
                _ => Ok(()),
            }
        },
    }
}

/// `format!("{:04x}:{:04x}", vendor, product)`.
pub open spec fn usb_id_text(id: DeviceId) -> Seq<char> {
    hex_fixed(id.vendor_id as nat, 4) + seq![':'] + hex_fixed(id.product_id as nat, 4)
}

/// The text a user sees for a refused operation.
pub open spec fn policy_message(e: PolicyError) -> Seq<char> {
    match e {
        PolicyError::UnsupportedDevice(id) => "unsupported device "@ + usb_id_text(id)
            + "; refusing to send a hardware command"@,
        PolicyError::FanOutOfRange { requested, range } => "manual fan speed "@ + dec(
            requested as nat,
        ) + " RPM is outside the verified "@ + dec(range.min_rpm as nat) + "\u{2013}"@ + dec(
            range.max_rpm as nat,
        ) + " RPM range"@,
        PolicyError::InvalidChargeLimit(limit) => "battery health limit "@ + dec(limit as nat)
            + "% is invalid; choose a value from 50% through 80%"@,
        PolicyError::InvalidBrightness(value) => "brightness "@ + dec(value as nat)
            + "% is invalid; choose 0% through 100%"@,
        PolicyError::FeatureUnsupported(feature) => feature@ + " is not supported on this device"@,
        PolicyError::ExperimentalFeatureDisabled(feature) => feature@
            + " is experimental and requires explicit opt-in"@,
    }
}

/// Appends `{:04x}:{:04x}` of a device id.
pub fn push_usb_id(s: &mut String, id: DeviceId)
    ensures
        final(s)@ == old(s)@ + usb_id_text(id),
{
    push_hex(s, id.vendor_id as u64, 4);
    s.append(":");
    proof {
        reveal_strlit(":");
    }
    push_hex(s, id.product_id as u64, 4);
    assert(final(s)@ =~= old(s)@ + usb_id_text(id));
}

impl PolicyError {
    /// The human-readable explanation of the refusal.
    pub fn message(&self) -> (r: String)
        ensures
            r@ == policy_message(*self),
    {
        let mut s = String::new();
        match *self {
            PolicyError::UnsupportedDevice(id) => {
                s.append("unsupported device ");
                push_usb_id(&mut s, id);
                s.append("; refusing to send a hardware command");
            },
            PolicyError::FanOutOfRange { requested, range } => {
                s.append("manual fan speed ");
                push_dec(&mut s, requested as u64);
                s.append(" RPM is outside the verified ");
                push_dec(&mut s, range.min_rpm as u64);
                s.append("\u{2013}");
                push_dec(&mut s, range.max_rpm as u64);
                s.append(" RPM range");
            },
            PolicyError::InvalidChargeLimit(limit) => {
                s.append("battery health limit ");
                push_dec(&mut s, limit as u64);
                s.append("% is invalid; choose a value from 50% through 80%");
            },
            PolicyError::InvalidBrightness(value) => {
                s.append("brightness ");
                push_dec(&mut s, value as u64);
                s.append("% is invalid; choose 0% through 100%");
            },
            PolicyError::FeatureUnsupported(feature) => {
                s.append(feature);
                s.append(" is not supported on this device");
            },
            PolicyError::ExperimentalFeatureDisabled(feature) => {
                s.append(feature);
                s.append(" is experimental and requires explicit opt-in");
            },
        }
        assert(s@ =~= policy_message(*self));
        s
    }
}

/// `PathBuf::from(base).join(child)` for a relative `child`: the child
/// replaces an empty base, and a separator is inserted unless the base
/// already ends in one.
pub open spec fn path_join(base: Seq<char>, child: Seq<char>) -> Seq<char> {
    if base.len() == 0 {
        child
    } else if base.last() == '/' {
        base + child
    } else {
        base + seq!['/'] + child
    }
}

/// The private socket directory under `$XDG_RUNTIME_DIR`; `None` when the
/// variable is unset, never a fallback such as `/tmp`.
pub fn runtime_directory(xdg_runtime_dir: Option<&str>) -> (r: Option<String>)
    ensures
        xdg_runtime_dir is None ==> r is None,
        xdg_runtime_dir matches Some(d) ==> r matches Some(p) && p@ == path_join(
            d@,
            "razer-control"@,
        ),
{
    match xdg_runtime_dir {
        None => None,
        Some(directory) => {
            let base = crate::text::chars_of(directory);
            let mut s = crate::text::string_of(base.as_slice());
            if base.len() == 0 {
                let r = String::from_str("razer-control");
                return Some(r);
            }
            if base[base.len() - 1] != '/' {
                crate::text::push_char(&mut s, '/');
            }
            s.append("razer-control");
            proof {
                assert(base@.last() == base@[base@.len() - 1]);
            }
            assert(s@ =~= path_join(directory@, "razer-control"@));
            Some(s)
        },
    }
}

/// The udev rule text: hidraw nodes of the Blade 14 (2023) only, granted to
/// the active local session through `uaccess`.
pub fn blade_14_2023_udev_rule() -> (r: &'static str)
    ensures
        r@ == "KERNEL==\"hidraw*\", ATTRS{idVendor}==\"1532\", ATTRS{idProduct}==\"029d\", TAG+=\"uaccess\""@,
{
    "KERNEL==\"hidraw*\", ATTRS{idVendor}==\"1532\", ATTRS{idProduct}==\"029d\", TAG+=\"uaccess\""
}

} // verus!
