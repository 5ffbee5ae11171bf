//! Sysfs-based backlight devices.
//!
//! Each device is a directory under the backlight class directory holding
//! three decimal text files: `max_brightness` (read once per handle and
//! cached, assumed constant for the handle's lifetime), `brightness` (the
//! last requested value, writable) and `actual_brightness` (the hardware's
//! self-reported state). The file reads and writes themselves happen outside
//! the library: a handle is opened from the max-brightness file's contents,
//! the getters parse file contents handed to them, and the setters return
//! the exact text a write must carry.
//!
//! Writes clamp the requested value at `max_brightness` and only there: the
//! lower bound is deliberately not floored at zero, so a caller passing a
//! large negative delta writes a negative value through (a latent defect the
//! driver may reject; [`crate::interface`] holds the both-ended variant).
//! Reads are never clamped; out-of-range hardware reports are returned
//! as-is.

use vstd::prelude::*;
use crate::decimal::{
    lemma_render_parse_round_trip, parse_numeric_value, spec_parse_i32, spec_render_i32,
};
use crate::decimal::render_numeric_value;
use crate::error::Error;
use crate::monitor::{EventKind, MonitorEvent};

verus! {

/// A backlight device identifier: the device's directory name in the sysfs
/// class tree. Equality is string equality; enumeration promises no order.
#[derive(Debug, Clone)]
pub struct DeviceId(pub String);

/// The absolute path of a device's directory under the backlight class
/// directory.
pub fn backlight_path(id: &str) -> (r: String)
    ensures
        r@ == "/sys/class/backlight/"@ + id@,
{
    let mut path = "/sys/class/backlight/".to_owned();
    path.append(id);
    path
}

/// The default device: the first enumerated one, or nothing on a host
/// without backlight devices. The choice follows traversal order, which the
/// OS does not promise is stable.
pub fn get_default_device(devices: &Vec<DeviceId>) -> (r: Option<DeviceId>)
    ensures
        devices@.len() == 0 ==> r is None,
        devices@.len() > 0 ==> (r matches Some(d) && d.0@ == devices@[0].0@),
{
    if devices.is_empty() {
        return None;
    }
    Some(DeviceId(devices[0].0.clone()))
}

/// Opens a backlight device by its id.
///
/// `device_exists` says whether the device's directory was found, and
/// `max_contents` is what the directory's max-brightness file holds. A
/// missing directory is `NotFound`; max-brightness contents that are not a
/// clean decimal integer are `InvalidData`.
///
/// The device does not need to be closed.
pub fn open_device(device_id: DeviceId, device_exists: bool, max_contents: &str) -> (r: Result<
    Backlight,
    Error,
>)
    ensures
        !device_exists ==> r == Err::<Backlight, Error>(Error::NotFound),
        device_exists ==> match spec_parse_i32(max_contents@) {
            Some(v) => (r matches Ok(b) && b.spec_id() == device_id.0@ && b.spec_max() == v),
            None => r == Err::<Backlight, Error>(Error::InvalidData),
        },
{
    Backlight::open(device_id, device_exists, max_contents)
}

/// Represents a backlight device.
///
/// Use `open_device` to get an instance.
pub struct Backlight {
    /// Folder name in the backlight class directory.
    id: String,
    /// Cached value of the max-brightness file; read exactly once per handle
    /// lifetime and never refreshed, as the driver value does not change
    /// while the handle is alive.
    max_brightness: i32,
}

impl Backlight {
    /// The bound device's id.
    pub closed spec fn spec_id(&self) -> Seq<char> {
        self.id@
    }

    /// The cached maximum brightness.
    pub closed spec fn spec_max(&self) -> int {
        self.max_brightness as int
    }

    /// What a brightness write stores: the requested value clamped at the
    /// top by `max_brightness`, with no lower bound.
    pub open spec fn spec_clamp(&self, requested: int) -> int {
        if requested < self.spec_max() {
            requested
        } else {
            self.spec_max()
        }
    }

    fn open(device_id: DeviceId, device_exists: bool, max_contents: &str) -> (r: Result<
        Self,
        Error,
    >)
        ensures
            !device_exists ==> r == Err::<Backlight, Error>(Error::NotFound),
            device_exists ==> match spec_parse_i32(max_contents@) {
                Some(v) => (r matches Ok(b) && b.spec_id() == device_id.0@ && b.spec_max() == v),
                None => r == Err::<Backlight, Error>(Error::InvalidData),
            },
    {
        let id = device_id.0;
        if !device_exists {
            return Err(Error::NotFound);
        }
        match parse_numeric_value(max_contents) {
            Ok(max_brightness) => Ok(Backlight { id, max_brightness }),
            Err(e) => Err(e),
        }
    }

    /// Returns the maximum brightness value reported by the driver.
    pub fn get_max_brightness(&self) -> (r: i32)
        ensures
            r as int == self.spec_max(),
    {
        self.max_brightness
    }

    /// Gets the current brightness value reported by the driver, from the
    /// contents of the device's brightness file.
    ///
    /// This value may be different from the actual brightness value.
    /// Use `get_actual_brightness` to query the hardware.
    pub fn get_brightness(&self, contents: &str) -> (r: Result<i32, Error>)
        ensures
            match spec_parse_i32(contents@) {
                Some(v) => r == Ok::<i32, Error>(v as i32),
                None => r == Err::<i32, Error>(Error::InvalidData),
            },
    {
        parse_numeric_value(contents)
    }

    /// Gets the actual brightness value the hardware reports, from the
    /// contents of the device's actual-brightness file.
    ///
    /// Use `get_brightness` for the cached value reported by the driver.
    pub fn get_actual_brightness(&self, contents: &str) -> (r: Result<i32, Error>)
        ensures
            match spec_parse_i32(contents@) {
                Some(v) => r == Ok::<i32, Error>(v as i32),
                None => r == Err::<i32, Error>(Error::InvalidData),
            },
    {
        parse_numeric_value(contents)
    }

    /// Sets the brightness value: clamps the request at `max_brightness`
    /// and returns the decimal text the brightness file must be given.
    pub fn set_brightness(&self, requested_value: i32) -> (text: String)
        ensures
            text@ == spec_render_i32(self.spec_clamp(requested_value as int)),
    {
        let value = if requested_value < self.max_brightness {
            requested_value
        } else {
            self.max_brightness
        };
        render_numeric_value(value)
    }

    /// Increases the brightness by the given value: `current` is the actual
    /// brightness as `get_actual_brightness` returned it, and the result is
    /// the text to write, clamped at `max_brightness`.
    pub fn increase_brightness(&self, current: i32, value: i32) -> (text: String)
        requires
            i32::MIN <= current + value <= i32::MAX,
        ensures
            text@ == spec_render_i32(self.spec_clamp(current + value)),
    {
        self.set_brightness(current + value)
    }

    /// Decreases the brightness by the given value. Only the upper clamp
    /// applies: a delta larger than `current` yields a negative write.
    pub fn decrease_brightness(&self, current: i32, value: i32) -> (text: String)
        requires
            i32::MIN <= current - value <= i32::MAX,
        ensures
            text@ == spec_render_i32(self.spec_clamp(current - value)),
    {
        self.set_brightness(current - value)
    }

    /// The monitor's filter: the change stream is subsystem-wide, so only a
    /// change event whose device name matches this handle's id produces a
    /// notification; every other event is discarded.
    pub fn should_notify(&self, event: &MonitorEvent) -> (r: bool)
        ensures
            r == (event.kind is Change && event.device_name@ == self.spec_id()),
    {
        match event.kind {
            EventKind::Change => event.device_name == self.id,
            EventKind::Other => false,
        }
    }
}

/// Law: writing `set_brightness(requested)` and reading the brightness file
/// back yields `min(requested, max_brightness)` — what the setter's text
/// denotes is exactly the clamped request.
pub proof fn lemma_set_then_get(b: Backlight, requested: i32)
    requires
        requested >= 0,
    ensures
        ({
            let clamped = b.spec_clamp(requested as int);
            spec_parse_i32(spec_render_i32(clamped)) == Some(clamped)
        }),
{
    let clamped = b.spec_clamp(requested as int);
    assert(i32::MIN <= clamped <= i32::MAX);
    lemma_render_parse_round_trip(clamped as i32);
}

/// Law: an increase that would pass `max_brightness` stores exactly
/// `max_brightness` — the upper clamp holds, and reading the written text
/// back yields `max_brightness`.
pub proof fn lemma_increase_clamps(b: Backlight, current: i32, delta: i32)
    requires
        i32::MIN <= current + delta <= i32::MAX,
        current + delta > b.spec_max(),
    ensures
        b.spec_clamp(current + delta) == b.spec_max(),
        spec_parse_i32(spec_render_i32(b.spec_clamp(current + delta))) == Some(b.spec_max()),
{
    lemma_render_parse_round_trip(b.max_brightness);
}

} // verus!
