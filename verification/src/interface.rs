//! A backlight interface bound to its directory path.
//!
//! This handle keeps the device's whole directory path rather than the bare
//! id. Its setter clamps the request at the cached maximum, as every
//! brightness write must; its relative operations moreover floor a decrease
//! at zero, so they clamp at both ends. It sits beside
//! [`crate::backlight`], whose operations clamp at the top only.

use vstd::prelude::*;
use crate::backlight::backlight_path;
use crate::decimal::{
    parse_numeric_value, render_numeric_value, spec_parse_i32, spec_render_i32,
};
use crate::error::Error;

verus! {

/// The part of a path after its last separator: the directory's own name.
pub open spec fn spec_base_name(p: Seq<char>) -> Seq<char>
    decreases p.len(),
{
    if p.len() == 0 {
        p
    } else if p.last() == '/' {
        Seq::empty()
    } else {
        spec_base_name(p.drop_last()).push(p.last())
    }
}

proof fn lemma_base_name_at(p: Seq<char>, j: int)
    requires
        0 <= j <= p.len(),
        forall|k: int| j <= k < p.len() ==> p[k] != '/',
        j == 0 || p[j - 1] == '/',
    ensures
        spec_base_name(p) == p.subrange(j, p.len() as int),
    decreases p.len(),
{
    if p.len() == 0 {
        assert(p.subrange(0, 0) =~= p);
    } else if j == p.len() {
        assert(p.last() == '/');
        assert(p.subrange(j, p.len() as int) =~= Seq::<char>::empty());
    } else {
        assert(p.last() != '/');
        let rest = p.drop_last();
        lemma_base_name_at(rest, j);
        assert(rest.subrange(j, rest.len() as int).push(p.last()) =~= p.subrange(
            j,
            p.len() as int,
        ));
    }
}

/// One backlight device, held by the path of its sysfs directory.
#[derive(Clone, Debug)]
pub struct Interface {
    path: String,
    max: i32,
}

impl Interface {
    /// The bound directory's path.
    pub closed spec fn spec_path(&self) -> Seq<char> {
        self.path@
    }

    /// The cached maximum brightness.
    pub closed spec fn spec_max(&self) -> int {
        self.max as int
    }

    /// What a brightness write stores: the requested value clamped at the
    /// top by the cached maximum, with no lower bound.
    pub open spec fn spec_clamp(&self, requested: int) -> int {
        if requested < self.spec_max() {
            requested
        } else {
            self.spec_max()
        }
    }

    /// What an increase stores: the sum, stopped at the maximum.
    pub open spec fn spec_increase(&self, current: int, value: int) -> int {
        if current + value > self.spec_max() {
            self.spec_max()
        } else {
            current + value
        }
    }

    /// What a decrease stores: the difference, floored at zero and then
    /// clamped by the setter at the maximum.
    pub open spec fn spec_decrease(&self, current: int, value: int) -> int {
        let floored = if current - value < 0 {
            0
        } else {
            current - value
        };
        if floored < self.spec_max() {
            floored
        } else {
            self.spec_max()
        }
    }

    fn new(p: String, max_contents: &str) -> (r: Result<Self, Error>)
        ensures
            match spec_parse_i32(max_contents@) {
                Some(v) => (r matches Ok(i) && i.spec_path() == p@ && i.spec_max() == v),
                None => r == Err::<Interface, Error>(Error::InvalidData),
            },
    {
        match parse_numeric_value(max_contents) {
            Ok(max) => Ok(Interface { path: p, max }),
            Err(e) => Err(e),
        }
    }

    /// The device's name: the last component of its directory path.
    #[verifier::loop_isolation(false)]
    pub fn get_name(&self) -> (r: String)
        ensures
            r@ == spec_base_name(self.spec_path()),
    {
        let n = self.path.as_str().unicode_len();
        let mut j: usize = n;
        while j > 0 && self.path.as_str().get_char(j - 1) != '/'
            invariant
                0 <= j <= n,
                forall|k: int| j <= k < n ==> self.path@[k] != '/',
            decreases j,
        {
            j = j - 1;
        }
        proof {
            lemma_base_name_at(self.path@, j as int);
        }
        self.path.as_str().substring_char(j, n).to_owned()
    }

    /// Returns the cached maximum brightness value.
    pub fn get_max(&self) -> (r: i32)
        ensures
            r as int == self.spec_max(),
    {
        self.max
    }

    /// Reads a brightness value from the contents of the device's
    /// brightness file.
    pub fn brightness(&self, contents: &str) -> (r: Result<i32, Error>)
        ensures
            match spec_parse_i32(contents@) {
                Some(v) => r == Ok::<i32, Error>(v as i32),
                None => r == Err::<i32, Error>(Error::InvalidData),
            },
    {
        parse_numeric_value(contents)
    }

    /// Sets the brightness value: clamps the request at the cached maximum
    /// and returns the decimal text the brightness file must be given. The
    /// lower bound is not floored here; only the relative operations do
    /// that.
    pub fn set_brightness(&self, data: i32) -> (text: String)
        ensures
            text@ == spec_render_i32(self.spec_clamp(data as int)),
    {
        let value = if data < self.max {
            data
        } else {
            self.max
        };
        render_numeric_value(value)
    }

    /// Increases the brightness by the given value, stopping at the
    /// maximum; `current` is the device's current brightness reading.
    pub fn increase_brightness(&self, current: i32, value: i32) -> (text: String)
        requires
            i32::MIN <= current + value <= i32::MAX,
        ensures
            text@ == spec_render_i32(self.spec_increase(current as int, value as int)),
    {
        let mut new_brightness = current + value;
        if new_brightness > self.max {
            new_brightness = self.max;
        }
        self.set_brightness(new_brightness)
    }

    /// Decreases the brightness by the given value, flooring at zero;
    /// `current` is the device's current brightness reading.
    pub fn decrease_brightness(&self, current: i32, value: i32) -> (text: String)
        requires
            i32::MIN <= current - value <= i32::MAX,
        ensures
            text@ == spec_render_i32(self.spec_decrease(current as int, value as int)),
    {
        let mut new_brightness = current - value;
        if new_brightness < 0 {
            new_brightness = 0;
        }
        self.set_brightness(new_brightness)
    }
}

/// Opens the interface of the named device. `device_exists` says whether
/// its directory was found; `max_contents` is what the max-brightness file
/// holds.
pub fn get_interface(name: &String, device_exists: bool, max_contents: &str) -> (r: Result<
    Interface,
    Error,
>)
    ensures
        !device_exists ==> r == Err::<Interface, Error>(Error::NotFound),
        device_exists ==> match spec_parse_i32(max_contents@) {
            Some(v) => (r matches Ok(i) && i.spec_path() == "/sys/class/backlight/"@ + name@
                && i.spec_max() == v),
            None => r == Err::<Interface, Error>(Error::InvalidData),
        },
{
    let path = backlight_path(name.as_str());
    if !device_exists {
        return Err(Error::NotFound);
    }
    Interface::new(path, max_contents)
}

} // verus!
