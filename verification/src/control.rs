//! Binding and unbinding through the USB core driver's control files.
//!
//! The kernel attaches its USB driver to a device when the device's token is
//! written to the driver's `bind` file, and detaches it when the token is
//! written to `unbind`. The library decides which file gets which payload;
//! the caller performs the write and reports a failure as it came.

use vstd::prelude::*;
use vstd::string::*;
use crate::device::Device;

verus! {

/// The two control files of the USB core driver.
#[derive(Clone, Copy, Debug, PartialEq, Eq, Structural)]
pub enum ControlFile {
    /// Writing a token here attaches the driver.
    Bind,
    /// Writing a token here detaches the driver.
    Unbind,
}

impl ControlFile {
    /// Where the file lives.
    pub open spec fn path_text(self) -> Seq<char> {
        match self {
            ControlFile::Bind => "/sys/bus/usb/drivers/usb/bind"@,
            ControlFile::Unbind => "/sys/bus/usb/drivers/usb/unbind"@,
        }
    }

    /// Where the file lives.
    pub fn path(self) -> (r: &'static str)
        ensures
            r@ == self.path_text(),
    {
        match self {
            ControlFile::Bind => "/sys/bus/usb/drivers/usb/bind",
            ControlFile::Unbind => "/sys/bus/usb/drivers/usb/unbind",
        }
    }
}

/// One write to a control file: the whole of what an operation does.
#[derive(Debug)]
pub struct ControlWrite {
    /// The file to write to.
    pub file: ControlFile,
    /// The bytes to write: a device's token, nothing before or after it.
    pub payload: String,
}

/// The file that a toggle writes to: `unbind` for an active device, `bind` for an inactive one.
pub open spec fn toggle_file(active: bool) -> ControlFile {
    if active {
        ControlFile::Unbind
    } else {
        ControlFile::Bind
    }
}

impl Device {
    /// The write that attaches the driver to this device.
    pub fn bind(&self) -> (write: ControlWrite)
        ensures
            write.file == ControlFile::Bind,
            write.payload@ == self@.path,
    {
        ControlWrite { file: ControlFile::Bind, payload: self.path().to_owned() }
    }

    /// The write that detaches the driver from this device.
    pub fn unbind(&self) -> (write: ControlWrite)
        ensures
            write.file == ControlFile::Unbind,
            write.payload@ == self@.path,
    {
        ControlWrite { file: ControlFile::Unbind, payload: self.path().to_owned() }
    }

    /// The one write that toggles this device, given whether it was just seen active.
    ///
    /// The state is read before and written after, and nothing holds it in
    /// between: if it changed meanwhile, the write still is the one that
    /// fitted the state as read.
    pub fn toggle(&self, active: bool) -> (write: ControlWrite)
        ensures
            write.file == toggle_file(active),
            write.payload@ == self@.path,
    {
        if active {
            self.unbind()
        } else {
            self.bind()
        }
    }
}

/// Whether the driver is attached to a device. The kernel owns this state;
/// the library only reasons about it.
#[derive(Clone, Copy, Debug, PartialEq, Eq, Structural)]
pub enum Binding {
    /// A driver is attached and a configuration is active.
    Bound,
    /// No driver is attached.
    Unbound,
}

impl Binding {
    /// The state that an activity reading stands for.
    pub open spec fn seen_as(active: bool) -> Binding {
        if active {
            Binding::Bound
        } else {
            Binding::Unbound
        }
    }

    /// The state after a write to `file` that succeeded or not: a successful
    /// bind attaches, a successful unbind detaches, a failed write changes nothing.
    pub open spec fn after(self, file: ControlFile, succeeded: bool) -> Binding {
        if !succeeded {
            self
        } else {
            match file {
                ControlFile::Bind => Binding::Bound,
                ControlFile::Unbind => Binding::Unbound,
            }
        }
    }

    /// The state that an activity reading stands for.
    pub fn from_activity(active: bool) -> (r: Binding)
        ensures
            r == Binding::seen_as(active),
    {
        if active {
            Binding::Bound
        } else {
            Binding::Unbound
        }
    }

    /// Whether this is the state of an active device.
    pub fn is_active(self) -> (r: bool)
        ensures
            Binding::seen_as(r) == self,
    {
        match self {
            Binding::Bound => true,
            Binding::Unbound => false,
        }
    }

    /// The state after a write to `file` that succeeded or not.
    pub fn step(self, file: ControlFile, succeeded: bool) -> (r: Binding)
        ensures
            r == self.after(file, succeeded),
    {
        if !succeeded {
            self
        } else {
            match file {
                ControlFile::Bind => Binding::Bound,
                ControlFile::Unbind => Binding::Unbound,
            }
        }
    }
}

/// A toggle whose write succeeds, on a device whose state is still the one
/// that was read, puts the device into the other state.
pub proof fn lemma_toggle_flips(active: bool)
    ensures
        Binding::seen_as(active).after(toggle_file(active), true) == Binding::seen_as(!active),
{
}

/// A toggle whose write fails leaves the device as it was.
pub proof fn lemma_failed_toggle_keeps(state: Binding, active: bool)
    ensures
        state.after(toggle_file(active), false) == state,
{
}

/// Two toggles in a row, each on a fresh reading and each successful, restore the state.
pub proof fn lemma_toggle_twice_restores(active: bool)
    ensures
        ({
            let once = Binding::seen_as(active).after(toggle_file(active), true);
            once.after(toggle_file(!active), true) == Binding::seen_as(active)
        }),
{
}

} // verus!
