//! Interfaces of the device and the events they produce.

use vstd::prelude::*;

verus! {

/// Interface number under which the device exposes its keys.
pub const KEYS_INTERFACE: i32 = 0;

/// Interface number under which the device exposes its wheel.
pub const WHEEL_INTERFACE: i32 = 2;

/// One of the two sub-interfaces that the pipeline reads.
#[derive(Clone, Copy, Debug, PartialEq, Eq, Structural)]
pub enum InterfaceRole {
    Keys,
    Wheel,
}

/// The role that an interface number stands for, if any.
pub open spec fn role_of_interface(number: int) -> Option<InterfaceRole> {
    if number == 0 {
        Some(InterfaceRole::Keys)
    } else if number == 2 {
        Some(InterfaceRole::Wheel)
    } else {
        None
    }
}

impl InterfaceRole {
    /// The interface number of this role, as a mathematical integer.
    pub open spec fn number(self) -> int {
        match self {
            InterfaceRole::Keys => 0,
            InterfaceRole::Wheel => 2,
        }
    }

    /// The interface number on which the device serves this role.
    pub fn interface_number(&self) -> (n: i32)
        ensures
            n == self.number(),
            role_of_interface(n as int) == Some(*self),
    {
        match self {
            InterfaceRole::Keys => KEYS_INTERFACE,
            InterfaceRole::Wheel => WHEEL_INTERFACE,
        }
    }

    /// The role served on interface `number`; `None` for an interface that
    /// the pipeline does not read.
    pub fn from_interface_number(number: i32) -> (role: Option<InterfaceRole>)
        ensures
            role == role_of_interface(number as int),
    {
        if number == KEYS_INTERFACE {
            Some(InterfaceRole::Keys)
        } else if number == WHEEL_INTERFACE {
            Some(InterfaceRole::Wheel)
        } else {
            None
        }
    }
}

/// What a report meant: a key that went down, or a movement of the wheel.
/// The payload is never zero when the event comes from a reader, since zero
/// is how the device says "idle".
#[derive(Clone, Copy, Debug, PartialEq, Eq, Structural)]
pub enum DeviceEvent {
    Key(u8),
    Wheel(u8),
}

impl DeviceEvent {
    /// The interface that emits events of this kind.
    pub open spec fn source(self) -> InterfaceRole {
        match self {
            DeviceEvent::Key(_) => InterfaceRole::Keys,
            DeviceEvent::Wheel(_) => InterfaceRole::Wheel,
        }
    }

    /// The byte that the event carries.
    pub open spec fn payload(self) -> u8 {
        match self {
            DeviceEvent::Key(code) => code,
            DeviceEvent::Wheel(value) => value,
        }
    }
}

} // verus!
