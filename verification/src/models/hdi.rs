//! Finding the two interfaces of the device among what the system lists.
//!
//! The keypad and its wheel share one vendor and product identifier and show
//! up as separate interfaces. Both must be there before the pipeline starts:
//! the daemon does not run on one of them alone.

use vstd::prelude::*;
use vstd::string::StringExecFns;
use crate::models::device_event::InterfaceRole;

verus! {

/// Vendor identifier of the device.
pub const VENDOR_ID: u16 = 0x1189;

/// Product identifier of the device.
pub const PRODUCT_ID: u16 = 0x8890;

/// The vendor and product identifier that a piece of hardware reports.
#[derive(Clone, Copy, Debug, PartialEq, Eq, Structural)]
pub struct DeviceIdentity {
    pub vendor_id: u16,
    pub product_id: u16,
}

impl DeviceIdentity {
    /// The identity of the device that the daemon binds to.
    pub open spec fn target() -> DeviceIdentity {
        DeviceIdentity { vendor_id: VENDOR_ID, product_id: PRODUCT_ID }
    }
}

/// Whether no byte of `bytes` is zero.
pub open spec fn no_nul(bytes: Seq<u8>) -> bool {
    forall|i: int| 0 <= i < bytes.len() ==> bytes[i] != 0
}

/// The name under which the system opens one interface: the bytes of a C
/// string, without the zero byte that ends it. No byte of a path is zero.
#[derive(Debug, PartialEq, Eq)]
pub struct DevicePath {
    bytes: Vec<u8>,
}

impl View for DevicePath {
    type V = Seq<u8>;

    closed spec fn view(&self) -> Seq<u8> {
        self.bytes@
    }
}

impl Clone for DevicePath {
    fn clone(&self) -> (copy: Self)
        ensures
            copy@ == self@,
    {
        proof {
            use_type_invariant(self);
        }
        DevicePath { bytes: self.bytes.clone() }
    }
}

impl DevicePath {
    #[verifier::type_invariant]
    spec fn well_formed(self) -> bool {
        no_nul(self.bytes@)
    }

    /// Makes a path of `bytes`; `None` if and only if one of them is zero.
    pub fn new(bytes: Vec<u8>) -> (path: Option<DevicePath>)
        ensures
            path is Some <==> no_nul(bytes@),
            path matches Some(made) ==> made@ == bytes@,
    {
        let mut i: usize = 0;
        while i < bytes.len()
            invariant
                i <= bytes.len(),
                forall|k: int| 0 <= k < i ==> bytes@[k] != 0,
            decreases bytes.len() - i,
        {
            if bytes[i] == 0 {
                return None;
            }
            i += 1;
        }
        Some(DevicePath { bytes })
    }

    /// The bytes of the path. None of them is zero.
    pub fn as_bytes(&self) -> (bytes: &[u8])
        ensures
            bytes@ == self@,
            no_nul(bytes@),
    {
        proof {
            use_type_invariant(self);
        }
        self.bytes.as_slice()
    }
}

/// One interface that the system lists: what the decision reads of it.
#[derive(Clone, Debug, PartialEq, Eq)]
pub struct DeviceEntry {
    pub vendor_id: u16,
    pub product_id: u16,
    pub interface_number: i32,
    pub path: DevicePath,
}

impl DeviceEntry {
    /// Whether this entry is the interface of `role` on a device of
    /// `identity`.
    pub open spec fn serves(self, identity: DeviceIdentity, role: InterfaceRole) -> bool {
        &&& self.vendor_id == identity.vendor_id
        &&& self.product_id == identity.product_id
        &&& self.interface_number == role.number()
    }
}

/// The path that `role` resolves to among `devices`: that of the last entry
/// that serves it. Entries of other devices and other interfaces do not count.
pub open spec fn resolved(
    identity: DeviceIdentity,
    devices: Seq<DeviceEntry>,
    role: InterfaceRole,
) -> Option<Seq<u8>>
    decreases devices.len(),
{
    if devices.len() == 0 {
        None
    } else if devices.last().serves(identity, role) {
        Some(devices.last().path@)
    } else {
        resolved(identity, devices.drop_last(), role)
    }
}

/// Whether the entry at `index` serves `role` and none after it does.
pub open spec fn is_last_serving(
    identity: DeviceIdentity,
    devices: Seq<DeviceEntry>,
    role: InterfaceRole,
    index: int,
) -> bool {
    &&& 0 <= index < devices.len()
    &&& devices[index].serves(identity, role)
    &&& forall|later: int|
        index < later < devices.len() ==> !(#[trigger] devices[later]).serves(identity, role)
}

/// A role resolves if and only if some entry serves it, and then to the path
/// of the last such entry. What the system lists of other devices, and of
/// other interfaces of this one, has no part in it.
pub proof fn lemma_resolved_is_last_match(
    identity: DeviceIdentity,
    devices: Seq<DeviceEntry>,
    role: InterfaceRole,
)
    ensures
        resolved(identity, devices, role) is None <==> forall|i: int|
            0 <= i < devices.len() ==> !(#[trigger] devices[i]).serves(identity, role),
        resolved(identity, devices, role) is Some ==> exists|i: int|
            #[trigger] is_last_serving(identity, devices, role, i) && resolved(
                identity,
                devices,
                role,
            ) == Some(devices[i].path@),
    decreases devices.len(),
{
    if devices.len() == 0 {
    } else if devices.last().serves(identity, role) {
        assert(is_last_serving(identity, devices, role, devices.len() - 1));
    } else {
        let earlier = devices.drop_last();
        lemma_resolved_is_last_match(identity, earlier, role);
        if resolved(identity, earlier, role) is Some {
            let i = choose|i: int|
                #[trigger] is_last_serving(identity, earlier, role, i) && resolved(
                    identity,
                    earlier,
                    role,
                ) == Some(earlier[i].path@);
            assert forall|later: int| i < later < devices.len() implies !(
            #[trigger] devices[later]).serves(identity, role) by {
                if later < earlier.len() {
                    assert(earlier[later] == devices[later]);
                }
            }
            assert(is_last_serving(identity, devices, role, i));
        } else {
            assert forall|i: int| 0 <= i < devices.len() implies !(#[trigger] devices[i]).serves(
                identity,
                role,
            ) by {
                if i < earlier.len() {
                    assert(earlier[i] == devices[i]);
                }
            }
        }
    }
}

/// A role for which the system lists no interface of the device.
#[derive(Clone, Copy, Debug, PartialEq, Eq, Structural)]
pub struct DeviceNotFound {
    pub role: InterfaceRole,
}

impl DeviceNotFound {
    /// The text of the error.
    pub open spec fn text(self) -> Seq<char> {
        match self.role {
            InterfaceRole::Keys => "No se encontró la interfaz de teclas (Int 0)"@,
            InterfaceRole::Wheel => "No se encontró la interfaz de la rueda (Int 2)"@,
        }
    }

    /// Says which interface is missing.
    pub fn message(&self) -> (message: String)
        ensures
            message@ == self.text(),
    {
        match self.role {
            InterfaceRole::Keys => String::from_str("No se encontró la interfaz de teclas (Int 0)"),
            InterfaceRole::Wheel => String::from_str(
                "No se encontró la interfaz de la rueda (Int 2)",
            ),
        }
    }
}

/// The paths of the two interfaces that the pipeline reads.
#[derive(Clone, Debug, PartialEq, Eq)]
pub struct Hdi {
    pub p_keys: DevicePath,
    pub p_wheel: DevicePath,
}

/// The view of an optional path.
pub open spec fn path_view(path: Option<DevicePath>) -> Option<Seq<u8>> {
    match path {
        Some(found) => Some(found@),
        None => None,
    }
}

impl Hdi {
    /// Resolves the interfaces of the device among `devices`, the interfaces
    /// that the system lists. Fails when one of the two is not there, naming
    /// the keys if both are missing.
    pub fn new(devices: &Vec<DeviceEntry>) -> (found: Result<Hdi, DeviceNotFound>)
        ensures
            Hdi::locates(DeviceIdentity::target(), devices@, found),
            found is Ok <==> resolved(
                DeviceIdentity::target(),
                devices@,
                InterfaceRole::Keys,
            ) is Some && resolved(DeviceIdentity::target(), devices@, InterfaceRole::Wheel) is Some,
    {
        Hdi::locate(DeviceIdentity { vendor_id: VENDOR_ID, product_id: PRODUCT_ID }, devices)
    }

    /// What `locate` owes for `identity` and `devices`, said of its result
    /// `found`.
    pub open spec fn locates(
        identity: DeviceIdentity,
        devices: Seq<DeviceEntry>,
        found: Result<Hdi, DeviceNotFound>,
    ) -> bool {
        let keys = resolved(identity, devices, InterfaceRole::Keys);
        let wheel = resolved(identity, devices, InterfaceRole::Wheel);
        match found {
            Ok(hdi) => keys == Some(hdi.p_keys@) && wheel == Some(hdi.p_wheel@),
            Err(missing) => if keys is None {
                missing.role == InterfaceRole::Keys
            } else {
                wheel is None && missing.role == InterfaceRole::Wheel
            },
        }
    }

    /// Resolves the interfaces of a device of `identity` among `devices`.
    pub fn locate(identity: DeviceIdentity, devices: &Vec<DeviceEntry>) -> (found: Result<
        Hdi,
        DeviceNotFound,
    >)
        ensures
            Hdi::locates(identity, devices@, found),
            found is Ok <==> resolved(identity, devices@, InterfaceRole::Keys) is Some && resolved(
                identity,
                devices@,
                InterfaceRole::Wheel,
            ) is Some,
    {
        let mut path_keys: Option<DevicePath> = None;
        let mut path_wheel: Option<DevicePath> = None;
        let mut i: usize = 0;
        while i < devices.len()
            invariant
                i <= devices.len(),
                path_view(path_keys) == resolved(
                    identity,
                    devices@.take(i as int),
                    InterfaceRole::Keys,
                ),
                path_view(path_wheel) == resolved(
                    identity,
                    devices@.take(i as int),
                    InterfaceRole::Wheel,
                ),
            decreases devices.len() - i,
        {
            let device = &devices[i];
            proof {
                let upto = devices@.take(i as int + 1);
                assert(upto.drop_last() =~= devices@.take(i as int));
                assert(upto.last() == devices@[i as int]);
            }
            if device.vendor_id == identity.vendor_id && device.product_id == identity.product_id {
                match InterfaceRole::from_interface_number(device.interface_number) {
                    Some(InterfaceRole::Keys) => {
                        path_keys = Some(device.path.clone());
                    },
                    Some(InterfaceRole::Wheel) => {
                        path_wheel = Some(device.path.clone());
                    },
                    None => {},
                }
            }
            i += 1;
        }
        assert(devices@.take(i as int) =~= devices@);
        match path_keys {
            None => Err(DeviceNotFound { role: InterfaceRole::Keys }),
            Some(p_keys) => match path_wheel {
                None => Err(DeviceNotFound { role: InterfaceRole::Wheel }),
                Some(p_wheel) => Ok(Hdi { p_keys, p_wheel }),
            },
        }
    }
}

} // verus!
