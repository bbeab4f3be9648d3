//! The metadata of the machine to emulate: its drives, its firmware
//! features and its network interfaces.

use vstd::prelude::*;

verus! {

/// The parts of a machine's metadata that the launcher reads.
#[derive(Debug)]
pub struct Metadata {
    pub specs: Specs,
    pub network: Network,
}

/// The hardware of the machine.
#[derive(Debug)]
pub struct Specs {
    pub drives: Vec<Drive>,
    pub features: Features,
}

/// Firmware features of the machine.
#[derive(Debug)]
pub struct Features {
    /// Whether the machine boots through UEFI.
    pub uefi: bool,
}

/// A group of identical drives.
#[derive(Debug)]
pub struct Drive {
    /// How many drives of this kind the machine has.
    pub count: usize,
    /// The size of each drive, such as `"480GB"`.
    pub size: String,
    /// The kind of each drive.
    pub ty: DriveType,
    /// The name of the group, such as `"boot"` or `"storage"`.
    pub category: String,
}

/// The kind of a drive.
#[derive(Debug, Clone, Copy, PartialEq, Eq, Structural)]
pub enum DriveType {
    Ssd,
    Hdd,
    Nvme,
}

/// The network of the machine.
#[derive(Debug)]
pub struct Network {
    pub interfaces: Vec<NetworkInterface>,
}

/// A network interface of the machine.
#[derive(Debug)]
pub struct NetworkInterface {
    pub name: String,
    pub mac: String,
    pub bond: String,
}

/// A drive group as plain values.
pub struct DriveView {
    pub count: nat,
    pub size: Seq<char>,
    pub ty: DriveType,
    pub category: Seq<char>,
}

impl View for Drive {
    type V = DriveView;

    open spec fn view(&self) -> DriveView {
        DriveView {
            count: self.count as nat,
            size: self.size@,
            ty: self.ty,
            category: self.category@,
        }
    }
}

impl DeepView for Drive {
    type V = DriveView;

    open spec fn deep_view(&self) -> DriveView {
        self@
    }
}

/// A network interface as plain values.
pub struct NetworkInterfaceView {
    pub name: Seq<char>,
    pub mac: Seq<char>,
    pub bond: Seq<char>,
}

impl View for NetworkInterface {
    type V = NetworkInterfaceView;

    open spec fn view(&self) -> NetworkInterfaceView {
        NetworkInterfaceView { name: self.name@, mac: self.mac@, bond: self.bond@ }
    }
}

impl DeepView for NetworkInterface {
    type V = NetworkInterfaceView;

    open spec fn deep_view(&self) -> NetworkInterfaceView {
        self@
    }
}

} // verus!
