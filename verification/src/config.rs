//! The machine configuration as the GUI edits it: SCSI devices, memory banks,
//! display, networking, video-in, debug and CI settings.

use vstd::prelude::*;

verus! {

/// RAM bank sizes (MB) the memory controller accepts.
pub const VALID_BANK_SIZES: [u32; 6] = [0, 8, 16, 32, 64, 128];

/// One SCSI target: a disk image or a CD-ROM drive (with changer discs).
#[derive(Debug, Clone)]
pub struct ScsiDeviceConfig {
    pub path: String,
    pub discs: Vec<String>,
    pub cdrom: bool,
    pub overlay: bool,
    pub scratch: bool,
    pub size_mb: Option<u32>,
}

#[derive(Debug, Clone, Copy, PartialEq, Eq, Structural)]
pub enum NetMode {
    Nat,
    Pcap,
}

#[derive(Debug, Clone)]
pub struct NetworkConfig {
    pub mode: NetMode,
    /// PCAP interface by name or index; `None` = auto-pick.
    pub pcap_interface: Option<String>,
}

#[derive(Debug, Clone, Copy, PartialEq, Eq, Structural)]
pub enum ForwardProto {
    Tcp,
    Udp,
}

#[derive(Debug, Clone, Copy, PartialEq, Eq, Structural)]
pub enum ForwardBind {
    Localhost,
    Any,
}

#[derive(Debug, Clone, Copy, PartialEq, Eq, Structural)]
pub struct PortForwardConfig {
    pub proto: ForwardProto,
    pub host_port: u16,
    pub guest_port: u16,
    pub bind: ForwardBind,
}

/// Which NFS protocol versions the in-core server answers: `Auto` serves
/// NFSv2 and NFSv3, dispatched by each call's RPC version.
#[derive(Debug, Clone, Copy, PartialEq, Eq, Structural)]
pub enum NfsVersion {
    Auto,
    V2,
    V3,
}

/// The NFS share served in-process by the NAT.
#[derive(Debug, Clone)]
pub struct NfsConfig {
    pub shared_dir: String,
    pub version: NfsVersion,
}

#[derive(Debug, Clone, Copy, PartialEq, Eq, Structural)]
pub enum VinoSource {
    Camera,
    TestPattern,
    Black,
    Off,
}

#[derive(Debug, Clone, Copy, PartialEq, Eq, Structural)]
pub enum VinoStandard {
    Ntsc,
    Pal,
}

#[derive(Debug, Clone, Copy, PartialEq, Eq, Structural)]
pub struct VinoConfig {
    pub source: VinoSource,
    pub standard: VinoStandard,
    pub camera_index: u32,
}

/// The settings of one emulated machine.
#[derive(Debug, Clone)]
pub struct MachineConfig {
    pub prom: String,
    pub nvram: String,
    pub serial_log: Option<String>,
    /// RAM bank sizes in MB.
    pub banks: [u32; 4],
    pub scale: u32,
    pub headless: bool,
    pub no_audio: bool,
    /// SCSI targets by id (each id at most once).
    pub scsi: Vec<(u8, ScsiDeviceConfig)>,
    pub network: NetworkConfig,
    pub nat_subnet: Option<String>,
    pub port_forward: Vec<PortForwardConfig>,
    pub nfs: Option<NfsConfig>,
    pub vino: VinoConfig,
    pub gdb_port: Option<u16>,
    pub ci: bool,
    pub ci_socket: String,
    pub ci_display: bool,
}

/// Each SCSI target id occurs at most once.
pub open spec fn unique_ids(s: Seq<(u8, ScsiDeviceConfig)>) -> bool {
    forall|i: int, j: int| 0 <= i < j < s.len() ==> s[i].0 != s[j].0
}

} // verus!
