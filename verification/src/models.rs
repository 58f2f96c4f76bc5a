//! The values exchanged between devices and reported to the user interface.

use vstd::prelude::*;

verus! {

/// The version of the transfer protocol this library speaks.
pub const PROTOCOL_VERSION: u16 = 1;

/// A device's stable identity, announced on the network and sent with offers.
#[derive(Clone, Debug, PartialEq, Eq)]
pub struct DeviceIdentity {
    pub id: String,
    pub name: String,
    pub platform: String,
}

/// Another device seen on the local network.
#[derive(Clone, Debug, PartialEq, Eq)]
pub struct NearbyDevice {
    pub id: String,
    pub name: String,
    pub platform: String,
    pub address: String,
    pub port: u16,
}

/// What the user interface shows about this device.
#[derive(Clone, Debug, PartialEq, Eq)]
pub struct AppInfo {
    pub identity: DeviceIdentity,
    pub download_directory: String,
    pub protocol_version: u16,
}

/// One file announced in an offer.
#[derive(Clone, Debug, PartialEq, Eq)]
pub struct FileMetadata {
    pub name: String,
    pub size: u64,
    pub sha256: String,
}

/// A sender's proposal to transfer a list of files.
#[derive(Clone, Debug, PartialEq, Eq)]
pub struct TransferOffer {
    pub protocol_version: u16,
    pub transfer_id: String,
    pub sender: DeviceIdentity,
    pub files: Vec<FileMetadata>,
    pub total_bytes: u64,
}

/// Which side of a transfer this device is on.
#[derive(Clone, Copy, Debug, PartialEq, Eq)]
pub enum TransferDirection {
    Sending,
    Receiving,
}

/// A progress report for a running transfer.
#[derive(Clone, Debug, PartialEq, Eq)]
pub struct TransferProgress {
    pub transfer_id: String,
    pub direction: TransferDirection,
    pub current_file: String,
    pub current_file_index: usize,
    pub completed_files: usize,
    pub total_files: usize,
    pub transferred_bytes: u64,
    pub total_bytes: u64,
    pub remaining_bytes: u64,
    pub bytes_per_second: u64,
    pub progress: u8,
}

/// A transfer that completed; on the receiving side, where its files were saved.
#[derive(Clone, Debug, PartialEq, Eq)]
pub struct TransferFinished {
    pub transfer_id: String,
    pub direction: TransferDirection,
    pub saved_files: Vec<String>,
}

/// A transfer that stopped, and why.
#[derive(Clone, Debug, PartialEq, Eq)]
pub struct TransferFailed {
    pub transfer_id: String,
    pub direction: TransferDirection,
    pub message: String,
}

/// User preferences kept between runs.
#[derive(Clone, Copy, Debug, PartialEq, Eq)]
pub struct AppSettings {
    pub auto_open_received: bool,
    pub discoverable: bool,
}

/// What the backend reports to the user interface.
#[derive(Clone, Debug)]
pub enum BackendEvent {
    DevicesChanged(Vec<NearbyDevice>),
    IncomingOffer(TransferOffer),
    TransferProgress(TransferProgress),
    TransferFinished(TransferFinished),
    TransferFailed(TransferFailed),
}

impl Default for AppSettings {
    /// A fresh installation is discoverable and does not open received files.
    fn default() -> (s: AppSettings)
        ensures
            s.discoverable,
            !s.auto_open_received,
    {
        AppSettings { auto_open_received: false, discoverable: true }
    }
}

/// The settings to use after reading the stored ones: those stored, when
/// they could be read, and the defaults otherwise.
pub fn settings_or_default(stored: Option<AppSettings>) -> (s: AppSettings)
    ensures
        stored matches Some(t) ==> s == t,
        stored is None ==> s.discoverable && !s.auto_open_received,
{
    match stored {
        Some(t) => t,
        None => AppSettings::default(),
    }
}

/// A field-by-field copy of an identity.
pub fn copy_identity(d: &DeviceIdentity) -> (r: DeviceIdentity)
    ensures
        r.id@ == d.id@,
        r.name@ == d.name@,
        r.platform@ == d.platform@,
{
    DeviceIdentity { id: d.id.clone(), name: d.name.clone(), platform: d.platform.clone() }
}

/// What the user interface shows about this device: its identity, where
/// received files go, and the protocol version spoken.
pub fn app_info(identity: &DeviceIdentity, download_directory: String) -> (info: AppInfo)
    ensures
        info.identity.id@ == identity.id@,
        info.identity.name@ == identity.name@,
        info.identity.platform@ == identity.platform@,
        info.download_directory@ == download_directory@,
        info.protocol_version == PROTOCOL_VERSION,
{
    AppInfo { identity: copy_identity(identity), download_directory, protocol_version: PROTOCOL_VERSION }
}

} // verus!
