//! Error values of the flashing workflows. Errors of the USB fastboot
//! client and of the operating system are carried through unchanged.
use vstd::prelude::*;

verus! {

/// The fastboot client's command error.
#[verifier::external_type_specification]
#[verifier::external_body]
pub struct ExNusbFastBootError(fastboot_protocol::nusb::NusbFastBootError);

/// The fastboot client's error when opening a device.
#[verifier::external_type_specification]
#[verifier::external_body]
pub struct ExNusbFastBootOpenError(fastboot_protocol::nusb::NusbFastBootOpenError);

/// The fastboot client's error while streaming download data.
#[verifier::external_type_specification]
#[verifier::external_body]
pub struct ExDownloadError(fastboot_protocol::nusb::DownloadError);

/// An operating-system I/O error.
#[verifier::external_type_specification]
#[verifier::external_body]
pub struct ExIoError(std::io::Error);

/// A filesystem path.
#[verifier::external_type_specification]
#[verifier::external_body]
pub struct ExPathBuf(std::path::PathBuf);

/// Errors of a flash or format operation.
#[allow(inconsistent_fields)]
#[derive(Debug)]
pub enum FlashError {
    NoDevice,
    DeviceMismatch { expected: String, actual: String },
    Protocol(fastboot_protocol::nusb::NusbFastBootError),
    Open(fastboot_protocol::nusb::NusbFastBootOpenError),
    ImageNotFound(std::path::PathBuf),
    ImageTooLarge { name: String, image_size: u64, partition_size: i64 },
    Io(std::io::Error),
    Download(fastboot_protocol::nusb::DownloadError),
    ActionFailed { partition: String, reason: String },
    GeneratorFailed { reason: String },
    SparseParseFailed,
    SparseSplitFailed,
    SparseTruncated { read: usize, expected: usize },
}

/// Errors of the GSI flash workflow.
#[derive(Debug)]
pub enum GsiError {
    Flash(FlashError),
    Io(std::io::Error),
    ImageCheck(String),
    FormatTools(String),
    Cancelled,
    PartitionResolution(String),
    Transition(String),
    SparseHeader(String),
}

} // verus!
