//! The knobs of the pipeline.

use vstd::prelude::*;

verus! {

/// How much of a QR symbol may be damaged and still be read.
#[derive(Clone, Copy, Debug, PartialEq, Eq, Structural)]
pub enum EcLevel {
    /// Low: about 7% of the symbol.
    L,
    /// Medium: about 15%.
    M,
    /// Quartile: about 25%.
    Q,
    /// High: about 30%.
    H,
}

/// What one QR code carries and how it is drawn.
#[derive(Clone, Copy, Debug, PartialEq, Eq, Structural)]
pub struct QrConfig {
    /// The number of container bytes that one code carries.
    pub bytes_per_qr: i32,
    /// The version, that is the size, of every symbol.
    pub qr_version: i16,
    /// The error correction level of every symbol.
    pub error_level: EcLevel,
}

impl Default for QrConfig {
    /// 630 bytes a code, version 21, medium error correction.
    fn default() -> (config: Self)
        ensures
            config == (QrConfig { bytes_per_qr: 630, qr_version: 21, error_level: EcLevel::M }),
    {
        QrConfig { bytes_per_qr: 630, qr_version: 21, error_level: EcLevel::M }
    }
}

} // verus!
