//! The unified configuration document: cache and pairing data side by side,
//! with a version stamp.
//!
//! This is the data model only. Reading and writing the document — kept as a file
//! next to the executable — is a collaborator's job outside this crate,
//! which sees the document as plain values.

use vstd::prelude::*;

use crate::cache::DeviceCache;
use crate::pairing::PairingConfig;
use vstd::string::StringExecFns;

verus! {

/// Cache and pairing data as one document.
#[derive(Debug)]
pub struct UnifiedConfig {
    pub cache: Option<DeviceCache>,
    pub pairing: Option<PairingConfig>,
    pub version: String,
}

impl UnifiedConfig {
    /// An empty document stamped with this crate's version.
    pub fn new() -> (r: Self)
        ensures
            r.cache is None,
            r.pairing is None,
            r.version@ == "0.1.0"@,
    {
        UnifiedConfig { cache: None, pairing: None, version: String::from_str("0.1.0") }
    }
}

} // verus!
