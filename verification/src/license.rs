//! What a license token claims about its holder.

use vstd::prelude::*;

verus! {

/// The claims of a license token.
#[derive(Debug, Clone)]
pub struct LicenseClaims {
    /// The subject the license was issued to.
    pub sub: String,
    pub email: String,
    /// Whether the license unlocks the paid features.
    pub pro: bool,
    /// Expiry, in seconds since the Unix epoch.
    pub exp: usize,
}

} // verus!
