//! Trust tiers that sessions move through, and what each tier is allowed.

use vstd::prelude::*;
use crate::text::{owned, str_eq};

verus! {

/// How far a session is trusted.
#[derive(Debug, Clone, Copy, PartialEq, Eq, Structural)]
pub enum TrustTier {
    /// No verification yet.
    Unknown,
    /// Demoted after suspicious behaviour.
    Suspicious,
    /// Passed a CAPTCHA.
    Verified,
    /// Proven good actor.
    Trusted,
    /// Permanently refused.
    Burned,
}

/// Whether a tier must pass through the CAPTCHA gateway before reaching the real site.
pub open spec fn tier_requires_gate(t: TrustTier) -> bool {
    t == TrustTier::Unknown || t == TrustTier::Suspicious || t == TrustTier::Burned
}

/// Requests a circuit of the tier may make per rate-limit window.
pub open spec fn tier_limit(t: TrustTier) -> nat {
    match t {
        TrustTier::Trusted => 300,
        TrustTier::Verified => 100,
        _ => 10,
    }
}

/// The name of a tier as it is shown and stored.
pub open spec fn tier_name(t: TrustTier) -> Seq<char> {
    match t {
        TrustTier::Unknown => "Unknown"@,
        TrustTier::Suspicious => "Suspicious"@,
        TrustTier::Verified => "Verified"@,
        TrustTier::Trusted => "Trusted"@,
        TrustTier::Burned => "Burned"@,
    }
}

/// The tier that a lower-cased override name stands for.
pub open spec fn tier_of_lowercase(s: Seq<char>) -> TrustTier {
    if s == "verified"@ {
        TrustTier::Verified
    } else if s == "trusted"@ {
        TrustTier::Trusted
    } else if s == "suspicious"@ {
        TrustTier::Suspicious
    } else if s == "burned"@ || s == "killed"@ {
        TrustTier::Burned
    } else {
        TrustTier::Unknown
    }
}

/// What `str::to_lowercase` returns for a string.
pub uninterp spec fn lowercase(s: Seq<char>) -> Seq<char>;

/// Lower-cases a string with `str::to_lowercase`; the result is named
/// `lowercase` of the argument, and nothing more is claimed of it.
#[verifier::external_body]
pub(crate) fn to_lowercase(s: &str) -> (r: String)
    ensures
        r@ == lowercase(s@),
{
    s.to_lowercase()
}

impl TrustTier {
    /// Unknown, Suspicious and Burned sessions are sent to the CAPTCHA gateway.
    pub fn requires_gate(&self) -> (r: bool)
        ensures
            r == tier_requires_gate(*self),
    {
        match self {
            TrustTier::Unknown | TrustTier::Suspicious | TrustTier::Burned => true,
            _ => false,
        }
    }

    /// The tier's name.
    pub fn as_str(&self) -> (r: &'static str)
        ensures
            r@ == tier_name(*self),
    {
        proof {
            reveal_strlit("Unknown");
            reveal_strlit("Suspicious");
            reveal_strlit("Verified");
            reveal_strlit("Trusted");
            reveal_strlit("Burned");
        }
        match self {
            TrustTier::Unknown => "Unknown",
            TrustTier::Suspicious => "Suspicious",
            TrustTier::Verified => "Verified",
            TrustTier::Trusted => "Trusted",
            TrustTier::Burned => "Burned",
        }
    }

    /// Per-circuit request limit within one rate-limit window.
    pub fn rate_limit(&self) -> (r: usize)
        ensures
            r == tier_limit(*self),
    {
        match self {
            TrustTier::Trusted => 300,
            TrustTier::Verified => 100,
            _ => 10,
        }
    }
}

/// The tier for an override name that is already lower-cased.
pub fn tier_from_lowercase(s: &str) -> (t: TrustTier)
    ensures
        t == tier_of_lowercase(s@),
{
    if str_eq(s, "verified") {
        proof { reveal_strlit("verified"); }
        TrustTier::Verified
    } else if str_eq(s, "trusted") {
        proof { reveal_strlit("trusted"); }
        TrustTier::Trusted
    } else if str_eq(s, "suspicious") {
        proof { reveal_strlit("suspicious"); }
        TrustTier::Suspicious
    } else if str_eq(s, "burned") || str_eq(s, "killed") {
        proof { reveal_strlit("burned"); reveal_strlit("killed"); }
        TrustTier::Burned
    } else {
        TrustTier::Unknown
    }
}

/// The tier that an administrator override name forces, compared without case.
pub fn tier_from_override(name: &str) -> (t: TrustTier)
    ensures
        t == tier_of_lowercase(lowercase(name@)),
{
    let l = to_lowercase(name);
    tier_from_lowercase(l.as_str())
}

/// An owned copy of the tier's name.
pub fn tier_string(t: TrustTier) -> (s: String)
    ensures
        s@ == tier_name(t),
{
    owned(t.as_str())
}

} // verus!
