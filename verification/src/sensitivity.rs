//! Sensitivity labels and content fingerprinting.
//!
//! Nodes carry a sensitivity level out of an ordered lattice
//! `public < internal < confidential < restricted`; agents may only read
//! content at or below their allowed level.

use vstd::prelude::*;

use crate::text::{lower_of, lowercase, str_eq};

verus! {

/// Sensitivity level for content classification, ordered low to high.
#[derive(Debug, Clone, Copy, PartialEq, Eq, PartialOrd, Ord, Structural)]
pub enum Sensitivity {
    Public,
    Internal,
    Confidential,
    Restricted,
}

/// Position of a sensitivity level in the lattice: `Public` is lowest.
pub open spec fn sensitivity_rank(s: Sensitivity) -> int {
    match s {
        Sensitivity::Public => 0,
        Sensitivity::Internal => 1,
        Sensitivity::Confidential => 2,
        Sensitivity::Restricted => 3,
    }
}

impl Sensitivity {
    /// Numeric rank of this level; the order of ranks is the lattice order.
    pub fn rank(&self) -> (r: u8)
        ensures
            r as int == sensitivity_rank(*self),
    {
        match self {
            Sensitivity::Public => 0,
            Sensitivity::Internal => 1,
            Sensitivity::Confidential => 2,
            Sensitivity::Restricted => 3,
        }
    }
}

/// Whether an agent whose ceiling is `max_agent_sensitivity` may read content
/// classified `content_sensitivity`: allowed up to the ceiling, inclusive.
pub fn agent_can_read(content_sensitivity: Sensitivity, max_agent_sensitivity: Sensitivity) -> (r:
    bool)
    ensures
        r == (sensitivity_rank(content_sensitivity) <= sensitivity_rank(max_agent_sensitivity)),
{
    content_sensitivity.rank() <= max_agent_sensitivity.rank()
}

impl DeepView for Sensitivity {
    type V = Sensitivity;

    open spec fn deep_view(&self) -> Sensitivity {
        *self
    }
}

impl Default for Sensitivity {
    /// The default classification is `internal`.
    fn default() -> (r: Self)
        ensures
            r == Sensitivity::Internal,
    {
        Sensitivity::Internal
    }
}

/// The lower-case name of a sensitivity level.
pub open spec fn sensitivity_name(s: Sensitivity) -> Seq<char> {
    match s {
        Sensitivity::Public => "public"@,
        Sensitivity::Internal => "internal"@,
        Sensitivity::Confidential => "confidential"@,
        Sensitivity::Restricted => "restricted"@,
    }
}

/// The level a lower-cased name denotes, if any.
pub open spec fn sensitivity_of_name(t: Seq<char>) -> Option<Sensitivity> {
    if t == "public"@ {
        Some(Sensitivity::Public)
    } else if t == "internal"@ {
        Some(Sensitivity::Internal)
    } else if t == "confidential"@ {
        Some(Sensitivity::Confidential)
    } else if t == "restricted"@ {
        Some(Sensitivity::Restricted)
    } else {
        None
    }
}

impl Sensitivity {
    /// The level's lower-case name.
    pub fn as_str(&self) -> (r: &'static str)
        ensures
            r@ == sensitivity_name(*self),
    {
        match self {
            Sensitivity::Public => "public",
            Sensitivity::Internal => "internal",
            Sensitivity::Confidential => "confidential",
            Sensitivity::Restricted => "restricted",
        }
    }

    /// Parses a level name, ignoring case.
    pub fn from_str_opt(s: &str) -> (r: Option<Sensitivity>)
        ensures
            r == sensitivity_of_name(lower_of(s@)),
    {
        let low = lowercase(s);
        if str_eq(low.as_str(), "public") {
            Some(Sensitivity::Public)
        } else if str_eq(low.as_str(), "internal") {
            Some(Sensitivity::Internal)
        } else if str_eq(low.as_str(), "confidential") {
            Some(Sensitivity::Confidential)
        } else if str_eq(low.as_str(), "restricted") {
            Some(Sensitivity::Restricted)
        } else {
            None
        }
    }
}

/// IP classification for provenance and attribution.
#[derive(Debug, Clone, Copy, PartialEq, Eq, Structural)]
pub enum IpClassification {
    TradeSecret,
    PatentPending,
    Proprietary,
    Internal,
    Open,
}

impl DeepView for IpClassification {
    type V = IpClassification;

    open spec fn deep_view(&self) -> IpClassification {
        *self
    }
}

/// Source attribution for content provenance.
#[derive(Debug, Clone, Copy, PartialEq, Eq, Structural)]
pub enum SourceAttribution {
    HumanAuthored,
    AgentGenerated,
    Imported,
    Derived,
}

impl DeepView for SourceAttribution {
    type V = SourceAttribution;

    open spec fn deep_view(&self) -> SourceAttribution {
        *self
    }
}

/// Extended metadata for IP protection, attached to proposals and nodes.
pub struct IpMetadata {
    pub sensitivity: Option<Sensitivity>,
    pub ip_classification: Option<IpClassification>,
    pub source_attribution: Option<SourceAttribution>,
    pub license: Option<String>,
    /// SHA-256 hash of the content at apply time, for fingerprinting.
    pub content_hash: Option<String>,
}

/// The lower-case hexadecimal SHA-256 digest of a sequence of characters:
/// a function of the characters alone.
pub uninterp spec fn sha256_hex_of(s: Seq<char>) -> Seq<char>;

/// Relies on `sha2::Sha256` and `generic_array`'s `LowerHex`: the digest of
/// the UTF-8 bytes of the content, written as two lower-case hex digits per
/// digest byte, hence 64 characters.
#[verifier::external_body]
pub fn content_hash(content: &str) -> (r: String)
    ensures
        r@ == sha256_hex_of(content@),
        r@.len() == 64,
{
    let mut hasher = <sha2::Sha256 as sha2::Digest>::new();
    sha2::Digest::update(&mut hasher, content.as_bytes());
    format!("{:x}", sha2::Digest::finalize(hasher))
}

} // verus!
