//! The immutable token descriptor, set once at initialization.

use vstd::prelude::*;

verus! {

/// The largest decimal precision the descriptor accepts; a 128-bit balance
/// has 39 decimal digits, so anything above this cannot be displayed
/// faithfully.
pub const MAX_DECIMALS: u8 = 38;

/// Descriptor of the one fungible asset this ledger tracks. Stored once at
/// initialization and never mutated afterwards.
#[derive(Clone, Debug, PartialEq, Eq)]
pub struct Metadata {
    /// Version of the token interface this descriptor follows.
    pub spec_version: String,
    /// Human-readable display name.
    pub name: String,
    /// Display symbol.
    pub symbol: String,
    /// Optional icon, a data URL.
    pub icon: Option<String>,
    /// Optional link to an off-ledger reference document.
    pub reference: Option<String>,
    /// Optional content hash of the reference document.
    pub reference_hash: Option<Vec<u8>>,
    /// Number of decimal places the display unit is divided into.
    pub decimals: u8,
}

/// A descriptor is well formed when its name and symbol are non-empty, it
/// declares the interface version this ledger implements, and its decimal
/// precision is displayable.
pub open spec fn metadata_valid(m: Metadata) -> bool {
    &&& m.name@.len() > 0
    &&& m.symbol@.len() > 0
    &&& m.spec_version@ == "ft-1.0.0"@
    &&& m.decimals <= MAX_DECIMALS
}

/// The interface version a well-formed descriptor must declare.
pub fn metadata_spec_version() -> (r: String)
    ensures
        r@ == "ft-1.0.0"@,
{
    "ft-1.0.0".to_owned()
}

impl Metadata {
    /// Decides well-formedness exactly as `metadata_valid` states it.
    pub fn is_valid(&self) -> (r: bool)
        ensures
            r == metadata_valid(*self),
    {
        let version_ok = self.spec_version == metadata_spec_version();
        !self.name.as_str().is_empty() && !self.symbol.as_str().is_empty() && version_ok
            && self.decimals <= MAX_DECIMALS
    }
}

/// The descriptor used when a deployment supplies none of its own: the
/// ChaveroCoin token with its inline SVG icon.
pub fn default_metadata() -> (m: Metadata)
    ensures
        metadata_valid(m),
        m.name@ == "ChaveroCoin Token"@,
        m.symbol@ == "ChC"@,
        m.spec_version@ == "ft-1.0.0"@,
        m.decimals == 24,
        m.icon is Some,
        m.reference is Some,
        m.reference_hash is None,
{
    let m = Metadata {
        spec_version: metadata_spec_version(),
        name: "ChaveroCoin Token".to_owned(),
        symbol: "ChC".to_owned(),
        icon: Some(default_icon()),
        reference: Some("https://chaverocoin.com/token.json".to_owned()),
        reference_hash: None,
        decimals: 24,
    };
    proof {
        reveal_strlit("ChaveroCoin Token");
        reveal_strlit("ChC");
    }
    m
}

/// The coin's icon as a data URL holding an inline SVG drawing.
pub fn default_icon() -> (r: String) {
    "data:image/svg+xml,%3Csvg width='5e3' height='3e3' version='1.1' viewBox='0 0 5e3 3e3' xmlns='http://www.w3.org/2000/svg'%3E%3Cpath d='m1e3 2e3c-402-13-755-381-745-784-2-3%0A42 241-673 576-757 270-75 577 7 771 210 92 58 68 163 15 237-119 270-270 525-394 793 137-319 333-611 452-938-225-334-728-432-1e3 -205-301 192-443 6%0A03-307 936 117 309 441 532 774 505 211-12 424-108 549-283 63-134 117-273 177-409-84 156-127 333-227 480-153 147-369 226-580 214zm-43-231c-85 20-6-%0A170-41-58-5 107 159 55 120-34 9-34-13 165-79 92zm264-61c74 11 184 70 233-18 45-120 109-232 162-349 20-41 39-80 8-15-67 141-137 280-202 421-69-0.9-%0A133-32-201-40zm-443 14c-87 5 2-147-100-135-90-55-154-153-162-259 15 126 101 245 223 287-44 81 83 180 105 61 10-34-17 114-65 46zm137-67c-13-7 20 5 0 0zm-48-8c33 4 7 0.9 0 0zm191 3c31-9 19-2 0 0zm48-22c4-17 0.01 13 0 0zm0.7-12c9-11-11 44 0 0zm-160-141c14 4 22 7 0 0zm173-5c-0.8 45-8 54-0.3 3zm-%0A143 5-18-0.6zm104-3c-9 1-6 0.7 0 0zm-270-37c59 18 72 22 0 0zm-29-19c7-39-63-63-9-20 19 13 40 46 9 20zm1e3 -108c-4-32-68-56-9-32 7 3 18 79 9 32zm-1%0Ae3 2c12 40 6 51 0 0zm-0.9-3c2-7 0.6 10 0 0zm-221-3c-2-11 3 4 0 0zm-0.02-9 0.04 5zm221-5c0.6 31 8 25 0 0zm-222 0.3c-110-161-219-321-329-482 110 161 219 321 329 482zm225-51c-4 19-1 58 0.08 16zm-225 45c4-36 6-64 1-11zm221-9c5-23 0.3-32 0 0zm985-29c65 18-33-5 0 0zm-1e3 -59c-8 53-5 50 0 0zm6-29 1%0A-0.5-1 0.5zm1-3 1-0.4zm0.8-2c42-153 150-276 268-377 92-27 189-64 226-153 50-22 101 102 53 18-59-42-103 35-117 72-92 43-199 66-261 153-77 82-131 18%0A2-170 287zm364-201c25-29 136-63 51-31-73 38-116 112-164 176 30-54 70-102 113-145zm848 137c50-104 109-203 154-309-55 101-103 206-154 309zm-0.9 2c21%0A-25 98-124 81-101-27 34-54 67-81 101zm-410-108c-19-29-137-77-109-67 39 18 77 39 109 67zm8 3c23-31 100-136 91-117-29 40-59 79-91 117zm-165-87c-54-4%0A-52-14 0 0zm-148-7c20-20 14 7 0 0zm21-4c33-1 20 4 0 0zm399-48c-59-60-165-70-189-160-34-16-127 19-43-10 74 30 108 116 190 139 14 10 28 20 42 30zm-2%0A90-130c-40-5 9-3 3-1zm-21-4c9 9-24-9 0 0zm-31-1c2-7 13 12 0 0zm-12-1c5-4 8 12 0 0z' stroke-width='.8'/%3E%3C/svg%3E".to_owned()
}

} // verus!
