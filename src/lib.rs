//! Identifies which DEX protocol a contract's EVM bytecode implements, and
//! measures how similar two bytecode blobs are.
//!
//! - `selector_fingerprint`: which function selectors occur in bytecode, and
//!   which protocol template they match.
//! - `fingerprint`: normalisation, TLSH fingerprints and similarity tiers,
//!   and EIP-1167 minimal proxy detection.
//! - `analyze`: the per-address analysis gathered into a report.

pub mod analyze;
pub mod fingerprint;
pub mod text;
pub mod selector_fingerprint;

pub use analyze::{
    analyze_bytecode, dex_protocol_name, parse_address_hex, proxy_implementation_address,
    validate_rpc_url, AnalyzeError, AnalyzeReport, BytecodeAnalysis,
};
pub use fingerprint::{Fingerprint, FingerprintError, Similarity};
pub use selector_fingerprint::{identify_protocol, identify_protocols, DexProtocol, Selector};
