//! Per-contract analysis: proxy resolution, protocol decision and
//! fingerprint, gathered into a report.
//!
//! Fetching bytecode from a node is left to the caller; the functions here
//! take the fetched bytes and decide what comes next.

use vstd::prelude::*;
use vstd::seq_lib::{to_multiset_build, to_multiset_insert};

use crate::fingerprint::{
    error_message, extract_eip1167_impl, fingerprint_input, is_minimal_proxy, fingerprint_digest,
    Fingerprint, FingerprintError,
};
use crate::text::{decimal_of, encode_hex, hex_of, usize_to_decimal};
use crate::selector_fingerprint::selectors::{
    get_reserves_bytes, global_state_bytes, k_last_bytes, slot0_bytes, stable_bytes, token0_bytes,
    token1_bytes,
};
use crate::selector_fingerprint::{
    all_occur, confidence_of, forbidden_of, identify_protocols, matching_templates, matching_upto,
    none_occur, occurs_in, required_of, template_order, DexProtocol,
};

verus! {

/// Errors of an analysis.
#[derive(Debug, Clone, PartialEq, Eq)]
pub enum AnalyzeError {
    /// The node URL is blank or does not parse.
    InvalidRpcUrl,
    /// The address is not 20 bytes of hexadecimal.
    InvalidAddress,
    /// The address has no deployed bytecode.
    NoDeployedBytecode,
    /// The node failed; its message is kept.
    Rpc(String),
}

impl AnalyzeError {
    /// A human-readable description of the error.
    pub fn message(&self) -> (r: String)
        ensures
            r@ == match self {
                AnalyzeError::InvalidRpcUrl => "invalid rpc url"@,
                AnalyzeError::InvalidAddress => "invalid address (expected 20-byte 0x-prefixed hex)"@,
                AnalyzeError::NoDeployedBytecode => "address has no deployed bytecode (EOA or not deployed)"@,
                AnalyzeError::Rpc(m) => "rpc error: "@ + m@,
            },
    {
        match self {
            AnalyzeError::InvalidRpcUrl => String::from_str("invalid rpc url"),
            AnalyzeError::InvalidAddress => String::from_str(
                "invalid address (expected 20-byte 0x-prefixed hex)",
            ),
            AnalyzeError::NoDeployedBytecode => String::from_str(
                "address has no deployed bytecode (EOA or not deployed)",
            ),
            AnalyzeError::Rpc(m) => {
                let mut s = String::from_str("rpc error: ");
                s.append(m.as_str());
                s
            },
        }
    }
}

/// One protocol that matched, with its confidence.
#[derive(Debug, Clone)]
pub struct ProtocolCandidate {
    pub protocol: String,
    pub confidence: u32,
}

/// The fingerprint of the analysed bytecode.
#[derive(Debug, Clone)]
pub struct FingerprintReport {
    pub hash_hex: String,
    pub original_size: usize,
    pub normalized_size: usize,
}

/// The analysis of one blob of bytecode.
#[derive(Debug, Clone)]
pub struct BytecodeAnalysis {
    pub address: String,
    pub code_size: usize,
    pub protocol: String,
    pub protocol_candidates: Option<Vec<ProtocolCandidate>>,
    pub is_pool_likely: bool,
    pub fingerprint: Option<FingerprintReport>,
    pub fingerprint_error: Option<String>,
}

/// The analysis of one address, following a minimal proxy to its target.
#[derive(Debug, Clone)]
pub struct AnalyzeReport {
    pub rpc_url: String,
    pub address: String,
    pub is_eip1167_proxy: bool,
    pub implementation_address: Option<String>,
    pub analysis: BytecodeAnalysis,
    pub proxy_analysis: Option<BytecodeAnalysis>,
}

/// The canonical name of a protocol tag.
pub open spec fn name_of(p: DexProtocol) -> Seq<char> {
    match p {
        DexProtocol::UniswapV2 => "UniswapV2"@,
        DexProtocol::UniswapV3 => "UniswapV3"@,
        DexProtocol::Solidly => "Solidly"@,
        DexProtocol::AlgebraLegacyV1 => "AlgebraLegacyV1"@,
        DexProtocol::AlgebraLegacyV1_9Plus => "AlgebraLegacyV1_9Plus"@,
        DexProtocol::AlgebraIntegral => "AlgebraIntegral"@,
        DexProtocol::Unknown => "Unknown"@,
    }
}

/// The canonical name of a protocol tag.
pub fn dex_protocol_name(p: DexProtocol) -> (r: &'static str)
    ensures
        r@ == name_of(p),
{
    match p {
        DexProtocol::UniswapV2 => "UniswapV2",
        DexProtocol::UniswapV3 => "UniswapV3",
        DexProtocol::Solidly => "Solidly",
        DexProtocol::AlgebraLegacyV1 => "AlgebraLegacyV1",
        DexProtocol::AlgebraLegacyV1_9Plus => "AlgebraLegacyV1_9Plus",
        DexProtocol::AlgebraIntegral => "AlgebraIntegral",
        DexProtocol::Unknown => "Unknown",
    }
}

/// Position of the protocol's name in the alphabetical order of all names.
pub open spec fn name_rank(p: DexProtocol) -> int {
    match p {
        DexProtocol::AlgebraIntegral => 0,
        DexProtocol::AlgebraLegacyV1 => 1,
        DexProtocol::AlgebraLegacyV1_9Plus => 2,
        DexProtocol::Solidly => 3,
        DexProtocol::UniswapV2 => 4,
        DexProtocol::UniswapV3 => 5,
        DexProtocol::Unknown => 6,
    }
}

fn name_rank_of(p: DexProtocol) -> (r: u8)
    ensures
        r == name_rank(p),
{
    match p {
        DexProtocol::AlgebraIntegral => 0,
        DexProtocol::AlgebraLegacyV1 => 1,
        DexProtocol::AlgebraLegacyV1_9Plus => 2,
        DexProtocol::Solidly => 3,
        DexProtocol::UniswapV2 => 4,
        DexProtocol::UniswapV3 => 5,
        DexProtocol::Unknown => 6,
    }
}

/// `a` comes strictly before `b` in the lexicographic order of characters,
/// where a proper prefix comes first.
pub open spec fn text_before(a: Seq<char>, b: Seq<char>) -> bool
    decreases a.len(),
{
    if b.len() == 0 {
        false
    } else if a.len() == 0 {
        true
    } else if a[0] != b[0] {
        (a[0] as u32) < (b[0] as u32)
    } else {
        text_before(a.drop_first(), b.drop_first())
    }
}

proof fn lemma_text_before_at(a: Seq<char>, b: Seq<char>, k: int)
    requires
        0 <= k <= a.len(),
        k <= b.len(),
        a.take(k) == b.take(k),
        k == a.len() || k == b.len() || a[k] != b[k],
    ensures
        text_before(a, b) == if k == b.len() {
            false
        } else if k == a.len() {
            true
        } else {
            (a[k] as u32) < (b[k] as u32)
        },
    decreases k,
{
    if k > 0 {
        assert(a[0] == a.take(k)[0]);
        assert(b[0] == b.take(k)[0]);
        assert(a.drop_first().take(k - 1) =~= a.take(k).drop_first());
        assert(b.drop_first().take(k - 1) =~= b.take(k).drop_first());
        lemma_text_before_at(a.drop_first(), b.drop_first(), k - 1);
    }
}

/// Length of the common prefix of the names of `p` and `q`.
spec fn shared_prefix_len(p: DexProtocol, q: DexProtocol) -> int {
    let (a, b) = (name_of(p), name_of(q));
    if p == q {
        a.len() as int
    } else if a[0] != b[0] {
        0
    } else if a[1] != b[1] {
        1
    } else if a[2] != b[2] {
        2
    } else if a[7] != b[7] {
        7
    } else if a[8] != b[8] {
        8
    } else {
        15
    }
}

/// Ordering by `name_rank` is the alphabetical order of the canonical names.
pub proof fn lemma_name_rank_alphabetical(p: DexProtocol, q: DexProtocol)
    ensures
        name_rank(p) < name_rank(q) <==> text_before(name_of(p), name_of(q)),
{
    reveal_strlit("UniswapV2");
    reveal_strlit("UniswapV3");
    reveal_strlit("Solidly");
    reveal_strlit("AlgebraLegacyV1");
    reveal_strlit("AlgebraLegacyV1_9Plus");
    reveal_strlit("AlgebraIntegral");
    reveal_strlit("Unknown");
    let k = shared_prefix_len(p, q);
    assert(name_of(p).take(k) =~= name_of(q).take(k));
    lemma_text_before_at(name_of(p), name_of(q), k);
}

/// Candidate `a` is listed before `b`: higher confidence first, then the
/// name that comes first alphabetically.
pub open spec fn ranks_before(a: (DexProtocol, u32), b: (DexProtocol, u32)) -> bool {
    a.1 > b.1 || (a.1 == b.1 && name_rank(a.0) < name_rank(b.0))
}

/// No candidate of `s` is listed after one that ranks below it.
pub open spec fn ranked(s: Seq<(DexProtocol, u32)>) -> bool {
    forall|i: int, j: int| 0 <= i < j < s.len() ==> !ranks_before(#[trigger] s[j], #[trigger] s[i])
}

/// `s` holds the candidates of `m`, each as often, in ranked order.
pub open spec fn is_ranking_of(s: Seq<(DexProtocol, u32)>, m: Seq<(DexProtocol, u32)>) -> bool {
    s.to_multiset() == m.to_multiset() && ranked(s)
}

fn ranks_before_exec(a: (DexProtocol, u32), b: (DexProtocol, u32)) -> (r: bool)
    ensures
        r == ranks_before(a, b),
{
    a.1 > b.1 || (a.1 == b.1 && name_rank_of(a.0) < name_rank_of(b.0))
}

/// Sorts candidates by descending confidence, then ascending name.
pub fn rank_candidates(m: &Vec<(DexProtocol, u32)>) -> (r: Vec<(DexProtocol, u32)>)
    ensures
        is_ranking_of(r@, m@),
{
    broadcast use to_multiset_build, to_multiset_insert;

    let mut out: Vec<(DexProtocol, u32)> = Vec::new();
    let mut i: usize = 0;
    assert(out@ =~= m@.take(0));
    while i < m.len()
        invariant
            i <= m@.len(),
            out@.to_multiset() == m@.take(i as int).to_multiset(),
            ranked(out@),
        decreases m@.len() - i,
    {
        let x = m[i];
        let mut j: usize = 0;
        while j < out.len() && !ranks_before_exec(x, out[j])
            invariant
                j <= out@.len(),
                forall|k: int| 0 <= k < j ==> !ranks_before(x, #[trigger] out@[k]),
            decreases out@.len() - j,
        {
            j = j + 1;
        }
        let ghost old_out = out@;
        out.insert(j, x);
        assert(out@ == old_out.insert(j as int, x));
        assert(m@.take(i + 1) =~= m@.take(i as int).push(x));
        proof {
            to_multiset_insert(old_out, j as int, x);
            to_multiset_build(m@.take(i as int), x);
        }
        assert forall|a: int, b: int| 0 <= a < b < out@.len() implies !ranks_before(
            #[trigger] out@[b],
            #[trigger] out@[a],
        ) by {
            if b < j {
                assert(out@[a] == old_out[a] && out@[b] == old_out[b]);
            } else if b == j {
                assert(out@[a] == old_out[a]);
            } else if a < j {
                assert(out@[a] == old_out[a] && out@[b] == old_out[b - 1]);
            } else if a == j {
                assert(ranks_before(x, old_out[j as int]));
                assert(out@[b] == old_out[b - 1]);
                if b - 1 > j {
                    assert(!ranks_before(old_out[b - 1], old_out[j as int]));
                }
            } else {
                assert(out@[a] == old_out[a - 1] && out@[b] == old_out[b - 1]);
            }
        }
        i = i + 1;
    }
    assert(m@.take(m@.len() as int) =~= m@);
    out
}

/// The decided protocol of `code`: the only matching template, or `Unknown`
/// when none or several match.
pub open spec fn decided_protocol(code: Seq<u8>) -> DexProtocol {
    let m = matching_templates(code);
    if m.len() == 1 {
        m[0].0
    } else {
        DexProtocol::Unknown
    }
}

/// `c` lists the candidates `s`, in order, by name and confidence.
pub open spec fn lists_candidates(c: Seq<ProtocolCandidate>, s: Seq<(DexProtocol, u32)>) -> bool {
    &&& c.len() == s.len()
    &&& forall|i: int|
        0 <= i < c.len() ==> (#[trigger] c[i]).protocol@ == name_of(s[i].0) && c[i].confidence
            == s[i].1
}

/// `c` lists all templates matching `code`, ranked.
pub open spec fn ranked_candidates_of(c: Seq<ProtocolCandidate>, code: Seq<u8>) -> bool {
    exists|s: Seq<(DexProtocol, u32)>|
        is_ranking_of(s, matching_templates(code)) && #[trigger] lists_candidates(c, s)
}

/// Bytecode in which `token0`, `token1`, `getReserves` and `kLast` occur,
/// and none of `slot0`, `stable` and `globalState`, matches the Uniswap V2
/// template alone, so it is decided as Uniswap V2 without candidates.
pub proof fn lemma_v2_interface(code: Seq<u8>)
    requires
        occurs_in(code, token0_bytes()),
        occurs_in(code, token1_bytes()),
        occurs_in(code, get_reserves_bytes()),
        occurs_in(code, k_last_bytes()),
        !occurs_in(code, slot0_bytes()),
        !occurs_in(code, stable_bytes()),
        !occurs_in(code, global_state_bytes()),
    ensures
        matching_templates(code).len() == 1,
        decided_protocol(code) == DexProtocol::UniswapV2,
{
    assert(required_of(DexProtocol::AlgebraIntegral)[2] == global_state_bytes());
    assert(required_of(DexProtocol::AlgebraLegacyV1_9Plus)[2] == global_state_bytes());
    assert(required_of(DexProtocol::AlgebraLegacyV1)[2] == global_state_bytes());
    assert(required_of(DexProtocol::UniswapV3)[2] == slot0_bytes());
    assert(required_of(DexProtocol::Solidly)[3] == stable_bytes());
    let v2 = DexProtocol::UniswapV2;
    assert(all_occur(required_of(v2), code)) by {
        assert forall|k: int| 0 <= k < required_of(v2).len() implies occurs_in(
            code,
            #[trigger] required_of(v2)[k],
        ) by {
            if k == 0 {
            } else if k == 1 {
            } else if k == 2 {
            } else {
            }
        }
    }
    assert(none_occur(forbidden_of(v2), code)) by {
        assert forall|k: int| 0 <= k < forbidden_of(v2).len() implies !occurs_in(
            code,
            #[trigger] forbidden_of(v2)[k],
        ) by {
            if k == 0 {
            } else if k == 1 {
            } else {
            }
        }
    }
    assert(confidence_of(v2, code) >= 4);
    let order = template_order();
    assert(confidence_of(order[0], code) == 0);
    assert(confidence_of(order[1], code) == 0);
    assert(confidence_of(order[2], code) == 0);
    assert(confidence_of(order[3], code) == 0);
    assert(confidence_of(order[4], code) == 0);
    assert(matching_upto(code, 5).len() == 0) by {
        reveal_with_fuel(matching_upto, 6);
    }
    assert(matching_templates(code) == matching_upto(code, 5).push(
        (v2, confidence_of(v2, code) as u32),
    ));
}

/// Decides the protocol of `bytecode`: the single matching template; or
/// `Unknown`, with all matching templates ranked when several match.
pub fn decide_protocol(bytecode: &[u8]) -> (r: (DexProtocol, Option<Vec<ProtocolCandidate>>))
    ensures
        r.0 == decided_protocol(bytecode@),
        r.1 is Some <==> matching_templates(bytecode@).len() >= 2,
        r.1 matches Some(c) ==> ranked_candidates_of(c@, bytecode@),
{
    let matches = identify_protocols(bytecode);
    if matches.len() == 0 {
        return (DexProtocol::Unknown, None);
    }
    if matches.len() == 1 {
        return (matches[0].0, None);
    }
    let sorted = rank_candidates(&matches);
    proof {
        assert(sorted@.len() == matches@.len()) by {
            sorted@.to_multiset_ensures();
            matches@.to_multiset_ensures();
        }
    }
    let mut candidates: Vec<ProtocolCandidate> = Vec::new();
    let mut i: usize = 0;
    while i < sorted.len()
        invariant
            i <= sorted@.len(),
            lists_candidates(candidates@, sorted@.take(i as int)),
        decreases sorted@.len() - i,
    {
        let (p, confidence) = sorted[i];
        candidates.push(
            ProtocolCandidate { protocol: String::from_str(dex_protocol_name(p)), confidence },
        );
        i = i + 1;
    }
    assert(sorted@.take(i as int) =~= sorted@);
    assert(lists_candidates(candidates@, sorted@));
    (DexProtocol::Unknown, Some(candidates))
}


/// The text of an address: `0x` and lower-case hexadecimal.
pub open spec fn address_text(a: Seq<u8>) -> Seq<char> {
    "0x"@ + hex_of(a)
}

fn format_address(a: &[u8; 20]) -> (r: String)
    ensures
        r@ == address_text(a@),
{
    let mut s = String::from_str("0x");
    s.append(encode_hex(a.as_slice()).as_str());
    s
}

/// The fingerprint fields of `a` are those of bytecode `code`: the report of
/// its fingerprint, or the description of the error that prevented it.
pub open spec fn fingerprint_fields_of(a: BytecodeAnalysis, code: Seq<u8>) -> bool {
    if code.len() < 50 {
        &&& a.fingerprint is None
        &&& a.fingerprint_error matches Some(e) && e@ == error_message(
            FingerprintError::BytecodeTooSmall(code.len() as usize),
        )
    } else {
        match fingerprint_digest(code) {
            Some(h) => {
                &&& a.fingerprint matches Some(f) && f.hash_hex@ == hex_of(h) && f.original_size
                    == code.len() && f.normalized_size == fingerprint_input(code).len()
                &&& a.fingerprint_error is None
            },
            None => {
                &&& a.fingerprint is None
                &&& a.fingerprint_error matches Some(e) && e@ == error_message(
                    FingerprintError::InvalidBytecode,
                )
            },
        }
    }
}

/// `a` is the analysis of bytecode `code` deployed at `address`.
pub open spec fn is_analysis_of(a: BytecodeAnalysis, address: Seq<u8>, code: Seq<u8>) -> bool {
    &&& a.address@ == address_text(address)
    &&& a.code_size == code.len()
    &&& a.protocol@ == name_of(decided_protocol(code))
    &&& a.protocol_candidates is Some <==> matching_templates(code).len() >= 2
    &&& a.protocol_candidates matches Some(c) ==> ranked_candidates_of(c@, code)
    &&& a.is_pool_likely == (decided_protocol(code) != DexProtocol::Unknown)
    &&& fingerprint_fields_of(a, code)
}

/// Analyses one blob of bytecode: decides its protocol and fingerprints it;
/// a fingerprint failure is recorded beside the protocol decision.
pub fn analyze_bytecode(address: [u8; 20], bytecode: &[u8]) -> (r: BytecodeAnalysis)
    ensures
        is_analysis_of(r, address@, bytecode@),
{
    let (protocol, candidates) = decide_protocol(bytecode);
    let is_pool_likely = protocol != DexProtocol::Unknown;
    let (fingerprint, fingerprint_error) = match Fingerprint::from_bytecode(bytecode) {
        Ok(fp) => (
            Some(
                FingerprintReport {
                    hash_hex: fp.hash_hex(),
                    original_size: fp.original_size(),
                    normalized_size: fp.normalized_size(),
                },
            ),
            None,
        ),
        Err(e) => (None, Some(e.message())),
    };
    BytecodeAnalysis {
        address: format_address(&address),
        code_size: bytecode.len(),
        protocol: String::from_str(dex_protocol_name(protocol)),
        protocol_candidates: candidates,
        is_pool_likely,
        fingerprint,
        fingerprint_error,
    }
}

/// The target address of a minimal proxy, or `None` for any other bytecode.
pub fn proxy_implementation_address(bytecode: &[u8]) -> (r: Option<[u8; 20]>)
    ensures
        is_minimal_proxy(bytecode@) ==> (r matches Some(a) && a@ == bytecode@.subrange(10, 30)),
        !is_minimal_proxy(bytecode@) ==> r is None,
{
    extract_eip1167_impl(bytecode)
}

/// What follows once the code at the queried address came back: an error
/// when there is none; else the proxy target whose code is needed next, or
/// `None` when the code is analysed directly.
pub fn proxy_target_to_fetch(bytecode: &[u8]) -> (r: Result<Option<[u8; 20]>, AnalyzeError>)
    ensures
        bytecode@.len() == 0 ==> r == Err::<Option<[u8; 20]>, AnalyzeError>(
            AnalyzeError::NoDeployedBytecode,
        ),
        bytecode@.len() > 0 && is_minimal_proxy(bytecode@) ==> (r matches Ok(Some(a)) && a@
            == bytecode@.subrange(10, 30)),
        bytecode@.len() > 0 && !is_minimal_proxy(bytecode@) ==> r matches Ok(None),
{
    if bytecode.len() == 0 {
        return Err(AnalyzeError::NoDeployedBytecode);
    }
    Ok(proxy_implementation_address(bytecode))
}

/// The report on an address whose code is no minimal proxy.
pub fn direct_report(rpc_url: &str, address: [u8; 20], bytecode: &[u8]) -> (r: AnalyzeReport)
    ensures
        r.rpc_url@ == rpc_url@,
        r.address@ == address_text(address@),
        !r.is_eip1167_proxy,
        r.implementation_address is None,
        is_analysis_of(r.analysis, address@, bytecode@),
        r.proxy_analysis is None,
{
    AnalyzeReport {
        rpc_url: String::from_str(rpc_url),
        address: format_address(&address),
        is_eip1167_proxy: false,
        implementation_address: None,
        analysis: analyze_bytecode(address, bytecode),
        proxy_analysis: None,
    }
}

/// The report on a minimal proxy at `address` whose target `target` holds
/// `target_code`: the target's code is analysed, the proxy's own code is
/// kept as a secondary analysis. A target without code is an error.
pub fn proxy_report(
    rpc_url: &str,
    address: [u8; 20],
    bytecode: &[u8],
    target: [u8; 20],
    target_code: &[u8],
) -> (r: Result<AnalyzeReport, AnalyzeError>)
    ensures
        target_code@.len() == 0 ==> r == Err::<AnalyzeReport, AnalyzeError>(
            AnalyzeError::NoDeployedBytecode,
        ),
        target_code@.len() > 0 ==> r is Ok,
        r matches Ok(rep) ==> {
            &&& rep.rpc_url@ == rpc_url@
            &&& rep.address@ == address_text(address@)
            &&& rep.is_eip1167_proxy
            &&& rep.implementation_address matches Some(t) && t@ == address_text(target@)
            &&& is_analysis_of(rep.analysis, target@, target_code@)
            &&& rep.proxy_analysis matches Some(pa) && is_analysis_of(pa, address@, bytecode@)
        },
{
    if target_code.len() == 0 {
        return Err(AnalyzeError::NoDeployedBytecode);
    }
    let analysis = analyze_bytecode(target, target_code);
    let proxy_analysis = analyze_bytecode(address, bytecode);
    Ok(
        AnalyzeReport {
            rpc_url: String::from_str(rpc_url),
            address: format_address(&address),
            is_eip1167_proxy: true,
            implementation_address: Some(format_address(&target)),
            analysis,
            proxy_analysis: Some(proxy_analysis),
        },
    )
}


/// `c` has Unicode's White_Space property (what `char::is_whitespace` tests).
pub open spec fn is_white_space(c: char) -> bool {
    let v = c as u32;
    ||| 0x09 <= v <= 0x0d
    ||| v == 0x20
    ||| v == 0x85
    ||| v == 0xa0
    ||| v == 0x1680
    ||| 0x2000 <= v <= 0x200a
    ||| v == 0x2028
    ||| v == 0x2029
    ||| v == 0x202f
    ||| v == 0x205f
    ||| v == 0x3000
}

/// `s` without its leading whitespace.
pub open spec fn trim_start_spec(s: Seq<char>) -> Seq<char>
    decreases s.len(),
{
    if s.len() > 0 && is_white_space(s[0]) {
        trim_start_spec(s.drop_first())
    } else {
        s
    }
}

/// `s` without its trailing whitespace.
pub open spec fn trim_end_spec(s: Seq<char>) -> Seq<char>
    decreases s.len(),
{
    if s.len() > 0 && is_white_space(s.last()) {
        trim_end_spec(s.drop_last())
    } else {
        s
    }
}

/// `s` without leading and trailing whitespace.
pub open spec fn trim_spec(s: Seq<char>) -> Seq<char> {
    trim_end_spec(trim_start_spec(s))
}

/// Relies on `str::trim`: the string without its leading and trailing
/// characters of the White_Space property.
#[verifier::external_body]
fn trim_str(s: &str) -> (r: &str)
    ensures
        r@ == trim_spec(s@),
{
    s.trim()
}

/// The text parses as an absolute URL.
pub uninterp spec fn url_parses(s: Seq<char>) -> bool;

/// Relies on `url::Url::parse`: whether the text parses depends on the text
/// alone.
#[verifier::external_body]
fn url_parse_ok(s: &str) -> (r: bool)
    ensures
        r == url_parses(s@),
{
    url::Url::parse(s).is_ok()
}

/// Checks the node URL: it must hold more than whitespace and parse as a URL.
pub fn validate_rpc_url(rpc_url: &str) -> (r: Result<(), AnalyzeError>)
    ensures
        r is Ok <==> (trim_spec(rpc_url@).len() > 0 && url_parses(rpc_url@)),
        r is Err ==> r == Err::<(), AnalyzeError>(AnalyzeError::InvalidRpcUrl),
{
    if trim_str(rpc_url).is_empty() {
        return Err(AnalyzeError::InvalidRpcUrl);
    }
    if !url_parse_ok(rpc_url) {
        return Err(AnalyzeError::InvalidRpcUrl);
    }
    Ok(())
}

/// The value of hexadecimal digit `c` (either case), or -1 for any other
/// character.
pub open spec fn hex_value(c: char) -> int {
    let v = c as u32 as int;
    if 0x30 <= v <= 0x39 {
        v - 0x30
    } else if 0x61 <= v <= 0x66 {
        v - 0x61 + 10
    } else if 0x41 <= v <= 0x46 {
        v - 0x41 + 10
    } else {
        -1
    }
}

/// The digits of an address text: without its `0x` or `0X` prefix, if any.
pub open spec fn address_digits(s: Seq<char>) -> Seq<char> {
    if s.len() >= 2 && s[0] == '0' && (s[1] == 'x' || s[1] == 'X') {
        s.subrange(2, s.len() as int)
    } else {
        s
    }
}

/// `s` is an address: an optional `0x` prefix and 40 hexadecimal digits.
pub open spec fn is_address_text(s: Seq<char>) -> bool {
    let d = address_digits(s);
    d.len() == 40 && forall|i: int| 0 <= i < 40 ==> hex_value(#[trigger] d[i]) >= 0
}

/// The 20 bytes written by address text `s`, two digits per byte, high
/// nibble first.
pub open spec fn address_value(s: Seq<char>) -> Seq<u8> {
    let d = address_digits(s);
    Seq::new(20, |i: int| (hex_value(d[2 * i]) * 16 + hex_value(d[2 * i + 1])) as u8)
}

/// Relies on alloy's `Address: FromStr` (const-hex's `decode_to_array`): an
/// optional `0x` or `0X` prefix, then exactly 40 hexadecimal digits of
/// either case, two per byte, high nibble first.
#[verifier::external_body]
fn parse_address(s: &str) -> (r: Option<[u8; 20]>)
    ensures
        r is Some <==> is_address_text(s@),
        r matches Some(a) ==> a@ == address_value(s@),
{
    s.parse::<alloy::primitives::Address>().ok().map(|a| a.0.0)
}

/// Parses a 20-byte hexadecimal address.
pub fn parse_address_hex(address: &str) -> (r: Result<[u8; 20], AnalyzeError>)
    ensures
        r is Ok <==> is_address_text(address@),
        r matches Ok(a) ==> a@ == address_value(address@),
        r is Err ==> r == Err::<[u8; 20], AnalyzeError>(AnalyzeError::InvalidAddress),
{
    match parse_address(address) {
        Some(a) => Ok(a),
        None => Err(AnalyzeError::InvalidAddress),
    }
}

/// The text of a boolean.
pub open spec fn bool_text(b: bool) -> Seq<char> {
    if b {
        "true"@
    } else {
        "false"@
    }
}

/// One line per candidate: its name and confidence.
pub open spec fn candidate_lines(c: Seq<ProtocolCandidate>) -> Seq<char>
    decreases c.len(),
{
    if c.len() == 0 {
        seq![]
    } else {
        candidate_lines(c.drop_last()) + "  - "@ + c.last().protocol@ + " (confidence "@
            + decimal_of(c.last().confidence as nat) + ")\n"@
    }
}

/// The lines on the queried address and its proxy status.
pub open spec fn header_text(r: AnalyzeReport) -> Seq<char> {
    "rpc_url: "@ + r.rpc_url@ + "\n"@ + "address: "@ + r.address@ + "\n"@ + if r.is_eip1167_proxy {
        "eip1167_proxy: true\n"@ + match r.implementation_address {
            Some(i) => "implementation_address: "@ + i@ + "\n"@,
            None => Seq::<char>::empty(),
        }
    } else {
        "eip1167_proxy: false\n"@
    }
}

/// The lines on the protocol decision of `a`; candidates are listed only for
/// an `Unknown` decision with at least one candidate.
pub open spec fn protocol_text(a: BytecodeAnalysis) -> Seq<char> {
    "analysis_address: "@ + a.address@ + "\n"@ + "code_size: "@ + decimal_of(a.code_size as nat)
        + "\n"@ + "protocol: "@ + a.protocol@ + "\n"@ + "is_pool_likely: "@ + bool_text(
        a.is_pool_likely,
    ) + "\n"@ + match a.protocol_candidates {
        Some(c) => if a.protocol@ == "Unknown"@ && c.len() > 0 {
            "protocol_candidates:\n"@ + candidate_lines(c@)
        } else {
            Seq::<char>::empty()
        },
        None => Seq::<char>::empty(),
    }
}

/// The lines on the fingerprint of `a`, or on the error that prevented it.
pub open spec fn fingerprint_text(a: BytecodeAnalysis) -> Seq<char> {
    match a.fingerprint {
        Some(f) => "fingerprint_hash: "@ + f.hash_hex@ + "\n"@ + "fingerprint_original_size: "@
            + decimal_of(f.original_size as nat) + "\n"@ + "fingerprint_normalized_size: "@
            + decimal_of(f.normalized_size as nat) + "\n"@,
        None => match a.fingerprint_error {
            Some(e) => "fingerprint_error: "@ + e@ + "\n"@,
            None => Seq::<char>::empty(),
        },
    }
}

/// The lines on the proxy's own bytecode, when there is a proxy.
pub open spec fn proxy_text(r: AnalyzeReport) -> Seq<char> {
    match r.proxy_analysis {
        Some(p) => "\nproxy_bytecode_analysis:\n"@ + "  address: "@ + p.address@ + "\n"@
            + "  code_size: "@ + decimal_of(p.code_size as nat) + "\n"@ + "  protocol: "@
            + p.protocol@ + "\n"@,
        None => Seq::<char>::empty(),
    }
}

/// The human-readable text of a report.
pub open spec fn human_text_of(r: AnalyzeReport) -> Seq<char> {
    header_text(r) + "\n"@ + protocol_text(r.analysis) + fingerprint_text(r.analysis) + proxy_text(
        r,
    )
}

fn push_line(out: &mut String, key: &str, value: &str)
    ensures
        final(out)@ == old(out)@ + key@ + value@ + "\n"@,
{
    out.append(key);
    out.append(value);
    out.append("\n");
}

fn append_header(out: &mut String, report: &AnalyzeReport)
    ensures
        final(out)@ == old(out)@ + header_text(*report),
{
    let ghost before = out@;
    push_line(out, "rpc_url: ", report.rpc_url.as_str());
    push_line(out, "address: ", report.address.as_str());
    if report.is_eip1167_proxy {
        out.append("eip1167_proxy: true\n");
        match &report.implementation_address {
            Some(i) => push_line(out, "implementation_address: ", i.as_str()),
            None => {},
        }
    } else {
        out.append("eip1167_proxy: false\n");
    }
    assert(out@ =~= before + header_text(*report));
}

fn append_candidates(out: &mut String, c: &Vec<ProtocolCandidate>)
    ensures
        final(out)@ == old(out)@ + candidate_lines(c@),
{
    let ghost start = out@;
    let mut i: usize = 0;
    assert(c@.take(0) =~= Seq::<ProtocolCandidate>::empty());
    while i < c.len()
        invariant
            i <= c@.len(),
            out@ == start + candidate_lines(c@.take(i as int)),
        decreases c@.len() - i,
    {
        out.append("  - ");
        out.append(c[i].protocol.as_str());
        out.append(" (confidence ");
        out.append(usize_to_decimal(c[i].confidence as usize).as_str());
        out.append(")\n");
        assert(c@.take(i + 1).drop_last() =~= c@.take(i as int));
        assert(out@ =~= start + candidate_lines(c@.take(i + 1)));
        i = i + 1;
    }
    assert(c@.take(i as int) =~= c@);
}

fn append_protocol(out: &mut String, a: &BytecodeAnalysis)
    ensures
        final(out)@ == old(out)@ + protocol_text(*a),
{
    let ghost before = out@;
    push_line(out, "analysis_address: ", a.address.as_str());
    push_line(out, "code_size: ", usize_to_decimal(a.code_size).as_str());
    push_line(out, "protocol: ", a.protocol.as_str());
    push_line(out, "is_pool_likely: ", if a.is_pool_likely { "true" } else { "false" });
    match &a.protocol_candidates {
        Some(c) => {
            if a.protocol == String::from_str("Unknown") && c.len() > 0 {
                out.append("protocol_candidates:\n");
                append_candidates(out, c);
            }
        },
        None => {},
    }
    assert(out@ =~= before + protocol_text(*a));
}

fn append_fingerprint(out: &mut String, a: &BytecodeAnalysis)
    ensures
        final(out)@ == old(out)@ + fingerprint_text(*a),
{
    let ghost before = out@;
    match &a.fingerprint {
        Some(f) => {
            push_line(out, "fingerprint_hash: ", f.hash_hex.as_str());
            push_line(
                out,
                "fingerprint_original_size: ",
                usize_to_decimal(f.original_size).as_str(),
            );
            push_line(
                out,
                "fingerprint_normalized_size: ",
                usize_to_decimal(f.normalized_size).as_str(),
            );
        },
        None => match &a.fingerprint_error {
            Some(e) => push_line(out, "fingerprint_error: ", e.as_str()),
            None => {},
        },
    }
    assert(out@ =~= before + fingerprint_text(*a));
}

fn append_proxy(out: &mut String, report: &AnalyzeReport)
    ensures
        final(out)@ == old(out)@ + proxy_text(*report),
{
    let ghost before = out@;
    match &report.proxy_analysis {
        Some(p) => {
            out.append("\nproxy_bytecode_analysis:\n");
            push_line(out, "  address: ", p.address.as_str());
            push_line(out, "  code_size: ", usize_to_decimal(p.code_size).as_str());
            push_line(out, "  protocol: ", p.protocol.as_str());
        },
        None => {},
    }
    assert(out@ =~= before + proxy_text(*report));
}

/// The human-readable text of a report: one `key: value` line per field.
pub fn human_text(report: &AnalyzeReport) -> (r: String)
    ensures
        r@ == human_text_of(*report),
{
    let mut out = String::new();
    append_header(&mut out, report);
    out.append("\n");
    append_protocol(&mut out, &report.analysis);
    append_fingerprint(&mut out, &report.analysis);
    append_proxy(&mut out, report);
    assert(out@ =~= human_text_of(*report));
    out
}
} // verus!
