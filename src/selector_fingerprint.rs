//! Interface fingerprinting using function selectors.
//!
//! A protocol is recognised by which 4-byte function selectors occur in its
//! bytecode: each known protocol has a template of selectors that must occur,
//! selectors that must not, and selectors that add confidence.

use vstd::prelude::*;

pub mod selectors;

use crate::text::{encode_hex, hex_of};

use selectors::{
    claim_fees, claim_fees_bytes, community_vault, community_vault_bytes,
    current_cumulative_prices, current_cumulative_prices_bytes, data_storage_operator,
    data_storage_operator_bytes, factory, factory_bytes, fee, fee_bytes, get_fee, get_fee_bytes,
    get_inner_cumulatives, get_inner_cumulatives_bytes, get_reserves, get_reserves_bytes,
    global_state, global_state_bytes, k_last, k_last_bytes, liquidity, liquidity_bytes, plugin,
    plugin_bytes, positions, positions_bytes, price0_cumulative_last,
    price0_cumulative_last_bytes, price1_cumulative_last, price1_cumulative_last_bytes, slot0,
    slot0_bytes, stable, stable_bytes, tick_spacing, tick_spacing_bytes, ticks, ticks_bytes,
    token0, token0_bytes, token1, token1_bytes,
};

verus! {

/// A 4-byte function selector, the dispatch key of a contract function.
#[derive(Debug, Clone, Copy, PartialEq, Eq, Hash)]
pub struct Selector(pub [u8; 4]);

impl View for Selector {
    type V = Seq<u8>;

    open spec fn view(&self) -> Seq<u8> {
        self.0@
    }
}

/// `s` occurs in `code` starting at byte `i`.
pub open spec fn occurs_at(code: Seq<u8>, s: Seq<u8>, i: int) -> bool {
    &&& 0 <= i
    &&& i + s.len() <= code.len()
    &&& code.subrange(i, i + s.len()) == s
}

/// `s` occurs anywhere in `code` as a contiguous run of bytes.
pub open spec fn occurs_in(code: Seq<u8>, s: Seq<u8>) -> bool {
    exists|i: int| #[trigger] occurs_at(code, s, i)
}

/// The Keccak-256 digest of the UTF-8 encoding of `s`.
pub uninterp spec fn keccak256_of(s: Seq<char>) -> Seq<u8>;

/// Relies on alloy's `keccak256`: the 32-byte Keccak-256 digest of the
/// string's UTF-8 bytes, which depends on those bytes alone.
#[verifier::external_body]
fn keccak256_str(s: &str) -> (r: [u8; 32])
    ensures
        r@ == keccak256_of(s@),
{
    alloy::primitives::keccak256(s.as_bytes()).0
}

/// The selector of a canonical function signature: the first four bytes of
/// its Keccak-256 digest.
pub open spec fn selector_of(signature: Seq<char>) -> Seq<u8> {
    keccak256_of(signature).subrange(0, 4)
}

impl Selector {
    /// The selector of a canonical function signature such as `"token0()"`.
    pub fn from_signature(sig: &str) -> (r: Selector)
        ensures
            r@ == selector_of(sig@),
    {
        let h = keccak256_str(sig);
        let r = Selector([h[0], h[1], h[2], h[3]]);
        assert(r@ =~= selector_of(sig@));
        r
    }

    /// Wraps four raw bytes.
    pub fn from_bytes(bytes: [u8; 4]) -> (r: Selector)
        ensures
            r@ == bytes@,
    {
        Selector(bytes)
    }

    /// The selector as text: `0x` and eight lower-case hexadecimal digits.
    pub fn to_string(&self) -> (r: String)
        ensures
            r@ == "0x"@ + hex_of(self@),
    {
        let mut s = String::from_str("0x");
        s.append(encode_hex(self.0.as_slice()).as_str());
        s
    }

    /// The selector's bytes.
    pub fn as_bytes(&self) -> (r: &[u8; 4])
        ensures
            r@ == self@,
    {
        &self.0
    }

    /// Whether the selector occurs anywhere in `bytecode`.
    pub fn exists_in(&self, bytecode: &[u8]) -> (r: bool)
        ensures
            r == occurs_in(bytecode@, self@),
    {
        let n = bytecode.len();
        if n < 4 {
            assert forall|i: int| !#[trigger] occurs_at(bytecode@, self@, i) by {}
            return false;
        }
        let mut i: usize = 0;
        while i <= n - 4
            invariant
                n == bytecode@.len(),
                n >= 4,
                i <= n - 3,
                self@.len() == 4,
                forall|j: int| 0 <= j < i ==> !#[trigger] occurs_at(bytecode@, self@, j),
            decreases n - i,
        {
            if bytecode[i] == self.0[0] && bytecode[i + 1] == self.0[1] && bytecode[i + 2]
                == self.0[2] && bytecode[i + 3] == self.0[3] {
                assert(bytecode@.subrange(i as int, i + 4) =~= self@);
                assert(occurs_at(bytecode@, self@, i as int));
                return true;
            }
            proof {
                if bytecode@.subrange(i as int, i + 4) == self@ {
                    assert(bytecode@.subrange(i as int, i + 4)[0] == self@[0]);
                    assert(bytecode@.subrange(i as int, i + 4)[1] == self@[1]);
                    assert(bytecode@.subrange(i as int, i + 4)[2] == self@[2]);
                    assert(bytecode@.subrange(i as int, i + 4)[3] == self@[3]);
                }
            }
            i = i + 1;
        }
        false
    }
}


/// DEX protocol type identified by interface.
#[derive(Debug, Clone, Copy, PartialEq, Eq, Structural, Hash)]
pub enum DexProtocol {
    /// Uniswap V2 or a compatible fork
    UniswapV2,
    /// Uniswap V3
    UniswapV3,
    /// Solidly / Velodrome / Aerodrome
    Solidly,
    /// Algebra legacy CLAMM, before plugins (early v1.x)
    AlgebraLegacyV1,
    /// Algebra legacy CLAMM with `plugin()` (v1.9 and later)
    AlgebraLegacyV1_9Plus,
    /// Algebra Integral (plugin and `getFee()`)
    AlgebraIntegral,
    /// No known protocol
    Unknown,
}

impl DexProtocol {
    /// Whether this is a V2-style constant product AMM.
    pub fn is_v2_style(&self) -> (r: bool)
        ensures
            r == (*self == DexProtocol::UniswapV2 || *self == DexProtocol::Solidly),
    {
        matches!(self, DexProtocol::UniswapV2 | DexProtocol::Solidly)
    }

    /// Whether this is a V3-style concentrated liquidity AMM.
    pub fn is_v3_style(&self) -> (r: bool)
        ensures
            r == (*self == DexProtocol::UniswapV3 || *self == DexProtocol::AlgebraLegacyV1
                || *self == DexProtocol::AlgebraLegacyV1_9Plus || *self
                == DexProtocol::AlgebraIntegral),
    {
        matches!(
            self,
            DexProtocol::UniswapV3 | DexProtocol::AlgebraLegacyV1 | DexProtocol::AlgebraLegacyV1_9Plus
                | DexProtocol::AlgebraIntegral
        )
    }
}

/// The protocols that have a template, in table order (most specific first).
pub open spec fn template_order() -> Seq<DexProtocol> {
    seq![
        DexProtocol::AlgebraIntegral,
        DexProtocol::AlgebraLegacyV1_9Plus,
        DexProtocol::AlgebraLegacyV1,
        DexProtocol::UniswapV3,
        DexProtocol::Solidly,
        DexProtocol::UniswapV2,
    ]
}

/// Selectors that must all occur for protocol `p`.
pub open spec fn required_of(p: DexProtocol) -> Seq<Seq<u8>> {
    match p {
        DexProtocol::AlgebraIntegral => seq![
            token0_bytes(),
            token1_bytes(),
            global_state_bytes(),
            tick_spacing_bytes(),
            liquidity_bytes(),
            plugin_bytes(),
            get_fee_bytes(),
        ],
        DexProtocol::AlgebraLegacyV1_9Plus => seq![
            token0_bytes(),
            token1_bytes(),
            global_state_bytes(),
            tick_spacing_bytes(),
            liquidity_bytes(),
            plugin_bytes(),
        ],
        DexProtocol::AlgebraLegacyV1 => seq![
            token0_bytes(),
            token1_bytes(),
            global_state_bytes(),
            tick_spacing_bytes(),
            liquidity_bytes(),
            data_storage_operator_bytes(),
        ],
        DexProtocol::UniswapV3 => seq![
            token0_bytes(),
            token1_bytes(),
            slot0_bytes(),
            fee_bytes(),
            tick_spacing_bytes(),
            liquidity_bytes(),
        ],
        DexProtocol::Solidly => seq![
            token0_bytes(),
            token1_bytes(),
            get_reserves_bytes(),
            stable_bytes(),
        ],
        DexProtocol::UniswapV2 => seq![
            token0_bytes(),
            token1_bytes(),
            get_reserves_bytes(),
            k_last_bytes(),
        ],
        DexProtocol::Unknown => seq![],
    }
}

/// Selectors none of which may occur for protocol `p`.
pub open spec fn forbidden_of(p: DexProtocol) -> Seq<Seq<u8>> {
    match p {
        DexProtocol::AlgebraIntegral => seq![slot0_bytes(), data_storage_operator_bytes()],
        DexProtocol::AlgebraLegacyV1_9Plus => seq![slot0_bytes(), get_fee_bytes()],
        DexProtocol::AlgebraLegacyV1 => seq![slot0_bytes(), plugin_bytes()],
        DexProtocol::UniswapV3 => seq![global_state_bytes(), stable_bytes()],
        DexProtocol::Solidly => seq![slot0_bytes(), k_last_bytes()],
        DexProtocol::UniswapV2 => seq![slot0_bytes(), stable_bytes(), global_state_bytes()],
        DexProtocol::Unknown => seq![],
    }
}

/// Selectors that add confidence when they occur for protocol `p`.
pub open spec fn optional_of(p: DexProtocol) -> Seq<Seq<u8>> {
    match p {
        DexProtocol::AlgebraIntegral => seq![community_vault_bytes()],
        DexProtocol::AlgebraLegacyV1_9Plus => seq![data_storage_operator_bytes()],
        DexProtocol::AlgebraLegacyV1 => seq![get_inner_cumulatives_bytes()],
        DexProtocol::UniswapV3 => seq![ticks_bytes(), positions_bytes()],
        DexProtocol::Solidly => seq![claim_fees_bytes(), current_cumulative_prices_bytes()],
        DexProtocol::UniswapV2 => seq![
            price0_cumulative_last_bytes(),
            price1_cumulative_last_bytes(),
            factory_bytes(),
        ],
        DexProtocol::Unknown => seq![],
    }
}

/// Every selector of `sels` occurs in `code`.
pub open spec fn all_occur(sels: Seq<Seq<u8>>, code: Seq<u8>) -> bool {
    forall|k: int| 0 <= k < sels.len() ==> occurs_in(code, #[trigger] sels[k])
}

/// No selector of `sels` occurs in `code`.
pub open spec fn none_occur(sels: Seq<Seq<u8>>, code: Seq<u8>) -> bool {
    forall|k: int| 0 <= k < sels.len() ==> !occurs_in(code, #[trigger] sels[k])
}

/// How many selectors of `sels` occur in `code`.
pub open spec fn count_occurring(sels: Seq<Seq<u8>>, code: Seq<u8>) -> nat
    decreases sels.len(),
{
    if sels.len() == 0 {
        0
    } else {
        count_occurring(sels.drop_last(), code) + if occurs_in(code, sels.last()) {
            1nat
        } else {
            0nat
        }
    }
}

/// A template with these selector lists matches `code`: all `required`
/// selectors occur and no `forbidden` one does.
pub open spec fn lists_match(required: Seq<Seq<u8>>, forbidden: Seq<Seq<u8>>, code: Seq<u8>) -> bool {
    all_occur(required, code) && none_occur(forbidden, code)
}

/// Confidence of a template with these selector lists on `code`: zero unless
/// it matches, else the number of required selectors plus the number of
/// optional ones that occur.
pub open spec fn lists_confidence(
    required: Seq<Seq<u8>>,
    forbidden: Seq<Seq<u8>>,
    optional: Seq<Seq<u8>>,
    code: Seq<u8>,
) -> nat {
    if lists_match(required, forbidden, code) {
        required.len() + count_occurring(optional, code)
    } else {
        0
    }
}

/// The template of `p` matches `code`.
pub open spec fn template_matches(p: DexProtocol, code: Seq<u8>) -> bool {
    lists_match(required_of(p), forbidden_of(p), code)
}

/// Confidence of the template of `p` on `code`.
pub open spec fn confidence_of(p: DexProtocol, code: Seq<u8>) -> nat {
    lists_confidence(required_of(p), forbidden_of(p), optional_of(p), code)
}

/// The views of a sequence of selectors.
pub open spec fn views(sels: Seq<Selector>) -> Seq<Seq<u8>> {
    sels.map_values(|s: Selector| s@)
}

/// One entry of the protocol table.
pub struct ProtocolFingerprint {
    pub protocol: DexProtocol,
    /// Selectors that must be present
    pub required: Vec<Selector>,
    /// Selectors that must not be present
    pub forbidden: Vec<Selector>,
    /// Selectors that add confidence if present
    pub optional: Vec<Selector>,
}

impl ProtocolFingerprint {
    /// The entry holds exactly the template of its protocol.
    pub open spec fn wf(&self) -> bool {
        &&& views(self.required@) == required_of(self.protocol)
        &&& views(self.forbidden@) == forbidden_of(self.protocol)
        &&& views(self.optional@) == optional_of(self.protocol)
    }

    /// The table entry of protocol `p`.
    pub fn of(p: DexProtocol) -> (r: ProtocolFingerprint)
        ensures
            r.protocol == p,
            r.wf(),
            r.required@.len() + r.optional@.len() <= 10,
    {
        let (required, forbidden, optional) = match p {
            DexProtocol::AlgebraIntegral => (
                vec![token0(), token1(), global_state(), tick_spacing(), liquidity(), plugin(), get_fee()],
                vec![slot0(), data_storage_operator()],
                vec![community_vault()],
            ),
            DexProtocol::AlgebraLegacyV1_9Plus => (
                vec![token0(), token1(), global_state(), tick_spacing(), liquidity(), plugin()],
                vec![slot0(), get_fee()],
                vec![data_storage_operator()],
            ),
            DexProtocol::AlgebraLegacyV1 => (
                vec![
                    token0(),
                    token1(),
                    global_state(),
                    tick_spacing(),
                    liquidity(),
                    data_storage_operator(),
                ],
                vec![slot0(), plugin()],
                vec![get_inner_cumulatives()],
            ),
            DexProtocol::UniswapV3 => (
                vec![token0(), token1(), slot0(), fee(), tick_spacing(), liquidity()],
                vec![global_state(), stable()],
                vec![ticks(), positions()],
            ),
            DexProtocol::Solidly => (
                vec![token0(), token1(), get_reserves(), stable()],
                vec![slot0(), k_last()],
                vec![claim_fees(), current_cumulative_prices()],
            ),
            DexProtocol::UniswapV2 => (
                vec![token0(), token1(), get_reserves(), k_last()],
                vec![slot0(), stable(), global_state()],
                vec![price0_cumulative_last(), price1_cumulative_last(), factory()],
            ),
            DexProtocol::Unknown => (Vec::new(), Vec::new(), Vec::new()),
        };
        assert(views(required@) =~= required_of(p));
        assert(views(forbidden@) =~= forbidden_of(p));
        assert(views(optional@) =~= optional_of(p));
        ProtocolFingerprint { protocol: p, required, forbidden, optional }
    }

    /// Whether the entry's template matches `bytecode`.
    pub fn matches(&self, bytecode: &[u8]) -> (r: bool)
        ensures
            r == lists_match(views(self.required@), views(self.forbidden@), bytecode@),
    {
        let ghost req = views(self.required@);
        let ghost forb = views(self.forbidden@);
        let mut k: usize = 0;
        while k < self.required.len()
            invariant
                req == views(self.required@),
                k <= self.required@.len(),
                forall|j: int| 0 <= j < k ==> occurs_in(bytecode@, #[trigger] req[j]),
            decreases self.required@.len() - k,
        {
            assert(req[k as int] == self.required@[k as int]@);
            if !self.required[k].exists_in(bytecode) {
                return false;
            }
            k = k + 1;
        }
        let mut k: usize = 0;
        while k < self.forbidden.len()
            invariant
                req == views(self.required@),
                forb == views(self.forbidden@),
                all_occur(req, bytecode@),
                k <= self.forbidden@.len(),
                forall|j: int| 0 <= j < k ==> !occurs_in(bytecode@, #[trigger] forb[j]),
            decreases self.forbidden@.len() - k,
        {
            assert(forb[k as int] == self.forbidden@[k as int]@);
            if self.forbidden[k].exists_in(bytecode) {
                return false;
            }
            k = k + 1;
        }
        true
    }

    /// Confidence of the entry's template on `bytecode` (zero when it does
    /// not match).
    pub fn confidence(&self, bytecode: &[u8]) -> (r: u32)
        requires
            self.required@.len() + self.optional@.len() <= u32::MAX,
        ensures
            r == lists_confidence(
                views(self.required@),
                views(self.forbidden@),
                views(self.optional@),
                bytecode@,
            ),
    {
        if !self.matches(bytecode) {
            return 0;
        }
        let ghost opt = views(self.optional@);
        let mut count: u32 = 0;
        let mut k: usize = 0;
        while k < self.optional.len()
            invariant
                opt == views(self.optional@),
                self.required@.len() + self.optional@.len() <= u32::MAX,
                k <= self.optional@.len(),
                count == count_occurring(opt.take(k as int), bytecode@),
                count <= k,
            decreases self.optional@.len() - k,
        {
            assert(opt.take(k + 1).drop_last() =~= opt.take(k as int));
            assert(opt[k as int] == self.optional@[k as int]@);
            if self.optional[k].exists_in(bytecode) {
                count = count + 1;
            }
            k = k + 1;
        }
        assert(opt.take(k as int) =~= opt);
        self.required.len() as u32 + count
    }
}

/// The protocol table, in table order.
pub fn fingerprints() -> (r: Vec<ProtocolFingerprint>)
    ensures
        r@.len() == template_order().len(),
        forall|i: int| 0 <= i < r@.len() ==> (#[trigger] r@[i]).wf() && r@[i].protocol == template_order()[i]
                && r@[i].required@.len() + r@[i].optional@.len() <= 10,
{
    vec![
        ProtocolFingerprint::of(DexProtocol::AlgebraIntegral),
        ProtocolFingerprint::of(DexProtocol::AlgebraLegacyV1_9Plus),
        ProtocolFingerprint::of(DexProtocol::AlgebraLegacyV1),
        ProtocolFingerprint::of(DexProtocol::UniswapV3),
        ProtocolFingerprint::of(DexProtocol::Solidly),
        ProtocolFingerprint::of(DexProtocol::UniswapV2),
    ]
}

/// The best template among the first `n` of the table: the one of highest
/// confidence, the earliest on ties, and `Unknown` with confidence zero when
/// none matches.
pub open spec fn best_upto(code: Seq<u8>, n: int) -> (DexProtocol, nat)
    decreases n,
{
    if n <= 0 {
        (DexProtocol::Unknown, 0)
    } else {
        let prev = best_upto(code, n - 1);
        let p = template_order()[n - 1];
        if confidence_of(p, code) > prev.1 {
            (p, confidence_of(p, code))
        } else {
            prev
        }
    }
}

/// The templates among the first `n` of the table that match `code`, in table
/// order, each with its confidence.
pub open spec fn matching_upto(code: Seq<u8>, n: int) -> Seq<(DexProtocol, u32)>
    decreases n,
{
    if n <= 0 {
        seq![]
    } else {
        let p = template_order()[n - 1];
        let c = confidence_of(p, code);
        if c > 0 {
            matching_upto(code, n - 1).push((p, c as u32))
        } else {
            matching_upto(code, n - 1)
        }
    }
}

/// The templates that match `code`, in table order, with their confidence.
pub open spec fn matching_templates(code: Seq<u8>) -> Seq<(DexProtocol, u32)> {
    matching_upto(code, template_order().len() as int)
}

/// Identifies the protocol of `bytecode`: the template of highest confidence,
/// the earliest in table order on ties, or `Unknown` when none matches.
pub fn identify_protocol(bytecode: &[u8]) -> (r: DexProtocol)
    ensures
        r == best_upto(bytecode@, template_order().len() as int).0,
{
    let table = fingerprints();
    let mut best = DexProtocol::Unknown;
    let mut best_confidence: u32 = 0;
    let mut i: usize = 0;
    while i < table.len()
        invariant
            table@.len() == template_order().len(),
            forall|j: int| 0 <= j < table@.len() ==> (#[trigger] table@[j]).wf() && table@[j].protocol == template_order()[j]
                    && table@[j].required@.len() + table@[j].optional@.len() <= 10,
            i <= table@.len(),
            (best, best_confidence as nat) == best_upto(bytecode@, i as int),
        decreases table@.len() - i,
    {
        let confidence = table[i].confidence(bytecode);
        if confidence > best_confidence {
            best_confidence = confidence;
            best = table[i].protocol;
        }
        i = i + 1;
    }
    best
}

/// All templates that match `bytecode`, in table order, with their confidence.
pub fn identify_protocols(bytecode: &[u8]) -> (r: Vec<(DexProtocol, u32)>)
    ensures
        r@ == matching_templates(bytecode@),
{
    let table = fingerprints();
    let mut out: Vec<(DexProtocol, u32)> = Vec::new();
    let mut i: usize = 0;
    while i < table.len()
        invariant
            table@.len() == template_order().len(),
            forall|j: int| 0 <= j < table@.len() ==> (#[trigger] table@[j]).wf() && table@[j].protocol == template_order()[j]
                    && table@[j].required@.len() + table@[j].optional@.len() <= 10,
            i <= table@.len(),
            out@ == matching_upto(bytecode@, i as int),
        decreases table@.len() - i,
    {
        let confidence = table[i].confidence(bytecode);
        if confidence > 0 {
            out.push((table[i].protocol, confidence));
        }
        i = i + 1;
    }
    out
}


/// `a` orders strictly before `b`, comparing 4-byte selectors byte by byte.
pub open spec fn sel_lt(a: Seq<u8>, b: Seq<u8>) -> bool {
    ||| a[0] < b[0]
    ||| a[0] == b[0] && a[1] < b[1]
    ||| a[0] == b[0] && a[1] == b[1] && a[2] < b[2]
    ||| a[0] == b[0] && a[1] == b[1] && a[2] == b[2] && a[3] < b[3]
}

/// The selectors are in strictly increasing byte order (so pairwise distinct).
pub open spec fn strictly_sorted(s: Seq<Seq<u8>>) -> bool {
    forall|i: int, j: int| 0 <= i < j < s.len() ==> sel_lt(#[trigger] s[i], #[trigger] s[j])
}

/// The 4-byte operands of the `PUSH4` instructions of `code`, decoding
/// instructions from byte `i` on and skipping the operands of other pushes.
pub open spec fn push4_operands_from(code: Seq<u8>, i: int) -> Seq<Seq<u8>>
    decreases code.len() - i,
{
    if i < 0 || i >= code.len() {
        seq![]
    } else if code[i] == 0x63 && i + 4 < code.len() {
        seq![code.subrange(i + 1, i + 5)] + push4_operands_from(code, i + 5)
    } else if 0x60 <= code[i] <= 0x7f {
        let next = i + (code[i] as int) - 0x5f + 1;
        if next < code.len() {
            push4_operands_from(code, next)
        } else {
            seq![]
        }
    } else {
        push4_operands_from(code, i + 1)
    }
}

/// Adds `s` to the strictly sorted `v`, unless it is already there.
fn insert_sorted(v: &mut Vec<Selector>, s: Selector)
    requires
        strictly_sorted(views(old(v)@)),
    ensures
        strictly_sorted(views(final(v)@)),
        forall|x: Seq<u8>|
            #[trigger] views(final(v)@).contains(x) <==> (views(old(v)@).contains(x) || x == s@),
{
    let ghost old_views = views(v@);
    let mut j: usize = 0;
    while j < v.len() && sel_less(&v[j], &s)
        invariant
            views(v@) == old_views,
            strictly_sorted(old_views),
            j <= v@.len(),
            forall|k: int| 0 <= k < j ==> sel_lt(#[trigger] old_views[k], s@),
        decreases v@.len() - j,
    {
        j = j + 1;
    }
    if j < v.len() && v[j].0[0] == s.0[0] && v[j].0[1] == s.0[1] && v[j].0[2] == s.0[2] && v[j].0[3]
        == s.0[3] {
        assert(old_views[j as int] =~= s@);
        assert(old_views[j as int] == s@);
        assert forall|x: Seq<u8>| #[trigger] views(v@).contains(x) <==> (old_views.contains(x) || x == s@) by {
            if x == s@ {
                assert(old_views[j as int] == x);
            }
        }
        return;
    }
    proof {
        if j < v@.len() {
            assert(!sel_lt(old_views[j as int], s@));
            assert(old_views[j as int] != s@) by {
                if old_views[j as int] == s@ {
                    assert(old_views[j as int][0] == s@[0]);
                    assert(old_views[j as int][1] == s@[1]);
                    assert(old_views[j as int][2] == s@[2]);
                    assert(old_views[j as int][3] == s@[3]);
                }
            }
        }
    }
    v.insert(j, s);
    let ghost nv = views(v@);
    assert(nv =~= old_views.insert(j as int, s@));
    assert forall|a: int, b: int| 0 <= a < b < nv.len() implies sel_lt(#[trigger] nv[a], #[trigger] nv[b]) by {
        if b < j {
        } else if b == j {
        } else if a < j {
            assert(sel_lt(old_views[a], old_views[b - 1]));
        } else if a == j {
            if b - 1 > j {
                assert(sel_lt(old_views[j as int], old_views[b - 1]));
            }
        } else {
            assert(sel_lt(old_views[a - 1], old_views[b - 1]));
        }
    }
    assert forall|x: Seq<u8>| #[trigger] nv.contains(x) <==> (old_views.contains(x) || x == s@) by {
        if nv.contains(x) {
            let k = choose|k: int| 0 <= k < nv.len() && nv[k] == x;
            if k < j {
                assert(old_views[k] == x);
            } else if k > j {
                assert(old_views[k - 1] == x);
            }
        }
        if old_views.contains(x) {
            let k = choose|k: int| 0 <= k < old_views.len() && old_views[k] == x;
            if k < j {
                assert(nv[k] == x);
            } else {
                assert(nv[k + 1] == x);
            }
        }
        if x == s@ {
            assert(nv[j as int] == x);
        }
    }
}

/// Whether `a` orders strictly before `b`.
fn sel_less(a: &Selector, b: &Selector) -> (r: bool)
    ensures
        r == sel_lt(a@, b@),
{
    let (x, y) = (a.0, b.0);
    x[0] < y[0] || (x[0] == y[0] && x[1] < y[1]) || (x[0] == y[0] && x[1] == y[1] && x[2] < y[2]) || (
    x[0] == y[0] && x[1] == y[1] && x[2] == y[2] && x[3] < y[3])
}

/// The distinct operands of the `PUSH4` instructions of `bytecode` (likely
/// selectors of its dispatcher), in increasing byte order.
pub fn extract_selectors(bytecode: &[u8]) -> (r: Vec<Selector>)
    ensures
        strictly_sorted(views(r@)),
        forall|x: Seq<u8>|
            #[trigger] views(r@).contains(x) <==> push4_operands_from(bytecode@, 0).contains(x),
{
    let ghost code = bytecode@;
    let n = bytecode.len();
    let mut out: Vec<Selector> = Vec::new();
    let mut i: usize = 0;
    while i < n
        invariant
            n == code.len(),
            code == bytecode@,
            strictly_sorted(views(out@)),
            forall|x: Seq<u8>|
                #[trigger] push4_operands_from(code, 0).contains(x) <==> (views(out@).contains(x)
                    || push4_operands_from(code, i as int).contains(x)),
        decreases n - i,
    {
        let op = bytecode[i];
        let ghost rest = push4_operands_from(code, i as int);
        if op == 0x63 && 4 < n - i {
            let s = Selector([bytecode[i + 1], bytecode[i + 2], bytecode[i + 3], bytecode[i + 4]]);
            assert(s@ =~= code.subrange(i + 1, i + 5));
            let ghost before = views(out@);
            insert_sorted(&mut out, s);
            let ghost next = push4_operands_from(code, i + 5);
            assert(rest == seq![s@] + next);
            assert forall|x: Seq<u8>| #[trigger] rest.contains(x) <==> (x == s@ || next.contains(x)) by {
                if rest.contains(x) {
                    let k = choose|k: int| 0 <= k < rest.len() && rest[k] == x;
                    if k > 0 {
                        assert(next[k - 1] == x);
                    }
                }
                if next.contains(x) {
                    let k = choose|k: int| 0 <= k < next.len() && next[k] == x;
                    assert(rest[k + 1] == x);
                }
                if x == s@ {
                    assert(rest[0] == x);
                }
            }
            i = i + 5;
        } else if 0x60 <= op && op <= 0x7f {
            let step = (op - 0x5f) as usize + 1;
            if step >= n - i {
                assert(push4_operands_from(code, i + step) =~= seq![]);
                i = n;
            } else {
                i = i + step;
            }
        } else {
            i = i + 1;
        }
    }
    out
}


/// Whether the selector of the function `signature` occurs in `bytecode`.
pub fn has_function(bytecode: &[u8], signature: &str) -> (r: bool)
    ensures
        r == occurs_in(bytecode@, selector_of(signature@)),
{
    Selector::from_signature(signature).exists_in(bytecode)
}

} // verus!
