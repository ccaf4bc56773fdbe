//! Bytecode fingerprinting with TLSH, a locality-sensitive hash.
//!
//! Bytecode is normalised first (compiler metadata stripped, push operands
//! zeroed), so that two deployments of the same contract with different
//! immutables get the same fingerprint.

use vstd::prelude::*;

use crate::text::{decimal_of, encode_hex, hex_of, usize_to_decimal};
use crate::selector_fingerprint::{occurs_at, occurs_in};
use tlsh2::{TlshDefault, TlshDefaultBuilder};

verus! {

/// Similarity classification of a TLSH distance.
#[derive(Debug, Clone, Copy, PartialEq, Eq, Structural)]
pub enum Similarity {
    /// Identical bytecode (distance 0)
    Identical,
    /// Same contract, different immutables (distance 1 to 30)
    SameContract,
    /// Same protocol family or fork (distance 31 to 100)
    SameFamily,
    /// Possibly related (distance 101 to 150)
    PossiblyRelated,
    /// Different protocols (distance above 150)
    Different,
}

/// The tier of distance `d`.
pub open spec fn tier_of(d: int) -> Similarity {
    if d == 0 {
        Similarity::Identical
    } else if 1 <= d <= 30 {
        Similarity::SameContract
    } else if 31 <= d <= 100 {
        Similarity::SameFamily
    } else if 101 <= d <= 150 {
        Similarity::PossiblyRelated
    } else {
        Similarity::Different
    }
}

/// The tiers split the non-negative distances into consecutive ranges, each
/// tier holding exactly one range: 0, 1 to 30, 31 to 100, 101 to 150, and
/// from 151 on.
pub proof fn lemma_tiers_partition(d: int)
    requires
        d >= 0,
    ensures
        tier_of(d) == Similarity::Identical <==> d == 0,
        tier_of(d) == Similarity::SameContract <==> 1 <= d <= 30,
        tier_of(d) == Similarity::SameFamily <==> 31 <= d <= 100,
        tier_of(d) == Similarity::PossiblyRelated <==> 101 <= d <= 150,
        tier_of(d) == Similarity::Different <==> d >= 151,
{
}

impl Similarity {
    /// The tier of a TLSH distance.
    pub fn from_diff(diff: i32) -> (r: Similarity)
        ensures
            r == tier_of(diff as int),
    {
        if diff == 0 {
            Similarity::Identical
        } else if 1 <= diff && diff <= 30 {
            Similarity::SameContract
        } else if 31 <= diff && diff <= 100 {
            Similarity::SameFamily
        } else if 101 <= diff && diff <= 150 {
            Similarity::PossiblyRelated
        } else {
            Similarity::Different
        }
    }

    /// Whether the tier means the same protocol family or closer.
    pub fn is_same_family(&self) -> (r: bool)
        ensures
            r == (*self == Similarity::Identical || *self == Similarity::SameContract || *self
                == Similarity::SameFamily),
    {
        matches!(self, Similarity::Identical | Similarity::SameContract | Similarity::SameFamily)
    }
}


/// Metadata marker of solc 0.6.0 and later.
pub open spec fn marker_new() -> Seq<u8> {
    seq![0xa2, 0x64]
}

/// Metadata marker of older solc versions.
pub open spec fn marker_old() -> Seq<u8> {
    seq![0xa1, 0x65]
}

/// The start of the rightmost occurrence of `m` that begins before byte `n`
/// of `code`, or -1 when there is none.
pub open spec fn rfind(code: Seq<u8>, m: Seq<u8>, n: int) -> int
    decreases n,
{
    if n <= 0 {
        -1
    } else if occurs_at(code, m, n - 1) {
        n - 1
    } else {
        rfind(code, m, n - 1)
    }
}

/// `code` with its trailing compiler metadata removed: cut before the
/// rightmost occurrence of either marker, or unchanged when neither occurs.
pub open spec fn strip_spec(code: Seq<u8>) -> Seq<u8> {
    let p = rfind(code, marker_new(), code.len() as int);
    let q = rfind(code, marker_old(), code.len() as int);
    if p < 0 && q < 0 {
        code
    } else if p >= q {
        code.take(p)
    } else {
        code.take(q)
    }
}

proof fn lemma_rfind(code: Seq<u8>, m: Seq<u8>, n: int)
    requires
        0 <= n,
    ensures
        rfind(code, m, n) < n,
        rfind(code, m, n) >= 0 ==> occurs_at(code, m, rfind(code, m, n)),
        forall|i: int| rfind(code, m, n) < i < n ==> !#[trigger] occurs_at(code, m, i),
    decreases n,
{
    if n > 0 {
        lemma_rfind(code, m, n - 1);
    }
}

/// The start of the rightmost occurrence of the two bytes `m0 m1`.
fn rposition2(bytecode: &[u8], m0: u8, m1: u8) -> (r: Option<usize>)
    ensures
        match r {
            Some(p) => p as int == rfind(bytecode@, seq![m0, m1], bytecode@.len() as int),
            None => rfind(bytecode@, seq![m0, m1], bytecode@.len() as int) == -1,
        },
{
    let ghost m = seq![m0, m1];
    assert(m.len() == 2 && m[0] == m0 && m[1] == m1);
    let n = bytecode.len();
    let mut j: usize = n;
    while j > 0
        invariant
            j <= n,
            n == bytecode@.len(),
            m.len() == 2 && m[0] == m0 && m[1] == m1,
            rfind(bytecode@, m, n as int) == rfind(bytecode@, m, j as int),
        decreases j,
    {
        let i = j - 1;
        if n - i >= 2 && bytecode[i] == m0 && bytecode[i + 1] == m1 {
            assert(bytecode@.subrange(i as int, i + 2) =~= m);
            assert(occurs_at(bytecode@, m, i as int));
            assert(rfind(bytecode@, m, j as int) == i as int);
            assert(rfind(bytecode@, m, n as int) == i as int);
            assert(m == seq![m0, m1]);
            return Some(i);
        }
        proof {
            if occurs_at(bytecode@, m, i as int) {
                assert(bytecode@.subrange(i as int, i + 2)[0] == m[0]);
                assert(bytecode@.subrange(i as int, i + 2)[1] == m[1]);
            }
        }
        j = i;
    }
    None
}

/// Strips trailing CBOR metadata (marked by `a2 64` or `a1 65`) from bytecode.
pub fn strip_metadata(bytecode: &[u8]) -> (r: &[u8])
    ensures
        r@ == strip_spec(bytecode@),
{
    assert(marker_new() =~= seq![0xa2u8, 0x64u8]);
    assert(marker_old() =~= seq![0xa1u8, 0x65u8]);
    proof {
        lemma_rfind(bytecode@, marker_new(), bytecode@.len() as int);
        lemma_rfind(bytecode@, marker_old(), bytecode@.len() as int);
    }
    let cut = match (rposition2(bytecode, 0xa2, 0x64), rposition2(bytecode, 0xa1, 0x65)) {
        (None, None) => bytecode.len(),
        (Some(p), None) => p,
        (None, Some(q)) => q,
        (Some(p), Some(q)) => if p >= q {
            p
        } else {
            q
        },
    };
    assert(cut == bytecode@.len() ==> bytecode@.take(cut as int) =~= bytecode@);
    &bytecode[0..cut]
}

/// Stripping leaves unchanged a buffer in which no metadata marker occurs;
/// so stripping twice equals stripping once whenever no marker is left after
/// the first strip.
pub proof fn lemma_strip_idempotent(code: Seq<u8>)
    requires
        !occurs_in(strip_spec(code), marker_new()),
        !occurs_in(strip_spec(code), marker_old()),
    ensures
        strip_spec(strip_spec(code)) == strip_spec(code),
{
    let s = strip_spec(code);
    lemma_rfind(s, marker_new(), s.len() as int);
    lemma_rfind(s, marker_old(), s.len() as int);
}

/// Number of operand bytes of opcode `op`: `n` for `PUSHn` (`0x60` to
/// `0x7f`), zero for every other opcode.
pub open spec fn push_size(op: u8) -> int {
    if 0x60 <= op <= 0x7f {
        op - 0x5f
    } else {
        0
    }
}

/// `k` zero bytes.
pub open spec fn zeros(k: int) -> Seq<u8> {
    Seq::new(k as nat, |j: int| 0u8)
}

/// `code` from instruction start `i` on, with every opcode kept and every
/// push operand byte replaced by zero; a push cut short by the end of the
/// buffer has only its remaining bytes zeroed.
pub open spec fn normalize_from(code: Seq<u8>, i: int) -> Seq<u8>
    decreases code.len() - i,
{
    if i < 0 || i >= code.len() {
        seq![]
    } else {
        let n = push_size(code[i]);
        let next = i + 1 + n;
        if next < code.len() {
            seq![code[i]] + zeros(n) + normalize_from(code, next)
        } else {
            seq![code[i]] + zeros(code.len() - i - 1)
        }
    }
}

/// `code` with every push operand byte zeroed.
pub open spec fn normalize_spec(code: Seq<u8>) -> Seq<u8> {
    normalize_from(code, 0)
}

proof fn lemma_normalize_len(code: Seq<u8>, i: int)
    requires
        0 <= i <= code.len(),
    ensures
        normalize_from(code, i).len() == code.len() - i,
    decreases code.len() - i,
{
    if i < code.len() {
        let next = i + 1 + push_size(code[i]);
        if next < code.len() {
            lemma_normalize_len(code, next);
        }
    }
}

/// Normalisation keeps the length of the buffer.
pub proof fn lemma_normalize_keeps_length(code: Seq<u8>)
    ensures
        normalize_spec(code).len() == code.len(),
{
    lemma_normalize_len(code, 0);
}

/// Normalises bytecode by zeroing the operands of `PUSH1` to `PUSH32`, which
/// hold immutables, addresses and other constants.
pub fn normalize_push_data(bytecode: &[u8]) -> (r: Vec<u8>)
    ensures
        r@ == normalize_spec(bytecode@),
{
    let ghost code = bytecode@;
    let n = bytecode.len();
    let mut result: Vec<u8> = Vec::with_capacity(n);
    let mut i: usize = 0;
    while i < n
        invariant
            n == code.len(),
            code == bytecode@,
            i <= n,
            result@ + normalize_from(code, i as int) == normalize_from(code, 0),
        decreases n - i,
    {
        let op = bytecode[i];
        let ghost before = result@;
        let ghost tail = normalize_from(code, i as int);
        result.push(op);
        i = i + 1;
        if 0x60 <= op && op <= 0x7f {
            let push_size = (op - 0x5f) as usize;
            let zeros_to_add = if push_size < n - i {
                push_size
            } else {
                n - i
            };
            let mut k: usize = 0;
            while k < zeros_to_add
                invariant
                    k <= zeros_to_add,
                    result@ == before + seq![op] + zeros(k as int),
                decreases zeros_to_add - k,
            {
                result.push(0);
                assert(zeros(k + 1) =~= zeros(k as int).push(0u8));
                k = k + 1;
            }
            i = i + zeros_to_add;
            if zeros_to_add == push_size && i < n {
                assert(tail == seq![op] + zeros(push_size as int) + normalize_from(code, i as int));
                assert(result@ + normalize_from(code, i as int) =~= before + tail);
            } else {
                assert(tail == seq![op] + zeros(zeros_to_add as int));
                assert(result@ + normalize_from(code, i as int) =~= before + tail);
            }
        } else {
            assert(zeros(0) =~= seq![]);
            if i < n {
                assert(tail == seq![op] + zeros(0) + normalize_from(code, i as int));
            } else {
                assert(tail == seq![op] + zeros(0));
            }
            assert(result@ + normalize_from(code, i as int) =~= before + tail);
        }
    }
    assert(result@ + normalize_from(code, i as int) =~= result@);
    result
}


proof fn lemma_normalize_fixed(b: Seq<u8>, c: Seq<u8>, i: int)
    requires
        c.len() == b.len(),
        0 <= i <= b.len(),
        c.subrange(i, c.len() as int) == normalize_from(b, i),
    ensures
        normalize_from(c, i) == normalize_from(b, i),
    decreases b.len() - i,
{
    if i < b.len() {
        let t = normalize_from(b, i);
        assert(c[i] == c.subrange(i, c.len() as int)[0]);
        let n = push_size(b[i]);
        let next = i + 1 + n;
        if next < b.len() {
            lemma_normalize_len(b, next);
            assert(t == seq![b[i]] + zeros(n) + normalize_from(b, next));
            assert(c.subrange(next, c.len() as int) =~= t.subrange(1 + n, t.len() as int));
            assert(t.subrange(1 + n, t.len() as int) =~= normalize_from(b, next));
            lemma_normalize_fixed(b, c, next);
        }
    }
}

/// Normalising an already normalised buffer changes nothing.
pub proof fn lemma_normalize_idempotent(code: Seq<u8>)
    ensures
        normalize_spec(normalize_spec(code)) == normalize_spec(code),
{
    let c = normalize_spec(code);
    lemma_normalize_len(code, 0);
    assert(c.subrange(0, c.len() as int) =~= c);
    lemma_normalize_fixed(code, c, 0);
}

/// `a` and `b`, decoded as instructions from byte `i` on, have the same
/// opcodes at the same places and may differ only in push operand bytes.
pub open spec fn same_but_operands_from(a: Seq<u8>, b: Seq<u8>, i: int) -> bool
    decreases a.len() - i,
{
    if i < 0 || i >= a.len() {
        true
    } else {
        let next = i + 1 + push_size(a[i]);
        &&& a[i] == b[i]
        &&& next < a.len() ==> same_but_operands_from(a, b, next)
    }
}

/// `a` and `b` have the same length and differ only in push operand bytes.
pub open spec fn same_but_operands(a: Seq<u8>, b: Seq<u8>) -> bool {
    a.len() == b.len() && same_but_operands_from(a, b, 0)
}

proof fn lemma_operands_from(a: Seq<u8>, b: Seq<u8>, i: int)
    requires
        a.len() == b.len(),
        same_but_operands_from(a, b, i),
    ensures
        normalize_from(a, i) == normalize_from(b, i),
    decreases a.len() - i,
{
    if 0 <= i < a.len() {
        let next = i + 1 + push_size(a[i]);
        if next < a.len() {
            lemma_operands_from(a, b, next);
        }
    }
}

/// Two buffers that differ only in push operand values normalise to the same
/// bytes.
pub proof fn lemma_operands_ignored(a: Seq<u8>, b: Seq<u8>)
    requires
        same_but_operands(a, b),
    ensures
        normalize_spec(a) == normalize_spec(b),
{
    lemma_operands_from(a, b, 0);
}

/// The first ten bytes of an EIP-1167 minimal proxy, up to its target address.
pub open spec fn proxy_preamble() -> Seq<u8> {
    seq![0x36, 0x3d, 0x3d, 0x37, 0x3d, 0x3d, 0x3d, 0x36, 0x3d, 0x73]
}

/// `code` is an EIP-1167 minimal proxy: exactly 45 bytes, starting with the
/// proxy preamble.
pub open spec fn is_minimal_proxy(code: Seq<u8>) -> bool {
    code.len() == 45 && code.take(10) == proxy_preamble()
}

/// Whether `bytecode` is an EIP-1167 minimal proxy.
pub fn is_eip1167_proxy(bytecode: &[u8]) -> (r: bool)
    ensures
        r == is_minimal_proxy(bytecode@),
{
    if bytecode.len() != 45 {
        return false;
    }
    let r = bytecode[0] == 0x36 && bytecode[1] == 0x3d && bytecode[2] == 0x3d && bytecode[3] == 0x37
        && bytecode[4] == 0x3d && bytecode[5] == 0x3d && bytecode[6] == 0x3d && bytecode[7] == 0x36
        && bytecode[8] == 0x3d && bytecode[9] == 0x73;
    proof {
        let pre = bytecode@.take(10);
        if r {
            assert(pre =~= proxy_preamble());
        } else if pre == proxy_preamble() {
            assert(pre[0] == 0x36 && pre[1] == 0x3d && pre[2] == 0x3d && pre[3] == 0x37);
            assert(pre[4] == 0x3d && pre[5] == 0x3d && pre[6] == 0x3d && pre[7] == 0x36);
            assert(pre[8] == 0x3d && pre[9] == 0x73);
        }
    }
    r
}

/// The target address of an EIP-1167 minimal proxy (its bytes 10 to 29), or
/// `None` when `bytecode` is no minimal proxy.
pub fn extract_eip1167_impl(bytecode: &[u8]) -> (r: Option<[u8; 20]>)
    ensures
        is_minimal_proxy(bytecode@) ==> (r matches Some(a) && a@ == bytecode@.subrange(10, 30)),
        !is_minimal_proxy(bytecode@) ==> r is None,
{
    if !is_eip1167_proxy(bytecode) {
        return None;
    }
    let b = bytecode;
    let addr = [
        b[10], b[11], b[12], b[13], b[14], b[15], b[16], b[17], b[18], b[19],
        b[20], b[21], b[22], b[23], b[24], b[25], b[26], b[27], b[28], b[29],
    ];
    assert(addr@ =~= bytecode@.subrange(10, 30));
    Some(addr)
}


/// Errors of fingerprint construction.
#[derive(Debug, Clone, Copy, PartialEq, Eq, Structural)]
pub enum FingerprintError {
    /// Fewer than 50 bytes of bytecode (the length is given).
    BytecodeTooSmall(usize),
    /// The hash could not be built from the normalised bytecode.
    InvalidBytecode,
}

/// The description of a fingerprint error.
pub open spec fn error_message(e: FingerprintError) -> Seq<char> {
    match e {
        FingerprintError::BytecodeTooSmall(n) => "bytecode too small for TLSH (need at least 50 bytes, got "@
            + decimal_of(n as nat) + ")"@,
        FingerprintError::InvalidBytecode => "invalid bytecode"@,
    }
}

impl FingerprintError {
    /// A human-readable description of the error.
    pub fn message(&self) -> (r: String)
        ensures
            r@ == error_message(*self),
    {
        match *self {
            FingerprintError::BytecodeTooSmall(n) => {
                let mut s = String::from_str(
                    "bytecode too small for TLSH (need at least 50 bytes, got ",
                );
                s.append(usize_to_decimal(n).as_str());
                s.append(")");
                s
            },
            FingerprintError::InvalidBytecode => String::from_str("invalid bytecode"),
        }
    }
}

/// An upper-case hexadecimal digit in ASCII.
pub open spec fn is_upper_hex_digit(c: u8) -> bool {
    (0x30 <= c <= 0x39) || (0x41 <= c <= 0x46)
}

/// `h` is the text of a TLSH hash of the default kind: `T1` and 70
/// upper-case hexadecimal digits.
pub open spec fn tlsh_hash_valid(h: Seq<u8>) -> bool {
    &&& h.len() == 72
    &&& h[0] == 0x54
    &&& h[1] == 0x31
    &&& forall|i: int| 2 <= i < 72 ==> is_upper_hex_digit(#[trigger] h[i])
}

/// The TLSH hash text of `data` (128 buckets, 1-byte checksum), or `None`
/// when TLSH rejects the data.
pub uninterp spec fn tlsh_hash_of(data: Seq<u8>) -> Option<Seq<u8>>;

/// The TLSH distance, length included, between two TLSH hash texts.
pub uninterp spec fn tlsh_distance_of(a: Seq<u8>, b: Seq<u8>) -> int;

/// Largest input handed to TLSH. Its quartile ratios compute `q * 100` in
/// `u32`; a quartile reaches 42,949,673 only from 465,288,129 input bytes on
/// (at least 65 of 128 counts hold it, and each byte adds 6 to the counts),
/// and its length encoding fails only above 4,224,281,216 bytes.
pub const MAX_TLSH_INPUT: usize = 400000000;

/// Relies on tlsh2's `TlshBuilder::build_from` (default kind) and
/// `Tlsh::hash`: the hash depends on the data alone; `build` gives `None` for
/// fewer than 50 bytes; `hash` writes `T1` and then upper-case hexadecimal
/// digits, 72 bytes in all.
#[verifier::external_body]
fn tlsh_build(data: &[u8]) -> (r: Option<[u8; 72]>)
    requires
        data@.len() <= MAX_TLSH_INPUT,
    ensures
        match r {
            Some(h) => tlsh_hash_of(data@) == Some(h@) && tlsh_hash_valid(h@),
            None => tlsh_hash_of(data@) == None::<Seq<u8>>,
        },
        data@.len() < 50 ==> r is None,
{
    match TlshDefaultBuilder::build_from(data) {
        Some(t) => Some(t.hash()),
        None => None,
    }
}

/// Relies on tlsh2's `Tlsh::diff` with the length included, on hashes read
/// back through `Tlsh`'s `FromStr` (which accepts every `T1` text of 70
/// hexadecimal digits and inverts `hash`). In its source the distance is a
/// sum of symmetric non-negative terms, each zero on equal hashes.
#[verifier::external_body]
fn tlsh_distance(a: &[u8; 72], b: &[u8; 72]) -> (r: i32)
    requires
        tlsh_hash_valid(a@),
        tlsh_hash_valid(b@),
    ensures
        r == tlsh_distance_of(a@, b@),
        r == tlsh_distance_of(b@, a@),
        a@ == b@ ==> r == 0,
        r >= 0,
{
    let ta: TlshDefault = std::str::from_utf8(a).expect("ASCII").parse().expect("TLSH hash");
    let tb: TlshDefault = std::str::from_utf8(b).expect("ASCII").parse().expect("TLSH hash");
    ta.diff(&tb, true)
}

/// The bytes that are hashed for a fingerprint of `code`: metadata stripped,
/// then push operands zeroed.
pub open spec fn fingerprint_input(code: Seq<u8>) -> Seq<u8> {
    normalize_spec(strip_spec(code))
}

/// The hash of a fingerprint of `code`: the TLSH hash of its normalised
/// bytes, or `None` when TLSH rejects them or they exceed `MAX_TLSH_INPUT`.
pub open spec fn fingerprint_digest(code: Seq<u8>) -> Option<Seq<u8>> {
    if fingerprint_input(code).len() <= MAX_TLSH_INPUT {
        tlsh_hash_of(fingerprint_input(code))
    } else {
        None
    }
}

/// The TLSH fingerprint of a bytecode blob.
pub struct Fingerprint {
    digest: [u8; 72],
    original_size: usize,
    normalized_size: usize,
}

impl Fingerprint {
    #[verifier::type_invariant]
    spec fn inv(&self) -> bool {
        tlsh_hash_valid(self.digest@)
    }

    /// The TLSH hash text.
    pub closed spec fn spec_digest(&self) -> Seq<u8> {
        self.digest@
    }

    /// Length of the bytecode the fingerprint was built from.
    pub closed spec fn spec_original_size(&self) -> nat {
        self.original_size as nat
    }

    /// Length of that bytecode after normalisation.
    pub closed spec fn spec_normalized_size(&self) -> nat {
        self.normalized_size as nat
    }

    /// The fingerprint is the one of bytecode `code`.
    pub open spec fn built_from(&self, code: Seq<u8>) -> bool {
        &&& fingerprint_digest(code) == Some(self.spec_digest())
        &&& self.spec_original_size() == code.len()
        &&& self.spec_normalized_size() == fingerprint_input(code).len()
    }

    /// Builds the fingerprint of raw bytecode: fails with `BytecodeTooSmall`
    /// under 50 bytes, and with `InvalidBytecode` when TLSH rejects the
    /// normalised bytes or they exceed `MAX_TLSH_INPUT`.
    pub fn from_bytecode(bytecode: &[u8]) -> (r: Result<Fingerprint, FingerprintError>)
        ensures
            bytecode@.len() < 50 ==> r == Err::<Fingerprint, FingerprintError>(
                FingerprintError::BytecodeTooSmall(bytecode@.len() as usize),
            ),
            bytecode@.len() >= 50 ==> (r is Ok <==> fingerprint_digest(bytecode@) is Some),
            bytecode@.len() >= 50 && fingerprint_digest(bytecode@) is None ==> r
                == Err::<Fingerprint, FingerprintError>(FingerprintError::InvalidBytecode),
            r matches Ok(f) ==> f.built_from(bytecode@),
    {
        if bytecode.len() < 50 {
            return Err(FingerprintError::BytecodeTooSmall(bytecode.len()));
        }
        let stripped = strip_metadata(bytecode);
        let normalized = normalize_push_data(stripped);
        if normalized.len() > MAX_TLSH_INPUT {
            return Err(FingerprintError::InvalidBytecode);
        }
        match tlsh_build(normalized.as_slice()) {
            Some(digest) => Ok(
                Fingerprint {
                    digest,
                    original_size: bytecode.len(),
                    normalized_size: normalized.len(),
                },
            ),
            None => Err(FingerprintError::InvalidBytecode),
        }
    }

    /// The TLSH hash text as lower-case hexadecimal.
    pub fn hash_hex(&self) -> (r: String)
        ensures
            r@ == hex_of(self.spec_digest()),
    {
        encode_hex(self.digest.as_slice())
    }

    /// The TLSH hash text.
    pub fn hash(&self) -> (r: [u8; 72])
        ensures
            r@ == self.spec_digest(),
    {
        self.digest
    }

    /// Length of the original bytecode.
    pub fn original_size(&self) -> (r: usize)
        ensures
            r == self.spec_original_size(),
    {
        self.original_size
    }

    /// Length of the bytecode after normalisation.
    pub fn normalized_size(&self) -> (r: usize)
        ensures
            r == self.spec_normalized_size(),
    {
        self.normalized_size
    }

    /// TLSH distance to `other`; lower is more similar, 0 for equal hashes.
    /// The distance is symmetric.
    pub fn diff(&self, other: &Fingerprint) -> (r: i32)
        ensures
            r == tlsh_distance_of(self.spec_digest(), other.spec_digest()),
            r == tlsh_distance_of(other.spec_digest(), self.spec_digest()),
            self.spec_digest() == other.spec_digest() ==> r == 0,
            r >= 0,
    {
        proof {
            use_type_invariant(self);
            use_type_invariant(other);
        }
        tlsh_distance(&self.digest, &other.digest)
    }

    /// The similarity tier of the distance to `other`.
    pub fn similarity(&self, other: &Fingerprint) -> (r: Similarity)
        ensures
            r == tier_of(tlsh_distance_of(self.spec_digest(), other.spec_digest())),
    {
        Similarity::from_diff(self.diff(other))
    }
}

/// Building a fingerprint is deterministic: two fingerprints built from the
/// same bytecode have the same hash and sizes.
pub proof fn lemma_build_deterministic(code: Seq<u8>, f1: Fingerprint, f2: Fingerprint)
    requires
        f1.built_from(code),
        f2.built_from(code),
    ensures
        f1.spec_digest() == f2.spec_digest(),
        f1.spec_original_size() == f2.spec_original_size(),
        f1.spec_normalized_size() == f2.spec_normalized_size(),
{
}

/// Two bytecodes whose stripped forms differ only in push operand values get
/// fingerprints with the same hash.
pub proof fn lemma_operands_same_digest(a: Seq<u8>, b: Seq<u8>, fa: Fingerprint, fb: Fingerprint)
    requires
        same_but_operands(strip_spec(a), strip_spec(b)),
        fa.built_from(a),
        fb.built_from(b),
    ensures
        fa.spec_digest() == fb.spec_digest(),
{
    lemma_operands_ignored(strip_spec(a), strip_spec(b));
}

} // verus!
