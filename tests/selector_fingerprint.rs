use which_dex::selector_fingerprint::selectors;
use which_dex::selector_fingerprint::{extract_selectors, has_function};
use which_dex::{identify_protocol, identify_protocols, DexProtocol, Selector};

fn code_with(sels: &[Selector]) -> Vec<u8> {
    let mut code = Vec::new();
    for s in sels {
        code.push(0x00);
        code.extend_from_slice(s.as_bytes());
    }
    code
}

#[test]
fn test_selector_from_signature() {
    assert_eq!(Selector::from_signature("token0()").0, [0x0d, 0xfe, 0x16, 0x81]);
    assert_eq!(Selector::from_signature("getReserves()").0, [0x09, 0x02, 0xf1, 0xac]);
    assert_eq!(Selector::from_signature("slot0()").0, [0x38, 0x50, 0xc7, 0xbd]);
    assert_eq!(Selector::from_signature("globalState()").0, [0xe7, 0x6c, 0x01, 0xe4]);
    assert_eq!(Selector::from_signature("stable()").0, [0x22, 0xbe, 0x3d, 0xe1]);
}

#[test]
fn test_selector_exists_in() {
    let bytecode = vec![0x00, 0x0d, 0xfe, 0x16, 0x81, 0x00];
    assert!(selectors::token0().exists_in(&bytecode));
    assert!(!selectors::slot0().exists_in(&bytecode));
}

#[test]
fn test_extract_selectors() {
    let bytecode = vec![0x63, 0x0d, 0xfe, 0x16, 0x81, 0x00];
    let extracted = extract_selectors(&bytecode);
    assert_eq!(extracted.len(), 1);
    assert_eq!(extracted[0], selectors::token0());
}

#[test]
fn test_has_function() {
    let bytecode = vec![0x00, 0x0d, 0xfe, 0x16, 0x81, 0x00];
    assert!(has_function(&bytecode, "token0()"));
    assert!(!has_function(&bytecode, "slot0()"));
}

#[test]
fn test_dex_protocol_categories() {
    assert!(DexProtocol::UniswapV2.is_v2_style());
    assert!(DexProtocol::Solidly.is_v2_style());
    assert!(!DexProtocol::UniswapV3.is_v2_style());

    assert!(DexProtocol::UniswapV3.is_v3_style());
    assert!(DexProtocol::AlgebraLegacyV1.is_v3_style());
    assert!(!DexProtocol::UniswapV2.is_v3_style());
}

#[test]
fn test_identify_algebra_with_fee_selector() {
    let mut bytecode = Vec::new();
    bytecode.extend_from_slice(selectors::token0().as_bytes());
    bytecode.extend_from_slice(selectors::token1().as_bytes());
    bytecode.extend_from_slice(selectors::global_state().as_bytes());
    bytecode.extend_from_slice(selectors::tick_spacing().as_bytes());
    bytecode.extend_from_slice(selectors::liquidity().as_bytes());
    bytecode.extend_from_slice(selectors::plugin().as_bytes());
    bytecode.extend_from_slice(selectors::fee().as_bytes());

    let protocol = identify_protocol(&bytecode);
    assert_eq!(protocol, DexProtocol::AlgebraLegacyV1_9Plus);
}

#[test]
fn selector_constants_match_signatures() {
    let pairs = [
        (selectors::token1(), "token1()"),
        (selectors::factory(), "factory()"),
        (selectors::k_last(), "kLast()"),
        (selectors::fee(), "fee()"),
        (selectors::tick_spacing(), "tickSpacing()"),
        (selectors::liquidity(), "liquidity()"),
        (selectors::plugin(), "plugin()"),
    ];
    for (s, sig) in pairs {
        assert_eq!(s, Selector::from_signature(sig), "{sig}");
    }
}

#[test]
fn selector_exists_at_edges() {
    let s = Selector::from_bytes([1, 2, 3, 4]);
    assert!(s.exists_in(&[1, 2, 3, 4]));
    assert!(s.exists_in(&[9, 9, 1, 2, 3, 4]));
    assert!(!s.exists_in(&[1, 2, 3]));
    assert!(!s.exists_in(&[]));
    assert!(!s.exists_in(&[1, 2, 3, 5, 1, 2, 3]));
}

#[test]
fn extract_selectors_sorts_dedups_and_skips_push_data() {
    let code = vec![
        0x63, 0xd2, 0x12, 0x20, 0xa7, // PUSH4 token1
        0x61, 0x63, 0x01, // PUSH2 whose data holds a PUSH4 opcode
        0x63, 0x0d, 0xfe, 0x16, 0x81, // PUSH4 token0
        0x63, 0xd2, 0x12, 0x20, 0xa7, // PUSH4 token1 again
        0x00, 0x63, 0x01, 0x02, 0x03, // PUSH4 without a following byte
    ];
    let extracted = extract_selectors(&code);
    assert_eq!(extracted, vec![selectors::token0(), selectors::token1()]);
}

#[test]
fn v2_selector_set_is_uniswap_v2() {
    let code = code_with(&[
        selectors::token0(),
        selectors::token1(),
        selectors::get_reserves(),
        selectors::k_last(),
    ]);
    assert_eq!(identify_protocol(&code), DexProtocol::UniswapV2);
    assert_eq!(identify_protocols(&code), vec![(DexProtocol::UniswapV2, 4)]);
}

#[test]
fn forbidden_selector_vetoes_template() {
    let code = code_with(&[
        selectors::token0(),
        selectors::token1(),
        selectors::get_reserves(),
        selectors::k_last(),
        selectors::slot0(),
    ]);
    assert_eq!(identify_protocol(&code), DexProtocol::Unknown);
    assert!(identify_protocols(&code).is_empty());
}

#[test]
fn optional_selectors_add_confidence() {
    let code = code_with(&[
        selectors::token0(),
        selectors::token1(),
        selectors::slot0(),
        selectors::fee(),
        selectors::tick_spacing(),
        selectors::liquidity(),
        selectors::ticks(),
        selectors::positions(),
    ]);
    assert_eq!(identify_protocols(&code), vec![(DexProtocol::UniswapV3, 8)]);
    assert_eq!(identify_protocol(&code), DexProtocol::UniswapV3);
}

#[test]
fn identify_protocols_in_table_order() {
    let code = code_with(&[
        selectors::token0(),
        selectors::token1(),
        selectors::global_state(),
        selectors::tick_spacing(),
        selectors::liquidity(),
        selectors::plugin(),
        selectors::get_reserves(),
        selectors::stable(),
        selectors::claim_fees(),
        selectors::current_cumulative_prices(),
    ]);
    assert_eq!(
        identify_protocols(&code),
        vec![(DexProtocol::AlgebraLegacyV1_9Plus, 6), (DexProtocol::Solidly, 6)]
    );
    // equal confidence: the earlier template wins
    assert_eq!(identify_protocol(&code), DexProtocol::AlgebraLegacyV1_9Plus);
}

#[test]
fn selector_text() {
    assert_eq!(selectors::token0().to_string(), "0x0dfe1681");
    assert_eq!(Selector::from_bytes([0, 0xab, 0x10, 0xff]).to_string(), "0x00ab10ff");
}
