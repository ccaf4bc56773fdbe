use which_dex::analyze::{
    decide_protocol, direct_report, human_text, proxy_report, proxy_target_to_fetch,
};
use which_dex::selector_fingerprint::selectors;
use which_dex::{
    analyze_bytecode, dex_protocol_name, parse_address_hex, proxy_implementation_address,
    validate_rpc_url, AnalyzeError, DexProtocol, Selector,
};

const PROXY_HEX: &str =
    "363d3d373d3d3d363d7395885af5492195f0754be71ad1545fe81364e5315af43d82803e903d91602b57fd5bf3";

fn code_with(sels: &[Selector]) -> Vec<u8> {
    let mut code = Vec::new();
    for s in sels {
        code.push(0x00);
        code.extend_from_slice(s.as_bytes());
    }
    code
}

#[test]
fn test_validate_rpc_url() {
    assert!(validate_rpc_url("https://example.com").is_ok());
    assert!(validate_rpc_url("").is_err());
    assert!(validate_rpc_url("not-a-url").is_err());
}

#[test]
fn test_parse_address_hex() {
    let addr = parse_address_hex("0x0000000000000000000000000000000000000001").unwrap();
    assert_eq!(
        format!("0x{}", hex::encode(addr)),
        "0x0000000000000000000000000000000000000001"
    );
    assert!(parse_address_hex("vitalik.eth").is_err());
    assert!(parse_address_hex("0x1234").is_err());
}

#[test]
fn test_proxy_implementation_address() {
    let proxy = hex::decode(PROXY_HEX).unwrap();
    let impl_addr = proxy_implementation_address(&proxy).unwrap();
    assert_eq!(
        format!("0x{}", hex::encode(impl_addr)),
        "0x95885af5492195f0754be71ad1545fe81364e531"
    );
}

#[test]
fn validate_rejects_blank_url() {
    assert_eq!(validate_rpc_url("   "), Err(AnalyzeError::InvalidRpcUrl));
    assert_eq!(validate_rpc_url(" \t\n"), Err(AnalyzeError::InvalidRpcUrl));
    assert_eq!(validate_rpc_url("http://localhost:8545"), Ok(()));
}

#[test]
fn parse_address_forms() {
    let upper = parse_address_hex("0X95885AF5492195F0754BE71AD1545FE81364E531").unwrap();
    let bare = parse_address_hex("95885af5492195f0754be71ad1545fe81364e531").unwrap();
    assert_eq!(upper, bare);
    assert_eq!(bare[0], 0x95);
    assert_eq!(bare[19], 0x31);
    assert_eq!(
        parse_address_hex("0x95885af5492195f0754be71ad1545fe81364e5zz"),
        Err(AnalyzeError::InvalidAddress)
    );
}

#[test]
fn error_messages() {
    assert_eq!(AnalyzeError::InvalidRpcUrl.message(), "invalid rpc url");
    assert_eq!(
        AnalyzeError::NoDeployedBytecode.message(),
        "address has no deployed bytecode (EOA or not deployed)"
    );
    assert_eq!(AnalyzeError::Rpc("boom".to_string()).message(), "rpc error: boom");
}

#[test]
fn protocol_names() {
    assert_eq!(dex_protocol_name(DexProtocol::UniswapV2), "UniswapV2");
    assert_eq!(dex_protocol_name(DexProtocol::AlgebraLegacyV1_9Plus), "AlgebraLegacyV1_9Plus");
    assert_eq!(dex_protocol_name(DexProtocol::Unknown), "Unknown");
}

#[test]
fn decide_single_match() {
    let code = code_with(&[
        selectors::token0(),
        selectors::token1(),
        selectors::get_reserves(),
        selectors::k_last(),
    ]);
    let (p, c) = decide_protocol(&code);
    assert_eq!(p, DexProtocol::UniswapV2);
    assert!(c.is_none());
}

#[test]
fn decide_no_match() {
    let (p, c) = decide_protocol(&[0x00, 0x01]);
    assert_eq!(p, DexProtocol::Unknown);
    assert!(c.is_none());
}

#[test]
fn decide_ambiguous_ranks_by_confidence() {
    // Algebra Integral (7 required) and Solidly (4 required) both match
    let code = code_with(&[
        selectors::token0(),
        selectors::token1(),
        selectors::global_state(),
        selectors::tick_spacing(),
        selectors::liquidity(),
        selectors::plugin(),
        selectors::get_fee(),
        selectors::get_reserves(),
        selectors::stable(),
    ]);
    let (p, c) = decide_protocol(&code);
    assert_eq!(p, DexProtocol::Unknown);
    let c = c.unwrap();
    let got: Vec<(String, u32)> = c.iter().map(|x| (x.protocol.clone(), x.confidence)).collect();
    assert_eq!(got, vec![("AlgebraIntegral".to_string(), 7), ("Solidly".to_string(), 4)]);
}

#[test]
fn decide_ambiguous_ties_by_name() {
    // Solidly with both optional selectors ties with Algebra legacy v1 at 6
    let code = code_with(&[
        selectors::token0(),
        selectors::token1(),
        selectors::get_reserves(),
        selectors::stable(),
        selectors::claim_fees(),
        selectors::current_cumulative_prices(),
        selectors::global_state(),
        selectors::tick_spacing(),
        selectors::liquidity(),
        selectors::data_storage_operator(),
    ]);
    let (p, c) = decide_protocol(&code);
    assert_eq!(p, DexProtocol::Unknown);
    let got: Vec<(String, u32)> =
        c.unwrap().iter().map(|x| (x.protocol.clone(), x.confidence)).collect();
    assert_eq!(got, vec![("AlgebraLegacyV1".to_string(), 6), ("Solidly".to_string(), 6)]);
}

#[test]
fn analyze_bytecode_records_fingerprint_error() {
    let code = code_with(&[
        selectors::token0(),
        selectors::token1(),
        selectors::get_reserves(),
        selectors::k_last(),
    ]);
    let a = analyze_bytecode([0x11; 20], &code);
    assert_eq!(a.address, format!("0x{}", "11".repeat(20)));
    assert_eq!(a.code_size, 20);
    assert_eq!(a.protocol, "UniswapV2");
    assert!(a.is_pool_likely);
    assert!(a.protocol_candidates.is_none());
    assert!(a.fingerprint.is_none());
    assert_eq!(
        a.fingerprint_error.as_deref(),
        Some("bytecode too small for TLSH (need at least 50 bytes, got 20)")
    );
}

#[test]
fn analyze_bytecode_with_fingerprint() {
    let mut code = Vec::new();
    for i in 0..400u32 {
        let b = ((i * 37 + i / 7) % 251) as u8;
        code.push(if (0x60..=0x7f).contains(&b) || b == 0xa2 || b == 0xa1 { b ^ 0x80 } else { b });
    }
    let a = analyze_bytecode([0; 20], &code);
    assert_eq!(a.protocol, "Unknown");
    assert!(!a.is_pool_likely);
    let f = a.fingerprint.expect("fingerprint");
    assert_eq!(f.original_size, 400);
    assert_eq!(f.normalized_size, 400);
    assert_eq!(f.hash_hex.len(), 144);
    assert!(f.hash_hex.starts_with("5431"));
    assert!(a.fingerprint_error.is_none());
}

#[test]
fn orchestration_steps() {
    assert_eq!(proxy_target_to_fetch(&[]), Err(AnalyzeError::NoDeployedBytecode));
    assert_eq!(proxy_target_to_fetch(&[0x60, 0x80]), Ok(None));
    let proxy = hex::decode(PROXY_HEX).unwrap();
    let target = proxy_target_to_fetch(&proxy).unwrap().unwrap();
    assert_eq!(hex::encode(target), "95885af5492195f0754be71ad1545fe81364e531");

    assert_eq!(
        proxy_report("http://x", [1; 20], &proxy, target, &[]).err(),
        Some(AnalyzeError::NoDeployedBytecode)
    );
    let r = proxy_report("http://x", [1; 20], &proxy, target, &[0x00, 0x01]).unwrap();
    assert!(r.is_eip1167_proxy);
    assert_eq!(
        r.implementation_address.as_deref(),
        Some("0x95885af5492195f0754be71ad1545fe81364e531")
    );
    assert_eq!(r.analysis.code_size, 2);
    assert_eq!(r.proxy_analysis.unwrap().code_size, 45);

    let d = direct_report("http://x", [1; 20], &[0x00]);
    assert!(!d.is_eip1167_proxy);
    assert_eq!(d.rpc_url, "http://x");
    assert!(d.proxy_analysis.is_none());
}

#[test]
fn human_text_of_proxy_report() {
    let proxy = hex::decode(PROXY_HEX).unwrap();
    let target = proxy_target_to_fetch(&proxy).unwrap().unwrap();
    let r = proxy_report("http://x", [1; 20], &proxy, target, &[0x00, 0x01]).unwrap();
    let text = human_text(&r);
    let expected = format!(
        "rpc_url: http://x\naddress: 0x{ones}\neip1167_proxy: true\n\
         implementation_address: 0x95885af5492195f0754be71ad1545fe81364e531\n\n\
         analysis_address: 0x95885af5492195f0754be71ad1545fe81364e531\ncode_size: 2\n\
         protocol: Unknown\nis_pool_likely: false\n\
         fingerprint_error: bytecode too small for TLSH (need at least 50 bytes, got 2)\n\n\
         proxy_bytecode_analysis:\n  address: 0x{ones}\n  code_size: 45\n  protocol: Unknown\n",
        ones = "01".repeat(20)
    );
    assert_eq!(text, expected);
}

#[test]
fn human_text_lists_candidates() {
    let code = code_with(&[
        selectors::token0(),
        selectors::token1(),
        selectors::global_state(),
        selectors::tick_spacing(),
        selectors::liquidity(),
        selectors::plugin(),
        selectors::get_fee(),
        selectors::get_reserves(),
        selectors::stable(),
    ]);
    let r = direct_report("http://x", [0; 20], &code);
    let text = human_text(&r);
    assert!(text.contains(
        "protocol: Unknown\nis_pool_likely: false\nprotocol_candidates:\n  - AlgebraIntegral (confidence 7)\n  - Solidly (confidence 4)\n"
    ));
    assert!(text.starts_with("rpc_url: http://x\naddress: 0x0000"));
    assert!(text.contains("eip1167_proxy: false\n\nanalysis_address: "));
}
