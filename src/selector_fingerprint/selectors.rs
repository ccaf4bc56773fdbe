//! Well-known function selectors of DEX pool contracts.
//!
//! Each selector has a spec function giving its bytes and an executable
//! function returning it.

use vstd::prelude::*;

use super::Selector;

verus! {

/// Bytes of the `token0()` selector.
pub open spec fn token0_bytes() -> Seq<u8> {
    seq![0x0d, 0xfe, 0x16, 0x81]
}

/// The `token0()` selector.
pub fn token0() -> (r: Selector)
    ensures
        r@ == token0_bytes(),
{
    let r = Selector([0x0d, 0xfe, 0x16, 0x81]);
    assert(r@ =~= token0_bytes());
    r
}

/// Bytes of the `token1()` selector.
pub open spec fn token1_bytes() -> Seq<u8> {
    seq![0xd2, 0x12, 0x20, 0xa7]
}

/// The `token1()` selector.
pub fn token1() -> (r: Selector)
    ensures
        r@ == token1_bytes(),
{
    let r = Selector([0xd2, 0x12, 0x20, 0xa7]);
    assert(r@ =~= token1_bytes());
    r
}

/// Bytes of the `factory()` selector.
pub open spec fn factory_bytes() -> Seq<u8> {
    seq![0xc4, 0x5a, 0x01, 0x55]
}

/// The `factory()` selector.
pub fn factory() -> (r: Selector)
    ensures
        r@ == factory_bytes(),
{
    let r = Selector([0xc4, 0x5a, 0x01, 0x55]);
    assert(r@ =~= factory_bytes());
    r
}

/// Bytes of the `getReserves()` selector.
pub open spec fn get_reserves_bytes() -> Seq<u8> {
    seq![0x09, 0x02, 0xf1, 0xac]
}

/// The `getReserves()` selector.
pub fn get_reserves() -> (r: Selector)
    ensures
        r@ == get_reserves_bytes(),
{
    let r = Selector([0x09, 0x02, 0xf1, 0xac]);
    assert(r@ =~= get_reserves_bytes());
    r
}

/// Bytes of the `kLast()` selector.
pub open spec fn k_last_bytes() -> Seq<u8> {
    seq![0x74, 0x64, 0xfc, 0x3d]
}

/// The `kLast()` selector.
pub fn k_last() -> (r: Selector)
    ensures
        r@ == k_last_bytes(),
{
    let r = Selector([0x74, 0x64, 0xfc, 0x3d]);
    assert(r@ =~= k_last_bytes());
    r
}

/// Bytes of the `price0CumulativeLast()` selector.
pub open spec fn price0_cumulative_last_bytes() -> Seq<u8> {
    seq![0x59, 0x09, 0xc0, 0xd5]
}

/// The `price0CumulativeLast()` selector.
pub fn price0_cumulative_last() -> (r: Selector)
    ensures
        r@ == price0_cumulative_last_bytes(),
{
    let r = Selector([0x59, 0x09, 0xc0, 0xd5]);
    assert(r@ =~= price0_cumulative_last_bytes());
    r
}

/// Bytes of the `price1CumulativeLast()` selector.
pub open spec fn price1_cumulative_last_bytes() -> Seq<u8> {
    seq![0x5a, 0x3d, 0x54, 0x93]
}

/// The `price1CumulativeLast()` selector.
pub fn price1_cumulative_last() -> (r: Selector)
    ensures
        r@ == price1_cumulative_last_bytes(),
{
    let r = Selector([0x5a, 0x3d, 0x54, 0x93]);
    assert(r@ =~= price1_cumulative_last_bytes());
    r
}

/// Bytes of the `slot0()` selector.
pub open spec fn slot0_bytes() -> Seq<u8> {
    seq![0x38, 0x50, 0xc7, 0xbd]
}

/// The `slot0()` selector.
pub fn slot0() -> (r: Selector)
    ensures
        r@ == slot0_bytes(),
{
    let r = Selector([0x38, 0x50, 0xc7, 0xbd]);
    assert(r@ =~= slot0_bytes());
    r
}

/// Bytes of the `fee()` selector.
pub open spec fn fee_bytes() -> Seq<u8> {
    seq![0xdd, 0xca, 0x3f, 0x43]
}

/// The `fee()` selector.
pub fn fee() -> (r: Selector)
    ensures
        r@ == fee_bytes(),
{
    let r = Selector([0xdd, 0xca, 0x3f, 0x43]);
    assert(r@ =~= fee_bytes());
    r
}

/// Bytes of the `tickSpacing()` selector.
pub open spec fn tick_spacing_bytes() -> Seq<u8> {
    seq![0xd0, 0xc9, 0x3a, 0x7c]
}

/// The `tickSpacing()` selector.
pub fn tick_spacing() -> (r: Selector)
    ensures
        r@ == tick_spacing_bytes(),
{
    let r = Selector([0xd0, 0xc9, 0x3a, 0x7c]);
    assert(r@ =~= tick_spacing_bytes());
    r
}

/// Bytes of the `liquidity()` selector.
pub open spec fn liquidity_bytes() -> Seq<u8> {
    seq![0x1a, 0x68, 0x65, 0x02]
}

/// The `liquidity()` selector.
pub fn liquidity() -> (r: Selector)
    ensures
        r@ == liquidity_bytes(),
{
    let r = Selector([0x1a, 0x68, 0x65, 0x02]);
    assert(r@ =~= liquidity_bytes());
    r
}

/// Bytes of the `ticks(int24)` selector.
pub open spec fn ticks_bytes() -> Seq<u8> {
    seq![0xf3, 0x0d, 0xba, 0x93]
}

/// The `ticks(int24)` selector.
pub fn ticks() -> (r: Selector)
    ensures
        r@ == ticks_bytes(),
{
    let r = Selector([0xf3, 0x0d, 0xba, 0x93]);
    assert(r@ =~= ticks_bytes());
    r
}

/// Bytes of the `positions(bytes32)` selector.
pub open spec fn positions_bytes() -> Seq<u8> {
    seq![0x51, 0x4e, 0xa4, 0xbf]
}

/// The `positions(bytes32)` selector.
pub fn positions() -> (r: Selector)
    ensures
        r@ == positions_bytes(),
{
    let r = Selector([0x51, 0x4e, 0xa4, 0xbf]);
    assert(r@ =~= positions_bytes());
    r
}

/// Bytes of the `stable()` selector.
pub open spec fn stable_bytes() -> Seq<u8> {
    seq![0x22, 0xbe, 0x3d, 0xe1]
}

/// The `stable()` selector.
pub fn stable() -> (r: Selector)
    ensures
        r@ == stable_bytes(),
{
    let r = Selector([0x22, 0xbe, 0x3d, 0xe1]);
    assert(r@ =~= stable_bytes());
    r
}

/// Bytes of the `claimFees()` selector.
pub open spec fn claim_fees_bytes() -> Seq<u8> {
    seq![0xd2, 0x94, 0xf0, 0x93]
}

/// The `claimFees()` selector.
pub fn claim_fees() -> (r: Selector)
    ensures
        r@ == claim_fees_bytes(),
{
    let r = Selector([0xd2, 0x94, 0xf0, 0x93]);
    assert(r@ =~= claim_fees_bytes());
    r
}

/// Bytes of the `currentCumulativePrices()` selector.
pub open spec fn current_cumulative_prices_bytes() -> Seq<u8> {
    seq![0x1d, 0xf8, 0xc7, 0x17]
}

/// The `currentCumulativePrices()` selector.
pub fn current_cumulative_prices() -> (r: Selector)
    ensures
        r@ == current_cumulative_prices_bytes(),
{
    let r = Selector([0x1d, 0xf8, 0xc7, 0x17]);
    assert(r@ =~= current_cumulative_prices_bytes());
    r
}

/// Bytes of the `globalState()` selector.
pub open spec fn global_state_bytes() -> Seq<u8> {
    seq![0xe7, 0x6c, 0x01, 0xe4]
}

/// The `globalState()` selector.
pub fn global_state() -> (r: Selector)
    ensures
        r@ == global_state_bytes(),
{
    let r = Selector([0xe7, 0x6c, 0x01, 0xe4]);
    assert(r@ =~= global_state_bytes());
    r
}

/// Bytes of the `dataStorageOperator()` selector.
pub open spec fn data_storage_operator_bytes() -> Seq<u8> {
    seq![0x29, 0x04, 0x7d, 0xfa]
}

/// The `dataStorageOperator()` selector.
pub fn data_storage_operator() -> (r: Selector)
    ensures
        r@ == data_storage_operator_bytes(),
{
    let r = Selector([0x29, 0x04, 0x7d, 0xfa]);
    assert(r@ =~= data_storage_operator_bytes());
    r
}

/// Bytes of the `getInnerCumulatives(int24,int24)` selector.
pub open spec fn get_inner_cumulatives_bytes() -> Seq<u8> {
    seq![0x92, 0x0c, 0x34, 0xe5]
}

/// The `getInnerCumulatives(int24,int24)` selector.
pub fn get_inner_cumulatives() -> (r: Selector)
    ensures
        r@ == get_inner_cumulatives_bytes(),
{
    let r = Selector([0x92, 0x0c, 0x34, 0xe5]);
    assert(r@ =~= get_inner_cumulatives_bytes());
    r
}

/// Bytes of the `plugin()` selector.
pub open spec fn plugin_bytes() -> Seq<u8> {
    seq![0xef, 0x01, 0xdf, 0x4f]
}

/// The `plugin()` selector.
pub fn plugin() -> (r: Selector)
    ensures
        r@ == plugin_bytes(),
{
    let r = Selector([0xef, 0x01, 0xdf, 0x4f]);
    assert(r@ =~= plugin_bytes());
    r
}

/// Bytes of the `communityVault()` selector.
pub open spec fn community_vault_bytes() -> Seq<u8> {
    seq![0x53, 0xe9, 0x78, 0x68]
}

/// The `communityVault()` selector.
pub fn community_vault() -> (r: Selector)
    ensures
        r@ == community_vault_bytes(),
{
    let r = Selector([0x53, 0xe9, 0x78, 0x68]);
    assert(r@ =~= community_vault_bytes());
    r
}

/// Bytes of the Algebra Integral `getFee` selector.
pub open spec fn get_fee_bytes() -> Seq<u8> {
    seq![0xce, 0xd7, 0x27, 0x07]
}

/// The Algebra Integral `getFee` selector.
pub fn get_fee() -> (r: Selector)
    ensures
        r@ == get_fee_bytes(),
{
    let r = Selector([0xce, 0xd7, 0x27, 0x07]);
    assert(r@ =~= get_fee_bytes());
    r
}

} // verus!
