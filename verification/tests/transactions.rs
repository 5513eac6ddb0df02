use flashblocks_rpc::transaction::TxFields;

fn fields(is_deposit: bool, max_fee: u128, priority_fee: Option<u128>) -> TxFields {
    TxFields {
        hash: [1; 32],
        is_deposit,
        max_fee_per_gas: max_fee,
        max_priority_fee_per_gas: priority_fee,
    }
}

#[test]
fn tip_is_capped_by_the_priority_fee() {
    assert_eq!(fields(false, 100, Some(7)).effective_tip_per_gas(40), Some(7));
    assert_eq!(fields(false, 100, Some(60)).effective_tip_per_gas(40), Some(60));
    assert_eq!(fields(false, 100, Some(61)).effective_tip_per_gas(40), Some(60));
}

#[test]
fn without_a_priority_fee_the_tip_is_what_is_left() {
    assert_eq!(fields(false, 100, None).effective_tip_per_gas(40), Some(60));
    assert_eq!(fields(false, 40, None).effective_tip_per_gas(40), Some(0));
}

#[test]
fn there_is_no_tip_below_the_base_fee() {
    assert_eq!(fields(false, 39, Some(7)).effective_tip_per_gas(40), None);
}

#[test]
fn gas_price_is_base_fee_and_tip() {
    assert_eq!(fields(false, 100, Some(7)).effective_gas_price(Some(40)), 47);
    assert_eq!(fields(false, 100, None).effective_gas_price(Some(40)), 100);
    assert_eq!(fields(false, u128::MAX, None).effective_gas_price(Some(u64::MAX)), u128::MAX);
}

#[test]
fn gas_price_out_of_reach_is_the_base_fee() {
    assert_eq!(fields(false, 39, Some(7)).effective_gas_price(Some(40)), 40);
}

#[test]
fn gas_price_without_base_fee_is_the_max_fee() {
    assert_eq!(fields(false, 100, Some(7)).effective_gas_price(None), 100);
}

#[test]
fn deposits_are_free() {
    assert_eq!(fields(true, 100, Some(7)).effective_gas_price(Some(40)), 0);
    assert_eq!(fields(true, 100, Some(7)).effective_gas_price(None), 0);
}

#[test]
fn gas_price_stays_between_base_fee_and_max_fee() {
    for max_fee in 40..60 {
        for priority_fee in 0..25 {
            let price = fields(false, max_fee, Some(priority_fee)).effective_gas_price(Some(40));
            assert!(40 <= price && price <= max_fee);
        }
    }
}
