use sym_exec::gas::{
    account_access_gas, call_cost, create2_cost, exp_cost, extcodecopy_cost, hot_cold_cost, log_cost, memory_gas,
    new_cost, selfdestruct_cost, sha3_cost, sload_cost, sstore_cost, sstore_refund, verylowcopy_cost, xfer_cost,
    SelfDestructResult, SpecId,
};
use sym_exec::Word;

fn w(n: u64) -> Word {
    Word::from_u64(n)
}

#[test]
fn create2_rounds_words_up() {
    assert_eq!(create2_cost(0), Some(32000));
    assert_eq!(create2_cost(32), Some(32006));
    assert_eq!(create2_cost(33), Some(32012));
}

#[test]
fn copy_costs() {
    assert_eq!(verylowcopy_cost(w(0)), Some(3));
    assert_eq!(verylowcopy_cost(w(33)), Some(9));
    assert_eq!(sha3_cost(w(64)), Some(42));
    let huge = Word { l0: 0, l1: 0, l2: 1, l3: 0 };
    assert_eq!(sha3_cost(huge), None);
    assert_eq!(extcodecopy_cost(SpecId::BERLIN, w(1), true), Some(2603));
    assert_eq!(extcodecopy_cost(SpecId::ISTANBUL, w(1), true), Some(703));
    assert_eq!(extcodecopy_cost(SpecId::FRONTIER, w(32), false), Some(23));
}

#[test]
fn log_and_exp_costs() {
    assert_eq!(log_cost(2, w(10)), Some(1205));
    assert_eq!(log_cost(0, Word { l0: 0, l1: 0, l2: 0, l3: 1 }), None);
    assert_eq!(exp_cost(SpecId::LONDON, w(0)), Some(10));
    assert_eq!(exp_cost(SpecId::LONDON, w(255)), Some(60));
    assert_eq!(exp_cost(SpecId::LONDON, w(256)), Some(110));
    assert_eq!(exp_cost(SpecId::HOMESTEAD, w(256)), Some(30));
}

#[test]
fn access_costs_by_upgrade() {
    assert_eq!(account_access_gas(SpecId::BERLIN, true), 2600);
    assert_eq!(account_access_gas(SpecId::LONDON, false), 100);
    assert_eq!(account_access_gas(SpecId::ISTANBUL, true), 700);
    assert_eq!(account_access_gas(SpecId::FRONTIER, true), 20);
    assert_eq!(sload_cost(SpecId::BERLIN, true), 2100);
    assert_eq!(sload_cost(SpecId::MUIR_GLACIER, false), 800);
    assert_eq!(sload_cost(SpecId::TANGERINE, false), 200);
    assert_eq!(sload_cost(SpecId::HOMESTEAD, false), 50);
    assert_eq!(hot_cold_cost(SpecId::LATEST, true, 7), 2600);
    assert_eq!(hot_cold_cost(SpecId::ISTANBUL, true, 7), 7);
}

#[test]
fn memory_gas_values() {
    assert_eq!(memory_gas(0), 0);
    assert_eq!(memory_gas(32), 98);
    assert_eq!(memory_gas(usize::MAX), u64::MAX);
}

#[test]
fn selfdestruct_costs() {
    let fresh = SelfDestructResult { had_value: true, exists: false, is_cold: true, previously_destroyed: false };
    assert_eq!(selfdestruct_cost(SpecId::BERLIN, fresh), 32600);
    assert_eq!(selfdestruct_cost(SpecId::ISTANBUL, fresh), 30000);
    assert_eq!(selfdestruct_cost(SpecId::FRONTIER, fresh), 0);
    let empty = SelfDestructResult { had_value: false, exists: false, is_cold: false, previously_destroyed: false };
    assert_eq!(selfdestruct_cost(SpecId::ISTANBUL, empty), 5000);
    assert_eq!(selfdestruct_cost(SpecId::TANGERINE, empty), 30000);
}

#[test]
fn call_costs() {
    assert_eq!(xfer_cost(true, true), 9000);
    assert_eq!(xfer_cost(true, false), 0);
    assert_eq!(new_cost(SpecId::ISTANBUL, true, true, false), 0);
    assert_eq!(new_cost(SpecId::BYZANTIUM, true, true, false), 25000);
    assert_eq!(call_cost(SpecId::BERLIN, w(1), true, true, true, true), 2600 + 9000 + 25000);
    assert_eq!(call_cost(SpecId::TANGERINE, w(0), false, false, true, true), 700);
    assert_eq!(call_cost(SpecId::FRONTIER, w(0), true, false, false, true), 40 + 25000);
}

#[test]
fn sstore_costs() {
    assert_eq!(sstore_cost(SpecId::LONDON, w(0), w(0), w(1), 10000, true), Some(22100));
    assert_eq!(sstore_cost(SpecId::LONDON, w(1), w(1), w(2), 10000, false), Some(2900));
    assert_eq!(sstore_cost(SpecId::LONDON, w(1), w(2), w(3), 10000, false), Some(100));
    assert_eq!(sstore_cost(SpecId::LONDON, w(1), w(2), w(3), 2300, false), None);
    assert_eq!(sstore_cost(SpecId::BYZANTIUM, w(0), w(0), w(1), 100, false), Some(20000));
    assert_eq!(sstore_cost(SpecId::BYZANTIUM, w(0), w(1), w(1), 100, false), Some(5000));
    assert_eq!(sstore_cost(SpecId::ISTANBUL, w(1), w(1), w(1), 10000, false), Some(800));
}

#[test]
fn sstore_refunds() {
    assert_eq!(sstore_refund(SpecId::LONDON, w(1), w(1), w(0)), 4800);
    assert_eq!(sstore_refund(SpecId::ISTANBUL, w(1), w(1), w(0)), 15000);
    assert_eq!(sstore_refund(SpecId::LONDON, w(1), w(1), w(1)), 0);
    assert_eq!(sstore_refund(SpecId::LONDON, w(1), w(0), w(2)), -4800);
    assert_eq!(sstore_refund(SpecId::LONDON, w(1), w(2), w(0)), 4800);
    assert_eq!(sstore_refund(SpecId::LONDON, w(0), w(2), w(0)), 19900);
    assert_eq!(sstore_refund(SpecId::LONDON, w(1), w(2), w(1)), 2800);
    assert_eq!(sstore_refund(SpecId::BYZANTIUM, w(0), w(1), w(0)), 15000);
    assert_eq!(sstore_refund(SpecId::BYZANTIUM, w(0), w(0), w(1)), 0);
}

#[test]
fn upgrades_enable_earlier_rules() {
    assert!(SpecId::LONDON.enabled(SpecId::BERLIN));
    assert!(SpecId::BERLIN.enabled(SpecId::BERLIN));
    assert!(!SpecId::ISTANBUL.enabled(SpecId::BERLIN));
    assert_eq!(SpecId::FRONTIER.order(), 0);
    assert_eq!(SpecId::LATEST.order(), 13);
}
