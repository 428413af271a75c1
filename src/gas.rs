use vstd::prelude::*;
use crate::word::{Word, word_modulus};

verus! {

/// The protocol upgrades, oldest first; each one enables all before it.
#[allow(non_camel_case_types)]
#[derive(Clone, Copy, Debug, PartialEq, Eq, Structural)]
pub enum SpecId {
    FRONTIER,
    FRONTIER_THAWING,
    HOMESTEAD,
    DAO_FORK,
    TANGERINE,
    SPURIOUS_DRAGON,
    BYZANTIUM,
    CONSTANTINOPLE,
    PETERSBURG,
    ISTANBUL,
    MUIR_GLACIER,
    BERLIN,
    LONDON,
    LATEST,
}

impl SpecId {
    /// The position of the upgrade in the chain.
    pub open spec fn rank(self) -> nat {
        match self {
            SpecId::FRONTIER => 0,
            SpecId::FRONTIER_THAWING => 1,
            SpecId::HOMESTEAD => 2,
            SpecId::DAO_FORK => 3,
            SpecId::TANGERINE => 4,
            SpecId::SPURIOUS_DRAGON => 5,
            SpecId::BYZANTIUM => 6,
            SpecId::CONSTANTINOPLE => 7,
            SpecId::PETERSBURG => 8,
            SpecId::ISTANBUL => 9,
            SpecId::MUIR_GLACIER => 10,
            SpecId::BERLIN => 11,
            SpecId::LONDON => 12,
            SpecId::LATEST => 13,
        }
    }

    pub fn order(self) -> (r: u8)
        ensures
            r == self.rank(),
    {
        match self {
            SpecId::FRONTIER => 0,
            SpecId::FRONTIER_THAWING => 1,
            SpecId::HOMESTEAD => 2,
            SpecId::DAO_FORK => 3,
            SpecId::TANGERINE => 4,
            SpecId::SPURIOUS_DRAGON => 5,
            SpecId::BYZANTIUM => 6,
            SpecId::CONSTANTINOPLE => 7,
            SpecId::PETERSBURG => 8,
            SpecId::ISTANBUL => 9,
            SpecId::MUIR_GLACIER => 10,
            SpecId::BERLIN => 11,
            SpecId::LONDON => 12,
            SpecId::LATEST => 13,
        }
    }

    /// Whether the rules of upgrade `other` are in force under `self`.
    pub open spec fn is_enabled(self, other: SpecId) -> bool {
        self.rank() >= other.rank()
    }

    pub fn enabled(self, other: SpecId) -> (r: bool)
        ensures
            r == self.is_enabled(other),
    {
        self.order() >= other.order()
    }
}

pub const VERYLOW: u64 = 3;
pub const CREATE: u64 = 32000;
pub const CALLVALUE: u64 = 9000;
pub const NEWACCOUNT: u64 = 25000;
pub const EXP: u64 = 10;
pub const MEMORY: u64 = 3;
pub const LOG: u64 = 375;
pub const LOGDATA: u64 = 8;
pub const LOGTOPIC: u64 = 375;
pub const SHA3: u64 = 30;
pub const SHA3WORD: u64 = 6;
pub const COPY: u64 = 3;
pub const SSTORE_SET: u64 = 20000;
pub const SSTORE_RESET: u64 = 5000;
pub const REFUND_SSTORE_CLEARS: i64 = 15000;
pub const CALL_STIPEND: u64 = 2300;
pub const ACCESS_LIST_STORAGE_KEY: u64 = 1900;
pub const SLOAD_COLD: u64 = 2100;
pub const ACCOUNT_ACCESS_COLD: u64 = 2600;
pub const STORAGE_READ_WARM: u64 = 100;

/// The number of 32-byte words that `len` bytes take, the last one partly filled.
pub open spec fn ceil_words(len: int) -> int {
    len / 32 + if len % 32 == 0 { 0int } else { 1int }
}

/// `Some` of a cost that fits in 64 bits, `None` otherwise.
pub open spec fn fit_u64(cost: int) -> Option<u64> {
    if cost <= u64::MAX {
        Some(cost as u64)
    } else {
        None
    }
}

pub fn create2_cost(len: usize) -> (r: Option<u64>)
    ensures
        r == Some((CREATE + SHA3WORD * ceil_words(len as int)) as u64),
        r->0 == CREATE + SHA3WORD * ceil_words(len as int),
{
    let base = CREATE;
    let len = len as u64;
    let sha_addup_base = (len / 32) + if (len % 32) == 0 { 0 } else { 1 };
    let sha_addup = match SHA3WORD.checked_mul(sha_addup_base) {
        Some(v) => v,
        None => return None,
    };
    let gas = match base.checked_add(sha_addup) {
        Some(v) => v,
        None => return None,
    };
    Some(gas)
}

/// A base cost plus a cost per 32-byte word of `len` bytes.
fn per_word_cost(base: u64, per_word: u64, len: Word) -> (r: Option<u64>)
    ensures
        r == fit_u64(base + per_word * ceil_words(len.val())),
{
    let thirty_two = Word::from_u64(32);
    let (wordd, wordr) = len.div_mod(thirty_two);
    proof {
        len.lemma_val_bounds();
        assert(wordd.val() + 1 < word_modulus());
    }
    let words = if wordr.is_zero() {
        wordd
    } else {
        wordd.wrapping_add(Word::one())
    };
    assert(words.val() == ceil_words(len.val()));
    let ghost total = base + per_word * ceil_words(len.val());
    let mul = match Word::from_u64(per_word).checked_mul(words) {
        Some(v) => v,
        None => {
            assert(total > u64::MAX);
            return None;
        },
    };
    let gas = match Word::from_u64(base).checked_add(mul) {
        Some(v) => v,
        None => return None,
    };
    gas.low_u64()
}

pub fn verylowcopy_cost(len: Word) -> (r: Option<u64>)
    ensures
        r == fit_u64(VERYLOW + COPY * ceil_words(len.val())),
{
    per_word_cost(VERYLOW, COPY, len)
}

pub fn sha3_cost(len: Word) -> (r: Option<u64>)
    ensures
        r == fit_u64(SHA3 + SHA3WORD * ceil_words(len.val())),
{
    per_word_cost(SHA3, SHA3WORD, len)
}

/// The cost of reaching an account: cold or warm from Berlin on, a flat
/// price before.
pub open spec fn account_access_spec(spec_id: SpecId, is_cold: bool) -> u64 {
    if spec_id.is_enabled(SpecId::BERLIN) {
        if is_cold { ACCOUNT_ACCESS_COLD } else { STORAGE_READ_WARM }
    } else if spec_id.is_enabled(SpecId::ISTANBUL) {
        700
    } else {
        20
    }
}

pub fn extcodecopy_cost(spec_id: SpecId, len: Word, is_cold: bool) -> (r: Option<u64>)
    ensures
        r == fit_u64(account_access_spec(spec_id, is_cold) + COPY * ceil_words(len.val())),
{
    per_word_cost(account_access_gas(spec_id, is_cold), COPY, len)
}

pub fn account_access_gas(spec_id: SpecId, is_cold: bool) -> (r: u64)
    ensures
        r == account_access_spec(spec_id, is_cold),
{
    if spec_id.enabled(SpecId::BERLIN) {
        if is_cold {
            ACCOUNT_ACCESS_COLD
        } else {
            STORAGE_READ_WARM
        }
    } else if spec_id.enabled(SpecId::ISTANBUL) {
        700
    } else {
        20
    }
}

pub fn log_cost(n: u8, len: Word) -> (r: Option<u64>)
    ensures
        r == fit_u64(LOG + LOGDATA * len.val() + LOGTOPIC * n),
{
    let ghost total = LOG + LOGDATA * len.val() + LOGTOPIC * n;
    let data = match Word::from_u64(LOGDATA).checked_mul(len) {
        Some(v) => v,
        None => {
            assert(total > u64::MAX);
            return None;
        },
    };
    let with_data = match Word::from_u64(LOG).checked_add(data) {
        Some(v) => v,
        None => return None,
    };
    let gas = match with_data.checked_add(Word::from_u64(LOGTOPIC * n as u64)) {
        Some(v) => v,
        None => return None,
    };
    gas.low_u64()
}

/// The cost of a storage read.
pub open spec fn sload_spec(spec_id: SpecId, is_cold: bool) -> u64 {
    if spec_id.is_enabled(SpecId::BERLIN) {
        if is_cold { SLOAD_COLD } else { STORAGE_READ_WARM }
    } else if spec_id.is_enabled(SpecId::ISTANBUL) {
        800
    } else if spec_id.is_enabled(SpecId::TANGERINE) {
        200
    } else {
        50
    }
}

pub fn sload_cost(spec_id: SpecId, is_cold: bool) -> (r: u64)
    ensures
        r == sload_spec(spec_id, is_cold),
{
    if spec_id.enabled(SpecId::BERLIN) {
        if is_cold {
            SLOAD_COLD
        } else {
            STORAGE_READ_WARM
        }
    } else if spec_id.enabled(SpecId::ISTANBUL) {
        800
    } else if spec_id.enabled(SpecId::TANGERINE) {
        200
    } else {
        50
    }
}

pub fn hot_cold_cost(spec_id: SpecId, is_cold: bool, regular_value: u64) -> (r: u64)
    ensures
        spec_id.is_enabled(SpecId::BERLIN) ==> r == (if is_cold {
            ACCOUNT_ACCESS_COLD
        } else {
            STORAGE_READ_WARM
        }),
        !spec_id.is_enabled(SpecId::BERLIN) ==> r == regular_value,
{
    if spec_id.enabled(SpecId::BERLIN) {
        if is_cold {
            ACCOUNT_ACCESS_COLD
        } else {
            STORAGE_READ_WARM
        }
    } else {
        regular_value
    }
}

/// `min(x, u64::MAX)`.
pub open spec fn saturate(x: int) -> int {
    if x > u64::MAX { u64::MAX as int } else { x }
}

/// The cost of `a` words of memory, each step saturating at `u64::MAX`.
pub fn memory_gas(a: usize) -> (r: u64)
    ensures
        r == saturate(saturate(MEMORY * a) + saturate(a * a) / 512),
{
    let a = a as u64;
    let linear = match MEMORY.checked_mul(a) {
        Some(v) => v,
        None => u64::MAX,
    };
    let square = match a.checked_mul(a) {
        Some(v) => v,
        None => u64::MAX,
    };
    linear.saturating_add(square / 512)
}

/// The price of `EXP`: a base plus a price for each byte of the exponent.
pub open spec fn exp_spec(spec_id: SpecId, power: Word) -> u64 {
    let gas_byte: int = if spec_id.is_enabled(SpecId::SPURIOUS_DRAGON) { 50 } else { 10 };
    if power.val() == 0 {
        EXP
    } else {
        (EXP + gas_byte * power.byte_count()) as u64
    }
}

pub fn exp_cost(spec_id: SpecId, power: Word) -> (r: Option<u64>)
    ensures
        r == Some(exp_spec(spec_id, power)),
{
    if power.is_zero() {
        Some(EXP)
    } else {
        let gas_byte = Word::from_u64(
            if spec_id.enabled(SpecId::SPURIOUS_DRAGON) {
                50
            } else {
                10
            },
        );
        let bytes = power.byte_len();
        let per_byte = match gas_byte.checked_mul(Word::from_u64(bytes)) {
            Some(v) => v,
            None => {
                assert(gas_byte.val() * bytes <= 50 * 32) by (nonlinear_arith)
                    requires gas_byte.val() <= 50, bytes <= 32;
                assert(false);
                return None;
            },
        };
        let gas = match Word::from_u64(EXP).checked_add(per_byte) {
            Some(v) => v,
            None => {
                assert(gas_byte.val() * bytes <= 50 * 32) by (nonlinear_arith)
                    requires gas_byte.val() <= 50, bytes <= 32;
                return None;
            },
        };
        assert(gas_byte.val() * bytes <= 50 * 32) by (nonlinear_arith)
            requires gas_byte.val() <= 50, bytes <= 32;
        gas.low_u64()
    }
}

/// What a self-destruct found, as far as its price depends on it.
#[derive(Clone, Copy, Debug, PartialEq, Eq, Structural)]
pub struct SelfDestructResult {
    pub had_value: bool,
    pub exists: bool,
    pub is_cold: bool,
    pub previously_destroyed: bool,
}

/// Whether a self-destruct pays for creating its beneficiary.
pub open spec fn selfdestruct_topup(spec_id: SpecId, res: SelfDestructResult) -> bool {
    if spec_id.is_enabled(SpecId::ISTANBUL) {
        res.had_value && !res.exists
    } else {
        !res.exists
    }
}

pub fn selfdestruct_cost(spec_id: SpecId, res: SelfDestructResult) -> (r: u64)
    ensures
        r == (if spec_id.is_enabled(SpecId::TANGERINE) { 5000int } else { 0int }) + (if spec_id.is_enabled(
            SpecId::TANGERINE,
        ) && selfdestruct_topup(spec_id, res) {
            25000int
        } else {
            0int
        }) + (if spec_id.is_enabled(SpecId::BERLIN) && res.is_cold {
            ACCOUNT_ACCESS_COLD as int
        } else {
            0int
        }),
{
    let should_charge_topup = if spec_id.enabled(SpecId::ISTANBUL) {
        res.had_value && !res.exists
    } else {
        !res.exists
    };
    let selfdestruct_gas_topup: u64 = if should_charge_topup {
        if spec_id.enabled(SpecId::TANGERINE) {
            25000
        } else {
            0
        }
    } else {
        0
    };
    let selfdestruct_gas: u64 = if spec_id.enabled(SpecId::TANGERINE) {
        5000
    } else {
        0
    };
    let mut gas = selfdestruct_gas + selfdestruct_gas_topup;
    if spec_id.enabled(SpecId::BERLIN) && res.is_cold {
        gas = gas + ACCOUNT_ACCESS_COLD;
    }
    gas
}

/// The price of moving value along a call.
pub fn xfer_cost(is_call_or_callcode: bool, transfers_value: bool) -> (r: u64)
    ensures
        r == (if is_call_or_callcode && transfers_value { CALLVALUE } else { 0 }),
{
    if is_call_or_callcode && transfers_value {
        CALLVALUE
    } else {
        0
    }
}

/// Whether a call pays for creating its target account.
pub open spec fn pays_new_account(
    spec_id: SpecId,
    is_call_or_staticcall: bool,
    is_new: bool,
    transfers_value: bool,
) -> bool {
    is_call_or_staticcall && is_new && (transfers_value || !spec_id.is_enabled(SpecId::ISTANBUL))
}

/// The price of creating the target account of a call.
pub fn new_cost(spec_id: SpecId, is_call_or_staticcall: bool, is_new: bool, transfers_value: bool) -> (r: u64)
    ensures
        r == (if pays_new_account(spec_id, is_call_or_staticcall, is_new, transfers_value) {
            NEWACCOUNT
        } else {
            0
        }),
{
    if is_call_or_staticcall {
        if spec_id.enabled(SpecId::ISTANBUL) {
            if transfers_value && is_new {
                NEWACCOUNT
            } else {
                0
            }
        } else if is_new {
            NEWACCOUNT
        } else {
            0
        }
    } else {
        0
    }
}

/// The base price of a call, by upgrade and warmth of the target.
pub open spec fn call_base_spec(spec_id: SpecId, is_cold: bool) -> u64 {
    if spec_id.is_enabled(SpecId::BERLIN) {
        if is_cold { ACCOUNT_ACCESS_COLD } else { STORAGE_READ_WARM }
    } else if spec_id.is_enabled(SpecId::TANGERINE) {
        700
    } else {
        40
    }
}

pub fn call_cost(
    spec_id: SpecId,
    value: Word,
    is_new: bool,
    is_cold: bool,
    is_call_or_callcode: bool,
    is_call_or_staticcall: bool,
) -> (r: u64)
    ensures
        r == call_base_spec(spec_id, is_cold) + (if is_call_or_callcode && value.val() != 0 {
            CALLVALUE as int
        } else {
            0int
        }) + (if pays_new_account(spec_id, is_call_or_staticcall, is_new, value.val() != 0) {
            NEWACCOUNT as int
        } else {
            0int
        }),
{
    let transfers_value = !value.is_zero();
    let call_gas = if spec_id.enabled(SpecId::BERLIN) {
        if is_cold {
            ACCOUNT_ACCESS_COLD
        } else {
            STORAGE_READ_WARM
        }
    } else if spec_id.enabled(SpecId::TANGERINE) {
        700
    } else {
        40
    };
    call_gas + xfer_cost(is_call_or_callcode, transfers_value) + new_cost(
        spec_id,
        is_call_or_staticcall,
        is_new,
        transfers_value,
    )
}

/// The price of a storage write, or `None` where too little gas is left
/// (from Constantinople on, no more than the call stipend).
pub open spec fn sstore_spec(
    spec_id: SpecId,
    original: Word,
    current: Word,
    new: Word,
    gas: u64,
    is_cold: bool,
) -> Option<u64> {
    let berlin = spec_id.is_enabled(SpecId::BERLIN);
    let gas_sload = if berlin { STORAGE_READ_WARM } else { sload_spec(spec_id, is_cold) };
    let gas_sstore_reset = if berlin { (SSTORE_RESET - SLOAD_COLD) as u64 } else { SSTORE_RESET };
    let cost = if spec_id.is_enabled(SpecId::CONSTANTINOPLE) {
        if new == current {
            gas_sload
        } else if original == current {
            if original.val() == 0 { SSTORE_SET } else { gas_sstore_reset }
        } else {
            gas_sload
        }
    } else if current.val() == 0 && new.val() != 0 {
        SSTORE_SET
    } else {
        gas_sstore_reset
    };
    if spec_id.is_enabled(SpecId::CONSTANTINOPLE) && gas <= CALL_STIPEND {
        None
    } else if berlin && is_cold {
        Some((cost + SLOAD_COLD) as u64)
    } else {
        Some(cost)
    }
}

pub fn sstore_cost(
    spec_id: SpecId,
    original: Word,
    current: Word,
    new: Word,
    gas: u64,
    is_cold: bool,
) -> (r: Option<u64>)
    ensures
        r == sstore_spec(spec_id, original, current, new, gas, is_cold),
{
    let (gas_sload, gas_sstore_reset) = if spec_id.enabled(SpecId::BERLIN) {
        (STORAGE_READ_WARM, SSTORE_RESET - SLOAD_COLD)
    } else {
        (sload_cost(spec_id, is_cold), SSTORE_RESET)
    };
    let gas_cost = if spec_id.enabled(SpecId::CONSTANTINOPLE) {
        if gas <= CALL_STIPEND {
            return None;
        }
        if new == current {
            gas_sload
        } else if original == current {
            if original.is_zero() {
                SSTORE_SET
            } else {
                gas_sstore_reset
            }
        } else {
            gas_sload
        }
    } else if current.is_zero() && !new.is_zero() {
        SSTORE_SET
    } else {
        gas_sstore_reset
    };
    if spec_id.enabled(SpecId::BERLIN) && is_cold {
        Some(gas_cost + SLOAD_COLD)
    } else {
        Some(gas_cost)
    }
}

/// The refund of a storage write.
pub open spec fn sstore_refund_spec(spec_id: SpecId, original: Word, current: Word, new: Word) -> int {
    if spec_id.is_enabled(SpecId::ISTANBUL) {
        let clears: int = if spec_id.is_enabled(SpecId::LONDON) {
            SSTORE_RESET - SLOAD_COLD + ACCESS_LIST_STORAGE_KEY
        } else {
            REFUND_SSTORE_CLEARS as int
        };
        if current == new {
            0
        } else if original == current && new.val() == 0 {
            clears
        } else {
            let clear_part: int = if original.val() != 0 && current.val() == 0 {
                -clears
            } else if original.val() != 0 && new.val() == 0 {
                clears
            } else {
                0
            };
            let (reset, sload): (int, int) = if spec_id.is_enabled(SpecId::BERLIN) {
                (SSTORE_RESET - SLOAD_COLD, STORAGE_READ_WARM as int)
            } else {
                (SSTORE_RESET as int, sload_spec(spec_id, false) as int)
            };
            let restore_part: int = if original == new {
                if original.val() == 0 { SSTORE_SET - sload } else { reset - sload }
            } else {
                0
            };
            clear_part + restore_part
        }
    } else if current.val() != 0 && new.val() == 0 {
        REFUND_SSTORE_CLEARS as int
    } else {
        0
    }
}

pub fn sstore_refund(spec_id: SpecId, original: Word, current: Word, new: Word) -> (r: i64)
    ensures
        r == sstore_refund_spec(spec_id, original, current, new),
{
    if spec_id.enabled(SpecId::ISTANBUL) {
        let sstore_clears_schedule: i64 = if spec_id.enabled(SpecId::LONDON) {
            (SSTORE_RESET - SLOAD_COLD + ACCESS_LIST_STORAGE_KEY) as i64
        } else {
            REFUND_SSTORE_CLEARS
        };
        if current == new {
            0
        } else if original == current && new.is_zero() {
            sstore_clears_schedule
        } else {
            let mut refund: i64 = 0;
            if !original.is_zero() {
                if current.is_zero() {
                    refund = refund - sstore_clears_schedule;
                } else if new.is_zero() {
                    refund = refund + sstore_clears_schedule;
                }
            }
            if original == new {
                let (gas_sstore_reset, gas_sload) = if spec_id.enabled(SpecId::BERLIN) {
                    (SSTORE_RESET - SLOAD_COLD, STORAGE_READ_WARM)
                } else {
                    (SSTORE_RESET, sload_cost(spec_id, false))
                };
                if original.is_zero() {
                    refund = refund + (SSTORE_SET - gas_sload) as i64;
                } else {
                    refund = refund + (gas_sstore_reset - gas_sload) as i64;
                }
            }
            refund
        }
    } else if !current.is_zero() && new.is_zero() {
        REFUND_SSTORE_CLEARS
    } else {
        0
    }
}

} // verus!
