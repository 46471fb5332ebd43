use vstd::prelude::*;

use crate::error::Trap;
use crate::params::GasCosts;

verus! {

/// The gas budget of one running invocation.
///
/// `used` never exceeds `limit`. Once a charge is refused the meter is
/// exhausted and refuses every later charge.
#[derive(Clone, Copy, Debug, PartialEq, Eq, Structural)]
pub struct GasMeter {
    pub limit: u64,
    pub used: u64,
    pub exhausted: bool,
}

/// `base + key_len * key_byte`, the price of a storage lookup.
pub open spec fn storage_get_cost(c: GasCosts, key_len: int) -> int {
    c.wasm_storage_get_base + key_len * c.wasm_storage_key_byte
}

/// `base + key_len * key_byte + value_len * value_byte`, the price of a write.
pub open spec fn storage_insert_cost(c: GasCosts, key_len: int, value_len: int) -> int {
    c.wasm_storage_insert_base + key_len * c.wasm_storage_key_byte + value_len
        * c.wasm_storage_value_byte
}

/// `base + key_len * key_byte`, the price of a removal.
pub open spec fn storage_remove_cost(c: GasCosts, key_len: int) -> int {
    c.wasm_storage_remove_base + key_len * c.wasm_storage_key_byte
}

/// `value_len * value_byte`, charged when a lookup finds a value.
pub open spec fn storage_value_cost(c: GasCosts, value_len: int) -> int {
    value_len * c.wasm_storage_value_byte
}

/// A price as a `u64`, or `None` when it does not fit.
pub open spec fn fit_u64(x: int) -> Option<u64> {
    if x <= u64::MAX {
        Some(x as u64)
    } else {
        None
    }
}

impl GasMeter {
    pub open spec fn wf(self) -> bool {
        self.used <= self.limit
    }

    pub open spec fn new_spec(limit: u64) -> GasMeter {
        GasMeter { limit, used: 0, exhausted: false }
    }

    /// Whether `amount` can still be charged.
    pub open spec fn can_charge(self, amount: int) -> bool {
        !self.exhausted && amount <= self.limit - self.used
    }

    /// The meter after an attempt to charge `amount`.
    pub open spec fn charged(self, amount: int) -> GasMeter {
        if self.can_charge(amount) {
            GasMeter { limit: self.limit, used: (self.used + amount) as u64, exhausted: false }
        } else {
            GasMeter { limit: self.limit, used: self.used, exhausted: true }
        }
    }

    /// A fresh meter with nothing used.
    pub fn new(limit: u64) -> (r: GasMeter)
        ensures
            r == GasMeter::new_spec(limit),
            r.wf(),
    {
        GasMeter { limit, used: 0, exhausted: false }
    }

    /// Gas still available, zero once exhausted.
    pub fn remaining(&self) -> (r: u64)
        requires
            self.wf(),
        ensures
            r == (if self.exhausted { 0 } else { self.limit - self.used }),
    {
        if self.exhausted {
            0
        } else {
            self.limit - self.used
        }
    }

    /// Charge `amount`; refused, and the meter exhausted, when it would cross
    /// the limit. A refused charge adds nothing to `used`.
    pub fn use_gas(&mut self, amount: u64) -> (r: Result<(), Trap>)
        requires
            old(self).wf(),
        ensures
            *final(self) == old(self).charged(amount as int),
            final(self).wf(),
            r == (if old(self).can_charge(amount as int) {
                Ok::<(), Trap>(())
            } else {
                Err(Trap::OutOfGas)
            }),
    {
        if self.exhausted || amount > self.limit - self.used {
            self.exhausted = true;
            Err(Trap::OutOfGas)
        } else {
            self.used = self.used + amount;
            Ok(())
        }
    }
}

/// `base + len * per_byte`, if it fits in a `u64`.
fn base_plus_bytes(base: u64, per_byte: u64, len: u64) -> (r: Option<u64>)
    ensures
        r == fit_u64(base + len * per_byte),
{
    proof {
        assert(len as int * per_byte == per_byte * len as int) by (nonlinear_arith);
    }
    match per_byte.checked_mul(len) {
        Some(bytes) => base.checked_add(bytes),
        None => None,
    }
}

/// Price of `storage.get` before the value is known, if it fits in a `u64`.
pub fn storage_get_gas(c: &GasCosts, key_len: u32) -> (r: Option<u64>)
    ensures
        r == fit_u64(storage_get_cost(*c, key_len as int)),
{
    base_plus_bytes(c.wasm_storage_get_base, c.wasm_storage_key_byte, key_len as u64)
}

/// Price of `storage.remove`, if it fits in a `u64`.
pub fn storage_remove_gas(c: &GasCosts, key_len: u32) -> (r: Option<u64>)
    ensures
        r == fit_u64(storage_remove_cost(*c, key_len as int)),
{
    base_plus_bytes(c.wasm_storage_remove_base, c.wasm_storage_key_byte, key_len as u64)
}

/// Price of `storage.insert`, if it fits in a `u64`.
pub fn storage_insert_gas(c: &GasCosts, key_len: u32, value_len: u32) -> (r: Option<u64>)
    ensures
        r == fit_u64(storage_insert_cost(*c, key_len as int, value_len as int)),
{
    let with_key = base_plus_bytes(c.wasm_storage_insert_base, c.wasm_storage_key_byte, key_len as u64);
    match with_key {
        Some(with_key) => base_plus_bytes(with_key, c.wasm_storage_value_byte, value_len as u64),
        None => {
            proof {
                assert(0 <= value_len as int * c.wasm_storage_value_byte) by (nonlinear_arith);
                assert(0 <= key_len as int * c.wasm_storage_key_byte) by (nonlinear_arith);
            }
            None
        },
    }
}

/// Price of the value that a lookup found, if it fits in a `u64`.
pub fn storage_value_gas(c: &GasCosts, value_len: usize) -> (r: Option<u64>)
    ensures
        r == fit_u64(storage_value_cost(*c, value_len as int)),
{
    base_plus_bytes(0, c.wasm_storage_value_byte, value_len as u64)
}

/// The sum of `amounts`.
pub open spec fn total(amounts: Seq<u64>) -> int
    decreases amounts.len(),
{
    if amounts.len() == 0 {
        0
    } else {
        total(amounts.drop_last()) + amounts.last()
    }
}

/// The meter after charging `amounts` in order; a refused charge exhausts it,
/// and every later charge is refused too.
pub open spec fn charge_all(g: GasMeter, amounts: Seq<u64>) -> GasMeter
    decreases amounts.len(),
{
    if amounts.len() == 0 {
        g
    } else {
        charge_all(g, amounts.drop_last()).charged(amounts.last() as int)
    }
}

/// The budget is never exceeded. Charging a sequence from a fresh meter uses
/// exactly its sum where that fits the limit. Otherwise the charge that
/// crosses the limit is the first refused one, the meter ends exhausted, and
/// what it reports as used is the sum of the charges before that one.
pub proof fn lemma_budget_never_exceeded(limit: u64, amounts: Seq<u64>)
    ensures
        charge_all(GasMeter::new_spec(limit), amounts).wf(),
        total(amounts) <= limit ==> charge_all(GasMeter::new_spec(limit), amounts) == (GasMeter {
            limit,
            used: total(amounts) as u64,
            exhausted: false,
        }),
        total(amounts) > limit ==> exists|k: int|
            0 <= k < amounts.len() && total(#[trigger] amounts.take(k)) <= limit && total(amounts.take(k + 1)) > limit
                && charge_all(GasMeter::new_spec(limit), amounts) == (GasMeter {
                limit,
                used: total(amounts.take(k)) as u64,
                exhausted: true,
            }),
    decreases amounts.len(),
{
    if amounts.len() > 0 {
        let init = amounts.drop_last();
        lemma_budget_never_exceeded(limit, init);
        lemma_total_nonneg(init);
        assert(amounts.take(amounts.len() - 1) =~= init);
        assert(amounts.take(amounts.len() as int) =~= amounts);
        if total(init) > limit {
            let k = choose|k: int|
                0 <= k < init.len() && total(#[trigger] init.take(k)) <= limit && total(init.take(k + 1)) > limit
                    && charge_all(GasMeter::new_spec(limit), init) == (GasMeter {
                    limit,
                    used: total(init.take(k)) as u64,
                    exhausted: true,
                });
            assert(amounts.take(k) =~= init.take(k));
            assert(amounts.take(k + 1) =~= init.take(k + 1));
        }
    }
}

proof fn lemma_total_nonneg(amounts: Seq<u64>)
    ensures
        total(amounts) >= 0,
    decreases amounts.len(),
{
    if amounts.len() > 0 {
        lemma_total_nonneg(amounts.drop_last());
    }
}

} // verus!
