use vstd::prelude::*;

use crate::error::Trap;
use crate::gas::{
    fit_u64, storage_get_cost, storage_get_gas, storage_insert_cost, storage_insert_gas,
    storage_remove_cost, storage_remove_gas, storage_value_cost, storage_value_gas, GasMeter,
};
use crate::memory::{overwrite, region_of, Region};
use crate::params::Parameters;
use crate::store::{store_kind_from_tag, store_kind_of, ContractState, ScopedKey};

verus! {

/// What one invocation carries into the host functions it calls.
pub struct ExecutionContext {
    pub params: Parameters,
    /// The running instance; its storage is scoped by this identity.
    pub instance_id: u64,
    pub gas: GasMeter,
    pub state: ContractState,
    /// Whether the context is attached to the running call. It is unset while
    /// the host calls back into the guest, so that the guest cannot re-enter.
    pub active: bool,
}

impl ExecutionContext {
    pub open spec fn wf(&self) -> bool {
        self.gas.wf() && self.state.wf()
    }

    /// `other` differs from `self` at most in its gas meter and its state.
    pub open spec fn same_frame(&self, other: &ExecutionContext) -> bool {
        &&& other.params == self.params
        &&& other.instance_id == self.instance_id
        &&& other.active == self.active
        &&& other.wf()
    }

    /// A context attached to a call of `instance_id` with a fresh gas budget.
    pub fn new(params: Parameters, instance_id: u64, gas_limit: u64, state: ContractState) -> (r: ExecutionContext)
        requires
            state.wf(),
        ensures
            r.wf(),
            r.params == params,
            r.instance_id == instance_id,
            r.gas == GasMeter::new_spec(gas_limit),
            r.state@ == state@,
            r.active,
    {
        ExecutionContext { params, instance_id, gas: GasMeter::new(gas_limit), state, active: true }
    }
}

/// Bytes in one page of guest linear memory.
pub const WASM_PAGE_SIZE: u64 = 65536;

/// Whether guest memory of `len` bytes stays within the configured number of pages.
pub fn memory_within_limit(params: &Parameters, len: usize) -> (r: bool)
    ensures
        r == (len <= params.max_memory_pages * WASM_PAGE_SIZE),
{
    (len as u64) <= (params.max_memory_pages as u64) * WASM_PAGE_SIZE
}

/// Make sure that a key size is within the configured maximum.
pub fn ensure_key_size(params: &Parameters, size: u32) -> (r: Result<(), Trap>)
    ensures
        r is Ok <==> size <= params.max_storage_key_size_bytes,
        r is Err ==> r == Err::<(), Trap>(Trap::Abort),
{
    if size > params.max_storage_key_size_bytes {
        return Err(Trap::Abort);
    }
    Ok(())
}

/// Make sure that a value size is within the configured maximum.
pub fn ensure_value_size(params: &Parameters, size: u32) -> (r: Result<(), Trap>)
    ensures
        r is Ok <==> size <= params.max_storage_value_size_bytes,
        r is Err ==> r == Err::<(), Trap>(Trap::Abort),
{
    if size > params.max_storage_value_size_bytes {
        return Err(Trap::Abort);
    }
    Ok(())
}

/// What `storage.get` hands back to the guest for a found value: the value is
/// copied to `target`, a buffer that the guest allocated for it, and the
/// guest receives `(target, length)`. An absent value is `(0, 0)`.
pub fn place_value(memory: &mut Vec<u8>, target: u32, value: &Option<Vec<u8>>) -> (r: Result<(u32, u32), Trap>)
    ensures
        match value {
            None => r == Ok::<(u32, u32), Trap>((0, 0)) && final(memory)@ == old(memory)@,
            Some(v) => match r {
                Ok(reg) => {
                    &&& reg == (target, v@.len() as u32)
                    &&& v@.len() <= u32::MAX
                    &&& region_of(reg).fits(old(memory)@.len() as int)
                    &&& final(memory)@ == overwrite(old(memory)@, target as int, v@)
                },
                Err(t) => {
                    &&& t == Trap::Abort
                    &&& final(memory)@ == old(memory)@
                    &&& !(v@.len() <= u32::MAX && target + v@.len() <= old(memory)@.len())
                },
            },
        },
{
    match value {
        None => Ok((0, 0)),
        Some(v) => {
            if v.len() > u32::MAX as usize {
                return Err(Trap::Abort);
            }
            let region = Region::from_arg((target, v.len() as u32));
            match region.write(memory, v) {
                Ok(()) => Ok((target, v.len() as u32)),
                Err(_) => Err(Trap::Abort),
            }
        },
    }
}

/// What a storage call returns and the gas meter after it.
pub type StorageOutcome<T> = (Result<T, Trap>, GasMeter);

/// The meter after charging `price`, and the error where that fails or the
/// price overflows.
pub open spec fn charge_outcome(g: GasMeter, price: int) -> (Option<Trap>, GasMeter) {
    if price > u64::MAX {
        (Some(Trap::Abort), g)
    } else if !g.can_charge(price) {
        (Some(Trap::OutOfGas), g.charged(price))
    } else {
        (None, g.charged(price))
    }
}

/// `storage.get(store, key)`: what it returns and the meter after it.
pub open spec fn storage_get_spec(ec: ExecutionContext, memory: Seq<u8>, store: u32, key: (u32, u32))
    -> StorageOutcome<Option<Seq<u8>>> {
    let key_r = Region { offset: key.0, length: key.1 };
    let (err, g1) = charge_outcome(ec.gas, storage_get_cost(ec.params.gas_costs, key.1 as int));
    if !ec.active || key.1 > ec.params.max_storage_key_size_bytes {
        (Err(Trap::Abort), ec.gas)
    } else if err.is_some() {
        (Err(err.unwrap()), g1)
    } else if !key_r.fits(memory.len() as int) || store_kind_of(store).is_none() {
        (Err(Trap::Abort), g1)
    } else {
        let k = (ec.instance_id, store_kind_of(store).unwrap(), key_r.bytes_of(memory));
        if !ec.state@.contains_key(k) {
            (Ok(None), g1)
        } else {
            let v = ec.state@[k];
            let (err2, g2) = charge_outcome(g1, storage_value_cost(ec.params.gas_costs, v.len() as int));
            if err2.is_some() {
                (Err(err2.unwrap()), g2)
            } else {
                (Ok(Some(v)), g2)
            }
        }
    }
}

/// Charge `price` (`None` where it overflowed) to the context's meter.
fn charge(ec: &mut ExecutionContext, price: Option<u64>, Ghost(exact): Ghost<int>) -> (r: Result<(), Trap>)
    requires
        old(ec).wf(),
        0 <= exact,
        price == fit_u64(exact),
    ensures
        old(ec).same_frame(final(ec)),
        final(ec).state == old(ec).state,
        (match r { Ok(()) => None, Err(t) => Some(t) }, final(ec).gas) == charge_outcome(old(ec).gas, exact),
{
    match price {
        Some(p) => ec.gas.use_gas(p),
        None => Err(Trap::Abort),
    }
}

/// Host function `storage.get`: the value under the guest's key, charged at
/// `base + key bytes`, and the value's bytes on top where one is found. The
/// caller copies a found value into a buffer that the guest allocates.
pub fn storage_get(ec: &mut ExecutionContext, memory: &Vec<u8>, store: u32, key: (u32, u32))
    -> (r: Result<Option<Vec<u8>>, Trap>)
    requires
        old(ec).wf(),
    ensures
        old(ec).same_frame(final(ec)),
        final(ec).state@ == old(ec).state@,
        final(ec).gas == storage_get_spec(*old(ec), memory@, store, key).1,
        storage_get_spec(*old(ec), memory@, store, key).0 == match r {
            Ok(Some(v)) => Ok(Some(v@)),
            Ok(None) => Ok(None),
            Err(t) => Err(t),
        },
{
    if !ec.active {
        return Err(Trap::Abort);
    }
    ensure_key_size(&ec.params, key.1)?;
    let price = storage_get_gas(&ec.params.gas_costs, key.1);
    proof {
        lemma_price_nonneg(ec.params.gas_costs.wasm_storage_key_byte as int, key.1 as int);
    }
    charge(ec, price, Ghost(storage_get_cost(ec.params.gas_costs, key.1 as int)))?;
    let key_bytes = match Region::from_arg(key).as_slice(memory) {
        Ok(b) => b,
        Err(_) => return Err(Trap::Abort),
    };
    let kind = match store_kind_from_tag(store) {
        Some(k) => k,
        None => return Err(Trap::Abort),
    };
    let value = match ec.state.get(ec.instance_id, kind, &key_bytes) {
        Some(v) => v,
        None => return Ok(None),
    };
    let vprice = storage_value_gas(&ec.params.gas_costs, value.len());
    proof {
        lemma_price_nonneg(ec.params.gas_costs.wasm_storage_value_byte as int, value@.len() as int);
    }
    charge(ec, vprice, Ghost(storage_value_cost(ec.params.gas_costs, value@.len() as int)))?;
    Ok(Some(value))
}

/// `storage.insert(store, key, value)`: what it returns, the meter and the state after it.
pub open spec fn storage_insert_spec(
    ec: ExecutionContext,
    memory: Seq<u8>,
    store: u32,
    key: (u32, u32),
    value: (u32, u32),
) -> (Result<(), Trap>, GasMeter, Map<ScopedKey, Seq<u8>>) {
    let key_r = Region { offset: key.0, length: key.1 };
    let value_r = Region { offset: value.0, length: value.1 };
    let (err, g1) = charge_outcome(
        ec.gas,
        storage_insert_cost(ec.params.gas_costs, key.1 as int, value.1 as int),
    );
    if !ec.active || key.1 > ec.params.max_storage_key_size_bytes || value.1
        > ec.params.max_storage_value_size_bytes {
        (Err(Trap::Abort), ec.gas, ec.state@)
    } else if err.is_some() {
        (Err(err.unwrap()), g1, ec.state@)
    } else if !key_r.fits(memory.len() as int) || !value_r.fits(memory.len() as int)
        || store_kind_of(store).is_none() {
        (Err(Trap::Abort), g1, ec.state@)
    } else {
        let k = (ec.instance_id, store_kind_of(store).unwrap(), key_r.bytes_of(memory));
        (Ok(()), g1, ec.state@.insert(k, value_r.bytes_of(memory)))
    }
}

/// `storage.remove(store, key)`: what it returns, the meter and the state after it.
pub open spec fn storage_remove_spec(ec: ExecutionContext, memory: Seq<u8>, store: u32, key: (u32, u32))
    -> (Result<(), Trap>, GasMeter, Map<ScopedKey, Seq<u8>>) {
    let key_r = Region { offset: key.0, length: key.1 };
    let (err, g1) = charge_outcome(ec.gas, storage_remove_cost(ec.params.gas_costs, key.1 as int));
    if !ec.active || key.1 > ec.params.max_storage_key_size_bytes {
        (Err(Trap::Abort), ec.gas, ec.state@)
    } else if err.is_some() {
        (Err(err.unwrap()), g1, ec.state@)
    } else if !key_r.fits(memory.len() as int) || store_kind_of(store).is_none() {
        (Err(Trap::Abort), g1, ec.state@)
    } else {
        let k = (ec.instance_id, store_kind_of(store).unwrap(), key_r.bytes_of(memory));
        (Ok(()), g1, ec.state@.remove(k))
    }
}

/// Host function `storage.insert`: write the guest's value under its key,
/// charged at `base + key bytes + value bytes` before the write.
pub fn storage_insert(
    ec: &mut ExecutionContext,
    memory: &Vec<u8>,
    store: u32,
    key: (u32, u32),
    value: (u32, u32),
) -> (r: Result<(), Trap>)
    requires
        old(ec).wf(),
    ensures
        old(ec).same_frame(final(ec)),
        (r, final(ec).gas, final(ec).state@) == storage_insert_spec(*old(ec), memory@, store, key, value),
{
    if !ec.active {
        return Err(Trap::Abort);
    }
    ensure_key_size(&ec.params, key.1)?;
    ensure_value_size(&ec.params, value.1)?;
    let price = storage_insert_gas(&ec.params.gas_costs, key.1, value.1);
    proof {
        lemma_price_nonneg(ec.params.gas_costs.wasm_storage_key_byte as int, key.1 as int);
        lemma_price_nonneg(ec.params.gas_costs.wasm_storage_value_byte as int, value.1 as int);
    }
    charge(ec, price, Ghost(storage_insert_cost(ec.params.gas_costs, key.1 as int, value.1 as int)))?;
    let key_bytes = match Region::from_arg(key).as_slice(memory) {
        Ok(b) => b,
        Err(_) => return Err(Trap::Abort),
    };
    let value_bytes = match Region::from_arg(value).as_slice(memory) {
        Ok(b) => b,
        Err(_) => return Err(Trap::Abort),
    };
    let kind = match store_kind_from_tag(store) {
        Some(k) => k,
        None => return Err(Trap::Abort),
    };
    ec.state.insert(ec.instance_id, kind, &key_bytes, &value_bytes);
    Ok(())
}

/// Host function `storage.remove`: delete the guest's key, charged at
/// `base + key bytes` before the removal.
pub fn storage_remove(ec: &mut ExecutionContext, memory: &Vec<u8>, store: u32, key: (u32, u32))
    -> (r: Result<(), Trap>)
    requires
        old(ec).wf(),
    ensures
        old(ec).same_frame(final(ec)),
        (r, final(ec).gas, final(ec).state@) == storage_remove_spec(*old(ec), memory@, store, key),
{
    if !ec.active {
        return Err(Trap::Abort);
    }
    ensure_key_size(&ec.params, key.1)?;
    let price = storage_remove_gas(&ec.params.gas_costs, key.1);
    proof {
        lemma_price_nonneg(ec.params.gas_costs.wasm_storage_key_byte as int, key.1 as int);
    }
    charge(ec, price, Ghost(storage_remove_cost(ec.params.gas_costs, key.1 as int)))?;
    let key_bytes = match Region::from_arg(key).as_slice(memory) {
        Ok(b) => b,
        Err(_) => return Err(Trap::Abort),
    };
    let kind = match store_kind_from_tag(store) {
        Some(k) => k,
        None => return Err(Trap::Abort),
    };
    ec.state.remove(ec.instance_id, kind, &key_bytes);
    Ok(())
}

proof fn lemma_price_nonneg(per_byte: int, len: int)
    requires
        0 <= per_byte,
        0 <= len,
    ensures
        0 <= len * per_byte,
{
    assert(0 <= len * per_byte) by (nonlinear_arith)
        requires
            0 <= per_byte,
            0 <= len,
    ;
}

/// A storage call that went through leaves the context's frame as it was,
/// with `gas` as its meter and `state` as its contents.
pub open spec fn after_call(ec: ExecutionContext, next: ExecutionContext, gas: GasMeter, state: Map<ScopedKey, Seq<u8>>) -> bool {
    &&& ec.same_frame(&next)
    &&& next.gas == gas
    &&& next.state@ == state
}

/// A value that `storage.insert` wrote is what a later `storage.get` of the
/// same key in the same store returns, wherever the guest holds the key, as
/// long as the budget covers the lookup.
pub proof fn lemma_insert_then_get(
    ec: ExecutionContext,
    memory: Seq<u8>,
    store: u32,
    key: (u32, u32),
    value: (u32, u32),
    next: ExecutionContext,
    memory2: Seq<u8>,
    key2: (u32, u32),
)
    requires
        ec.wf(),
        storage_insert_spec(ec, memory, store, key, value).0 is Ok,
        after_call(ec, next, storage_insert_spec(ec, memory, store, key, value).1,
            storage_insert_spec(ec, memory, store, key, value).2),
        region_of(key2).fits(memory2.len() as int),
        region_of(key2).bytes_of(memory2) == region_of(key).bytes_of(memory),
        next.gas.can_charge(storage_get_cost(next.params.gas_costs, key2.1 as int)),
        next.gas.charged(storage_get_cost(next.params.gas_costs, key2.1 as int)).can_charge(
            storage_value_cost(next.params.gas_costs, value.1 as int),
        ),
    ensures
        storage_get_spec(next, memory2, store, key2).0 == Ok::<Option<Seq<u8>>, Trap>(
            Some(region_of(value).bytes_of(memory)),
        ),
{
    lemma_price_nonneg(next.params.gas_costs.wasm_storage_key_byte as int, key2.1 as int);
    lemma_price_nonneg(next.params.gas_costs.wasm_storage_value_byte as int, value.1 as int);
    assert(region_of(key2).bytes_of(memory2).len() == key2.1);
    assert(region_of(key).bytes_of(memory).len() == key.1);
    assert(region_of(value).bytes_of(memory).len() == value.1);
}

/// After `storage.remove` of a key, `storage.get` of the same key in the same
/// store finds nothing, as long as the budget covers the lookup.
pub proof fn lemma_remove_then_get(
    ec: ExecutionContext,
    memory: Seq<u8>,
    store: u32,
    key: (u32, u32),
    next: ExecutionContext,
    memory2: Seq<u8>,
    key2: (u32, u32),
)
    requires
        ec.wf(),
        storage_remove_spec(ec, memory, store, key).0 is Ok,
        after_call(ec, next, storage_remove_spec(ec, memory, store, key).1,
            storage_remove_spec(ec, memory, store, key).2),
        region_of(key2).fits(memory2.len() as int),
        region_of(key2).bytes_of(memory2) == region_of(key).bytes_of(memory),
        next.gas.can_charge(storage_get_cost(next.params.gas_costs, key2.1 as int)),
    ensures
        storage_get_spec(next, memory2, store, key2).0 == Ok::<Option<Seq<u8>>, Trap>(None),
{
    lemma_price_nonneg(next.params.gas_costs.wasm_storage_key_byte as int, key2.1 as int);
    assert(region_of(key2).bytes_of(memory2).len() == key2.1);
    assert(region_of(key).bytes_of(memory).len() == key.1);
}

/// Each storage call that succeeds charges exactly its price: `base + key
/// bytes`, plus the value's bytes for a write and for a lookup that finds one.
/// A write or removal within the size limits, whose price fits what remains of
/// a budget that is not exhausted, succeeds and charges exactly that price; one
/// whose price overflows aborts and charges nothing, as does one refused for
/// size or context.
pub proof fn lemma_storage_gas_exact(ec: ExecutionContext, memory: Seq<u8>, store: u32, key: (u32, u32), value: (u32, u32))
    requires
        ec.wf(),
    ensures
        storage_insert_spec(ec, memory, store, key, value).0 is Ok ==> storage_insert_spec(ec, memory, store, key, value).1.used
            == ec.gas.used + storage_insert_cost(ec.params.gas_costs, key.1 as int, value.1 as int),
        storage_remove_spec(ec, memory, store, key).0 is Ok ==> storage_remove_spec(ec, memory, store, key).1.used
            == ec.gas.used + storage_remove_cost(ec.params.gas_costs, key.1 as int),
        storage_get_spec(ec, memory, store, key).0 == Ok::<Option<Seq<u8>>, Trap>(None)
            ==> storage_get_spec(ec, memory, store, key).1.used == ec.gas.used + storage_get_cost(ec.params.gas_costs, key.1 as int),
        forall|v: Seq<u8>| storage_get_spec(ec, memory, store, key).0 == Ok::<Option<Seq<u8>>, Trap>(Some(v))
            ==> #[trigger] storage_get_spec(ec, memory, store, key).1.used == ec.gas.used + storage_get_cost(ec.params.gas_costs, key.1 as int)
                + storage_value_cost(ec.params.gas_costs, v.len() as int),
        (!ec.active || key.1 > ec.params.max_storage_key_size_bytes) ==> storage_get_spec(ec, memory, store, key)
            == (Err::<Option<Seq<u8>>, Trap>(Trap::Abort), ec.gas),
        ({
            &&& ec.active
            &&& key.1 <= ec.params.max_storage_key_size_bytes
            &&& value.1 <= ec.params.max_storage_value_size_bytes
            &&& ec.gas.can_charge(storage_insert_cost(ec.params.gas_costs, key.1 as int, value.1 as int))
            &&& region_of(key).fits(memory.len() as int)
            &&& region_of(value).fits(memory.len() as int)
            &&& store_kind_of(store) is Some
        }) ==> storage_insert_spec(ec, memory, store, key, value).0 is Ok
            && storage_insert_spec(ec, memory, store, key, value).1.used == ec.gas.used
            + storage_insert_cost(ec.params.gas_costs, key.1 as int, value.1 as int),
        (ec.active && key.1 <= ec.params.max_storage_key_size_bytes && value.1
            <= ec.params.max_storage_value_size_bytes && storage_insert_cost(
            ec.params.gas_costs,
            key.1 as int,
            value.1 as int,
        ) > u64::MAX) ==> (storage_insert_spec(ec, memory, store, key, value).0 == Err::<(), Trap>(Trap::Abort)
            && storage_insert_spec(ec, memory, store, key, value).1 == ec.gas),
        ({
            &&& ec.active
            &&& key.1 <= ec.params.max_storage_key_size_bytes
            &&& ec.gas.can_charge(storage_remove_cost(ec.params.gas_costs, key.1 as int))
            &&& region_of(key).fits(memory.len() as int)
            &&& store_kind_of(store) is Some
        }) ==> storage_remove_spec(ec, memory, store, key).0 is Ok
            && storage_remove_spec(ec, memory, store, key).1.used == ec.gas.used
            + storage_remove_cost(ec.params.gas_costs, key.1 as int),
        (ec.active && key.1 <= ec.params.max_storage_key_size_bytes && storage_remove_cost(
            ec.params.gas_costs,
            key.1 as int,
        ) > u64::MAX) ==> (storage_remove_spec(ec, memory, store, key).0 == Err::<(), Trap>(Trap::Abort)
            && storage_remove_spec(ec, memory, store, key).1 == ec.gas),
{
    lemma_price_nonneg(ec.params.gas_costs.wasm_storage_key_byte as int, key.1 as int);
    lemma_price_nonneg(ec.params.gas_costs.wasm_storage_value_byte as int, value.1 as int);
}

} // verus!
