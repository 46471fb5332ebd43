use vstd::prelude::*;

verus! {

/// Fixed prices of the host operations.
#[derive(Clone, Copy, Debug, PartialEq, Eq, Structural)]
pub struct GasCosts {
    pub wasm_storage_get_base: u64,
    pub wasm_storage_insert_base: u64,
    pub wasm_storage_remove_base: u64,
    pub wasm_storage_key_byte: u64,
    pub wasm_storage_value_byte: u64,
    pub wasm_crypto_ecdsa_recover: u64,
    pub wasm_crypto_signature_verify_ed25519: u64,
    pub wasm_crypto_signature_verify_secp256k1: u64,
    pub wasm_crypto_signature_verify_sr25519: u64,
}

/// Resource limits and prices that apply to one invocation.
#[derive(Clone, Copy, Debug, PartialEq, Eq, Structural)]
pub struct Parameters {
    pub max_stack_size: u32,
    pub max_memory_pages: u32,
    pub max_storage_key_size_bytes: u32,
    pub max_storage_value_size_bytes: u32,
    pub max_crypto_signature_verify_message_size_bytes: u32,
    pub gas_costs: GasCosts,
}

} // verus!
