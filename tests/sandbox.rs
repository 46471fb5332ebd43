use contract_sandbox::bridge::{
    memory_within_limit, storage_get, storage_insert, storage_remove, ExecutionContext,
};
use contract_sandbox::crypto::{
    ecdsa_recover_input, ecdsa_recover_output, signature_kind_from_tag, signature_verify_request,
    verify_status, SignatureKind, VerifyArgs,
};
use contract_sandbox::error::{Error, Trap};
use contract_sandbox::gas::{
    storage_get_gas, storage_insert_gas, storage_remove_gas, storage_value_gas, GasMeter,
};
use contract_sandbox::memory::{Region, RegionError};
use contract_sandbox::params::{GasCosts, Parameters};
use contract_sandbox::store::{store_kind_from_tag, ContractState, StoreKind};
use contract_sandbox::wasm::{
    check_conformance, setup_failed, validate_and_transform, Abi, CodeId, ContractError,
    InvocationError,
};

fn costs() -> GasCosts {
    GasCosts {
        wasm_storage_get_base: 20,
        wasm_storage_insert_base: 30,
        wasm_storage_remove_base: 25,
        wasm_storage_key_byte: 3,
        wasm_storage_value_byte: 2,
        wasm_crypto_ecdsa_recover: 40,
        wasm_crypto_signature_verify_ed25519: 50,
        wasm_crypto_signature_verify_secp256k1: 60,
        wasm_crypto_signature_verify_sr25519: 70,
    }
}

fn params() -> Parameters {
    Parameters {
        max_stack_size: 65536,
        max_memory_pages: 16,
        max_storage_key_size_bytes: 64,
        max_storage_value_size_bytes: 1024,
        max_crypto_signature_verify_message_size_bytes: 128,
        gas_costs: costs(),
    }
}

fn context(gas_limit: u64) -> ExecutionContext {
    ExecutionContext::new(params(), 7, gas_limit, ContractState::new())
}

/// Guest memory holding `parts` back to back, with the region of each.
fn memory_with(parts: &[&[u8]]) -> (Vec<u8>, Vec<(u32, u32)>) {
    let mut mem = vec![0xAAu8; 16];
    let mut regions = Vec::new();
    for p in parts {
        regions.push((mem.len() as u32, p.len() as u32));
        mem.extend_from_slice(p);
    }
    mem.extend_from_slice(&[0xAAu8; 16]);
    (mem, regions)
}

#[test]
fn insert_then_get_returns_value() {
    let mut ec = context(1_000_000);
    let (mem, r) = memory_with(&[b"alpha", b"one"]);
    assert_eq!(storage_insert(&mut ec, &mem, 0, r[0], r[1]), Ok(()));
    let got = storage_get(&mut ec, &mem, 0, r[0]).unwrap();
    assert_eq!(got, Some(b"one".to_vec()));
}

#[test]
fn remove_then_get_is_absent() {
    let mut ec = context(1_000_000);
    let (mem, r) = memory_with(&[b"alpha", b"one"]);
    storage_insert(&mut ec, &mem, 0, r[0], r[1]).unwrap();
    assert_eq!(storage_remove(&mut ec, &mem, 0, r[0]), Ok(()));
    assert_eq!(storage_get(&mut ec, &mem, 0, r[0]), Ok(None));
}

#[test]
fn insert_replaces_old_value() {
    let mut ec = context(1_000_000);
    let (mem, r) = memory_with(&[b"k", b"first", b"second"]);
    storage_insert(&mut ec, &mem, 0, r[0], r[1]).unwrap();
    storage_insert(&mut ec, &mem, 0, r[0], r[2]).unwrap();
    assert_eq!(storage_get(&mut ec, &mem, 0, r[0]), Ok(Some(b"second".to_vec())));
}

#[test]
fn store_kinds_are_separate_namespaces() {
    let mut ec = context(1_000_000);
    let (mem, r) = memory_with(&[b"k", b"public"]);
    storage_insert(&mut ec, &mem, 0, r[0], r[1]).unwrap();
    assert_eq!(storage_get(&mut ec, &mem, 1, r[0]), Ok(None));
    assert_eq!(storage_get(&mut ec, &mem, 0, r[0]), Ok(Some(b"public".to_vec())));
}

#[test]
fn instances_are_separate_namespaces() {
    let mut ec = context(1_000_000);
    let (mem, r) = memory_with(&[b"k", b"v"]);
    storage_insert(&mut ec, &mem, 0, r[0], r[1]).unwrap();
    let state = ec.state;
    let mut other = ExecutionContext::new(params(), 8, 1_000_000, state);
    assert_eq!(storage_get(&mut other, &mem, 0, r[0]), Ok(None));
}

#[test]
fn unknown_store_kind_aborts_after_charging() {
    let mut ec = context(1_000_000);
    let (mem, r) = memory_with(&[b"key"]);
    assert_eq!(storage_get(&mut ec, &mem, 2, r[0]), Err(Trap::Abort));
    assert_eq!(ec.gas.used, 20 + 3 * 3);
    assert_eq!(store_kind_from_tag(0), Some(StoreKind::Public));
    assert_eq!(store_kind_from_tag(1), Some(StoreKind::Confidential));
    assert_eq!(store_kind_from_tag(2), None);
}

#[test]
fn gas_formulas_are_exact() {
    let c = costs();
    assert_eq!(storage_get_gas(&c, 7), Some(20 + 7 * 3));
    assert_eq!(storage_remove_gas(&c, 4), Some(25 + 4 * 3));
    assert_eq!(storage_insert_gas(&c, 5, 10), Some(30 + 5 * 3 + 10 * 2));
    assert_eq!(storage_value_gas(&c, 9), Some(18));
    assert_eq!(storage_insert_gas(&c, 0, 0), Some(30));
}

#[test]
fn gas_formula_overflow_is_none() {
    let mut c = costs();
    c.wasm_storage_key_byte = u64::MAX;
    assert_eq!(storage_get_gas(&c, 2), None);
    let mut c = costs();
    c.wasm_storage_insert_base = u64::MAX;
    assert_eq!(storage_insert_gas(&c, 0, 1), None);
    assert_eq!(storage_insert_gas(&c, 0, 0), Some(u64::MAX));
}

#[test]
fn storage_calls_charge_exact_gas() {
    let mut ec = context(1_000_000);
    let (mem, r) = memory_with(&[b"abcd", b"0123456789"]);
    storage_insert(&mut ec, &mem, 0, r[0], r[1]).unwrap();
    assert_eq!(ec.gas.used, 30 + 4 * 3 + 10 * 2);
    let before = ec.gas.used;
    storage_get(&mut ec, &mem, 0, r[0]).unwrap();
    assert_eq!(ec.gas.used - before, 20 + 4 * 3 + 10 * 2);
    let before = ec.gas.used;
    storage_remove(&mut ec, &mem, 0, r[0]).unwrap();
    assert_eq!(ec.gas.used - before, 25 + 4 * 3);
    let before = ec.gas.used;
    assert_eq!(storage_get(&mut ec, &mem, 0, r[0]), Ok(None));
    assert_eq!(ec.gas.used - before, 20 + 4 * 3);
}

#[test]
fn budget_is_never_exceeded() {
    let mut g = GasMeter::new(100);
    assert_eq!(g.use_gas(40), Ok(()));
    assert_eq!(g.use_gas(60), Ok(()));
    assert_eq!(g.remaining(), 0);
    assert_eq!(g.use_gas(1), Err(Trap::OutOfGas));
    assert_eq!(g.used, 100);
    assert!(g.exhausted);
    assert_eq!(g.use_gas(0), Err(Trap::OutOfGas));

    let mut g = GasMeter::new(100);
    g.use_gas(70).unwrap();
    assert_eq!(g.use_gas(31), Err(Trap::OutOfGas));
    assert_eq!(g.used, 70);
    assert_eq!(g.use_gas(1), Err(Trap::OutOfGas));
    assert_eq!(g.used, 70);
}

#[test]
fn storage_aborts_when_budget_runs_out() {
    let mut ec = context(50);
    let (mem, r) = memory_with(&[b"abcd", b"0123456789"]);
    // 30 + 12 + 20 = 62 > 50.
    assert_eq!(storage_insert(&mut ec, &mem, 0, r[0], r[1]), Err(Trap::OutOfGas));
    assert_eq!(ec.gas.used, 0);
    assert!(ec.gas.exhausted);
    assert_eq!(storage_get(&mut ec, &mem, 0, r[0]), Err(Trap::OutOfGas));
}

#[test]
fn get_charges_value_only_when_found_and_affordable() {
    let mut ec = context(1_000);
    let (mem, r) = memory_with(&[b"k", b"0123456789"]);
    storage_insert(&mut ec, &mem, 0, r[0], r[1]).unwrap();
    // Insert used 30 + 3 + 20 = 53; leave 23 + 2 for the lookup.
    let mut tight = ExecutionContext::new(params(), 7, 53 + 25, ec.state);
    tight.gas.used = 53;
    assert_eq!(storage_get(&mut tight, &mem, 0, r[0]), Err(Trap::OutOfGas));
    assert_eq!(tight.gas.used, 53 + 23);
}

#[test]
fn oversized_key_aborts_without_charge() {
    let mut ec = context(1_000_000);
    let key = vec![b'x'; 65];
    let (mem, r) = memory_with(&[&key, b"v"]);
    assert_eq!(storage_get(&mut ec, &mem, 0, r[0]), Err(Trap::Abort));
    assert_eq!(ec.gas.used, 0);
    assert_eq!(storage_insert(&mut ec, &mem, 0, r[0], r[1]), Err(Trap::Abort));
    assert_eq!(storage_remove(&mut ec, &mem, 0, r[0]), Err(Trap::Abort));
    assert_eq!(ec.gas.used, 0);
}

#[test]
fn oversized_value_aborts_without_charge() {
    let mut ec = context(1_000_000);
    let value = vec![1u8; 1025];
    let (mem, r) = memory_with(&[b"k", &value]);
    assert_eq!(storage_insert(&mut ec, &mem, 0, r[0], r[1]), Err(Trap::Abort));
    assert_eq!(ec.gas.used, 0);
}

#[test]
fn largest_key_and_value_are_accepted() {
    let mut ec = context(1_000_000);
    let key = vec![b'k'; 64];
    let value = vec![3u8; 1024];
    let (mem, r) = memory_with(&[&key, &value]);
    assert_eq!(storage_insert(&mut ec, &mem, 0, r[0], r[1]), Ok(()));
    assert_eq!(storage_get(&mut ec, &mem, 0, r[0]), Ok(Some(value)));
}

#[test]
fn inactive_context_aborts() {
    let mut ec = context(1_000_000);
    ec.active = false;
    let (mem, r) = memory_with(&[b"k", b"v"]);
    assert_eq!(storage_get(&mut ec, &mem, 0, r[0]), Err(Trap::Abort));
    assert_eq!(storage_insert(&mut ec, &mem, 0, r[0], r[1]), Err(Trap::Abort));
    assert_eq!(storage_remove(&mut ec, &mem, 0, r[0]), Err(Trap::Abort));
    let args = VerifyArgs { key: r[0], context: (0, 0), message: r[1], signature: r[1] };
    assert!(matches!(signature_verify_request(&mut ec, &mem, 0, args), Err(Trap::Abort)));
    assert!(matches!(ecdsa_recover_input(&mut ec, &mem, r[0], r[1]), Err(Trap::Abort)));
    assert_eq!(ec.gas.used, 0);
}

#[test]
fn ten_thousand_keys_then_get() {
    let mut ec = context(u64::MAX);
    for i in 0..10_000u32 {
        let key = format!("key{}", i);
        let value = format!("value{}", i);
        let (mem, r) = memory_with(&[key.as_bytes(), value.as_bytes()]);
        storage_insert(&mut ec, &mem, 0, r[0], r[1]).unwrap();
    }
    let (mem, r) = memory_with(&[b"key9999"]);
    let before = ec.gas.used;
    let got = storage_get(&mut ec, &mem, 0, r[0]).unwrap();
    assert_eq!(got, Some(b"value9999".to_vec()));
    assert_eq!(ec.gas.used - before, 20 + 7 * 3 + 9 * 2);
}

#[test]
fn region_reads_exact_bytes() {
    let mem: Vec<u8> = (0u8..10).collect();
    let r = Region::from_arg((3, 4));
    assert_eq!(r.as_slice(&mem), Ok(vec![3, 4, 5, 6]));
    assert_eq!(Region::from_arg((10, 0)).as_slice(&mem), Ok(vec![]));
    assert_eq!(Region::from_arg((0, 10)).as_slice(&mem), Ok(mem.clone()));
}

#[test]
fn region_out_of_bounds_fails() {
    let mem: Vec<u8> = (0u8..10).collect();
    assert_eq!(Region::from_arg((7, 4)).as_slice(&mem), Err(RegionError::OutOfBounds));
    assert_eq!(Region::from_arg((11, 0)).as_slice(&mem), Err(RegionError::OutOfBounds));
    assert_eq!(
        Region::from_arg((u32::MAX, u32::MAX)).as_slice(&mem),
        Err(RegionError::OutOfBounds)
    );
    assert_eq!(Region::from_arg((1, u32::MAX)).as_slice(&mem), Err(RegionError::OutOfBounds));
    let mut m2 = mem.clone();
    assert_eq!(
        Region::from_arg((u32::MAX, 2)).write(&mut m2, &vec![1, 2]),
        Err(RegionError::OutOfBounds)
    );
    assert_eq!(m2, mem);
}

#[test]
fn region_write_in_place() {
    let mut mem = vec![0u8; 8];
    assert_eq!(Region::from_arg((2, 3)).write(&mut mem, &vec![7, 8, 9]), Ok(()));
    assert_eq!(mem, vec![0, 0, 7, 8, 9, 0, 0, 0]);
    assert_eq!(Region::from_arg((2, 3)).write(&mut mem, &vec![1, 2]), Err(RegionError::BadLength));
    assert_eq!(mem, vec![0, 0, 7, 8, 9, 0, 0, 0]);
}

#[test]
fn signature_verify_polarity() {
    assert_eq!(verify_status(true), 0);
    assert_eq!(verify_status(false), 1);
}

#[test]
fn signature_verify_charges_per_scheme() {
    let (mem, r) = memory_with(&[b"pubkey", b"ctx", b"message", b"sig"]);
    for (tag, kind, price) in [
        (0u32, SignatureKind::Ed25519, 50u64),
        (1, SignatureKind::Secp256k1, 60),
        (2, SignatureKind::Sr25519, 70),
    ] {
        let mut ec = context(1_000);
        let args = VerifyArgs { key: r[0], context: r[1], message: r[2], signature: r[3] };
        let req = signature_verify_request(&mut ec, &mem, tag, args).unwrap();
        assert_eq!(ec.gas.used, price);
        assert_eq!(req.kind, kind);
        assert_eq!(req.key, b"pubkey".to_vec());
        assert_eq!(req.message, b"message".to_vec());
        assert_eq!(req.signature, b"sig".to_vec());
        if kind == SignatureKind::Sr25519 {
            assert_eq!(req.context, Some(b"ctx".to_vec()));
        } else {
            assert_eq!(req.context, None);
        }
    }
}

#[test]
fn signature_verify_empty_context_is_raw() {
    let (mem, r) = memory_with(&[b"pubkey", b"message", b"sig"]);
    let mut ec = context(1_000);
    let args = VerifyArgs { key: r[0], context: (r[1].0, 0), message: r[1], signature: r[2] };
    let req = signature_verify_request(&mut ec, &mem, 2, args).unwrap();
    assert_eq!(req.context, None);
}

#[test]
fn signature_verify_unknown_scheme_aborts_before_charge() {
    let (mem, r) = memory_with(&[b"pubkey", b"message", b"sig"]);
    let mut ec = context(1_000);
    let args = VerifyArgs { key: r[0], context: (0, 0), message: r[1], signature: r[2] };
    assert!(matches!(signature_verify_request(&mut ec, &mem, 3, args), Err(Trap::Abort)));
    assert_eq!(ec.gas.used, 0);
    assert_eq!(signature_kind_from_tag(3), None);
}

#[test]
fn signature_verify_long_message_aborts_before_charge() {
    let msg = vec![0u8; 129];
    let (mem, r) = memory_with(&[b"pubkey", &msg, b"sig"]);
    let mut ec = context(1_000);
    let args = VerifyArgs { key: r[0], context: (0, 0), message: r[1], signature: r[2] };
    assert!(matches!(signature_verify_request(&mut ec, &mem, 0, args), Err(Trap::Abort)));
    assert_eq!(ec.gas.used, 0);
}

#[test]
fn ecdsa_recover_failure_writes_zeros() {
    let (mut mem, r) = memory_with(&[b"bad input", &[0xFFu8; 65]]);
    let mut ec = context(1_000);
    let input = ecdsa_recover_input(&mut ec, &mem, r[0], r[1]).unwrap();
    assert_eq!(input, b"bad input".to_vec());
    assert_eq!(ec.gas.used, 40);
    assert_eq!(ecdsa_recover_output(&mut mem, r[1], None), Ok(()));
    let start = r[1].0 as usize;
    assert_eq!(&mem[start..start + 65], &[0u8; 65][..]);
    assert_eq!(mem[start - 1], b"bad input"[8]);
    assert_eq!(mem[start + 65], 0xAA);
}

#[test]
fn ecdsa_recover_success_writes_key() {
    let (mut mem, r) = memory_with(&[b"input", &[0u8; 65]]);
    let key: Vec<u8> = (1u8..=65).collect();
    assert_eq!(ecdsa_recover_output(&mut mem, r[1], Some(key.clone())), Ok(()));
    let start = r[1].0 as usize;
    assert_eq!(&mem[start..start + 65], &key[..]);
}

#[test]
fn ecdsa_recover_wrong_output_size_aborts() {
    let (mut mem, r) = memory_with(&[b"input", &[0u8; 64]]);
    let mut ec = context(1_000);
    assert!(matches!(ecdsa_recover_input(&mut ec, &mem, r[0], r[1]), Err(Trap::Abort)));
    assert_eq!(ecdsa_recover_output(&mut mem, r[1], None), Err(Trap::Abort));
}

#[test]
fn contract_error_module_names() {
    let e = ContractError::new(CodeId(5), "", 3, "boom");
    assert_eq!(e.module, "contracts.5");
    assert_eq!(e.code, 3);
    assert_eq!(e.message, "boom");
    let e = ContractError::new(CodeId(1234), "sub", 9, "");
    assert_eq!(e.module_name(), "contracts.1234.sub");
    assert_eq!(e.code(), 9);
    assert_eq!(ContractError::new(CodeId(0), "", 0, "").module, "contracts.0");
}

#[test]
fn setup_failure_reports_zero_gas() {
    let r = setup_failed(Error::ModuleLoadingFailed);
    assert_eq!(r.gas_used, 0);
    assert!(matches!(r.inner, Err(InvocationError::Host(Error::ModuleLoadingFailed))));
}

fn section(id: u8, content: Vec<u8>) -> Vec<u8> {
    assert!(content.len() < 128);
    let mut s = vec![id, content.len() as u8];
    s.extend(content);
    s
}

fn name(s: &str) -> Vec<u8> {
    let mut v = vec![s.len() as u8];
    v.extend_from_slice(s.as_bytes());
    v
}

/// A module of empty functions `() -> ()`, importing `imports` and exporting `exports`.
fn module(imports: &[(&str, &str)], exports: &[&str]) -> Vec<u8> {
    let mut m = vec![0x00, 0x61, 0x73, 0x6d, 0x01, 0x00, 0x00, 0x00];
    m.extend(section(1, vec![1, 0x60, 0, 0]));
    if !imports.is_empty() {
        let mut c = vec![imports.len() as u8];
        for (module, field) in imports {
            c.extend(name(module));
            c.extend(name(field));
            c.extend([0x00, 0x00]);
        }
        m.extend(section(2, c));
    }
    let n = exports.len() as u8;
    let mut funcs = vec![n];
    funcs.extend(vec![0u8; exports.len()]);
    m.extend(section(3, funcs));
    let mut c = vec![n];
    for (i, e) in exports.iter().enumerate() {
        c.extend(name(e));
        c.extend([0x00, imports.len() as u8 + i as u8]);
    }
    m.extend(section(7, c));
    let mut code = vec![n];
    for _ in exports {
        code.extend([2, 0, 0x0b]);
    }
    m.extend(section(10, code));
    m
}

const ENTRYPOINTS: [&str; 7] =
    ["alloc", "instantiate", "call", "handle_reply", "pre_upgrade", "post_upgrade", "query"];

#[test]
fn validation_rejects_malformed_code() {
    assert_eq!(validate_and_transform(b"not wasm", Abi::OasisV1), Err(Error::CodeMalformed));
    assert_eq!(validate_and_transform(&[], Abi::OasisV1), Err(Error::CodeMalformed));
}

#[test]
fn validation_rejects_missing_exports() {
    let empty = vec![0x00, 0x61, 0x73, 0x6d, 0x01, 0x00, 0x00, 0x00];
    assert_eq!(validate_and_transform(&empty, Abi::OasisV1), Err(Error::ModuleLoadingFailed));
    let partial = module(&[], &ENTRYPOINTS[..6]);
    assert_eq!(validate_and_transform(&partial, Abi::OasisV1), Err(Error::ModuleLoadingFailed));
}

#[test]
fn validation_rejects_foreign_imports() {
    let m = module(&[("env", "abort")], &ENTRYPOINTS);
    assert_eq!(validate_and_transform(&m, Abi::OasisV1), Err(Error::ModuleLoadingFailed));
}

#[test]
fn validation_accepts_conforming_module() {
    let m = module(&[("storage", "get"), ("crypto", "signature_verify")], &ENTRYPOINTS);
    let out = validate_and_transform(&m, Abi::OasisV1).unwrap();
    assert_eq!(&out[..4], b"\0asm");
    // The re-encoded module conforms too.
    assert!(validate_and_transform(&out, Abi::OasisV1).is_ok());
}

#[test]
fn conformance_of_name_lists() {
    let exports: Vec<String> = ENTRYPOINTS.iter().map(|s| s.to_string()).collect();
    let ok_imports = vec![
        ("storage".to_string(), "insert".to_string()),
        ("storage".to_string(), "remove".to_string()),
        ("crypto".to_string(), "ecdsa_recover".to_string()),
    ];
    assert_eq!(check_conformance(&exports, &ok_imports), Ok(()));
    let bad = vec![("crypto".to_string(), "get".to_string())];
    assert_eq!(check_conformance(&exports, &bad), Err(Error::ModuleLoadingFailed));
    assert_eq!(check_conformance(&exports[1..].to_vec(), &vec![]), Err(Error::ModuleLoadingFailed));
}

#[test]
fn signature_verify_context_at_null_pointer_is_used() {
    let (mem, r) = memory_with(&[b"pubkey", b"message", b"sig"]);
    let mut ec = context(1_000);
    let args = VerifyArgs { key: r[0], context: (0, 3), message: r[1], signature: r[2] };
    let req = signature_verify_request(&mut ec, &mem, 2, args).unwrap();
    assert_eq!(req.context, Some(vec![0xAA, 0xAA, 0xAA]));
    let args = VerifyArgs { key: r[0], context: (0, 3), message: r[1], signature: r[2] };
    let req = signature_verify_request(&mut ec, &mem, 0, args).unwrap();
    assert_eq!(req.context, None);
}

#[test]
fn memory_page_limit() {
    let p = params();
    assert!(memory_within_limit(&p, 16 * 65536));
    assert!(!memory_within_limit(&p, 16 * 65536 + 1));
    assert!(memory_within_limit(&p, 0));
}

#[test]
fn validation_output_is_the_reencoded_module() {
    let m = module(&[("storage", "remove")], &ENTRYPOINTS);
    let out = validate_and_transform(&m, Abi::OasisV1).unwrap();
    let again = validate_and_transform(&out, Abi::OasisV1).unwrap();
    assert_eq!(out, again);
}
