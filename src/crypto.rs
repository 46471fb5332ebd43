use vstd::prelude::*;

use crate::bridge::{charge_outcome, ExecutionContext};
use crate::error::Trap;
use crate::gas::GasMeter;
use crate::memory::{overwrite, region_of, Region};
use crate::params::GasCosts;

verus! {

/// Length of a recovered, uncompressed secp256k1 public key.
pub const RECOVERED_KEY_LEN: usize = 65;

/// The signature schemes that `crypto.signature_verify` accepts.
#[derive(Clone, Copy, Debug, PartialEq, Eq, Structural)]
pub enum SignatureKind {
    Ed25519,
    Secp256k1,
    Sr25519,
}

/// The scheme that a guest tag names, if any.
pub open spec fn signature_kind_of(tag: u32) -> Option<SignatureKind> {
    if tag == 0 {
        Some(SignatureKind::Ed25519)
    } else if tag == 1 {
        Some(SignatureKind::Secp256k1)
    } else if tag == 2 {
        Some(SignatureKind::Sr25519)
    } else {
        None
    }
}

/// Decode a guest signature-scheme tag.
pub fn signature_kind_from_tag(tag: u32) -> (r: Option<SignatureKind>)
    ensures
        r == signature_kind_of(tag),
{
    if tag == 0 {
        Some(SignatureKind::Ed25519)
    } else if tag == 1 {
        Some(SignatureKind::Secp256k1)
    } else if tag == 2 {
        Some(SignatureKind::Sr25519)
    } else {
        None
    }
}

/// The price of verifying one signature of `kind`.
pub open spec fn verify_cost(c: GasCosts, kind: SignatureKind) -> u64 {
    match kind {
        SignatureKind::Ed25519 => c.wasm_crypto_signature_verify_ed25519,
        SignatureKind::Secp256k1 => c.wasm_crypto_signature_verify_secp256k1,
        SignatureKind::Sr25519 => c.wasm_crypto_signature_verify_sr25519,
    }
}

/// The price of verifying one signature of `kind`.
pub fn signature_verify_gas(c: &GasCosts, kind: SignatureKind) -> (r: u64)
    ensures
        r == verify_cost(*c, kind),
{
    match kind {
        SignatureKind::Ed25519 => c.wasm_crypto_signature_verify_ed25519,
        SignatureKind::Secp256k1 => c.wasm_crypto_signature_verify_secp256k1,
        SignatureKind::Sr25519 => c.wasm_crypto_signature_verify_sr25519,
    }
}

/// The marshaled arguments of one signature check.
pub struct VerifyRequest {
    pub kind: SignatureKind,
    pub key: Vec<u8>,
    /// The domain-separation context, present only for Sr25519 when the guest
    /// passed a non-empty one.
    pub context: Option<Vec<u8>>,
    pub message: Vec<u8>,
    pub signature: Vec<u8>,
}

/// Whether the guest's context argument is used: only Sr25519 takes one, and
/// only when it is not empty.
pub open spec fn uses_context(kind: SignatureKind, context: (u32, u32)) -> bool {
    context.1 != 0 && kind == SignatureKind::Sr25519
}

/// The argument regions of `crypto.signature_verify`.
pub struct VerifyArgs {
    pub key: (u32, u32),
    pub context: (u32, u32),
    pub message: (u32, u32),
    pub signature: (u32, u32),
}

/// `crypto.signature_verify` up to the check itself: the error it stops with,
/// if any, and the meter after it.
pub open spec fn signature_verify_spec(ec: ExecutionContext, memory: Seq<u8>, tag: u32, args: VerifyArgs)
    -> (Option<Trap>, GasMeter) {
    let len = memory.len() as int;
    if !ec.active || args.message.1 > ec.params.max_crypto_signature_verify_message_size_bytes
        || signature_kind_of(tag).is_none() {
        (Some(Trap::Abort), ec.gas)
    } else {
        let kind = signature_kind_of(tag).unwrap();
        let (err, g1) = charge_outcome(ec.gas, verify_cost(ec.params.gas_costs, kind) as int);
        if err.is_some() {
            (err, g1)
        } else if !region_of(args.key).fits(len)
            || !region_of(args.message).fits(len)
            || !region_of(args.signature).fits(len)
            || (uses_context(kind, args.context) && !region_of(args.context).fits(len)) {
            (Some(Trap::Abort), g1)
        } else {
            (None, g1)
        }
    }
}

/// Host function `crypto.signature_verify`, up to the check itself: validate
/// the message size and the scheme tag, charge the scheme's price, and marshal
/// the arguments. The check is made on the returned request, and its outcome
/// goes through `verify_status`.
pub fn signature_verify_request(
    ec: &mut ExecutionContext,
    memory: &Vec<u8>,
    tag: u32,
    args: VerifyArgs,
) -> (r: Result<VerifyRequest, Trap>)
    requires
        old(ec).wf(),
    ensures
        old(ec).same_frame(final(ec)),
        final(ec).state@ == old(ec).state@,
        final(ec).gas == signature_verify_spec(*old(ec), memory@, tag, args).1,
        match r {
            Ok(req) => {
                &&& signature_verify_spec(*old(ec), memory@, tag, args).0.is_none()
                &&& Some(req.kind) == signature_kind_of(tag)
                &&& req.key@ == region_of(args.key).bytes_of(memory@)
                &&& req.message@ == region_of(args.message).bytes_of(memory@)
                &&& req.signature@ == region_of(args.signature).bytes_of(memory@)
                &&& match req.context {
                    Some(c) => uses_context(req.kind, args.context) && c@ == region_of(args.context).bytes_of(memory@),
                    None => !uses_context(req.kind, args.context),
                }
            },
            Err(t) => signature_verify_spec(*old(ec), memory@, tag, args).0 == Some(t),
        },
{
    if !ec.active || args.message.1 > ec.params.max_crypto_signature_verify_message_size_bytes {
        return Err(Trap::Abort);
    }
    let kind = match signature_kind_from_tag(tag) {
        Some(k) => k,
        None => return Err(Trap::Abort),
    };
    let price = signature_verify_gas(&ec.params.gas_costs, kind);
    ec.gas.use_gas(price)?;
    let key = match Region::from_arg(args.key).as_slice(memory) {
        Ok(b) => b,
        Err(_) => return Err(Trap::Abort),
    };
    let message = match Region::from_arg(args.message).as_slice(memory) {
        Ok(b) => b,
        Err(_) => return Err(Trap::Abort),
    };
    let signature = match Region::from_arg(args.signature).as_slice(memory) {
        Ok(b) => b,
        Err(_) => return Err(Trap::Abort),
    };
    let context = if args.context.1 != 0 && kind == SignatureKind::Sr25519 {
        match Region::from_arg(args.context).as_slice(memory) {
            Ok(b) => Some(b),
            Err(_) => return Err(Trap::Abort),
        }
    } else {
        None
    };
    Ok(VerifyRequest { kind, key, context, message, signature })
}

/// What `crypto.signature_verify` hands back to the guest: 0 for a valid
/// signature, 1 for any other.
pub fn verify_status(verified: bool) -> (r: u32)
    ensures
        r == 0 <==> verified,
        r == 1 <==> !verified,
{
    if verified {
        0
    } else {
        1
    }
}

/// `crypto.ecdsa_recover` up to the recovery itself: the error it stops with,
/// if any, and the meter after it.
pub open spec fn ecdsa_recover_spec(ec: ExecutionContext, memory: Seq<u8>, input: (u32, u32), output: (u32, u32))
    -> (Option<Trap>, GasMeter) {
    let (err, g1) = charge_outcome(ec.gas, ec.params.gas_costs.wasm_crypto_ecdsa_recover as int);
    if !ec.active {
        (Some(Trap::Abort), ec.gas)
    } else if err.is_some() {
        (err, g1)
    } else if !region_of(input).fits(memory.len() as int)
        || !region_of(output).fits(memory.len() as int)
        || output.1 != RECOVERED_KEY_LEN {
        (Some(Trap::Abort), g1)
    } else {
        (None, g1)
    }
}

/// Host function `crypto.ecdsa_recover`, up to the recovery itself: charge its
/// fixed price, read the input, and check that the output region holds
/// exactly one recovered key. Returns the input bytes.
pub fn ecdsa_recover_input(ec: &mut ExecutionContext, memory: &Vec<u8>, input: (u32, u32), output: (u32, u32))
    -> (r: Result<Vec<u8>, Trap>)
    requires
        old(ec).wf(),
    ensures
        old(ec).same_frame(final(ec)),
        final(ec).state@ == old(ec).state@,
        final(ec).gas == ecdsa_recover_spec(*old(ec), memory@, input, output).1,
        match r {
            Ok(v) => ecdsa_recover_spec(*old(ec), memory@, input, output).0.is_none()
                && v@ == region_of(input).bytes_of(memory@),
            Err(t) => ecdsa_recover_spec(*old(ec), memory@, input, output).0 == Some(t),
        },
{
    if !ec.active {
        return Err(Trap::Abort);
    }
    ec.gas.use_gas(ec.params.gas_costs.wasm_crypto_ecdsa_recover)?;
    let bytes = match Region::from_arg(input).as_slice(memory) {
        Ok(b) => b,
        Err(_) => return Err(Trap::Abort),
    };
    let out = Region::from_arg(output);
    if !out.check_bounds(memory) || output.1 as usize != RECOVERED_KEY_LEN {
        return Err(Trap::Abort);
    }
    Ok(bytes)
}

/// The key that the guest receives: the recovered one, or 65 zero bytes where
/// recovery failed.
pub open spec fn recovered_or_zero(recovered: Option<Seq<u8>>) -> Seq<u8> {
    match recovered {
        Some(k) => k,
        None => Seq::new(RECOVERED_KEY_LEN as nat, |i: int| 0u8),
    }
}

/// Finish `crypto.ecdsa_recover`: write the recovered key, or 65 zero bytes
/// where recovery failed, into the output region. A failed recovery is not
/// an abort.
pub fn ecdsa_recover_output(memory: &mut Vec<u8>, output: (u32, u32), recovered: Option<Vec<u8>>)
    -> (r: Result<(), Trap>)
    requires
        match recovered {
            Some(k) => k@.len() == RECOVERED_KEY_LEN,
            None => true,
        },
    ensures
        match r {
            Ok(()) => final(memory)@ == overwrite(
                old(memory)@,
                output.0 as int,
                recovered_or_zero(
                    match recovered {
                        Some(k) => Some(k@),
                        None => None,
                    },
                ),
            ),
            Err(t) => {
                &&& t == Trap::Abort
                &&& final(memory)@ == old(memory)@
                &&& !(region_of(output).fits(old(memory)@.len() as int)
                    && output.1 == RECOVERED_KEY_LEN)
            },
        },
{
    let key = match recovered {
        Some(k) => k,
        None => {
            let mut z: Vec<u8> = Vec::new();
            let mut i: usize = 0;
            while i < RECOVERED_KEY_LEN
                invariant
                    0 <= i <= RECOVERED_KEY_LEN,
                    z@ == Seq::new(i as nat, |j: int| 0u8),
                decreases RECOVERED_KEY_LEN - i,
            {
                z.push(0u8);
                i = i + 1;
                proof {
                    assert(z@ =~= Seq::new(i as nat, |j: int| 0u8));
                }
            }
            z
        },
    };
    match Region::from_arg(output).write(memory, &key) {
        Ok(()) => Ok(()),
        Err(_) => Err(Trap::Abort),
    }
}

} // verus!
