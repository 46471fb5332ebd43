use vstd::prelude::*;
use vstd::string::StringExecFns;

use crate::bridge::ExecutionContext;
use crate::error::Error;

verus! {

/// The name under which contract errors and contract state are namespaced.
pub const MODULE_NAME: &'static str = "contracts";

/// Identifier of registered contract code.
#[derive(Clone, Copy, Debug, PartialEq, Eq, Structural)]
pub struct CodeId(pub u64);

impl CodeId {
    pub fn as_u64(&self) -> (r: u64)
        ensures
            r == self.0,
    {
        self.0
    }
}

/// Identifier of a deployed contract instance.
#[derive(Clone, Copy, Debug, PartialEq, Eq, Structural)]
pub struct InstanceId(pub u64);

/// The host interface versions that code can be written against.
#[derive(Clone, Copy, Debug, PartialEq, Eq, Structural)]
pub enum Abi {
    OasisV1,
}

/// A registered contract: its identity and the ABI it was validated for.
#[derive(Clone, Copy, Debug, PartialEq, Eq, Structural)]
pub struct Code {
    pub id: CodeId,
    pub abi: Abi,
}

/// A deployed contract instance and the code it runs.
#[derive(Clone, Copy, Debug, PartialEq, Eq, Structural)]
pub struct Instance {
    pub id: InstanceId,
    pub code_id: CodeId,
}

/// Everything needed to run a contract.
pub struct Contract<'a> {
    pub code_info: &'a Code,
    pub code: &'a [u8],
    pub instance_info: &'a Instance,
}

/// The decimal digit `d` as a character.
pub open spec fn digit_char(d: nat) -> char {
    (d + 48) as char
}

/// The decimal notation of `n`, most significant digit first, no leading zeros.
pub open spec fn decimal(n: nat) -> Seq<char>
    decreases n,
{
    if n < 10 {
        seq![digit_char(n)]
    } else {
        decimal(n / 10).push(digit_char(n % 10))
    }
}

/// The decimal digit `d` as text.
fn digit_text(d: u64) -> (r: &'static str)
    requires
        d < 10,
    ensures
        r@ == seq![digit_char(d as nat)],
{
    proof {
        reveal_strlit("0");
        reveal_strlit("1");
        reveal_strlit("2");
        reveal_strlit("3");
        reveal_strlit("4");
        reveal_strlit("5");
        reveal_strlit("6");
        reveal_strlit("7");
        reveal_strlit("8");
        reveal_strlit("9");
    }
    if d == 0 {
        "0"
    } else if d == 1 {
        "1"
    } else if d == 2 {
        "2"
    } else if d == 3 {
        "3"
    } else if d == 4 {
        "4"
    } else if d == 5 {
        "5"
    } else if d == 6 {
        "6"
    } else if d == 7 {
        "7"
    } else if d == 8 {
        "8"
    } else {
        "9"
    }
}

/// The decimal notation of `n`.
fn decimal_text(n: u64) -> (r: String)
    ensures
        r@ == decimal(n as nat),
    decreases n,
{
    if n < 10 {
        String::from_str(digit_text(n))
    } else {
        let mut s = decimal_text(n / 10);
        s.append(digit_text(n % 10));
        proof {
            assert(s@ =~= decimal((n / 10) as nat).push(digit_char((n % 10) as nat)));
        }
        s
    }
}

/// The module name of an error that code `code_id` raises, in its sub-module
/// `module` where that is not empty.
pub open spec fn contract_module_name(code_id: u64, module: Seq<char>) -> Seq<char> {
    let base = MODULE_NAME@ + "."@ + decimal(code_id as nat);
    if module.len() == 0 {
        base
    } else {
        base + "."@ + module
    }
}

/// Error emitted from within a contract.
pub struct ContractError {
    pub module: String,
    pub code: u32,
    pub message: String,
}

impl ContractError {
    /// Create a new error emitted within a contract.
    pub fn new(code_id: CodeId, module: &str, code: u32, message: &str) -> (r: ContractError)
        ensures
            r.module@ == contract_module_name(code_id.0, module@),
            r.code == code,
            r.message@ == message@,
    {
        let mut name = String::from_str(MODULE_NAME);
        name.append(".");
        let digits = decimal_text(code_id.as_u64());
        name.append(digits.as_str());
        if !module.is_empty() {
            name.append(".");
            name.append(module);
        }
        ContractError { module: name, code, message: message.to_owned() }
    }

    pub fn module_name(&self) -> (r: &str)
        ensures
            r@ == self.module@,
    {
        self.module.as_str()
    }

    pub fn code(&self) -> (r: u32)
        ensures
            r == self.code,
    {
        self.code
    }
}

/// Whether `code` is a well-formed module, as the module parser judges it.
pub uninterp spec fn wasm_parses(code: Seq<u8>) -> bool;

/// The export names of the module that `code` encodes, in the parser's order.
pub uninterp spec fn wasm_exports(code: Seq<u8>) -> Seq<Seq<char>>;

/// The `(module, name)` pairs of the imports of the module that `code` encodes.
pub uninterp spec fn wasm_imports(code: Seq<u8>) -> Seq<(Seq<char>, Seq<char>)>;

/// The bytecode that the encoder writes for the module that `code` encodes.
pub uninterp spec fn wasm_emitted(code: Seq<u8>) -> Seq<u8>;

/// The text of each string.
pub open spec fn texts(v: Seq<String>) -> Seq<Seq<char>> {
    v.map_values(|s: String| s@)
}

/// The text of each pair of strings.
pub open spec fn pair_texts(v: Seq<(String, String)>) -> Seq<(Seq<char>, Seq<char>)> {
    v.map_values(|p: (String, String)| (p.0@, p.1@))
}

/// Relies on `walrus::ModuleConfig::parse`, which parses and validates the
/// bytecode on the bytes alone, and on `walrus::ModuleExports::iter`: the
/// names of the parsed module's exports.
#[verifier::external_body]
fn export_names(code: &[u8]) -> (r: Option<Vec<String>>)
    ensures
        r.is_some() == wasm_parses(code@),
        r matches Some(v) ==> texts(v@) == wasm_exports(code@),
{
    let module = walrus::ModuleConfig::new().generate_producers_section(false).parse(code).ok()?;
    Some(module.exports.iter().map(|e| e.name.clone()).collect())
}

/// Relies on `walrus::ModuleConfig::parse` and on `walrus::ModuleImports::iter`:
/// the `(module, name)` pair of each import of the parsed module.
#[verifier::external_body]
fn import_names(code: &[u8]) -> (r: Option<Vec<(String, String)>>)
    ensures
        r.is_some() == wasm_parses(code@),
        r matches Some(v) ==> pair_texts(v@) == wasm_imports(code@),
{
    let module = walrus::ModuleConfig::new().generate_producers_section(false).parse(code).ok()?;
    Some(module.imports.iter().map(|i| (i.module.clone(), i.name.clone())).collect())
}

/// Relies on `walrus::ModuleConfig::parse` and on `walrus::Module::emit_wasm`:
/// the parsed module encoded as bytecode again.
#[verifier::external_body]
fn emit_module(code: &[u8]) -> (r: Option<Vec<u8>>)
    ensures
        r.is_some() == wasm_parses(code@),
        r matches Some(v) ==> v@ == wasm_emitted(code@),
{
    let mut module = walrus::ModuleConfig::new().generate_producers_section(false).parse(code).ok()?;
    Some(module.emit_wasm())
}

/// Whether `names` holds `name`.
pub open spec fn has_name(names: Seq<Seq<char>>, name: Seq<char>) -> bool {
    exists|i: int| 0 <= i < names.len() && #[trigger] names[i] == name
}

/// The exports that code must have under the V1 ABI: the guest allocator and
/// every lifecycle entrypoint.
pub open spec fn exports_conform(names: Seq<Seq<char>>) -> bool {
    &&& has_name(names, "alloc"@)
    &&& has_name(names, "instantiate"@)
    &&& has_name(names, "call"@)
    &&& has_name(names, "handle_reply"@)
    &&& has_name(names, "pre_upgrade"@)
    &&& has_name(names, "post_upgrade"@)
    &&& has_name(names, "query"@)
}

/// Whether `(module, name)` is one of the host functions linked under the V1 ABI.
pub open spec fn is_host_function(module: Seq<char>, name: Seq<char>) -> bool {
    ||| module == "crypto"@ && (name == "ecdsa_recover"@ || name == "signature_verify"@)
    ||| module == "storage"@ && (name == "get"@ || name == "insert"@ || name == "remove"@)
}

/// Whether code imports nothing but the linked host functions.
pub open spec fn imports_conform(imports: Seq<(Seq<char>, Seq<char>)>) -> bool {
    forall|i: int| 0 <= i < imports.len() ==> is_host_function(#[trigger] imports[i].0, imports[i].1)
}

fn str_is(s: &String, lit: &str) -> (r: bool)
    ensures
        r == (s@ == lit@),
{
    *s == String::from_str(lit)
}

fn contains_name(names: &Vec<String>, name: &str) -> (r: bool)
    ensures
        r == has_name(texts(names@), name@),
{
    let mut i: usize = 0;
    while i < names.len()
        invariant
            0 <= i <= names@.len(),
            forall|j: int| 0 <= j < i ==> #[trigger] names@[j]@ != name@,
        decreases names@.len() - i,
    {
        if str_is(&names[i], name) {
            assert(texts(names@)[i as int] == name@);
            return true;
        }
        i = i + 1;
    }
    false
}

fn host_function(module: &String, name: &String) -> (r: bool)
    ensures
        r == is_host_function(module@, name@),
{
    proof {
        reveal_strlit("crypto");
        reveal_strlit("storage");
        assert("crypto"@.len() != "storage"@.len());
    }
    if str_is(module, "crypto") {
        str_is(name, "ecdsa_recover") || str_is(name, "signature_verify")
    } else if str_is(module, "storage") {
        str_is(name, "get") || str_is(name, "insert") || str_is(name, "remove")
    } else {
        false
    }
}

/// Check a parsed module's exports and imports against the V1 ABI.
pub fn check_conformance(exports: &Vec<String>, imports: &Vec<(String, String)>) -> (r: Result<(), Error>)
    ensures
        r == (if exports_conform(texts(exports@)) && imports_conform(pair_texts(imports@)) {
            Ok::<(), Error>(())
        } else {
            Err(Error::ModuleLoadingFailed)
        }),
{
    if !(contains_name(exports, "alloc") && contains_name(exports, "instantiate") && contains_name(
        exports,
        "call",
    ) && contains_name(exports, "handle_reply") && contains_name(exports, "pre_upgrade")
        && contains_name(exports, "post_upgrade") && contains_name(exports, "query")) {
        return Err(Error::ModuleLoadingFailed);
    }
    let mut i: usize = 0;
    while i < imports.len()
        invariant
            0 <= i <= imports@.len(),
            forall|j: int| 0 <= j < i ==> is_host_function(#[trigger] imports@[j].0@, imports@[j].1@),
        decreases imports@.len() - i,
    {
        if !host_function(&imports[i].0, &imports[i].1) {
            assert(pair_texts(imports@)[i as int] == (imports@[i as int].0@, imports@[i as int].1@));
            assert(!is_host_function(pair_texts(imports@)[i as int].0, pair_texts(imports@)[i as int].1));
            assert(!imports_conform(pair_texts(imports@)));
            return Err(Error::ModuleLoadingFailed);
        }
        i = i + 1;
    }
    assert forall|j: int| 0 <= j < imports@.len() implies is_host_function(
        #[trigger] pair_texts(imports@)[j].0,
        pair_texts(imports@)[j].1,
    ) by {
        assert(pair_texts(imports@)[j] == (imports@[j].0@, imports@[j].1@));
    }
    Ok(())
}

/// Whether `code` parses and conforms to `abi`.
pub open spec fn conforms(code: Seq<u8>, abi: Abi) -> bool {
    match abi {
        Abi::OasisV1 => exports_conform(wasm_exports(code)) && imports_conform(wasm_imports(code)),
    }
}

/// Validate contract code against `abi` and encode it again for storage.
/// Malformed bytecode is `CodeMalformed`; a module that parses but does not
/// conform to the ABI is `ModuleLoadingFailed`. Only the result is computed:
/// nothing is registered either way.
pub fn validate_and_transform(code: &[u8], abi: Abi) -> (r: Result<Vec<u8>, Error>)
    ensures
        r is Ok <==> wasm_parses(code@) && conforms(code@, abi),
        (r == Err::<Vec<u8>, Error>(Error::CodeMalformed)) <==> !wasm_parses(code@),
        (r == Err::<Vec<u8>, Error>(Error::ModuleLoadingFailed)) <==> wasm_parses(code@) && !conforms(code@, abi),
        r matches Ok(out) ==> out@ == wasm_emitted(code@),
{
    match abi {
        Abi::OasisV1 => {
            let exports = match export_names(code) {
                Some(e) => e,
                None => return Err(Error::CodeMalformed),
            };
            let imports = match import_names(code) {
                Some(i) => i,
                None => return Err(Error::CodeMalformed),
            };
            check_conformance(&exports, &imports)?;
        },
    }
    match emit_module(code) {
        Some(out) => Ok(out),
        None => Err(Error::CodeMalformed),
    }
}

/// Why an invocation failed.
pub enum InvocationError {
    /// The engine stopped it.
    Host(Error),
    /// The contract raised an error of its own.
    Contract(ContractError),
}

/// The outcome of one invocation and the gas that it used, reported on failure too.
pub struct ExecutionResult {
    pub inner: Result<Vec<u8>, InvocationError>,
    pub gas_used: u64,
}

/// The result of an invocation that failed before its entrypoint ran: nothing was charged.
pub fn setup_failed(err: Error) -> (r: ExecutionResult)
    ensures
        r.gas_used == 0,
        r.inner matches Err(InvocationError::Host(e)) && e == err,
{
    ExecutionResult { inner: Err(InvocationError::Host(err)), gas_used: 0 }
}

/// The result of an invocation whose entrypoint ran: its outcome, with the
/// gas that the context's meter recorded, whether it succeeded or not.
pub fn entrypoint_finished(ec: &ExecutionContext, outcome: Result<Vec<u8>, InvocationError>) -> (r: ExecutionResult)
    ensures
        r.gas_used == ec.gas.used,
        r.inner == outcome,
{
    ExecutionResult { inner: outcome, gas_used: ec.gas.used }
}

/// A context for running `contract` with `params` and a budget of `gas_limit`.
pub fn context_for(contract: &Contract, params: crate::params::Parameters, gas_limit: u64, state: crate::store::ContractState)
    -> (r: ExecutionContext)
    requires
        state.wf(),
    ensures
        r.wf(),
        r.params == params,
        r.instance_id == contract.instance_info.id.0,
        r.gas == crate::gas::GasMeter::new_spec(gas_limit),
        r.state@ == state@,
        r.active,
{
    ExecutionContext::new(params, contract.instance_info.id.0, gas_limit, state)
}

} // verus!
