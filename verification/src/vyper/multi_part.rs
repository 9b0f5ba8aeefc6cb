//! Multi-part verification requests and the client facade's single
//! `verify` entry point.
//!
//! A request carries the deployed bytecode, optional creation bytecode,
//! the requested compiler version, the source files, and an opaque chain
//! identifier kept only for observability. The facade builds the compiler
//! input, runs the engine through the client's runner, and, on a genuine
//! match, hands the success to the configured middleware before returning
//! it. Middleware runs best-effort: it cannot turn a successful
//! verification into an error.

use vstd::prelude::*;

use crate::engine::{CompilerRunner, ContractVerifier, Error, Success};
use crate::input::{
    normalize_sources, spec_source_text, spec_sources_sorted, CompilerInput, CompilerSettings,
    OptimizerSettings,
};
use crate::raw_bytes::bytes_model;
use crate::version::Version;

verus! {

/// The source files of a request, keyed by path, with an optional EVM
/// target carried through to the compiler settings.
pub struct MultiFileContent {
    pub sources: Vec<(String, String)>,
    pub evm_version: Option<String>,
}

/// A multi-part verification request.
pub struct VerificationRequest {
    pub deployed_bytecode: bytes::Bytes,
    pub creation_bytecode: Option<bytes::Bytes>,
    pub compiler_version: Version,
    pub content: MultiFileContent,
    /// Required for the metrics only; it never affects matching.
    pub chain_id: Option<String>,
}

impl CompilerInput {
    /// The compiler-ready input of a request's content: the sources
    /// normalized to one entry per path in ascending path order (as a
    /// path-keyed ordered map would iterate them, so the input is
    /// reproducible whatever order the request named the files in), the
    /// optimizer left unset, and the EVM target carried through.
    pub fn from(content: MultiFileContent) -> (r: CompilerInput)
        ensures
            r.language@ == "Vyper"@,
            spec_sources_sorted(r.sources@),
            forall|i: int|
                0 <= i < r.sources@.len() ==> content.sources@.contains(#[trigger] r.sources@[i]),
            forall|j: int|
                0 <= j < content.sources@.len() ==> #[trigger] spec_source_text(
                    r.sources@,
                    content.sources@[j].0@,
                ) is Some,
            forall|j: int|
                0 <= j < content.sources@.len() && (forall|j2: int|
                    j < j2 < content.sources@.len() ==> content.sources@[j2].0@
                        != content.sources@[j].0@) ==> #[trigger] spec_source_text(
                    r.sources@,
                    content.sources@[j].0@,
                ) == Some(content.sources@[j].1@),
            r.settings.optimizer.enabled is None,
            r.settings.optimizer.runs is None,
            r.settings.evm_version == content.evm_version,
    {
        CompilerInput {
            language: "Vyper".to_owned(),
            sources: normalize_sources(content.sources),
            settings: CompilerSettings {
                optimizer: OptimizerSettings { enabled: None, runs: None },
                evm_version: content.evm_version,
            },
        }
    }
}

/// Post-success hook, invoked once per genuine match with the full
/// success payload. Implementations are best-effort: nothing is assumed
/// of the call, and the facade returns the success whatever it does.
pub trait Middleware {
    fn call(&self, success: &Success);
}

/// The client facade: a compiler runner and an optional middleware.
pub struct Client<R: CompilerRunner, M: Middleware> {
    runner: R,
    middleware: Option<M>,
}

impl<R: CompilerRunner, M: Middleware> Client<R, M> {
    /// A middleware is configured.
    pub closed spec fn spec_has_middleware(&self) -> bool {
        self.middleware is Some
    }

    /// A client without middleware.
    pub fn new(runner: R) -> (r: Client<R, M>)
        ensures
            !r.spec_has_middleware(),
    {
        Client { runner, middleware: None }
    }

    /// A client whose successes are handed to `middleware`.
    pub fn with_middleware(runner: R, middleware: M) -> (r: Client<R, M>)
        ensures
            r.spec_has_middleware(),
    {
        Client { runner, middleware: Some(middleware) }
    }
}

/// Verifies one request: rejects empty deployed bytecode, compiles the
/// sources with the requested version, and matches the emitted contracts
/// against the deployed (and, when given, creation) bytecode. On success
/// the middleware, if configured, observes the success first; its
/// behaviour cannot change the result.
pub fn verify<R: CompilerRunner, M: Middleware>(
    client: &Client<R, M>,
    request: VerificationRequest,
) -> (r: Result<Success, Error>)
    ensures
        bytes_model(request.deployed_bytecode).len() == 0 ==> (r matches Err(e) && (e matches
            Error::InvalidRequest(m) && m@ == "deployed bytecode is empty"@)),
        r matches Ok(s) ==> (s.compiler_version@ == request.compiler_version@
            && crate::bytecode::spec_match_grade(s.bytecode@, bytes_model(request.deployed_bytecode))
            == Some(s.match_result) && (request.creation_bytecode is Some
            <==> s.constructor_args is Some)),
        (r matches Err(e) && e matches Error::InvalidRequest(m)) ==> bytes_model(
            request.deployed_bytecode,
        ).len() == 0,
{
    let compiler_input = CompilerInput::from(request.content);
    let verifier = match ContractVerifier::new(
        &request.compiler_version,
        request.creation_bytecode,
        request.deployed_bytecode,
        request.chain_id,
    ) {
        Ok(v) => v,
        Err(e) => {
            return Err(e);
        },
    };
    let success = match verifier.verify(&client.runner, &compiler_input) {
        Ok(s) => s,
        Err(e) => {
            return Err(e);
        },
    };
    if let Some(middleware) = &client.middleware {
        middleware.call(&success);
    }
    Ok(success)
}

} // verus!
