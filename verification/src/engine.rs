//! The verification engine: given the contracts a compiler emitted, it
//! locates the contract whose bytecode matches the deployed bytecode,
//! grades the match, and builds the structured response.
//!
//! When several contracts match, a `Full` match is preferred over a
//! `Partial` one; among contracts of the same grade the first in emitted
//! order is chosen, a deterministic tie-break.

use vstd::prelude::*;

use crate::bytecode::{
    constructor_arguments, match_bytecode, spec_constructor_args, spec_match_grade, MatchResult,
};
use crate::input::CompilerInput;
use crate::raw_bytes::{bytes_model, bytes_to_vec};
use crate::version::Version;

verus! {

/// Typed failure of a verification request.
#[derive(Debug, PartialEq, Eq)]
pub enum Error {
    /// The requested compiler version is unknown to the manager.
    VersionNotFound,
    /// Transient infrastructure failure reaching the fetcher's backend.
    FetchUnavailable(String),
    /// A downloaded compiler binary failed its integrity check.
    CorruptArtifact(String),
    /// The compiler ran and reported errors in the submitted source; the
    /// payload carries the compiler's diagnostics verbatim.
    CompilationFailed(String),
    /// Compilation succeeded but no emitted contract matches the deployed
    /// bytecode at either grade.
    NoMatchingContracts,
    /// Malformed input, such as empty deployed bytecode.
    InvalidRequest(String),
}

/// One contract emitted by a compiler invocation: its name, ABI text,
/// creation bytecode and runtime (deployed) bytecode.
pub struct Contract {
    pub name: String,
    pub abi: String,
    pub bytecode: Vec<u8>,
    pub deployed_bytecode: Vec<u8>,
}

/// Mathematical model of an emitted contract.
pub struct ContractModel {
    pub name: Seq<char>,
    pub abi: Seq<char>,
    pub bytecode: Seq<u8>,
    pub deployed_bytecode: Seq<u8>,
}

impl View for Contract {
    type V = ContractModel;

    open spec fn view(&self) -> ContractModel {
        ContractModel {
            name: self.name@,
            abi: self.abi@,
            bytecode: self.bytecode@,
            deployed_bytecode: self.deployed_bytecode@,
        }
    }
}

/// The outcome of obtaining and running a compiler for a request: either
/// a manager failure, the compiler's own diagnostics, or its artifacts.
pub enum RunOutcome {
    /// The manager does not know the requested version.
    VersionNotFound,
    /// The manager could not reach its fetcher backend.
    FetchUnavailable(String),
    /// The fetched binary failed its integrity check.
    CorruptArtifact(String),
    /// The compiler exited with diagnostics and no artifacts.
    Failure(String),
    /// The contracts the compiler emitted, in emitted order.
    Artifacts(Vec<Contract>),
}

/// Capability that obtains a compiler for a version and runs it on an
/// input. Implementations drive a real compiler binary; nothing is
/// assumed of the outcome, so everything proved here holds whatever an
/// implementation returns.
pub trait CompilerRunner {
    fn run(&self, compiler_version: &Version, compiler_input: &CompilerInput) -> RunOutcome;
}

/// A successful verification: the chosen contract's name, ABI and
/// compiled runtime bytecode, the compiler version used, the match grade,
/// and the constructor-argument remainder when creation bytecode was
/// supplied.
#[derive(Debug, PartialEq)]
pub struct Success {
    pub contract_name: String,
    pub abi: String,
    pub bytecode: Vec<u8>,
    pub compiler_version: Version,
    pub match_result: MatchResult,
    pub constructor_args: Option<Vec<u8>>,
}

/// Grade and constructor-argument remainder of holding one emitted
/// contract against the request: the runtime bytecode must match the
/// deployed bytecode, and, when creation bytecode was supplied, the
/// contract's creation bytecode must prefix-match it, the bytes beyond it
/// being the constructor arguments.
pub open spec fn spec_contract_grade(
    c: ContractModel,
    deployed: Seq<u8>,
    creation: Option<Seq<u8>>,
) -> Option<(MatchResult, Option<Seq<u8>>)> {
    match spec_match_grade(c.deployed_bytecode, deployed) {
        None => None,
        Some(g) => match creation {
            None => Some((g, None)),
            Some(cr) => match spec_constructor_args(c.bytecode, cr) {
                None => None,
                Some(args) => Some((g, Some(args))),
            },
        },
    }
}

/// The contract matches the request at exactly grade `g`.
pub open spec fn spec_has_grade(
    c: ContractModel,
    deployed: Seq<u8>,
    creation: Option<Seq<u8>>,
    g: MatchResult,
) -> bool {
    match spec_contract_grade(c, deployed, creation) {
        Some(p) => p.0 == g,
        None => false,
    }
}

/// Index of the first contract matching at grade `g`.
pub open spec fn spec_first_with(
    cs: Seq<ContractModel>,
    deployed: Seq<u8>,
    creation: Option<Seq<u8>>,
    g: MatchResult,
) -> Option<int>
    decreases cs.len(),
{
    if cs.len() == 0 {
        None
    } else if spec_has_grade(cs[0], deployed, creation, g) {
        Some(0)
    } else {
        match spec_first_with(cs.skip(1), deployed, creation, g) {
            Some(i) => Some(i + 1),
            None => None,
        }
    }
}

/// The contract a verification chooses: the first with a `Full` match,
/// else the first with a `Partial` match.
pub open spec fn spec_chosen(
    cs: Seq<ContractModel>,
    deployed: Seq<u8>,
    creation: Option<Seq<u8>>,
) -> Option<int> {
    match spec_first_with(cs, deployed, creation, MatchResult::Full) {
        Some(i) => Some(i),
        None => spec_first_with(cs, deployed, creation, MatchResult::Partial),
    }
}

/// Models of a list of emitted contracts.
pub open spec fn spec_models(cs: Seq<Contract>) -> Seq<ContractModel> {
    cs.map_values(|c: Contract| c@)
}

pub proof fn lemma_first_with_correct(
    cs: Seq<ContractModel>,
    deployed: Seq<u8>,
    creation: Option<Seq<u8>>,
    g: MatchResult,
)
    ensures
        match spec_first_with(cs, deployed, creation, g) {
            Some(i) => 0 <= i < cs.len() && spec_has_grade(cs[i], deployed, creation, g)
                && forall|j: int| 0 <= j < i ==> !spec_has_grade(cs[j], deployed, creation, g),
            None => forall|j: int|
                0 <= j < cs.len() ==> !spec_has_grade(cs[j], deployed, creation, g),
        },
    decreases cs.len(),
{
    if cs.len() > 0 && !spec_has_grade(cs[0], deployed, creation, g) {
        lemma_first_with_correct(cs.skip(1), deployed, creation, g);
        assert(forall|j: int| 1 <= j < cs.len() ==> cs[j] == cs.skip(1)[j - 1]);
    }
}

/// When some contract achieves a `Full` match, the chosen contract is the
/// first such contract, never a `Partial` one.
pub proof fn lemma_chosen_prefers_full(
    cs: Seq<ContractModel>,
    deployed: Seq<u8>,
    creation: Option<Seq<u8>>,
    i: int,
)
    requires
        0 <= i < cs.len(),
        spec_has_grade(cs[i], deployed, creation, MatchResult::Full),
    ensures
        spec_chosen(cs, deployed, creation) matches Some(k) && spec_has_grade(
            cs[k],
            deployed,
            creation,
            MatchResult::Full,
        ) && (forall|j: int| 0 <= j < k ==> !spec_has_grade(cs[j], deployed, creation,
            MatchResult::Full,
        )),
{
    lemma_first_with_correct(cs, deployed, creation, MatchResult::Full);
}

/// When no contract matches at any grade, no contract is chosen.
pub proof fn lemma_no_match_means_no_choice(
    cs: Seq<ContractModel>,
    deployed: Seq<u8>,
    creation: Option<Seq<u8>>,
)
    requires
        forall|j: int| 0 <= j < cs.len() ==> spec_contract_grade(cs[j], deployed, creation)
            is None,
    ensures
        spec_chosen(cs, deployed, creation) is None,
{
    lemma_first_with_correct(cs, deployed, creation, MatchResult::Full);
    lemma_first_with_correct(cs, deployed, creation, MatchResult::Partial);
}

/// The verification engine for one request: the requested version, the
/// on-chain bytecodes to match, and the chain identifier carried only for
/// observability (it never affects matching).
pub struct ContractVerifier {
    compiler_version: Version,
    creation_bytecode: Option<Vec<u8>>,
    deployed_bytecode: Vec<u8>,
    chain_id: Option<String>,
}

/// `s` is the success a verifier with the given version and bytecodes
/// owes for the chosen contract `c`.
pub open spec fn spec_success_of(
    s: Success,
    c: ContractModel,
    version: (int, int, int, Option<Seq<char>>),
    deployed: Seq<u8>,
    creation: Option<Seq<u8>>,
) -> bool {
    &&& s.contract_name@ == c.name
    &&& s.abi@ == c.abi
    &&& s.bytecode@ == c.deployed_bytecode
    &&& s.compiler_version@ == version
    &&& spec_contract_grade(c, deployed, creation) == Some(
        (
            s.match_result,
            match s.constructor_args {
                Some(a) => Some(a@),
                None => None,
            },
        ),
    )
}

impl ContractVerifier {
    pub closed spec fn version(&self) -> (int, int, int, Option<Seq<char>>) {
        self.compiler_version@
    }

    pub closed spec fn deployed(&self) -> Seq<u8> {
        self.deployed_bytecode@
    }

    pub closed spec fn creation(&self) -> Option<Seq<u8>> {
        match self.creation_bytecode {
            Some(v) => Some(v@),
            None => None,
        }
    }

    pub closed spec fn chain(&self) -> Option<Seq<char>> {
        match self.chain_id {
            Some(c) => Some(c@),
            None => None,
        }
    }

    /// Builds a verifier; rejects empty deployed bytecode. The chain
    /// identifier is retained only for observability.
    pub fn new(
        compiler_version: &Version,
        creation_bytecode: Option<bytes::Bytes>,
        deployed_bytecode: bytes::Bytes,
        chain_id: Option<String>,
    ) -> (r: Result<ContractVerifier, Error>)
        ensures
            bytes_model(deployed_bytecode).len() == 0 ==> (r matches Err(e) && (e matches
                Error::InvalidRequest(m) && m@ == "deployed bytecode is empty"@)),
            bytes_model(deployed_bytecode).len() > 0 ==> (r matches Ok(v) && v.deployed()
                == bytes_model(deployed_bytecode) && v.version() == compiler_version@ && (match
            creation_bytecode {
                Some(b) => v.creation() == Some(bytes_model(b)),
                None => v.creation() is None,
            }) && (match chain_id {
                Some(c) => v.chain() == Some(c@),
                None => v.chain() is None,
            })),
    {
        let deployed = bytes_to_vec(&deployed_bytecode);
        if deployed.len() == 0 {
            return Err(Error::InvalidRequest("deployed bytecode is empty".to_owned()));
        }
        let creation = match &creation_bytecode {
            Some(b) => Some(bytes_to_vec(b)),
            None => None,
        };
        Ok(
            ContractVerifier {
                compiler_version: compiler_version.clone(),
                creation_bytecode: creation,
                deployed_bytecode: deployed,
                chain_id,
            },
        )
    }

    /// Grade and constructor-argument remainder of one emitted contract
    /// against this request.
    fn grade_contract(&self, c: &Contract) -> (r: Option<(MatchResult, Option<Vec<u8>>)>)
        ensures
            match spec_contract_grade(c@, self.deployed(), self.creation()) {
                Some(p) => r matches Some(q) && q.0 == p.0 && (match p.1 {
                    Some(a) => q.1 matches Some(v) && v@ == a,
                    None => q.1 is None,
                }),
                None => r is None,
            },
    {
        let g = match match_bytecode(c.deployed_bytecode.as_slice(),
            self.deployed_bytecode.as_slice()) {
            Some(g) => g,
            None => {
                return None;
            },
        };
        match &self.creation_bytecode {
            None => Some((g, None)),
            Some(cr) => match constructor_arguments(c.bytecode.as_slice(), cr.as_slice()) {
                Some(a) => Some((g, Some(a))),
                None => None,
            },
        }
    }

    /// Chooses among the emitted contracts and builds the response:
    /// the first `Full` match, else the first `Partial` match, else
    /// `NoMatchingContracts`.
    pub fn verify_contracts(&self, contracts: &Vec<Contract>) -> (r: Result<Success, Error>)
        ensures
            ({
                let cs = spec_models(contracts@);
                match spec_chosen(cs, self.deployed(), self.creation()) {
                    Some(i) => r matches Ok(s) && spec_success_of(
                        s,
                        cs[i],
                        self.version(),
                        self.deployed(),
                        self.creation(),
                    ),
                    None => r == Err::<Success, Error>(Error::NoMatchingContracts),
                }
            }),
    {
        let ghost cs = spec_models(contracts@);
        let ghost d = self.deployed();
        let ghost cr = self.creation();
        let n = contracts.len();
        let mut first_full: Option<usize> = None;
        let mut first_partial: Option<usize> = None;
        let mut i: usize = 0;
        while i < n
            invariant
                i <= n,
                n == contracts@.len(),
                cs == spec_models(contracts@),
                d == self.deployed(),
                cr == self.creation(),
                match first_full {
                    Some(k) => k < i && spec_has_grade(cs[k as int], d, cr, MatchResult::Full)
                        && forall|j: int|
                        0 <= j < k ==> !spec_has_grade(cs[j], d, cr, MatchResult::Full),
                    None => forall|j: int|
                        0 <= j < i ==> !spec_has_grade(cs[j], d, cr, MatchResult::Full),
                },
                match first_partial {
                    Some(k) => k < i && spec_has_grade(cs[k as int], d, cr, MatchResult::Partial)
                        && forall|j: int|
                        0 <= j < k ==> !spec_has_grade(cs[j], d, cr, MatchResult::Partial),
                    None => forall|j: int|
                        0 <= j < i ==> !spec_has_grade(cs[j], d, cr, MatchResult::Partial),
                },
            decreases n - i,
        {
            match self.grade_contract(&contracts[i]) {
                Some((g, _)) => match g {
                    MatchResult::Full => {
                        if first_full.is_none() {
                            first_full = Some(i);
                        }
                    },
                    MatchResult::Partial => {
                        if first_partial.is_none() {
                            first_partial = Some(i);
                        }
                    },
                },
                None => {},
            }
            i = i + 1;
        }
        proof {
            lemma_first_with_correct(cs, d, cr, MatchResult::Full);
            lemma_first_with_correct(cs, d, cr, MatchResult::Partial);
        }
        let chosen: usize = match (first_full, first_partial) {
            (Some(k), _) => k,
            (None, Some(k)) => k,
            (None, None) => {
                return Err(Error::NoMatchingContracts);
            },
        };
        let grade = match first_full {
            Some(_) => MatchResult::Full,
            None => MatchResult::Partial,
        };
        proof {
            assert(spec_chosen(cs, d, cr) == Some(chosen as int));
            assert(spec_has_grade(cs[chosen as int], d, cr, grade));
        }
        let c = &contracts[chosen];
        let constructor_args = match &self.creation_bytecode {
            None => None,
            Some(creation) => match constructor_arguments(c.bytecode.as_slice(),
                creation.as_slice()) {
                Some(a) => Some(a),
                None => {
                    // A chosen contract's grade already includes a
                    // constructor-argument remainder whenever creation
                    // bytecode is set, so this branch cannot be reached.
                    proof {
                        assert(false);
                    }
                    None
                },
            },
        };
        Ok(
            Success {
                contract_name: c.name.clone(),
                abi: c.abi.clone(),
                bytecode: vstd::slice::slice_to_vec(c.deployed_bytecode.as_slice()),
                compiler_version: self.compiler_version.clone(),
                match_result: grade,
                constructor_args,
            },
        )
    }

    /// Turns the outcome of obtaining and running the compiler into the
    /// response: manager failures and compiler diagnostics map to their
    /// errors — the diagnostics verbatim — and artifacts are matched.
    pub fn interpret_outcome(&self, outcome: RunOutcome) -> (r: Result<Success, Error>)
        ensures
            outcome matches RunOutcome::VersionNotFound ==> r == Err::<Success, Error>(
                Error::VersionNotFound,
            ),
            outcome matches RunOutcome::FetchUnavailable(m) ==> (r matches Err(e) && (e matches
                Error::FetchUnavailable(m2) && m2 == m)),
            outcome matches RunOutcome::CorruptArtifact(m) ==> (r matches Err(e) && (e matches
                Error::CorruptArtifact(m2) && m2 == m)),
            outcome matches RunOutcome::Failure(diag) ==> (r matches Err(e) && (e matches
                Error::CompilationFailed(d2) && d2 == diag)),
            outcome matches RunOutcome::Artifacts(contracts) ==> ({
                let cs = spec_models(contracts@);
                match spec_chosen(cs, self.deployed(), self.creation()) {
                    Some(i) => r matches Ok(s) && spec_success_of(
                        s,
                        cs[i],
                        self.version(),
                        self.deployed(),
                        self.creation(),
                    ),
                    None => r == Err::<Success, Error>(Error::NoMatchingContracts),
                }
            }),
            r matches Err(e) ==> !(e matches Error::InvalidRequest(m)),
    {
        match outcome {
            RunOutcome::VersionNotFound => Err(Error::VersionNotFound),
            RunOutcome::FetchUnavailable(m) => Err(Error::FetchUnavailable(m)),
            RunOutcome::CorruptArtifact(m) => Err(Error::CorruptArtifact(m)),
            RunOutcome::Failure(diag) => Err(Error::CompilationFailed(diag)),
            RunOutcome::Artifacts(contracts) => self.verify_contracts(&contracts),
        }
    }

    /// Runs the compiler through the given runner and matches its output.
    /// Whatever the runner returns, a success carries this request's
    /// version, bytecode matching the deployed bytecode at the stated
    /// grade, and a constructor-argument remainder exactly when creation
    /// bytecode was supplied.
    pub fn verify<R: CompilerRunner>(&self, runner: &R, compiler_input: &CompilerInput) -> (r:
        Result<Success, Error>)
        ensures
            r matches Ok(s) ==> (s.compiler_version@ == self.version() && spec_match_grade(
                s.bytecode@,
                self.deployed(),
            ) == Some(s.match_result) && (self.creation() is Some <==> s.constructor_args is Some)),
            r matches Err(e) ==> !(e matches Error::InvalidRequest(m)),
    {
        let outcome = runner.run(&self.compiler_version, compiler_input);
        self.interpret_outcome(outcome)
    }
}

} // verus!
