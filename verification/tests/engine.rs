//! Tests of the bytecode matching engine and the client facade.

use std::sync::{Arc, Mutex};

use smart_contract_verifier::bytecode::{
    constructor_arguments, match_bytecode, metadata_length, MatchResult,
};
use smart_contract_verifier::engine::{
    CompilerRunner, Contract, ContractVerifier, Error, RunOutcome, Success,
};
use smart_contract_verifier::input::CompilerInput;
use smart_contract_verifier::version::Version;
use smart_contract_verifier::vyper::multi_part::{
    verify, Client, Middleware, MultiFileContent, VerificationRequest,
};

/// Bytecode whose trailing metadata section holds `meta` (the two length
/// bytes are appended here).
fn with_metadata(body: &[u8], meta: &[u8]) -> Vec<u8> {
    let mut code = body.to_vec();
    code.extend_from_slice(meta);
    code.push(0x00);
    code.push(meta.len() as u8);
    code
}

fn version() -> Version {
    Version::parse("v0.3.7+commit.6020b8bb").unwrap()
}

fn verifier_for(deployed: &[u8], creation: Option<&[u8]>) -> ContractVerifier {
    ContractVerifier::new(
        &version(),
        creation.map(|c| bytes::Bytes::from(c.to_vec())),
        bytes::Bytes::from(deployed.to_vec()),
        Some("77".to_string()),
    )
    .unwrap()
}

#[test]
fn metadata_length_reads_trailing_bytes() {
    let code = with_metadata(&[1, 2, 3], &[0xaa, 0xbb]);
    assert_eq!(metadata_length(&code), Some(4));
    assert_eq!(metadata_length(&[0x00, 0x05]), None);
    assert_eq!(metadata_length(&[0x01]), None);
    assert_eq!(metadata_length(&[]), None);
}

#[test]
fn identical_bytecode_is_full_match() {
    let code = with_metadata(&[1, 2, 3], &[0xaa, 0xbb]);
    assert_eq!(match_bytecode(&code, &code), Some(MatchResult::Full));
}

#[test]
fn metadata_difference_is_partial_match() {
    let compiled = with_metadata(&[1, 2, 3], &[0xaa, 0xbb]);
    let deployed = with_metadata(&[1, 2, 3], &[0xcc, 0xdd]);
    assert_eq!(match_bytecode(&compiled, &deployed), Some(MatchResult::Partial));
}

#[test]
fn difference_outside_metadata_is_no_match() {
    let compiled = with_metadata(&[1, 2, 3], &[0xaa, 0xbb]);
    let deployed = with_metadata(&[9, 2, 3], &[0xaa, 0xbb]);
    assert_eq!(match_bytecode(&compiled, &deployed), None);
    assert_eq!(match_bytecode(&[1, 2], &[1, 2, 3]), None);
}

#[test]
fn trailing_bytes_are_constructor_arguments() {
    let compiled = with_metadata(&[7, 7], &[0x11]);
    let mut creation = compiled.clone();
    creation.extend_from_slice(&[0xde, 0xad, 0xbe, 0xef]);
    let args = constructor_arguments(&compiled, &creation).unwrap();
    assert_eq!(args, vec![0xde, 0xad, 0xbe, 0xef]);
    assert_eq!(constructor_arguments(&compiled, &compiled), Some(vec![]));
    // A shorter or differing creation prefix is no match at all.
    assert_eq!(constructor_arguments(&compiled, &compiled[..3]), None);
    let mut wrong = creation.clone();
    wrong[0] ^= 0xff;
    assert_eq!(constructor_arguments(&compiled, &wrong), None);
}

fn contract(name: &str, bytecode: Vec<u8>, deployed: Vec<u8>) -> Contract {
    Contract {
        name: name.to_string(),
        abi: format!("[\"{name}\"]"),
        bytecode,
        deployed_bytecode: deployed,
    }
}

#[test]
fn full_match_returns_compiled_bytecode_and_version() {
    let code = with_metadata(&[1, 2, 3], &[0xaa, 0xbb]);
    let v = verifier_for(&code, None);
    let contracts = vec![contract("A", vec![0x60], code.clone())];
    let s = v.verify_contracts(&contracts).unwrap();
    assert_eq!(s.contract_name, "A");
    assert_eq!(s.match_result, MatchResult::Full);
    assert_eq!(s.bytecode, code);
    assert_eq!(s.compiler_version.major, 0);
    assert_eq!(s.compiler_version.minor, 3);
    assert_eq!(s.compiler_version.patch, 7);
    assert_eq!(s.constructor_args, None);
}

#[test]
fn partial_match_returns_compiled_not_deployed_bytecode() {
    let compiled = with_metadata(&[1, 2, 3], &[0xaa, 0xbb]);
    let deployed = with_metadata(&[1, 2, 3], &[0xcc, 0xdd]);
    let v = verifier_for(&deployed, None);
    let contracts = vec![contract("A", vec![0x60], compiled.clone())];
    let s = v.verify_contracts(&contracts).unwrap();
    assert_eq!(s.match_result, MatchResult::Partial);
    assert_eq!(s.bytecode, compiled);
    assert_ne!(s.bytecode, deployed);
}

#[test]
fn creation_remainder_has_exactly_the_trailing_bytes() {
    let runtime = with_metadata(&[1, 2, 3], &[0xaa]);
    let creation_compiled = with_metadata(&[0xf0, 0xf1], &[0xbb]);
    let mut creation_chain = creation_compiled.clone();
    creation_chain.extend_from_slice(&[5, 6, 7, 8, 9]);
    let v = verifier_for(&runtime, Some(&creation_chain));
    let contracts = vec![contract("A", creation_compiled, runtime.clone())];
    let s = v.verify_contracts(&contracts).unwrap();
    assert_eq!(s.match_result, MatchResult::Full);
    assert_eq!(s.constructor_args, Some(vec![5, 6, 7, 8, 9]));
}

#[test]
fn no_matching_contracts_error() {
    let v = verifier_for(&[1, 2, 3], None);
    let contracts = vec![
        contract("A", vec![], with_metadata(&[4, 5], &[])),
        contract("B", vec![], vec![7, 7, 7]),
    ];
    assert_eq!(v.verify_contracts(&contracts), Err(Error::NoMatchingContracts));
    assert_eq!(v.verify_contracts(&vec![]), Err(Error::NoMatchingContracts));
}

#[test]
fn full_match_preferred_over_earlier_partial() {
    let compiled = with_metadata(&[1, 2, 3], &[0xaa, 0xbb]);
    let deployed = with_metadata(&[1, 2, 3], &[0xcc, 0xdd]);
    let v = verifier_for(&deployed, None);
    let contracts = vec![
        contract("PartialOne", vec![], compiled.clone()),
        contract("FullOne", vec![], deployed.clone()),
    ];
    let s = v.verify_contracts(&contracts).unwrap();
    assert_eq!(s.contract_name, "FullOne");
    assert_eq!(s.match_result, MatchResult::Full);
}

#[test]
fn tie_break_takes_first_in_emitted_order() {
    let code = with_metadata(&[1, 2, 3], &[0xaa, 0xbb]);
    let v = verifier_for(&code, None);
    let contracts = vec![
        contract("First", vec![], code.clone()),
        contract("Second", vec![], code.clone()),
    ];
    let s = v.verify_contracts(&contracts).unwrap();
    assert_eq!(s.contract_name, "First");
}

#[test]
fn compiler_diagnostics_are_carried_verbatim() {
    let v = verifier_for(&[1, 2, 3], None);
    let diag = "line 3: undeclared identifier `selfdestructt`".to_string();
    let r = v.interpret_outcome(RunOutcome::Failure(diag.clone()));
    assert_eq!(r, Err(Error::CompilationFailed(diag)));
}

#[test]
fn manager_failures_map_to_their_errors() {
    let v = verifier_for(&[1, 2, 3], None);
    assert_eq!(v.interpret_outcome(RunOutcome::VersionNotFound), Err(Error::VersionNotFound));
    assert_eq!(
        v.interpret_outcome(RunOutcome::FetchUnavailable("dns".to_string())),
        Err(Error::FetchUnavailable("dns".to_string()))
    );
    assert_eq!(
        v.interpret_outcome(RunOutcome::CorruptArtifact("bad checksum".to_string())),
        Err(Error::CorruptArtifact("bad checksum".to_string()))
    );
}

#[test]
fn empty_deployed_bytecode_is_invalid_request() {
    let r = ContractVerifier::new(&version(), None, bytes::Bytes::new(), None);
    match r {
        Err(Error::InvalidRequest(m)) => assert_eq!(m, "deployed bytecode is empty"),
        Err(e) => panic!("expected InvalidRequest, got {e:?}"),
        Ok(_) => panic!("expected an error"),
    }
}

#[test]
fn compiler_input_sources_are_sorted_and_unique() {
    let content = MultiFileContent {
        sources: vec![
            ("b.vy".to_string(), "bee".to_string()),
            ("a.vy".to_string(), "ay".to_string()),
            ("b.vy".to_string(), "bee-final".to_string()),
        ],
        evm_version: None,
    };
    let input = CompilerInput::from(content);
    // One entry per path, ascending path order, the last text for a
    // path named twice.
    assert_eq!(
        input.sources,
        vec![
            ("a.vy".to_string(), "ay".to_string()),
            ("b.vy".to_string(), "bee-final".to_string()),
        ]
    );
}

#[test]
fn compiler_input_fixes_language_and_settings() {
    let content = MultiFileContent {
        sources: vec![("a.vy".to_string(), "x: uint256".to_string())],
        evm_version: Some("istanbul".to_string()),
    };
    let input = CompilerInput::from(content);
    assert_eq!(input.language, "Vyper");
    assert_eq!(input.sources.len(), 1);
    assert_eq!(input.sources[0].0, "a.vy");
    assert_eq!(input.settings.optimizer.enabled, None);
    assert_eq!(input.settings.optimizer.runs, None);
    assert_eq!(input.settings.evm_version, Some("istanbul".to_string()));
}

struct FakeRunner {
    contracts: Vec<(String, String, Vec<u8>, Vec<u8>)>,
    seen_inputs: Arc<Mutex<Vec<(String, usize)>>>,
}

impl CompilerRunner for FakeRunner {
    fn run(&self, _compiler_version: &Version, compiler_input: &CompilerInput) -> RunOutcome {
        self.seen_inputs
            .lock()
            .unwrap()
            .push((compiler_input.language.clone(), compiler_input.sources.len()));
        RunOutcome::Artifacts(
            self.contracts
                .iter()
                .map(|(name, abi, bytecode, deployed)| Contract {
                    name: name.clone(),
                    abi: abi.clone(),
                    bytecode: bytecode.clone(),
                    deployed_bytecode: deployed.clone(),
                })
                .collect(),
        )
    }
}

struct Recorder {
    seen: Arc<Mutex<Vec<String>>>,
}

impl Middleware for Recorder {
    fn call(&self, success: &Success) {
        self.seen.lock().unwrap().push(success.contract_name.clone());
    }
}

#[test]
fn end_to_end_two_files_three_contracts_full_match_on_second() {
    // Two source files; the second declares two contracts. The deployed
    // bytecode matches the second contract of that file exactly.
    let code_a = with_metadata(&[0x10], &[0x01]);
    let code_b = with_metadata(&[0x20, 0x21], &[0x02]);
    let code_c = with_metadata(&[0x30], &[0x03]);
    let creation_b = with_metadata(&[0xb0, 0xb1], &[0x04]);
    let seen_inputs = Arc::new(Mutex::new(Vec::new()));
    let runner = FakeRunner {
        contracts: vec![
            ("A".to_string(), "[]".to_string(), vec![], code_a),
            ("B".to_string(), "[\"B\"]".to_string(), creation_b.clone(), code_b.clone()),
            ("C".to_string(), "[]".to_string(), vec![], code_c),
        ],
        seen_inputs: seen_inputs.clone(),
    };
    let seen = Arc::new(Mutex::new(Vec::new()));
    let client = Client::with_middleware(runner, Recorder { seen: seen.clone() });
    let request = VerificationRequest {
        deployed_bytecode: bytes::Bytes::from(code_b.clone()),
        creation_bytecode: Some(bytes::Bytes::from(creation_b)),
        compiler_version: version(),
        content: MultiFileContent {
            sources: vec![
                ("one.vy".to_string(), "x: uint256".to_string()),
                ("two.vy".to_string(), "y: uint256".to_string()),
            ],
            evm_version: None,
        },
        chain_id: Some("5".to_string()),
    };
    let s = verify(&client, request).unwrap();
    assert_eq!(s.contract_name, "B");
    assert_eq!(s.abi, "[\"B\"]");
    assert_eq!(s.match_result, MatchResult::Full);
    assert_eq!(s.bytecode, code_b);
    assert_eq!(s.constructor_args, Some(vec![]));
    // The middleware observed exactly this success.
    assert_eq!(seen.lock().unwrap().clone(), vec!["B".to_string()]);
    // The compiler saw the fixed language and both source files.
    assert_eq!(seen_inputs.lock().unwrap().clone(), vec![("Vyper".to_string(), 2)]);
}

#[test]
fn facade_rejects_empty_deployed_bytecode() {
    let runner = FakeRunner { contracts: vec![], seen_inputs: Arc::new(Mutex::new(Vec::new())) };
    let client: Client<FakeRunner, Recorder> = Client::new(runner);
    let request = VerificationRequest {
        deployed_bytecode: bytes::Bytes::new(),
        creation_bytecode: None,
        compiler_version: version(),
        content: MultiFileContent { sources: vec![], evm_version: None },
        chain_id: None,
    };
    assert_eq!(
        verify(&client, request),
        Err(Error::InvalidRequest("deployed bytecode is empty".to_string()))
    );
}

#[test]
fn middleware_absent_still_succeeds() {
    let code = with_metadata(&[0x42], &[]);
    let runner = FakeRunner {
        contracts: vec![("Only".to_string(), "[]".to_string(), vec![], code.clone())],
        seen_inputs: Arc::new(Mutex::new(Vec::new())),
    };
    let client: Client<FakeRunner, Recorder> = Client::new(runner);
    let request = VerificationRequest {
        deployed_bytecode: bytes::Bytes::from(code),
        creation_bytecode: None,
        compiler_version: version(),
        content: MultiFileContent { sources: vec![], evm_version: None },
        chain_id: None,
    };
    let s = verify(&client, request).unwrap();
    assert_eq!(s.contract_name, "Only");
    assert_eq!(s.constructor_args, None);
}
