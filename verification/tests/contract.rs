use contract_runtime::contract::chaincode::Chaincode;
use contract_runtime::contract::pipeline::{BuildAction, BuildError, BuildEvent, BuildProcess, BuildStage};
use contract_runtime::contract::solidity::Solidity;
use contract_runtime::contract::{self, Contract, ContractError, ContractKind};
use contract_runtime::service::Service;

fn expect_run(action: &BuildAction) -> (String, Vec<String>, Option<String>) {
    match action {
        BuildAction::Run { program, args, current_dir } => (program.clone(), args.clone(), current_dir.clone()),
        _ => panic!("expected a run"),
    }
}

fn expect_listing(action: &BuildAction) -> (String, String) {
    match action {
        BuildAction::ListFiles { dir, extension } => (dir.clone(), extension.clone()),
        _ => panic!("expected a listing"),
    }
}

fn listed(files: &[&str]) -> BuildEvent {
    BuildEvent::Listed(Ok(files.iter().map(|f| f.to_string()).collect()))
}

#[test]
fn contract_types() {
    assert!(matches!(contract::new("chaincode"), Ok(ContractKind::Chaincode(_))));
    assert!(matches!(contract::new("solidity"), Ok(ContractKind::Solidity(_))));
    assert!(matches!(contract::new("java"), Err(ContractError::Unsupported)));
    assert!(matches!(contract::new(""), Err(ContractError::Unsupported)));
    assert_eq!(Chaincode::TYPE_ID, "chaincode");
    assert_eq!(Solidity::TYPE_ID, "solidity");
}

#[test]
fn chaincode_build_runs_go() {
    let (mut p, a) = Chaincode::new().build("src/hello");
    let (program, args, dir) = expect_run(&a);
    assert_eq!(program, "go");
    assert_eq!(
        args,
        vec!["build", "-ldflags", "-w -extldflags \"-static\"", "-o", "src/hello/.build/app", "src/hello"]
    );
    assert_eq!(dir.as_deref(), Some("src/hello"));
    let next = p.resume(BuildEvent::Ran(Ok(vec![])));
    assert!(matches!(next, BuildAction::Finish(Ok(()))));
    assert!(matches!(p.stage, BuildStage::Finished));
}

#[test]
fn chaincode_build_fails_on_compiler_output() {
    let (mut p, _) = Chaincode::new().build("x");
    let next = p.resume(BuildEvent::Ran(Ok(b"undefined: foo".to_vec())));
    match next {
        BuildAction::Finish(Err(BuildError::ToolOutput(Ok(text)))) => assert_eq!(text, "undefined: foo"),
        _ => panic!("expected compiler output"),
    }
    let (mut p, _) = Chaincode::new().build("x");
    let next = p.resume(BuildEvent::Ran(Ok(vec![0xff, 0xfe])));
    match next {
        BuildAction::Finish(Err(BuildError::ToolOutput(Err(text)))) => {
            assert_eq!(text, "invalid utf-8 sequence of 1 bytes from index 0")
        }
        _ => panic!("expected a decoding error"),
    }
    let (mut p, _) = Chaincode::new().build("x");
    let next = p.resume(BuildEvent::Ran(Err(String::from("no go"))));
    match next {
        BuildAction::Finish(Err(BuildError::CompileFailed(cause))) => assert_eq!(cause, "no go"),
        _ => panic!("expected a launch failure"),
    }
}

#[test]
fn solidity_build_full_run() {
    let (mut p, a) = Solidity::new().build("sol");
    assert_eq!(expect_listing(&a), (String::from("sol"), String::from("sol")));
    let a = p.resume(listed(&["sol/a.sol", "sol/b.sol"]));
    let (program, args, dir) = expect_run(&a);
    assert_eq!(program, "solc");
    assert_eq!(args, vec!["--overwrite", "--bin", "--abi", "-o", "sol", "sol/a.sol sol/b.sol"]);
    assert_eq!(dir, None);
    let a = p.resume(BuildEvent::Ran(Ok(vec![])));
    assert_eq!(expect_listing(&a), (String::from("sol"), String::from("bin")));
    let a = p.resume(listed(&["sol/A.bin"]));
    assert_eq!(expect_listing(&a), (String::from("sol"), String::from("abi")));
    let a = p.resume(listed(&["sol/A.abi"]));
    let (program, args, _) = expect_run(&a);
    assert_eq!(program, "abigen");
    assert_eq!(
        args,
        vec!["--bin", "sol/A.bin", "--abi", "sol/A.abi", "--pkg", "main", "--type", "contract", "--out", "sol/main.go"]
    );
    let a = p.resume(BuildEvent::Ran(Ok(vec![])));
    assert!(matches!(a, BuildAction::Finish(Ok(()))));
}

#[test]
fn solidity_build_failures() {
    let (mut p, _) = Solidity::new().build("s");
    assert!(matches!(p.resume(listed(&[])), BuildAction::Finish(Err(BuildError::NoSourceFile))));
    let (mut p, _) = Solidity::new().build("s");
    assert!(matches!(
        p.resume(BuildEvent::Listed(Err(String::from("gone")))),
        BuildAction::Finish(Err(BuildError::SourceUnreadable(_)))
    ));
    let mut p = BuildProcess { path: String::from("s"), stage: BuildStage::ListBinFiles };
    assert!(matches!(p.resume(listed(&[])), BuildAction::Finish(Err(BuildError::NoBinFile))));
    let mut p = BuildProcess { path: String::from("s"), stage: BuildStage::ListBinFiles };
    assert!(matches!(
        p.resume(BuildEvent::Listed(Err(String::from("io")))),
        BuildAction::Finish(Err(BuildError::BinUnreadable(_)))
    ));
    let mut p = BuildProcess { path: String::from("s"), stage: BuildStage::ListAbiFiles { bin_files: vec![] } };
    assert!(matches!(p.resume(listed(&["a.abi"])), BuildAction::Finish(Err(BuildError::NoAbiFile))));
    let mut p = BuildProcess {
        path: String::from("s"),
        stage: BuildStage::ListAbiFiles { bin_files: vec![String::from("a.bin")] },
    };
    assert!(matches!(
        p.resume(BuildEvent::Listed(Err(String::from("io")))),
        BuildAction::Finish(Err(BuildError::AbiUnreadable(_)))
    ));
    let mut p = BuildProcess { path: String::from("s"), stage: BuildStage::GenerateBinding };
    assert!(matches!(
        p.resume(BuildEvent::Ran(Err(String::from("no abigen")))),
        BuildAction::Finish(Err(BuildError::GenerateFailed(_)))
    ));
    let mut p = BuildProcess { path: String::from("s"), stage: BuildStage::CompileSolidity };
    assert!(matches!(
        p.resume(BuildEvent::Ran(Ok(b"Error".to_vec()))),
        BuildAction::Finish(Err(BuildError::ToolOutput(Ok(_))))
    ));
}

#[test]
fn service_starts_builds() {
    let svc = Service::new();
    let (p, a) = svc.build("solidity", "dir").ok().unwrap();
    assert!(matches!(p.stage, BuildStage::ListSoliditySources));
    assert_eq!(expect_listing(&a), (String::from("dir"), String::from("sol")));
    let (p, a) = svc.build("chaincode", "dir").ok().unwrap();
    assert!(matches!(p.stage, BuildStage::CompileChaincode));
    assert_eq!(expect_run(&a).0, "go");
    assert!(matches!(svc.build("rust", "dir"), Err(ContractError::Unsupported)));
}
