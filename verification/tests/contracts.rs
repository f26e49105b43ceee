use pyrometer_fiesta::collect::{ContractCollector, Verdict};
use pyrometer_fiesta::invocation::{
    find_defining_file, pyrometer_binary, pyrometer_invocation, InvocationError,
};
use pyrometer_fiesta::metadata::{FiestaMetadata, SourceType};
use pyrometer_fiesta::settings::get_num_contracts;
use pyrometer_fiesta::sources::{
    collect_contract_sources, contract_source, extension_kind, is_contract_json,
    is_metadata_file, plan_contract_sources, ExtensionKind, SourceError, SourcePlan,
};

fn metadata(name: &str, version: &str) -> FiestaMetadata {
    FiestaMetadata {
        contract_name: name.to_string(),
        compiler_version: version.to_string(),
        runs: 200,
        optimization_used: true,
        bytecode_hash: "0xabc".to_string(),
        abs_path_to_dir: "".to_string(),
        source_type: None,
    }
}

fn with_source(name: &str, source: Option<SourceType>) -> FiestaMetadata {
    let mut contract = metadata(name, "v0.8.17+commit.8df45f5f");
    contract.source_type = source;
    contract
}

fn single(text: &str) -> Option<SourceType> {
    Some(SourceType::SingleMain(text.to_string()))
}

fn names(list: &[&str]) -> Vec<String> {
    list.iter().map(|name| name.to_string()).collect()
}

fn pairs(list: &[(&str, &str)]) -> Vec<(String, String)> {
    list.iter()
        .map(|(name, text)| (name.to_string(), text.to_string()))
        .collect()
}

#[test]
fn solidity_of_the_0_8_line_is_supported() {
    assert!(metadata("A", "v0.8.17+commit.8df45f5f").compiler_is_supported());
    assert!(metadata("A", "v0.8.").compiler_is_supported());
    assert!(!metadata("A", "v0.8").compiler_is_supported());
    assert!(!metadata("A", "v0.7.6+commit.7338295f").compiler_is_supported());
    assert!(!metadata("A", "0.8.17").compiler_is_supported());
    assert!(!metadata("A", "vyper:0.3.7").compiler_is_supported());
    assert!(!metadata("A", "v0.8.1 vyper").compiler_is_supported());
    assert!(!metadata("A", "").compiler_is_supported());
}

#[test]
fn updates_touch_one_field() {
    let mut contract = metadata("A", "v0.8.17");
    contract.update_path_to_dir("/contracts/ab/abcd");
    assert_eq!(contract.abs_path_to_dir, "/contracts/ab/abcd");
    assert!(contract.source_type.is_none());
    contract.update_source_type(SourceType::SingleMain("contract A {}".to_string()));
    assert_eq!(contract.source_type.as_ref().unwrap().to_string(), "SingleFile");
    assert_eq!(contract.abs_path_to_dir, "/contracts/ab/abcd");
    assert_eq!(contract.contract_name, "A");
    assert_eq!(contract.runs, 200);
}

#[test]
fn source_labels() {
    assert_eq!(SourceType::SingleMain("".to_string()).to_string(), "SingleFile");
    assert_eq!(SourceType::Multiple(vec![]).to_string(), "MultipleFiles");
    assert_eq!(SourceType::EtherscanMetadata("".to_string()).to_string(), "JSON");
}

#[test]
fn extensions_agree_with_the_standard_library() {
    for name in [
        "a.sol", ".sol", "..sol", "a.sol.", "a", "sol", "a.b.sol", "main.vy", "a.Sol", ".a.sol",
        "a.", "contract.json", "é.sol",
    ] {
        let expected = match std::path::Path::new(name).extension() {
            None => ExtensionKind::Missing,
            Some(extension) if extension == "sol" => ExtensionKind::Sol,
            Some(_) => ExtensionKind::Other,
        };
        assert_eq!(extension_kind(name), expected, "{}", name);
    }
}

#[test]
fn a_listing_may_end_at_contract_json() {
    assert!(is_contract_json("contract.json"));
    assert!(!is_contract_json("contracts.json"));
    for list in [
        vec!["a.sol", "contract.json"],
        vec!["a.sol", "contract.json", "LICENSE", "contract.json", "b.sol"],
    ] {
        assert!(matches!(plan(&list), Ok(SourcePlan::ContractJson(1))));
    }
}

#[test]
fn metadata_files_go_by_name() {
    assert!(is_metadata_file("metadata.json"));
    assert!(!is_metadata_file("Metadata.json"));
    assert!(!is_metadata_file("contract.json"));
}

fn plan(list: &[&str]) -> Result<SourcePlan, SourceError> {
    plan_contract_sources(&names(list))
}

#[test]
fn contract_json_is_taken_first() {
    assert!(matches!(
        plan(&["main.sol", "metadata.json", "contract.json", "other.sol"]),
        Ok(SourcePlan::ContractJson(2))
    ));
    // Even where another file has no extension.
    assert!(matches!(
        plan(&["LICENSE", "contract.json", "contract.json"]),
        Ok(SourcePlan::ContractJson(1))
    ));
}

#[test]
fn a_lone_solidity_file_is_taken() {
    assert!(matches!(
        plan(&["metadata.json", "Token.sol"]),
        Ok(SourcePlan::SingleSol(1))
    ));
}

#[test]
fn several_solidity_files_are_taken_together() {
    match plan(&["b.sol", "metadata.json", "a.sol"]) {
        Ok(found) => {
            assert!(matches!(found, SourcePlan::MultipleSol(_)));
            assert_eq!(found.files(), vec![0, 2]);
        }
        other => panic!("{:?}", other),
    }
}

#[test]
fn a_directory_may_hold_no_sources() {
    assert!(matches!(
        plan(&["metadata.json", "main.vy"]),
        Ok(SourcePlan::NoSources)
    ));
    assert!(matches!(plan(&[]), Ok(SourcePlan::NoSources)));
    assert!(SourcePlan::NoSources.files().is_empty());
}

#[test]
fn a_file_without_extension_is_refused() {
    assert!(matches!(
        plan(&["main.sol", "LICENSE", ".sol"]),
        Err(SourceError::NoExtension(1))
    ));
}

const SOURCES_JSON: &str = "{\"A.sol\":{\"content\":\"contract A {}\"}}";

#[test]
fn source_code_metadata_is_read() {
    for json in [
        SOURCES_JSON,
        "{\"language\":\"Solidity\",\"sources\":{\"A.sol\":{\"content\":\"\"}},\"settings\":{\"optimizer\":{}}}",
        "\"contract A {}\"",
        "{}",
    ] {
        match contract_source(
            &SourcePlan::ContractJson(0),
            pairs(&[("contract.json", json)]),
        ) {
            Ok(Some(SourceType::EtherscanMetadata(text))) => assert_eq!(text, json),
            other => panic!("{:?}", other),
        }
    }
}

#[test]
fn other_text_is_no_source_code_metadata() {
    for json in ["", "contract A {}", "[1]", "7", "{\"language\":\"Cobol\"}", "{"] {
        assert!(
            matches!(
                contract_source(
                    &SourcePlan::ContractJson(0),
                    pairs(&[("contract.json", json)]),
                ),
                Err(SourceError::InvalidContractJson)
            ),
            "{}",
            json
        );
    }
}

#[test]
fn one_file_makes_a_single_main() {
    match contract_source(
        &SourcePlan::SingleSol(3),
        pairs(&[("Token.sol", "contract Token {}")]),
    ) {
        Ok(Some(SourceType::SingleMain(text))) => assert_eq!(text, "contract Token {}"),
        other => panic!("{:?}", other),
    }
}

#[test]
fn several_files_are_put_in_the_order_of_their_names() {
    match contract_source(
        &SourcePlan::MultipleSol(vec![0, 1, 2, 3]),
        pairs(&[("b.sol", "1"), ("a.sol", "2"), ("b.sol", "3"), ("B.sol", "4")]),
    ) {
        Ok(Some(SourceType::Multiple(files))) => assert_eq!(
            files,
            pairs(&[("B.sol", "4"), ("a.sol", "2"), ("b.sol", "1"), ("b.sol", "3")])
        ),
        other => panic!("{:?}", other),
    }
}

#[test]
fn sources_are_noted_where_there_are_some() {
    let mut contract = metadata("A", "v0.8.17");
    assert_eq!(
        collect_contract_sources(&mut contract, &SourcePlan::NoSources, vec![]),
        Ok(())
    );
    assert!(contract.source_type.is_none());

    assert_eq!(
        collect_contract_sources(
            &mut contract,
            &SourcePlan::ContractJson(0),
            pairs(&[("contract.json", "nonsense")]),
        ),
        Err(SourceError::InvalidContractJson)
    );
    assert!(contract.source_type.is_none());

    assert_eq!(
        collect_contract_sources(
            &mut contract,
            &SourcePlan::ContractJson(0),
            pairs(&[("contract.json", SOURCES_JSON)]),
        ),
        Ok(())
    );
    assert_eq!(contract.source_type.unwrap().to_string(), "JSON");
}

#[test]
fn a_walk_collects_what_is_eligible() {
    let candidates = vec![
        metadata("old", "v0.7.0"),
        with_source("skipped", single("")),
        metadata("vyper", "vyper:0.3.7"),
        with_source("skipped too", None),
        with_source("first", single("")),
        with_source("lost", None),
        with_source("second", single("")),
        with_source("beyond", single("")),
    ];
    let mut collector = ContractCollector::new(2, 2);
    let mut verdicts = Vec::new();
    for candidate in candidates {
        let verdict = collector.consider(&candidate);
        verdicts.push(verdict);
        if verdict == Verdict::Wanted && collector.accept(candidate) {
            break;
        }
    }
    assert_eq!(
        verdicts,
        vec![
            Verdict::Unsupported,
            Verdict::Skipped,
            Verdict::Unsupported,
            Verdict::Skipped,
            Verdict::Wanted,
            Verdict::Wanted,
            Verdict::Wanted,
        ]
    );
    assert!(collector.is_full());
    let collected: Vec<String> = collector
        .into_contracts()
        .into_iter()
        .map(|contract| contract.contract_name)
        .collect();
    assert_eq!(collected, vec!["first", "second"]);
}

#[test]
fn a_limit_of_zero_never_fills_up() {
    let mut collector = ContractCollector::new(0, 0);
    assert!(!collector.is_full());
    for _ in 0..3 {
        assert!(!collector.accept(with_source("A", single(""))));
    }
    assert_eq!(collector.into_contracts().len(), 3);
}

#[test]
fn asking_for_zero_contracts_collects_all_of_them() {
    let mut collector = ContractCollector::new(get_num_contracts(Some(0)), 1);
    for _ in 0..1200 {
        let contract = with_source("A", single(""));
        if collector.consider(&contract) == Verdict::Wanted {
            assert!(!collector.accept(contract));
        }
    }
    assert_eq!(collector.into_contracts().len(), 1199);
}

#[test]
fn a_single_main_panics_on_caught_errors() {
    let run = pyrometer_invocation(&with_source("A", single("contract A {}"))).unwrap();
    assert_eq!(run.file_name, "main.sol");
    assert_eq!(
        run.args("/dir/main.sol"),
        vec!["/dir/main.sol", "--debug", "--debug-panic"]
    );
}

#[test]
fn the_first_file_that_defines_the_contract_is_analysed() {
    let files = pairs(&[
        ("A.sol", "contract Token2 is B {}"),
        ("B.sol", "abstract contract Token {}"),
        ("C.sol", "contract Token is ERC20 {}"),
    ]);
    assert_eq!(find_defining_file(&files, "Token"), Some(1));
    let run = pyrometer_invocation(&with_source("Token", Some(SourceType::Multiple(files)))).unwrap();
    assert_eq!(run.file_name, "B.sol");
    assert_eq!(run.args("/dir/B.sol"), vec!["/dir/B.sol", "--debug"]);
}

#[test]
fn source_code_metadata_is_analysed_as_it_is() {
    let source = SourceType::EtherscanMetadata(SOURCES_JSON.to_string());
    let run = pyrometer_invocation(&with_source("A", Some(source))).unwrap();
    assert_eq!(run.file_name, "contract.json");
    assert_eq!(run.args("c"), vec!["c", "--debug"]);
}

#[test]
fn a_contract_without_definition_or_source_is_refused() {
    let files = pairs(&[("A.sol", "contract Token{}"), ("B.sol", "")]);
    assert_eq!(find_defining_file(&files, "Token"), None);
    assert!(matches!(
        pyrometer_invocation(&with_source("Token", Some(SourceType::Multiple(files)))),
        Err(InvocationError::ContractNotFound)
    ));
    assert!(matches!(
        pyrometer_invocation(&with_source("Token", None)),
        Err(InvocationError::NoSource)
    ));
}

#[test]
fn the_binary_is_that_of_a_release_build() {
    assert_eq!(pyrometer_binary(), vec!["target", "release", "pyrometer"]);
}
