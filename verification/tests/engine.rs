use reqev::doc::{DocEntry, DocNode};
use reqev::engine::{engine_step, interpret_response, EngineState, HttpOutcome, StepResult};
use reqev::errors::{ConfigError, PairPart, PairStructure, RunError};
use reqev::request::{CallDescriptor, RequestType};

fn text(value: &str) -> DocNode {
    DocNode::Text(value.to_string())
}

fn entry(key: &str, value: DocNode) -> DocEntry {
    DocEntry { key: key.to_string(), value }
}

fn kv_entry(key: &str, value: &str) -> DocNode {
    DocNode::Mapping(vec![entry("key", text(key)), entry("value", text(value))])
}

fn group(ty: &str, domain: &str, paths: &[&str]) -> Vec<DocEntry> {
    let api: Vec<DocNode> = paths.iter().map(|p| text(p)).collect();
    vec![entry("type", text(ty)), entry("domain", text(domain)), entry(
        "api",
        DocNode::Sequence(api),
    )]
}

fn plan(groups: Vec<DocNode>) -> DocNode {
    DocNode::Mapping(vec![entry("https", DocNode::Sequence(groups))])
}

/// Drives the engine until it stops, feeding every dispatched call the given
/// outcome, and returns the dispatched descriptors plus the final result.
fn run(root: &DocNode, outcomes: &[HttpOutcome]) -> (Vec<CallDescriptor>, Result<(), RunError>) {
    let mut dispatched = Vec::new();
    let mut state = EngineState::start();
    loop {
        match engine_step(root, &state) {
            StepResult::Dispatch(desc, next) => {
                let outcome = outcomes[dispatched.len()];
                dispatched.push(desc);
                state = next;
                if let Err(e) = interpret_response(&outcome) {
                    return (dispatched, Err(e));
                }
            }
            StepResult::Fatal(e) => return (dispatched, Err(e)),
            StepResult::Done => return (dispatched, Ok(())),
        }
    }
}

#[test]
fn test_valid_plan_dispatches_every_path_in_order() {
    let root = plan(vec![
        DocNode::Mapping(group("get", "one.example", &["/a", "/b"])),
        DocNode::Mapping(group("post", "two.example", &["/c"])),
    ]);

    let (calls, result) = run(&root, &[HttpOutcome::Status(200); 3]);

    assert_eq!(result, Ok(()));
    assert_eq!(calls.len(), 3);
    assert_eq!(calls[0].url, "https://one.example/a");
    assert_eq!(calls[0].method, RequestType::Get);
    assert_eq!(calls[1].url, "https://one.example/b");
    assert_eq!(calls[2].url, "https://two.example/c");
    assert_eq!(calls[2].method, RequestType::Post);
}

#[test]
fn test_missing_https_key_fails_before_any_call() {
    let root = DocNode::Mapping(vec![entry("http", DocNode::Sequence(vec![]))]);

    let (calls, result) = run(&root, &[]);

    assert_eq!(result, Err(RunError::Configuration(ConfigError::NoRequestsDefined)));
    assert_eq!(calls.len(), 0);
}

#[test]
fn test_null_https_fails_before_any_call() {
    let root = DocNode::Mapping(vec![entry("https", DocNode::Null)]);

    let (calls, result) = run(&root, &[]);

    assert_eq!(result, Err(RunError::Configuration(ConfigError::NoRequestsDefined)));
    assert_eq!(calls.len(), 0);
}

#[test]
fn test_non_sequence_https_is_malformed() {
    let root = DocNode::Mapping(vec![entry("https", text("nope"))]);

    let (calls, result) = run(&root, &[]);

    assert_eq!(result, Err(RunError::Configuration(ConfigError::PlanMalformed)));
    assert_eq!(calls.len(), 0);
}

#[test]
fn test_unsupported_type_aborts_after_earlier_groups() {
    let root = plan(vec![
        DocNode::Mapping(group("get", "one.example", &["/a"])),
        DocNode::Mapping(group("teapot", "two.example", &["/b", "/c"])),
        DocNode::Mapping(group("get", "three.example", &["/d"])),
    ]);

    let (calls, result) = run(&root, &[HttpOutcome::Status(200); 4]);

    assert_eq!(result, Err(RunError::UnsupportedRequestType));
    assert_eq!(calls.len(), 1);
    assert_eq!(calls[0].url, "https://one.example/a");
}

#[test]
fn test_missing_type_is_unsupported() {
    let root = plan(vec![DocNode::Mapping(vec![
        entry("domain", text("one.example")),
        entry("api", DocNode::Sequence(vec![text("/a")])),
    ])]);

    let (calls, result) = run(&root, &[]);

    assert_eq!(result, Err(RunError::UnsupportedRequestType));
    assert_eq!(calls.len(), 0);
}

#[test]
fn test_missing_domain_is_fatal() {
    let root = plan(vec![DocNode::Mapping(vec![
        entry("type", text("get")),
        entry("api", DocNode::Sequence(vec![text("/a")])),
    ])]);

    let (calls, result) = run(&root, &[]);

    assert_eq!(result, Err(RunError::Configuration(ConfigError::DomainMissing)));
    assert_eq!(calls.len(), 0);
}

#[test]
fn test_empty_domain_is_fatal() {
    let root = plan(vec![DocNode::Mapping(group("get", "", &["/a"]))]);

    let (calls, result) = run(&root, &[]);

    assert_eq!(result, Err(RunError::Configuration(ConfigError::DomainMissing)));
    assert_eq!(calls.len(), 0);
}

#[test]
fn test_missing_api_is_fatal() {
    let root = plan(vec![DocNode::Mapping(vec![
        entry("type", text("get")),
        entry("domain", text("one.example")),
    ])]);

    let (calls, result) = run(&root, &[]);

    assert_eq!(result, Err(RunError::Configuration(ConfigError::ApiMissing)));
    assert_eq!(calls.len(), 0);
}

#[test]
fn test_empty_api_group_yields_no_calls() {
    let root = plan(vec![
        DocNode::Mapping(group("get", "one.example", &[])),
        DocNode::Mapping(group("get", "two.example", &["/a"])),
    ]);

    let (calls, result) = run(&root, &[HttpOutcome::Status(200)]);

    assert_eq!(result, Ok(()));
    assert_eq!(calls.len(), 1);
    assert_eq!(calls[0].url, "https://two.example/a");
}

#[test]
fn test_non_string_api_entry_aborts_at_point_of_use() {
    let root = plan(vec![DocNode::Mapping(vec![
        entry("type", text("get")),
        entry("domain", text("one.example")),
        entry("api", DocNode::Sequence(vec![text("/a"), DocNode::Int(7)])),
    ])]);

    let (calls, result) = run(&root, &[HttpOutcome::Status(200); 2]);

    assert_eq!(result, Err(RunError::Configuration(ConfigError::ApiPathMalformed)));
    assert_eq!(calls.len(), 1);
    assert_eq!(calls[0].url, "https://one.example/a");
}

#[test]
fn test_group_headers_and_marker_on_every_call() {
    let mut fields = group("get", "api.apis.guru", &["/v2/list.json", "/v2/list2.json"]);
    fields.push(entry(
        "headers",
        DocNode::Sequence(vec![kv_entry("accept", "text/plain")]),
    ));
    let root = plan(vec![DocNode::Mapping(fields)]);

    let (calls, result) = run(&root, &[HttpOutcome::Status(200); 2]);

    assert_eq!(result, Ok(()));
    assert_eq!(calls.len(), 2);
    assert_eq!(calls[0].url, "https://api.apis.guru/v2/list.json");
    assert_eq!(calls[1].url, "https://api.apis.guru/v2/list2.json");
    for call in &calls {
        assert_eq!(call.method, RequestType::Get);
        assert_eq!("text/plain", call.header_value("accept").unwrap());
        assert_eq!("true", call.header_value("reqev").unwrap());
    }
}

#[test]
fn test_status_error_aborts_run_immediately() {
    let root = plan(vec![
        DocNode::Mapping(group("get", "api.apis.guru", &["/v2/list.json", "/v2/list2.json"])),
        DocNode::Mapping(group("get", "later.example", &["/never"])),
    ]);

    let outcomes = [
        HttpOutcome::Status(200),
        HttpOutcome::StatusError(404),
        HttpOutcome::Status(200),
    ];
    let (calls, result) = run(&root, &outcomes);

    assert_eq!(result, Err(RunError::TransportStatus(404)));
    assert_eq!(calls.len(), 2);
    assert_eq!(calls[1].url, "https://api.apis.guru/v2/list2.json");
}

#[test]
fn test_transport_fault_aborts_run() {
    let root = plan(vec![DocNode::Mapping(group("get", "one.example", &["/a", "/b"]))]);

    let (calls, result) = run(&root, &[HttpOutcome::Fault, HttpOutcome::Status(200)]);

    assert_eq!(result, Err(RunError::TransportFault));
    assert_eq!(calls.len(), 1);
}

#[test]
fn test_malformed_header_entry_names_structure_and_part() {
    let mut fields = group("get", "one.example", &["/a"]);
    fields.push(entry(
        "headers",
        DocNode::Sequence(vec![DocNode::Mapping(vec![entry("value", text("x"))])]),
    ));
    let root = plan(vec![DocNode::Mapping(fields)]);

    let (calls, result) = run(&root, &[]);

    assert_eq!(
        result,
        Err(RunError::Configuration(ConfigError::PairFieldMissing(
            PairStructure::Headers,
            PairPart::KeyPart,
        )))
    );
    assert_eq!(calls.len(), 0);
}

#[test]
fn test_malformed_query_value_names_structure_and_part() {
    let mut fields = group("get", "one.example", &["/a"]);
    fields.push(entry(
        "query_strings",
        DocNode::Sequence(vec![DocNode::Mapping(vec![
            entry("key", text("limit")),
            entry("value", DocNode::Int(10)),
        ])]),
    ));
    let root = plan(vec![DocNode::Mapping(fields)]);

    let (calls, result) = run(&root, &[]);

    assert_eq!(
        result,
        Err(RunError::Configuration(ConfigError::PairFieldMissing(
            PairStructure::QueryStrings,
            PairPart::ValuePart,
        )))
    );
    assert_eq!(calls.len(), 0);
}

#[test]
fn test_non_sequence_headers_is_malformed() {
    let mut fields = group("get", "one.example", &["/a"]);
    fields.push(entry("headers", text("nope")));
    let root = plan(vec![DocNode::Mapping(fields)]);

    let (calls, result) = run(&root, &[]);

    assert_eq!(
        result,
        Err(RunError::Configuration(ConfigError::PairsMalformed(PairStructure::Headers)))
    );
    assert_eq!(calls.len(), 0);
}

#[test]
fn test_query_strings_reach_the_descriptor_in_order() {
    let mut fields = group("get", "one.example", &["/a"]);
    fields.push(entry(
        "query_strings",
        DocNode::Sequence(vec![kv_entry("limit", "10"), kv_entry("t", "year")]),
    ));
    let root = plan(vec![DocNode::Mapping(fields)]);

    let (calls, result) = run(&root, &[HttpOutcome::Status(200)]);

    assert_eq!(result, Ok(()));
    assert_eq!(calls[0].query.len(), 2);
    assert_eq!(calls[0].query[0].key, "limit");
    assert_eq!(calls[0].query[0].value, "10");
    assert_eq!(calls[0].query[1].key, "t");
    assert_eq!(calls[0].query[1].value, "year");
}

#[test]
fn test_non_mapping_group_is_unsupported_type() {
    let root = plan(vec![text("not a group")]);

    let (calls, result) = run(&root, &[]);

    assert_eq!(result, Err(RunError::UnsupportedRequestType));
    assert_eq!(calls.len(), 0);
}

#[test]
fn test_expect_records_are_not_consulted_by_execution() {
    let mut fields = group("get", "one.example", &["/a"]);
    fields.push(entry(
        "expect",
        DocNode::Sequence(vec![DocNode::Mapping(vec![entry("status", DocNode::Int(200))])]),
    ));
    let root = plan(vec![DocNode::Mapping(fields)]);

    // The response status differs from the expectation record; the run still
    // completes, since expectations are data, not part of the algorithm.
    let (calls, result) = run(&root, &[HttpOutcome::Status(500)]);

    assert_eq!(result, Ok(()));
    assert_eq!(calls.len(), 1);
}

#[test]
fn test_interpret_response_reports_status_codes() {
    assert_eq!(interpret_response(&HttpOutcome::Status(200)), Ok(200));
    assert_eq!(interpret_response(&HttpOutcome::Status(500)), Ok(500));
    assert_eq!(
        interpret_response(&HttpOutcome::StatusError(404)),
        Err(RunError::TransportStatus(404))
    );
    assert_eq!(interpret_response(&HttpOutcome::Fault), Err(RunError::TransportFault));
}
