use fork_harness::assoc::AssocMap;
use fork_harness::fork_attributes::{
    build_fork_info, construct_fork_plan, construct_module_test_fork_attributes, fork_position,
    parse_fork_attribute, Attribute, AttributeValue, Diagnostic, ForkInfo, ForkProblem,
    FunctionModel, ModuleAddress, ModuleModel, ModuleTestForkPlan, PlanError, FORK, FORK_NETWORK,
    FORK_VERSION,
};
use fork_harness::model::{AccountAddress, ModuleId};
use fork_harness::resolution::{needs_number, settle};

fn apply(node: usize, name: &str, args: Vec<Attribute>) -> Attribute {
    Attribute::Apply { node, name: name.to_string(), args }
}

fn network(node: usize, text: &[u8]) -> Attribute {
    Attribute::Assign {
        node,
        name: "network".to_string(),
        value: AttributeValue::ByteArray(text.to_vec()),
        number: None,
    }
}

fn version(node: usize, number: Option<u64>) -> Attribute {
    Attribute::Assign {
        node,
        name: "version".to_string(),
        value: AttributeValue::Other,
        number,
    }
}

fn other(node: usize, name: &str) -> Attribute {
    Attribute::Assign {
        node,
        name: name.to_string(),
        value: AttributeValue::Other,
        number: Some(1),
    }
}

fn function(name: &str, attributes: Vec<Attribute>) -> FunctionModel {
    FunctionModel { name: name.to_string(), attributes }
}

fn address(last: u8) -> AccountAddress {
    let mut bytes = [0u8; 32];
    bytes[31] = last;
    AccountAddress { bytes }
}

fn module(last: u8, name: &str, functions: Vec<FunctionModel>) -> ModuleModel {
    ModuleModel {
        address: ModuleAddress::Numerical(address(last)),
        name: name.to_string(),
        identifier: Some(name.to_string()),
        functions,
    }
}

fn parsed(attr: Attribute) -> (ForkInfo, Vec<Diagnostic>) {
    let mut info = ForkInfo::default();
    let mut diagnostics = Vec::new();
    parse_fork_attribute(&attr, &mut info, &mut diagnostics, 0);
    (info, diagnostics)
}

#[test]
fn the_names_of_the_attribute() {
    assert_eq!((FORK, FORK_NETWORK, FORK_VERSION), ("fork", "network", "version"));
}

#[test]
fn network_and_version_are_read() {
    let (info, diagnostics) =
        parsed(apply(1, "fork", vec![network(2, b"mainnet"), version(3, Some(42))]));
    assert_eq!(info.network.as_deref(), Some("mainnet"));
    assert_eq!(info.version, Some(42));
    assert!(diagnostics.is_empty());
}

#[test]
fn the_last_assignment_counts() {
    let (info, diagnostics) = parsed(apply(
        1,
        "fork",
        vec![
            network(2, b"mainnet"),
            version(3, Some(1)),
            network(4, b"devnet"),
            version(5, Some(2)),
        ],
    ));
    assert_eq!(info.network.as_deref(), Some("devnet"));
    assert_eq!(info.version, Some(2));
    assert!(diagnostics.is_empty());
}

#[test]
fn an_empty_fork_attribute_leaves_all_open() {
    let (info, diagnostics) = parsed(apply(1, "fork", vec![]));
    assert_eq!(info.network, None);
    assert_eq!(info.version, None);
    assert!(diagnostics.is_empty());
}

#[test]
fn each_problem_is_reported_where_it_is() {
    let bad_text = Attribute::Assign {
        node: 5,
        name: "network".to_string(),
        value: AttributeValue::Other,
        number: Some(3),
    };
    let (info, diagnostics) = parsed(apply(
        1,
        "fork",
        vec![
            apply(2, "fork", vec![network(3, b"mainnet")]),
            network(4, &[0xff]),
            bad_text,
            version(6, None),
            other(7, "chain"),
        ],
    ));
    assert_eq!(info.network, None);
    assert_eq!(info.version, None);
    assert_eq!(
        diagnostics,
        vec![
            Diagnostic { node: 2, problem: ForkProblem::NestedAttribute },
            Diagnostic { node: 4, problem: ForkProblem::UnsupportedValue },
            Diagnostic { node: 5, problem: ForkProblem::UnsupportedValue },
            Diagnostic { node: 6, problem: ForkProblem::ValueTooBig },
            Diagnostic { node: 7, problem: ForkProblem::UnsupportedKey },
        ]
    );
}

#[test]
fn a_problem_does_not_undo_what_was_read() {
    let (info, diagnostics) =
        parsed(apply(1, "fork", vec![network(2, b"devnet"), network(3, &[0xc0, 0x80])]));
    assert_eq!(info.network.as_deref(), Some("devnet"));
    assert_eq!(diagnostics.len(), 1);
}

#[test]
fn text_beyond_ascii_is_a_network() {
    let (info, _) = parsed(apply(1, "fork", vec![network(2, "h\u{e9}\u{1f600}".as_bytes())]));
    assert_eq!(info.network.as_deref(), Some("h\u{e9}\u{1f600}"));
}

#[test]
fn an_assigned_fork_attribute_is_misplaced() {
    let (info, diagnostics) = parsed(other(9, "fork"));
    assert_eq!(info.network, None);
    assert_eq!(
        diagnostics,
        vec![
            Diagnostic { node: 9, problem: ForkProblem::MisplacedAssignment },
            Diagnostic { node: 9, problem: ForkProblem::UnsupportedKey },
        ]
    );
    let (info, diagnostics) = parsed(version(8, Some(5)));
    assert_eq!(info.version, Some(5));
    assert_eq!(
        diagnostics,
        vec![Diagnostic { node: 8, problem: ForkProblem::MisplacedAssignment }]
    );
}

#[test]
fn messages_and_labels() {
    let expected = [
        (ForkProblem::NestedAttribute, "Unexpected nested attribute in fork declaration", false),
        (ForkProblem::MisplacedAssignment, "Unexpected fork attribute in test declaration", false),
        (ForkProblem::UnsupportedValue, "Unsupported attribute value", true),
        (ForkProblem::ValueTooBig, "attribute value too big", true),
        (ForkProblem::UnsupportedKey, "Unsupported attribute key", true),
    ];
    for (problem, message, labelled) in expected {
        assert_eq!(problem.message(), message);
        let label = problem.label();
        assert_eq!(label.as_deref(), if labelled { Some("Assigned in this attribute") } else { None });
    }
}

#[test]
fn the_first_fork_attribute_of_a_function_is_read() {
    let mut diagnostics = Vec::new();
    let f = function(
        "t",
        vec![
            apply(1, "test", vec![]),
            apply(2, "fork", vec![version(3, Some(1))]),
            apply(4, "fork", vec![version(5, Some(2)), other(6, "x")]),
        ],
    );
    let info = build_fork_info(&f, &mut diagnostics).unwrap();
    assert_eq!(info.version, Some(1));
    assert!(diagnostics.is_empty());
    assert!(build_fork_info(&function("u", vec![apply(1, "test", vec![])]), &mut diagnostics)
        .is_none());
    assert!(diagnostics.is_empty());
}

#[test]
fn a_plan_needs_an_identifier() {
    for name in ["m", "Coin_2", "_x", "<SELF>"] {
        let plan = ModuleTestForkPlan::new(&address(7), name, AssocMap::new()).unwrap();
        assert_eq!(plan.module_id.name, name);
        assert_eq!(plan.module_id.address.bytes[31], 7);
        assert!(plan.infos.is_empty());
    }
    for name in ["", "_", "2coins", "a-b", "h\u{e9}", "<self>"] {
        let r = ModuleTestForkPlan::new(&address(7), name, AssocMap::new());
        assert_eq!(r.unwrap_err(), PlanError::InvalidIdentifier);
    }
}

#[test]
fn a_module_plan_lists_the_forked_functions() {
    let mut diagnostics = Vec::new();
    let m = module(
        2,
        "coin",
        vec![
            function("plain", vec![apply(1, "test", vec![])]),
            function("forked", vec![apply(2, "fork", vec![network(3, b"devnet")])]),
            function("pinned", vec![apply(4, "fork", vec![version(5, Some(9))])]),
        ],
    );
    let plan = construct_module_test_fork_attributes(&m, &mut diagnostics).unwrap().unwrap();
    assert_eq!(plan.module_id.name, "coin");
    assert!(plan.infos.get(&"plain".to_string()).is_none());
    let forked = plan.infos.get(&"forked".to_string()).unwrap();
    assert_eq!(forked.network.as_deref(), Some("devnet"));
    let pinned = plan.infos.get(&"pinned".to_string()).unwrap();
    assert_eq!(pinned.version, Some(9));
    assert!(diagnostics.is_empty());
}

#[test]
fn a_module_without_forks_has_no_plan_whatever_its_name() {
    let mut diagnostics = Vec::new();
    let mut m = module(2, "not an identifier", vec![function("plain", vec![])]);
    assert!(construct_module_test_fork_attributes(&m, &mut diagnostics).unwrap().is_none());
    m.functions = vec![function("forked", vec![apply(2, "fork", vec![other(3, "x")])])];
    let r = construct_module_test_fork_attributes(&m, &mut diagnostics);
    assert_eq!(r.unwrap_err(), PlanError::InvalidIdentifier);
    assert_eq!(diagnostics.len(), 1);
}

#[test]
fn the_compiled_name_must_agree() {
    let mut diagnostics = Vec::new();
    let mut m = module(2, "coin", vec![function("f", vec![apply(2, "fork", vec![])])]);
    m.identifier = Some("token".to_string());
    let r = construct_module_test_fork_attributes(&m, &mut diagnostics);
    assert_eq!(r.unwrap_err(), PlanError::NameMismatch);
    m.identifier = None;
    assert!(construct_module_test_fork_attributes(&m, &mut diagnostics).unwrap().is_some());
}

#[test]
fn an_alias_must_stand_for_an_address() {
    let mut diagnostics = Vec::new();
    let mut m = module(2, "coin", vec![function("f", vec![apply(2, "fork", vec![])])]);
    m.address = ModuleAddress::Symbolic(None);
    assert!(construct_module_test_fork_attributes(&m, &mut diagnostics).unwrap().is_none());
    m.address = ModuleAddress::Symbolic(Some(address(5)));
    let plan = construct_module_test_fork_attributes(&m, &mut diagnostics).unwrap().unwrap();
    assert_eq!(plan.module_id.address.bytes[31], 5);
}

#[test]
fn plans_stand_under_module_ids() {
    let mut diagnostics = Vec::new();
    let modules = vec![
        module(1, "a", vec![function("f", vec![apply(2, "fork", vec![version(3, Some(1))])])]),
        module(1, "b", vec![function("f", vec![])]),
        module(2, "a", vec![function("f", vec![apply(2, "fork", vec![version(3, Some(2))])])]),
        module(1, "a", vec![function("f", vec![apply(2, "fork", vec![version(3, Some(3))])])]),
    ];
    let plans = construct_fork_plan(&modules, &mut diagnostics).unwrap();
    let get = |last: u8, name: &str| {
        plans
            .get(&ModuleId { address: address(last), name: name.to_string() })
            .map(|p| p.infos.get(&"f".to_string()).unwrap().version)
    };
    assert_eq!(get(1, "a"), Some(Some(3)));
    assert_eq!(get(2, "a"), Some(Some(2)));
    assert_eq!(get(1, "b"), None);
    assert_eq!(get(3, "a"), None);
}

#[test]
fn planning_stops_at_the_first_error() {
    let mut diagnostics = Vec::new();
    let modules = vec![
        module(1, "a", vec![function("f", vec![apply(2, "fork", vec![other(3, "x")])])]),
        module(1, "b-", vec![function("f", vec![apply(4, "fork", vec![other(5, "x")])])]),
        module(1, "c", vec![function("f", vec![apply(6, "fork", vec![other(7, "x")])])]),
    ];
    let r = construct_fork_plan(&modules, &mut diagnostics);
    assert_eq!(r.unwrap_err(), PlanError::InvalidIdentifier);
    let nodes: Vec<usize> = diagnostics.iter().map(|d| d.node).collect();
    assert_eq!(nodes, vec![3, 5]);
}

#[test]
fn arguments_keep_what_they_do_not_set() {
    let start = || ForkInfo { network: Some("devnet".to_string()), version: Some(9) };
    let mut diagnostics = Vec::new();
    let mut info = start();
    parse_fork_attribute(&apply(0, "fork", vec![version(1, Some(4))]), &mut info, &mut diagnostics, 0);
    assert_eq!(info.network.as_deref(), Some("devnet"));
    assert_eq!(info.version, Some(4));
    let mut info = start();
    parse_fork_attribute(&apply(0, "fork", vec![network(1, b"x")]), &mut info, &mut diagnostics, 0);
    assert_eq!(info.network.as_deref(), Some("x"));
    assert_eq!(info.version, Some(9));
    assert!(diagnostics.is_empty());
}

#[test]
fn the_first_fork_attribute_is_found() {
    assert_eq!(fork_position(&vec![]), None);
    assert_eq!(fork_position(&vec![apply(0, "test", vec![])]), None);
    let attributes = vec![apply(0, "test", vec![]), apply(1, "fork", vec![]), other(2, "fork")];
    assert_eq!(fork_position(&attributes), Some(1));
}

#[test]
fn resolving_values_settles_their_problems_only() {
    let modules = |small: Option<u64>| {
        let args = vec![version(1, None), other(2, "key"), version(3, small), network(4, &[0xff])];
        vec![module(1, "m", vec![function("f", vec![apply(0, "fork", args)])])]
    };
    let report = |small| {
        let mut diagnostics = Vec::new();
        assert!(construct_fork_plan(&modules(small), &mut diagnostics).is_ok());
        diagnostics
    };
    let at = |node, problem| Diagnostic { node, problem };
    let first = vec![
        at(1, ForkProblem::ValueTooBig),
        at(2, ForkProblem::UnsupportedKey),
        at(3, ForkProblem::ValueTooBig),
        at(4, ForkProblem::UnsupportedValue),
    ];
    assert_eq!(report(None), first);
    let rest: Vec<Diagnostic> = first.into_iter().filter(|d| d.node != 3).collect();
    assert_eq!(report(Some(5)), rest);
}

#[test]
fn only_missing_numbers_are_resolved() {
    let all = [
        ForkProblem::NestedAttribute,
        ForkProblem::MisplacedAssignment,
        ForkProblem::UnsupportedValue,
        ForkProblem::ValueTooBig,
        ForkProblem::UnsupportedKey,
    ];
    for problem in all {
        let missing = problem == ForkProblem::ValueTooBig;
        assert_eq!(needs_number(&problem), missing);
        let d = Diagnostic { node: 1, problem };
        assert_eq!(settle(&d, Some(7)), if missing { Some(7) } else { None });
        assert_eq!(settle(&d, None), None);
    }
}
