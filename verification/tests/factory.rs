use fork_harness::assoc::AssocMap;
use fork_harness::factory::{is_override, AptosUnitTestFactory};
use fork_harness::fork_attributes::{
    Attribute, AttributeValue, FunctionModel, ModuleAddress, ModuleModel, PlanError,
};
use fork_harness::metadata::{
    CompiledModule, Metadata, MetadataFormat, RuntimeModuleMetadataV1,
};
use fork_harness::model::{AccountAddress, ModuleId};
use fork_harness::store::StoreBase;
use std::collections::BTreeMap;

fn address(last: u8) -> AccountAddress {
    let mut bytes = [0u8; 32];
    bytes[31] = last;
    AccountAddress { bytes }
}

fn id(last: u8, name: &str) -> ModuleId {
    ModuleId { address: address(last), name: name.to_string() }
}

fn compiled(last: u8, name: &str, functions: &[bool], structs: &[bool]) -> CompiledModule {
    CompiledModule {
        id: id(last, name),
        native_functions: functions.to_vec(),
        native_structs: structs.to_vec(),
        metadata: vec![Metadata { key: vec![0], value: vec![0] }],
    }
}

fn format_in_use() -> MetadataFormat {
    MetadataFormat { key_v0: b"old".to_vec(), key_v1: b"new".to_vec(), v1_min_version: 6 }
}

fn factory() -> AptosUnitTestFactory {
    let mut error_map = BTreeMap::new();
    error_map.insert(1u64, ("E".to_string(), "d".to_string()));
    let metadata = RuntimeModuleMetadataV1 {
        error_map,
        struct_attributes: BTreeMap::new(),
        fun_attributes: BTreeMap::new(),
    };
    let metadatas = AssocMap::new().insert(id(2, "coin"), metadata);
    let fork = Attribute::Apply {
        node: 1,
        name: "fork".to_string(),
        args: vec![Attribute::Assign {
            node: 2,
            name: "network".to_string(),
            value: AttributeValue::ByteArray(b"mainnet".to_vec()),
            number: None,
        }],
    };
    let modules = vec![ModuleModel {
        address: ModuleAddress::Numerical(address(2)),
        name: "coin".to_string(),
        identifier: None,
        functions: vec![
            FunctionModel { name: "forked".to_string(), attributes: vec![fork] },
            FunctionModel { name: "plain".to_string(), attributes: vec![] },
        ],
    }];
    let mut diagnostics = Vec::new();
    let factory = AptosUnitTestFactory::new(metadatas, &modules, &mut diagnostics).unwrap();
    assert!(diagnostics.is_empty());
    factory
}

#[test]
fn only_modules_without_natives_go_on_top() {
    assert!(is_override(&compiled(2, "a", &[false, false], &[false])));
    assert!(is_override(&compiled(2, "a", &[], &[])));
    assert!(!is_override(&compiled(2, "a", &[false, true], &[])));
    assert!(!is_override(&compiled(2, "a", &[], &[false, true])));
}

#[test]
fn core_modules_always_go_on_top() {
    assert!(is_override(&compiled(1, "vector", &[true], &[true])));
    let mut near = compiled(1, "vector", &[true], &[]);
    near.id.address.bytes[0] = 1;
    assert!(!is_override(&near));
}

#[test]
fn the_fork_of_a_test_is_looked_up() {
    let f = factory();
    let info = f.fork_info(&id(2, "coin"), &"forked".to_string()).unwrap();
    assert_eq!(info.network.as_deref(), Some("mainnet"));
    assert_eq!(info.version, None);
    assert!(f.fork_info(&id(2, "coin"), &"plain".to_string()).is_none());
    assert!(f.fork_info(&id(3, "coin"), &"forked".to_string()).is_none());
}

#[test]
fn a_store_is_set_up() {
    let f = factory();
    let modules = vec![
        compiled(2, "coin", &[false], &[]),
        compiled(2, "native", &[true], &[]),
        compiled(1, "vector", &[true], &[]),
    ];
    let setup =
        f.setup_store(&id(2, "coin"), &"forked".to_string(), &modules, &format_in_use()).unwrap();
    assert!(matches!(setup.base, StoreBase::Fork(info) if info.network.as_deref() == Some("mainnet")));
    let picked: Vec<usize> = setup.updates.iter().map(|u| u.index).collect();
    assert_eq!(picked, vec![0, 2]);
    let coin = &setup.updates[0].module;
    assert_eq!(coin.metadata.len(), 2);
    assert_eq!(coin.metadata[1].key, b"new".to_vec());
    assert_eq!(
        coin.metadata[1].value,
        vec![1, 1, 0, 0, 0, 0, 0, 0, 0, 1, b'E', 1, b'd', 0, 0]
    );
    assert_eq!(setup.updates[1].module.metadata.len(), 1);
    assert_eq!(setup.updates[1].module.id.name, "vector");
}

#[test]
fn a_test_without_a_fork_starts_from_genesis() {
    let f = factory();
    let setup =
        f.setup_store(&id(2, "coin"), &"plain".to_string(), &vec![], &format_in_use()).unwrap();
    assert!(matches!(setup.base, StoreBase::Genesis));
    assert!(setup.updates.is_empty());
}

#[test]
fn a_factory_needs_valid_plans() {
    let modules = vec![ModuleModel {
        address: ModuleAddress::Numerical(address(2)),
        name: "1".to_string(),
        identifier: None,
        functions: vec![FunctionModel {
            name: "f".to_string(),
            attributes: vec![Attribute::Apply { node: 1, name: "fork".to_string(), args: vec![] }],
        }],
    }];
    let r = AptosUnitTestFactory::new(AssocMap::new(), &modules, &mut Vec::new());
    assert_eq!(r.unwrap_err(), PlanError::InvalidIdentifier);
}

#[test]
fn setting_up_twice_adds_each_entry_once() {
    let f = factory();
    let modules = vec![compiled(2, "coin", &[false], &[])];
    let before = modules[0].metadata.len();
    let set_up = || {
        f.setup_store(&id(2, "coin"), &"plain".to_string(), &modules, &format_in_use()).unwrap()
    };
    let first = set_up();
    let second = set_up();
    assert_eq!(modules[0].metadata.len(), before);
    for setup in [&first, &second] {
        assert_eq!(setup.updates[0].module.metadata.len(), before + 1);
    }
    let values = |m: &fork_harness::metadata::CompiledModule| {
        m.metadata.iter().map(|e| e.value.clone()).collect::<Vec<_>>()
    };
    assert_eq!(values(&first.updates[0].module), values(&second.updates[0].module));
}
