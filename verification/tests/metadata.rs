use fork_harness::assoc::AssocMap;
use fork_harness::metadata::{
    build_entry, entry_from_bytes, inject_runtime_metadata, uses_newer_form, CompiledModule,
    Metadata, MetadataError, MetadataFormat, RuntimeModuleMetadataV1,
};
use fork_harness::model::{AccountAddress, ModuleId};
use std::collections::BTreeMap;

fn format_in_use() -> MetadataFormat {
    MetadataFormat { key_v0: b"old".to_vec(), key_v1: b"new".to_vec(), v1_min_version: 6 }
}

fn id(name: &str) -> ModuleId {
    ModuleId { address: AccountAddress { bytes: [9u8; 32] }, name: name.to_string() }
}

fn empty() -> RuntimeModuleMetadataV1 {
    RuntimeModuleMetadataV1 {
        error_map: BTreeMap::new(),
        struct_attributes: BTreeMap::new(),
        fun_attributes: BTreeMap::new(),
    }
}

fn full() -> RuntimeModuleMetadataV1 {
    let mut m = empty();
    m.error_map.insert(3, ("E".to_string(), "bad".to_string()));
    m.struct_attributes.insert("S".to_string(), vec![(2, vec!["x".to_string()])]);
    m
}

fn module(name: &str) -> CompiledModule {
    CompiledModule {
        id: id(name),
        native_functions: vec![false],
        native_structs: vec![],
        metadata: vec![Metadata { key: vec![1], value: vec![2] }],
    }
}

const ERRORS: [u8; 15] = [1, 3, 0, 0, 0, 0, 0, 0, 0, 1, b'E', 3, b'b', b'a', b'd'];

#[test]
fn the_newer_form_holds_everything() {
    let entry = build_entry(&full(), None, &format_in_use()).unwrap();
    assert_eq!(entry.key, b"new".to_vec());
    let mut expected = ERRORS.to_vec();
    expected.extend([1, 1, b'S', 1, 2, 1, 1, b'x', 0]);
    assert_eq!(entry.value, expected);
}

#[test]
fn the_older_form_holds_the_error_map() {
    let entry = build_entry(&full(), Some(5), &format_in_use()).unwrap();
    assert_eq!(entry.key, b"old".to_vec());
    assert_eq!(entry.value, ERRORS.to_vec());
}

#[test]
fn the_form_depends_on_the_bytecode_version() {
    let f = format_in_use();
    assert!(uses_newer_form(None, &f));
    assert!(uses_newer_form(Some(6), &f));
    assert!(uses_newer_form(Some(7), &f));
    assert!(!uses_newer_form(Some(5), &f));
}

#[test]
fn bytes_become_an_entry_under_the_key_of_the_form() {
    let f = format_in_use();
    let entry = entry_from_bytes(true, Some(vec![4]), &f).unwrap();
    assert_eq!((entry.key, entry.value), (b"new".to_vec(), vec![4]));
    let entry = entry_from_bytes(false, Some(vec![4]), &f).unwrap();
    assert_eq!((entry.key, entry.value), (b"old".to_vec(), vec![4]));
    assert_eq!(entry_from_bytes(true, None, &f).unwrap_err(), MetadataError::Unserializable);
}

#[test]
fn metadata_is_appended_to_its_module() {
    let metadatas = AssocMap::new().insert(id("a"), full()).insert(id("b"), empty());
    let mut a = module("a");
    inject_runtime_metadata(&mut a, &metadatas, None, &format_in_use()).unwrap();
    assert_eq!(a.metadata.len(), 2);
    assert_eq!(a.metadata[0].key, vec![1]);
    assert_eq!(a.metadata[1].key, b"new".to_vec());
    assert_eq!(a.id.name, "a");
    for name in ["b", "c"] {
        let mut m = module(name);
        inject_runtime_metadata(&mut m, &metadatas, None, &format_in_use()).unwrap();
        assert_eq!(m.metadata.len(), 1);
    }
}

#[test]
fn metadata_says_nothing_only_when_all_maps_are_empty() {
    assert!(empty().is_empty());
    assert!(!full().is_empty());
    let mut m = empty();
    m.fun_attributes.insert("f".to_string(), vec![]);
    assert!(!m.is_empty());
}
