use fork_harness::model::AccountAddress;
use fork_harness::report::{
    print_cs, print_resources_and_extensions, print_table_cs, storage_state, AccountChanges,
    NewTable, ResourceOp, TableChange, TableChangeSet,
};

fn address(last: u8) -> AccountAddress {
    let mut bytes = [0u8; 32];
    bytes[31] = last;
    AccountAddress { bytes }
}

fn text(s: &str) -> Result<String, String> {
    Ok(s.to_string())
}

fn tables() -> TableChangeSet {
    let table = |h: &str| NewTable {
        handle: h.to_string(),
        key_type: "u64".to_string(),
        value_type: "bool".to_string(),
    };
    TableChangeSet {
        new_tables: vec![table("T-1"), table("T-2")],
        removed_tables: vec!["T-3".to_string(), "T-4".to_string()],
        changes: vec![
            TableChange {
                handle: "T-1".to_string(),
                entries: vec![
                    (vec![1, 0xab], "New(x)".to_string()),
                    (vec![], "Delete".to_string()),
                ],
            },
            TableChange { handle: "T-5".to_string(), entries: vec![] },
        ],
    }
}

const TABLES: &str = "new tables T-1<u64,bool>, T-2<u64,bool>\nremoved tables T-3, T-4\nfor T-1\n  [1, AB] := New(x)\n  [] := Delete\nfor T-5\n";

#[test]
fn resources_are_listed_by_account() {
    let accounts = vec![
        AccountChanges {
            address: address(0x1f),
            resources: vec![
                ResourceOp::New(text("struct A {\n  x: 1\n}")),
                ResourceOp::Delete,
                ResourceOp::Modify(text("B")),
            ],
        },
        AccountChanges { address: address(0), resources: vec![ResourceOp::Delete] },
    ];
    let mut buf = "before\n".to_string();
    print_cs(&mut buf, &accounts).unwrap();
    assert_eq!(buf, "before\n0x1f:\n\t=> struct A {\n\t  x: 1\n\t}\n\t=> B\n0x0:\n");
}

#[test]
fn writing_stops_at_a_resource_without_text() {
    let accounts = vec![
        AccountChanges {
            address: address(1),
            resources: vec![
                ResourceOp::New(text("A")),
                ResourceOp::Modify(Err("no module".to_string())),
                ResourceOp::New(text("B")),
            ],
        },
        AccountChanges { address: address(2), resources: vec![] },
    ];
    let mut buf = String::new();
    assert_eq!(print_cs(&mut buf, &accounts), Err("no module".to_string()));
    assert_eq!(buf, "0x1:\n\t=> A\n");
    let r = print_resources_and_extensions(&accounts, &Some(tables()));
    assert_eq!(r, Err("no module".to_string()));
    assert_eq!(storage_state(&accounts, &None), None);
}

#[test]
fn table_changes_are_listed() {
    let mut buf = String::new();
    print_table_cs(&mut buf, &tables());
    assert_eq!(buf, TABLES);
}

#[test]
fn empty_lists_have_no_line() {
    let mut buf = String::new();
    let empty =
        TableChangeSet { new_tables: vec![], removed_tables: vec![], changes: vec![] };
    print_table_cs(&mut buf, &empty);
    assert_eq!(buf, "");
}

#[test]
fn a_single_item_has_no_separator() {
    let mut buf = String::new();
    let one = TableChangeSet {
        new_tables: vec![],
        removed_tables: vec!["T-9".to_string()],
        changes: vec![],
    };
    print_table_cs(&mut buf, &one);
    assert_eq!(buf, "removed tables T-9\n");
}

#[test]
fn the_report_holds_resources_and_then_tables() {
    let accounts = vec![AccountChanges {
        address: address(1),
        resources: vec![ResourceOp::New(text("A"))],
    }];
    let r = print_resources_and_extensions(&accounts, &Some(tables())).unwrap();
    assert_eq!(r, format!("0x1:\n\t=> A\n{}", TABLES));
    let r = print_resources_and_extensions(&accounts, &None).unwrap();
    assert_eq!(r, "0x1:\n\t=> A\n");
    assert_eq!(storage_state(&accounts, &None).as_deref(), Some("0x1:\n\t=> A\n"));
}

#[test]
fn deletions_leave_no_trace() {
    let with = vec![AccountChanges {
        address: address(1),
        resources: vec![ResourceOp::Delete, ResourceOp::New(text("A")), ResourceOp::Delete],
    }];
    let without = vec![AccountChanges {
        address: address(1),
        resources: vec![ResourceOp::New(text("A"))],
    }];
    assert_eq!(
        print_resources_and_extensions(&with, &None),
        print_resources_and_extensions(&without, &None)
    );
}
