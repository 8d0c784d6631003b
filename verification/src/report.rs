//! The report of what a test has changed.
use crate::model::AccountAddress;
use crate::outside::join_texts;
use crate::text::{
    indented, indented_text, joined, short_hex, short_hex_text, texts, texts_push, upper_hex_list,
    upper_hex_list_text,
};
use vstd::prelude::*;

verus! {

/// What happened to a resource. A resource that is there afterwards comes with its text, or with
/// the message that says why it has none.
#[derive(Debug)]
pub enum ResourceOp {
    New(Result<String, String>),
    Modify(Result<String, String>),
    Delete,
}

/// The changes to the resources of one account, in order.
#[derive(Debug)]
pub struct AccountChanges {
    pub address: AccountAddress,
    pub resources: Vec<ResourceOp>,
}

/// A table that was created.
#[derive(Debug)]
pub struct NewTable {
    pub handle: String,
    pub key_type: String,
    pub value_type: String,
}

/// The changes to one table: for each key the text of what happened to its value.
#[derive(Debug)]
pub struct TableChange {
    pub handle: String,
    pub entries: Vec<(Vec<u8>, String)>,
}

/// The changes to tables, in order.
#[derive(Debug)]
pub struct TableChangeSet {
    pub new_tables: Vec<NewTable>,
    pub removed_tables: Vec<String>,
    pub changes: Vec<TableChange>,
}

/// What was written, and the message of the failure that ended the writing.
pub struct Written {
    pub text: Seq<char>,
    pub failure: Option<Seq<char>>,
}

/// The line of a resource: its text after an arrow, all of it indented.
pub open spec fn resource_line(view: Seq<char>) -> Seq<char> {
    "\t"@ + indented("=> "@ + view) + "\n"@
}

/// What is written for a resource: nothing where it was deleted.
pub open spec fn resource_report(op: ResourceOp) -> Written {
    match op {
        ResourceOp::New(Ok(view)) => Written { text: resource_line(view@), failure: None },
        ResourceOp::Modify(Ok(view)) => Written { text: resource_line(view@), failure: None },
        ResourceOp::New(Err(message)) => Written { text: Seq::empty(), failure: Some(message@) },
        ResourceOp::Modify(Err(message)) => Written { text: Seq::empty(), failure: Some(message@) },
        ResourceOp::Delete => Written { text: Seq::empty(), failure: None },
    }
}

/// One piece of writing after another, which is not begun once there was a failure.
pub open spec fn then_write(first: Written, second: Written) -> Written {
    if first.failure is Some {
        first
    } else {
        Written { text: first.text + second.text, failure: second.failure }
    }
}

/// What is written for some resources.
pub open spec fn resources_report(ops: Seq<ResourceOp>) -> Written
    decreases ops.len(),
{
    if ops.len() == 0 {
        Written { text: Seq::empty(), failure: None }
    } else {
        then_write(resources_report(ops.drop_last()), resource_report(ops.last()))
    }
}

/// The line that opens the report of an account.
pub open spec fn account_line(address: Seq<u8>) -> Seq<char> {
    "0x"@ + short_hex(address) + ":\n"@
}

/// What is written for an account.
pub open spec fn account_report(account: AccountChanges) -> Written {
    let resources = resources_report(account.resources@);
    Written { text: account_line(account.address@) + resources.text, failure: resources.failure }
}

/// What is written for some accounts.
pub open spec fn accounts_report(accounts: Seq<AccountChanges>) -> Written
    decreases accounts.len(),
{
    if accounts.len() == 0 {
        Written { text: Seq::empty(), failure: None }
    } else {
        then_write(accounts_report(accounts.drop_last()), account_report(accounts.last()))
    }
}

/// Whether a result is the failure that a piece of writing ended with.
pub open spec fn result_matches(r: Result<(), String>, w: Written) -> bool {
    match r {
        Ok(_) => w.failure is None,
        Err(message) => w.failure == Some(message@),
    }
}

proof fn resources_failure_of_prefix(ops: Seq<ResourceOp>, n: int)
    requires
        0 <= n <= ops.len(),
        resources_report(ops.take(n)).failure is Some,
    ensures
        resources_report(ops) == resources_report(ops.take(n)),
    decreases ops.len() - n,
{
    if n < ops.len() {
        assert(ops.take(n + 1).drop_last() =~= ops.take(n));
        resources_failure_of_prefix(ops, n + 1);
    } else {
        assert(ops.take(n) =~= ops);
    }
}

proof fn accounts_failure_of_prefix(accounts: Seq<AccountChanges>, n: int)
    requires
        0 <= n <= accounts.len(),
        accounts_report(accounts.take(n)).failure is Some,
    ensures
        accounts_report(accounts) == accounts_report(accounts.take(n)),
    decreases accounts.len() - n,
{
    if n < accounts.len() {
        assert(accounts.take(n + 1).drop_last() =~= accounts.take(n));
        accounts_failure_of_prefix(accounts, n + 1);
    } else {
        assert(accounts.take(n) =~= accounts);
    }
}

fn print_view(buf: &mut String, view: &str)
    ensures
        final(buf)@ == old(buf)@ + resource_line(view@),
{
    let mut line = "=> ".to_owned();
    line.append(view);
    let body = indented_text(line.as_str());
    buf.append("\t");
    buf.append(body.as_str());
    buf.append("\n");
    assert(buf@ =~= old(buf)@ + resource_line(view@));
}

fn print_resource(buf: &mut String, op: &ResourceOp) -> (r: Result<(), String>)
    ensures
        final(buf)@ == old(buf)@ + resource_report(*op).text,
        result_matches(r, resource_report(*op)),
{
    match op {
        ResourceOp::New(Ok(view)) | ResourceOp::Modify(Ok(view)) => {
            print_view(buf, view.as_str());
            Ok(())
        },
        ResourceOp::New(Err(message)) | ResourceOp::Modify(Err(message)) => {
            assert(buf@ =~= old(buf)@ + resource_report(*op).text);
            Err(message.clone())
        },
        ResourceOp::Delete => {
            assert(buf@ =~= old(buf)@ + resource_report(*op).text);
            Ok(())
        },
    }
}

fn print_resources(buf: &mut String, ops: &Vec<ResourceOp>) -> (r: Result<(), String>)
    ensures
        final(buf)@ == old(buf)@ + resources_report(ops@).text,
        result_matches(r, resources_report(ops@)),
{
    let mut i: usize = 0;
    assert(buf@ =~= old(buf)@ + resources_report(ops@.take(0)).text);
    while i < ops.len()
        invariant
            i <= ops@.len(),
            resources_report(ops@.take(i as int)).failure is None,
            buf@ == old(buf)@ + resources_report(ops@.take(i as int)).text,
        decreases ops.len() - i,
    {
        let r = print_resource(buf, &ops[i]);
        proof {
            let t = ops@.take(i as int + 1);
            assert(t.drop_last() =~= ops@.take(i as int));
            assert(t.last() == ops@[i as int]);
            assert(buf@ =~= old(buf)@ + resources_report(t).text);
        }
        if r.is_err() {
            proof {
                resources_failure_of_prefix(ops@, i as int + 1);
            }
            return r;
        }
        i += 1;
    }
    assert(ops@.take(i as int) =~= ops@);
    Ok(())
}

/// Writes the changes to resources, account by account. It stops at the first resource that has
/// no text.
pub fn print_cs(buf: &mut String, accounts: &Vec<AccountChanges>) -> (r: Result<(), String>)
    ensures
        final(buf)@ == old(buf)@ + accounts_report(accounts@).text,
        result_matches(r, accounts_report(accounts@)),
{
    let mut i: usize = 0;
    assert(buf@ =~= old(buf)@ + accounts_report(accounts@.take(0)).text);
    while i < accounts.len()
        invariant
            i <= accounts@.len(),
            accounts_report(accounts@.take(i as int)).failure is None,
            buf@ == old(buf)@ + accounts_report(accounts@.take(i as int)).text,
        decreases accounts.len() - i,
    {
        let address = short_hex_text(accounts[i].address.bytes.as_slice());
        buf.append("0x");
        buf.append(address.as_str());
        buf.append(":\n");
        let r = print_resources(buf, &accounts[i].resources);
        proof {
            let t = accounts@.take(i as int + 1);
            assert(t.drop_last() =~= accounts@.take(i as int));
            assert(t.last() == accounts@[i as int]);
            assert(buf@ =~= old(buf)@ + accounts_report(t).text);
        }
        if r.is_err() {
            proof {
                accounts_failure_of_prefix(accounts@, i as int + 1);
            }
            return r;
        }
        i += 1;
    }
    assert(accounts@.take(i as int) =~= accounts@);
    Ok(())
}

/// A new table with the types of its keys and values.
pub open spec fn new_table_item(table: NewTable) -> Seq<char> {
    table.handle@ + "<"@ + table.key_type@ + ","@ + table.value_type@ + ">"@
}

/// The items for some new tables.
pub open spec fn new_table_items(tables: Seq<NewTable>) -> Seq<Seq<char>> {
    tables.map_values(|t: NewTable| new_table_item(t))
}

/// The line that lists some items, and nothing where there is none.
pub open spec fn list_line(title: Seq<char>, items: Seq<Seq<char>>) -> Seq<char> {
    if items.len() == 0 {
        Seq::empty()
    } else {
        title + joined(items, ", "@) + "\n"@
    }
}

/// The line of a table entry.
pub open spec fn entry_line(entry: (Vec<u8>, String)) -> Seq<char> {
    "  "@ + upper_hex_list(entry.0@) + " := "@ + entry.1@ + "\n"@
}

/// The lines of some table entries.
pub open spec fn entry_lines(entries: Seq<(Vec<u8>, String)>) -> Seq<char>
    decreases entries.len(),
{
    if entries.len() == 0 {
        Seq::empty()
    } else {
        entry_lines(entries.drop_last()) + entry_line(entries.last())
    }
}

/// What is written for the changes to one table.
pub open spec fn change_text(change: TableChange) -> Seq<char> {
    "for "@ + change.handle@ + "\n"@ + entry_lines(change.entries@)
}

/// What is written for the changes to some tables.
pub open spec fn changes_text(changes: Seq<TableChange>) -> Seq<char>
    decreases changes.len(),
{
    if changes.len() == 0 {
        Seq::empty()
    } else {
        changes_text(changes.drop_last()) + change_text(changes.last())
    }
}

/// What is written for the changes to tables.
pub open spec fn tables_text(cs: TableChangeSet) -> Seq<char> {
    list_line("new tables "@, new_table_items(cs.new_tables@)) + list_line(
        "removed tables "@,
        texts(cs.removed_tables@),
    ) + changes_text(cs.changes@)
}

fn new_table_texts(tables: &Vec<NewTable>) -> (r: Vec<String>)
    ensures
        texts(r@) == new_table_items(tables@),
{
    let mut items: Vec<String> = Vec::new();
    let mut i: usize = 0;
    while i < tables.len()
        invariant
            i <= tables@.len(),
            texts(items@) =~= new_table_items(tables@).take(i as int),
        decreases tables.len() - i,
    {
        let mut item = tables[i].handle.clone();
        item.append("<");
        item.append(tables[i].key_type.as_str());
        item.append(",");
        item.append(tables[i].value_type.as_str());
        item.append(">");
        proof {
            texts_push(items@, item);
            assert(item@ =~= new_table_item(tables@[i as int]));
            assert(new_table_items(tables@)[i as int] == item@);
        }
        items.push(item);
        i += 1;
    }
    assert(new_table_items(tables@).take(i as int) =~= new_table_items(tables@));
    items
}

fn print_list(buf: &mut String, title: &str, items: &Vec<String>)
    ensures
        final(buf)@ == old(buf)@ + list_line(title@, texts(items@)),
{
    if items.len() > 0 {
        let list = join_texts(items, ", ");
        buf.append(title);
        buf.append(list.as_str());
        buf.append("\n");
    }
    assert(buf@ =~= old(buf)@ + list_line(title@, texts(items@)));
}

fn print_entries(buf: &mut String, entries: &Vec<(Vec<u8>, String)>)
    ensures
        final(buf)@ == old(buf)@ + entry_lines(entries@),
{
    let mut i: usize = 0;
    assert(buf@ =~= old(buf)@ + entry_lines(entries@.take(0)));
    while i < entries.len()
        invariant
            i <= entries@.len(),
            buf@ == old(buf)@ + entry_lines(entries@.take(i as int)),
        decreases entries.len() - i,
    {
        let key = upper_hex_list_text(entries[i].0.as_slice());
        buf.append("  ");
        buf.append(key.as_str());
        buf.append(" := ");
        buf.append(entries[i].1.as_str());
        buf.append("\n");
        proof {
            let t = entries@.take(i as int + 1);
            assert(t.drop_last() =~= entries@.take(i as int));
            assert(t.last() == entries@[i as int]);
            assert(buf@ =~= old(buf)@ + entry_lines(t));
        }
        i += 1;
    }
    assert(entries@.take(i as int) =~= entries@);
}

/// Writes the changes to tables.
pub fn print_table_cs(buf: &mut String, cs: &TableChangeSet)
    ensures
        final(buf)@ == old(buf)@ + tables_text(*cs),
{
    let items = new_table_texts(&cs.new_tables);
    print_list(buf, "new tables ", &items);
    print_list(buf, "removed tables ", &cs.removed_tables);
    let ghost before = buf@;
    let mut i: usize = 0;
    assert(buf@ =~= before + changes_text(cs.changes@.take(0)));
    while i < cs.changes.len()
        invariant
            i <= cs.changes@.len(),
            buf@ == before + changes_text(cs.changes@.take(i as int)),
        decreases cs.changes.len() - i,
    {
        buf.append("for ");
        buf.append(cs.changes[i].handle.as_str());
        buf.append("\n");
        print_entries(buf, &cs.changes[i].entries);
        proof {
            let t = cs.changes@.take(i as int + 1);
            assert(t.drop_last() =~= cs.changes@.take(i as int));
            assert(t.last() == cs.changes@[i as int]);
            assert(buf@ =~= before + changes_text(t));
        }
        i += 1;
    }
    assert(cs.changes@.take(i as int) =~= cs.changes@);
    assert(buf@ =~= old(buf)@ + tables_text(*cs));
}

/// The report of the changes to resources and, where they are known, to tables; or the message of
/// the resource that has no text.
pub open spec fn full_report(
    accounts: Seq<AccountChanges>,
    tables: Option<TableChangeSet>,
) -> Result<Seq<char>, Seq<char>> {
    let resources = accounts_report(accounts);
    match resources.failure {
        Some(message) => Err(message),
        None => Ok(
            resources.text + match tables {
                Some(cs) => tables_text(cs),
                None => Seq::empty(),
            },
        ),
    }
}

/// Writes the report of what a test has changed.
pub fn print_resources_and_extensions(
    accounts: &Vec<AccountChanges>,
    tables: &Option<TableChangeSet>,
) -> (r: Result<String, String>)
    ensures
        match r {
            Ok(text) => full_report(accounts@, *tables) == Ok::<Seq<char>, Seq<char>>(text@),
            Err(message) => full_report(accounts@, *tables) == Err::<Seq<char>, Seq<char>>(
                message@,
            ),
        },
{
    let mut buf = String::new();
    match print_cs(&mut buf, accounts) {
        Ok(_) => {},
        Err(message) => {
            return Err(message);
        },
    }
    assert(buf@ =~= accounts_report(accounts@).text);
    if let Some(cs) = tables {
        print_table_cs(&mut buf, cs);
    } else {
        assert(buf@ =~= accounts_report(accounts@).text + Seq::<char>::empty());
    }
    Ok(buf)
}

/// The storage state that a finished test shows: the report, if it could be written.
pub fn storage_state(accounts: &Vec<AccountChanges>, tables: &Option<TableChangeSet>) -> (r: Option<
    String,
>)
    ensures
        match r {
            Some(text) => full_report(accounts@, *tables) == Ok::<Seq<char>, Seq<char>>(text@),
            None => full_report(accounts@, *tables) is Err,
        },
{
    match print_resources_and_extensions(accounts, tables) {
        Ok(text) => Some(text),
        Err(_) => None,
    }
}

/// Deleted resources leave no trace in the report: it is that of the other changes alone.
pub proof fn deletions_are_not_reported(ops: Seq<ResourceOp>)
    ensures
        resources_report(ops) == resources_report(
            ops.filter(|op: ResourceOp| !(op is Delete)),
        ),
    decreases ops.len(),
{
    let kept = |op: ResourceOp| !(op is Delete);
    reveal(Seq::filter);
    if ops.len() > 0 {
        let t = ops.drop_last();
        deletions_are_not_reported(t);
        let before = resources_report(t);
        if ops.last() is Delete {
            assert(ops.filter(kept) == t.filter(kept));
            assert(before.text + Seq::<char>::empty() =~= before.text);
        } else {
            assert(ops.filter(kept) == t.filter(kept).push(ops.last()));
            assert(ops.filter(kept).drop_last() =~= t.filter(kept));
        }
    }
}

/// Whether a resource is there but has no text.
pub open spec fn lacks_text(op: ResourceOp) -> bool {
    match op {
        ResourceOp::New(view) => view is Err,
        ResourceOp::Modify(view) => view is Err,
        ResourceOp::Delete => false,
    }
}

/// Writing the changes of an account fails exactly when one of its resources lacks a text.
pub proof fn account_fails_iff_text_is_lacking(ops: Seq<ResourceOp>)
    ensures
        resources_report(ops).failure is Some <==> exists|i: int|
            0 <= i < ops.len() && lacks_text(#[trigger] ops[i]),
    decreases ops.len(),
{
    if ops.len() > 0 {
        let t = ops.drop_last();
        let n = ops.len() - 1;
        account_fails_iff_text_is_lacking(t);
        assert(ops.last() == ops[n]);
        if resources_report(t).failure is Some {
            let i = choose|i: int| 0 <= i < t.len() && lacks_text(#[trigger] t[i]);
            assert(lacks_text(ops[i]));
        }
        if exists|i: int| 0 <= i < ops.len() && lacks_text(#[trigger] ops[i]) {
            let i = choose|i: int| 0 <= i < ops.len() && lacks_text(#[trigger] ops[i]);
            if i < n {
                assert(lacks_text(t[i]));
            }
        }
    }
}

/// There is no report exactly when a resource of some account lacks a text.
pub proof fn report_fails_iff_text_is_lacking(
    accounts: Seq<AccountChanges>,
    tables: Option<TableChangeSet>,
)
    ensures
        full_report(accounts, tables) is Err <==> exists|a: int|
            0 <= a < accounts.len() && resources_report(
                (#[trigger] accounts[a]).resources@,
            ).failure is Some,
    decreases accounts.len(),
{
    if accounts.len() > 0 {
        let t = accounts.drop_last();
        let n = accounts.len() - 1;
        report_fails_iff_text_is_lacking(t, tables);
        assert(accounts.last() == accounts[n]);
        if accounts_report(t).failure is Some {
            let a = choose|a: int|
                0 <= a < t.len() && resources_report((#[trigger] t[a]).resources@).failure is Some;
            assert(accounts[a] == t[a]);
        }
        if exists|a: int|
            0 <= a < accounts.len() && resources_report(
                (#[trigger] accounts[a]).resources@,
            ).failure is Some {
            let a = choose|a: int|
                0 <= a < accounts.len() && resources_report(
                    (#[trigger] accounts[a]).resources@,
                ).failure is Some;
            if a < n {
                assert(t[a] == accounts[a]);
            }
        }
    }
}

} // verus!
