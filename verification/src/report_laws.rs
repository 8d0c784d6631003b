//! What the report of a test's changes holds, said of the changes' own parts.
use crate::report::{
    account_report, accounts_report, change_text, changes_text, entry_lines, full_report,
    lacks_text, list_line, new_table_item, new_table_items, resource_report, resources_report,
    result_matches, tables_text, AccountChanges, NewTable, ResourceOp, TableChange, TableChangeSet,
    Written,
};
use crate::text::{indented, joined, short_hex, texts, upper_hex_list};
use vstd::prelude::*;

verus! {

/// Nothing is written for no resources.
pub proof fn no_resources_are_reported()
    ensures
        resources_report(Seq::empty()).text == Seq::<char>::empty(),
        resources_report(Seq::empty()).failure is None,
{
}

/// A new or changed resource is a line of its own: a tab, an arrow and its text, with the lines of
/// the text indented. One that has no text is no line, and its message is the failure. A deleted
/// one is neither.
pub proof fn one_resource_is_reported(op: ResourceOp)
    ensures
        ({
            let report = resources_report(seq![op]);
            &&& op matches ResourceOp::New(Ok(view)) ==> report.failure is None && report.text
                == "\t"@ + indented("=> "@ + view@) + "\n"@
            &&& op matches ResourceOp::Modify(Ok(view)) ==> report.failure is None && report.text
                == "\t"@ + indented("=> "@ + view@) + "\n"@
            &&& op matches ResourceOp::New(Err(message)) ==> report.failure == Some(message@)
                && report.text.len() == 0
            &&& op matches ResourceOp::Modify(Err(message)) ==> report.failure == Some(message@)
                && report.text.len() == 0
            &&& op is Delete ==> report.failure is None && report.text.len() == 0
        }),
{
    let ops = seq![op];
    assert(ops.drop_last() =~= Seq::empty());
    reveal_with_fuel(resources_report, 2);
    assert(resources_report(ops).text =~= resource_report(op).text);
}

/// Resources are reported one after the other, up to the first that has no text.
pub proof fn resources_are_reported_in_turn(a: Seq<ResourceOp>, b: Seq<ResourceOp>)
    ensures
        resources_report(a).failure is Some ==> resources_report(a + b) == resources_report(a),
        resources_report(a).failure is None ==> resources_report(a + b).text == resources_report(
            a,
        ).text + resources_report(b).text && resources_report(a + b).failure == resources_report(
            b,
        ).failure,
    decreases b.len(),
{
    if b.len() == 0 {
        assert(a + b =~= a);
        assert(resources_report(a).text + resources_report(b).text =~= resources_report(a).text);
    } else {
        assert((a + b).drop_last() =~= a + b.drop_last());
        assert((a + b).last() == b.last());
        resources_are_reported_in_turn(a, b.drop_last());
        if resources_report(a).failure is None {
            assert(resources_report(a + b).text =~= resources_report(a).text + resources_report(
                b,
            ).text);
        }
    }
}

/// Nothing is written for no accounts.
pub proof fn no_accounts_are_reported()
    ensures
        accounts_report(Seq::empty()).text == Seq::<char>::empty(),
        accounts_report(Seq::empty()).failure is None,
{
}

/// An account is reported as a line with its address and then all its resources.
pub proof fn one_account_is_reported(account: AccountChanges)
    ensures
        accounts_report(seq![account]).text == "0x"@ + short_hex(account.address.bytes@) + ":\n"@
            + resources_report(account.resources@).text,
        accounts_report(seq![account]).failure == resources_report(account.resources@).failure,
{
    let accounts = seq![account];
    assert(accounts.drop_last() =~= Seq::empty());
    reveal_with_fuel(accounts_report, 2);
    assert(accounts_report(accounts).text =~= account_report(account).text);
}

/// Accounts are reported one after the other, each in full, up to the first that has a resource
/// without a text.
pub proof fn accounts_are_reported_in_turn(a: Seq<AccountChanges>, b: Seq<AccountChanges>)
    ensures
        accounts_report(a).failure is Some ==> accounts_report(a + b) == accounts_report(a),
        accounts_report(a).failure is None ==> accounts_report(a + b).text == accounts_report(
            a,
        ).text + accounts_report(b).text && accounts_report(a + b).failure == accounts_report(
            b,
        ).failure,
    decreases b.len(),
{
    if b.len() == 0 {
        assert(a + b =~= a);
        assert(accounts_report(a).text + accounts_report(b).text =~= accounts_report(a).text);
    } else {
        assert((a + b).drop_last() =~= a + b.drop_last());
        assert((a + b).last() == b.last());
        accounts_are_reported_in_turn(a, b.drop_last());
        if accounts_report(a).failure is None {
            assert(accounts_report(a + b).text =~= accounts_report(a).text + accounts_report(
                b,
            ).text);
        }
    }
}

proof fn no_failure_without_lacking_text(ops: Seq<ResourceOp>)
    requires
        forall|i: int| 0 <= i < ops.len() ==> !lacks_text(#[trigger] ops[i]),
    ensures
        resources_report(ops).failure is None,
    decreases ops.len(),
{
    if ops.len() > 0 {
        let t = ops.drop_last();
        assert(!lacks_text(ops[ops.len() - 1]));
        assert forall|i: int| 0 <= i < t.len() implies !lacks_text(#[trigger] t[i]) by {
            assert(t[i] == ops[i]);
        }
        no_failure_without_lacking_text(t);
    }
}

/// The line that a resource is due: none for a deleted one.
pub open spec fn due_line(op: ResourceOp) -> Seq<char> {
    match op {
        ResourceOp::New(Ok(view)) => "\t"@ + indented("=> "@ + view@) + "\n"@,
        ResourceOp::Modify(Ok(view)) => "\t"@ + indented("=> "@ + view@) + "\n"@,
        _ => Seq::empty(),
    }
}

/// The place of a resource's line: where every resource has a text, the line of each resource
/// stands right behind the lines of those before it, and before those of the ones after it.
pub proof fn every_resource_has_its_line(ops: Seq<ResourceOp>, i: int)
    requires
        0 <= i < ops.len(),
        forall|j: int| 0 <= j < ops.len() ==> !lacks_text(#[trigger] ops[j]),
    ensures
        resources_report(ops).failure is None,
        resources_report(ops).text == resources_report(ops.take(i)).text + due_line(ops[i])
            + resources_report(ops.skip(i + 1)).text,
{
    let a = ops.take(i);
    let b = seq![ops[i]];
    let c = ops.skip(i + 1);
    assert(ops =~= a + b + c);
    assert forall|j: int| 0 <= j < a.len() implies !lacks_text(#[trigger] a[j]) by {
        assert(a[j] == ops[j]);
    }
    assert(!lacks_text(ops[i]));
    no_failure_without_lacking_text(a);
    no_failure_without_lacking_text(ops);
    one_resource_is_reported(ops[i]);
    resources_are_reported_in_turn(a, b);
    resources_are_reported_in_turn(a + b, c);
    assert(resources_report(b).text =~= due_line(ops[i]));
}

/// The place of an account's part: where every resource has a text, each account stands in full
/// right behind those before it, and before those after it.
pub proof fn every_account_has_its_part(accounts: Seq<AccountChanges>, i: int)
    requires
        0 <= i < accounts.len(),
        accounts_report(accounts).failure is None,
    ensures
        accounts_report(accounts).text == accounts_report(accounts.take(i)).text + ("0x"@
            + short_hex(accounts[i].address.bytes@) + ":\n"@ + resources_report(
            accounts[i].resources@,
        ).text) + accounts_report(accounts.skip(i + 1)).text,
{
    let a = accounts.take(i);
    let b = seq![accounts[i]];
    let c = accounts.skip(i + 1);
    assert(accounts =~= a + b + c);
    accounts_are_reported_in_turn(a, b);
    accounts_are_reported_in_turn(a + b, c);
    accounts_are_reported_in_turn(a, b + c);
    one_account_is_reported(accounts[i]);
}

/// The first resource without a text ends the writing: what stands before it is written, and its
/// own message is the failure.
pub proof fn first_lacking_text_is_the_failure(ops: Seq<ResourceOp>, i: int)
    requires
        0 <= i < ops.len(),
        lacks_text(ops[i]),
        forall|j: int| 0 <= j < i ==> !lacks_text(#[trigger] ops[j]),
    ensures
        resources_report(ops).text == resources_report(ops.take(i)).text,
        ops[i] matches ResourceOp::New(Err(message)) ==> resources_report(ops).failure == Some(
            message@,
        ),
        ops[i] matches ResourceOp::Modify(Err(message)) ==> resources_report(ops).failure == Some(
            message@,
        ),
{
    let a = ops.take(i);
    let b = seq![ops[i]];
    let c = ops.skip(i + 1);
    assert(ops =~= a + b + c);
    assert forall|j: int| 0 <= j < a.len() implies !lacks_text(#[trigger] a[j]) by {
        assert(a[j] == ops[j]);
    }
    no_failure_without_lacking_text(a);
    one_resource_is_reported(ops[i]);
    resources_are_reported_in_turn(a, b);
    resources_are_reported_in_turn(a + b, c);
    assert(resources_report(a + b).text =~= resources_report(a).text);
}

/// A resource lacks a text exactly when it is new or changed and its text could not be made.
pub proof fn lacking_text_is_an_error(op: ResourceOp)
    ensures
        lacks_text(op) <==> (op is New && op->New_0 is Err) || (op is Modify && op->Modify_0 is Err),
{
}

/// A result tells a failure by its message, and success where there was none.
pub proof fn result_tells_the_failure(r: Result<(), String>, w: Written)
    requires
        result_matches(r, w),
    ensures
        r is Ok <==> w.failure is None,
        r matches Err(message) ==> w.failure == Some(message@),
{
}

/// The report is what is written for the accounts and then, where they are known, for the tables.
/// It fails with the failure of the accounts.
pub proof fn tables_follow_the_accounts(accounts: Seq<AccountChanges>, cs: TableChangeSet)
    ensures
        accounts_report(accounts).failure matches Some(message) ==> full_report(accounts, None)
            == Err::<Seq<char>, Seq<char>>(message) && full_report(accounts, Some(cs)) == Err::<
            Seq<char>,
            Seq<char>,
        >(message),
        accounts_report(accounts).failure is None ==> full_report(accounts, None) == Ok::<
            Seq<char>,
            Seq<char>,
        >(accounts_report(accounts).text) && full_report(accounts, Some(cs)) == Ok::<
            Seq<char>,
            Seq<char>,
        >(accounts_report(accounts).text + tables_text(cs)),
{
    assert(accounts_report(accounts).text + Seq::<char>::empty() =~= accounts_report(
        accounts,
    ).text);
}

/// The changes to tables are written as those of a set with the new tables alone, of one with the
/// removed tables alone, and of one with the other changes alone.
pub proof fn tables_are_reported_in_turn(
    whole: TableChangeSet,
    new: TableChangeSet,
    removed: TableChangeSet,
    changed: TableChangeSet,
)
    requires
        new.new_tables@ == whole.new_tables@,
        new.removed_tables@.len() == 0,
        new.changes@.len() == 0,
        removed.new_tables@.len() == 0,
        removed.removed_tables@ == whole.removed_tables@,
        removed.changes@.len() == 0,
        changed.new_tables@.len() == 0,
        changed.removed_tables@.len() == 0,
        changed.changes@ == whole.changes@,
    ensures
        tables_text(whole) == tables_text(new) + tables_text(removed) + tables_text(changed),
{
    assert(new_table_items(removed.new_tables@).len() == 0);
    assert(new_table_items(changed.new_tables@).len() == 0);
    assert(tables_text(whole) =~= tables_text(new) + tables_text(removed) + tables_text(changed));
}

/// New tables are one line: the title and, with commas between them, each table with the types of
/// its keys and values.
pub proof fn new_tables_are_listed(cs: TableChangeSet, items: Seq<Seq<char>>)
    requires
        cs.new_tables@.len() > 0,
        cs.removed_tables@.len() == 0,
        cs.changes@.len() == 0,
        items.len() == cs.new_tables@.len(),
        forall|i: int|
            #![trigger items[i]]
            0 <= i < items.len() ==> items[i] == cs.new_tables@[i].handle@ + "<"@
                + cs.new_tables@[i].key_type@ + ","@ + cs.new_tables@[i].value_type@ + ">"@,
    ensures
        tables_text(cs) == "new tables "@ + joined(items, ", "@) + "\n"@,
{
    let listed = new_table_items(cs.new_tables@);
    assert forall|i: int| 0 <= i < items.len() implies items[i] == listed[i] by {
        assert(listed[i] == new_table_item(cs.new_tables@[i]));
    }
    assert(items =~= listed);
    assert(tables_text(cs) =~= "new tables "@ + joined(items, ", "@) + "\n"@);
}

/// Removed tables are one line: the title and, with commas between them, the tables.
pub proof fn removed_tables_are_listed(cs: TableChangeSet)
    requires
        cs.new_tables@.len() == 0,
        cs.removed_tables@.len() > 0,
        cs.changes@.len() == 0,
    ensures
        tables_text(cs) == "removed tables "@ + joined(texts(cs.removed_tables@), ", "@) + "\n"@,
{
    assert(new_table_items(cs.new_tables@).len() == 0);
    assert(tables_text(cs) =~= "removed tables "@ + joined(texts(cs.removed_tables@), ", "@)
        + "\n"@);
}

/// Where nothing has changed in tables, nothing is written.
pub proof fn unchanged_tables_are_not_reported(cs: TableChangeSet)
    requires
        cs.new_tables@.len() == 0,
        cs.removed_tables@.len() == 0,
        cs.changes@.len() == 0,
    ensures
        tables_text(cs).len() == 0,
{
    assert(new_table_items(cs.new_tables@).len() == 0);
}

proof fn more_changes_are_written(a: Seq<TableChange>, b: Seq<TableChange>)
    ensures
        changes_text(a + b) == changes_text(a) + changes_text(b),
    decreases b.len(),
{
    if b.len() == 0 {
        assert(a + b =~= a);
        assert(changes_text(a) + changes_text(b) =~= changes_text(a));
    } else {
        assert((a + b).drop_last() =~= a + b.drop_last());
        assert((a + b).last() == b.last());
        more_changes_are_written(a, b.drop_last());
        assert(changes_text(a + b) =~= changes_text(a) + changes_text(b));
    }
}

/// Changed tables are written one after the other.
pub proof fn changed_tables_are_reported_in_turn(
    whole: TableChangeSet,
    first: TableChangeSet,
    second: TableChangeSet,
)
    requires
        whole.new_tables@.len() == 0,
        whole.removed_tables@.len() == 0,
        first.new_tables@.len() == 0,
        first.removed_tables@.len() == 0,
        second.new_tables@.len() == 0,
        second.removed_tables@.len() == 0,
        whole.changes@ == first.changes@ + second.changes@,
    ensures
        tables_text(whole) == tables_text(first) + tables_text(second),
{
    more_changes_are_written(first.changes@, second.changes@);
    assert(new_table_items(whole.new_tables@).len() == 0);
    assert(new_table_items(first.new_tables@).len() == 0);
    assert(new_table_items(second.new_tables@).len() == 0);
    assert(tables_text(whole) =~= tables_text(first) + tables_text(second));
}

/// A changed table is a line with its handle and then its entries.
pub proof fn one_changed_table_is_reported(cs: TableChangeSet, change: TableChange)
    requires
        cs.new_tables@.len() == 0,
        cs.removed_tables@.len() == 0,
        cs.changes@ == seq![change],
    ensures
        tables_text(cs) == "for "@ + change.handle@ + "\n"@ + entry_lines(change.entries@),
{
    let changes = cs.changes@;
    assert(changes.drop_last() =~= Seq::empty());
    assert(changes.last() == change);
    reveal_with_fuel(changes_text, 2);
    assert(new_table_items(cs.new_tables@).len() == 0);
    assert(tables_text(cs) =~= change_text(change));
}

/// The entries of a table are written one after the other.
pub proof fn entries_are_reported_in_turn(
    a: Seq<(Vec<u8>, String)>,
    b: Seq<(Vec<u8>, String)>,
)
    ensures
        entry_lines(a + b) == entry_lines(a) + entry_lines(b),
    decreases b.len(),
{
    if b.len() == 0 {
        assert(a + b =~= a);
        assert(entry_lines(a) + entry_lines(b) =~= entry_lines(a));
    } else {
        assert((a + b).drop_last() =~= a + b.drop_last());
        assert((a + b).last() == b.last());
        entries_are_reported_in_turn(a, b.drop_last());
        assert(entry_lines(a + b) =~= entry_lines(a) + entry_lines(b));
    }
}

/// An entry is a line with the bytes of its key and the text of what happened to it.
pub proof fn one_entry_is_reported(entry: (Vec<u8>, String))
    ensures
        entry_lines(seq![entry]) == "  "@ + upper_hex_list(entry.0@) + " := "@ + entry.1@ + "\n"@,
        entry_lines(Seq::empty()) == Seq::<char>::empty(),
{
    let entries = seq![entry];
    assert(entries.drop_last() =~= Seq::empty());
    reveal_with_fuel(entry_lines, 2);
    assert(entry_lines(entries) =~= "  "@ + upper_hex_list(entry.0@) + " := "@ + entry.1@
        + "\n"@);
}

/// A list of tables is a line exactly where there are any.
pub proof fn lists_without_items_have_no_line(title: Seq<char>, items: Seq<Seq<char>>)
    ensures
        items.len() == 0 ==> list_line(title, items).len() == 0,
        items.len() > 0 ==> list_line(title, items) == title + joined(items, ", "@) + "\n"@,
{
}

/// The items of new tables are the tables', table by table.
pub proof fn new_table_items_are_the_tables(tables: Seq<NewTable>, i: int)
    requires
        0 <= i < tables.len(),
    ensures
        new_table_items(tables).len() == tables.len(),
        new_table_items(tables)[i] == tables[i].handle@ + "<"@ + tables[i].key_type@ + ","@
            + tables[i].value_type@ + ">"@,
{
}

} // verus!
