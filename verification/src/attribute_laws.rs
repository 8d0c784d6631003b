//! What reading a fork attribute comes to, said of the attribute's own parts.
use crate::fork_attributes::{
    after_arguments, argument_problems, arguments_problems, first_fork, function_fork, function_problems,
    has_label, no_fork_info, parsed_info, parsed_problems, problem_message, sets_network,
    sets_version, Attribute, AttributeValue, Diagnostic, ForkInfo, ForkProblem, ForkView, FunctionModel,
};
use crate::fork_laws::{
    fork_attribute_is_the_first, last_network_wins, last_version_wins, network_is_kept,
    version_is_kept,
};
use vstd::prelude::*;
use vstd::utf8::{encode_utf8, encode_utf8_decode_utf8, encode_utf8_valid_utf8, valid_utf8};

verus! {

/// Fork information stands for its own network and version.
pub proof fn fork_view_is_faithful(info: ForkInfo)
    ensures
        info@.version == info.version,
        info@.network is Some <==> info.network is Some,
        info.network matches Some(n) ==> info@.network == Some(n@),
{
}

/// Two pieces of fork information with one view have the same network and version.
pub proof fn fork_view_is_injective(a: ForkInfo, b: ForkInfo)
    requires
        a@ == b@,
    ensures
        a.version == b.version,
        a.network is Some <==> b.network is Some,
        a.network is Some ==> a.network->0@ == b.network->0@,
{
}

proof fn key_texts_differ()
    ensures
        "network"@ != "version"@,
        "fork"@ != "version"@,
        "fork"@ != "network"@,
{
    reveal_strlit("network");
    reveal_strlit("version");
    reveal_strlit("fork");
    assert("network"@[0] != "version"@[0]);
    assert("fork"@[0] != "version"@[0]);
    assert("fork"@[0] != "network"@[0]);
}

/// An assignment of a number to `version` sets exactly that number, whatever it is and wherever the
/// assignment stands, and leaves the network alone.
pub proof fn version_assignment_is_read(attr: Attribute, depth: usize, info: ForkView)
    requires
        attr is Assign,
        attr->Assign_name@ == "version"@,
    ensures
        attr->number matches Some(v) ==> parsed_info(attr, depth, info).version == Some(v),
        attr->number is None ==> parsed_info(attr, depth, info).version == info.version,
        parsed_info(attr, depth, info).network == info.network,
{
    key_texts_differ();
}

/// An assignment of the bytes of a text to `network` sets exactly that text, wherever the
/// assignment stands, and leaves the version alone.
pub proof fn network_assignment_is_read(
    attr: Attribute,
    bytes: Vec<u8>,
    text: Seq<char>,
    depth: usize,
    info: ForkView,
)
    requires
        attr is Assign,
        attr->Assign_name@ == "network"@,
        attr->value == AttributeValue::ByteArray(bytes),
        bytes@ == encode_utf8(text),
    ensures
        parsed_info(attr, depth, info).network == Some(text),
        parsed_info(attr, depth, info).version == info.version,
{
    key_texts_differ();
    encode_utf8_valid_utf8(text);
    encode_utf8_decode_utf8(text);
}

/// An assignment to `network` of anything but a byte string in UTF-8 changes nothing.
pub proof fn other_network_value_changes_nothing(attr: Attribute, depth: usize, info: ForkView)
    requires
        attr is Assign,
        attr->Assign_name@ == "network"@,
        attr->value is Other || !valid_utf8(attr->value->ByteArray_0@),
    ensures
        parsed_info(attr, depth, info) == info,
{
    key_texts_differ();
}

/// An assignment to any other key changes nothing, and neither does an attribute with arguments
/// inside the fork attribute.
pub proof fn other_arguments_change_nothing(attr: Attribute, depth: usize, info: ForkView)
    requires
        attr is Assign ==> attr->Assign_name@ != "network"@ && attr->Assign_name@ != "version"@,
        attr is Apply ==> depth > 0,
    ensures
        parsed_info(attr, depth, info) == info,
{
}

/// Without arguments a fork attribute changes nothing and has no problems.
pub proof fn no_arguments_change_nothing(attr: Attribute, info: ForkView)
    requires
        attr is Apply,
        attr->args@.len() == 0,
    ensures
        parsed_info(attr, 0, info) == info,
        parsed_problems(attr, 0) == Seq::<Diagnostic>::empty(),
{
}

/// With one argument a fork attribute is read as the argument is, one level down.
pub proof fn one_argument_is_read(attr: Attribute, argument: Attribute, info: ForkView)
    requires
        attr is Apply,
        attr->args@ == seq![argument],
    ensures
        parsed_info(attr, 0, info) == parsed_info(argument, 1, info),
        parsed_problems(attr, 0) == parsed_problems(argument, 1),
{
    let args = attr->args@;
    assert(args.drop_last() =~= Seq::empty());
    reveal_with_fuel(after_arguments, 2);
    reveal_with_fuel(arguments_problems, 2);
    assert(args.last() == argument);
    let p = argument_problems(argument, 1);
    assert(Seq::<Diagnostic>::empty() + p =~= p);
}

proof fn after_more_arguments(a: Seq<Attribute>, b: Seq<Attribute>, info: ForkView)
    ensures
        after_arguments(a + b, info) == after_arguments(b, after_arguments(a, info)),
        arguments_problems(a + b) == arguments_problems(a) + arguments_problems(b),
    decreases b.len(),
{
    if b.len() == 0 {
        assert(a + b =~= a);
        assert(arguments_problems(a) + arguments_problems(b) =~= arguments_problems(a));
    } else {
        assert((a + b).drop_last() =~= a + b.drop_last());
        assert((a + b).last() == b.last());
        after_more_arguments(a, b.drop_last(), info);
        assert(arguments_problems(a + b) =~= arguments_problems(a) + arguments_problems(b));
    }
}

/// A fork attribute whose arguments are those of a first and then those of a second one is read as
/// the first and then the second.
pub proof fn arguments_are_read_in_turn(
    whole: Attribute,
    first: Attribute,
    second: Attribute,
    info: ForkView,
)
    requires
        whole is Apply,
        first is Apply,
        second is Apply,
        whole->args@ == first->args@ + second->args@,
    ensures
        parsed_info(whole, 0, info) == parsed_info(second, 0, parsed_info(first, 0, info)),
        parsed_problems(whole, 0) == parsed_problems(first, 0) + parsed_problems(second, 0),
{
    after_more_arguments(first->args@, second->args@, info);
}

/// Of the arguments that assign a number to `version`, the last one's number is the version.
pub proof fn version_is_the_last_number(attr: Attribute, info: ForkView, i: int)
    requires
        attr is Apply,
        0 <= i < attr->args@.len(),
        attr->args@[i] is Assign,
        attr->args@[i]->Assign_name@ == "version"@,
        attr->args@[i]->number is Some,
        forall|j: int|
            #![trigger attr->args@[j]]
            i < j < attr->args@.len() ==> !(attr->args@[j] is Assign
                && attr->args@[j]->Assign_name@ == "version"@ && attr->args@[j]->number is Some),
    ensures
        parsed_info(attr, 0, info).version == attr->args@[i]->number,
{
    let args = attr->args@;
    assert forall|j: int| i < j < args.len() implies sets_version(#[trigger] args[j]) is None by {
        assert(args[j] == attr->args@[j]);
    }
    last_version_wins(args, info, i);
}

/// Where no argument assigns a number to `version`, the version stays.
pub proof fn version_stays_without_a_number(attr: Attribute, info: ForkView)
    requires
        attr is Apply,
        forall|j: int|
            #![trigger attr->args@[j]]
            0 <= j < attr->args@.len() ==> !(attr->args@[j] is Assign
                && attr->args@[j]->Assign_name@ == "version"@ && attr->args@[j]->number is Some),
    ensures
        parsed_info(attr, 0, info).version == info.version,
{
    let args = attr->args@;
    assert forall|j: int| 0 <= j < args.len() implies sets_version(#[trigger] args[j]) is None by {
        assert(args[j] == attr->args@[j]);
    }
    version_is_kept(args, info);
}

/// Of the arguments that assign a byte string in UTF-8 to `network`, the last one's text is the
/// network.
pub proof fn network_is_the_last_text(attr: Attribute, info: ForkView, text: Seq<char>, i: int)
    requires
        attr is Apply,
        0 <= i < attr->args@.len(),
        attr->args@[i] is Assign,
        attr->args@[i]->Assign_name@ == "network"@,
        attr->args@[i]->value is ByteArray,
        attr->args@[i]->value->ByteArray_0@ == encode_utf8(text),
        forall|j: int|
            #![trigger attr->args@[j]]
            i < j < attr->args@.len() ==> !(attr->args@[j] is Assign
                && attr->args@[j]->Assign_name@ == "network"@ && attr->args@[j]->value is ByteArray
                && valid_utf8(attr->args@[j]->value->ByteArray_0@)),
    ensures
        parsed_info(attr, 0, info).network == Some(text),
{
    let args = attr->args@;
    encode_utf8_valid_utf8(text);
    encode_utf8_decode_utf8(text);
    assert forall|j: int| i < j < args.len() implies sets_network(#[trigger] args[j]) is None by {
        assert(args[j] == attr->args@[j]);
    }
    last_network_wins(args, info, i);
}

/// Where no argument assigns a byte string in UTF-8 to `network`, the network stays.
pub proof fn network_stays_without_a_text(attr: Attribute, info: ForkView)
    requires
        attr is Apply,
        forall|j: int|
            #![trigger attr->args@[j]]
            0 <= j < attr->args@.len() ==> !(attr->args@[j] is Assign
                && attr->args@[j]->Assign_name@ == "network"@ && attr->args@[j]->value is ByteArray
                && valid_utf8(attr->args@[j]->value->ByteArray_0@)),
    ensures
        parsed_info(attr, 0, info).network == info.network,
{
    let args = attr->args@;
    assert forall|j: int| 0 <= j < args.len() implies sets_network(#[trigger] args[j]) is None by {
        assert(args[j] == attr->args@[j]);
    }
    network_is_kept(args, info);
}

/// An attribute with arguments inside the fork attribute is a problem, and the only one there.
pub proof fn nested_attribute_is_reported(attr: Attribute, depth: usize)
    requires
        attr is Apply,
        depth > 0,
    ensures
        parsed_problems(attr, depth) == seq![
            Diagnostic { node: attr->Apply_node, problem: ForkProblem::NestedAttribute },
        ],
{
}

/// Whether a key gets a value that it can have: a byte string in UTF-8, or a number.
pub open spec fn fits(attr: Attribute) -> bool {
    ||| attr->Assign_name@ == "network"@ && attr->value is ByteArray && valid_utf8(
        attr->value->ByteArray_0@,
    )
    ||| attr->Assign_name@ == "version"@ && attr->number is Some
}

/// An assignment in its place has no problem where the value fits the key, and else just one, at
/// its own node: about the value of `network`, about the value of `version`, or about the key.
pub proof fn assignment_is_reported_once(attr: Attribute)
    requires
        attr is Assign,
    ensures
        parsed_problems(attr, 1).len() == 0 <==> fits(attr),
        parsed_problems(attr, 1).len() <= 1,
        !fits(attr) ==> parsed_problems(attr, 1)[0].node == attr->Assign_node,
        attr->Assign_name@ == "network"@ && (attr->value is Other || !valid_utf8(
            attr->value->ByteArray_0@,
        )) ==> parsed_problems(attr, 1)[0].problem is UnsupportedValue,
        attr->Assign_name@ == "version"@ && attr->number is None ==> parsed_problems(
            attr,
            1,
        )[0].problem is ValueTooBig,
        attr->Assign_name@ != "network"@ && attr->Assign_name@ != "version"@ ==> parsed_problems(
            attr,
            1,
        )[0].problem is UnsupportedKey,
{
    key_texts_differ();
}

/// Out of its place an assignment has one problem more, which comes first.
pub proof fn misplaced_assignment_is_reported(attr: Attribute, depth: usize)
    requires
        attr is Assign,
        depth != 1,
    ensures
        parsed_problems(attr, depth) == seq![
            Diagnostic { node: attr->Assign_node, problem: ForkProblem::MisplacedAssignment },
        ] + parsed_problems(attr, 1),
{
    assert(parsed_problems(attr, depth) =~= seq![
        Diagnostic { node: attr->Assign_node, problem: ForkProblem::MisplacedAssignment },
    ] + parsed_problems(attr, 1));
}

/// Whether an attribute is named `fork`.
pub open spec fn named_fork(attr: Attribute) -> bool {
    ||| attr is Apply && attr->Apply_name@ == "fork"@
    ||| attr is Assign && attr->Assign_name@ == "fork"@
}

/// A function none of whose attributes is named `fork` asks for nothing and has no problems.
pub proof fn function_without_a_fork(function: FunctionModel)
    requires
        forall|j: int|
            #![trigger function.attributes@[j]]
            0 <= j < function.attributes@.len() ==> !named_fork(function.attributes@[j]),
    ensures
        function_fork(function) is None,
        function_problems(function) == Seq::<Diagnostic>::empty(),
{
    fork_attribute_is_the_first(function.attributes@);
}

/// A function asks for what the first of its attributes that is named `fork` says, read with
/// nothing set before, and has the problems of that attribute.
pub proof fn function_asks_for_its_first_fork(function: FunctionModel, i: int)
    requires
        0 <= i < function.attributes@.len(),
        named_fork(function.attributes@[i]),
        forall|j: int|
            #![trigger function.attributes@[j]]
            0 <= j < i ==> !named_fork(function.attributes@[j]),
    ensures
        function_fork(function) == Some(
            parsed_info(function.attributes@[i], 0, ForkView { network: None, version: None }),
        ),
        function_problems(function) == parsed_problems(function.attributes@[i], 0),
{
    fork_attribute_is_the_first(function.attributes@);
    let k = first_fork(function.attributes@);
    assert(named_fork(function.attributes@[i]));
    assert(k is Some);
    assert(named_fork(function.attributes@[k->0]));
    assert(k == Some(i));
}

/// A function that names a network and a version in its one fork attribute, as in
/// `#[fork(network = b"..", version = ..)]`, asks for just those, in whichever order they stand.
pub proof fn network_and_version_are_asked_for(
    function: FunctionModel,
    network: Attribute,
    version: Attribute,
    text: Seq<char>,
    v: u64,
)
    requires
        function.attributes@.len() == 1,
        function.attributes@[0] is Apply,
        function.attributes@[0]->Apply_name@ == "fork"@,
        function.attributes@[0]->args@ == seq![network, version]
            || function.attributes@[0]->args@ == seq![version, network],
        network is Assign,
        network->Assign_name@ == "network"@,
        network->value is ByteArray,
        network->value->ByteArray_0@ == encode_utf8(text),
        version is Assign,
        version->Assign_name@ == "version"@,
        version->number == Some(v),
    ensures
        function_fork(function) == Some(ForkView { network: Some(text), version: Some(v) }),
        function_problems(function) == Seq::<Diagnostic>::empty(),
{
    key_texts_differ();
    encode_utf8_valid_utf8(text);
    let attr = function.attributes@[0];
    let none = ForkView { network: None, version: None };
    function_asks_for_its_first_fork(function, 0);
    if attr->args@ == seq![network, version] {
        network_is_the_last_text(attr, none, text, 0);
        version_is_the_last_number(attr, none, 1);
        after_more_arguments(seq![network], seq![version], none);
        assert(seq![network] + seq![version] =~= attr->args@);
    } else {
        network_is_the_last_text(attr, none, text, 1);
        version_is_the_last_number(attr, none, 0);
        after_more_arguments(seq![version], seq![network], none);
        assert(seq![version] + seq![network] =~= attr->args@);
    }
    assert(seq![network].drop_last() =~= Seq::empty());
    assert(seq![version].drop_last() =~= Seq::empty());
    reveal_with_fuel(arguments_problems, 2);
    assert(function_problems(function) =~= Seq::empty());
}

/// Before a fork attribute is read, neither a network nor a version is set.
pub proof fn nothing_is_asked_for_by_default()
    ensures
        no_fork_info().network is None,
        no_fork_info().version is None,
{
}

/// Different problems are reported in different words.
pub proof fn messages_tell_problems_apart(a: ForkProblem, b: ForkProblem)
    requires
        problem_message(a) == problem_message(b),
    ensures
        a == b,
{
    reveal_strlit("Unexpected nested attribute in fork declaration");
    reveal_strlit("Unexpected fork attribute in test declaration");
    reveal_strlit("Unsupported attribute value");
    reveal_strlit("attribute value too big");
    reveal_strlit("Unsupported attribute key");
    assert("Unexpected nested attribute in fork declaration"@.len() == 47);
    assert("Unexpected fork attribute in test declaration"@.len() == 45);
    assert("Unsupported attribute value"@.len() == 27);
    assert("attribute value too big"@.len() == 23);
    assert("Unsupported attribute key"@.len() == 25);
}

/// A problem of an assignment's key or value has a label, a problem of a place has none.
pub proof fn labels_are_for_keys_and_values(attr: Attribute, k: int)
    requires
        attr is Assign,
        0 <= k < parsed_problems(attr, 1).len(),
    ensures
        has_label(parsed_problems(attr, 1)[k].problem),
        !has_label(ForkProblem::NestedAttribute),
        !has_label(ForkProblem::MisplacedAssignment),
{
}

} // verus!
