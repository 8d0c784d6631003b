//! What holds of fork attributes and fork plans as a whole.
use crate::fork_attributes::{
    after_arguments, argument_problems, arguments_problems, assignment_problem,
    attribute_name, first_fork, function_fork, functions_forks, module_plan, modules_plans,
    no_fork_info, sets_network, sets_version, Attribute, Diagnostic, ForkView, FunctionModel,
    ModuleModel, PlanError, PlanView, FORK,
};
use crate::model::ModuleIdView;
use vstd::prelude::*;

verus! {

/// Of several networks in one fork attribute the last one counts.
pub proof fn last_network_wins(args: Seq<Attribute>, info: ForkView, i: int)
    requires
        0 <= i < args.len(),
        sets_network(args[i]) is Some,
        forall|j: int| i < j < args.len() ==> sets_network(#[trigger] args[j]) is None,
    ensures
        after_arguments(args, info).network == sets_network(args[i]),
    decreases args.len(),
{
    if i < args.len() - 1 {
        let t = args.drop_last();
        assert(sets_network(args[args.len() - 1]) is None);
        assert forall|j: int| i < j < t.len() implies sets_network(#[trigger] t[j]) is None by {
            assert(t[j] == args[j]);
        }
        last_network_wins(t, info, i);
    }
}

/// Of several versions in one fork attribute the last one counts.
pub proof fn last_version_wins(args: Seq<Attribute>, info: ForkView, i: int)
    requires
        0 <= i < args.len(),
        sets_version(args[i]) is Some,
        forall|j: int| i < j < args.len() ==> sets_version(#[trigger] args[j]) is None,
    ensures
        after_arguments(args, info).version == sets_version(args[i]),
    decreases args.len(),
{
    if i < args.len() - 1 {
        let t = args.drop_last();
        assert(sets_version(args[args.len() - 1]) is None);
        assert forall|j: int| i < j < t.len() implies sets_version(#[trigger] t[j]) is None by {
            assert(t[j] == args[j]);
        }
        last_version_wins(t, info, i);
    }
}

/// Arguments that set no network keep the one there was, if any.
pub proof fn network_is_kept(args: Seq<Attribute>, info: ForkView)
    requires
        forall|j: int| 0 <= j < args.len() ==> sets_network(#[trigger] args[j]) is None,
    ensures
        after_arguments(args, info).network == info.network,
    decreases args.len(),
{
    if args.len() > 0 {
        let t = args.drop_last();
        assert(sets_network(args[args.len() - 1]) is None);
        assert forall|j: int| 0 <= j < t.len() implies sets_network(#[trigger] t[j]) is None by {
            assert(t[j] == args[j]);
        }
        network_is_kept(t, info);
    }
}

/// Arguments that set no version keep the one there was, if any.
pub proof fn version_is_kept(args: Seq<Attribute>, info: ForkView)
    requires
        forall|j: int| 0 <= j < args.len() ==> sets_version(#[trigger] args[j]) is None,
    ensures
        after_arguments(args, info).version == info.version,
    decreases args.len(),
{
    if args.len() > 0 {
        let t = args.drop_last();
        assert(sets_version(args[args.len() - 1]) is None);
        assert forall|j: int| 0 <= j < t.len() implies sets_version(#[trigger] t[j]) is None by {
            assert(t[j] == args[j]);
        }
        version_is_kept(t, info);
    }
}

/// A fork attribute that sets no network leaves it open.
pub proof fn network_stays_open(args: Seq<Attribute>)
    requires
        forall|j: int| 0 <= j < args.len() ==> sets_network(#[trigger] args[j]) is None,
    ensures
        after_arguments(args, no_fork_info()).network is None,
{
    network_is_kept(args, no_fork_info());
}

/// A fork attribute that sets no version leaves it open.
pub proof fn version_stays_open(args: Seq<Attribute>)
    requires
        forall|j: int| 0 <= j < args.len() ==> sets_version(#[trigger] args[j]) is None,
    ensures
        after_arguments(args, no_fork_info()).version is None,
{
    version_is_kept(args, no_fork_info());
}

/// Nothing is reported for a fork attribute exactly when each argument assigns a fitting value to
/// a known key.
pub proof fn silent_iff_well_formed(args: Seq<Attribute>)
    ensures
        arguments_problems(args) == Seq::<Diagnostic>::empty() <==> forall|i: int|
            0 <= i < args.len() ==> (#[trigger] args[i]) is Assign && assignment_problem(args[i])
                is None,
    decreases args.len(),
{
    if args.len() > 0 {
        let t = args.drop_last();
        silent_iff_well_formed(t);
        let last = args[args.len() - 1];
        assert(args.last() == last);
        let p = argument_problems(last, 1);
        assert(p.len() == 0 <==> last is Assign && assignment_problem(last) is None);
        assert(arguments_problems(args).len() == arguments_problems(t).len() + p.len());
        if arguments_problems(args).len() == 0 {
            assert(arguments_problems(t) =~= Seq::<Diagnostic>::empty());
            assert forall|i: int| 0 <= i < args.len() implies (#[trigger] args[i]) is Assign
                && assignment_problem(args[i]) is None by {
                if i < t.len() {
                    assert(t[i] == args[i]);
                }
            }
        }
        if forall|i: int|
            0 <= i < args.len() ==> (#[trigger] args[i]) is Assign && assignment_problem(args[i])
                is None {
            assert(args[args.len() - 1] is Assign);
            assert forall|i: int| 0 <= i < t.len() implies (#[trigger] t[i]) is Assign
                && assignment_problem(t[i]) is None by {
                assert(t[i] == args[i]);
            }
            assert(arguments_problems(args) =~= Seq::<Diagnostic>::empty());
        }
    }
}

/// A test is forked exactly when one of its attributes is named `fork`, and the first such
/// attribute is the one that is read.
pub proof fn fork_attribute_is_the_first(attrs: Seq<Attribute>)
    ensures
        match first_fork(attrs) {
            Some(i) => {
                &&& 0 <= i < attrs.len()
                &&& attribute_name(attrs[i]) == FORK@
                &&& forall|j: int| 0 <= j < i ==> attribute_name(#[trigger] attrs[j]) != FORK@
            },
            None => forall|j: int|
                0 <= j < attrs.len() ==> attribute_name(#[trigger] attrs[j]) != FORK@,
        },
    decreases attrs.len(),
{
    if attrs.len() > 0 {
        let t = attrs.drop_last();
        fork_attribute_is_the_first(t);
        assert(forall|j: int| 0 <= j < t.len() ==> t[j] == #[trigger] attrs[j]);
    }
}

/// Whether a function has this name and asks for a fork.
pub open spec fn forks_as(function: FunctionModel, name: Seq<char>) -> bool {
    function.name@ == name && function_fork(function) is Some
}

/// The forks of some functions, and one function more.
proof fn forks_of_one_more(functions: Seq<FunctionModel>, name: Seq<char>)
    requires
        functions.len() > 0,
    ensures
        forks_as(functions.last(), name) ==> functions_forks(functions).contains_key(name) && Some(
            functions_forks(functions)[name],
        ) == function_fork(functions.last()),
        !forks_as(functions.last(), name) ==> (functions_forks(functions).contains_key(name)
            <==> functions_forks(functions.drop_last()).contains_key(name)) && functions_forks(
            functions,
        )[name] == functions_forks(functions.drop_last())[name],
{
}

/// A name is in a module's plan exactly when a function of that name asks for a fork.
pub proof fn plan_lists_forked_functions(functions: Seq<FunctionModel>, name: Seq<char>)
    ensures
        functions_forks(functions).contains_key(name) <==> exists|i: int|
            0 <= i < functions.len() && forks_as(#[trigger] functions[i], name),
    decreases functions.len(),
{
    if functions.len() > 0 {
        let t = functions.drop_last();
        let n = functions.len() - 1;
        forks_of_one_more(functions, name);
        plan_lists_forked_functions(t, name);
        assert(functions.last() == functions[n]);
        if !forks_as(functions[n], name) {
            if functions_forks(t).contains_key(name) {
                let i = choose|i: int| 0 <= i < t.len() && forks_as(#[trigger] t[i], name);
                assert(forks_as(functions[i], name));
            }
            if exists|i: int| 0 <= i < functions.len() && forks_as(#[trigger] functions[i], name) {
                let i = choose|i: int|
                    0 <= i < functions.len() && forks_as(#[trigger] functions[i], name);
                assert(forks_as(t[i], name));
            }
        }
    }
}

/// Of several functions with one name the last one's fork counts.
pub proof fn last_function_wins(functions: Seq<FunctionModel>, name: Seq<char>, i: int)
    requires
        0 <= i < functions.len(),
        forks_as(functions[i], name),
        forall|j: int| i < j < functions.len() ==> !forks_as(#[trigger] functions[j], name),
    ensures
        functions_forks(functions).contains_key(name),
        Some(functions_forks(functions)[name]) == function_fork(functions[i]),
    decreases functions.len(),
{
    let t = functions.drop_last();
    let n = functions.len() - 1;
    forks_of_one_more(functions, name);
    assert(functions.last() == functions[n]);
    if i < n {
        assert(!forks_as(functions[n], name));
        assert(t[i] == functions[i]);
        assert forall|j: int| i < j < t.len() implies !forks_as(#[trigger] t[j], name) by {
            assert(!forks_as(functions[j], name));
        }
        last_function_wins(t, name, i);
    }
}

/// Whether a module has a plan, under this id.
pub open spec fn plans_module(module: ModuleModel, id: ModuleIdView) -> bool {
    module_plan(module) matches Ok(Some(plan)) && plan.module_id == id
}

/// The plans of some modules, and one module more.
proof fn plans_of_one_more(modules: Seq<ModuleModel>, id: ModuleIdView)
    requires
        modules.len() > 0,
        modules_plans(modules) is Ok,
    ensures
        modules_plans(modules.drop_last()) is Ok,
        plans_module(modules.last(), id) ==> modules_plans(modules)->Ok_0.contains_key(id)
            && module_plan(modules.last()) == Ok::<Option<PlanView>, PlanError>(
            Some(modules_plans(modules)->Ok_0[id]),
        ),
        !plans_module(modules.last(), id) ==> (modules_plans(modules)->Ok_0.contains_key(id)
            <==> modules_plans(modules.drop_last())->Ok_0.contains_key(id))
            && modules_plans(modules)->Ok_0[id] == modules_plans(modules.drop_last())->Ok_0[id],
{
}

/// A module id has a plan exactly when a module of that id has one.
pub proof fn plans_list_forked_modules(modules: Seq<ModuleModel>, id: ModuleIdView)
    requires
        modules_plans(modules) is Ok,
    ensures
        modules_plans(modules)->Ok_0.contains_key(id) <==> exists|i: int|
            0 <= i < modules.len() && plans_module(#[trigger] modules[i], id),
    decreases modules.len(),
{
    if modules.len() > 0 {
        let t = modules.drop_last();
        let n = modules.len() - 1;
        plans_of_one_more(modules, id);
        plans_list_forked_modules(t, id);
        assert(modules.last() == modules[n]);
        if !plans_module(modules[n], id) {
            if modules_plans(t)->Ok_0.contains_key(id) {
                let i = choose|i: int| 0 <= i < t.len() && plans_module(#[trigger] t[i], id);
                assert(plans_module(modules[i], id));
            }
            if exists|i: int| 0 <= i < modules.len() && plans_module(#[trigger] modules[i], id) {
                let i = choose|i: int|
                    0 <= i < modules.len() && plans_module(#[trigger] modules[i], id);
                assert(plans_module(t[i], id));
            }
        }
    }
}

/// Of several modules with one id the last one's plan counts.
pub proof fn last_module_wins(modules: Seq<ModuleModel>, id: ModuleIdView, i: int)
    requires
        modules_plans(modules) is Ok,
        0 <= i < modules.len(),
        plans_module(modules[i], id),
        forall|j: int| i < j < modules.len() ==> !plans_module(#[trigger] modules[j], id),
    ensures
        modules_plans(modules)->Ok_0.contains_key(id),
        module_plan(modules[i]) == Ok::<Option<PlanView>, PlanError>(
            Some(modules_plans(modules)->Ok_0[id]),
        ),
    decreases modules.len(),
{
    let t = modules.drop_last();
    let n = modules.len() - 1;
    plans_of_one_more(modules, id);
    assert(modules.last() == modules[n]);
    if i < n {
        assert(!plans_module(modules[n], id));
        assert(t[i] == modules[i]);
        assert forall|j: int| i < j < t.len() implies !plans_module(#[trigger] t[j], id) by {
            assert(!plans_module(modules[j], id));
        }
        last_module_wins(t, id, i);
    }
}

} // verus!
