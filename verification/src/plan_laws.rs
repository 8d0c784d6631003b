//! What the plans of modules come to, said of the modules' own parts.
use crate::attribute_laws::{function_asks_for_its_first_fork, named_fork};
use crate::factory::planned_fork;
use crate::fork_attributes::{
    first_fork, function_problems, functions_forks, functions_problems, info_views, module_plan,
    modules_examined, modules_plans, modules_problems, parsed_info, plan_views, Diagnostic,
    ForkInfo, ForkView, FunctionModel, ModuleAddress, ModuleModel, ModuleTestForkPlan, PlanError,
    PlanView,
};
use crate::fork_laws::{
    fork_attribute_is_the_first, forks_as, last_function_wins, last_module_wins,
    plan_lists_forked_functions, plans_list_forked_modules, plans_module,
};
use crate::model::{ModuleId, ModuleIdView};
use crate::outside::is_identifier;
use vstd::prelude::*;

verus! {

/// A module id stands for its address, byte by byte, and its name.
pub proof fn module_id_view_is_faithful(a: ModuleId, b: ModuleId)
    ensures
        a@ == b@ <==> (forall|i: int|
            0 <= i < 32 ==> #[trigger] a.address.bytes@[i] == b.address.bytes@[i]) && a.name@
            == b.name@,
{
    if forall|i: int| 0 <= i < 32 ==> #[trigger] a.address.bytes@[i] == b.address.bytes@[i] {
        assert(a.address.bytes@ =~= b.address.bytes@);
    }
}

/// A plan stands for its module's id and, name by name, for its fork information.
pub proof fn plan_view_is_faithful(plan: ModuleTestForkPlan, name: Seq<char>)
    ensures
        plan@.module_id.address == plan.module_id.address.bytes@,
        plan@.module_id.name == plan.module_id.name@,
        plan@.infos.contains_key(name) <==> plan.infos@.contains_key(name),
        plan.infos@.contains_key(name) ==> plan@.infos[name].version == plan.infos@[name].version,
        plan.infos@.contains_key(name) ==> (plan@.infos[name].network is Some
            <==> plan.infos@[name].network is Some),
        plan.infos@.contains_key(name) && plan.infos@[name].network is Some
            ==> plan@.infos[name].network->0 == plan.infos@[name].network->0@,
{
}

/// The views of plans are the plans' views, under the same ids.
pub proof fn plan_views_are_faithful(
    plans: Map<ModuleIdView, ModuleTestForkPlan>,
    infos: Map<Seq<char>, ForkInfo>,
    id: ModuleIdView,
    name: Seq<char>,
)
    ensures
        plan_views(plans).contains_key(id) <==> plans.contains_key(id),
        plans.contains_key(id) ==> plan_views(plans)[id] == plans[id]@,
        info_views(infos).contains_key(name) <==> infos.contains_key(name),
        infos.contains_key(name) ==> info_views(infos)[name] == infos[name]@,
{
}

/// Whether a function has this name and an attribute named `fork`.
pub open spec fn has_fork(function: FunctionModel, name: Seq<char>) -> bool {
    &&& function.name@ == name
    &&& exists|j: int|
        0 <= j < function.attributes@.len() && named_fork(#[trigger] function.attributes@[j])
}

proof fn fork_is_an_attribute(function: FunctionModel, name: Seq<char>)
    ensures
        forks_as(function, name) <==> has_fork(function, name),
{
    fork_attribute_is_the_first(function.attributes@);
    let attrs = function.attributes@;
    match first_fork(attrs) {
        Some(i) => {
            assert(named_fork(attrs[i]));
        },
        None => {
            assert forall|j: int| 0 <= j < attrs.len() implies !named_fork(#[trigger] attrs[j]) by {
            }
        },
    }
}

/// A name is planned exactly when a function of that name has an attribute named `fork`.
pub proof fn planned_names_are_forked_functions(functions: Seq<FunctionModel>, name: Seq<char>)
    ensures
        functions_forks(functions).contains_key(name) <==> exists|i: int|
            0 <= i < functions.len() && has_fork(#[trigger] functions[i], name),
{
    plan_lists_forked_functions(functions, name);
    if functions_forks(functions).contains_key(name) {
        let i = choose|i: int| 0 <= i < functions.len() && forks_as(#[trigger] functions[i], name);
        fork_is_an_attribute(functions[i], name);
        assert(has_fork(functions[i], name));
    }
    if exists|i: int| 0 <= i < functions.len() && has_fork(#[trigger] functions[i], name) {
        let i = choose|i: int| 0 <= i < functions.len() && has_fork(#[trigger] functions[i], name);
        fork_is_an_attribute(functions[i], name);
        assert(forks_as(functions[i], name));
    }
}

/// What is planned under a name is what the first fork attribute of the last function of that name
/// says, of those functions that have one.
pub proof fn planned_fork_is_what_the_attribute_says(
    functions: Seq<FunctionModel>,
    name: Seq<char>,
    i: int,
    k: int,
)
    requires
        0 <= i < functions.len(),
        functions[i].name@ == name,
        0 <= k < functions[i].attributes@.len(),
        named_fork(functions[i].attributes@[k]),
        forall|j: int|
            #![trigger functions[i].attributes@[j]]
            0 <= j < k ==> !named_fork(functions[i].attributes@[j]),
        forall|j: int| i < j < functions.len() ==> !has_fork(#[trigger] functions[j], name),
    ensures
        functions_forks(functions).contains_key(name),
        functions_forks(functions)[name] == parsed_info(
            functions[i].attributes@[k],
            0,
            ForkView { network: None, version: None },
        ),
{
    function_asks_for_its_first_fork(functions[i], k);
    assert forall|j: int| i < j < functions.len() implies !forks_as(#[trigger] functions[j], name) by {
        fork_is_an_attribute(functions[j], name);
    }
    last_function_wins(functions, name, i);
}

/// The problems of functions are those of each function, one function after the other.
pub proof fn problems_come_function_by_function(a: Seq<FunctionModel>, b: Seq<FunctionModel>)
    ensures
        functions_problems(a + b) == functions_problems(a) + functions_problems(b),
    decreases b.len(),
{
    if b.len() == 0 {
        assert(a + b =~= a);
        assert(functions_problems(a) + functions_problems(b) =~= functions_problems(a));
    } else {
        assert((a + b).drop_last() =~= a + b.drop_last());
        assert((a + b).last() == b.last());
        problems_come_function_by_function(a, b.drop_last());
        assert(functions_problems(a + b) =~= functions_problems(a) + functions_problems(b));
    }
}

/// One function alone has its own problems, and no functions have none.
pub proof fn problems_of_one_function(function: FunctionModel)
    ensures
        functions_problems(seq![function]) == function_problems(function),
        functions_problems(Seq::empty()) == Seq::<Diagnostic>::empty(),
{
    let f = seq![function];
    assert(f.drop_last() =~= Seq::empty());
    reveal_with_fuel(functions_problems, 2);
    assert(functions_problems(f) =~= function_problems(function));
}

/// Whether some function of a module has an attribute named `fork`.
pub open spec fn wants_forks(module: ModuleModel) -> bool {
    exists|i: int|
        0 <= i < module.functions@.len() && has_fork(
            #[trigger] module.functions@[i],
            module.functions@[i].name@,
        )
}

/// The address of a module that can be told: written out, or what its alias stands for.
pub open spec fn told_address(module: ModuleModel, address: Seq<u8>) -> bool {
    ||| module.address matches ModuleAddress::Numerical(a) && a.bytes@ == address
    ||| module.address matches ModuleAddress::Symbolic(Some(a)) && a.bytes@ == address
}

proof fn wants_forks_iff_some_are_planned(module: ModuleModel)
    ensures
        wants_forks(module) <==> functions_forks(module.functions@) != Map::<
            Seq<char>,
            ForkView,
        >::empty(),
{
    let functions = module.functions@;
    let forks = functions_forks(functions);
    let none = Map::<Seq<char>, ForkView>::empty();
    if wants_forks(module) {
        let i = choose|i: int|
            0 <= i < functions.len() && has_fork(#[trigger] functions[i], functions[i].name@);
        planned_names_are_forked_functions(functions, functions[i].name@);
        assert(forks.contains_key(functions[i].name@));
    }
    if forks != none {
        if forall|name: Seq<char>| !forks.contains_key(name) {
            assert(forks =~= none);
        }
        let name = choose|name: Seq<char>| forks.contains_key(name);
        planned_names_are_forked_functions(functions, name);
        let i = choose|i: int| 0 <= i < functions.len() && has_fork(#[trigger] functions[i], name);
        assert(has_fork(functions[i], functions[i].name@));
    }
}

/// A module without a fork attribute has no plan and is no error, whatever it is called.
pub proof fn module_without_forks_has_no_plan(module: ModuleModel)
    requires
        !wants_forks(module),
    ensures
        module_plan(module) == Ok::<Option<PlanView>, PlanError>(None),
{
    wants_forks_iff_some_are_planned(module);
}

/// A module with a fork attribute, a name that is an identifier and agrees with the compiled one
/// where there is one, and an address that can be told, has a plan: under that address and name,
/// with the forks of its functions.
pub proof fn module_with_forks_has_a_plan(module: ModuleModel, address: Seq<u8>)
    requires
        wants_forks(module),
        is_identifier(module.name@),
        module.identifier matches Some(compiled) ==> compiled@ == module.name@,
        told_address(module, address),
    ensures
        module_plan(module) is Ok,
        module_plan(module)->Ok_0 is Some,
        module_plan(module)->Ok_0->0.module_id.address == address,
        module_plan(module)->Ok_0->0.module_id.name == module.name@,
        module_plan(module)->Ok_0->0.infos == functions_forks(module.functions@),
{
    wants_forks_iff_some_are_planned(module);
}

/// A module with a fork attribute whose alias stands for no address has no plan; where the name
/// agrees with the compiled one, that is no error.
pub proof fn module_without_an_address_has_no_plan(module: ModuleModel)
    requires
        wants_forks(module),
        module.address matches ModuleAddress::Symbolic(a) && a is None,
        module.identifier matches Some(compiled) ==> compiled@ == module.name@ && is_identifier(
            module.name@,
        ),
    ensures
        module_plan(module) == Ok::<Option<PlanView>, PlanError>(None),
{
    wants_forks_iff_some_are_planned(module);
}

/// A module with a fork attribute is an error for just two reasons: its name is no identifier,
/// where it is compiled or its address can be told; or it is one, but not the compiled one.
pub proof fn module_errors(module: ModuleModel)
    requires
        wants_forks(module),
    ensures
        module_plan(module) == Err::<Option<PlanView>, PlanError>(PlanError::InvalidIdentifier)
            <==> !is_identifier(module.name@) && (module.identifier is Some || exists|a: Seq<u8>|
            told_address(module, a)),
        module_plan(module) == Err::<Option<PlanView>, PlanError>(PlanError::NameMismatch)
            <==> is_identifier(module.name@) && module.identifier is Some
            && module.identifier->0@ != module.name@,
{
    wants_forks_iff_some_are_planned(module);
    match module.address {
        ModuleAddress::Numerical(a) => {
            assert(told_address(module, a.bytes@));
        },
        ModuleAddress::Symbolic(Some(a)) => {
            assert(told_address(module, a.bytes@));
        },
        ModuleAddress::Symbolic(None) => {},
    }
}

/// Where no module is an error, neither are they together, and all are looked at.
pub proof fn plans_succeed_together(modules: Seq<ModuleModel>)
    requires
        forall|i: int| 0 <= i < modules.len() ==> module_plan(#[trigger] modules[i]) is Ok,
    ensures
        modules_plans(modules) is Ok,
        modules_examined(modules) == modules.len(),
    decreases modules.len(),
{
    if modules.len() > 0 {
        let t = modules.drop_last();
        assert(module_plan(modules[modules.len() - 1]) is Ok);
        assert forall|i: int| 0 <= i < t.len() implies module_plan(#[trigger] t[i]) is Ok by {
            assert(t[i] == modules[i]);
        }
        plans_succeed_together(t);
    }
}

/// The first module that is an error is the error of all, and the last one that is looked at.
pub proof fn first_error_ends_the_plans(modules: Seq<ModuleModel>, i: int)
    requires
        0 <= i < modules.len(),
        module_plan(modules[i]) is Err,
        forall|j: int| 0 <= j < i ==> module_plan(#[trigger] modules[j]) is Ok,
    ensures
        modules_plans(modules) is Err,
        modules_plans(modules)->Err_0 == module_plan(modules[i])->Err_0,
        modules_examined(modules) == i + 1,
    decreases modules.len(),
{
    let t = modules.drop_last();
    assert(modules.last() == modules[modules.len() - 1]);
    if i < modules.len() - 1 {
        assert(t[i] == modules[i]);
        assert forall|j: int| 0 <= j < i implies module_plan(#[trigger] t[j]) is Ok by {
            assert(t[j] == modules[j]);
        }
        first_error_ends_the_plans(t, i);
    } else {
        assert forall|j: int| 0 <= j < t.len() implies module_plan(#[trigger] t[j]) is Ok by {
            assert(t[j] == modules[j]);
        }
        plans_succeed_together(t);
    }
}

/// The problems of modules are those of their functions, one module after the other.
pub proof fn problems_come_module_by_module(a: Seq<ModuleModel>, b: Seq<ModuleModel>)
    ensures
        modules_problems(a + b) == modules_problems(a) + modules_problems(b),
    decreases b.len(),
{
    if b.len() == 0 {
        assert(a + b =~= a);
        assert(modules_problems(a) + modules_problems(b) =~= modules_problems(a));
    } else {
        assert((a + b).drop_last() =~= a + b.drop_last());
        assert((a + b).last() == b.last());
        problems_come_module_by_module(a, b.drop_last());
        assert(modules_problems(a + b) =~= modules_problems(a) + modules_problems(b));
    }
}

/// One module alone has the problems of its functions, and no modules have none.
pub proof fn problems_of_one_module(module: ModuleModel)
    ensures
        modules_problems(seq![module]) == functions_problems(module.functions@),
        modules_problems(Seq::empty()) == Seq::<Diagnostic>::empty(),
{
    let m = seq![module];
    assert(m.drop_last() =~= Seq::empty());
    reveal_with_fuel(modules_problems, 2);
    assert(modules_problems(m) =~= functions_problems(module.functions@));
}

/// From the attribute to the store: in a package whose modules can all be planned, the fork of a
/// test is what its fork attribute says. The test is the last function of its name that has one, in
/// the last module of its address and name that has a plan.
pub proof fn test_runs_on_the_fork_it_asks_for(
    modules: Seq<ModuleModel>,
    m: int,
    f: int,
    k: int,
    id: ModuleIdView,
)
    requires
        forall|i: int| 0 <= i < modules.len() ==> module_plan(#[trigger] modules[i]) is Ok,
        0 <= m < modules.len(),
        is_identifier(modules[m].name@),
        modules[m].identifier matches Some(compiled) ==> compiled@ == modules[m].name@,
        told_address(modules[m], id.address),
        id.name == modules[m].name@,
        forall|j: int| m < j < modules.len() ==> !plans_module(#[trigger] modules[j], id),
        0 <= f < modules[m].functions@.len(),
        0 <= k < modules[m].functions@[f].attributes@.len(),
        named_fork(modules[m].functions@[f].attributes@[k]),
        forall|j: int|
            #![trigger modules[m].functions@[f].attributes@[j]]
            0 <= j < k ==> !named_fork(modules[m].functions@[f].attributes@[j]),
        forall|j: int|
            #![trigger modules[m].functions@[j]]
            f < j < modules[m].functions@.len() ==> !has_fork(
                modules[m].functions@[j],
                modules[m].functions@[f].name@,
            ),
    ensures
        modules_plans(modules) is Ok,
        planned_fork(modules_plans(modules)->Ok_0, id, modules[m].functions@[f].name@) == Some(
            parsed_info(
                modules[m].functions@[f].attributes@[k],
                0,
                ForkView { network: None, version: None },
            ),
        ),
{
    plans_succeed_together(modules);
    let functions = modules[m].functions@;
    let name = functions[f].name@;
    assert(named_fork(functions[f].attributes@[k]));
    assert(has_fork(functions[f], name));
    assert(wants_forks(modules[m]));
    module_with_forks_has_a_plan(modules[m], id.address);
    assert(plans_module(modules[m], id));
    last_module_wins(modules, id, m);
    assert forall|j: int| f < j < functions.len() implies !has_fork(#[trigger] functions[j], name) by {
        assert(functions[j] == modules[m].functions@[j]);
    }
    planned_fork_is_what_the_attribute_says(functions, name, f, k);
}

/// A test that no function with a fork attribute is named like runs on the genesis state.
pub proof fn test_without_a_fork_attribute_is_not_forked(
    modules: Seq<ModuleModel>,
    id: ModuleIdView,
    name: Seq<char>,
)
    requires
        modules_plans(modules) is Ok,
        forall|m: int, f: int|
            #![trigger modules[m].functions@[f]]
            0 <= m < modules.len() && modules[m].name@ == id.name && 0 <= f
                < modules[m].functions@.len() ==> !has_fork(modules[m].functions@[f], name),
    ensures
        planned_fork(modules_plans(modules)->Ok_0, id, name) is None,
{
    plans_list_forked_modules(modules, id);
    if modules_plans(modules)->Ok_0.contains_key(id) {
        let m = last_planned(modules, id);
        last_module_wins(modules, id, m);
        let functions = modules[m].functions@;
        planned_names_are_forked_functions(functions, name);
        if functions_forks(functions).contains_key(name) {
            let f = choose|f: int|
                0 <= f < functions.len() && has_fork(#[trigger] functions[f], name);
            assert(!has_fork(modules[m].functions@[f], name));
        }
    }
}

proof fn last_planned(modules: Seq<ModuleModel>, id: ModuleIdView) -> (m: int)
    requires
        exists|i: int| 0 <= i < modules.len() && plans_module(#[trigger] modules[i], id),
    ensures
        0 <= m < modules.len(),
        plans_module(modules[m], id),
        forall|j: int| m < j < modules.len() ==> !plans_module(#[trigger] modules[j], id),
    decreases modules.len(),
{
    let n = modules.len() - 1;
    if plans_module(modules[n], id) {
        n
    } else {
        let t = modules.drop_last();
        let i = choose|i: int| 0 <= i < modules.len() && plans_module(#[trigger] modules[i], id);
        assert(t[i] == modules[i]);
        let m = last_planned(t, id);
        assert forall|j: int| m < j < modules.len() implies !plans_module(
            #[trigger] modules[j],
            id,
        ) by {
            if j < n {
                assert(t[j] == modules[j]);
            }
        }
        m
    }
}

} // verus!
