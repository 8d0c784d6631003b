//! Asking for the numbers behind version values only where they are needed.
//!
//! To resolve a value to a number can itself report an error. So a caller first makes the plans
//! with no value resolved. Each problem of a value that is no number then stands where the value
//! has to be resolved, in its place among the other problems. With the numbers filled in, the
//! plans are made again, and only those problems are gone whose value is a number.
use crate::fork_attributes::{
    argument_problems, arguments_problems, attribute_name, first_fork, function_fork,
    function_problems, functions_forks, functions_problems, module_plan, modules_examined,
    modules_plans, modules_problems, network_text, resolved_address, Attribute, Diagnostic,
    ForkProblem, ForkView, FunctionModel, ModuleModel, FORK_VERSION,
};
use vstd::prelude::*;

verus! {

/// Whether a problem is still one when the values at some nodes are known to be numbers.
pub open spec fn remains(resolved: Set<usize>) -> spec_fn(Diagnostic) -> bool {
    |d: Diagnostic| !(d.problem is ValueTooBig && resolved.contains(d.node))
}

/// One attribute is the other with its value resolved: the nodes whose version values are numbers
/// are `resolved`. What stands inside an application is not looked at.
pub open spec fn resolves_argument(a: Attribute, b: Attribute, resolved: Set<usize>) -> bool {
    match (a, b) {
        (
            Attribute::Apply { node: n, name, args },
            Attribute::Apply { node: m, name: other, args: others },
        ) => n == m && name@ == other@,
        (
            Attribute::Assign { node: n, name, value, number },
            Attribute::Assign { node: m, name: other, value: other_value, number: other_number },
        ) => {
            &&& n == m
            &&& name@ == other@
            &&& network_text(value) == network_text(other_value)
            &&& number is None
            &&& name@ == FORK_VERSION@ ==> (other_number is Some <==> resolved.contains(n))
        },
        _ => false,
    }
}

/// The same of all arguments.
pub open spec fn resolves_arguments(
    a: Seq<Attribute>,
    b: Seq<Attribute>,
    resolved: Set<usize>,
) -> bool {
    &&& a.len() == b.len()
    &&& forall|i: int| 0 <= i < a.len() ==> resolves_argument(#[trigger] a[i], b[i], resolved)
}

/// The same of an attribute and its arguments.
pub open spec fn resolves_attribute(a: Attribute, b: Attribute, resolved: Set<usize>) -> bool {
    &&& resolves_argument(a, b, resolved)
    &&& a is Apply ==> resolves_arguments(a->args@, b->args@, resolved)
}

/// The same of a function.
pub open spec fn resolves_function(
    f: FunctionModel,
    g: FunctionModel,
    resolved: Set<usize>,
) -> bool {
    &&& f.name@ == g.name@
    &&& f.attributes@.len() == g.attributes@.len()
    &&& forall|i: int|
        0 <= i < f.attributes@.len() ==> resolves_attribute(
            #[trigger] f.attributes@[i],
            g.attributes@[i],
            resolved,
        )
}

/// The same of some functions.
pub open spec fn resolves_functions(
    f: Seq<FunctionModel>,
    g: Seq<FunctionModel>,
    resolved: Set<usize>,
) -> bool {
    &&& f.len() == g.len()
    &&& forall|i: int| 0 <= i < f.len() ==> resolves_function(#[trigger] f[i], g[i], resolved)
}

/// The same of a module.
pub open spec fn resolves_module(m: ModuleModel, n: ModuleModel, resolved: Set<usize>) -> bool {
    &&& resolved_address(m.address) == resolved_address(n.address)
    &&& m.name@ == n.name@
    &&& m.identifier is Some <==> n.identifier is Some
    &&& m.identifier is Some ==> m.identifier->0@ == n.identifier->0@
    &&& resolves_functions(m.functions@, n.functions@, resolved)
}

/// The same of some modules.
pub open spec fn resolves_modules(
    m: Seq<ModuleModel>,
    n: Seq<ModuleModel>,
    resolved: Set<usize>,
) -> bool {
    &&& m.len() == n.len()
    &&& forall|i: int| 0 <= i < m.len() ==> resolves_module(#[trigger] m[i], n[i], resolved)
}

/// Whether a problem calls for a value to be resolved.
pub fn needs_number(problem: &ForkProblem) -> (r: bool)
    ensures
        r == (*problem is ValueTooBig),
{
    match problem {
        ForkProblem::ValueTooBig => true,
        _ => false,
    }
}

/// The number that settles a problem, where there is one.
pub open spec fn settled(d: Diagnostic, number: Option<u64>) -> Option<u64> {
    if d.problem is ValueTooBig {
        number
    } else {
        None
    }
}

/// The number that settles a problem, given what came of resolving the value. A problem without one
/// is to be reported.
pub fn settle(d: &Diagnostic, number: Option<u64>) -> (r: Option<u64>)
    ensures
        r == settled(*d, number),
{
    if needs_number(&d.problem) {
        number
    } else {
        None
    }
}

/// The problems to report are those that nothing settles: those that remain when the values at the
/// resolved nodes are numbers.
pub proof fn unsettled_problems_remain(d: Diagnostic, number: Option<u64>, resolved: Set<usize>)
    requires
        number is Some <==> resolved.contains(d.node),
    ensures
        settled(d, number) is None <==> remains(resolved)(d),
{
}

proof fn resolving_an_argument(a: Attribute, b: Attribute, depth: usize, resolved: Set<usize>)
    requires
        resolves_argument(a, b, resolved),
    ensures
        argument_problems(b, depth) == argument_problems(a, depth).filter(remains(resolved)),
{
    reveal(Seq::filter);
    reveal_with_fuel(Seq::filter, 3);
    let p = argument_problems(a, depth);
    let q = argument_problems(b, depth);
    if p.len() == 2 {
        assert(p.drop_last().drop_last() =~= Seq::empty());
    } else if p.len() == 1 {
        assert(p.drop_last() =~= Seq::empty());
    }
    assert(q =~= p.filter(remains(resolved)));
}

proof fn resolving_arguments(a: Seq<Attribute>, b: Seq<Attribute>, resolved: Set<usize>)
    requires
        resolves_arguments(a, b, resolved),
    ensures
        arguments_problems(b) == arguments_problems(a).filter(remains(resolved)),
    decreases a.len(),
{
    let keep = remains(resolved);
    if a.len() == 0 {
        reveal(Seq::filter);
        assert(arguments_problems(a).filter(keep) =~= arguments_problems(b));
    } else {
        assert(resolves_argument(a[a.len() - 1], b[a.len() - 1], resolved));
        resolving_arguments(a.drop_last(), b.drop_last(), resolved);
        resolving_an_argument(a.last(), b.last(), 1, resolved);
        Seq::filter_distributes_over_add(
            arguments_problems(a.drop_last()),
            argument_problems(a.last(), 1),
            keep,
        );
    }
}

proof fn same_first_fork(a: Seq<Attribute>, b: Seq<Attribute>)
    requires
        a.len() == b.len(),
        forall|i: int|
            0 <= i < a.len() ==> attribute_name(#[trigger] a[i]) == attribute_name(b[i]),
    ensures
        first_fork(a) == first_fork(b),
        first_fork(a) matches Some(i) ==> 0 <= i < a.len(),
    decreases a.len(),
{
    if a.len() > 0 {
        assert(attribute_name(a[a.len() - 1]) == attribute_name(b[a.len() - 1]));
        same_first_fork(a.drop_last(), b.drop_last());
    }
}

proof fn resolving_a_function(f: FunctionModel, g: FunctionModel, resolved: Set<usize>)
    requires
        resolves_function(f, g, resolved),
    ensures
        function_problems(g) == function_problems(f).filter(remains(resolved)),
        function_fork(g) is Some <==> function_fork(f) is Some,
{
    let a = f.attributes@;
    let b = g.attributes@;
    assert forall|i: int| 0 <= i < a.len() implies attribute_name(#[trigger] a[i])
        == attribute_name(b[i]) by {
        assert(resolves_attribute(a[i], b[i], resolved));
    }
    same_first_fork(a, b);
    match first_fork(a) {
        Some(i) => {
            assert(resolves_attribute(a[i], b[i], resolved));
            if a[i] is Apply {
                resolving_arguments(a[i]->args@, b[i]->args@, resolved);
            } else {
                resolving_an_argument(a[i], b[i], 0, resolved);
            }
        },
        None => {
            reveal(Seq::filter);
            assert(function_problems(f).filter(remains(resolved)) =~= function_problems(g));
        },
    }
}

proof fn resolving_functions(f: Seq<FunctionModel>, g: Seq<FunctionModel>, resolved: Set<usize>)
    requires
        resolves_functions(f, g, resolved),
    ensures
        functions_problems(g) == functions_problems(f).filter(remains(resolved)),
        functions_forks(g).dom() == functions_forks(f).dom(),
    decreases f.len(),
{
    let keep = remains(resolved);
    if f.len() == 0 {
        reveal(Seq::filter);
        assert(functions_problems(f).filter(keep) =~= functions_problems(g));
    } else {
        assert(resolves_function(f[f.len() - 1], g[f.len() - 1], resolved));
        resolving_functions(f.drop_last(), g.drop_last(), resolved);
        resolving_a_function(f.last(), g.last(), resolved);
        Seq::filter_distributes_over_add(
            functions_problems(f.drop_last()),
            function_problems(f.last()),
            keep,
        );
        assert(functions_forks(g).dom() =~= functions_forks(f).dom());
    }
}

proof fn resolving_a_module(m: ModuleModel, n: ModuleModel, resolved: Set<usize>)
    requires
        resolves_module(m, n, resolved),
    ensures
        module_plan(n) is Err <==> module_plan(m) is Err,
        module_plan(m) is Err ==> module_plan(n)->Err_0 == module_plan(m)->Err_0,
{
    resolving_functions(m.functions@, n.functions@, resolved);
    let f = functions_forks(m.functions@);
    let g = functions_forks(n.functions@);
    let none = Map::<Seq<char>, ForkView>::empty();
    if f.dom() == none.dom() {
        assert(f =~= none);
        assert(g =~= none);
    }
}

proof fn examined_at_most_all(m: Seq<ModuleModel>)
    ensures
        modules_examined(m) <= m.len(),
    decreases m.len(),
{
    if m.len() > 0 {
        examined_at_most_all(m.drop_last());
    }
}

proof fn resolving_modules(
    m: Seq<ModuleModel>,
    n: Seq<ModuleModel>,
    resolved: Set<usize>,
)
    requires
        resolves_modules(m, n, resolved),
    ensures
        modules_problems(n) == modules_problems(m).filter(remains(resolved)),
        modules_plans(n) is Err <==> modules_plans(m) is Err,
        modules_plans(m) is Err ==> modules_plans(n)->Err_0 == modules_plans(m)->Err_0,
        modules_examined(n) == modules_examined(m),
    decreases m.len(),
{
    let keep = remains(resolved);
    if m.len() == 0 {
        reveal(Seq::filter);
        assert(modules_problems(m).filter(keep) =~= modules_problems(n));
    } else {
        assert(resolves_module(m[m.len() - 1], n[m.len() - 1], resolved));
        resolving_modules(m.drop_last(), n.drop_last(), resolved);
        resolving_a_module(m.last(), n.last(), resolved);
        resolving_functions(m.last().functions@, n.last().functions@, resolved);
        Seq::filter_distributes_over_add(
            modules_problems(m.drop_last()),
            functions_problems(m.last().functions@),
            keep,
        );
    }
}

/// With the numbers filled in, just those problems are gone that are about a value that is a
/// number. The others stay, in their order. Whether making the plans fails, with which error and
/// at which module, does not depend on the numbers.
pub proof fn resolving_settles_only_values(
    m: Seq<ModuleModel>,
    n: Seq<ModuleModel>,
    resolved: Set<usize>,
)
    requires
        resolves_modules(m, n, resolved),
    ensures
        modules_problems(n.take(modules_examined(n) as int)) == modules_problems(
            m.take(modules_examined(m) as int),
        ).filter(remains(resolved)),
        modules_plans(n) is Err <==> modules_plans(m) is Err,
        modules_plans(m) is Err ==> modules_plans(n)->Err_0 == modules_plans(m)->Err_0,
        modules_examined(n) == modules_examined(m),
{
    resolving_modules(m, n, resolved);
    examined_at_most_all(m);
    let k = modules_examined(m) as int;
    assert(resolves_modules(m.take(k), n.take(k), resolved));
    resolving_modules(m.take(k), n.take(k), resolved);
}

/// The values at nodes that are resolved settle the problems of missing numbers there, and nothing
/// else: every other problem stays, and so does a missing number elsewhere.
pub proof fn only_missing_numbers_are_settled(node: usize, resolved: Set<usize>)
    ensures
        remains(resolved)(Diagnostic { node, problem: ForkProblem::ValueTooBig })
            <==> !resolved.contains(node),
        remains(resolved)(
            Diagnostic { node, problem: ForkProblem::NestedAttribute },
        ),
        remains(resolved)(
            Diagnostic { node, problem: ForkProblem::MisplacedAssignment },
        ),
        remains(resolved)(
            Diagnostic { node, problem: ForkProblem::UnsupportedValue },
        ),
        remains(resolved)(
            Diagnostic { node, problem: ForkProblem::UnsupportedKey },
        ),
{
}

/// A missing number is settled by the number that was found, and by none; any other problem is
/// settled by nothing.
pub proof fn found_number_settles(d: Diagnostic, number: Option<u64>)
    ensures
        d.problem is ValueTooBig ==> settled(d, number) == number,
        !(d.problem is ValueTooBig) ==> settled(d, number) is None,
{
}

} // verus!
