//! The factory that prepares the store of each unit test.
use crate::assoc::AssocMap;
use crate::fork_attributes::{
    construct_fork_plan, functions_forks, modules_examined, modules_plans, modules_problems, plan_views, Diagnostic,
    ForkInfo, ForkView, ModuleModel, ModuleTestForkPlan, PlanError, PlanView,
};
use crate::fork_laws::{last_module_wins, plans_list_forked_modules, plans_module};
use crate::metadata::{
    has_some_entry, inject_runtime_metadata, injected_entry, metadata_with_an_entry_is_injected,
    module_without_metadata_stays, with_entry, CompiledModule, CompiledModuleView,
    MetadataError, MetadataFormat, RuntimeModuleMetadataV1,
};
use crate::model::{core_code_address, core_code_address_is_one, ModuleId, ModuleIdView};
use crate::outside::bcs_metadata;
use crate::store::{setup_store, StoreBase};
use vstd::prelude::*;

verus! {

/// The metadata and the fork plans of the modules under test.
#[derive(Debug)]
pub struct AptosUnitTestFactory {
    pub module_metadatas: AssocMap<ModuleId, RuntimeModuleMetadataV1>,
    pub fork_tests: AssocMap<ModuleId, ModuleTestForkPlan>,
}

/// A module to put into the store, and its place among the modules it was picked from.
#[derive(Debug)]
pub struct ModuleUpdate {
    pub index: usize,
    pub module: CompiledModule,
}

/// What a [`ModuleUpdate`] stands for.
pub struct UpdateView {
    pub index: int,
    pub module: CompiledModuleView,
}

impl View for ModuleUpdate {
    type V = UpdateView;

    open spec fn view(&self) -> UpdateView {
        UpdateView { index: self.index as int, module: self.module@ }
    }
}

/// What each update stands for.
pub open spec fn update_views(updates: Seq<ModuleUpdate>) -> Seq<UpdateView> {
    updates.map_values(|u: ModuleUpdate| u@)
}

/// How the store of a test is made: the state it starts from, and the modules that go on top.
#[derive(Debug)]
pub struct StoreSetup {
    pub base: StoreBase,
    pub updates: Vec<ModuleUpdate>,
}

/// A module goes on top of the state unless it has native functions or structs; a core module
/// always does.
pub open spec fn goes_on_top(module: CompiledModuleView) -> bool {
    ||| module.id.address == core_code_address()
    ||| !module.native_functions.contains(true) && !module.native_structs.contains(true)
}

fn any_true(flags: &Vec<bool>) -> (r: bool)
    ensures
        r == flags@.contains(true),
{
    let mut i: usize = 0;
    while i < flags.len()
        invariant
            i <= flags@.len(),
            forall|j: int| 0 <= j < i ==> !flags@[j],
        decreases flags.len() - i,
    {
        if flags[i] {
            assert(flags@[i as int] == true);
            return true;
        }
        i += 1;
    }
    false
}

/// Whether a module goes on top of the state.
pub fn is_override(module: &CompiledModule) -> (r: bool)
    ensures
        r == goes_on_top(module@),
        r <==> module.id.address@ == core_code_address() || !((exists|i: int|
            0 <= i < module.native_functions@.len() && #[trigger] module.native_functions@[i]) || (
        exists|j: int|
            0 <= j < module.native_structs@.len() && #[trigger] module.native_structs@[j])),
{
    let is_core_module = module.id.address.is_core_code_address();
    proof {
        native_modules_do_not_go_on_top(*module);
        core_code_address_is_one(module.id.address);
    }
    is_core_module || (!any_true(&module.native_functions) && !any_true(&module.native_structs))
}

/// The modules that go on top, in order, each with its run-time metadata; or the error of the
/// first of them whose metadata cannot be written.
pub open spec fn module_updates(
    metadatas: Map<ModuleIdView, RuntimeModuleMetadataV1>,
    format: MetadataFormat,
    modules: Seq<CompiledModule>,
) -> Result<Seq<UpdateView>, MetadataError>
    decreases modules.len(),
{
    if modules.len() == 0 {
        Ok(Seq::empty())
    } else {
        match module_updates(metadatas, format, modules.drop_last()) {
            Err(e) => Err(e),
            Ok(before) => if goes_on_top(modules.last()@) {
                match injected_entry(metadatas, modules.last()@.id, None, format) {
                    Err(e) => Err(e),
                    Ok(entry) => Ok(
                        before.push(
                            UpdateView {
                                index: modules.len() - 1,
                                module: with_entry(modules.last()@, entry),
                            },
                        ),
                    ),
                }
            } else {
                Ok(before)
            },
        }
    }
}

proof fn updates_error_of_prefix(
    metadatas: Map<ModuleIdView, RuntimeModuleMetadataV1>,
    format: MetadataFormat,
    modules: Seq<CompiledModule>,
    n: int,
)
    requires
        0 <= n <= modules.len(),
        module_updates(metadatas, format, modules.take(n)) is Err,
    ensures
        module_updates(metadatas, format, modules) == module_updates(
            metadatas,
            format,
            modules.take(n),
        ),
    decreases modules.len() - n,
{
    if n < modules.len() {
        assert(modules.take(n + 1).drop_last() =~= modules.take(n));
        updates_error_of_prefix(metadatas, format, modules, n + 1);
    } else {
        assert(modules.take(n) =~= modules);
    }
}

/// What the plans ask to be forked for a test of a module.
pub open spec fn planned_fork(
    plans: Map<ModuleIdView, PlanView>,
    module_id: ModuleIdView,
    test_name: Seq<char>,
) -> Option<ForkView> {
    if plans.contains_key(module_id) && plans[module_id].infos.contains_key(test_name) {
        Some(plans[module_id].infos[test_name])
    } else {
        None
    }
}

impl AptosUnitTestFactory {
    /// The factory for a package with these modules, whose run-time metadata is known.
    pub fn new(
        module_metadatas: AssocMap<ModuleId, RuntimeModuleMetadataV1>,
        modules: &Vec<ModuleModel>,
        diagnostics: &mut Vec<Diagnostic>,
    ) -> (r: Result<AptosUnitTestFactory, PlanError>)
        ensures
            match r {
                Ok(factory) => factory.module_metadatas == module_metadatas && modules_plans(
                    modules@,
                ) == Ok::<Map<ModuleIdView, PlanView>, PlanError>(plan_views(factory.fork_tests@)),
                Err(e) => modules_plans(modules@) == Err::<
                    Map<ModuleIdView, PlanView>,
                    PlanError,
                >(e),
            },
            final(diagnostics)@ == old(diagnostics)@ + modules_problems(
                modules@.take(modules_examined(modules@) as int),
            ),
    {
        match construct_fork_plan(modules, diagnostics) {
            Ok(fork_tests) => Ok(AptosUnitTestFactory { module_metadatas, fork_tests }),
            Err(e) => Err(e),
        }
    }

    /// What a test of a module asks to be forked.
    pub fn fork_info(&self, module_id: &ModuleId, test_name: &String) -> (r: Option<ForkInfo>)
        ensures
            match r {
                Some(info) => planned_fork(plan_views(self.fork_tests@), module_id@, test_name@)
                    == Some(info@),
                None => planned_fork(plan_views(self.fork_tests@), module_id@, test_name@) is None,
            },
    {
        match self.fork_tests.get(module_id) {
            Some(plan) => match plan.infos.get(test_name) {
                Some(info) => Some(info.clone()),
                None => None,
            },
            None => None,
        }
    }

    /// The modules that go on top of the state, with their run-time metadata.
    pub fn override_modules(&self, modules: &Vec<CompiledModule>, format: &MetadataFormat) -> (r:
        Result<Vec<ModuleUpdate>, MetadataError>)
        ensures
            match r {
                Ok(updates) => module_updates(self.module_metadatas@, *format, modules@) == Ok::<
                    Seq<UpdateView>,
                    MetadataError,
                >(update_views(updates@)),
                Err(e) => module_updates(self.module_metadatas@, *format, modules@) == Err::<
                    Seq<UpdateView>,
                    MetadataError,
                >(e),
            },
    {
        let mut updates: Vec<ModuleUpdate> = Vec::new();
        let mut i: usize = 0;
        assert(update_views(updates@) =~= Seq::<UpdateView>::empty());
        while i < modules.len()
            invariant
                i <= modules@.len(),
                module_updates(self.module_metadatas@, *format, modules@.take(i as int)) == Ok::<
                    Seq<UpdateView>,
                    MetadataError,
                >(update_views(updates@)),
            decreases modules.len() - i,
        {
            let ghost before = updates@;
            proof {
                let t = modules@.take(i as int + 1);
                assert(t.drop_last() =~= modules@.take(i as int));
                assert(t.last() == modules@[i as int]);
            }
            if is_override(&modules[i]) {
                let mut module = modules[i].clone();
                match inject_runtime_metadata(&mut module, &self.module_metadatas, None, format) {
                    Ok(_) => {
                        let update = ModuleUpdate { index: i, module };
                        updates.push(update);
                        assert(update_views(updates@) =~= update_views(before).push(update@));
                    },
                    Err(e) => {
                        proof {
                            updates_error_of_prefix(
                                self.module_metadatas@,
                                *format,
                                modules@,
                                i as int + 1,
                            );
                        }
                        return Err(e);
                    },
                }
            }
            i += 1;
        }
        assert(modules@.take(i as int) =~= modules@);
        Ok(updates)
    }

    /// How the store of a test of a module is made.
    pub fn setup_store(
        &self,
        module_id: &ModuleId,
        test_name: &String,
        modules: &Vec<CompiledModule>,
        format: &MetadataFormat,
    ) -> (r: Result<StoreSetup, MetadataError>)
        ensures
            match r {
                Ok(setup) => {
                    &&& module_updates(self.module_metadatas@, *format, modules@) == Ok::<
                        Seq<UpdateView>,
                        MetadataError,
                    >(update_views(setup.updates@))
                    &&& match setup.base {
                        StoreBase::Fork(info) => planned_fork(
                            plan_views(self.fork_tests@),
                            module_id@,
                            test_name@,
                        ) == Some(info@),
                        StoreBase::Genesis => planned_fork(
                            plan_views(self.fork_tests@),
                            module_id@,
                            test_name@,
                        ) is None,
                    }
                },
                Err(e) => module_updates(self.module_metadatas@, *format, modules@) == Err::<
                    Seq<UpdateView>,
                    MetadataError,
                >(e),
            },
    {
        let test_fork_info = self.fork_info(module_id, test_name);
        let base = setup_store(test_fork_info);
        match self.override_modules(modules, format) {
            Ok(updates) => Ok(StoreSetup { base, updates }),
            Err(e) => Err(e),
        }
    }
}

/// The updates are exactly the modules that go on top, each once, in the order in which the
/// modules come, and each with the metadata it is given.
pub proof fn updates_are_the_overrides(
    metadatas: Map<ModuleIdView, RuntimeModuleMetadataV1>,
    format: MetadataFormat,
    modules: Seq<CompiledModule>,
)
    requires
        module_updates(metadatas, format, modules) is Ok,
    ensures
        ({
            let updates = module_updates(metadatas, format, modules)->Ok_0;
            &&& forall|k: int|
                #![trigger updates[k]]
                0 <= k < updates.len() ==> {
                    let i = updates[k].index;
                    &&& 0 <= i < modules.len()
                    &&& goes_on_top(modules[i]@)
                    &&& injected_entry(metadatas, modules[i]@.id, None, format) matches Ok(entry)
                    &&& updates[k].module == with_entry(modules[i]@, entry)
                }
            &&& forall|a: int, b: int|
                0 <= a < b < updates.len() ==> (#[trigger] updates[a]).index < (
                #[trigger] updates[b]).index
            &&& forall|i: int|
                0 <= i < modules.len() && goes_on_top((#[trigger] modules[i])@) ==> exists|k: int|
                    0 <= k < updates.len() && (#[trigger] updates[k]).index == i
        }),
    decreases modules.len(),
{
    if modules.len() > 0 {
        let t = modules.drop_last();
        let n = modules.len() - 1;
        updates_are_the_overrides(metadatas, format, t);
        let before = module_updates(metadatas, format, t)->Ok_0;
        let updates = module_updates(metadatas, format, modules)->Ok_0;
        assert(modules.last() == modules[n]);
        assert(forall|k: int| 0 <= k < before.len() ==> before[k] == #[trigger] updates[k]);
        assert forall|k: int| #![trigger updates[k]] 0 <= k < updates.len() implies {
            let i = updates[k].index;
            &&& 0 <= i < modules.len()
            &&& goes_on_top(modules[i]@)
            &&& injected_entry(metadatas, modules[i]@.id, None, format) matches Ok(entry)
            &&& updates[k].module == with_entry(modules[i]@, entry)
        } by {
            if k < before.len() {
                assert(before[k] == updates[k]);
                assert(t[before[k].index] == modules[before[k].index]);
            }
        }
        assert forall|a: int, b: int| 0 <= a < b < updates.len() implies (
        #[trigger] updates[a]).index < (#[trigger] updates[b]).index by {
            assert(before[a] == updates[a]);
            if b < before.len() {
                assert(before[b] == updates[b]);
            }
        }
        assert forall|i: int|
            0 <= i < modules.len() && goes_on_top((#[trigger] modules[i])@) implies exists|k: int|
            0 <= k < updates.len() && (#[trigger] updates[k]).index == i by {
            if i < n {
                assert(t[i] == modules[i]);
                let k = choose|k: int| 0 <= k < before.len() && (#[trigger] before[k]).index == i;
                assert(updates[k].index == i);
            } else {
                assert(updates[before.len() as int].index == i);
            }
        }
    }
}

/// Setting a store up leaves the modules as they are and gives the same updates each time: every
/// update has the module's own metadata, and at most one entry more.
pub proof fn setup_is_repeatable(
    metadatas: Map<ModuleIdView, RuntimeModuleMetadataV1>,
    format: MetadataFormat,
    modules: Seq<CompiledModule>,
    first: Seq<UpdateView>,
    second: Seq<UpdateView>,
)
    requires
        module_updates(metadatas, format, modules) == Ok::<Seq<UpdateView>, MetadataError>(first),
        module_updates(metadatas, format, modules) == Ok::<Seq<UpdateView>, MetadataError>(second),
    ensures
        first == second,
        forall|k: int|
            #![trigger second[k]]
            0 <= k < second.len() ==> {
                let module = modules[second[k].index]@;
                let entry = injected_entry(metadatas, module.id, None, format);
                &&& entry is Ok
                &&& second[k].module.id == module.id
                &&& second[k].module.metadata == match entry->Ok_0 {
                    Some(e) => module.metadata.push(e),
                    None => module.metadata,
                }
            },
{
    updates_are_the_overrides(metadatas, format, modules);
}

/// The store after some updates, each written under the key of its module: `key` is the key of a
/// module in the store, and `code` is what is written there for an update.
pub open spec fn updated_store<K, S>(
    base: Map<K, S>,
    updates: Seq<UpdateView>,
    key: spec_fn(ModuleIdView) -> K,
    code: spec_fn(UpdateView) -> S,
) -> Map<K, S>
    decreases updates.len(),
{
    if updates.len() == 0 {
        base
    } else {
        updated_store(base, updates.drop_last(), key, code).insert(
            key(updates.last().module.id),
            code(updates.last()),
        )
    }
}

proof fn unwritten_keys_stay<K, S>(
    base: Map<K, S>,
    updates: Seq<UpdateView>,
    key: spec_fn(ModuleIdView) -> K,
    code: spec_fn(UpdateView) -> S,
    k: K,
)
    requires
        forall|u: int| 0 <= u < updates.len() ==> key((#[trigger] updates[u]).module.id) != k,
    ensures
        updated_store(base, updates, key, code).contains_key(k) == base.contains_key(k),
        base.contains_key(k) ==> updated_store(base, updates, key, code)[k] == base[k],
    decreases updates.len(),
{
    if updates.len() > 0 {
        let t = updates.drop_last();
        assert(key(updates[updates.len() - 1].module.id) != k);
        assert forall|u: int| 0 <= u < t.len() implies key((#[trigger] t[u]).module.id) != k by {
            assert(t[u] == updates[u]);
        }
        unwritten_keys_stay(base, t, key, code, k);
    }
}

/// Where an update writes no more than its module's key: a key that is not that of a module that
/// goes on top holds in the set-up store what it holds in the store before.
pub proof fn setup_changes_only_module_keys<K, S>(
    metadatas: Map<ModuleIdView, RuntimeModuleMetadataV1>,
    format: MetadataFormat,
    modules: Seq<CompiledModule>,
    base: Map<K, S>,
    key: spec_fn(ModuleIdView) -> K,
    code: spec_fn(UpdateView) -> S,
    k: K,
)
    requires
        module_updates(metadatas, format, modules) is Ok,
        forall|i: int|
            0 <= i < modules.len() && goes_on_top((#[trigger] modules[i])@) ==> key(modules[i]@.id)
                != k,
    ensures
        ({
            let updates = module_updates(metadatas, format, modules)->Ok_0;
            let after = updated_store(base, updates, key, code);
            &&& after.contains_key(k) == base.contains_key(k)
            &&& base.contains_key(k) ==> after[k] == base[k]
        }),
{
    updates_are_the_overrides(metadatas, format, modules);
    let updates = module_updates(metadatas, format, modules)->Ok_0;
    assert forall|u: int| 0 <= u < updates.len() implies key((#[trigger] updates[u]).module.id)
        != k by {
        let i = updates[u].index;
        assert(goes_on_top(modules[i]@));
        assert(updates[u].module.id == modules[i]@.id);
    }
    unwritten_keys_stay(base, updates, key, code, k);
}

/// The key of a module that goes on top holds in the set-up store what the last update under that
/// key writes.
pub proof fn last_update_is_stored<K, S>(
    base: Map<K, S>,
    updates: Seq<UpdateView>,
    key: spec_fn(ModuleIdView) -> K,
    code: spec_fn(UpdateView) -> S,
    u: int,
)
    requires
        0 <= u < updates.len(),
        forall|w: int|
            u < w < updates.len() ==> key((#[trigger] updates[w]).module.id) != key(
                updates[u].module.id,
            ),
    ensures
        ({
            let after = updated_store(base, updates, key, code);
            let k = key(updates[u].module.id);
            after.contains_key(k) && after[k] == code(updates[u])
        }),
    decreases updates.len(),
{
    if u < updates.len() - 1 {
        let t = updates.drop_last();
        assert(key(updates[updates.len() - 1].module.id) != key(updates[u].module.id));
        assert forall|w: int| u < w < t.len() implies key((#[trigger] t[w]).module.id) != key(
            t[u].module.id,
        ) by {
            assert(t[w] == updates[w]);
        }
        last_update_is_stored(base, t, key, code, u);
    }
}

/// The setup fails exactly when the metadata of a module that goes on top cannot be written.
pub proof fn updates_fail_iff_metadata_fails(
    metadatas: Map<ModuleIdView, RuntimeModuleMetadataV1>,
    format: MetadataFormat,
    modules: Seq<CompiledModule>,
)
    ensures
        module_updates(metadatas, format, modules) is Err <==> exists|i: int|
            0 <= i < modules.len() && goes_on_top((#[trigger] modules[i])@) && injected_entry(
                metadatas,
                modules[i]@.id,
                None,
                format,
            ) is Err,
    decreases modules.len(),
{
    if modules.len() > 0 {
        let t = modules.drop_last();
        let n = modules.len() - 1;
        updates_fail_iff_metadata_fails(metadatas, format, t);
        assert(modules.last() == modules[n]);
        if module_updates(metadatas, format, t) is Err {
            let i = choose|i: int|
                0 <= i < t.len() && goes_on_top((#[trigger] t[i])@) && injected_entry(
                    metadatas,
                    t[i]@.id,
                    None,
                    format,
                ) is Err;
            assert(goes_on_top(modules[i]@));
        }
        if exists|i: int|
            0 <= i < modules.len() && goes_on_top((#[trigger] modules[i])@) && injected_entry(
                metadatas,
                modules[i]@.id,
                None,
                format,
            ) is Err {
            let i = choose|i: int|
                0 <= i < modules.len() && goes_on_top((#[trigger] modules[i])@) && injected_entry(
                    metadatas,
                    modules[i]@.id,
                    None,
                    format,
                ) is Err;
            if i < n {
                assert(goes_on_top(t[i]@));
            }
        }
    }
}

/// What a test asks to be forked is what the plan of its module lists for it: the plan of the last
/// module with the id.
pub proof fn test_fork_comes_from_its_module(
    modules: Seq<ModuleModel>,
    id: ModuleIdView,
    i: int,
    test_name: Seq<char>,
)
    requires
        modules_plans(modules) is Ok,
        0 <= i < modules.len(),
        plans_module(modules[i], id),
        forall|j: int| i < j < modules.len() ==> !plans_module(#[trigger] modules[j], id),
    ensures
        ({
            let forks = functions_forks(modules[i].functions@);
            planned_fork(modules_plans(modules)->Ok_0, id, test_name) == if forks.contains_key(
                test_name,
            ) {
                Some(forks[test_name])
            } else {
                None::<ForkView>
            }
        }),
{
    last_module_wins(modules, id, i);
}

/// A test of a module without a plan starts from the genesis state.
pub proof fn unplanned_test_is_not_forked(
    modules: Seq<ModuleModel>,
    id: ModuleIdView,
    test_name: Seq<char>,
)
    requires
        modules_plans(modules) is Ok,
        forall|j: int| 0 <= j < modules.len() ==> !plans_module(#[trigger] modules[j], id),
    ensures
        planned_fork(modules_plans(modules)->Ok_0, id, test_name) is None,
{
    plans_list_forked_modules(modules, id);
}

/// Whether some function or some struct definition of a module is native.
pub open spec fn some_native(module: CompiledModule) -> bool {
    ||| exists|i: int|
        0 <= i < module.native_functions@.len() && #[trigger] module.native_functions@[i]
    ||| exists|j: int|
        0 <= j < module.native_structs@.len() && #[trigger] module.native_structs@[j]
}

/// Whether a module is published under the address `0x1`.
pub open spec fn is_core(module: CompiledModule) -> bool {
    &&& module.id.address.bytes@[31] == 1
    &&& forall|i: int| 0 <= i < 31 ==> #[trigger] module.id.address.bytes@[i] == 0
}

/// A module goes on top exactly when it is a core module or none of its functions and structs is
/// native, wherever among them the native one stands.
pub proof fn native_modules_do_not_go_on_top(module: CompiledModule)
    ensures
        goes_on_top(module@) <==> is_core(module) || !some_native(module),
{
    core_code_address_is_one(module.id.address);
    let functions = module.native_functions@;
    let structs = module.native_structs@;
    if functions.contains(true) {
        let i = choose|i: int| 0 <= i < functions.len() && functions[i] == true;
        assert(module.native_functions@[i]);
    }
    if structs.contains(true) {
        let j = choose|j: int| 0 <= j < structs.len() && structs[j] == true;
        assert(module.native_structs@[j]);
    }
    if exists|i: int|
        0 <= i < module.native_functions@.len() && #[trigger] module.native_functions@[i] {
        let i = choose|i: int|
            0 <= i < module.native_functions@.len() && #[trigger] module.native_functions@[i];
        assert(functions[i] == true);
        assert(functions.contains(true));
    }
    if exists|j: int|
        0 <= j < module.native_structs@.len() && #[trigger] module.native_structs@[j] {
        let j = choose|j: int|
            0 <= j < module.native_structs@.len() && #[trigger] module.native_structs@[j];
        assert(structs[j] == true);
        assert(structs.contains(true));
    }
}

/// Of the modules that a store is set up with, each core module and each module without natives
/// has just one update, and no other module has any.
pub proof fn updates_skip_native_modules(
    metadatas: Map<ModuleIdView, RuntimeModuleMetadataV1>,
    format: MetadataFormat,
    modules: Seq<CompiledModule>,
    i: int,
)
    requires
        module_updates(metadatas, format, modules) is Ok,
        0 <= i < modules.len(),
    ensures
        ({
            let updates = module_updates(metadatas, format, modules)->Ok_0;
            &&& (is_core(modules[i]) || !some_native(modules[i])) <==> exists|k: int|
                0 <= k < updates.len() && (#[trigger] updates[k]).index == i
            &&& forall|k: int, l: int|
                0 <= k < updates.len() && 0 <= l < updates.len() && (#[trigger] updates[k]).index
                    == (#[trigger] updates[l]).index ==> k == l
        }),
{
    updates_are_the_overrides(metadatas, format, modules);
    native_modules_do_not_go_on_top(modules[i]);
    let updates = module_updates(metadatas, format, modules)->Ok_0;
    assert forall|k: int, l: int|
        0 <= k < updates.len() && 0 <= l < updates.len() && (#[trigger] updates[k]).index == (
        #[trigger] updates[l]).index implies k == l by {
        if k < l {
            assert(updates[k].index < updates[l].index);
        }
        if l < k {
            assert(updates[l].index < updates[k].index);
        }
    }
}

/// An update carries its module as it was, with one metadata entry more where the module's metadata
/// has an entry in any map, and with none more otherwise.
pub proof fn updates_carry_their_metadata(
    metadatas: Map<ModuleIdView, RuntimeModuleMetadataV1>,
    format: MetadataFormat,
    modules: Seq<CompiledModule>,
    k: int,
)
    requires
        module_updates(metadatas, format, modules) is Ok,
        0 <= k < module_updates(metadatas, format, modules)->Ok_0.len(),
    ensures
        ({
            let update = module_updates(metadatas, format, modules)->Ok_0[k];
            let module = modules[update.index]@;
            let carries = metadatas.contains_key(module.id) && has_some_entry(metadatas[module.id]);
            let m = metadatas[module.id];
            &&& 0 <= update.index < modules.len()
            &&& update.module.id == module.id
            &&& update.module.native_functions == module.native_functions
            &&& update.module.native_structs == module.native_structs
            &&& !carries ==> update.module.metadata == module.metadata
            &&& carries ==> {
                &&& update.module.metadata.len() == module.metadata.len() + 1
                &&& update.module.metadata.drop_last() == module.metadata
                &&& update.module.metadata.last().key == format.key_v1@
                &&& bcs_metadata(
                    m.error_map.deep_view(),
                    m.struct_attributes.deep_view(),
                    m.fun_attributes.deep_view(),
                ) == Some(update.module.metadata.last().value)
            }
        }),
{
    updates_are_the_overrides(metadatas, format, modules);
    let updates = module_updates(metadatas, format, modules)->Ok_0;
    let update = updates[k];
    let module = modules[update.index]@;
    if metadatas.contains_key(module.id) && has_some_entry(metadatas[module.id]) {
        metadata_with_an_entry_is_injected(metadatas, module, None, format);
    } else {
        module_without_metadata_stays(metadatas, module, None, format);
    }
}

/// An update stands for its index and its module, and the views of updates for each of them.
pub proof fn update_views_are_faithful(updates: Seq<ModuleUpdate>, k: int)
    requires
        0 <= k < updates.len(),
    ensures
        update_views(updates).len() == updates.len(),
        update_views(updates)[k].index == updates[k].index,
        update_views(updates)[k].module == updates[k].module@,
{
}

/// A test is forked exactly when its module has a plan that lists the test, and then as listed.
pub proof fn planned_fork_is_the_listed_one(
    plans: Map<ModuleIdView, PlanView>,
    module_id: ModuleIdView,
    test_name: Seq<char>,
)
    ensures
        planned_fork(plans, module_id, test_name) is Some <==> plans.contains_key(module_id)
            && plans[module_id].infos.contains_key(test_name),
        planned_fork(plans, module_id, test_name) matches Some(info) ==> info
            == plans[module_id].infos[test_name],
{
}

} // verus!
