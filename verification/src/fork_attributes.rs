//! The `#[fork(..)]` attributes of test functions, and the plan they make up for a module.
use crate::assoc::AssocMap;
use crate::fork_laws::fork_attribute_is_the_first;
use crate::model::{AccountAddress, ModuleId, ModuleIdView};
use crate::outside::{is_identifier, new_identifier};
use crate::text::same_text;
use vstd::prelude::*;
use vstd::utf8::{decode_utf8, valid_utf8};

verus! {

/// The attribute that asks for a test to run on a fork of a network.
pub const FORK: &'static str = "fork";

/// The key that names the network.
pub const FORK_NETWORK: &'static str = "network";

/// The key that pins the ledger version.
pub const FORK_VERSION: &'static str = "version";

/// What a test asks to be forked.
#[derive(Debug)]
pub struct ForkInfo {
    pub network: Option<String>,
    pub version: Option<u64>,
}

/// What a [`ForkInfo`] stands for.
pub struct ForkView {
    pub network: Option<Seq<char>>,
    pub version: Option<u64>,
}

impl View for ForkInfo {
    type V = ForkView;

    open spec fn view(&self) -> ForkView {
        ForkView {
            network: match self.network {
                Some(n) => Some(n@),
                None => None,
            },
            version: self.version,
        }
    }
}

/// A fork without a network and without a version.
pub open spec fn no_fork_info() -> ForkView {
    ForkView { network: None, version: None }
}

impl Default for ForkInfo {
    fn default() -> (r: Self)
        ensures
            r@ == no_fork_info(),
    {
        ForkInfo { network: None, version: None }
    }
}

impl Clone for ForkInfo {
    fn clone(&self) -> (r: Self)
        ensures
            r@ == self@,
    {
        let network: Option<String> = match &self.network {
            Some(n) => Some(n.clone()),
            None => None,
        };
        ForkInfo { network, version: self.version }
    }
}

/// The right-hand side of an assignment in an attribute.
#[derive(Debug)]
pub enum AttributeValue {
    /// A byte string.
    ByteArray(Vec<u8>),
    /// Anything else: a number, a name, an address.
    Other,
}

/// An attribute of a function, as the compiler's model holds it.
#[derive(Debug)]
pub enum Attribute {
    /// `name(args)`.
    Apply { node: usize, name: String, args: Vec<Attribute> },
    /// `name = value`. `number` is the value as an unsigned 64-bit number, where the value is
    /// such a number or names a constant that is one.
    Assign { node: usize, name: String, value: AttributeValue, number: Option<u64> },
}

/// What can be wrong with a fork attribute.
#[derive(Clone, Copy, PartialEq, Eq, Debug, Structural)]
pub enum ForkProblem {
    NestedAttribute,
    MisplacedAssignment,
    UnsupportedValue,
    ValueTooBig,
    UnsupportedKey,
}

/// A problem, and the node of the program at which it was found.
#[derive(Clone, Copy, PartialEq, Eq, Debug, Structural)]
pub struct Diagnostic {
    pub node: usize,
    pub problem: ForkProblem,
}

/// The name of an attribute.
pub open spec fn attribute_name(attr: Attribute) -> Seq<char> {
    match attr {
        Attribute::Apply { node, name, args } => name@,
        Attribute::Assign { node, name, value, number } => name@,
    }
}

/// The network that a value names: a byte string that is text in UTF-8.
pub open spec fn network_text(value: AttributeValue) -> Option<Seq<char>> {
    match value {
        AttributeValue::ByteArray(bytes) => if valid_utf8(bytes@) {
            Some(decode_utf8(bytes@))
        } else {
            None
        },
        AttributeValue::Other => None,
    }
}

/// The network that an attribute sets, if it sets one.
pub open spec fn sets_network(attr: Attribute) -> Option<Seq<char>> {
    match attr {
        Attribute::Apply { node, name, args } => None,
        Attribute::Assign { node, name, value, number } => if name@ == FORK_NETWORK@ {
            network_text(value)
        } else {
            None
        },
    }
}

/// The version that an attribute sets, if it sets one.
pub open spec fn sets_version(attr: Attribute) -> Option<u64> {
    match attr {
        Attribute::Apply { node, name, args } => None,
        Attribute::Assign { node, name, value, number } => if name@ == FORK_VERSION@ {
            number
        } else {
            None
        },
    }
}

/// The fork information after one argument of the fork attribute.
pub open spec fn after_argument(attr: Attribute, info: ForkView) -> ForkView {
    ForkView {
        network: if sets_network(attr) is Some { sets_network(attr) } else { info.network },
        version: if sets_version(attr) is Some { sets_version(attr) } else { info.version },
    }
}

/// What is wrong with the key and the value of an assignment.
pub open spec fn assignment_problem(attr: Attribute) -> Option<ForkProblem> {
    if attribute_name(attr) == FORK_NETWORK@ {
        if sets_network(attr) is Some { None } else { Some(ForkProblem::UnsupportedValue) }
    } else if attribute_name(attr) == FORK_VERSION@ {
        if sets_version(attr) is Some { None } else { Some(ForkProblem::ValueTooBig) }
    } else {
        Some(ForkProblem::UnsupportedKey)
    }
}

/// The problems reported for an attribute that is an assignment, or an application below the top.
pub open spec fn argument_problems(attr: Attribute, depth: usize) -> Seq<Diagnostic> {
    match attr {
        Attribute::Apply { node, name, args } => seq![
            Diagnostic { node, problem: ForkProblem::NestedAttribute },
        ],
        Attribute::Assign { node, name, value, number } => {
            let place: Seq<Diagnostic> = if depth != 1 {
                seq![Diagnostic { node, problem: ForkProblem::MisplacedAssignment }]
            } else {
                Seq::empty()
            };
            match assignment_problem(attr) {
                Some(problem) => place.push(Diagnostic { node, problem }),
                None => place,
            }
        },
    }
}

/// The fork information after all arguments, from the first to the last.
pub open spec fn after_arguments(args: Seq<Attribute>, info: ForkView) -> ForkView
    decreases args.len(),
{
    if args.len() == 0 {
        info
    } else {
        after_argument(args.last(), after_arguments(args.drop_last(), info))
    }
}

/// The problems of all arguments, from the first to the last.
pub open spec fn arguments_problems(args: Seq<Attribute>) -> Seq<Diagnostic>
    decreases args.len(),
{
    if args.len() == 0 {
        Seq::empty()
    } else {
        arguments_problems(args.drop_last()) + argument_problems(args.last(), 1)
    }
}

/// The fork information after an attribute found at a depth.
pub open spec fn parsed_info(attr: Attribute, depth: usize, info: ForkView) -> ForkView {
    match attr {
        Attribute::Apply { node, name, args } => if depth == 0 {
            after_arguments(args@, info)
        } else {
            info
        },
        Attribute::Assign { node, name, value, number } => after_argument(attr, info),
    }
}

/// The problems reported for an attribute found at a depth.
pub open spec fn parsed_problems(attr: Attribute, depth: usize) -> Seq<Diagnostic> {
    match attr {
        Attribute::Apply { node, name, args } => if depth == 0 {
            arguments_problems(args@)
        } else {
            argument_problems(attr, depth)
        },
        Attribute::Assign { node, name, value, number } => argument_problems(attr, depth),
    }
}

/// The two keys are different.
proof fn keys_differ()
    ensures
        FORK_NETWORK@ != FORK_VERSION@,
{
    reveal_strlit("network");
    reveal_strlit("version");
    assert(FORK_NETWORK@[0] != FORK_VERSION@[0]);
}

/// Reads an attribute into the fork information, and reports what is wrong with it.
///
/// At depth zero stands the fork attribute itself; its arguments stand at depth one.
pub fn parse_fork_attribute(
    attr: &Attribute,
    info: &mut ForkInfo,
    diagnostics: &mut Vec<Diagnostic>,
    depth: usize,
)
    requires
        depth == 0 && attr is Apply ==> attribute_name(*attr) == FORK@,
    ensures
        final(info)@ == parsed_info(*attr, depth, old(info)@),
        final(diagnostics)@ == old(diagnostics)@ + parsed_problems(*attr, depth),
        attr is Assign && attr->Assign_name@ == "version"@ && attr->number is Some
            ==> final(info).version == attr->number,
        attr is Assign && attr->Assign_name@ != "version"@ ==> final(info).version == old(
            info,
        ).version,
    decreases (if depth == 0 { 1int } else { 0int }),
{
    proof {
        keys_differ();
    }
    match attr {
        Attribute::Apply { node, name, args } => {
            if depth > 0 {
                diagnostics.push(
                    Diagnostic { node: *node, problem: ForkProblem::NestedAttribute },
                );
                assert(diagnostics@ =~= old(diagnostics)@ + parsed_problems(*attr, depth));
            } else {
                let mut i: usize = 0;
                assert(diagnostics@ =~= old(diagnostics)@ + arguments_problems(args@.take(0)));
                while i < args.len()
                    invariant
                        depth == 0,
                        i <= args@.len(),
                        info@ == after_arguments(args@.take(i as int), old(info)@),
                        diagnostics@ == old(diagnostics)@ + arguments_problems(
                            args@.take(i as int),
                        ),
                    decreases args.len() - i,
                {
                    parse_fork_attribute(&args[i], info, diagnostics, depth + 1);
                    proof {
                        let t = args@.take(i as int + 1);
                        assert(t.drop_last() =~= args@.take(i as int));
                        assert(t.last() == args@[i as int]);
                        assert(diagnostics@ =~= old(diagnostics)@ + arguments_problems(t));
                    }
                    i += 1;
                }
                assert(args@.take(i as int) =~= args@);
            }
        },
        Attribute::Assign { node, name, value, number } => {
            if depth != 1 {
                diagnostics.push(
                    Diagnostic { node: *node, problem: ForkProblem::MisplacedAssignment },
                );
            }
            if same_text(name.as_str(), FORK_NETWORK) {
                match value {
                    AttributeValue::ByteArray(bytes) => {
                        match String::from_utf8(bytes.clone()) {
                            Ok(network) => {
                                info.network = Some(network);
                            },
                            Err(_) => {
                                diagnostics.push(
                                    Diagnostic {
                                        node: *node,
                                        problem: ForkProblem::UnsupportedValue,
                                    },
                                );
                            },
                        }
                    },
                    AttributeValue::Other => {
                        diagnostics.push(
                            Diagnostic { node: *node, problem: ForkProblem::UnsupportedValue },
                        );
                    },
                }
            } else if same_text(name.as_str(), FORK_VERSION) {
                match number {
                    Some(v) => {
                        info.version = Some(*v);
                    },
                    None => {
                        diagnostics.push(
                            Diagnostic { node: *node, problem: ForkProblem::ValueTooBig },
                        );
                    },
                }
            } else {
                diagnostics.push(
                    Diagnostic { node: *node, problem: ForkProblem::UnsupportedKey },
                );
            }
            assert(diagnostics@ =~= old(diagnostics)@ + parsed_problems(*attr, depth));
        },
    }
}

/// The text in which a problem is reported.
pub open spec fn problem_message(problem: ForkProblem) -> Seq<char> {
    match problem {
        ForkProblem::NestedAttribute => "Unexpected nested attribute in fork declaration"@,
        ForkProblem::MisplacedAssignment => "Unexpected fork attribute in test declaration"@,
        ForkProblem::UnsupportedValue => "Unsupported attribute value"@,
        ForkProblem::ValueTooBig => "attribute value too big"@,
        ForkProblem::UnsupportedKey => "Unsupported attribute key"@,
    }
}

/// Whether a report points back at the assignment with a label of its own.
pub open spec fn has_label(problem: ForkProblem) -> bool {
    !(problem is NestedAttribute) && !(problem is MisplacedAssignment)
}

impl ForkProblem {
    /// The text in which the problem is reported.
    pub fn message(&self) -> (r: String)
        ensures
            r@ == problem_message(*self),
    {
        match self {
            ForkProblem::NestedAttribute => {
                "Unexpected nested attribute in fork declaration".to_owned()
            },
            ForkProblem::MisplacedAssignment => {
                "Unexpected fork attribute in test declaration".to_owned()
            },
            ForkProblem::UnsupportedValue => "Unsupported attribute value".to_owned(),
            ForkProblem::ValueTooBig => "attribute value too big".to_owned(),
            ForkProblem::UnsupportedKey => "Unsupported attribute key".to_owned(),
        }
    }

    /// The label of the report, where it has one.
    pub fn label(&self) -> (r: Option<String>)
        ensures
            r is Some <==> has_label(*self),
            r matches Some(text) ==> text@ == "Assigned in this attribute"@,
    {
        match self {
            ForkProblem::NestedAttribute | ForkProblem::MisplacedAssignment => None,
            _ => Some("Assigned in this attribute".to_owned()),
        }
    }
}

/// A function of a module: its name and its attributes.
#[derive(Debug)]
pub struct FunctionModel {
    pub name: String,
    pub attributes: Vec<Attribute>,
}

/// The address in a module's name: written out, or an alias with the address it stands for.
#[derive(Debug)]
pub enum ModuleAddress {
    Numerical(AccountAddress),
    Symbolic(Option<AccountAddress>),
}

/// A module of the package under test. `identifier` is the name in the compiled module, where
/// there is one.
#[derive(Debug)]
pub struct ModuleModel {
    pub address: ModuleAddress,
    pub name: String,
    pub identifier: Option<String>,
    pub functions: Vec<FunctionModel>,
}

/// The first fork attribute among some attributes.
pub open spec fn first_fork(attrs: Seq<Attribute>) -> Option<int>
    decreases attrs.len(),
{
    if attrs.len() == 0 {
        None
    } else if first_fork(attrs.drop_last()) is Some {
        first_fork(attrs.drop_last())
    } else if attribute_name(attrs.last()) == FORK@ {
        Some(attrs.len() - 1)
    } else {
        None
    }
}

/// What a function asks to be forked: nothing without a fork attribute, else what the first one
/// says.
pub open spec fn function_fork(function: FunctionModel) -> Option<ForkView> {
    match first_fork(function.attributes@) {
        Some(i) => Some(parsed_info(function.attributes@[i], 0, no_fork_info())),
        None => None,
    }
}

/// The problems of a function's fork attribute.
pub open spec fn function_problems(function: FunctionModel) -> Seq<Diagnostic> {
    match first_fork(function.attributes@) {
        Some(i) => parsed_problems(function.attributes@[i], 0),
        None => Seq::empty(),
    }
}

fn has_fork_name(attr: &Attribute) -> (r: bool)
    ensures
        r == (attribute_name(*attr) == FORK@),
{
    match attr {
        Attribute::Apply { node, name, args } => same_text(name.as_str(), FORK),
        Attribute::Assign { node, name, value, number } => same_text(name.as_str(), FORK),
    }
}

/// Finds the first fork attribute.
pub fn fork_position(attributes: &Vec<Attribute>) -> (r: Option<usize>)
    ensures
        match r {
            Some(i) => first_fork(attributes@) == Some(i as int),
            None => first_fork(attributes@) is None,
        },
{
    let mut i: usize = 0;
    while i < attributes.len()
        invariant
            i <= attributes@.len(),
            first_fork(attributes@.take(i as int)) is None,
        decreases attributes.len() - i,
    {
        proof {
            let t = attributes@.take(i as int + 1);
            assert(t.drop_last() =~= attributes@.take(i as int));
            assert(t.last() == attributes@[i as int]);
        }
        if has_fork_name(&attributes[i]) {
            proof {
                first_fork_of_prefix(attributes@, i as int + 1);
            }
            return Some(i);
        }
        i += 1;
    }
    assert(attributes@.take(i as int) =~= attributes@);
    None
}

/// Reads the fork attribute of a function, if it has one.
pub fn build_fork_info(function: &FunctionModel, diagnostics: &mut Vec<Diagnostic>) -> (r: Option<
    ForkInfo,
>)
    ensures
        r is Some <==> function_fork(*function) is Some,
        r matches Some(info) ==> Some(info@) == function_fork(*function),
        final(diagnostics)@ == old(diagnostics)@ + function_problems(*function),
{
    match fork_position(&function.attributes) {
        Some(i) => {
            proof {
                fork_attribute_is_the_first(function.attributes@);
            }
            let mut info = ForkInfo::default();
            parse_fork_attribute(&function.attributes[i], &mut info, diagnostics, 0);
            Some(info)
        },
        None => {
            assert(diagnostics@ =~= old(diagnostics)@ + function_problems(*function));
            None
        },
    }
}

/// A fork attribute that is first in a prefix is first in the whole.
proof fn first_fork_of_prefix(attrs: Seq<Attribute>, n: int)
    requires
        0 <= n <= attrs.len(),
        first_fork(attrs.take(n)) is Some,
    ensures
        first_fork(attrs) == first_fork(attrs.take(n)),
    decreases attrs.len() - n,
{
    if n < attrs.len() {
        let t = attrs.take(n + 1);
        assert(t.drop_last() =~= attrs.take(n));
        first_fork_of_prefix(attrs, n + 1);
    } else {
        assert(attrs.take(n) =~= attrs);
    }
}

/// The forks that the tests of one module ask for.
#[derive(Debug)]
pub struct ModuleTestForkPlan {
    pub module_id: ModuleId,
    pub infos: AssocMap<String, ForkInfo>,
}

/// What a [`ModuleTestForkPlan`] stands for.
pub struct PlanView {
    pub module_id: ModuleIdView,
    pub infos: Map<Seq<char>, ForkView>,
}

/// The fork information under each name.
pub open spec fn info_views(infos: Map<Seq<char>, ForkInfo>) -> Map<Seq<char>, ForkView> {
    infos.map_values(|info: ForkInfo| info@)
}

impl View for ModuleTestForkPlan {
    type V = PlanView;

    open spec fn view(&self) -> PlanView {
        PlanView { module_id: self.module_id@, infos: info_views(self.infos@) }
    }
}

/// Why no plan can be made: the module's name is no identifier, or differs from the name in the
/// compiled module.
#[derive(Clone, Copy, PartialEq, Eq, Debug, Structural)]
pub enum PlanError {
    InvalidIdentifier,
    NameMismatch,
}

impl ModuleTestForkPlan {
    /// The plan of the module with this address and name, whose name must be an identifier.
    pub fn new(
        addr: &AccountAddress,
        module_name: &str,
        infos: AssocMap<String, ForkInfo>,
    ) -> (r: Result<ModuleTestForkPlan, PlanError>)
        ensures
            r is Ok <==> is_identifier(module_name@),
            r matches Ok(plan) ==> plan.module_id@ == (ModuleIdView {
                address: addr@,
                name: module_name@,
            }) && plan.infos == infos,
            r matches Err(e) ==> e == PlanError::InvalidIdentifier,
    {
        match new_identifier(module_name) {
            Ok(name) => {
                let module_id = ModuleId { address: *addr, name };
                Ok(ModuleTestForkPlan { module_id, infos })
            },
            Err(_) => Err(PlanError::InvalidIdentifier),
        }
    }
}

/// The forks that some functions ask for, under the functions' names.
pub open spec fn functions_forks(functions: Seq<FunctionModel>) -> Map<Seq<char>, ForkView>
    decreases functions.len(),
{
    if functions.len() == 0 {
        Map::empty()
    } else {
        let before = functions_forks(functions.drop_last());
        match function_fork(functions.last()) {
            Some(info) => before.insert(functions.last().name@, info),
            None => before,
        }
    }
}

/// The problems of some functions, from the first to the last.
pub open spec fn functions_problems(functions: Seq<FunctionModel>) -> Seq<Diagnostic>
    decreases functions.len(),
{
    if functions.len() == 0 {
        Seq::empty()
    } else {
        functions_problems(functions.drop_last()) + function_problems(functions.last())
    }
}

/// The account address of a module, where its alias stands for one.
pub open spec fn resolved_address(address: ModuleAddress) -> Option<Seq<u8>> {
    match address {
        ModuleAddress::Numerical(a) => Some(a@),
        ModuleAddress::Symbolic(Some(a)) => Some(a@),
        ModuleAddress::Symbolic(None) => None,
    }
}

/// The plan of a module: none where no function asks for a fork or the address is unknown.
pub open spec fn module_plan(module: ModuleModel) -> Result<Option<PlanView>, PlanError> {
    let infos = functions_forks(module.functions@);
    let valid = is_identifier(module.name@);
    if infos == Map::<Seq<char>, ForkView>::empty() {
        Ok(None)
    } else if module.identifier is Some && !valid {
        Err(PlanError::InvalidIdentifier)
    } else if module.identifier is Some && module.identifier->0@ != module.name@ {
        Err(PlanError::NameMismatch)
    } else {
        match resolved_address(module.address) {
            None => Ok(None),
            Some(address) => if valid {
                Ok(
                    Some(
                        PlanView {
                            module_id: ModuleIdView { address, name: module.name@ },
                            infos,
                        },
                    ),
                )
            } else {
                Err(PlanError::InvalidIdentifier)
            },
        }
    }
}

/// Collects the forks of the functions of a module.
fn collect_fork_infos(
    functions: &Vec<FunctionModel>,
    diagnostics: &mut Vec<Diagnostic>,
) -> (r: AssocMap<String, ForkInfo>)
    ensures
        info_views(r@) == functions_forks(functions@),
        r@ == Map::<Seq<char>, ForkInfo>::empty() <==> functions_forks(functions@) == Map::<
            Seq<char>,
            ForkView,
        >::empty(),
        final(diagnostics)@ == old(diagnostics)@ + functions_problems(functions@),
{
    let mut infos: AssocMap<String, ForkInfo> = AssocMap::new();
    let mut i: usize = 0;
    assert(info_views(infos@) =~= functions_forks(functions@.take(0)));
    assert(diagnostics@ =~= old(diagnostics)@ + functions_problems(functions@.take(0)));
    while i < functions.len()
        invariant
            i <= functions@.len(),
            info_views(infos@) == functions_forks(functions@.take(i as int)),
            diagnostics@ == old(diagnostics)@ + functions_problems(functions@.take(i as int)),
        decreases functions.len() - i,
    {
        let ghost before = infos@;
        let info = build_fork_info(&functions[i], diagnostics);
        proof {
            let t = functions@.take(i as int + 1);
            assert(t.drop_last() =~= functions@.take(i as int));
            assert(t.last() == functions@[i as int]);
            assert(diagnostics@ =~= old(diagnostics)@ + functions_problems(t));
        }
        if let Some(info) = info {
            let ghost key = functions@[i as int].name@;
            infos = infos.insert(functions[i].name.clone(), info);
            assert(info_views(infos@) =~= info_views(before).insert(key, info@));
        }
        i += 1;
    }
    assert(functions@.take(i as int) =~= functions@);
    proof {
        if infos@ != Map::<Seq<char>, ForkInfo>::empty() {
            assert(!(infos@.dom() =~= Set::empty())) by {
                if infos@.dom() =~= Set::empty() {
                    assert(infos@ =~= Map::empty());
                }
            }
            let k = choose|k: Seq<char>| infos@.dom().contains(k);
            assert(infos@.dom().contains(k));
            assert(info_views(infos@).dom().contains(k));
        } else {
            assert(info_views(infos@) =~= Map::<Seq<char>, ForkView>::empty());
        }
    }
    infos
}

/// Makes the plan of one module.
pub fn construct_module_test_fork_attributes(
    module: &ModuleModel,
    diagnostics: &mut Vec<Diagnostic>,
) -> (r: Result<Option<ModuleTestForkPlan>, PlanError>)
    ensures
        match r {
            Ok(Some(plan)) => module_plan(*module) == Ok::<Option<PlanView>, PlanError>(
                Some(plan@),
            ),
            Ok(None) => module_plan(*module) == Ok::<Option<PlanView>, PlanError>(None),
            Err(e) => module_plan(*module) == Err::<Option<PlanView>, PlanError>(e),
        },
        final(diagnostics)@ == old(diagnostics)@ + functions_problems(module.functions@),
{
    let infos = collect_fork_infos(&module.functions, diagnostics);
    if infos.is_empty() {
        return Ok(None);
    }
    if let Some(identifier) = &module.identifier {
        match new_identifier(module.name.as_str()) {
            Ok(name) => {
                if !same_text(name.as_str(), identifier.as_str()) {
                    return Err(PlanError::NameMismatch);
                }
            },
            Err(_) => {
                return Err(PlanError::InvalidIdentifier);
            },
        }
    }
    let address: Option<AccountAddress> = match &module.address {
        ModuleAddress::Numerical(a) => Some(*a),
        ModuleAddress::Symbolic(a) => *a,
    };
    match address {
        Some(addr) => match ModuleTestForkPlan::new(&addr, module.name.as_str(), infos) {
            Ok(plan) => Ok(Some(plan)),
            Err(e) => Err(e),
        },
        None => Ok(None),
    }
}

/// The plans under each module id.
pub open spec fn plan_views(plans: Map<ModuleIdView, ModuleTestForkPlan>) -> Map<
    ModuleIdView,
    PlanView,
> {
    plans.map_values(|plan: ModuleTestForkPlan| plan@)
}

/// The plans of some modules under their ids, or the error of the first module that has one.
pub open spec fn modules_plans(modules: Seq<ModuleModel>) -> Result<
    Map<ModuleIdView, PlanView>,
    PlanError,
>
    decreases modules.len(),
{
    if modules.len() == 0 {
        Ok(Map::empty())
    } else {
        match modules_plans(modules.drop_last()) {
            Err(e) => Err(e),
            Ok(before) => match module_plan(modules.last()) {
                Err(e) => Err(e),
                Ok(None) => Ok(before),
                Ok(Some(plan)) => Ok(before.insert(plan.module_id, plan)),
            },
        }
    }
}

/// How many of the modules are looked at: all, or those up to the first with an error.
pub open spec fn modules_examined(modules: Seq<ModuleModel>) -> nat
    decreases modules.len(),
{
    if modules.len() == 0 {
        0
    } else if modules_plans(modules.drop_last()) is Err {
        modules_examined(modules.drop_last())
    } else {
        modules.len()
    }
}

/// The problems of some modules, from the first to the last.
pub open spec fn modules_problems(modules: Seq<ModuleModel>) -> Seq<Diagnostic>
    decreases modules.len(),
{
    if modules.len() == 0 {
        Seq::empty()
    } else {
        modules_problems(modules.drop_last()) + functions_problems(modules.last().functions@)
    }
}

/// An error in a prefix is the error of the whole.
proof fn plans_error_of_prefix(modules: Seq<ModuleModel>, n: int)
    requires
        0 <= n <= modules.len(),
        modules_plans(modules.take(n)) is Err,
    ensures
        modules_plans(modules) == modules_plans(modules.take(n)),
        modules_examined(modules) == modules_examined(modules.take(n)),
    decreases modules.len() - n,
{
    if n < modules.len() {
        let t = modules.take(n + 1);
        assert(t.drop_last() =~= modules.take(n));
        plans_error_of_prefix(modules, n + 1);
    } else {
        assert(modules.take(n) =~= modules);
    }
}

/// Makes the plans of all modules of a package.
pub fn construct_fork_plan(
    modules: &Vec<ModuleModel>,
    diagnostics: &mut Vec<Diagnostic>,
) -> (r: Result<AssocMap<ModuleId, ModuleTestForkPlan>, PlanError>)
    ensures
        match r {
            Ok(plans) => modules_plans(modules@) == Ok::<Map<ModuleIdView, PlanView>, PlanError>(
                plan_views(plans@),
            ),
            Err(e) => modules_plans(modules@) == Err::<Map<ModuleIdView, PlanView>, PlanError>(e),
        },
        final(diagnostics)@ == old(diagnostics)@ + modules_problems(
            modules@.take(modules_examined(modules@) as int),
        ),
{
    let mut plans: AssocMap<ModuleId, ModuleTestForkPlan> = AssocMap::new();
    let mut i: usize = 0;
    assert(plan_views(plans@) =~= Map::<ModuleIdView, PlanView>::empty());
    assert(diagnostics@ =~= old(diagnostics)@ + modules_problems(modules@.take(0)));
    while i < modules.len()
        invariant
            i <= modules@.len(),
            modules_plans(modules@.take(i as int)) == Ok::<
                Map<ModuleIdView, PlanView>,
                PlanError,
            >(plan_views(plans@)),
            modules_examined(modules@.take(i as int)) == i,
            diagnostics@ == old(diagnostics)@ + modules_problems(modules@.take(i as int)),
        decreases modules.len() - i,
    {
        let ghost before = plans@;
        let plan = construct_module_test_fork_attributes(&modules[i], diagnostics);
        proof {
            let t = modules@.take(i as int + 1);
            assert(t.drop_last() =~= modules@.take(i as int));
            assert(t.last() == modules@[i as int]);
            assert(diagnostics@ =~= old(diagnostics)@ + modules_problems(t));
        }
        match plan {
            Ok(Some(plan)) => {
                let key = plan.module_id.clone();
                plans = plans.insert(key, plan);
                assert(plan_views(plans@) =~= plan_views(before).insert(plan@.module_id, plan@));
            },
            Ok(None) => {},
            Err(e) => {
                proof {
                    plans_error_of_prefix(modules@, i as int + 1);
                }
                return Err(e);
            },
        }
        i += 1;
    }
    assert(modules@.take(i as int) =~= modules@);
    Ok(plans)
}

} // verus!
