//! Which state a test starts from, and where a fork of a network is found.
use crate::fork_attributes::{ForkInfo, ForkView};
use crate::outside::{normal_url, parse_url};
use crate::text::{
    decimal, decimal_injective, decimal_text, same_text, texts, trimmed,
    trimmed_properties, trimmed_text, white_space,
};
use crate::text_laws::{
    decimal_reads_back, digits_value, trimmed_text_is_not_trimmed_again,
    trimming_removes_only_white_space,
};
use vstd::prelude::*;

verus! {

/// A step in making the store of a test.
#[derive(Debug)]
pub enum StoreStep {
    /// Start from a store that holds nothing.
    EmptyBase,
    /// Connect to a network, and start from its state behind a cache.
    RemoteBase(ForkInfo),
    /// Give the store the id of the test chain.
    TestChainId,
    /// Put the genesis writes into the store.
    GenesisWrites,
    /// Make the environment of the store as it is by then.
    Environment,
}

/// The directory, under the package, that holds what was fetched from networks.
pub const CACHE_DIR: &'static str = "cache";

/// The network of a fork that names none.
pub const DEFAULT_NETWORK: &'static str = "testnet";

/// The state that a test starts from.
#[derive(Debug)]
pub enum StoreBase {
    /// The genesis state of the test chain.
    Genesis,
    /// The state of a network.
    Fork(ForkInfo),
}

/// Chooses the state that a test starts from.
pub fn setup_store(fork_info: Option<ForkInfo>) -> (r: StoreBase)
    ensures
        match fork_info {
            Some(info) => r == StoreBase::Fork(info),
            None => r is Genesis,
        },
{
    match fork_info {
        Some(info) => StoreBase::Fork(info),
        None => StoreBase::Genesis,
    }
}

/// The steps that make the store which starts from a state.
pub open spec fn base_steps(base: StoreBase) -> Seq<StoreStep> {
    match base {
        StoreBase::Genesis => seq![
            StoreStep::EmptyBase,
            StoreStep::TestChainId,
            StoreStep::GenesisWrites,
            StoreStep::Environment,
        ],
        StoreBase::Fork(info) => seq![StoreStep::RemoteBase(info), StoreStep::Environment],
    }
}

impl StoreBase {
    /// The steps that make the store which starts from this state, in order.
    pub fn steps(self) -> (r: Vec<StoreStep>)
        ensures
            r@ == base_steps(self),
    {
        let mut steps: Vec<StoreStep> = Vec::new();
        match self {
            StoreBase::Genesis => {
                steps.push(StoreStep::EmptyBase);
                steps.push(StoreStep::TestChainId);
                steps.push(StoreStep::GenesisWrites);
            },
            StoreBase::Fork(info) => {
                steps.push(StoreStep::RemoteBase(info));
            },
        }
        steps.push(StoreStep::Environment);
        assert(steps@ =~= base_steps(self));
        steps
    }
}

/// The node that answers for a network.
#[derive(Debug)]
pub enum BaseUrl {
    Mainnet,
    Testnet,
    Devnet,
    Custom(String),
}

/// What a [`BaseUrl`] stands for.
pub enum BaseUrlView {
    Mainnet,
    Testnet,
    Devnet,
    Custom(Seq<char>),
}

impl View for BaseUrl {
    type V = BaseUrlView;

    open spec fn view(&self) -> BaseUrlView {
        match *self {
            BaseUrl::Mainnet => BaseUrlView::Mainnet,
            BaseUrl::Testnet => BaseUrlView::Testnet,
            BaseUrl::Devnet => BaseUrlView::Devnet,
            BaseUrl::Custom(url) => BaseUrlView::Custom(url@),
        }
    }
}

/// The network that a fork is made of.
pub open spec fn network_name(info: ForkView) -> Seq<char> {
    match info.network {
        Some(name) => name,
        None => DEFAULT_NETWORK@,
    }
}

/// The networks that are known by name.
pub open spec fn known_network(name: Seq<char>) -> Option<BaseUrlView> {
    if name == "mainnet"@ {
        Some(BaseUrlView::Mainnet)
    } else if name == "testnet"@ {
        Some(BaseUrlView::Testnet)
    } else if name == "devnet"@ {
        Some(BaseUrlView::Devnet)
    } else {
        None
    }
}

/// The node for a network: a known one by its name, any other by its URL, whose normal form is
/// given.
pub open spec fn node_for(name: Seq<char>, url: Option<Seq<char>>) -> Option<BaseUrlView> {
    match known_network(name) {
        Some(node) => Some(node),
        None => match url {
            Some(text) => Some(BaseUrlView::Custom(text)),
            None => None,
        },
    }
}

/// Why a fork cannot be made: its network is neither a known name nor a URL.
#[derive(Clone, Copy, PartialEq, Eq, Debug, Structural)]
pub enum StoreError {
    InvalidUrl,
}

/// The node of a network that is known by name.
pub fn named_base_url(name: &str) -> (r: Option<BaseUrl>)
    ensures
        match r {
            Some(node) => known_network(name@) == Some(node@),
            None => known_network(name@) is None,
        },
{
    if same_text(name, "mainnet") {
        Some(BaseUrl::Mainnet)
    } else if same_text(name, "testnet") {
        Some(BaseUrl::Testnet)
    } else if same_text(name, "devnet") {
        Some(BaseUrl::Devnet)
    } else {
        None
    }
}

/// The node for a network whose name, read as a URL, has the given normal form.
pub fn base_url_from(name: &str, url: Option<String>) -> (r: Result<BaseUrl, StoreError>)
    ensures
        match r {
            Ok(node) => node_for(
                name@,
                match url {
                    Some(text) => Some(text@),
                    None => None,
                },
            ) == Some(node@),
            Err(e) => known_network(name@) is None && url is None && e == StoreError::InvalidUrl,
        },
{
    match named_base_url(name) {
        Some(node) => Ok(node),
        None => match url {
            Some(text) => Ok(BaseUrl::Custom(text)),
            None => Err(StoreError::InvalidUrl),
        },
    }
}

/// The node for a network.
pub fn base_url(name: &str) -> (r: Result<BaseUrl, StoreError>)
    ensures
        match r {
            Ok(node) => node_for(name@, normal_url(name@)) == Some(node@),
            Err(e) => node_for(name@, normal_url(name@)) is None && e == StoreError::InvalidUrl,
        },
{
    match named_base_url(name) {
        Some(node) => Ok(node),
        None => {
            let url: Option<String> = match parse_url(name) {
                Ok(text) => Some(text),
                Err(_) => None,
            };
            base_url_from(name, url)
        },
    }
}

/// The key that a raw setting holds: what is left without the white space around it, if anything.
pub open spec fn api_key_of(raw: Option<Seq<char>>) -> Option<Seq<char>> {
    match raw {
        Some(text) => if trimmed(text).len() == 0 {
            None
        } else {
            Some(trimmed(text))
        },
        None => None,
    }
}

/// Reads the key for the node's interface from a raw setting.
pub fn api_key(raw: Option<String>) -> (r: Option<String>)
    ensures
        match r {
            Some(key) => raw matches Some(text) && api_key_of(Some(text@)) == Some(key@),
            None => raw matches Some(text) ==> api_key_of(Some(text@)) is None,
        },
{
    match raw {
        Some(text) => {
            let key = trimmed_text(text.as_str());
            if key.as_str().is_empty() {
                None
            } else {
                Some(key)
            }
        },
        None => None,
    }
}

/// Where a fork is read from.
#[derive(Debug)]
pub struct ForkSource {
    pub base_url: BaseUrl,
    pub api_key: Option<String>,
    pub version: Option<u64>,
}

/// Decides where a fork is read from, given what the environment holds as a key.
pub fn create_store(fork_info: ForkInfo, raw_api_key: Option<String>) -> (r: Result<
    ForkSource,
    StoreError,
>)
    ensures
        match r {
            Ok(source) => {
                &&& node_for(
                    network_name(fork_info@),
                    normal_url(network_name(fork_info@)),
                ) == Some(source.base_url@)
                &&& match source.api_key {
                    Some(key) => raw_api_key matches Some(text) && api_key_of(Some(text@)) == Some(
                        key@,
                    ),
                    None => raw_api_key matches Some(text) ==> api_key_of(Some(text@)) is None,
                }
                &&& source.version == fork_info.version
            },
            Err(e) => node_for(
                network_name(fork_info@),
                normal_url(network_name(fork_info@)),
            ) is None && e == StoreError::InvalidUrl,
        },
        fork_info.network is None ==> (r matches Ok(source) && source.base_url is Testnet),
        fork_info.network matches Some(n) ==> {
            &&& n@ == "mainnet"@ ==> (r matches Ok(source) && source.base_url is Mainnet)
            &&& n@ == "testnet"@ ==> (r matches Ok(source) && source.base_url is Testnet)
            &&& n@ == "devnet"@ ==> (r matches Ok(source) && source.base_url is Devnet)
            &&& n@ != "mainnet"@ && n@ != "testnet"@ && n@ != "devnet"@ ==> match normal_url(n@) {
                Some(url) => r matches Ok(source) && source.base_url matches BaseUrl::Custom(text)
                    && text@ == url,
                None => r is Err,
            }
        },
{
    proof {
        network_names_differ();
    }
    let network_url: String = match fork_info.network {
        Some(name) => name,
        None => DEFAULT_NETWORK.to_owned(),
    };
    match base_url(network_url.as_str()) {
        Ok(base_url) => Ok(
            ForkSource { base_url, api_key: api_key(raw_api_key), version: fork_info.version },
        ),
        Err(e) => Err(e),
    }
}

/// The ledger version of a fork, and the directory under the package that caches its state.
#[derive(Debug)]
pub struct ForkLocation {
    pub version: u64,
    pub cache_dir: Vec<String>,
}

/// The parts of the path, below the package, of the cache for a chain at a version.
pub open spec fn cache_dir_of(chain_id: u8, version: u64) -> Seq<Seq<char>> {
    seq![CACHE_DIR@, decimal(chain_id as nat), decimal(version as nat)]
}

/// The directory that caches the state of a chain at a version.
pub fn cache_dir(chain_id: u8, version: u64) -> (r: Vec<String>)
    ensures
        texts(r@) == cache_dir_of(chain_id, version),
{
    let mut parts: Vec<String> = Vec::new();
    parts.push(CACHE_DIR.to_owned());
    parts.push(decimal_text(chain_id as u64));
    parts.push(decimal_text(version));
    assert(texts(parts@) =~= cache_dir_of(chain_id, version));
    parts
}

impl ForkSource {
    /// Whether the latest ledger version has to be asked for.
    pub fn needs_latest_version(&self) -> (r: bool)
        ensures
            r == (self.version is None),
    {
        self.version.is_none()
    }

    /// The location of the fork, once the chain is known and, where no version was pinned, the
    /// latest one.
    pub fn location(&self, chain_id: u8, latest_version: Option<u64>) -> (r: Option<ForkLocation>)
        ensures
            match r {
                Some(location) => {
                    &&& self.version is Some ==> self.version == Some(location.version)
                    &&& self.version is None ==> latest_version == Some(location.version)
                    &&& texts(location.cache_dir@) == cache_dir_of(chain_id, location.version)
                },
                None => self.version is None && latest_version is None,
            },
    {
        let version: Option<u64> = match self.version {
            Some(v) => Some(v),
            None => latest_version,
        };
        match version {
            Some(v) => Some(ForkLocation { version: v, cache_dir: cache_dir(chain_id, v) }),
            None => None,
        }
    }
}

/// What the steps do to an outside store: what starting points there are, what the writes make of
/// a store, and what its environment is.
#[verifier::reject_recursive_types(S)]
pub struct StoreEffects<S, R> {
    pub empty: S,
    pub remote: spec_fn(ForkView) -> S,
    pub with_test_chain: spec_fn(S) -> S,
    pub with_genesis: spec_fn(S) -> S,
    pub environment: spec_fn(S) -> R,
}

/// A store in the making, its environment once it has one, and whether a network was connected to,
/// which is also when a cache directory is made.
pub struct StoreInMaking<S, R> {
    pub inner: S,
    pub environment: Option<R>,
    pub connected: bool,
}

/// One step in making a store.
pub open spec fn after_step<S, R>(
    step: StoreStep,
    store: StoreInMaking<S, R>,
    effects: StoreEffects<S, R>,
) -> StoreInMaking<S, R> {
    match step {
        StoreStep::EmptyBase => StoreInMaking { inner: effects.empty, ..store },
        StoreStep::RemoteBase(info) => StoreInMaking {
            inner: (effects.remote)(info@),
            connected: true,
            ..store
        },
        StoreStep::TestChainId => StoreInMaking {
            inner: (effects.with_test_chain)(store.inner),
            ..store
        },
        StoreStep::GenesisWrites => StoreInMaking {
            inner: (effects.with_genesis)(store.inner),
            ..store
        },
        StoreStep::Environment => StoreInMaking {
            environment: Some((effects.environment)(store.inner)),
            ..store
        },
    }
}

/// The store that some steps make, from the first to the last.
pub open spec fn after_steps<S, R>(
    steps: Seq<StoreStep>,
    effects: StoreEffects<S, R>,
) -> StoreInMaking<S, R>
    decreases steps.len(),
{
    if steps.len() == 0 {
        StoreInMaking { inner: effects.empty, environment: None, connected: false }
    } else {
        after_step(steps.last(), after_steps(steps.drop_last(), effects), effects)
    }
}

proof fn made_store<S, R>(base: StoreBase, effects: StoreEffects<S, R>)
    ensures
        ({
            let store = after_steps(base_steps(base), effects);
            &&& store.connected == (base is Fork)
            &&& store.environment == Some((effects.environment)(store.inner))
            &&& store.inner == match base {
                StoreBase::Genesis => (effects.with_genesis)(
                    (effects.with_test_chain)(effects.empty),
                ),
                StoreBase::Fork(info) => (effects.remote)(info@),
            }
        }),
{
    reveal_with_fuel(after_steps, 5);
    let steps = base_steps(base);
    match base {
        StoreBase::Genesis => {
            assert(steps.drop_last().drop_last().drop_last().drop_last().len() == 0);
        },
        StoreBase::Fork(info) => {
            assert(steps.drop_last().drop_last().len() == 0);
        },
    }
}

/// Whatever the steps do to a store: two stores without a fork hold the same state, the genesis
/// state of the test chain, and no network is connected to for them.
pub proof fn stores_without_a_fork_are_alike<S, R>(
    a: StoreBase,
    b: StoreBase,
    effects: StoreEffects<S, R>,
)
    requires
        a is Genesis,
        b is Genesis,
    ensures
        after_steps(base_steps(a), effects) == after_steps(base_steps(b), effects),
        after_steps(base_steps(a), effects).inner == (effects.with_genesis)(
            (effects.with_test_chain)(effects.empty),
        ),
        !after_steps(base_steps(a), effects).connected,
{
    made_store(a, effects);
    made_store(b, effects);
}

/// Whatever the steps do to a store: its environment is that of the finished store, with a fork
/// and without.
pub proof fn environment_is_of_the_finished_store<S, R>(
    base: StoreBase,
    effects: StoreEffects<S, R>,
)
    ensures
        ({
            let store = after_steps(base_steps(base), effects);
            store.environment == Some((effects.environment)(store.inner))
        }),
{
    made_store(base, effects);
}

/// Whatever the steps do to a store: the store of a fork holds the state of the network that the
/// fork asks for, and nothing is put on top.
pub proof fn forked_store_is_the_network<S, R>(info: ForkInfo, effects: StoreEffects<S, R>)
    ensures
        after_steps(base_steps(StoreBase::Fork(info)), effects).inner == (effects.remote)(info@),
        after_steps(base_steps(StoreBase::Fork(info)), effects).connected,
{
    made_store(StoreBase::Fork(info), effects);
}

/// Two forks share a cache only if they are of one chain at one version.
pub proof fn cache_dirs_are_distinct(chain_a: u8, version_a: u64, chain_b: u8, version_b: u64)
    requires
        cache_dir_of(chain_a, version_a) == cache_dir_of(chain_b, version_b),
    ensures
        chain_a == chain_b,
        version_a == version_b,
{
    let a = cache_dir_of(chain_a, version_a);
    let b = cache_dir_of(chain_b, version_b);
    assert(a[1] == b[1] && a[2] == b[2]);
    decimal_injective(chain_a as nat, chain_b as nat);
    decimal_injective(version_a as nat, version_b as nat);
}

/// A fork without a network is one of the test network, whatever the environment.
pub proof fn default_network_is_testnet(info: ForkView, url: Option<Seq<char>>)
    requires
        info.network is None,
    ensures
        node_for(network_name(info), url) == Some(BaseUrlView::Testnet),
{
    reveal_strlit("testnet");
    reveal_strlit("mainnet");
    assert("testnet"@[0] != "mainnet"@[0]);
}

/// A key has no white space around it and is not empty, and a setting that is blank holds none.
pub proof fn api_key_is_never_blank(raw: Seq<char>)
    ensures
        api_key_of(Some(raw)) matches Some(key) ==> {
            &&& key.len() > 0
            &&& !white_space(key[0])
            &&& !white_space(key.last())
        },
        api_key_of(Some(raw)) is None <==> forall|i: int|
            0 <= i < raw.len() ==> white_space(#[trigger] raw[i]),
{
    trimmed_properties(raw);
}

proof fn network_names_differ()
    ensures
        "mainnet"@ != "testnet"@,
        "mainnet"@ != "devnet"@,
        "testnet"@ != "devnet"@,
{
    reveal_strlit("mainnet");
    reveal_strlit("testnet");
    reveal_strlit("devnet");
    assert("mainnet"@[0] != "testnet"@[0]);
    assert("mainnet"@.len() != "devnet"@.len());
    assert("testnet"@.len() != "devnet"@.len());
}

/// The node that a fork is read from.
pub open spec fn fork_node(info: ForkView) -> Option<BaseUrlView> {
    node_for(network_name(info), normal_url(network_name(info)))
}

/// A fork that names its network is read from the node of that network, whether it pins a version
/// or not: a known network by its name, any other by the normal form of the URL that the name is.
/// There is no node exactly where the name is neither.
pub proof fn named_network_is_read_from_its_node(info: ForkView, n: Seq<char>)
    requires
        info.network == Some(n),
    ensures
        node_for(network_name(info), normal_url(network_name(info))) == fork_node(info),
        n == "mainnet"@ ==> fork_node(info) == Some(BaseUrlView::Mainnet),
        n == "testnet"@ ==> fork_node(info) == Some(BaseUrlView::Testnet),
        n == "devnet"@ ==> fork_node(info) == Some(BaseUrlView::Devnet),
        n != "mainnet"@ && n != "testnet"@ && n != "devnet"@ ==> match normal_url(n) {
            Some(url) => fork_node(info) == Some(BaseUrlView::Custom(url)),
            None => fork_node(info) is None,
        },
{
    network_names_differ();
}

/// Two forks of one network are read from one node, whatever their versions.
pub proof fn version_does_not_choose_the_node(a: ForkView, b: ForkView)
    requires
        a.network == b.network,
    ensures
        network_name(a) == network_name(b),
        fork_node(a) == fork_node(b),
{
}

/// Where the normal form of a name is given: a known name does not need it, any other name has the
/// node of that form, and no node without one.
pub proof fn known_names_need_no_url(name: Seq<char>, url: Option<Seq<char>>)
    ensures
        name == "mainnet"@ ==> node_for(name, url) == Some(BaseUrlView::Mainnet)
            && known_network(name) == Some(BaseUrlView::Mainnet),
        name == "testnet"@ ==> node_for(name, url) == Some(BaseUrlView::Testnet)
            && known_network(name) == Some(BaseUrlView::Testnet),
        name == "devnet"@ ==> node_for(name, url) == Some(BaseUrlView::Devnet)
            && known_network(name) == Some(BaseUrlView::Devnet),
        name != "mainnet"@ && name != "testnet"@ && name != "devnet"@ ==> {
            &&& known_network(name) is None
            &&& url matches Some(text) ==> node_for(name, url) == Some(BaseUrlView::Custom(text))
            &&& url is None ==> node_for(name, url) is None
        },
{
    network_names_differ();
}

/// A node stands for the network it is, and a custom one for the text of its URL.
pub proof fn node_view_is_faithful(node: BaseUrl)
    ensures
        node@ is Mainnet <==> node is Mainnet,
        node@ is Testnet <==> node is Testnet,
        node@ is Devnet <==> node is Devnet,
        node matches BaseUrl::Custom(url) ==> node@ == BaseUrlView::Custom(url@),
{
}

/// A setting is its key with nothing but white space around it; without a key it is nothing but
/// white space.
pub proof fn api_key_is_the_setting_without_white_space(raw: Seq<char>) -> (parts: (
    Seq<char>,
    Seq<char>,
))
    ensures
        forall|i: int| 0 <= i < parts.0.len() ==> white_space(#[trigger] parts.0[i]),
        forall|i: int| 0 <= i < parts.1.len() ==> white_space(#[trigger] parts.1[i]),
        api_key_of(Some(raw)) matches Some(key) ==> raw == parts.0 + key + parts.1
            && key.len() > 0 && !white_space(key[0]) && !white_space(key.last()),
        api_key_of(Some(raw)) is None ==> raw == parts.0 + parts.1,
        api_key_of(None) is None,
{
    let parts = trimming_removes_only_white_space(raw);
    if trimmed(raw).len() == 0 {
        assert(raw =~= parts.0 + parts.1);
    }
    parts
}

/// A setting with no white space at either end is the key as it is.
pub proof fn api_key_without_white_space_is_kept(raw: Seq<char>)
    requires
        raw.len() > 0,
        !white_space(raw[0]),
        !white_space(raw.last()),
    ensures
        api_key_of(Some(raw)) == Some(raw),
{
    trimmed_text_is_not_trimmed_again(raw);
}

/// The cache directory has three parts: `cache`, the chain's id and the version, each number in
/// decimal, so that it can be read back.
pub proof fn cache_dir_names_chain_and_version(chain_id: u8, version: u64)
    ensures
        cache_dir_of(chain_id, version).len() == 3,
        cache_dir_of(chain_id, version)[0] == "cache"@,
        digits_value(cache_dir_of(chain_id, version)[1], 10) == chain_id,
        digits_value(cache_dir_of(chain_id, version)[2], 10) == version,
{
    decimal_reads_back(chain_id as nat);
    decimal_reads_back(version as nat);
}

} // verus!
