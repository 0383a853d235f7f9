//! The client registry: for one service domain, the authenticated client of
//! every credential, built once and then only read.

use crate::keys::{Key, KeyView};
use crate::settings::{proxy_view, ProxyConfig, ProxyConfigView};
use std::sync::Arc;
use vstd::hash_map::StringHashMap;
use vstd::prelude::*;
use vstd::string::StringExecFns;

verus! {

/// Why a registry could not be built.
#[derive(Debug, PartialEq, Eq)]
pub enum ConfigError {
    /// The proxy settings do not make a URL that the HTTP client accepts.
    Proxy,
    /// No client configuration could be made from the credential of this
    /// name.
    Credential { key_name: String },
}

impl ConfigError {
    /// What to tell the operator. It names no secret.
    pub fn message(&self) -> (res: String)
        ensures
            self is Proxy ==> res@ == "Failed to create proxy from URL"@,
            self is Credential ==> res@ == "Failed to build REST configuration"@,
    {
        match self {
            ConfigError::Proxy => String::from_str("Failed to create proxy from URL"),
            ConfigError::Credential { .. } => String::from_str("Failed to build REST configuration"),
        }
    }
}

/// A request named a credential that the registry does not hold.
#[derive(Debug, PartialEq, Eq)]
pub struct NotFoundError {
    pub key_name: String,
}

impl NotFoundError {
    /// What to tell the caller: the fixed text, then the name that was asked
    /// for.
    pub fn message(&self) -> (res: String)
        ensures
            res@ == "Client not found for key_name: "@ + self.key_name@,
    {
        let mut text = String::from_str("Client not found for key_name: ");
        text.append(self.key_name.as_str());
        text
    }
}

/// An authenticated client together with what it was built for: the
/// credential and the proxy. The credential is kept as a record only; of
/// it, just the public key can be read back.
pub struct ClientHandle<C> {
    api_key: String,
    proxy: Option<ProxyConfig>,
    client: C,
    credential: Ghost<KeyView>,
}

impl<C> ClientHandle<C> {
    #[verifier::type_invariant]
    spec fn well_formed(self) -> bool {
        self.api_key@ == self.credential@.api_key
    }

    /// The credential that the client was built for.
    pub closed spec fn credential(&self) -> KeyView {
        self.credential@
    }

    /// The proxy that the client was built with.
    pub closed spec fn proxy_settings(&self) -> Option<ProxyConfigView> {
        proxy_view(self.proxy)
    }

    /// The client itself.
    pub closed spec fn inner(&self) -> C {
        self.client
    }

    /// Records that `client` was built for `key`, with `proxy`.
    pub fn new(key: &Key, proxy: Option<ProxyConfig>, client: C) -> (res: Self)
        ensures
            res.credential() == key@,
            res.proxy_settings() == proxy_view(proxy),
            res.inner() == client,
    {
        ClientHandle { api_key: key.api_key.clone(), proxy, client, credential: Ghost(key@) }
    }

    /// The public key of the credential that the client was built for.
    pub fn api_key(&self) -> (res: &str)
        ensures
            res@ == self.credential().api_key,
    {
        proof {
            use_type_invariant(self);
        }
        self.api_key.as_str()
    }

    /// The proxy that the client was built with.
    pub fn proxy(&self) -> (res: &Option<ProxyConfig>)
        ensures
            proxy_view(*res) == self.proxy_settings(),
    {
        &self.proxy
    }

    /// The client, to make calls with.
    pub fn client(&self) -> (res: &C)
        ensures
            *res == self.inner(),
    {
        &self.client
    }
}

/// What recording `outcome` under `name` makes of the clients gathered so
/// far: a handle is added, replacing one of the same name; a failure ends
/// the build and leaves no clients at all.
pub open spec fn recorded<C>(
    clients: Map<Seq<char>, ClientHandle<C>>,
    name: Seq<char>,
    outcome: Result<ClientHandle<C>, ConfigError>,
) -> Result<Map<Seq<char>, ClientHandle<C>>, ConfigError> {
    match outcome {
        Ok(handle) => Ok(clients.insert(name, handle)),
        Err(e) => Err(e),
    }
}

/// What recording `outcomes` in order makes of an empty registry: the first
/// failure, or the clients of all.
pub open spec fn built<C>(outcomes: Seq<(String, Result<ClientHandle<C>, ConfigError>)>) -> Result<
    Map<Seq<char>, ClientHandle<C>>,
    ConfigError,
>
    decreases outcomes.len(),
{
    if outcomes.len() == 0 {
        Ok(Map::empty())
    } else {
        match built(outcomes.drop_last()) {
            Ok(clients) => recorded(clients, outcomes.last().0@, outcomes.last().1),
            Err(e) => Err(e),
        }
    }
}

/// What looking up `key_name` among `clients` gives: the client under that
/// name, or, where there is none, the name that was asked for.
pub open spec fn resolved<C>(clients: Map<Seq<char>, ClientHandle<C>>, key_name: Seq<char>) -> Result<
    ClientHandle<C>,
    Seq<char>,
> {
    if clients.contains_key(key_name) {
        Ok(clients[key_name])
    } else {
        Err(key_name)
    }
}

/// A registry under construction. It is not shared, and becomes a registry
/// only as a whole.
#[verifier::reject_recursive_types(C)]
pub struct RegistryBuilder<C> {
    clients: StringHashMap<ClientHandle<C>>,
}

impl<C> View for RegistryBuilder<C> {
    type V = Map<Seq<char>, ClientHandle<C>>;

    closed spec fn view(&self) -> Map<Seq<char>, ClientHandle<C>> {
        self.clients@
    }
}

impl<C> RegistryBuilder<C> {
    /// A builder that holds no client.
    pub fn new() -> (res: Self)
        ensures
            res@ == Map::<Seq<char>, ClientHandle<C>>::empty(),
    {
        RegistryBuilder { clients: StringHashMap::new() }
    }

    /// Takes what the factory made of the credential `name`. A handle is
    /// kept under that name; a failure is handed back, and the builder with
    /// all it held is gone.
    pub fn record(self, name: String, outcome: Result<ClientHandle<C>, ConfigError>) -> (res: Result<
        Self,
        ConfigError,
    >)
        ensures
            match res {
                Ok(next) => recorded(self@, name@, outcome) == Ok::<_, ConfigError>(next@),
                Err(e) => recorded(self@, name@, outcome) == Err::<Map<Seq<char>, ClientHandle<C>>, _>(
                    e,
                ),
            },
    {
        match outcome {
            Ok(handle) => {
                let mut clients = self.clients;
                clients.insert(name, handle);
                Ok(RegistryBuilder { clients })
            },
            Err(e) => Err(e),
        }
    }

    /// Ends the build: the clients gathered become a registry.
    pub fn publish(self) -> (res: Registry<C>)
        ensures
            res@ == self@,
    {
        Registry { clients: Arc::new(self.clients) }
    }
}

/// The clients of one service domain, by credential name. A registry never
/// changes; a clone shares the same clients.
#[verifier::reject_recursive_types(C)]
pub struct Registry<C> {
    clients: Arc<StringHashMap<ClientHandle<C>>>,
}

impl<C> View for Registry<C> {
    type V = Map<Seq<char>, ClientHandle<C>>;

    closed spec fn view(&self) -> Map<Seq<char>, ClientHandle<C>> {
        self.clients@
    }
}

/// `Arc::clone`: another pointer to the same value.
#[verifier::external_body]
fn shared<V>(value: &Arc<V>) -> (res: Arc<V>)
    ensures
        res == *value,
{
    Arc::clone(value)
}

impl<C> Clone for Registry<C> {
    fn clone(&self) -> (res: Self)
        ensures
            res@ == self@,
    {
        Registry { clients: shared(&self.clients) }
    }
}

impl<C> Registry<C> {
    /// The registry that `outcomes`, recorded in order, make: that of all
    /// their clients, or the first failure among them.
    pub fn from_outcomes(outcomes: Vec<(String, Result<ClientHandle<C>, ConfigError>)>) -> (res:
        Result<Self, ConfigError>)
        ensures
            match res {
                Ok(registry) => built(outcomes@) == Ok::<_, ConfigError>(registry@),
                Err(e) => built(outcomes@) == Err::<Map<Seq<char>, ClientHandle<C>>, _>(e),
            },
    {
        let ghost all = outcomes@;
        let mut builder = RegistryBuilder::new();
        for outcome in it: outcomes
            invariant
                it.seq() == all,
                built(all.take(it.index() as int)) == Ok::<_, ConfigError>(builder@),
        {
            let ghost i = it.index() as int;
            proof {
                assert(all.take(i + 1).drop_last() =~= all.take(i));
            }
            let (name, result) = outcome;
            match builder.record(name, result) {
                Ok(next) => {
                    builder = next;
                },
                Err(e) => {
                    proof {
                        lemma_failure_stays(all, i + 1);
                    }
                    return Err(e);
                },
            }
        }
        proof {
            assert(all.take(all.len() as int) =~= all);
        }
        Ok(builder.publish())
    }

    /// The client of the credential `key_name`, or that there is none.
    pub fn resolve(&self, key_name: &str) -> (res: Result<&ClientHandle<C>, NotFoundError>)
        ensures
            match res {
                Ok(handle) => resolved(self@, key_name@) == Ok::<_, Seq<char>>(*handle),
                Err(e) => resolved(self@, key_name@) == Err::<ClientHandle<C>, _>(e.key_name@),
            },
    {
        match self.clients.get(key_name) {
            Some(handle) => Ok(handle),
            None => Err(NotFoundError { key_name: key_name.to_owned() }),
        }
    }

    /// Whether the registry holds a client for `key_name`.
    pub fn contains(&self, key_name: &str) -> (res: bool)
        ensures
            res == self@.contains_key(key_name@),
    {
        self.clients.contains_key(key_name)
    }

    /// The number of clients.
    pub fn len(&self) -> (res: usize)
        ensures
            res == self@.len(),
    {
        self.clients.len()
    }

    /// Whether the registry holds no client.
    pub fn is_empty(&self) -> (res: bool)
        ensures
            res == self@.is_empty(),
    {
        self.clients.is_empty()
    }
}

/// Once a prefix of the outcomes has failed, the whole has failed, with the
/// same failure.
pub proof fn lemma_failure_stays<C>(
    outcomes: Seq<(String, Result<ClientHandle<C>, ConfigError>)>,
    k: int,
)
    requires
        0 <= k <= outcomes.len(),
        built(outcomes.take(k)) is Err,
    ensures
        built(outcomes) == built(outcomes.take(k)),
    decreases outcomes.len() - k,
{
    if k < outcomes.len() {
        assert(outcomes.take(k + 1).drop_last() =~= outcomes.take(k));
        lemma_failure_stays(outcomes, k + 1);
    } else {
        assert(outcomes.take(k) =~= outcomes);
    }
}

/// One failure fails the build, whatever else came of the other
/// credentials.
pub proof fn lemma_one_failure_fails_the_build<C>(
    outcomes: Seq<(String, Result<ClientHandle<C>, ConfigError>)>,
    i: int,
)
    requires
        0 <= i < outcomes.len(),
        outcomes[i].1 is Err,
    ensures
        built(outcomes) is Err,
    decreases outcomes.len(),
{
    if i < outcomes.len() - 1 {
        let front = outcomes.drop_last();
        assert(front[i] == outcomes[i]);
        lemma_one_failure_fails_the_build(front, i);
    }
}

/// A failed build reports the first failure among the outcomes.
pub proof fn lemma_build_reports_first_failure<C>(
    outcomes: Seq<(String, Result<ClientHandle<C>, ConfigError>)>,
)
    requires
        built(outcomes) is Err,
    ensures
        exists|i: int|
            0 <= i < outcomes.len() && (#[trigger] outcomes[i]).1 == Err::<ClientHandle<C>, _>(
                built(outcomes)->Err_0,
            ) && forall|j: int| 0 <= j < i ==> (#[trigger] outcomes[j]).1 is Ok,
    decreases outcomes.len(),
{
    let front = outcomes.drop_last();
    if built(front) is Err {
        lemma_build_reports_first_failure(front);
        let i = choose|i: int|
            0 <= i < front.len() && (#[trigger] front[i]).1 == Err::<ClientHandle<C>, _>(
                built(front)->Err_0,
            ) && forall|j: int| 0 <= j < i ==> (#[trigger] front[j]).1 is Ok;
        assert(outcomes[i] == front[i]);
        assert forall|j: int| 0 <= j < i implies (#[trigger] outcomes[j]).1 is Ok by {
            assert(outcomes[j] == front[j]);
        }
    } else {
        let i = outcomes.len() - 1;
        assert(outcomes[i].1 == Err::<ClientHandle<C>, _>(built(outcomes)->Err_0));
        assert forall|j: int| 0 <= j < i implies (#[trigger] outcomes[j]).1 is Ok by {
            if outcomes[j].1 is Err {
                assert(front[j] == outcomes[j]);
                lemma_one_failure_fails_the_build(front, j);
            }
        }
    }
}

/// Where no outcome is a failure the build succeeds, and the registry
/// holds, under each name that came, the handle that came last under it.
pub proof fn lemma_build_keeps_every_client<C>(
    outcomes: Seq<(String, Result<ClientHandle<C>, ConfigError>)>,
    i: int,
)
    requires
        forall|j: int| 0 <= j < outcomes.len() ==> (#[trigger] outcomes[j]).1 is Ok,
        0 <= i < outcomes.len(),
        forall|j: int| i < j < outcomes.len() ==> (#[trigger] outcomes[j]).0@ != outcomes[i].0@,
    ensures
        built(outcomes) matches Ok(clients) && clients.contains_key(outcomes[i].0@)
            && clients[outcomes[i].0@] == outcomes[i].1->Ok_0,
    decreases outcomes.len(),
{
    let front = outcomes.drop_last();
    assert(built(front) is Ok) by {
        if built(front) is Err {
            lemma_build_reports_first_failure(front);
            let k = choose|k: int|
                0 <= k < front.len() && (#[trigger] front[k]).1 == Err::<ClientHandle<C>, _>(
                    built(front)->Err_0,
                );
            assert(outcomes[k] == front[k]);
        }
    }
    assert(outcomes[outcomes.len() - 1].1 is Ok);
    if i < outcomes.len() - 1 {
        assert(front[i] == outcomes[i]);
        assert forall|j: int| 0 <= j < front.len() implies (#[trigger] front[j]).1 is Ok by {
            assert(outcomes[j] == front[j]);
        }
        assert forall|j: int| i < j < front.len() implies (#[trigger] front[j]).0@ != front[i].0@ by {
            assert(outcomes[j] == front[j]);
        }
        lemma_build_keeps_every_client(front, i);
        assert(outcomes[outcomes.len() - 1].0@ != outcomes[i].0@);
    }
}

} // verus!
