use vstd::prelude::*;
use vstd::string::StringExecFns;
use rand::seq::SliceRandom;
use crate::elastic_server_config::{ElasticServerConfig, MAX_POOL_CNT};

verus! {

broadcast use vstd::seq_lib::group_to_multiset_ensures;

#[verifier::external_type_specification]
#[verifier::external_body]
pub struct ExElasticsearch(elasticsearch::Elasticsearch);

/// What one node reported when an attempt against it failed at the
/// transport level (it could not be reached or rejected the request).
#[derive(Debug, PartialEq, Eq)]
pub struct NodeError {
    pub message: String,
}

/// Everything that can go wrong between the engine and the cluster.
#[derive(Debug, PartialEq, Eq)]
pub enum EsError {
    /// A node URL could not be parsed or its transport could not be built.
    TransportBuild(String),
    /// Every node failed for one call; only the last node's error is kept.
    AllNodesFailed(Option<NodeError>),
    /// A node answered, but with a status code outside the 2xx range.
    StatusFailure(u16),
    /// A node answered a listing call with a body that is not JSON.
    BadResponseBody,
    /// A listing record carries no index name.
    MissingIndexField,
    /// No admission token is free right now; a blocking driver waits here.
    PoolExhausted,
}

/// One record of a listing response, reduced to the field the engine
/// reads: the index name, absent when the record carries none.
#[derive(Debug, PartialEq, Eq, Clone)]
pub struct IndexRecord {
    pub index: Option<String>,
}

/// A listing response body as the engine sees it after JSON decoding.
#[derive(Debug, PartialEq, Eq, Clone)]
pub enum ListBody {
    /// The body was not valid JSON.
    Unparsed,
    /// The body was JSON, but not an array of records.
    NotArray,
    /// The array of records, each reduced to its index name.
    Records(Vec<IndexRecord>),
}

/// A node's answer to a listing call: its status code and decoded body.
#[derive(Debug, PartialEq, Eq, Clone)]
pub struct EsListResponse {
    pub status_code: u16,
    pub body: ListBody,
}

/// One configured connection: the node's address and its open transport.
pub struct EsClient {
    pub host: String,
    pub es_conn: elasticsearch::Elasticsearch,
}

impl EsClient {
    pub fn new(host: String, es_conn: elasticsearch::Elasticsearch) -> (r: EsClient)
        ensures
            r == (EsClient { host, es_conn }),
    {
        EsClient { host, es_conn }
    }
}

/// The fixed set of node clients one repository multiplexes over.
pub struct EsRepositoryPub {
    pub es_clients: Vec<EsClient>,
}

pub open spec fn spec_conn_url(id: Seq<char>, pw: Seq<char>, host: Seq<char>) -> Seq<char> {
    "http://"@ + id + ":"@ + pw + "@"@ + host
}

/// The connection URL a node client is opened with: credentials and
/// address resolved into one address string.
fn make_conn_url(es_id: &str, es_pw: &str, host: &str) -> (r: String)
    ensures
        r@ == spec_conn_url(es_id@, es_pw@, host@),
{
    let mut s = String::new();
    s.append("http://");
    s.append(es_id);
    s.append(":");
    s.append(es_pw);
    s.append("@");
    s.append(host);
    s
}

/// Relies on elasticsearch's `Url::parse`, `SingleNodeConnectionPool::new`,
/// `TransportBuilder::{new, timeout, build}` and `Elasticsearch::new`: parses
/// the node URL and opens a transport to that single node with a fixed
/// 5-second request timeout, or reports why it could not.
#[verifier::external_body]
fn build_elastic_conn(conn_url: &str) -> (r: Result<elasticsearch::Elasticsearch, String>) {
    let es_url = match elasticsearch::http::Url::parse(conn_url) {
        Ok(u) => u,
        Err(e) => return Err(e.to_string()),
    };
    let conn_pool = elasticsearch::http::transport::SingleNodeConnectionPool::new(es_url);
    let builder = elasticsearch::http::transport::TransportBuilder::new(conn_pool);
    let transport = match builder.timeout(std::time::Duration::new(5, 0)).build() {
        Ok(t) => t,
        Err(e) => return Err(e.to_string()),
    };
    Ok(elasticsearch::Elasticsearch::new(transport))
}

/// Relies on rand's `SliceRandom::shuffle` with a `StdRng` seeded by
/// `SeedableRng::from_entropy`: a Fisher-Yates pass that reorders the
/// elements in place, neither adding nor dropping any.
#[verifier::external_body]
fn shuffle_indices(v: &mut Vec<usize>)
    ensures
        final(v)@.to_multiset() == old(v)@.to_multiset(),
{
    let mut rng: rand::rngs::StdRng = rand::SeedableRng::from_entropy();
    v.shuffle(&mut rng);
}

/// Relies on rand's `thread_rng` and `Rng::gen_range`: an index drawn
/// uniformly below `n`; the range is non-empty, so the call cannot panic.
#[verifier::external_body]
fn random_below(n: usize) -> (r: usize)
    requires
        n > 0,
    ensures
        r < n,
{
    rand::Rng::gen_range(&mut rand::thread_rng(), 0..n)
}

impl EsRepositoryPub {
    /// Builds one client per node address, resolving the credentials and
    /// address into a connection URL and opening a transport for each; a
    /// single node that cannot be set up fails the whole construction.
    pub fn new(es_url_vec: Vec<String>, es_id: &str, es_pw: &str) -> (r: Result<
        EsRepositoryPub,
        EsError,
    >)
        ensures
            r is Ok ==> r->Ok_0.es_clients@.len() == es_url_vec@.len(),
            r is Ok ==> forall|i: int|
                0 <= i < es_url_vec@.len() ==> (#[trigger] r->Ok_0.es_clients@[i]).host
                    == es_url_vec@[i],
            r is Err ==> r->Err_0 is TransportBuild,
            es_url_vec@.len() == 0 ==> r is Ok,
    {
        let mut es_clients: Vec<EsClient> = Vec::new();
        let mut i: usize = 0;
        while i < es_url_vec.len()
            invariant
                i <= es_url_vec@.len(),
                es_clients@.len() == i as int,
                forall|j: int|
                    0 <= j < i as int ==> (#[trigger] es_clients@[j]).host == es_url_vec@[j],
            decreases es_url_vec@.len() - i,
        {
            let url: &String = &es_url_vec[i];
            let conn_url = make_conn_url(es_id, es_pw, url.as_str());
            match build_elastic_conn(conn_url.as_str()) {
                Ok(conn) => {
                    es_clients.push(EsClient::new(url.clone(), conn));
                },
                Err(msg) => {
                    return Err(EsError::TransportBuild(msg));
                },
            }
            i = i + 1;
        }
        Ok(EsRepositoryPub { es_clients })
    }

    /// A fresh random order over the clients, drawn anew for each failover
    /// pass so no node is persistently preferred.
    pub fn failover_order(&self) -> (order: Vec<usize>)
        ensures
            order@.len() == self.es_clients@.len(),
            forall|j: int| 0 <= j < order@.len() ==> #[trigger] order@[j] < self.es_clients@.len(),
            forall|k: usize|
                k < self.es_clients@.len() ==> order@.contains(k),
    {
        let n = self.es_clients.len();
        let mut order: Vec<usize> = Vec::new();
        let mut i: usize = 0;
        while i < n
            invariant
                i <= n,
                order@.len() == i as int,
                forall|j: int| 0 <= j < i as int ==> #[trigger] order@[j] == j as usize,
            decreases n - i,
        {
            order.push(i);
            i = i + 1;
        }
        let ghost identity = order@;
        shuffle_indices(&mut order);
        proof {
            assert(order@.to_multiset().len() == identity.to_multiset().len());
            assert(order@.len() == identity.len());
            assert forall|k: usize| k < self.es_clients@.len() implies order@.contains(k) by {
                assert(identity[k as int] == k);
                assert(identity.contains(k));
                assert(identity.to_multiset().count(k) > 0);
                assert(order@.to_multiset().count(k) > 0);
            }
            assert forall|j: int| 0 <= j < order@.len() implies #[trigger] order@[j]
                < self.es_clients@.len() by {
                let v = order@[j];
                assert(order@.contains(v));
                assert(order@.to_multiset().count(v) > 0);
                assert(identity.to_multiset().count(v) > 0);
                assert(identity.contains(v));
                let w = choose|w: int| 0 <= w < identity.len() && identity[w] == v;
                assert(identity[w] == w as usize);
            }
        }
        order
    }
}

/// What trying each node in order yields: the first success wins; when
/// every attempt fails, the whole call fails carrying the last error.
pub open spec fn spec_failover<T>(s: Seq<Result<T, NodeError>>) -> Result<T, EsError>
    decreases s.len(),
{
    if s.len() == 0 {
        Err(EsError::AllNodesFailed(None))
    } else {
        match s[0] {
            Ok(v) => Ok(v),
            Err(e) => if s.len() == 1 {
                Err(EsError::AllNodesFailed(Some(e)))
            } else {
                spec_failover(s.drop_first())
            },
        }
    }
}

/// Per-call node failover: one success suffices, whatever its position;
/// the call fails only when every node fails, and then it reports the
/// error of the last node attempted.
pub proof fn lemma_failover_semantics<T>(s: Seq<Result<T, NodeError>>)
    ensures
        (spec_failover(s) is Ok) <==> (exists|i: int| 0 <= i < s.len() && s[i] is Ok),
        (spec_failover(s) is Ok) ==> exists|i: int|
            {
                &&& 0 <= i < s.len()
                &&& s[i] is Ok
                &&& (forall|j: int| 0 <= j < i ==> s[j] is Err)
                &&& spec_failover(s) == Ok::<T, EsError>(s[i]->Ok_0)
            },
        (s.len() > 0 && (forall|i: int| 0 <= i < s.len() ==> s[i] is Err)) ==> spec_failover(s)
            == Err::<T, EsError>(EsError::AllNodesFailed(Some(s.last()->Err_0))),
        s.len() == 0 ==> spec_failover(s) == Err::<T, EsError>(EsError::AllNodesFailed(None)),
    decreases s.len(),
{
    if s.len() > 0 {
        let rest = s.drop_first();
        lemma_failover_semantics(rest);
        assert forall|i: int| 1 <= i < s.len() implies rest[i - 1] == s[i] by {}
        if s[0] is Ok {
            assert(0 <= 0 < s.len() && s[0] is Ok);
        } else if s.len() == 1 {
            assert(s.last() == s[0]);
        } else {
            if exists|i: int| 0 <= i < s.len() && s[i] is Ok {
                let i = choose|i: int| 0 <= i < s.len() && s[i] is Ok;
                assert(rest[i - 1] is Ok);
                assert(exists|k: int| 0 <= k < rest.len() && rest[k] is Ok);
            }
            if spec_failover(rest) is Ok {
                let k = choose|k: int|
                    {
                        &&& 0 <= k < rest.len()
                        &&& rest[k] is Ok
                        &&& (forall|j: int| 0 <= j < k ==> rest[j] is Err)
                        &&& spec_failover(rest) == Ok::<T, EsError>(rest[k]->Ok_0)
                    };
                assert(s[k + 1] == rest[k]);
                assert forall|j: int| 0 <= j < k + 1 implies s[j] is Err by {
                    if j >= 1 {
                        assert(rest[j - 1] is Err);
                    }
                }
                assert({
                    &&& 0 <= k + 1 < s.len()
                    &&& s[k + 1] is Ok
                    &&& (forall|j: int| 0 <= j < k + 1 ==> s[j] is Err)
                    &&& spec_failover(s) == Ok::<T, EsError>(s[k + 1]->Ok_0)
                });
            }
            if forall|i: int| 0 <= i < s.len() ==> s[i] is Err {
                assert forall|i: int| 0 <= i < rest.len() implies rest[i] is Err by {
                    assert(rest[i] == s[i + 1]);
                }
                assert(rest.last() == s.last());
            }
        }
    }
}

impl EsRepositoryPub {
    /// Folds the per-node outcomes of one logical call, taken in attempt
    /// order: the first success short-circuits the rest; if every node
    /// failed, the result wraps the last node's error.
    #[verifier::loop_isolation(false)]
    pub fn execute_on_any_node<T>(&self, outcomes: Vec<Result<T, NodeError>>) -> (r: Result<
        T,
        EsError,
    >)
        ensures
            r == spec_failover(outcomes@),
    {
        let ghost orig = outcomes@;
        let mut rest = outcomes;
        while rest.len() > 0
            invariant
                spec_failover(orig) == spec_failover(rest@),
            decreases rest@.len(),
        {
            let ghost before = rest@;
            let head = rest.remove(0);
            proof {
                assert(rest@ =~= before.drop_first());
            }
            match head {
                Ok(v) => {
                    return Ok(v);
                },
                Err(e) => {
                    if rest.len() == 0 {
                        return Err(EsError::AllNodesFailed(Some(e)));
                    }
                },
            }
        }
        Err(EsError::AllNodesFailed(None))
    }
}

/// What a delete-index call returns once one node answered: success for a
/// 2xx status, the status code as an error otherwise.
pub open spec fn spec_delete_index(s: Seq<Result<u16, NodeError>>) -> Result<(), EsError> {
    match spec_failover(s) {
        Err(e) => Err(e),
        Ok(status) => if 200 <= status < 300 {
            Ok(())
        } else {
            Err(EsError::StatusFailure(status))
        },
    }
}

/// What a list-indices call returns once one node answered: for a 2xx
/// status the decoded body, unless it was not JSON; the status code as an
/// error otherwise.
pub open spec fn spec_get_index_belong_pattern(s: Seq<Result<EsListResponse, NodeError>>) -> Result<
    ListBody,
    EsError,
> {
    match spec_failover(s) {
        Err(e) => Err(e),
        Ok(resp) => if !(200 <= resp.status_code < 300) {
            Err(EsError::StatusFailure(resp.status_code))
        } else if resp.body is Unparsed {
            Err(EsError::BadResponseBody)
        } else {
            Ok(resp.body)
        },
    }
}

/// The repository capability the engine works against; a test double only
/// has to meet the same contracts.
pub trait EsRepository {
    /// Lists the indices matching a pattern, given each node's outcome for
    /// this call in attempt order.
    fn get_index_belong_pattern(
        &self,
        index_pattern: &str,
        outcomes: Vec<Result<EsListResponse, NodeError>>,
    ) -> (r: Result<ListBody, EsError>)
        ensures
            r == spec_get_index_belong_pattern(outcomes@),
    ;

    /// Deletes one index, given each node's reported status code for this
    /// call in attempt order.
    fn delete_index(&self, index_name: &str, outcomes: Vec<Result<u16, NodeError>>) -> (r: Result<
        (),
        EsError,
    >)
        ensures
            r == spec_delete_index(outcomes@),
    ;
}

impl EsRepository for EsRepositoryPub {
    #[allow(unused_variables)]
    fn get_index_belong_pattern(
        &self,
        index_pattern: &str,
        outcomes: Vec<Result<EsListResponse, NodeError>>,
    ) -> (r: Result<ListBody, EsError>) {
        match self.execute_on_any_node(outcomes) {
            Err(e) => Err(e),
            Ok(resp) => {
                if !status_is_success(resp.status_code) {
                    Err(EsError::StatusFailure(resp.status_code))
                } else {
                    match resp.body {
                        ListBody::Unparsed => Err(EsError::BadResponseBody),
                        b => Ok(b),
                    }
                }
            },
        }
    }

    #[allow(unused_variables)]
    fn delete_index(&self, index_name: &str, outcomes: Vec<Result<u16, NodeError>>) -> (r: Result<
        (),
        EsError,
    >) {
        match self.execute_on_any_node(outcomes) {
            Err(e) => Err(e),
            Ok(status) => {
                if status_is_success(status) {
                    Ok(())
                } else {
                    Err(EsError::StatusFailure(status))
                }
            },
        }
    }
}

/// An HTTP status code counts as success exactly when it lies in the 2xx
/// range.
pub fn status_is_success(code: u16) -> (r: bool)
    ensures
        r == (200 <= code < 300),
{
    200 <= code && code < 300
}

/// The admission-bounded client pool: a fixed set of repositories, one per
/// admission slot, and a count of tokens still free. At most as many
/// guards as the pool's capacity can be outstanding at any moment.
pub struct ElasticConnPool {
    clients: Vec<EsRepositoryPub>,
    available: usize,
}

/// A short-lived handle on pool capacity: one admission token plus the
/// arbitrarily chosen client the holder talks through. Releasing it gives
/// the token back; the pool's clients themselves never change.
#[derive(Debug)]
pub struct ElasticConnGuard {
    client_id: usize,
}

impl ElasticConnGuard {
    /// The index of the pool client this guard borrowed.
    pub closed spec fn view(&self) -> int {
        self.client_id as int
    }

    pub fn client_id(&self) -> (i: usize)
        ensures
            i as int == self@,
    {
        self.client_id
    }

    /// Takes one admission token and picks a random client, or reports the
    /// pool as exhausted when no token is free (a blocking driver waits
    /// and retries instead of failing).
    pub fn new(pool: &mut ElasticConnPool) -> (r: Result<ElasticConnGuard, EsError>)
        requires
            old(pool).wf(),
        ensures
            final(pool).wf(),
            final(pool).clients_spec() == old(pool).clients_spec(),
            old(pool).available_spec() == 0 ==> r is Err && r->Err_0 == EsError::PoolExhausted
                && final(pool).available_spec() == 0,
            old(pool).available_spec() > 0 ==> r is Ok && final(pool).available_spec() == old(pool).available_spec() - 1 && 0 <= r->Ok_0@ < final(pool).capacity(),
    {
        if pool.available == 0 {
            Err(EsError::PoolExhausted)
        } else {
            pool.available = pool.available - 1;
            let id = random_below(pool.clients.len());
            Ok(ElasticConnGuard { client_id: id })
        }
    }
}

impl ElasticConnPool {
    pub closed spec fn capacity(&self) -> int {
        self.clients@.len() as int
    }

    pub closed spec fn available_spec(&self) -> int {
        self.available as int
    }

    pub closed spec fn clients_spec(&self) -> Seq<EsRepositoryPub> {
        self.clients@
    }

    /// Guards handed out and not yet returned.
    pub open spec fn outstanding(&self) -> int {
        self.capacity() - self.available_spec()
    }

    pub open spec fn wf(&self) -> bool {
        &&& 0 <= self.available_spec() <= self.capacity()
        &&& 1 <= self.capacity() <= MAX_POOL_CNT as int
    }

    /// Builds one repository per admission slot from the validated
    /// configuration, with every admission token initially free.
    pub fn new(config: &ElasticServerConfig) -> (r: Result<ElasticConnPool, EsError>)
        requires
            config.wf(),
        ensures
            r is Ok ==> r->Ok_0.wf(),
            r is Ok ==> r->Ok_0.capacity() == config.elastic_pool_cnt as int,
            r is Ok ==> r->Ok_0.available_spec() == r->Ok_0.capacity(),
            r is Ok ==> forall|k: int|
                0 <= k < r->Ok_0.capacity() ==> {
                    let repo = #[trigger] r->Ok_0.clients_spec()[k];
                    &&& repo.es_clients@.len() == config.elastic_host@.len()
                    &&& forall|j: int|
                        0 <= j < config.elastic_host@.len() ==> (
                        #[trigger] repo.es_clients@[j]).host == config.elastic_host@[j]
                },
            r is Err ==> r->Err_0 is TransportBuild,
            config.elastic_host@.len() == 0 ==> r is Ok,
    {
        let id = match &config.elastic_id {
            Some(s) => s.clone(),
            None => String::new(),
        };
        let pw = match &config.elastic_pw {
            Some(s) => s.clone(),
            None => String::new(),
        };
        let n = config.elastic_pool_cnt as usize;
        let mut clients: Vec<EsRepositoryPub> = Vec::new();
        let mut i: usize = 0;
        while i < n
            invariant
                i <= n,
                clients@.len() == i as int,
                forall|k: int|
                    0 <= k < i as int ==> {
                        let repo = #[trigger] clients@[k];
                        &&& repo.es_clients@.len() == config.elastic_host@.len()
                        &&& forall|j: int|
                            0 <= j < config.elastic_host@.len() ==> (
                            #[trigger] repo.es_clients@[j]).host == config.elastic_host@[j]
                    },
            decreases n - i,
        {
            let hosts = clone_string_vec(&config.elastic_host);
            match EsRepositoryPub::new(hosts, id.as_str(), pw.as_str()) {
                Ok(repo) => {
                    clients.push(repo);
                },
                Err(e) => {
                    return Err(e);
                },
            }
            i = i + 1;
        }
        Ok(ElasticConnPool { clients, available: n })
    }

    /// Returns the guard's admission token to the pool: exactly one token,
    /// whatever the operation's outcome was.
    pub fn release(&mut self, guard: ElasticConnGuard)
        requires
            old(self).wf(),
            old(self).outstanding() > 0,
        ensures
            final(self).wf(),
            final(self).clients_spec() == old(self).clients_spec(),
            final(self).available_spec() == old(self).available_spec() + 1,
    {
        let _ = guard;
        self.available = self.available + 1;
    }

    /// The client a guard borrowed.
    pub fn client(&self, guard: &ElasticConnGuard) -> (c: &EsRepositoryPub)
        requires
            0 <= guard@ < self.capacity(),
        ensures
            *c == self.clients_spec()[guard@],
    {
        &self.clients[guard.client_id()]
    }

    pub fn available(&self) -> (n: usize)
        ensures
            n as int == self.available_spec(),
    {
        self.available
    }

    pub fn capacity_count(&self) -> (n: usize)
        ensures
            n as int == self.capacity(),
    {
        self.clients.len()
    }
}

/// Acquires a guard on the pool, as each engine step does before talking
/// to the cluster.
pub fn get_elastic_guard_conn(pool: &mut ElasticConnPool) -> (r: Result<ElasticConnGuard, EsError>)
    requires
        old(pool).wf(),
    ensures
        final(pool).wf(),
        final(pool).clients_spec() == old(pool).clients_spec(),
        old(pool).available_spec() == 0 ==> r is Err && r->Err_0 == EsError::PoolExhausted && final(pool).available_spec() == 0,
        old(pool).available_spec() > 0 ==> r is Ok && final(pool).available_spec() == old(pool).available_spec() - 1 && 0 <= r->Ok_0@ < final(pool).capacity(),
{
    ElasticConnGuard::new(pool)
}

fn clone_string_vec(v: &Vec<String>) -> (r: Vec<String>)
    ensures
        r@ == v@,
{
    let mut r: Vec<String> = Vec::new();
    let mut i: usize = 0;
    while i < v.len()
        invariant
            i <= v@.len(),
            r@.len() == i as int,
            forall|j: int| 0 <= j < i as int ==> #[trigger] r@[j] == v@[j],
        decreases v@.len() - i,
    {
        r.push(v[i].clone());
        i = i + 1;
    }
    proof {
        assert(r@ =~= v@);
    }
    r
}

/// However many logical operations are in flight, no more guards than the
/// pool's capacity are ever outstanding, and that capacity is at most ten;
/// with none free, acquisition does not hand out another guard.
pub proof fn lemma_admission_bounded(pool: ElasticConnPool)
    requires
        pool.wf(),
    ensures
        pool.outstanding() <= pool.capacity(),
        pool.capacity() <= MAX_POOL_CNT as int,
        pool.outstanding() == pool.capacity() ==> pool.available_spec() == 0,
{
}

} // verus!
