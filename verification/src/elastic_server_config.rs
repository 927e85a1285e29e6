use vstd::prelude::*;

verus! {

/// The largest admissible connection-pool size: asking for more is a
/// configuration error caught before any work begins.
pub const MAX_POOL_CNT: i32 = 10;

/// Connection settings for the search-engine cluster: node addresses,
/// optional credentials and the admission-pool size.
#[derive(Debug)]
pub struct ElasticServerConfig {
    pub elastic_host: Vec<String>,
    pub elastic_id: Option<String>,
    pub elastic_pw: Option<String>,
    pub elastic_pool_cnt: i32,
}

/// The reasons a configuration is rejected at startup.
#[derive(Clone, Copy, PartialEq, Eq, Structural, Debug)]
pub enum ConfigError {
    PoolCntOutOfRange,
}

impl ElasticServerConfig {
    pub open spec fn wf(&self) -> bool {
        1 <= self.elastic_pool_cnt <= MAX_POOL_CNT
    }

    /// Builds a configuration from already-read settings, rejecting a pool
    /// size outside 1..=10.
    pub fn new(
        elastic_host: Vec<String>,
        elastic_id: Option<String>,
        elastic_pw: Option<String>,
        elastic_pool_cnt: i32,
    ) -> (r: Result<ElasticServerConfig, ConfigError>)
        ensures
            r is Ok <==> 1 <= elastic_pool_cnt <= MAX_POOL_CNT,
            r is Ok ==> r->Ok_0 == (ElasticServerConfig {
                elastic_host,
                elastic_id,
                elastic_pw,
                elastic_pool_cnt,
            }),
            r is Ok ==> r->Ok_0.wf(),
            r is Err ==> r->Err_0 == ConfigError::PoolCntOutOfRange,
    {
        if 1 <= elastic_pool_cnt && elastic_pool_cnt <= MAX_POOL_CNT {
            Ok(ElasticServerConfig { elastic_host, elastic_id, elastic_pw, elastic_pool_cnt })
        } else {
            Err(ConfigError::PoolCntOutOfRange)
        }
    }

    pub fn elastic_host(&self) -> (r: &Vec<String>)
        ensures
            r == &self.elastic_host,
    {
        &self.elastic_host
    }

    pub fn elastic_id(&self) -> (r: &Option<String>)
        ensures
            r == &self.elastic_id,
    {
        &self.elastic_id
    }

    pub fn elastic_pw(&self) -> (r: &Option<String>)
        ensures
            r == &self.elastic_pw,
    {
        &self.elastic_pw
    }

    pub fn elastic_pool_cnt(&self) -> (r: i32)
        ensures
            r == self.elastic_pool_cnt,
    {
        self.elastic_pool_cnt
    }
}

/// Holds the configuration that the composition root installs once; it
/// replaces a process-global cell with an explicitly owned one.
pub struct ElasticConfigCell {
    config: Option<ElasticServerConfig>,
}

impl ElasticConfigCell {
    pub closed spec fn view(&self) -> Option<ElasticServerConfig> {
        self.config
    }

    /// An empty cell, waiting for its one initialization.
    pub fn empty() -> (r: ElasticConfigCell)
        ensures
            r@ is None,
    {
        ElasticConfigCell { config: None }
    }
}

/// Installs the configuration into the cell; initializing twice is a
/// caller error, so the cell must still be empty.
pub fn init_elastic_config(cell: &mut ElasticConfigCell, config: ElasticServerConfig)
    requires
        old(cell)@ is None,
    ensures
        final(cell)@ == Some(config),
{
    cell.config = Some(config);
}

/// Reads the installed configuration; using it before initialization is a
/// caller error, so the cell must be filled.
pub fn get_elastic_config(cell: &ElasticConfigCell) -> (r: &ElasticServerConfig)
    requires
        cell@ is Some,
    ensures
        *r == cell@->0,
{
    match &cell.config {
        Some(c) => c,
        None => unreached(),
    }
}

} // verus!
