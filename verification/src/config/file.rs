use vstd::prelude::*;

verus! {

/// The contents of the TOML configuration file. Paths are kept as text.
#[derive(Debug)]
pub struct FileConfig {
    pub server: ServerSection,
    pub falcon: FalconSection,
    pub sensors: SensorsSection,
}

#[derive(Debug)]
pub struct ServerSection {
    pub bind: Option<String>,
    pub port: Option<u16>,
    pub addr: Option<String>,
    pub public_url: Option<String>,
    pub token: Option<String>,
    pub timeout_minutes: Option<u64>,
    pub max_downloads: Option<u32>,
}

#[derive(Debug)]
pub struct FalconSection {
    pub client_id: Option<String>,
    pub client_secret: Option<String>,
    pub cloud: Option<String>,
    pub cid: Option<String>,
}

#[derive(Debug)]
pub struct SensorsSection {
    pub cache_dir: Option<String>,
    pub metadata_ttl_minutes: Option<u64>,
    pub cache_max_bytes: Option<u64>,
    pub tags: Option<String>,
    pub default_tag: Option<bool>,
    pub files: Option<Vec<String>>,
}

impl Default for ServerSection {
    fn default() -> (r: Self)
        ensures
            r.bind is None,
            r.port is None,
            r.addr is None,
            r.public_url is None,
            r.token is None,
            r.timeout_minutes is None,
            r.max_downloads is None,
    {
        ServerSection {
            bind: None,
            port: None,
            addr: None,
            public_url: None,
            token: None,
            timeout_minutes: None,
            max_downloads: None,
        }
    }
}

impl Default for FalconSection {
    fn default() -> (r: Self)
        ensures
            r.client_id is None,
            r.client_secret is None,
            r.cloud is None,
            r.cid is None,
    {
        FalconSection { client_id: None, client_secret: None, cloud: None, cid: None }
    }
}

impl Default for SensorsSection {
    fn default() -> (r: Self)
        ensures
            r.cache_dir is None,
            r.metadata_ttl_minutes is None,
            r.cache_max_bytes is None,
            r.tags is None,
            r.default_tag is None,
            r.files is None,
    {
        SensorsSection {
            cache_dir: None,
            metadata_ttl_minutes: None,
            cache_max_bytes: None,
            tags: None,
            default_tag: None,
            files: None,
        }
    }
}

impl Default for FileConfig {
    fn default() -> (r: Self)
        ensures
            r.server.bind is None,
            r.server.port is None,
            r.server.addr is None,
            r.server.public_url is None,
            r.server.token is None,
            r.server.timeout_minutes is None,
            r.server.max_downloads is None,
            r.falcon.client_id is None,
            r.falcon.client_secret is None,
            r.falcon.cloud is None,
            r.falcon.cid is None,
            r.sensors.cache_dir is None,
            r.sensors.metadata_ttl_minutes is None,
            r.sensors.cache_max_bytes is None,
            r.sensors.tags is None,
            r.sensors.default_tag is None,
            r.sensors.files is None,
    {
        FileConfig {
            server: ServerSection::default(),
            falcon: FalconSection::default(),
            sensors: SensorsSection::default(),
        }
    }
}

} // verus!
