use vstd::prelude::*;

verus! {

/// Arguments of `pike serve`. All of them are optional: the defaults live
/// in `resolve`, otherwise a default filled in by the argument parser could
/// not be told apart from an explicit flag and would always beat the file.
/// Paths are kept as text.
#[derive(Debug)]
pub struct ServeArgs {
    pub config: Option<String>,
    pub bind: Option<String>,
    pub port: Option<u16>,
    pub addr: Option<String>,
    pub public_url: Option<String>,
    pub token: Option<String>,
    pub timeout: Option<u64>,
    pub max_downloads: Option<u32>,
    pub client_id: Option<String>,
    pub client_secret: Option<String>,
    pub cloud: Option<String>,
    pub cid: Option<String>,
    pub cache_dir: Option<String>,
    pub metadata_ttl: Option<u64>,
    pub cache_max_bytes: Option<u64>,
    pub tags: Option<String>,
    pub no_default_tag: bool,
    pub sensors: Vec<String>,
    pub no_auth: bool,
}

impl Default for ServeArgs {
    fn default() -> (r: Self)
        ensures
            r.config is None,
            r.bind is None,
            r.port is None,
            r.addr is None,
            r.public_url is None,
            r.token is None,
            r.timeout is None,
            r.max_downloads is None,
            r.client_id is None,
            r.client_secret is None,
            r.cloud is None,
            r.cid is None,
            r.cache_dir is None,
            r.metadata_ttl is None,
            r.cache_max_bytes is None,
            r.tags is None,
            !r.no_default_tag,
            r.sensors@.len() == 0,
            !r.no_auth,
    {
        ServeArgs {
            config: None,
            bind: None,
            port: None,
            addr: None,
            public_url: None,
            token: None,
            timeout: None,
            max_downloads: None,
            client_id: None,
            client_secret: None,
            cloud: None,
            cid: None,
            cache_dir: None,
            metadata_ttl: None,
            cache_max_bytes: None,
            tags: None,
            no_default_tag: false,
            sensors: Vec::new(),
            no_auth: false,
        }
    }
}

} // verus!
