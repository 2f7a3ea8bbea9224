//! Server configuration: an immutable value, created once at startup.
//! Loading falls back to built-in defaults when the configuration file
//! is missing or malformed; there is no partial merge.

use vstd::prelude::*;

verus! {

/// Where the server listens.
#[derive(Clone)]
pub struct ServerConfig {
    pub address: String,
    pub port: u16,
}

/// Which directory is served, and which file answers `/`.
#[derive(Clone)]
pub struct ContentConfig {
    pub public_dir: String,
    pub default_file: String,
}

/// The full configuration. It is never mutated after load; each
/// connection handler works from its own snapshot.
#[derive(Clone)]
pub struct NebulaConfig {
    pub server: ServerConfig,
    pub content: ContentConfig,
}

/// The built-in default configuration: `127.0.0.1:7878`, serving
/// `public/` with `index.html` as the default file.
pub open spec fn is_default_config(c: NebulaConfig) -> bool {
    c.server.address@ == "127.0.0.1"@ && c.server.port == 7878 && c.content.public_dir@
        == "public"@ && c.content.default_file@ == "index.html"@
}

impl Default for NebulaConfig {
    fn default() -> (c: Self)
        ensures
            is_default_config(c),
    {
        NebulaConfig {
            server: ServerConfig { address: "127.0.0.1".to_owned(), port: 7878 },
            content: ContentConfig {
                public_dir: "public".to_owned(),
                default_file: "index.html".to_owned(),
            },
        }
    }
}

/// The fallback policy around configuration loading: a configuration
/// that parsed in full is used as it stands; any failure to read or
/// parse the file yields the whole default, never a partial merge.
pub fn config_or_default(parsed: Option<NebulaConfig>) -> (c: NebulaConfig)
    ensures
        parsed is Some ==> c == parsed.unwrap(),
        parsed is None ==> is_default_config(c),
{
    match parsed {
        Some(c) => c,
        None => NebulaConfig::default(),
    }
}

} // verus!
