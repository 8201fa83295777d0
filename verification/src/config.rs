//! Configuration: defaults, and where the file is.
use crate::common::SOCKET_PATH_STR;
use vstd::prelude::*;

verus! {

/// The bit pattern of 1.0 as an `f64`.
pub const UNITY_VOLUME: u64 = 0x3ff0_0000_0000_0000;

pub const DEFAULT_MIX_RATE: u32 = 48000;

pub const DEFAULT_MAX_CLIENTS: usize = 8;

pub const DEFAULT_CLIENT_RING_BYTES: usize = 65536;

pub const DEFAULT_RING_BUFFER_SIZE: usize = 1048576;

pub struct ServerConfig {
    /// Unix socket that the server binds.
    pub socket_path: String,
    /// Startup volume as a gain factor, as the bit pattern of an `f64`.
    pub volume: u64,
    /// Rate of the mix; every client is resampled to it.
    pub mix_rate: u32,
    /// Concurrent streams.
    pub max_clients: usize,
    /// Ring capacity per client, in bytes.
    pub client_ring_bytes: usize,
    /// `"sinc"` or `"linear"`.
    pub resampler: String,
}

pub struct ShimConfig {
    /// Ring capacity per handle, in bytes.
    pub ring_buffer_size: usize,
}

pub struct Config {
    pub server: ServerConfig,
    pub shim: ShimConfig,
}

/// The server section of a file: what it sets.
pub struct ServerSection {
    pub socket_path: Option<String>,
    pub volume: Option<u64>,
    pub mix_rate: Option<u32>,
    pub max_clients: Option<usize>,
    pub client_ring_bytes: Option<usize>,
    pub resampler: Option<String>,
}

/// The shim section of a file: what it sets.
pub struct ShimSection {
    pub ring_buffer_size: Option<usize>,
}

/// A file: the sections that it has.
pub struct ConfigFile {
    pub server: Option<ServerSection>,
    pub shim: Option<ShimSection>,
}

pub fn default_socket_path() -> (s: String)
    ensures
        s@ == SOCKET_PATH_STR@,
{
    SOCKET_PATH_STR.to_owned()
}

pub fn default_volume() -> (v: u64)
    ensures
        v == UNITY_VOLUME,
{
    UNITY_VOLUME
}

pub fn default_mix_rate() -> (v: u32)
    ensures
        v == DEFAULT_MIX_RATE,
{
    DEFAULT_MIX_RATE
}

pub fn default_max_clients() -> (v: usize)
    ensures
        v == DEFAULT_MAX_CLIENTS,
{
    DEFAULT_MAX_CLIENTS
}

pub fn default_client_ring_bytes() -> (v: usize)
    ensures
        v == DEFAULT_CLIENT_RING_BYTES,
{
    DEFAULT_CLIENT_RING_BYTES
}

pub fn default_resampler() -> (s: String)
    ensures
        s@ == "sinc"@,
{
    "sinc".to_owned()
}

pub fn default_ring_buffer_size() -> (v: usize)
    ensures
        v == DEFAULT_RING_BUFFER_SIZE,
{
    DEFAULT_RING_BUFFER_SIZE
}

/// What a string option is set to, or its default.
pub open spec fn text_or(o: Option<String>, default: Seq<char>) -> Seq<char> {
    match o {
        Some(s) => s@,
        None => default,
    }
}

/// Whether `c` is what a server section makes of the defaults.
pub open spec fn server_follows(s: ServerSection, c: ServerConfig) -> bool {
    &&& c.socket_path@ == text_or(s.socket_path, SOCKET_PATH_STR@)
    &&& c.volume == s.volume.unwrap_or(UNITY_VOLUME)
    &&& c.mix_rate == s.mix_rate.unwrap_or(DEFAULT_MIX_RATE)
    &&& c.max_clients == s.max_clients.unwrap_or(DEFAULT_MAX_CLIENTS)
    &&& c.client_ring_bytes == s.client_ring_bytes.unwrap_or(DEFAULT_CLIENT_RING_BYTES)
    &&& c.resampler@ == text_or(s.resampler, "sinc"@)
}

/// The defaults of the server section.
pub open spec fn is_server_default(c: ServerConfig) -> bool {
    &&& c.socket_path@ == SOCKET_PATH_STR@
    &&& c.volume == UNITY_VOLUME
    &&& c.mix_rate == DEFAULT_MIX_RATE
    &&& c.max_clients == DEFAULT_MAX_CLIENTS
    &&& c.client_ring_bytes == DEFAULT_CLIENT_RING_BYTES
    &&& c.resampler@ == "sinc"@
}

impl Default for ServerConfig {
    fn default() -> (c: Self)
        ensures
            is_server_default(c),
    {
        ServerConfig {
            socket_path: default_socket_path(),
            volume: default_volume(),
            mix_rate: default_mix_rate(),
            max_clients: default_max_clients(),
            client_ring_bytes: default_client_ring_bytes(),
            resampler: default_resampler(),
        }
    }
}

impl Default for ShimConfig {
    fn default() -> (c: Self)
        ensures
            c.ring_buffer_size == DEFAULT_RING_BUFFER_SIZE,
    {
        ShimConfig { ring_buffer_size: default_ring_buffer_size() }
    }
}

impl Default for Config {
    fn default() -> (c: Self)
        ensures
            is_server_default(c.server),
            c.shim.ring_buffer_size == DEFAULT_RING_BUFFER_SIZE,
    {
        Config { server: ServerConfig::default(), shim: ShimConfig::default() }
    }
}

impl ServerSection {
    /// Fill in the defaults.
    pub fn resolve(self) -> (c: ServerConfig)
        ensures
            server_follows(self, c),
    {
        ServerConfig {
            socket_path: match self.socket_path {
                Some(s) => s,
                None => default_socket_path(),
            },
            volume: match self.volume {
                Some(v) => v,
                None => default_volume(),
            },
            mix_rate: match self.mix_rate {
                Some(v) => v,
                None => default_mix_rate(),
            },
            max_clients: match self.max_clients {
                Some(v) => v,
                None => default_max_clients(),
            },
            client_ring_bytes: match self.client_ring_bytes {
                Some(v) => v,
                None => default_client_ring_bytes(),
            },
            resampler: match self.resampler {
                Some(s) => s,
                None => default_resampler(),
            },
        }
    }
}

/// The configuration in force. A file that is missing or cannot be read counts
/// as empty; every section and every key of it is optional.
pub fn load_config(file: Option<ConfigFile>) -> (c: Config)
    ensures
        match file {
            Some(f) => {
                &&& match f.server {
                    Some(s) => server_follows(s, c.server),
                    None => is_server_default(c.server),
                }
                &&& c.shim.ring_buffer_size == match f.shim {
                    Some(s) => s.ring_buffer_size.unwrap_or(DEFAULT_RING_BUFFER_SIZE),
                    None => DEFAULT_RING_BUFFER_SIZE,
                }
            },
            None => {
                &&& is_server_default(c.server)
                &&& c.shim.ring_buffer_size == DEFAULT_RING_BUFFER_SIZE
            },
        },
{
    match file {
        None => Config::default(),
        Some(f) => Config {
            server: match f.server {
                Some(s) => s.resolve(),
                None => ServerConfig::default(),
            },
            shim: match f.shim {
                Some(s) => ShimConfig {
                    ring_buffer_size: match s.ring_buffer_size {
                        Some(v) => v,
                        None => default_ring_buffer_size(),
                    },
                },
                None => ShimConfig::default(),
            },
        },
    }
}

/// Where the file is: the path in `AUDIOD_CONFIG`, else
/// `.config/audiod/config.toml` under the home directory, or under `/tmp`
/// where that is not known.
pub open spec fn path_spec(env: Option<Seq<char>>, home: Option<Seq<char>>) -> Seq<char> {
    match env {
        Some(p) => p,
        None => {
            let dir = match home {
                Some(h) => h,
                None => "/tmp"@,
            };
            if dir.len() == 0 || dir.last() == '/' {
                dir + ".config/audiod/config.toml"@
            } else {
                dir + "/"@ + ".config/audiod/config.toml"@
            }
        },
    }
}

/// The contents of an optional string.
pub open spec fn opt_text(s: Option<&str>) -> Option<Seq<char>> {
    match s {
        Some(t) => Some(t@),
        None => None,
    }
}

/// Where the configuration file is, given the two environment variables.
pub fn config_path(env: Option<&str>, home: Option<&str>) -> (p: String)
    ensures
        p@ == path_spec(opt_text(env), opt_text(home)),
{
    if let Some(path) = env {
        return path.to_owned();
    }
    let dir: &str = match home {
        Some(h) => h,
        None => "/tmp",
    };
    let mut p = dir.to_owned();
    let n: usize = dir.unicode_len();
    if !(n == 0 || dir.get_char(n - 1) == '/') {
        p.append("/");
    }
    p.append(".config/audiod/config.toml");
    p
}

/// What a file sets holds, key by key, and every key that it does not set has
/// its default.
pub proof fn law_keys_are_independent(s: ServerSection, c: ServerConfig)
    requires
        server_follows(s, c),
    ensures
        c.socket_path@ == match s.socket_path {
            Some(x) => x@,
            None => "/tmp/audiod.sock"@,
        },
        s.volume matches Some(x) ==> c.volume == x,
        s.volume is None ==> c.volume == 0x3ff0_0000_0000_0000,
        s.mix_rate matches Some(x) ==> c.mix_rate == x,
        s.mix_rate is None ==> c.mix_rate == 48000,
        s.max_clients matches Some(x) ==> c.max_clients == x,
        s.max_clients is None ==> c.max_clients == 8,
        s.client_ring_bytes matches Some(x) ==> c.client_ring_bytes == x,
        s.client_ring_bytes is None ==> c.client_ring_bytes == 65536,
        c.resampler@ == match s.resampler {
            Some(x) => x@,
            None => "sinc"@,
        },
{
}

/// A section that is missing counts as one that sets nothing.
pub proof fn law_missing_section(s: ServerSection, c: ServerConfig)
    requires
        s.socket_path is None && s.volume is None && s.mix_rate is None,
        s.max_clients is None && s.client_ring_bytes is None && s.resampler is None,
    ensures
        server_follows(s, c) <==> is_server_default(c),
        DEFAULT_RING_BUFFER_SIZE == 1024 * 1024,
{
}

/// The variable names the file; else the file lies below the home directory,
/// with exactly one slash between where the directory ends in none.
pub proof fn law_config_path(env: Seq<char>, home: Seq<char>)
    requires
        home.len() > 0,
        home.last() != '/',
    ensures
        path_spec(Some(env), Some(home)) == env,
        path_spec(Some(env), None) == env,
        path_spec(None, Some(home)) == home + "/.config/audiod/config.toml"@,
        path_spec(None, Some(home.push('/'))) == path_spec(None, Some(home)),
        path_spec(None, None) == "/tmp/.config/audiod/config.toml"@,
{
    reveal_strlit("/");
    reveal_strlit("/tmp");
    reveal_strlit(".config/audiod/config.toml");
    reveal_strlit("/.config/audiod/config.toml");
    reveal_strlit("/tmp/.config/audiod/config.toml");
    assert("/"@ + ".config/audiod/config.toml"@ =~= "/.config/audiod/config.toml"@);
    assert(path_spec(None, Some(home)) =~= home + "/.config/audiod/config.toml"@);
    assert(path_spec(None, Some(home.push('/'))) =~= home + "/.config/audiod/config.toml"@);
    assert(path_spec(None, None) =~= "/tmp/.config/audiod/config.toml"@);
}

} // verus!
