use vstd::prelude::*;

verus! {

/// Whether connections are kept open between requests, and on what terms.
#[derive(Debug, Copy, Clone, PartialEq, Eq, Structural)]
pub enum KeepAliveConfig {
    Off,
    On { max_requests: u8, timeout: u8, include_header: bool },
}

impl KeepAliveConfig {
    /// Keep-alive on: at most 100 requests, 10 s timeout, header advertised.
    pub fn default_on() -> (r: Self)
        ensures
            r == (KeepAliveConfig::On { max_requests: 100, timeout: 10, include_header: true }),
    {
        KeepAliveConfig::On { max_requests: 100, timeout: 10, include_header: true }
    }
}

impl Default for KeepAliveConfig {
    fn default() -> (r: Self)
        ensures
            r == (KeepAliveConfig::On { max_requests: 100, timeout: 10, include_header: true }),
    {
        KeepAliveConfig::default_on()
    }
}

/// The server's settings, fixed for its lifetime.
#[derive(Debug, Clone)]
pub struct ServerConfig {
    pub root: String,
    pub port: u32,
    pub https: bool,
    pub cert_path: Option<String>,
    pub key_path: Option<String>,
    pub keep_alive: KeepAliveConfig,
    pub timeout: u8,
    pub rules_path: Option<String>,
}

impl ServerConfig {
    /// Root `web`, port 80, no TLS, default keep-alive, 10 s timeout, no rules.
    pub fn default_config() -> (r: Self)
        ensures
            r.root@ == "web"@,
            r.port == 80,
            !r.https,
            r.cert_path is None,
            r.key_path is None,
            r.keep_alive == (KeepAliveConfig::On { max_requests: 100, timeout: 10, include_header: true }),
            r.timeout == 10,
            r.rules_path is None,
    {
        ServerConfig {
            root: "web".to_owned(),
            port: 80,
            https: false,
            cert_path: None,
            key_path: None,
            keep_alive: KeepAliveConfig::default_on(),
            timeout: 10,
            rules_path: None,
        }
    }

    /// The idle read timeout in seconds: the keep-alive timeout when
    /// keep-alive is on, the general timeout otherwise.
    pub fn read_timeout(&self) -> (r: u8)
        ensures
            r == match self.keep_alive {
                KeepAliveConfig::On { timeout, .. } => timeout,
                KeepAliveConfig::Off => self.timeout,
            },
    {
        match self.keep_alive {
            KeepAliveConfig::On { timeout, .. } => timeout,
            KeepAliveConfig::Off => self.timeout,
        }
    }
}

impl Default for ServerConfig {
    fn default() -> (r: Self)
        ensures
            r.root@ == "web"@,
            r.port == 80,
            !r.https,
            r.keep_alive == (KeepAliveConfig::On { max_requests: 100, timeout: 10, include_header: true }),
            r.timeout == 10,
    {
        ServerConfig::default_config()
    }
}

/// Builds a configuration from the defaults.
pub struct ServerConfigBuilder {
    server_config: ServerConfig,
}

impl View for ServerConfigBuilder {
    type V = ServerConfig;

    closed spec fn view(&self) -> ServerConfig {
        self.server_config
    }
}

impl ServerConfigBuilder {
    pub fn new() -> (r: Self)
        ensures
            r@.root@ == "web"@,
            r@.port == 80,
            !r@.https,
            r@.cert_path is None,
            r@.key_path is None,
            r@.keep_alive == (KeepAliveConfig::On { max_requests: 100, timeout: 10, include_header: true }),
            r@.timeout == 10,
            r@.rules_path is None,
    {
        ServerConfigBuilder { server_config: ServerConfig::default_config() }
    }

    pub fn root(self, root: &str) -> (r: Self)
        ensures
            r@ == (ServerConfig { root: r@.root, ..self@ }),
            r@.root@ == root@,
    {
        let mut b = self;
        b.server_config.root = root.to_owned();
        b
    }

    pub fn port(self, port: u32) -> (r: Self)
        ensures
            r@ == (ServerConfig { port, ..self@ }),
    {
        let mut b = self;
        b.server_config.port = port;
        b
    }

    pub fn https(self, https: bool) -> (r: Self)
        ensures
            r@ == (ServerConfig { https, ..self@ }),
    {
        let mut b = self;
        b.server_config.https = https;
        b
    }

    pub fn cert_path(self, cert_path: &str) -> (r: Self)
        ensures
            r@ == (ServerConfig { cert_path: r@.cert_path, ..self@ }),
            r@.cert_path matches Some(p) && p@ == cert_path@,
    {
        let mut b = self;
        b.server_config.cert_path = Some(cert_path.to_owned());
        b
    }

    pub fn key_path(self, key_path: &str) -> (r: Self)
        ensures
            r@ == (ServerConfig { key_path: r@.key_path, ..self@ }),
            r@.key_path matches Some(p) && p@ == key_path@,
    {
        let mut b = self;
        b.server_config.key_path = Some(key_path.to_owned());
        b
    }

    pub fn keep_alive(self, keep_alive_config: KeepAliveConfig) -> (r: Self)
        ensures
            r@ == (ServerConfig { keep_alive: keep_alive_config, ..self@ }),
    {
        let mut b = self;
        b.server_config.keep_alive = keep_alive_config;
        b
    }

    pub fn timeout(self, timeout: u8) -> (r: Self)
        ensures
            r@ == (ServerConfig { timeout, ..self@ }),
    {
        let mut b = self;
        b.server_config.timeout = timeout;
        b
    }

    pub fn rules_path(self, rules_path: &str) -> (r: Self)
        ensures
            r@ == (ServerConfig { rules_path: r@.rules_path, ..self@ }),
            r@.rules_path matches Some(p) && p@ == rules_path@,
    {
        let mut b = self;
        b.server_config.rules_path = Some(rules_path.to_owned());
        b
    }

    pub fn get(self) -> (r: ServerConfig)
        ensures
            r == self@,
    {
        self.server_config
    }
}

} // verus!
