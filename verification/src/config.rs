use vstd::prelude::*;

verus! {

/// The command-line options, exactly as given: the proxy flag still a
/// string, the upstream address still optional. Reading them off the
/// process's arguments happens outside the library; the library only turns
/// them into a `Config`.
pub struct CliOption {
    pub host: String,
    pub port: i32,
    pub enable_proxy: String,
    pub proxy_host: Option<String>,
    pub proxy_port: Option<i32>,
}

/// The proxy's configuration, immutable per connection: where to listen,
/// and whether — and where — to forward everything to an upstream proxy.
#[derive(Clone, Debug)]
pub struct Config {
    pub host: String,
    pub port: i32,
    pub enable_proxy: bool,
    pub proxy_host: String,
    pub proxy_port: i32,
}

impl Config {
    /// A configuration from its five parts, kept exactly.
    pub fn new(host: String, port: i32, enable_proxy: bool, proxy_host: String, proxy_port: i32)
        -> (c: Config)
        ensures
            c.host@ == host@,
            c.port == port,
            c.enable_proxy == enable_proxy,
            c.proxy_host@ == proxy_host@,
            c.proxy_port == proxy_port,
    {
        Config { host, port, enable_proxy, proxy_host, proxy_port }
    }

    /// The configuration the command-line options denote: proxying is
    /// enabled exactly when the flag reads `true`, and an absent upstream
    /// host or port becomes the empty string or zero.
    pub fn from_cli(cli: CliOption) -> (c: Config)
        ensures
            c.host@ == cli.host@,
            c.port == cli.port,
            c.enable_proxy == (cli.enable_proxy@ == "true"@),
            c.proxy_host@ == (match cli.proxy_host {
                Some(p) => p@,
                None => Seq::<char>::empty(),
            }),
            c.proxy_port == (match cli.proxy_port {
                Some(p) => p,
                None => 0,
            }),
    {
        let truth = String::from_str("true");
        let enable_proxy = cli.enable_proxy == truth;
        let proxy_host = match cli.proxy_host {
            Some(p) => p,
            None => String::new(),
        };
        let proxy_port = match cli.proxy_port {
            Some(p) => p,
            None => 0,
        };
        Config { host: cli.host, port: cli.port, enable_proxy, proxy_host, proxy_port }
    }
}

impl Default for Config {
    /// Listen on 127.0.0.1:8080, proxying disabled.
    fn default() -> (c: Config)
        ensures
            c.host@ == "127.0.0.1"@,
            c.port == 8080,
            !c.enable_proxy,
            c.proxy_host@ == Seq::<char>::empty(),
            c.proxy_port == 0,
    {
        Config {
            host: String::from_str("127.0.0.1"),
            port: 8080,
            enable_proxy: false,
            proxy_host: String::new(),
            proxy_port: 0,
        }
    }
}

} // verus!
