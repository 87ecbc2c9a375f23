//! The server's configuration: which values are required, and what stands in
//! for those that may be left out.

use vstd::prelude::*;
use vstd::string::*;

verus! {

/// The address and port to listen on.
#[derive(Clone, Copy, Debug, PartialEq, Eq, Structural)]
pub enum BindAddr {
    /// An IPv4 address, by its four octets, and a port.
    V4 { a: u8, b: u8, c: u8, d: u8, port: u16 },
    /// An IPv6 address, by its 128 bits, with port, flow information and scope.
    V6 { bits: u128, port: u16, flowinfo: u32, scope_id: u32 },
}

/// The options that must be given.
#[derive(Clone, Copy, Debug, PartialEq, Eq, Structural)]
pub enum Flag {
    Store,
    Cert,
    Key,
    Ca,
    OidcLabel,
    OidcIssuer,
    OidcClient,
}

/// Why a set of option values makes no configuration.
#[derive(Clone, Copy, Debug, PartialEq, Eq, Structural)]
pub enum UsageError {
    /// A required option was not given.
    MissingRequired(Flag),
}

/// The value of each option as the command line gave it, `None` where it
/// was left out.
#[derive(Debug)]
pub struct RawArgs {
    pub addr: Option<BindAddr>,
    pub store: Option<String>,
    pub cert: Option<String>,
    pub key: Option<String>,
    pub ca: Option<String>,
    pub oidc_label: Option<String>,
    pub oidc_issuer: Option<String>,
    pub oidc_client: Option<String>,
    pub oidc_secret: Option<String>,
}

/// The configuration of a server: made once at startup, never changed.
#[derive(Debug)]
pub struct ServerConfig {
    /// Address to bind to.
    pub addr: BindAddr,
    /// Path to the store.
    pub store: String,
    /// Path to the PEM-encoded server certificate.
    pub cert: String,
    /// Path to the PEM-encoded server certificate key.
    pub key: String,
    /// Path to the PEM-encoded trusted CA certificate.
    pub ca: String,
    /// OpenID Connect provider label.
    pub oidc_label: String,
    /// OpenID Connect issuer URL.
    pub oidc_issuer: String,
    /// OpenID Connect client ID.
    pub oidc_client: String,
    /// OpenID Connect secret.
    pub oidc_secret: Option<String>,
}

/// The address used where none is given: the unspecified IPv4 address, port 8080.
pub open spec fn default_addr() -> BindAddr {
    BindAddr::V4 { a: 0, b: 0, c: 0, d: 0, port: 8080 }
}

/// Whether `raw` gives a value for the required option `flag`.
pub open spec fn is_given(raw: RawArgs, flag: Flag) -> bool {
    match flag {
        Flag::Store => raw.store is Some,
        Flag::Cert => raw.cert is Some,
        Flag::Key => raw.key is Some,
        Flag::Ca => raw.ca is Some,
        Flag::OidcLabel => raw.oidc_label is Some,
        Flag::OidcIssuer => raw.oidc_issuer is Some,
        Flag::OidcClient => raw.oidc_client is Some,
    }
}

/// The first required option, in the order of [`Flag`], that `raw` leaves out.
pub open spec fn first_missing(raw: RawArgs) -> Option<Flag> {
    if raw.store is None {
        Some(Flag::Store)
    } else if raw.cert is None {
        Some(Flag::Cert)
    } else if raw.key is None {
        Some(Flag::Key)
    } else if raw.ca is None {
        Some(Flag::Ca)
    } else if raw.oidc_label is None {
        Some(Flag::OidcLabel)
    } else if raw.oidc_issuer is None {
        Some(Flag::OidcIssuer)
    } else if raw.oidc_client is None {
        Some(Flag::OidcClient)
    } else {
        None
    }
}

/// The configuration that `raw` stands for, or the reason why it stands for none.
pub open spec fn resolve(raw: RawArgs) -> Result<ServerConfig, UsageError> {
    match first_missing(raw) {
        Some(flag) => Err(UsageError::MissingRequired(flag)),
        None => Ok(
            ServerConfig {
                addr: match raw.addr {
                    Some(addr) => addr,
                    None => default_addr(),
                },
                store: raw.store->0,
                cert: raw.cert->0,
                key: raw.key->0,
                ca: raw.ca->0,
                oidc_label: raw.oidc_label->0,
                oidc_issuer: raw.oidc_issuer->0,
                oidc_client: raw.oidc_client->0,
                oidc_secret: raw.oidc_secret,
            },
        ),
    }
}

/// The option's name as it is written on the command line.
pub open spec fn flag_text(flag: Flag) -> Seq<char> {
    match flag {
        Flag::Store => "--store"@,
        Flag::Cert => "--cert"@,
        Flag::Key => "--key"@,
        Flag::Ca => "--ca"@,
        Flag::OidcLabel => "--oidc-label"@,
        Flag::OidcIssuer => "--oidc-issuer"@,
        Flag::OidcClient => "--oidc-client"@,
    }
}

impl BindAddr {
    /// The address used where none is given.
    pub fn unspecified() -> (addr: BindAddr)
        ensures
            addr == default_addr(),
    {
        BindAddr::V4 { a: 0, b: 0, c: 0, d: 0, port: 8080 }
    }
}

impl Flag {
    /// The option's name as it is written on the command line.
    pub fn name(self) -> (text: &'static str)
        ensures
            text@ == flag_text(self),
    {
        match self {
            Flag::Store => "--store",
            Flag::Cert => "--cert",
            Flag::Key => "--key",
            Flag::Ca => "--ca",
            Flag::OidcLabel => "--oidc-label",
            Flag::OidcIssuer => "--oidc-issuer",
            Flag::OidcClient => "--oidc-client",
        }
    }
}

impl UsageError {
    /// The diagnostic for this error.
    pub fn message(self) -> (text: String)
        ensures
            text@ == "missing required argument: "@ + flag_text(self->MissingRequired_0),
    {
        match self {
            UsageError::MissingRequired(flag) => String::from_str(
                "missing required argument: ",
            ).concat(flag.name()),
        }
    }
}

impl ServerConfig {
    /// Makes the configuration from the options' values: every required
    /// option must be given, and the address falls back to its default.
    pub fn from_raw(raw: RawArgs) -> (config: Result<ServerConfig, UsageError>)
        ensures
            config == resolve(raw),
    {
        let RawArgs {
            addr,
            store,
            cert,
            key,
            ca,
            oidc_label,
            oidc_issuer,
            oidc_client,
            oidc_secret,
        } = raw;
        let store: String = match store {
            Some(v) => v,
            None => return Err(UsageError::MissingRequired(Flag::Store)),
        };
        let cert: String = match cert {
            Some(v) => v,
            None => return Err(UsageError::MissingRequired(Flag::Cert)),
        };
        let key: String = match key {
            Some(v) => v,
            None => return Err(UsageError::MissingRequired(Flag::Key)),
        };
        let ca: String = match ca {
            Some(v) => v,
            None => return Err(UsageError::MissingRequired(Flag::Ca)),
        };
        let oidc_label: String = match oidc_label {
            Some(v) => v,
            None => return Err(UsageError::MissingRequired(Flag::OidcLabel)),
        };
        let oidc_issuer: String = match oidc_issuer {
            Some(v) => v,
            None => return Err(UsageError::MissingRequired(Flag::OidcIssuer)),
        };
        let oidc_client: String = match oidc_client {
            Some(v) => v,
            None => return Err(UsageError::MissingRequired(Flag::OidcClient)),
        };
        let addr: BindAddr = match addr {
            Some(a) => a,
            None => BindAddr::unspecified(),
        };
        Ok(
            ServerConfig {
                addr,
                store,
                cert,
                key,
                ca,
                oidc_label,
                oidc_issuer,
                oidc_client,
                oidc_secret,
            },
        )
    }
}

/// Without an address among the options, a configuration binds to the
/// unspecified IPv4 address on port 8080.
pub proof fn lemma_address_defaults(raw: RawArgs)
    requires
        raw.addr is None,
    ensures
        resolve(raw) is Ok ==> resolve(raw)->Ok_0.addr == (BindAddr::V4 {
            a: 0,
            b: 0,
            c: 0,
            d: 0,
            port: 8080,
        }),
{
}

/// Options that leave out a required one make no configuration, and options
/// that give every required one make one.
pub proof fn lemma_required_options(raw: RawArgs)
    ensures
        (exists|flag: Flag| !is_given(raw, flag)) <==> resolve(raw) is Err,
        resolve(raw) is Err ==> !is_given(raw, resolve(raw)->Err_0->MissingRequired_0),
{
    if resolve(raw) is Err {
        assert(!is_given(raw, first_missing(raw)->0));
    }
    if exists|flag: Flag| !is_given(raw, flag) {
        let flag = choose|flag: Flag| !is_given(raw, flag);
        assert(!is_given(raw, flag));
    }
}

} // verus!
