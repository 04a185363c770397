//! Runtime configuration shapes. Loading them from disk or the
//! environment is I/O and happens outside the library.

use vstd::prelude::*;

use crate::support::clone_opt_string;

verus! {

/// The resolved runtime configuration.
pub struct ServerConfig {
    /// Path of the configuration root directory.
    pub config_root: String,
    /// Storage backend: `memory` or `file`.
    pub storage_backend: String,
    /// For the file backend: data directory under the config root.
    pub file_data_dir: Option<String>,
    /// Listen address for the server.
    pub listen_addr: String,
    /// Path to a TLS certificate file, when configured.
    pub tls_cert_path: Option<String>,
    /// Path to a TLS private key file, when configured.
    pub tls_key_path: Option<String>,
}

impl Default for ServerConfig {
    /// The development defaults: in-memory storage on the loopback
    /// address.
    fn default() -> (r: Self)
        ensures
            r.config_root@ == "."@,
            r.storage_backend@ == "memory"@,
            r.file_data_dir matches Some(d) && d@ == "data"@,
            r.listen_addr@ == "127.0.0.1:3080"@,
            r.tls_cert_path is None,
            r.tls_key_path is None,
    {
        ServerConfig {
            config_root: ".".to_owned(),
            storage_backend: "memory".to_owned(),
            file_data_dir: Option::Some("data".to_owned()),
            listen_addr: "127.0.0.1:3080".to_owned(),
            tls_cert_path: Option::None,
            tls_key_path: Option::None,
        }
    }
}

impl Clone for ServerConfig {
    /// The copy equals the original, field by field.
    fn clone(&self) -> (r: Self)
        ensures
            r.config_root == self.config_root,
            r.storage_backend == self.storage_backend,
            r.file_data_dir == self.file_data_dir,
            r.listen_addr == self.listen_addr,
            r.tls_cert_path == self.tls_cert_path,
            r.tls_key_path == self.tls_key_path,
    {
        ServerConfig {
            config_root: self.config_root.clone(),
            storage_backend: self.storage_backend.clone(),
            file_data_dir: clone_opt_string(&self.file_data_dir),
            listen_addr: self.listen_addr.clone(),
            tls_cert_path: clone_opt_string(&self.tls_cert_path),
            tls_key_path: clone_opt_string(&self.tls_key_path),
        }
    }
}

/// The shape of the configuration document on disk.
pub struct ConfigFile {
    pub storage: Option<StorageConfig>,
    pub rbac: Option<RbacConfig>,
    pub server: Option<ServerConfigFile>,
    pub tls: Option<TlsConfig>,
}

/// The storage section of the configuration document.
pub struct StorageConfig {
    pub backend: Option<String>,
    pub file_data_dir: Option<String>,
}

/// The RBAC section of the configuration document.
pub struct RbacConfig {
    pub provider: Option<String>,
}

/// The server section of the configuration document.
pub struct ServerConfigFile {
    pub listen_addr: Option<String>,
}

/// The TLS section of the configuration document.
pub struct TlsConfig {
    pub cert_path: Option<String>,
    pub key_path: Option<String>,
}

/// Folds a parsed configuration document over the defaults.
pub fn resolve_config(file: ConfigFile) -> (r: ServerConfig)
    ensures
        r.storage_backend@ == (match file.storage {
            Some(s) => match s.backend {
                Some(b) => b@,
                None => "memory"@,
            },
            None => "memory"@,
        }),
        r.listen_addr@ == (match file.server {
            Some(s) => match s.listen_addr {
                Some(l) => l@,
                None => "127.0.0.1:3080"@,
            },
            None => "127.0.0.1:3080"@,
        }),
        file.tls matches Some(t) ==> r.tls_cert_path == t.cert_path && r.tls_key_path
            == t.key_path,
        file.tls is None ==> r.tls_cert_path is None && r.tls_key_path is None,
{
    let mut cfg = ServerConfig::default();
    match file.storage {
        Option::Some(s) => {
            match s.backend {
                Option::Some(b) => {
                    cfg.storage_backend = b;
                },
                Option::None => {},
            }
            match s.file_data_dir {
                Option::Some(d) => {
                    cfg.file_data_dir = Option::Some(d);
                },
                Option::None => {},
            }
        },
        Option::None => {},
    }
    match file.server {
        Option::Some(s) => {
            match s.listen_addr {
                Option::Some(l) => {
                    cfg.listen_addr = l;
                },
                Option::None => {},
            }
        },
        Option::None => {},
    }
    match file.tls {
        Option::Some(t) => {
            cfg.tls_cert_path = t.cert_path;
            cfg.tls_key_path = t.key_path;
        },
        Option::None => {},
    }
    let _ = file.rbac;
    cfg
}

} // verus!
