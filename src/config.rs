//! Server and bucket configuration, and where each bucket's storage lives.
use vstd::prelude::*;
use vstd::string::*;
use crate::content::{hex_digit, hex_digit_str};
use crate::kvstorage::KVStorageType;
use crate::locks::LocksType;

verus! {

/// Logging settings: a filter directive and whether to log JSON.
pub struct LoggingConfig {
    pub level: String,
    pub json: bool,
}

/// Connection settings of a networked relational backend.
pub struct PostgresConfig {
    pub host: String,
    pub port: u16,
    pub user: String,
    pub password: String,
    pub dbname: String,
    pub pool_size: u32,
}

/// Settings of an embedded single-file backend.
pub struct SQLiteConfig {
    pub path: String,
    pub pool_size: u32,
}

/// One tenant: its listener, its backend and its lock manager.
pub struct BucketConfig {
    pub name: String,
    pub address: String,
    pub port: u16,
    pub kvstorage_type: KVStorageType,
    pub postgres: Option<PostgresConfig>,
    pub sqlite: Option<SQLiteConfig>,
    pub locks_type: LocksType,
}

/// The whole server configuration.
pub struct Config {
    pub logging: LoggingConfig,
    pub buckets: Vec<BucketConfig>,
}

/// A configuration that cannot be served.
#[derive(Clone, Copy, PartialEq, Eq, Structural, Debug)]
pub enum ConfigError {
    /// The bucket selects the networked backend but has no settings for it.
    MissingPostgres,
    /// The bucket selects the embedded backend but has no settings for it.
    MissingSQLite,
}

/// Decimal digits of `n`, most significant first, without leading zeros.
pub open spec fn decimal(n: nat) -> Seq<char>
    decreases n,
{
    if n < 10 {
        seq![hex_digit(n as int)]
    } else {
        decimal(n / 10) + seq![hex_digit((n % 10) as int)]
    }
}

fn append_decimal(out: &mut String, n: u16)
    ensures
        final(out)@ == old(out)@ + decimal(n as nat),
    decreases n,
{
    if n >= 10 {
        append_decimal(out, n / 10);
    }
    out.append(hex_digit_str((n % 10) as u8));
    proof {
        assert(final(out)@ =~= old(out)@ + decimal(n as nat)) by {
            if n >= 10 {
                assert(decimal(n as nat) == decimal((n / 10) as nat) + seq![hex_digit((n % 10) as int)]);
            }
        }
    }
}

/// `postgres://{user}:{password}@{host}:{port}/{dbname}`.
pub open spec fn postgres_url(c: PostgresConfig) -> Seq<char> {
    "postgres://"@ + c.user@ + ":"@ + c.password@ + "@"@ + c.host@ + ":"@ + decimal(c.port as nat)
        + "/"@ + c.dbname@
}

/// `sqlite://{path}`.
pub open spec fn sqlite_url(c: SQLiteConfig) -> Seq<char> {
    "sqlite://"@ + c.path@
}

impl PostgresConfig {
    /// The connection URL of this database.
    pub fn database_url(&self) -> (r: String)
        ensures
            r@ == postgres_url(*self),
    {
        let mut url = String::from_str("postgres://");
        url.append(self.user.as_str());
        url.append(":");
        url.append(self.password.as_str());
        url.append("@");
        url.append(self.host.as_str());
        url.append(":");
        append_decimal(&mut url, self.port);
        url.append("/");
        url.append(self.dbname.as_str());
        proof {
            assert(url@ =~= postgres_url(*self));
        }
        url
    }
}

impl SQLiteConfig {
    /// The connection URL of this database file.
    pub fn database_url(&self) -> (r: String)
        ensures
            r@ == sqlite_url(*self),
    {
        let mut url = String::from_str("sqlite://");
        url.append(self.path.as_str());
        url
    }
}

/// Where a bucket's relations are kept, ready to connect to.
pub enum StorageTarget {
    /// A networked database reached at `url` through a pool of at most
    /// `pool_size` connections.
    Postgres { url: String, pool_size: u32 },
    /// A database file at `path`, reached at `url` through a pool of at
    /// most `pool_size` connections.
    SQLite { path: String, url: String, pool_size: u32 },
}

impl BucketConfig {
    /// The backend this bucket selects, with its connection settings; an
    /// error when the selected backend has no settings.
    pub fn storage_target(&self) -> (r: Result<StorageTarget, ConfigError>)
        ensures
            self.kvstorage_type == KVStorageType::Postgres ==> match self.postgres {
                Some(c) => r matches Ok(StorageTarget::Postgres { url, pool_size }) && url@
                    == postgres_url(c) && pool_size == c.pool_size,
                None => r == Err::<StorageTarget, ConfigError>(ConfigError::MissingPostgres),
            },
            self.kvstorage_type == KVStorageType::SQLite ==> match self.sqlite {
                Some(c) => r matches Ok(StorageTarget::SQLite { path, url, pool_size }) && path@
                    == c.path@ && url@ == sqlite_url(c) && pool_size == c.pool_size,
                None => r == Err::<StorageTarget, ConfigError>(ConfigError::MissingSQLite),
            },
    {
        match self.kvstorage_type {
            KVStorageType::Postgres => match &self.postgres {
                Some(c) => Ok(StorageTarget::Postgres { url: c.database_url(), pool_size: c.pool_size }),
                None => Err(ConfigError::MissingPostgres),
            },
            KVStorageType::SQLite => match &self.sqlite {
                Some(c) => Ok(
                    StorageTarget::SQLite {
                        path: c.path.clone(),
                        url: c.database_url(),
                        pool_size: c.pool_size,
                    },
                ),
                None => Err(ConfigError::MissingSQLite),
            },
        }
    }
}

} // verus!
