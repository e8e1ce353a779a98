//! Server configuration: where to listen, which database to use, and which
//! blob store holds artifacts.
use vstd::prelude::*;
use vstd::string::StringExecFns;

verus! {

/// The blob store that holds uploaded artifacts.
#[derive(Clone, Copy, Debug, PartialEq, Eq, Structural)]
pub enum ObjectStoreProvider {
    S3,
    Gcs,
    FileSystem,
}

/// The blob store's bucket (or root directory) and provider.
#[derive(Debug, PartialEq, Eq)]
pub struct ObjectStoreConfig {
    pub bucket: String,
    pub provider: ObjectStoreProvider,
}

/// Settings of a server process.
#[derive(Debug, PartialEq, Eq)]
pub struct ServerConfig {
    pub grpc_listen_addr: String,
    pub database_host: String,
    pub database_name: String,
    pub database_username: String,
    pub database_password: String,
    pub object_store: ObjectStoreConfig,
}

/// `postgres://{host}/{name}?user={user}&password={password}`.
pub open spec fn database_url_of(host: Seq<char>, name: Seq<char>, user: Seq<char>, password: Seq<char>) -> Seq<char> {
    "postgres://"@ + host + "/"@ + name + "?user="@ + user + "&password="@ + password
}

impl ServerConfig {
    /// The connection URL of the configured database.
    pub fn database_url(&self) -> (r: String)
        ensures
            r@ == database_url_of(
                self.database_host@,
                self.database_name@,
                self.database_username@,
                self.database_password@,
            ),
    {
        let mut url = String::from_str("postgres://");
        url.append(self.database_host.as_str());
        url.append("/");
        url.append(self.database_name.as_str());
        url.append("?user=");
        url.append(self.database_username.as_str());
        url.append("&password=");
        url.append(self.database_password.as_str());
        url
    }
}

impl Default for ServerConfig {
    /// Listens on 127.0.0.1:8085, uses the `tensorland` database on
    /// localhost:5432, and keeps artifacts under /tmp/modelbox/ on the local
    /// file system.
    fn default() -> (r: Self)
        ensures
            r.grpc_listen_addr@ == "127.0.0.1:8085"@,
            r.database_host@ == "localhost:5432"@,
            r.database_name@ == "tensorland"@,
            r.database_username@ == "postgres"@,
            r.database_password@ == "foo"@,
            r.object_store.bucket@ == "/tmp/modelbox/"@,
            r.object_store.provider == ObjectStoreProvider::FileSystem,
    {
        Self {
            grpc_listen_addr: String::from_str("127.0.0.1:8085"),
            database_host: String::from_str("localhost:5432"),
            database_name: String::from_str("tensorland"),
            database_username: String::from_str("postgres"),
            database_password: String::from_str("foo"),
            object_store: ObjectStoreConfig {
                bucket: String::from_str("/tmp/modelbox/"),
                provider: ObjectStoreProvider::FileSystem,
            },
        }
    }
}

} // verus!
