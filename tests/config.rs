use modelbox::client::{ClientConfig, ModelBoxClient};
use modelbox::server_config::{ObjectStoreConfig, ObjectStoreProvider, ServerConfig};

fn yaml_str(v: &serde_yaml::Value, key: &str) -> String {
    v[key].as_str().unwrap().to_string()
}

#[test]
fn valid_yaml() {
    let valid_config = "---\ngrpc_listen_addr: \"127.0.0.1:9089\"\ndatabase_host: \"localhost:5234\"\ndatabase_name: \"tensorland\"\ndatabase_username: \"postgres\"\ndatabase_password: \"foo\"\nobject_store:\n    bucket: \"/tmp/modelbox/\"\n    provider: FileSystem\n";
    let v: serde_yaml::Value = serde_yaml::from_str(valid_config).unwrap();
    let store = &v["object_store"];
    let provider = match store["provider"].as_str().unwrap() {
        "S3" => ObjectStoreProvider::S3,
        "Gcs" => ObjectStoreProvider::Gcs,
        _ => ObjectStoreProvider::FileSystem,
    };
    let config = ServerConfig {
        grpc_listen_addr: yaml_str(&v, "grpc_listen_addr"),
        database_host: yaml_str(&v, "database_host"),
        database_name: yaml_str(&v, "database_name"),
        database_username: yaml_str(&v, "database_username"),
        database_password: yaml_str(&v, "database_password"),
        object_store: ObjectStoreConfig { bucket: yaml_str(store, "bucket"), provider },
    };
    assert_eq!(
        config.database_url(),
        "postgres://localhost:5234/tensorland?user=postgres&password=foo"
    );
    assert_eq!(config.grpc_listen_addr, "127.0.0.1:9089");
    assert!(matches!(config.object_store.provider, ObjectStoreProvider::FileSystem));
    assert_eq!(config.object_store.bucket, "/tmp/modelbox/")
}

#[test]
fn default_config() {
    let config = ServerConfig::default();
    assert_eq!(config.grpc_listen_addr, "127.0.0.1:8085");
    assert_eq!(config.database_url(), "postgres://localhost:5432/tensorland?user=postgres&password=foo");
    assert_eq!(config.object_store.provider, ObjectStoreProvider::FileSystem);
    assert_eq!(config.object_store.bucket, "/tmp/modelbox/");
}

#[test]
fn client_defaults() {
    let c = ClientConfig::new("ignored".to_string());
    assert_eq!(c.server_addr, ":8085");
    let _ = ModelBoxClient::new();
}
