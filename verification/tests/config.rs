use riffle::config::{
    build_storage_options, extract_azure_account, register_handlers_for, resolve_azure_auth,
    Backend, Config, ConfigError, StorageEnv,
};
use riffle::util::{
    absolute_path, choose_table_url, parse_table_uri, version_to_i64, InvalidTableUri,
};

fn empty_env() -> StorageEnv {
    StorageEnv {
        storage_account: None,
        storage_account_key: None,
        storage_key: None,
        tenant_id: false,
        client_id: false,
        client_secret: false,
        identity_endpoint: false,
        msi_endpoint: false,
        s3_allow_unsafe_rename: false,
    }
}

fn pair(a: &str, b: &str) -> (String, String) {
    (a.to_string(), b.to_string())
}

#[test]
fn detects_backends() {
    assert_eq!(Backend::detect("./data/x.delta"), Backend::LocalFs);
    assert_eq!(Backend::detect("/var/lib/delta"), Backend::LocalFs);
    assert_eq!(Backend::detect("file:///tmp/x"), Backend::LocalFs);
    assert_eq!(
        Backend::detect("abfss://c@acct.dfs.core.windows.net/p"),
        Backend::Azure
    );
    assert_eq!(Backend::detect("s3://bucket/key"), Backend::S3);
    assert_eq!(Backend::detect("gs://bucket/key"), Backend::Gcs);
}

#[test]
fn parses_azure_account() {
    assert_eq!(
        extract_azure_account("abfss://container@myacct.dfs.core.windows.net/path"),
        Some("myacct".to_string())
    );
}

#[test]
fn detects_backends_in_any_case() {
    assert_eq!(Backend::detect("ABFS://c@a.x/p"), Backend::Azure);
    assert_eq!(Backend::detect("Az://c/p"), Backend::Azure);
    assert_eq!(Backend::detect("S3A://b/k"), Backend::S3);
    assert_eq!(Backend::detect("s3"), Backend::LocalFs);
    assert_eq!(Backend::Gcs.label(), "Gcs");
    assert_eq!(Backend::LocalFs.label(), "LocalFs");
}

#[test]
fn account_without_container() {
    assert_eq!(extract_azure_account("az://acct.host/p"), Some("acct".to_string()));
    assert_eq!(extract_azure_account("no scheme"), None);
    assert_eq!(extract_azure_account("az://"), Some(String::new()));
    assert_eq!(extract_azure_account("az://a@b://c"), Some("b".to_string()));
}

#[test]
fn auto_prefers_service_principal_then_managed_identity() {
    let mut env = empty_env();
    assert_eq!(resolve_azure_auth(" AUTO ", &env), "cli");
    env.msi_endpoint = true;
    assert_eq!(resolve_azure_auth("auto", &env), "msi");
    env.tenant_id = true;
    env.client_id = true;
    assert_eq!(resolve_azure_auth("auto", &env), "msi");
    env.client_secret = true;
    assert_eq!(resolve_azure_auth("auto", &env), "env");
    assert_eq!(resolve_azure_auth("KEY", &env), "key");
    assert_eq!(resolve_azure_auth("ÄX", &env), "äx");
}

#[test]
fn storage_options_of_each_backend() {
    let mut env = empty_env();
    let uri = "abfss://c@acct.dfs.core.windows.net/p";
    assert_eq!(build_storage_options("./x", "nonsense", &env), Ok(vec![]));
    assert_eq!(
        build_storage_options(uri, "cli", &env),
        Ok(vec![pair("account_name", "acct"), pair("use_azure_cli", "true")])
    );
    assert_eq!(
        build_storage_options(uri, "msi", &env),
        Ok(vec![pair("account_name", "acct"), pair("use_azure_managed_identity", "true")])
    );
    assert_eq!(build_storage_options(uri, "env", &env), Ok(vec![pair("account_name", "acct")]));
    assert_eq!(build_storage_options(uri, "sp", &env), Ok(vec![pair("account_name", "acct")]));
    let missing = build_storage_options(uri, "key", &env);
    assert_eq!(missing, Err(ConfigError::KeyMissing));
    assert_eq!(
        ConfigError::KeyMissing.message(),
        "azure_auth=key but neither AZURE_STORAGE_ACCOUNT_KEY nor AZURE_STORAGE_KEY is set"
    );
    env.storage_key = Some("k2".to_string());
    assert_eq!(
        build_storage_options(uri, "key", &env),
        Ok(vec![pair("account_name", "acct"), pair("account_key", "k2")])
    );
    env.storage_account_key = Some("k1".to_string());
    assert_eq!(
        build_storage_options(uri, "key", &env),
        Ok(vec![pair("account_name", "acct"), pair("account_key", "k1")])
    );
    let unknown = build_storage_options(uri, "Magic", &env).unwrap_err();
    assert_eq!(
        unknown.message(),
        "Unknown azure_auth 'magic'. Use auto | cli | msi | key | env."
    );
    assert_eq!(build_storage_options("s3://b/k", "cli", &env), Ok(vec![]));
    env.s3_allow_unsafe_rename = true;
    assert_eq!(
        build_storage_options("s3://b/k", "cli", &env),
        Ok(vec![pair("AWS_S3_ALLOW_UNSAFE_RENAME", "true")])
    );
    assert_eq!(build_storage_options("gs://b/k", "cli", &env), Ok(vec![]));
}

#[test]
fn handlers_are_registered_once_per_cloud() {
    let r = register_handlers_for(&vec![
        Backend::Azure,
        Backend::LocalFs,
        Backend::Azure,
        Backend::S3,
        Backend::Gcs,
        Backend::S3,
    ]);
    assert_eq!(r, vec![Backend::Azure, Backend::S3, Backend::Gcs]);
}

fn config(sink_enabled: bool) -> Config {
    Config {
        table_uri: "s3://b/source".to_string(),
        bind_addr: "0.0.0.0:3000".to_string(),
        producer_enabled: true,
        consumer_enabled: true,
        batch_min_rows: 1_000,
        batch_max_rows: 500_000,
        write_interval_secs: 8,
        poll_interval_secs: 3,
        checkpoint_file: "riffle-checkpoint.json".to_string(),
        chunk_target_rows: 50_000,
        merge_threshold_rows: 30_000,
        split_threshold_rows: 100_000,
        azure_auth: "cli".to_string(),
        sink_enabled,
        target_table_uri: "abfss://c@acct.x/t".to_string(),
        sink_mode: "merge".to_string(),
        merge_keys: "event_id".to_string(),
        merge_update_columns: String::new(),
        merge_update_predicate: None,
        merge_delete_predicate: None,
        merge_insert_predicate: None,
    }
}

#[test]
fn configuration_names_backends_and_options() {
    let env = empty_env();
    let cfg = config(true);
    assert_eq!(cfg.backend(), Backend::S3);
    assert_eq!(cfg.target_backend(), Backend::Azure);
    assert_eq!(cfg.register_handlers(), vec![Backend::S3, Backend::Azure]);
    assert_eq!(config(false).register_handlers(), vec![Backend::S3]);
    assert_eq!(cfg.storage_options(&env), Ok(vec![]));
    assert_eq!(
        cfg.target_storage_options(&env),
        Ok(vec![pair("account_name", "acct"), pair("use_azure_cli", "true")])
    );
}

#[test]
fn versions_as_signed_numbers() {
    assert_eq!(version_to_i64(None), -1);
    assert_eq!(version_to_i64(Some(0)), 0);
    assert_eq!(version_to_i64(Some(42)), 42);
    assert_eq!(version_to_i64(Some(u64::MAX)), -1);
    assert_eq!(version_to_i64(Some(1 << 63)), i64::MIN);
}

#[test]
fn table_uris() {
    let f = |uri: &str| parse_table_uri(uri, "/work");
    assert_eq!(f("S3://Bucket/a b"), Ok("s3://Bucket/a%20b".to_string()));
    assert_eq!(f("gs://b/t"), Ok("gs://b/t".to_string()));
    assert_eq!(f("/tmp/a b"), Ok("file:///tmp/a%20b".to_string()));
    assert_eq!(f("/abs/t-1_x.delta"), Ok("file:///abs/t-1_x.delta".to_string()));
    assert_eq!(f("/a/./b//c/"), Ok("file:///a/b/c".to_string()));
    let e = parse_table_uri("data/x", "not absolute").unwrap_err();
    assert_eq!(e, InvalidTableUri { uri: "data/x".to_string() });
    assert_eq!(e.message(), "invalid table URI: data/x");
}

#[test]
fn relative_table_paths_are_seen_from_a_directory() {
    let f = |uri: &str| parse_table_uri(uri, "/work");
    let demo = Ok("file:///work/data/riffle-demo.delta".to_string());
    assert_eq!(f("./data/riffle-demo.delta"), demo);
    assert_eq!(f("data/riffle-demo.delta"), demo);
    assert_eq!(f("./a:b"), Ok("file:///work/a:b".to_string()));
    assert_eq!(f("../t"), Ok("file:///work/../t".to_string()));
    assert_eq!(parse_table_uri("t", "/"), Ok("file:///t".to_string()));
    assert_eq!(absolute_path("/d", "x"), "/d/x");
    assert_eq!(absolute_path("/d", "./x"), "/d/x");
    assert_eq!(absolute_path("/d/", "./x"), "/d/x");
    assert_eq!(absolute_path("/d", "../x"), "/d/../x");
    assert_eq!(absolute_path("/d", "/x"), "/x");
}

#[test]
fn a_url_is_chosen_before_a_path() {
    let a = Some("a".to_string());
    let b = Some("b".to_string());
    assert_eq!(choose_table_url("u", a.clone(), b.clone()), Ok("a".to_string()));
    assert_eq!(choose_table_url("u", None, b), Ok("b".to_string()));
    assert!(choose_table_url("u", None, None).is_err());
}
