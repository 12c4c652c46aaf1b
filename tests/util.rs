use sonicd::error::Error;
use sonicd::json::Json;
use sonicd::util::{build, inject_vars, split_key_value, ClientConfig};

fn sources() -> Vec<(String, Json)> {
    vec![
        ("db".to_string(), Json::Object(vec![("host".to_string(), Json::Str("x".to_string()))])),
        ("bad".to_string(), Json::Str("y".to_string())),
    ]
}

#[test]
fn build_resolves_alias_to_object() {
    let q = build("db".to_string(), sources(), None, "select 1".to_string()).unwrap();
    assert_eq!(q.config, Json::Object(vec![("host".to_string(), Json::Str("x".to_string()))]));
    assert_eq!(q.query, "select 1");
    assert_eq!(q.auth, None);
    assert_eq!(q.id, None);
}

#[test]
fn build_passes_unknown_alias_through() {
    let q = build("unknown_alias".to_string(), sources(), Some("t".to_string()), "select 1".to_string()).unwrap();
    assert_eq!(q.config, Json::Str("unknown_alias".to_string()));
    assert_eq!(q.auth, Some("t".to_string()));
}

#[test]
fn build_rejects_non_object_source() {
    assert_eq!(
        build("bad".to_string(), sources(), None, "q".to_string()),
        Err(Error::OtherError("source 'bad' config is not an object".to_string()))
    );
}

#[test]
fn inject_single_variable() {
    let vars = vec![("T".to_string(), "x".to_string())];
    assert_eq!(inject_vars("select * from ${T}", &vars).unwrap(), "select * from x");
}

#[test]
fn inject_repeated_variables() {
    let query = "select count(*) from ${TABLE} where dt > '${DATECUT}' and dt <= date_sub('${DATECUT}', 30);";
    let vars = vec![
        ("TABLE".to_string(), "accounts".to_string()),
        ("DATECUT".to_string(), "2015-01-02".to_string()),
    ];
    assert_eq!(
        inject_vars(query, &vars).unwrap(),
        "select count(*) from accounts where dt > '2015-01-02' and dt <= date_sub('2015-01-02', 30);"
    );
}

#[test]
fn inject_fails_on_absent_key() {
    let vars = vec![("TABLE".to_string(), "accounts".to_string())];
    assert!(matches!(inject_vars("select count(*) from hamburgers", &vars), Err(Error::OtherError(_))));
}

#[test]
fn inject_fails_on_leftover_marker() {
    let vars = vec![("TABLE".to_string(), "accounts".to_string())];
    assert!(inject_vars("select count(*) from ${TABLE} where ${POTATOES}", &vars).is_err());
}

#[test]
fn split_pairs() {
    let vars = vec!["TABLE=account".to_string(), "DATECUT=2015-09-13".to_string(), "a=b=c".to_string()];
    let r = split_key_value(&vars).unwrap();
    assert_eq!(r[0], ("TABLE".to_string(), "account".to_string()));
    assert_eq!(r[1], ("DATECUT".to_string(), "2015-09-13".to_string()));
    assert_eq!(r[2], ("a".to_string(), "b".to_string()));
}

#[test]
fn split_without_equals_fails() {
    assert_eq!(
        split_key_value(&vec!["a=b".to_string(), "key val".to_string(), "x y".to_string()]),
        Err(Error::OtherError("Cannot split key val. It should follow format 'key=value'".to_string()))
    );
}

#[test]
fn empty_client_config() {
    let c = ClientConfig::empty();
    assert_eq!(c.sonicd, "0.0.0.0");
    assert_eq!(c.http_port, 9111);
    assert_eq!(c.tcp_port, 10001);
    assert!(c.sources.is_empty());
    assert_eq!(c.auth, None);
}
