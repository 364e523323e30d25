use mog::git::GitInfo;
use mog::props::{assignments, distinct_keys, join_command, ExecutionProperties, PropertyType, PropertyValue};
use mog::run::{ExecState, KeyValue, RunError, RunOpt};
use mog::util::MetadataStoreOpt;

fn kv(k: &str, v: &str) -> KeyValue {
    KeyValue { key: k.to_string(), value: v.to_string() }
}

fn opt(name: &str, args: &[&str]) -> RunOpt {
    RunOpt {
        mlmd: MetadataStoreOpt { database: "sqlite::memory:".to_string() },
        envs: vec![],
        secret_envs: vec![],
        custom_properties: vec![],
        execution_name: None,
        execution_id_envvar: "MLMD_EXECUTION_ID".to_string(),
        context_name: None,
        storage: None,
        result_dir: None,
        sweep_result_dir: false,
        forbid_dirty: false,
        command_name: name.to_string(),
        command_args: args.iter().map(|a| a.to_string()).collect(),
    }
}

fn git(dirty: bool) -> GitInfo {
    GitInfo::new(
        "0123456789abcdef0123456789abcdef01234567".to_string(),
        Some("git@github.com:owner/repo.git".to_string()),
        if dirty { 2 } else { 0 },
        Some("/w".to_string()),
        "/w/sub",
    )
    .unwrap()
}

fn values(p: &ExecutionProperties) -> Vec<(String, String)> {
    p.property_values()
        .into_iter()
        .map(|(k, v)| match v {
            PropertyValue::Int(i) => (k, format!("int:{i}")),
            PropertyValue::String(s) => (k, s),
        })
        .collect()
}

fn lookup<'a>(v: &'a [(String, String)], k: &str) -> Option<&'a str> {
    v.iter().find(|(n, _)| n == k).map(|(_, x)| x.as_str())
}

#[test]
fn command_line_joins_with_single_spaces() {
    let args = vec!["a".to_string(), "b c".to_string()];
    assert_eq!(join_command(&"echo".to_string(), &args), "echo a b c");
    assert_eq!(join_command(&"true".to_string(), &vec![]), "true");
}

#[test]
fn plain_assignments_keep_last_value_per_key() {
    let m = assignments(&vec![kv("A", "1"), kv("B", "2"), kv("A", "3")]);
    assert_eq!(m, vec![("A".to_string(), "3".to_string()), ("B".to_string(), "2".to_string())]);
    assert!(assignments(&vec![]).is_empty());
}

#[test]
fn secret_keys_are_kept_once() {
    let k = distinct_keys(&vec![kv("T", "x"), kv("U", "y"), kv("T", "z")]);
    assert_eq!(k, vec!["T".to_string(), "U".to_string()]);
}

#[test]
fn keys_are_ordered_by_code_point() {
    let k = distinct_keys(&vec![kv("b", "1"), kv("B", "2"), kv("a", "3"), kv("é", "4"), kv("ab", "5")]);
    assert_eq!(k, vec!["B", "a", "ab", "b", "é"]);
    let m = assignments(&vec![kv("z", "1"), kv("m", "2"), kv("z", "3"), kv("a", "4")]);
    assert_eq!(
        m,
        vec![
            ("a".to_string(), "4".to_string()),
            ("m".to_string(), "2".to_string()),
            ("z".to_string(), "3".to_string()),
        ]
    );
}

#[test]
fn secret_keys_json_is_sorted_array() {
    let mut o = opt("run", &[]);
    o.secret_envs = vec![kv("ZED", "1"), kv("ALPHA", "2"), kv("ZED", "3")];
    let p = ExecutionProperties::new(&o, None, None, git(false)).unwrap();
    let v = values(&p);
    assert_eq!(lookup(&v, "envvars_secret"), Some(r#"["ALPHA","ZED"]"#));
}

#[test]
fn manifest_declares_fourteen_typed_fields() {
    let p = ExecutionProperties::new(&opt("true", &[]), None, None, git(false)).unwrap();
    let t = p.property_types();
    assert_eq!(t.len(), 14);
    assert_eq!(t[0], ("user".to_string(), PropertyType::String));
    assert_eq!(t[3], ("exit_code".to_string(), PropertyType::Int));
    assert_eq!(t[9], ("git_dirty".to_string(), PropertyType::Int));
    assert_eq!(t[13], ("result_uri".to_string(), PropertyType::String));
}

#[test]
fn dirty_tree_is_rejected_when_forbidden() {
    let mut o = opt("true", &[]);
    o.forbid_dirty = true;
    assert_eq!(ExecutionProperties::new(&o, None, None, git(true)).err(), Some(RunError::DirtyTree));
    assert!(ExecutionProperties::new(&o, None, None, git(false)).is_ok());
    o.forbid_dirty = false;
    assert!(ExecutionProperties::new(&o, None, None, git(true)).is_ok());
}

#[test]
fn echo_hello_records_provenance() {
    let p = ExecutionProperties::new(
        &opt("echo", &["hello"]),
        Some("alice".to_string()),
        Some("box".to_string()),
        git(false),
    )
    .unwrap();
    let v = values(&p);
    let names: Vec<&str> = v.iter().map(|(k, _)| k.as_str()).collect();
    assert_eq!(names, vec!["command", "user", "hostname", "git_commit", "git_url", "git_cwd", "git_dirty"]);
    assert_eq!(lookup(&v, "command"), Some("echo hello"));
    assert_eq!(lookup(&v, "git_dirty"), Some("int:0"));
    assert_eq!(lookup(&v, "git_url"), Some("https://github.com/owner/repo"));
    assert_eq!(lookup(&v, "git_cwd"), Some("sub"));
}

#[test]
fn plain_envvars_are_recorded_as_json_object() {
    let mut o = opt("env", &[]);
    o.envs = vec![kv("B", "2"), kv("A", "0"), kv("A", "1")];
    let p = ExecutionProperties::new(&o, None, None, git(true)).unwrap();
    let v = values(&p);
    assert_eq!(lookup(&v, "envvars"), Some(r#"{"A":"1","B":"2"}"#));
    assert_eq!(lookup(&v, "git_dirty"), Some("int:1"));
    assert_eq!(lookup(&v, "envvars_secret"), None);
}

#[test]
fn secret_env_records_key_but_never_value() {
    let mut o = opt("deploy", &[]);
    o.secret_envs = vec![kv("TOKEN", "xyz")];
    let p = ExecutionProperties::new(&o, None, None, git(false)).unwrap();
    let v = values(&p);
    assert_eq!(lookup(&v, "envvars_secret"), Some(r#"["TOKEN"]"#));
    assert!(v.iter().all(|(k, x)| !k.contains("xyz") && !x.contains("xyz")));
}

#[test]
fn creation_request_posts_new_record_with_custom_properties() {
    let mut o = opt("echo", &["hi"]);
    o.custom_properties = vec![kv("team", "ml"), kv("team", "ops")];
    o.execution_name = Some("nightly".to_string());
    let p = ExecutionProperties::new(&o, None, None, git(false)).unwrap();
    let r = p.creation_request(&o);
    assert_eq!(r.state, ExecState::New);
    assert_eq!(r.properties.len(), 5);
    assert_eq!(
        r.custom_properties,
        vec![("team".to_string(), "ml".to_string()), ("team".to_string(), "ops".to_string())]
    );
    assert_eq!(r.name.as_deref(), Some("nightly"));
}

#[test]
fn envvars_json_escapes_as_stated() {
    let mut o = opt("env", &[]);
    o.envs = vec![kv("K", "a\"b\\c\nd\te\u{1}f\u{1f}é")];
    let p = ExecutionProperties::new(&o, None, None, git(false)).unwrap();
    let v = values(&p);
    assert_eq!(lookup(&v, "envvars"), Some(r#"{"K":"a\"b\\c\nd\te\u0001f\u001fé"}"#));
}
