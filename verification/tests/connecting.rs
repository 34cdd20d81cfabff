use db_copier::connection::{
    session_settings, ssh_address, ssh_auth, ssl_mode_of, through_tunnel, validate_endpoint,
    validate_job, Retry, RetryStep, SshAuth, SslMode, CONNECT_ATTEMPTS,
};
use db_copier::model::{Config, DatabaseConfig, DbError, SSHConfig};

fn endpoint() -> DatabaseConfig {
    DatabaseConfig {
        host: "db.example".into(),
        port: 5432,
        database: "shop".into(),
        username: "app".into(),
        password: "pw".into(),
        ssl_mode: "require".into(),
        ssh_config: None,
    }
}

fn tunnel(auth_type: &str, key: Option<&str>, password: Option<&str>) -> SSHConfig {
    SSHConfig {
        host: "bastion".into(),
        port: 2222,
        username: "ops".into(),
        auth_type: auth_type.into(),
        private_key_path: key.map(|s| s.to_string()),
        password: password.map(|s| s.to_string()),
    }
}

#[test]
fn endpoint_with_all_fields_is_accepted() {
    assert_eq!(validate_endpoint(&endpoint()), Ok(()));
}

#[test]
fn empty_host_database_or_user_is_refused_in_that_order() {
    let mut e = endpoint();
    e.username = String::new();
    assert_eq!(validate_endpoint(&e), Err(DbError::Connection("数据库用户名不能为空".into())));
    e.database = String::new();
    assert_eq!(validate_endpoint(&e), Err(DbError::Connection("数据库名不能为空".into())));
    e.host = String::new();
    assert_eq!(validate_endpoint(&e), Err(DbError::Connection("数据库主机地址不能为空".into())));
}

#[test]
fn empty_password_is_no_fault() {
    let mut e = endpoint();
    e.password = String::new();
    assert_eq!(validate_endpoint(&e), Ok(()));
}

#[test]
fn job_is_refused_if_either_end_is_incomplete() {
    let mut config = Config { name: "j".into(), source_db: endpoint(), target_db: endpoint(), tables: vec![] };
    assert_eq!(validate_job(&config), Ok(()));
    config.target_db.database = String::new();
    assert_eq!(validate_job(&config), Err(DbError::Connection("数据库配置无效".into())));
    config.target_db = endpoint();
    config.source_db.host = String::new();
    assert_eq!(validate_job(&config), Err(DbError::Connection("数据库配置无效".into())));
}

#[test]
fn ssl_mode_defaults_to_prefer() {
    assert_eq!(ssl_mode_of("require"), SslMode::Require);
    assert_eq!(ssl_mode_of("disable"), SslMode::Disable);
    assert_eq!(ssl_mode_of("prefer"), SslMode::Prefer);
    assert_eq!(ssl_mode_of(""), SslMode::Prefer);
    assert_eq!(ssl_mode_of("REQUIRE"), SslMode::Prefer);
}

#[test]
fn settings_carry_the_endpoint_and_the_fixed_values() {
    let s = session_settings(&endpoint()).unwrap();
    assert_eq!(s.host, "db.example");
    assert_eq!(s.port, 5432);
    assert_eq!(s.database, "shop");
    assert_eq!(s.username, "app");
    assert_eq!(s.password, "pw");
    assert_eq!(s.application_name, "db_copier");
    assert_eq!(s.connect_timeout_secs, 10);
    assert!(s.keepalives);
    assert_eq!(s.keepalives_idle_secs, 30);
    assert_eq!(s.ssl_mode, SslMode::Require);
    assert!(s.accept_invalid_certs);
}

#[test]
fn invalid_certificates_are_accepted_only_under_require() {
    let mut e = endpoint();
    e.ssl_mode = "disable".into();
    assert!(!session_settings(&e).unwrap().accept_invalid_certs);
    e.ssl_mode = "whatever".into();
    let s = session_settings(&e).unwrap();
    assert_eq!(s.ssl_mode, SslMode::Prefer);
    assert!(!s.accept_invalid_certs);
}

#[test]
fn settings_of_an_incomplete_endpoint_are_refused() {
    let mut e = endpoint();
    e.host = String::new();
    assert_eq!(session_settings(&e), Err(DbError::Connection("数据库主机地址不能为空".into())));
}

#[test]
fn ssh_secret_follows_the_method() {
    assert_eq!(ssh_auth(&tunnel("password", Some("/k"), Some("s3"))), Ok(SshAuth::Password("s3".into())));
    assert_eq!(ssh_auth(&tunnel("private_key", Some("/k"), Some("s3"))), Ok(SshAuth::PrivateKey("/k".into())));
}

#[test]
fn ssh_method_without_its_secret_is_an_error() {
    assert_eq!(ssh_auth(&tunnel("password", Some("/k"), None)), Err(DbError::SSH("密码不能为空".into())));
    assert_eq!(ssh_auth(&tunnel("private_key", None, Some("s3"))), Err(DbError::SSH("密钥路径不能为空".into())));
}

#[test]
fn unknown_ssh_method_is_an_error() {
    assert_eq!(ssh_auth(&tunnel("agent", Some("/k"), Some("s3"))), Err(DbError::SSH("不支持的认证方式".into())));
    assert_eq!(ssh_auth(&tunnel("", None, None)), Err(DbError::SSH("不支持的认证方式".into())));
}

#[test]
fn ssh_address_is_host_colon_port() {
    assert_eq!(ssh_address(&tunnel("password", None, None)), "bastion:2222");
    let mut t = tunnel("password", None, None);
    t.port = 0;
    assert_eq!(ssh_address(&t), "bastion:0");
    t.port = 65535;
    assert_eq!(ssh_address(&t), "bastion:65535");
}

#[test]
fn tunnelled_endpoint_points_at_the_local_end() {
    let mut e = endpoint();
    e.ssh_config = Some(tunnel("password", None, Some("s")));
    let t = through_tunnel(&e, 40123);
    assert_eq!(t.host, "127.0.0.1");
    assert_eq!(t.port, 40123);
    assert_eq!(t.database, e.database);
    assert_eq!(t.username, e.username);
    assert_eq!(t.password, e.password);
    assert_eq!(t.ssl_mode, e.ssl_mode);
    assert_eq!(t.ssh_config, e.ssh_config);
}

#[test]
fn third_attempt_comes_after_waits_of_two_and_four_seconds() {
    assert_eq!(CONNECT_ATTEMPTS, 3);
    let mut retry = Retry::for_connect();
    assert!(retry.attempts_left());
    assert_eq!(retry.record_failure(DbError::Connection("first".into())), RetryStep::Wait(2));
    assert!(retry.attempts_left());
    assert_eq!(retry.record_failure(DbError::Connection("second".into())), RetryStep::Wait(4));
    assert!(retry.attempts_left());
}

#[test]
fn third_failure_hands_back_its_own_error() {
    let mut retry = Retry::for_connect();
    retry.record_failure(DbError::Connection("first".into()));
    retry.record_failure(DbError::Connection("second".into()));
    assert_eq!(
        retry.record_failure(DbError::Connection("third".into())),
        RetryStep::GiveUp(DbError::Connection("third".into()))
    );
    assert!(!retry.attempts_left());
    assert_eq!(
        retry.record_failure(DbError::Connection("fourth".into())),
        RetryStep::GiveUp(DbError::Connection("fourth".into()))
    );
}

#[test]
fn waits_double_with_each_failure() {
    let mut retry = Retry::new(6);
    let mut waits = Vec::new();
    for _ in 0..5 {
        match retry.record_failure(DbError::Query("q".into())) {
            RetryStep::Wait(s) => waits.push(s),
            RetryStep::GiveUp(_) => panic!("gave up early"),
        }
    }
    assert_eq!(waits, vec![2, 4, 8, 16, 32]);
}

#[test]
fn single_attempt_gives_up_at_once() {
    let mut retry = Retry::new(1);
    assert_eq!(retry.record_failure(DbError::Query("q".into())), RetryStep::GiveUp(DbError::Query("q".into())));
}

#[test]
fn errors_are_described_by_stage_and_cause() {
    assert_eq!(DbError::Connection("refused".into()).describe(), "Connection error: refused");
    assert_eq!(DbError::Query("syntax".into()).describe(), "Query error: syntax");
    assert_eq!(DbError::SSH("denied".into()).describe(), "SSH error: denied");
    let e = DbError::SSH("denied".into());
    assert_eq!(e.duplicate(), e);
}
