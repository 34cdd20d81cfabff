use db_copier::model::{ColumnConfig, Config, DatabaseConfig, SSHConfig, TableConfig};
use db_copier::monitor::MemoryMonitor;
use db_copier::summary::{describe_endpoint, get_config_summary};
use db_copier::text::{join, push_decimal, quote_identifier, same_text, to_chars};

#[test]
fn new_gauge_counts_nothing() {
    let m = MemoryMonitor::new(5, 100);
    assert_eq!(m.get_usage(), 0);
    assert_eq!(m.interval_secs(), 5);
    assert_eq!(m.threshold_mb(), 100);
    assert_eq!(m.warning(), None);
}

#[test]
fn gauge_adds_and_subtracts() {
    let mut m = MemoryMonitor::new(5, 100);
    m.update_usage(1500);
    assert_eq!(m.get_usage(), 1500);
    m.update_usage(-500);
    assert_eq!(m.get_usage(), 1000);
    m.update_usage(0);
    assert_eq!(m.get_usage(), 1000);
    m.update_usage(-1000);
    assert_eq!(m.get_usage(), 0);
}

#[test]
fn gauge_wraps_at_both_ends() {
    let mut m = MemoryMonitor::new(5, 100);
    m.update_usage(-1);
    assert_eq!(m.get_usage(), usize::MAX);
    m.update_usage(2);
    assert_eq!(m.get_usage(), 1);
    m.update_usage(isize::MIN);
    assert_eq!(m.get_usage(), 1usize.wrapping_sub(isize::MIN.unsigned_abs()));
    m.update_usage(isize::MAX);
    m.update_usage(1);
    assert_eq!(m.get_usage(), 1);
}

#[test]
fn warning_is_due_only_above_the_threshold() {
    let mut m = MemoryMonitor::new(1, 2);
    m.update_usage(2 * 1024 * 1024);
    assert_eq!(m.warning(), None);
    m.update_usage(1);
    assert_eq!(m.warning(), Some((2, 2)));
    m.update_usage(5 * 1024 * 1024);
    assert_eq!(m.warning(), Some((7, 2)));
    let mut huge = MemoryMonitor::new(1, usize::MAX);
    huge.update_usage(isize::MAX);
    assert_eq!(huge.warning(), None);
}

fn endpoint(user: &str, host: &str, port: u16, db: &str, ssh: bool) -> DatabaseConfig {
    DatabaseConfig {
        host: host.into(),
        port,
        database: db.into(),
        username: user.into(),
        password: "pw".into(),
        ssl_mode: "prefer".into(),
        ssh_config: if ssh {
            Some(SSHConfig {
                host: "b".into(),
                port: 22,
                username: "u".into(),
                auth_type: "password".into(),
                private_key_path: None,
                password: Some("p".into()),
            })
        } else {
            None
        },
    }
}

fn table(name: &str, columns: usize) -> TableConfig {
    TableConfig {
        name: name.into(),
        columns: (0..columns)
            .map(|i| ColumnConfig { name: format!("c{}", i), mask_rule: None, ignore: false })
            .collect(),
        structure_only: false,
        ignore_foreign_keys: false,
        ignore: false,
    }
}

#[test]
fn summary_counts_tables_and_columns() {
    let config = Config {
        name: "job".into(),
        source_db: endpoint("app", "src.example", 5432, "shop", true),
        target_db: endpoint("root", "127.0.0.1", 6543, "copy", false),
        tables: vec![table("a", 3), table("b", 0), table("c", 4)],
    };
    let s = get_config_summary(&config);
    assert_eq!(s.source_db, "app@src.example:5432/shop");
    assert_eq!(s.target_db, "root@127.0.0.1:6543/copy");
    assert_eq!(s.table_count, 3);
    assert_eq!(s.total_columns, 7);
    assert!(s.has_source_ssh);
    assert!(!s.has_target_ssh);
    assert_eq!(describe_endpoint(&config.source_db), s.source_db);
}

#[test]
fn summary_of_a_job_without_tables() {
    let config = Config {
        name: "job".into(),
        source_db: endpoint("a", "h", 1, "d", false),
        target_db: endpoint("a", "h", 1, "d", false),
        tables: vec![],
    };
    let s = get_config_summary(&config);
    assert_eq!(s.table_count, 0);
    assert_eq!(s.total_columns, 0);
}

#[test]
fn decimal_numerals_have_no_leading_zero() {
    for n in [0usize, 7, 9, 10, 11, 99, 100, 1000, 65535, 1234567890, usize::MAX] {
        let mut out = String::from("#");
        push_decimal(&mut out, n);
        assert_eq!(out, format!("#{}", n));
    }
}

#[test]
fn join_puts_the_separator_between_neighbours() {
    assert_eq!(join(&vec![], ", "), "");
    assert_eq!(join(&vec!["a".to_string()], ", "), "a");
    assert_eq!(join(&vec!["a".to_string(), "".to_string(), "c".to_string()], ", "), "a, , c");
}

#[test]
fn identifiers_are_delimited_with_their_quotes_doubled() {
    assert_eq!(quote_identifier("users"), "\"users\"");
    assert_eq!(quote_identifier(""), "\"\"");
    assert_eq!(quote_identifier("a\"b\"\"c"), "\"a\"\"b\"\"\"\"c\"");
    assert_eq!(quote_identifier("表"), "\"表\"");
}

#[test]
fn texts_compare_by_their_characters() {
    assert!(same_text("abc", "abc"));
    assert!(!same_text("abc", "abd"));
    assert!(!same_text("abc", "ab"));
    assert!(same_text("", ""));
    assert_eq!(to_chars("aé北"), vec!['a', 'é', '北']);
}
