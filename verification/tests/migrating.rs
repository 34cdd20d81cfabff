use db_copier::migration::{backup_due, failed_message, migration_report, moved_message};

#[test]
fn each_file_gets_its_line() {
    assert_eq!(moved_message("prod"), "成功迁移配置: prod");
    assert_eq!(failed_message("test", "bad json"), "迁移配置失败 test: bad json");
}

#[test]
fn old_files_are_set_aside_only_after_a_clean_run() {
    assert!(backup_due(3, 0));
    assert!(backup_due(1, 0));
    assert!(!backup_due(0, 0));
    assert!(!backup_due(3, 1));
    assert!(!backup_due(0, 2));
}

#[test]
fn report_gives_the_counts_and_the_lines() {
    let lines = vec![moved_message("a"), failed_message("b", "x")];
    assert_eq!(
        migration_report(1, 1, &lines),
        "迁移完成。成功: 1, 失败: 1\n成功迁移配置: a\n迁移配置失败 b: x"
    );
    assert_eq!(migration_report(0, 0, &vec![]), "迁移完成。成功: 0, 失败: 0\n");
    assert_eq!(migration_report(12, 0, &vec!["one".to_string()]), "迁移完成。成功: 12, 失败: 0\none");
}
