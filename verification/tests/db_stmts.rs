use wikifarm_service::db::{
    deprovision_statements, escape_string_literal, owner_groups_statement, provision_statements,
    DbProvError,
};
use wikifarm_service::orchestrator::insert_wiki_sql;
use wikifarm_service::tasks::{
    insert_task_sql, task_failed_sql, task_running_sql, task_succeeded_sql,
};

#[test]
fn password_escaping_doubles_quotes() {
    assert_eq!(escape_string_literal("pa'ss").unwrap(), "pa''ss");
    assert_eq!(escape_string_literal("plain").unwrap(), "plain");
    assert_eq!(escape_string_literal("''").unwrap(), "''''");
}

#[test]
fn password_with_control_chars_rejected() {
    assert!(matches!(
        escape_string_literal("bad\u{0}pw"),
        Err(DbProvError::InvalidLiteral(_))
    ));
    assert!(matches!(
        escape_string_literal("bad\npw"),
        Err(DbProvError::InvalidLiteral(_))
    ));
    assert!(matches!(
        escape_string_literal("bad\u{9f}pw"),
        Err(DbProvError::InvalidLiteral(_))
    ));
}

#[test]
fn provision_round_is_ten_exact_statements() {
    let v = provision_statements("demo-1", "demo-1", "p'w", "shared").unwrap();
    assert_eq!(v.len(), 10);
    assert_eq!(v[0], "CREATE DATABASE IF NOT EXISTS `demo-1`");
    assert_eq!(v[1], "CREATE USER IF NOT EXISTS 'demo-1'@'%' IDENTIFIED BY 'p''w'");
    assert_eq!(v[2], "GRANT ALL PRIVILEGES ON `demo-1`.* TO 'demo-1'@'%'");
    assert_eq!(v[3], "GRANT SELECT, UPDATE, INSERT ON `shared`.`user` TO 'demo-1'@'%'");
    assert_eq!(
        v[4],
        "GRANT SELECT, UPDATE, INSERT, DELETE ON `shared`.`user_properties` TO 'demo-1'@'%'"
    );
    assert_eq!(v[5], "GRANT SELECT, UPDATE, INSERT ON `shared`.`actor` TO 'demo-1'@'%'");
    assert_eq!(v[6], "GRANT SELECT ON `shared`.`oauth_registered_consumer` TO 'demo-1'@'%'");
    assert_eq!(v[7], "GRANT SELECT ON `shared`.`oauth_accepted_consumer` TO 'demo-1'@'%'");
    assert_eq!(v[8], "GRANT SELECT ON `shared`.`oauth2_access_tokens` TO 'demo-1'@'%'");
    assert_eq!(v[9], "FLUSH PRIVILEGES");
}

#[test]
fn provision_rejects_bad_identifier() {
    assert!(matches!(
        provision_statements("bad`name", "u", "pw", "s"),
        Err(DbProvError::InvalidIdentifier(_))
    ));
    assert!(matches!(
        provision_statements("db", "u", "pw", "shared schema"),
        Err(DbProvError::InvalidIdentifier(_))
    ));
}

#[test]
fn deprovision_round_drops_user_then_db() {
    let v = deprovision_statements("demo-1", "demo-1").unwrap();
    assert_eq!(v.len(), 3);
    assert_eq!(v[0], "DROP USER IF EXISTS 'demo-1'@'%'");
    assert_eq!(v[1], "DROP DATABASE IF EXISTS `demo-1`");
    assert_eq!(v[2], "FLUSH PRIVILEGES");
}

#[test]
fn owner_groups_grant_is_idempotent_insert() {
    let s = owner_groups_statement("demo-1").unwrap();
    assert_eq!(
        s,
        "INSERT IGNORE INTO `demo-1`.user_groups (ug_user, ug_group) VALUES (?, 'bureaucrat'), (?, 'translator'), (?, 'sysop')"
    );
    assert!(owner_groups_statement("demo`1").is_err());
}

#[test]
fn task_and_wiki_row_statements_are_exact() {
    assert_eq!(
        insert_task_sql(),
        "INSERT INTO wikifarm_tasks (id, type, status, progress, created_by_user_id, created_by_username) VALUES (?, 'create_wiki', 'queued', 0, ?, ?)"
    );
    assert_eq!(
        task_running_sql(),
        "UPDATE wikifarm_tasks SET status='running', started_at=NOW() WHERE id = ?"
    );
    assert_eq!(
        task_succeeded_sql(),
        "UPDATE wikifarm_tasks SET status='succeeded', progress=100, finished_at=NOW(), wiki_id=? WHERE id = ?"
    );
    assert_eq!(
        task_failed_sql(),
        "UPDATE wikifarm_tasks SET status='failed', finished_at=NOW(), message=? WHERE id = ?"
    );
    assert_eq!(
        insert_wiki_sql(),
        "INSERT INTO wikifarm_wikis (name, slug, domain, path, language, owner_user_id, owner_username, visibility, status, is_featured) VALUES (?, ?, NULL, NULL, ?, ?, ?, ?, 'ready', 0)"
    );
}
