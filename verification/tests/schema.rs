use ai_group_chat::db::Db;
use ai_group_chat::schema::{run_migrations, seed_default_bots};
use rusqlite::Connection;

#[test]
fn test_migrations_fresh_db() {
    let mut db = Db::new(Connection::open_in_memory().unwrap());
    db.connection().execute_batch("PRAGMA foreign_keys=ON;").unwrap();
    run_migrations(&mut db).unwrap();
    let count: i32 = db
        .connection().query_row(
            "SELECT COUNT(*) FROM sqlite_master WHERE type='table' AND name IN ('bots','topics','topic_bots','messages','attachments')",
            [],
            |row| row.get(0),
        )
        .unwrap();
    assert_eq!(count, 5);
}

#[test]
fn test_migrations_idempotent() {
    let mut db = Db::new(Connection::open_in_memory().unwrap());
    db.connection().execute_batch("PRAGMA foreign_keys=ON;").unwrap();
    run_migrations(&mut db).unwrap();
    run_migrations(&mut db).unwrap();
}

#[test]
fn test_foreign_key_constraints() {
    let mut db = Db::new(Connection::open_in_memory().unwrap());
    db.connection().execute_batch("PRAGMA foreign_keys=ON;").unwrap();
    run_migrations(&mut db).unwrap();
    let result = db.connection().execute(
        "INSERT INTO messages (id, topic_id, sender_type, content) VALUES ('m1', 'nonexistent', 'human', 'hello')",
        [],
    );
    assert!(result.is_err());
}

#[test]
fn seeding_fills_an_empty_table_once() {
    let mut db = Db::new(Connection::open_in_memory().unwrap());
    run_migrations(&mut db).unwrap();
    seed_default_bots(&mut db).unwrap();
    seed_default_bots(&mut db).unwrap();
    let count: i32 = db.connection().query_row("SELECT COUNT(*) FROM bots", [], |row| row.get(0)).unwrap();
    assert_eq!(count, 4);
    let vision: i32 = db
        .connection().query_row("SELECT MIN(supports_vision) FROM bots", [], |row| row.get(0))
        .unwrap();
    assert_eq!(vision, 1);
    let name: String = db
        .connection().query_row("SELECT name FROM bots WHERE model = 'gemini-2.5-pro'", [], |row| row.get(0))
        .unwrap();
    assert_eq!(name, "Gemini 2.5 Pro");
}
