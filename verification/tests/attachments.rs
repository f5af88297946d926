use ai_group_chat::db::Db;
use std::cell::RefCell;
use std::collections::HashMap;

use ai_group_chat::attachments::{
    attachment_data_base64, db_save_attachment, file_type_for_mime, sanitize_file_name,
    stored_file_name,
};
use ai_group_chat::messages::{db_list_messages, db_send_human_message};
use ai_group_chat::models::{Attachment, SendMessageRequest};
use ai_group_chat::schema::run_migrations;
use base64::Engine;
use rusqlite::Connection;

fn setup_test_db() -> Db {
    let mut db = Db::new(Connection::open_in_memory().unwrap());
    db.connection().execute_batch("PRAGMA foreign_keys=ON;").unwrap();
    run_migrations(&mut db).unwrap();
    db
}

fn create_test_topic(db: &mut Db) -> String {
    let id = uuid::Uuid::new_v4().to_string();
    db.connection().execute(
        "INSERT INTO topics (id, title, created_at, updated_at) VALUES (?1, 'Test', datetime('now'), datetime('now'))",
        [&id],
    )
    .unwrap();
    id
}

fn create_test_message(db: &mut Db, topic_id: &str) -> String {
    db_send_human_message(
        db,
        SendMessageRequest { topic_id: topic_id.to_string(), content: "Test message".to_string() },
    )
    .unwrap()
    .id
}

struct Disk {
    files: RefCell<HashMap<String, Vec<u8>>>,
}

impl Disk {
    fn new() -> Disk {
        Disk { files: RefCell::new(HashMap::new()) }
    }

    fn save(&self, db: &mut Db, message_id: &str, name: &str, data: &[u8], mime: &str) -> Attachment {
        db_save_attachment(db, message_id, name, data.to_vec(), mime, |n, d| {
            let path = format!("/data/attachments/{}", n);
            self.files.borrow_mut().insert(path.clone(), d);
            Ok(path)
        })
        .unwrap()
    }

    fn read(&self, path: &str) -> Option<Vec<u8>> {
        self.files.borrow().get(path).cloned()
    }
}

#[test]
fn test_save_image_attachment() {
    let mut db = setup_test_db();
    let disk = Disk::new();
    let topic_id = create_test_topic(&mut db);
    let message_id = create_test_message(&mut db, &topic_id);

    let attachment = disk.save(&mut db, &message_id, "photo.png", b"fake png data", "image/png");

    assert!(!attachment.id.is_empty());
    assert_eq!(attachment.message_id, message_id);
    assert_eq!(attachment.file_name, "photo.png");
    assert_eq!(attachment.file_type, "image");
    assert_eq!(attachment.mime_type, "image/png");
    assert!(!attachment.created_at.is_empty());
    assert_eq!(disk.read(&attachment.file_path).unwrap(), b"fake png data");
    assert_eq!(
        attachment.file_path,
        format!("/data/attachments/{}_photo.png", attachment.id)
    );
}

#[test]
fn test_save_file_attachment() {
    let mut db = setup_test_db();
    let disk = Disk::new();
    let topic_id = create_test_topic(&mut db);
    let message_id = create_test_message(&mut db, &topic_id);

    let attachment = disk.save(&mut db, &message_id, "document.pdf", b"fake pdf data", "application/pdf");

    assert_eq!(attachment.file_type, "file");
    assert_eq!(attachment.file_name, "document.pdf");
    assert!(disk.read(&attachment.file_path).is_some());
}

#[test]
fn test_read_attachment_base64() {
    let data = b"Hello, World!";
    let result = attachment_data_base64(data);
    let expected = base64::engine::general_purpose::STANDARD.encode(data);
    assert_eq!(result, expected);
    assert_eq!(result, "SGVsbG8sIFdvcmxkIQ==");
}

#[test]
fn test_list_messages_includes_attachments() {
    let mut db = setup_test_db();
    let disk = Disk::new();
    let topic_id = create_test_topic(&mut db);
    let message_id = create_test_message(&mut db, &topic_id);

    disk.save(&mut db, &message_id, "photo.png", b"png data", "image/png");
    disk.save(&mut db, &message_id, "doc.pdf", b"pdf data", "application/pdf");

    let messages = db_list_messages(&mut db, &topic_id).unwrap();
    assert_eq!(messages.len(), 1);
    assert_eq!(messages[0].attachments.len(), 2);
    let names: Vec<&str> = messages[0].attachments.iter().map(|a| a.file_name.as_str()).collect();
    assert!(names.contains(&"photo.png"));
    assert!(names.contains(&"doc.pdf"));
}

#[test]
fn test_delete_message_cascades_to_attachments() {
    let mut db = setup_test_db();
    let disk = Disk::new();
    let topic_id = create_test_topic(&mut db);
    let message_id = create_test_message(&mut db, &topic_id);

    disk.save(&mut db, &message_id, "photo.png", b"png data", "image/png");

    let count: i64 = db
        .connection().query_row("SELECT COUNT(*) FROM attachments WHERE message_id = ?1", (&message_id,), |row| {
            row.get(0)
        })
        .unwrap();
    assert_eq!(count, 1);

    db.connection().execute("DELETE FROM messages WHERE id = ?1", (&message_id,)).unwrap();

    let count: i64 = db
        .connection().query_row("SELECT COUNT(*) FROM attachments WHERE message_id = ?1", (&message_id,), |row| {
            row.get(0)
        })
        .unwrap();
    assert_eq!(count, 0);
}

#[test]
fn test_file_type_determined_by_mime_type() {
    let mut db = setup_test_db();
    let disk = Disk::new();
    let topic_id = create_test_topic(&mut db);
    let message_id = create_test_message(&mut db, &topic_id);

    assert_eq!(disk.save(&mut db, &message_id, "photo.png", b"data", "image/png").file_type, "image");
    assert_eq!(disk.save(&mut db, &message_id, "photo.jpg", b"data", "image/jpeg").file_type, "image");
    assert_eq!(disk.save(&mut db, &message_id, "notes.txt", b"data", "text/plain").file_type, "file");
    assert_eq!(disk.save(&mut db, &message_id, "doc.pdf", b"data", "application/pdf").file_type, "file");
}

#[test]
fn stored_names_are_sanitized() {
    assert_eq!(sanitize_file_name("my report (v2).pdf"), "my_report__v2_.pdf");
    assert_eq!(sanitize_file_name("ok-name.txt"), "ok-name.txt");
    assert_eq!(sanitize_file_name("ünïcödé.txt"), "ünïcödé.txt");
    assert_eq!(sanitize_file_name("a/b\\c"), "a_b_c");
    assert_eq!(stored_file_name("id1", "x y.png"), "id1_x_y.png");
    assert_eq!(file_type_for_mime("image"), "file");
    assert_eq!(file_type_for_mime("image/"), "image");
}

#[test]
fn failed_store_saves_no_record() {
    let mut db = setup_test_db();
    let topic_id = create_test_topic(&mut db);
    let message_id = create_test_message(&mut db, &topic_id);
    let r = db_save_attachment(&mut db, &message_id, "a.txt", b"x".to_vec(), "text/plain", |_n, _d| {
        Err("disk full".to_string())
    });
    assert_eq!(r.unwrap_err(), "disk full");
    let count: i64 = db.connection().query_row("SELECT COUNT(*) FROM attachments", [], |row| row.get(0)).unwrap();
    assert_eq!(count, 0);
}

#[test]
fn same_name_is_stored_twice_apart() {
    let mut db = setup_test_db();
    let disk = Disk::new();
    let topic_id = create_test_topic(&mut db);
    let message_id = create_test_message(&mut db, &topic_id);
    let a = disk.save(&mut db, &message_id, "same.txt", b"one", "text/plain");
    let b = disk.save(&mut db, &message_id, "same.txt", b"two", "text/plain");
    assert_ne!(a.file_path, b.file_path);
    assert_eq!(disk.read(&a.file_path).unwrap(), b"one");
    assert_eq!(disk.read(&b.file_path).unwrap(), b"two");
}
