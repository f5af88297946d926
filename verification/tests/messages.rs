use ai_group_chat::db::Db;
use ai_group_chat::messages::{db_list_messages, db_save_bot_message, db_send_human_message};
use ai_group_chat::models::SendMessageRequest;
use ai_group_chat::schema::run_migrations;
use rusqlite::Connection;

fn setup_test_db() -> Db {
    let mut db = Db::new(Connection::open_in_memory().unwrap());
    db.connection().execute_batch("PRAGMA foreign_keys=ON;").unwrap();
    run_migrations(&mut db).unwrap();
    db
}

fn create_test_topic(db: &mut Db) -> String {
    let id = uuid::Uuid::new_v4().to_string();
    db.connection().execute(
        "INSERT INTO topics (id, title, created_at, updated_at) VALUES (?1, 'Test', datetime('now'), datetime('now'))",
        [&id],
    )
    .unwrap();
    id
}

fn create_test_bot(db: &mut Db) -> String {
    let id = uuid::Uuid::new_v4().to_string();
    db.connection().execute(
        "INSERT INTO bots (id, name, base_url, model, created_at) VALUES (?1, 'TestBot', 'http://localhost', 'test-model', datetime('now'))",
        [&id],
    )
    .unwrap();
    id
}

/// Save human message -> stored with sender_type="human", sender_bot_id=NULL
#[test]
fn test_send_human_message() {
    let mut db = setup_test_db();
    let topic_id = create_test_topic(&mut db);

    let msg = db_send_human_message(
        &mut db,
        SendMessageRequest {
            topic_id: topic_id.clone(),
            content: "Hello from human".to_string(),
        },
    )
    .unwrap();

    assert!(!msg.id.is_empty());
    assert_eq!(msg.topic_id, topic_id);
    assert_eq!(msg.sender_type, "human");
    assert!(msg.sender_bot_id.is_none());
    assert_eq!(msg.content, "Hello from human");
    assert!(!msg.created_at.is_empty());
    assert!(msg.attachments.is_empty());

    // Verify in DB
    let sender_bot_id: Option<String> = db
        .connection().query_row(
            "SELECT sender_bot_id FROM messages WHERE id = ?1",
            (&msg.id,),
            |row| row.get(0),
        )
        .unwrap();
    assert!(sender_bot_id.is_none());
}

/// Save bot message -> stored with sender_type="bot", correct sender_bot_id
#[test]
fn test_save_bot_message() {
    let mut db = setup_test_db();
    let topic_id = create_test_topic(&mut db);
    let bot_id = create_test_bot(&mut db);

    let msg = db_save_bot_message(&mut db, &topic_id, &bot_id, "Hello from bot").unwrap();

    assert!(!msg.id.is_empty());
    assert_eq!(msg.topic_id, topic_id);
    assert_eq!(msg.sender_type, "bot");
    assert_eq!(msg.sender_bot_id, Some(bot_id.clone()));
    assert_eq!(msg.content, "Hello from bot");
    assert!(!msg.created_at.is_empty());

    // Verify in DB
    let db_bot_id: Option<String> = db
        .connection().query_row(
            "SELECT sender_bot_id FROM messages WHERE id = ?1",
            (&msg.id,),
            |row| row.get(0),
        )
        .unwrap();
    assert_eq!(db_bot_id, Some(bot_id));
}

/// List messages for topic, ordered by created_at ASC
#[test]
fn test_list_messages_ordered() {
    let mut db = setup_test_db();
    let topic_id = create_test_topic(&mut db);

    // Insert messages with explicit timestamps
    db.connection().execute(
        "INSERT INTO messages (id, topic_id, sender_type, content, created_at) VALUES ('m1', ?1, 'human', 'First', '2024-01-01T00:00:00Z')",
        (&topic_id,),
    )
    .unwrap();
    db.connection().execute(
        "INSERT INTO messages (id, topic_id, sender_type, content, created_at) VALUES ('m2', ?1, 'human', 'Third', '2024-03-01T00:00:00Z')",
        (&topic_id,),
    )
    .unwrap();
    db.connection().execute(
        "INSERT INTO messages (id, topic_id, sender_type, content, created_at) VALUES ('m3', ?1, 'human', 'Second', '2024-02-01T00:00:00Z')",
        (&topic_id,),
    )
    .unwrap();

    let messages = db_list_messages(&mut db, &topic_id).unwrap();
    assert_eq!(messages.len(), 3);
    assert_eq!(messages[0].content, "First");
    assert_eq!(messages[1].content, "Second");
    assert_eq!(messages[2].content, "Third");
}

/// List messages returns empty for new topic
#[test]
fn test_list_messages_empty() {
    let mut db = setup_test_db();
    let topic_id = create_test_topic(&mut db);

    let messages = db_list_messages(&mut db, &topic_id).unwrap();
    assert!(messages.is_empty());
}

/// Messages isolated between topics (topic A messages not in topic B)
#[test]
fn test_messages_isolated_between_topics() {
    let mut db = setup_test_db();
    let topic_a = create_test_topic(&mut db);
    let topic_b = create_test_topic(&mut db);

    db_send_human_message(
        &mut db,
        SendMessageRequest {
            topic_id: topic_a.clone(),
            content: "Message in A".to_string(),
        },
    )
    .unwrap();

    db_send_human_message(
        &mut db,
        SendMessageRequest {
            topic_id: topic_b.clone(),
            content: "Message in B".to_string(),
        },
    )
    .unwrap();

    let messages_a = db_list_messages(&mut db, &topic_a).unwrap();
    assert_eq!(messages_a.len(), 1);
    assert_eq!(messages_a[0].content, "Message in A");

    let messages_b = db_list_messages(&mut db, &topic_b).unwrap();
    assert_eq!(messages_b.len(), 1);
    assert_eq!(messages_b[0].content, "Message in B");
}

/// Save message updates topic updated_at
#[test]
fn test_save_message_updates_topic_updated_at() {
    let mut db = setup_test_db();

    // Create topic with a known old timestamp
    let topic_id = uuid::Uuid::new_v4().to_string();
    let old_time = "2020-01-01T00:00:00+00:00";
    db.connection().execute(
        "INSERT INTO topics (id, title, created_at, updated_at) VALUES (?1, 'Test', ?2, ?2)",
        (&topic_id, &old_time),
    )
    .unwrap();

    // Verify initial updated_at
    let before: String = db
        .connection().query_row(
            "SELECT updated_at FROM topics WHERE id = ?1",
            (&topic_id,),
            |row| row.get(0),
        )
        .unwrap();
    assert_eq!(before, old_time);

    // Send a message
    db_send_human_message(
        &mut db,
        SendMessageRequest {
            topic_id: topic_id.clone(),
            content: "Update me".to_string(),
        },
    )
    .unwrap();

    // Verify updated_at changed
    let after: String = db
        .connection().query_row(
            "SELECT updated_at FROM topics WHERE id = ?1",
            (&topic_id,),
            |row| row.get(0),
        )
        .unwrap();
    assert!(after > before, "updated_at should have been updated");
}

#[test]
fn the_attachments_query_is_checked_even_without_messages() {
    let mut db = setup_test_db();
    let topic_id = create_test_topic(&mut db);
    db.connection().execute_batch("DROP TABLE attachments;").unwrap();
    assert!(db_list_messages(&mut db, &topic_id).is_err());
}
