use ai_group_chat::db::Db;
use ai_group_chat::bots::db_create_bot;
use ai_group_chat::models::{Bot, CreateBotRequest, CreateTopicRequest};
use ai_group_chat::schema::run_migrations;
use ai_group_chat::topics::{
    db_create_topic, db_delete_topic, db_get_topic, db_list_topics, db_update_topic_bots,
};
use rusqlite::Connection;

fn setup_test_db() -> Db {
    let mut db = Db::new(Connection::open_in_memory().unwrap());
    db.connection().execute_batch("PRAGMA foreign_keys=ON;").unwrap();
    run_migrations(&mut db).unwrap();
    db
}

fn create_test_bot(db: &mut Db, name: &str) -> Bot {
    db_create_bot(
        db,
        CreateBotRequest {
            name: name.to_string(),
            avatar_color: None,
            base_url: "http://localhost:8080/v1".to_string(),
            api_key: None,
            model: "test-model".to_string(),
            system_prompt: None,
            supports_vision: None,
        },
    )
    .unwrap()
}

/// Create topic with title and 2 bot_ids -> Topic created, both bots in topic.bots
#[test]
fn test_create_topic_with_bots() {
    let mut db = setup_test_db();
    let bot1 = create_test_bot(&mut db, "Bot1");
    let bot2 = create_test_bot(&mut db, "Bot2");

    let topic = db_create_topic(
        &mut db,
        CreateTopicRequest {
            title: "Test Topic".to_string(),
            bot_ids: vec![bot1.id.clone(), bot2.id.clone()],
        },
    )
    .unwrap();

    assert!(!topic.id.is_empty());
    assert_eq!(topic.title, "Test Topic");
    assert!(!topic.created_at.is_empty());
    assert!(!topic.updated_at.is_empty());
    assert_eq!(topic.bots.len(), 2);

    let bot_ids: Vec<&str> = topic.bots.iter().map(|b| b.id.as_str()).collect();
    assert!(bot_ids.contains(&bot1.id.as_str()));
    assert!(bot_ids.contains(&bot2.id.as_str()));
}

/// Create topic with no bots -> Topic created with empty bot list
#[test]
fn test_create_topic_no_bots() {
    let mut db = setup_test_db();

    let topic = db_create_topic(
        &mut db,
        CreateTopicRequest {
            title: "Empty Topic".to_string(),
            bot_ids: vec![],
        },
    )
    .unwrap();

    assert!(!topic.id.is_empty());
    assert_eq!(topic.title, "Empty Topic");
    assert!(topic.bots.is_empty());
}

/// List topics when empty -> empty vec
#[test]
fn test_list_topics_empty() {
    let mut db = setup_test_db();
    let topics = db_list_topics(&mut db).unwrap();
    assert!(topics.is_empty());
}

/// List topics ordered by updated_at DESC -> most recent first
#[test]
fn test_list_topics_ordered_by_updated_at_desc() {
    let mut db = setup_test_db();

    // Create topics with explicit timestamps so ordering is deterministic
    db.connection().execute(
        "INSERT INTO topics (id, title, created_at, updated_at) VALUES ('t1', 'Old Topic', '2024-01-01T00:00:00Z', '2024-01-01T00:00:00Z')",
        [],
    )
    .unwrap();
    db.connection().execute(
        "INSERT INTO topics (id, title, created_at, updated_at) VALUES ('t2', 'New Topic', '2024-06-01T00:00:00Z', '2024-06-01T00:00:00Z')",
        [],
    )
    .unwrap();
    db.connection().execute(
        "INSERT INTO topics (id, title, created_at, updated_at) VALUES ('t3', 'Middle Topic', '2024-03-01T00:00:00Z', '2024-03-01T00:00:00Z')",
        [],
    )
    .unwrap();

    let topics = db_list_topics(&mut db).unwrap();
    assert_eq!(topics.len(), 3);
    assert_eq!(topics[0].title, "New Topic");
    assert_eq!(topics[1].title, "Middle Topic");
    assert_eq!(topics[2].title, "Old Topic");
}

/// Get topic includes associated bots -> correct bots vec
#[test]
fn test_get_topic_includes_bots() {
    let mut db = setup_test_db();
    let bot1 = create_test_bot(&mut db, "AlphaBot");
    let bot2 = create_test_bot(&mut db, "BetaBot");

    let created = db_create_topic(
        &mut db,
        CreateTopicRequest {
            title: "Topic With Bots".to_string(),
            bot_ids: vec![bot1.id.clone(), bot2.id.clone()],
        },
    )
    .unwrap();

    let topic = db_get_topic(&mut db, &created.id).unwrap();
    assert_eq!(topic.title, "Topic With Bots");
    assert_eq!(topic.bots.len(), 2);

    // Bots are ordered by name
    assert_eq!(topic.bots[0].name, "AlphaBot");
    assert_eq!(topic.bots[1].name, "BetaBot");
}

/// Update topic bots (replace all) -> old bots gone, new ones present
#[test]
fn test_update_topic_bots_replaces_all() {
    let mut db = setup_test_db();
    let bot1 = create_test_bot(&mut db, "Bot1");
    let bot2 = create_test_bot(&mut db, "Bot2");
    let bot3 = create_test_bot(&mut db, "Bot3");

    let topic = db_create_topic(
        &mut db,
        CreateTopicRequest {
            title: "Updatable Topic".to_string(),
            bot_ids: vec![bot1.id.clone(), bot2.id.clone()],
        },
    )
    .unwrap();

    assert_eq!(topic.bots.len(), 2);

    // Replace bots: remove bot1+bot2, add bot3
    let updated = db_update_topic_bots(&mut db, &topic.id, vec![bot3.id.clone()]).unwrap();

    assert_eq!(updated.bots.len(), 1);
    assert_eq!(updated.bots[0].id, bot3.id);

    // Verify updated_at changed
    assert!(updated.updated_at >= topic.updated_at);
}

/// Delete topic cascades to topic_bots -> no orphaned records
#[test]
fn test_delete_topic_cascades_to_topic_bots() {
    let mut db = setup_test_db();
    let bot1 = create_test_bot(&mut db, "Bot1");

    let topic = db_create_topic(
        &mut db,
        CreateTopicRequest {
            title: "Deletable Topic".to_string(),
            bot_ids: vec![bot1.id.clone()],
        },
    )
    .unwrap();

    // Verify topic_bots entry exists
    let count: i64 = db
        .connection().query_row(
            "SELECT COUNT(*) FROM topic_bots WHERE topic_id = ?1",
            (&topic.id,),
            |row| row.get(0),
        )
        .unwrap();
    assert_eq!(count, 1);

    // Delete topic
    db_delete_topic(&mut db, &topic.id).unwrap();

    // Verify topic_bots entries are gone (cascaded)
    let count: i64 = db
        .connection().query_row(
            "SELECT COUNT(*) FROM topic_bots WHERE topic_id = ?1",
            (&topic.id,),
            |row| row.get(0),
        )
        .unwrap();
    assert_eq!(count, 0);

    // Verify topic is gone
    let topics = db_list_topics(&mut db).unwrap();
    assert!(topics.is_empty());
}

/// Delete topic cascades to messages -> messages for that topic deleted
#[test]
fn test_delete_topic_cascades_to_messages() {
    let mut db = setup_test_db();

    let topic = db_create_topic(
        &mut db,
        CreateTopicRequest {
            title: "Topic With Messages".to_string(),
            bot_ids: vec![],
        },
    )
    .unwrap();

    // Insert messages directly via SQL
    db.connection().execute(
        "INSERT INTO messages (id, topic_id, sender_type, content, created_at) VALUES ('m1', ?1, 'human', 'Hello!', datetime('now'))",
        (&topic.id,),
    )
    .unwrap();
    db.connection().execute(
        "INSERT INTO messages (id, topic_id, sender_type, content, created_at) VALUES ('m2', ?1, 'human', 'World!', datetime('now'))",
        (&topic.id,),
    )
    .unwrap();

    // Verify messages exist
    let count: i64 = db
        .connection().query_row(
            "SELECT COUNT(*) FROM messages WHERE topic_id = ?1",
            (&topic.id,),
            |row| row.get(0),
        )
        .unwrap();
    assert_eq!(count, 2);

    // Delete topic
    db_delete_topic(&mut db, &topic.id).unwrap();

    // Verify messages are gone (cascaded)
    let count: i64 = db
        .connection().query_row(
            "SELECT COUNT(*) FROM messages WHERE topic_id = ?1",
            (&topic.id,),
            |row| row.get(0),
        )
        .unwrap();
    assert_eq!(count, 0);
}

/// Topic summary includes last_message_preview -> shows latest message content
#[test]
fn test_topic_summary_last_message_preview() {
    let mut db = setup_test_db();

    let topic = db_create_topic(
        &mut db,
        CreateTopicRequest {
            title: "Topic With Preview".to_string(),
            bot_ids: vec![],
        },
    )
    .unwrap();

    // Insert messages with different timestamps
    db.connection().execute(
        "INSERT INTO messages (id, topic_id, sender_type, content, created_at) VALUES ('m1', ?1, 'human', 'First message', '2024-01-01T00:00:00Z')",
        (&topic.id,),
    )
    .unwrap();
    db.connection().execute(
        "INSERT INTO messages (id, topic_id, sender_type, content, created_at) VALUES ('m2', ?1, 'human', 'Latest message', '2024-06-01T00:00:00Z')",
        (&topic.id,),
    )
    .unwrap();

    let topics = db_list_topics(&mut db).unwrap();
    assert_eq!(topics.len(), 1);
    assert_eq!(
        topics[0].last_message_preview,
        Some("Latest message".to_string())
    );
}

/// Topic summary bot_count is accurate -> reflects associated bot count
#[test]
fn test_topic_summary_bot_count() {
    let mut db = setup_test_db();
    let bot1 = create_test_bot(&mut db, "Bot1");
    let bot2 = create_test_bot(&mut db, "Bot2");
    let bot3 = create_test_bot(&mut db, "Bot3");

    let topic = db_create_topic(
        &mut db,
        CreateTopicRequest {
            title: "Topic With 3 Bots".to_string(),
            bot_ids: vec![bot1.id.clone(), bot2.id.clone(), bot3.id.clone()],
        },
    )
    .unwrap();

    let topics = db_list_topics(&mut db).unwrap();
    assert_eq!(topics.len(), 1);
    assert_eq!(topics[0].bot_count, 3);
    assert_eq!(topics[0].id, topic.id);

    // Also test a topic with no bots
    db_create_topic(
        &mut db,
        CreateTopicRequest {
            title: "Empty Bot Topic".to_string(),
            bot_ids: vec![],
        },
    )
    .unwrap();

    let topics = db_list_topics(&mut db).unwrap();
    // Find the empty one (most recently updated should be first)
    let empty_topic = topics.iter().find(|t| t.title == "Empty Bot Topic").unwrap();
    assert_eq!(empty_topic.bot_count, 0);
}
