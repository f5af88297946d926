use ai_group_chat::db::Db;
use base64::Engine;
use std::cell::RefCell;
use std::collections::HashMap;

use ai_group_chat::attachments::db_save_attachment;
use ai_group_chat::bots::db_create_bot;
use ai_group_chat::messages::{db_list_messages, db_save_bot_message, db_send_human_message};
use ai_group_chat::models::{Bot, CreateBotRequest, CreateTopicRequest, SendMessageRequest};
use ai_group_chat::schema::run_migrations;
use ai_group_chat::topics::{db_create_topic, db_get_topic};
use ai_group_chat::transfer::{
    attachment_export, db_export_topic, db_import_topic, export_topic_data, import_plan, megabytes,
    validate_import,
    AttachmentExport, AttachmentProbe, BotExportMeta, MessageExport, TopicExport, TopicMeta,
};
use rusqlite::Connection;

/// Files kept in memory, by path.
struct Files {
    files: RefCell<HashMap<String, Vec<u8>>>,
    dir: String,
}

impl Files {
    fn new(dir: &str) -> Files {
        Files { files: RefCell::new(HashMap::new()), dir: dir.to_string() }
    }

    fn store(&self, name: String, data: Vec<u8>) -> Result<String, String> {
        let path = format!("{}/{}", self.dir, name);
        self.files.borrow_mut().insert(path.clone(), data);
        Ok(path)
    }

    fn size(&self, path: String) -> Result<u64, String> {
        match self.files.borrow().get(&path) {
            Some(d) => Ok(d.len() as u64),
            None => Err("No such file or directory (os error 2)".to_string()),
        }
    }

    fn read(&self, path: String) -> Result<Vec<u8>, String> {
        match self.files.borrow().get(&path) {
            Some(d) => Ok(d.clone()),
            None => Err("No such file or directory (os error 2)".to_string()),
        }
    }

    fn get(&self, path: &str) -> Option<Vec<u8>> {
        self.files.borrow().get(path).cloned()
    }
}

fn setup_test_db() -> Db {
    let mut db = Db::new(Connection::open_in_memory().unwrap());
    db.connection().execute_batch("PRAGMA foreign_keys=ON;").unwrap();
    run_migrations(&mut db).unwrap();
    db
}

fn create_test_bot(db: &mut Db, name: &str) -> Bot {
    db_create_bot(
        db,
        CreateBotRequest {
            name: name.to_string(),
            avatar_color: Some("#ff0000".to_string()),
            base_url: "http://localhost:8080/v1".to_string(),
            api_key: Some("sk-test".to_string()),
            model: "test-model".to_string(),
            system_prompt: Some("You are helpful.".to_string()),
            supports_vision: Some(true),
        },
    )
    .unwrap()
}

fn export(db: &mut Db, files: &Files, topic_id: &str) -> Result<TopicExport, String> {
    db_export_topic(db, topic_id, |p| files.size(p), |p| files.read(p))
}

fn import(db: &mut Db, files: &Files, data: &TopicExport) -> Result<String, String> {
    db_import_topic(db, data, |n, d| files.store(n, d))
}

fn export_data(title: &str, bots: Vec<BotExportMeta>, messages: Vec<MessageExport>) -> TopicExport {
    TopicExport {
        format: "ai-group-chat-export".to_string(),
        version: 1,
        exported_at: "2026-03-04T12:00:00+00:00".to_string(),
        topic: TopicMeta {
            title: title.to_string(),
            created_at: "2026-03-04T10:00:00+00:00".to_string(),
        },
        bots,
        messages,
    }
}

#[test]
fn test_export_json_structure() {
    let mut db = setup_test_db();
    let files = Files::new("/data/attachments");
    let bot = create_test_bot(&mut db, "Opus 4.6");
    let topic = db_create_topic(
        &mut db,
        CreateTopicRequest { title: "Test Topic".to_string(), bot_ids: vec![bot.id.clone()] },
    )
    .unwrap();

    db_send_human_message(
        &mut db,
        SendMessageRequest { topic_id: topic.id.clone(), content: "Hello bots!".to_string() },
    )
    .unwrap();
    db_save_bot_message(&mut db, &topic.id, &bot.id, "Hello human!").unwrap();

    let export = export(&mut db, &files, &topic.id).unwrap();

    assert_eq!(export.format, "ai-group-chat-export");
    assert_eq!(export.version, 1);
    assert_eq!(export.topic.title, "Test Topic");
    assert_eq!(export.bots.len(), 1);
    assert_eq!(export.bots[0].name, "Opus 4.6");
    assert_eq!(export.bots[0].model, "test-model");
    assert_eq!(export.bots[0].system_prompt, "You are helpful.");
    assert!(export.bots[0].supports_vision);
    assert_eq!(export.messages.len(), 2);

    assert_eq!(export.messages[0].sender_type, "human");
    assert!(export.messages[0].sender_bot_name.is_none());
    assert_eq!(export.messages[0].content, "Hello bots!");

    assert_eq!(export.messages[1].sender_type, "bot");
    assert_eq!(export.messages[1].sender_bot_name.as_deref(), Some("Opus 4.6"));
    assert_eq!(export.messages[1].content, "Hello human!");

    // No endpoint or key in anything exported.
    let text = format!("{:?}", export);
    assert!(!text.contains("sk-test"));
    assert!(!text.contains("localhost:8080"));
}

#[test]
fn test_export_base64_attachments() {
    let mut db = setup_test_db();
    let files = Files::new("/data/attachments");
    let bot = create_test_bot(&mut db, "TestBot");
    let topic = db_create_topic(
        &mut db,
        CreateTopicRequest { title: "Attachment Test".to_string(), bot_ids: vec![bot.id.clone()] },
    )
    .unwrap();
    let msg = db_send_human_message(
        &mut db,
        SendMessageRequest { topic_id: topic.id.clone(), content: "See attached".to_string() },
    )
    .unwrap();
    db_save_attachment(&mut db, &msg.id, "test.png", b"fake png data".to_vec(), "image/png", |n, d| {
        files.store(n, d)
    })
    .unwrap();

    let export = export(&mut db, &files, &topic.id).unwrap();
    assert_eq!(export.messages[0].attachments.len(), 1);

    let att = &export.messages[0].attachments[0];
    assert_eq!(att.file_name, "test.png");
    assert_eq!(att.file_type, "image");
    assert_eq!(att.mime_type, "image/png");
    assert!(!att.skipped);
    assert!(att.skip_reason.is_none());

    let decoded = base64::engine::general_purpose::STANDARD
        .decode(att.data_base64.as_ref().unwrap())
        .unwrap();
    assert_eq!(decoded, b"fake png data");
}

#[test]
fn test_export_skips_large_files() {
    let mut db = setup_test_db();
    let files = Files::new("/data/attachments");
    let bot = create_test_bot(&mut db, "TestBot");
    let topic = db_create_topic(
        &mut db,
        CreateTopicRequest { title: "Large File Test".to_string(), bot_ids: vec![bot.id.clone()] },
    )
    .unwrap();
    let msg = db_send_human_message(
        &mut db,
        SendMessageRequest { topic_id: topic.id.clone(), content: "Big file".to_string() },
    )
    .unwrap();
    let large_data = vec![0u8; 11 * 1024 * 1024];
    db_save_attachment(&mut db, &msg.id, "huge.bin", large_data, "application/octet-stream", |n, d| {
        files.store(n, d)
    })
    .unwrap();

    let export = export(&mut db, &files, &topic.id).unwrap();
    let att = &export.messages[0].attachments[0];
    assert!(att.skipped);
    assert!(att.data_base64.is_none());
    assert!(att.skip_reason.as_ref().unwrap().contains("too large"));
    assert_eq!(att.skip_reason.as_deref(), Some("File too large (11.0MB, max 10MB)"));
}

#[test]
fn test_export_handles_missing_file() {
    let mut db = setup_test_db();
    let files = Files::new("/data/attachments");
    let bot = create_test_bot(&mut db, "TestBot");
    let topic = db_create_topic(
        &mut db,
        CreateTopicRequest { title: "Missing File Test".to_string(), bot_ids: vec![bot.id.clone()] },
    )
    .unwrap();
    let msg = db_send_human_message(
        &mut db,
        SendMessageRequest { topic_id: topic.id.clone(), content: "File gone".to_string() },
    )
    .unwrap();

    let att_id = uuid::Uuid::new_v4().to_string();
    db.connection().execute(
        "INSERT INTO attachments (id, message_id, file_name, file_path, file_type, mime_type, created_at)
         VALUES (?1, ?2, 'ghost.txt', '/tmp/nonexistent_file_12345.txt', 'file', 'text/plain', datetime('now'))",
        (&att_id, &msg.id),
    )
    .unwrap();

    let export = export(&mut db, &files, &topic.id).unwrap();
    let att = &export.messages[0].attachments[0];
    assert!(att.skipped);
    assert!(att.skip_reason.as_ref().unwrap().contains("not found"));
}

#[test]
fn test_import_topic_suffix() {
    let mut db = setup_test_db();
    let files = Files::new("/data/imported");
    let _ = create_test_bot(&mut db, "Opus 4.6");

    let data = export_data(
        "My Discussion",
        vec![BotExportMeta {
            name: "Opus 4.6".to_string(),
            avatar_color: "#ff0000".to_string(),
            model: "test-model".to_string(),
            system_prompt: "You are helpful.".to_string(),
            supports_vision: true,
        }],
        vec![MessageExport {
            sender_type: "human".to_string(),
            sender_bot_name: None,
            content: "Hello!".to_string(),
            created_at: "2026-03-04T10:00:01+00:00".to_string(),
            attachments: vec![],
        }],
    );

    let topic_id = import(&mut db, &files, &data).unwrap();
    let topic = db_get_topic(&mut db, &topic_id).unwrap();
    assert_eq!(topic.title, "My Discussion (imported)");
    assert_eq!(topic.bots.len(), 1);
    assert_eq!(topic.bots[0].name, "Opus 4.6");
}

#[test]
fn test_import_bot_matching() {
    let mut db = setup_test_db();
    let files = Files::new("/data/imported");
    let _ = create_test_bot(&mut db, "Opus 4.6");

    let data = export_data(
        "Bot Match Test",
        vec![
            BotExportMeta {
                name: "Opus 4.6".to_string(),
                avatar_color: "#ff0000".to_string(),
                model: "test-model".to_string(),
                system_prompt: "".to_string(),
                supports_vision: false,
            },
            BotExportMeta {
                name: "NonExistentBot".to_string(),
                avatar_color: "#00ff00".to_string(),
                model: "unknown-model".to_string(),
                system_prompt: "".to_string(),
                supports_vision: false,
            },
        ],
        vec![
            MessageExport {
                sender_type: "bot".to_string(),
                sender_bot_name: Some("Opus 4.6".to_string()),
                content: "Matched bot".to_string(),
                created_at: "2026-03-04T10:00:01+00:00".to_string(),
                attachments: vec![],
            },
            MessageExport {
                sender_type: "bot".to_string(),
                sender_bot_name: Some("NonExistentBot".to_string()),
                content: "Unmatched bot".to_string(),
                created_at: "2026-03-04T10:00:02+00:00".to_string(),
                attachments: vec![],
            },
        ],
    );

    let topic_id = import(&mut db, &files, &data).unwrap();
    let topic = db_get_topic(&mut db, &topic_id).unwrap();
    assert_eq!(topic.bots.len(), 1);
    assert_eq!(topic.bots[0].name, "Opus 4.6");

    let messages = db_list_messages(&mut db, &topic_id).unwrap();
    assert_eq!(messages.len(), 2);
    assert!(messages[0].sender_bot_id.is_some());
    assert!(messages[1].sender_bot_id.is_none());
}

#[test]
fn test_import_attachments() {
    let mut db = setup_test_db();
    let files = Files::new("/data/imported");

    let file_data = b"imported file content";
    let data_b64 = base64::engine::general_purpose::STANDARD.encode(file_data);

    let data = export_data(
        "Attachment Import",
        vec![],
        vec![MessageExport {
            sender_type: "human".to_string(),
            sender_bot_name: None,
            content: "With attachment".to_string(),
            created_at: "2026-03-04T10:00:01+00:00".to_string(),
            attachments: vec![AttachmentExport {
                file_name: "doc.txt".to_string(),
                file_type: "file".to_string(),
                mime_type: "text/plain".to_string(),
                data_base64: Some(data_b64),
                skipped: false,
                skip_reason: None,
            }],
        }],
    );

    let topic_id = import(&mut db, &files, &data).unwrap();
    let messages = db_list_messages(&mut db, &topic_id).unwrap();
    assert_eq!(messages[0].attachments.len(), 1);

    let att = &messages[0].attachments[0];
    assert_eq!(att.file_name, "doc.txt");
    let saved_data = files.get(&att.file_path).unwrap();
    assert_eq!(saved_data, file_data);
}

#[test]
fn test_import_skips_skipped_attachments() {
    let mut db = setup_test_db();
    let files = Files::new("/data/imported");

    let data = export_data(
        "Skip Test",
        vec![],
        vec![MessageExport {
            sender_type: "human".to_string(),
            sender_bot_name: None,
            content: "Skipped att".to_string(),
            created_at: "2026-03-04T10:00:01+00:00".to_string(),
            attachments: vec![AttachmentExport {
                file_name: "huge.bin".to_string(),
                file_type: "file".to_string(),
                mime_type: "application/octet-stream".to_string(),
                data_base64: None,
                skipped: true,
                skip_reason: Some("File too large".to_string()),
            }],
        }],
    );

    let topic_id = import(&mut db, &files, &data).unwrap();
    let messages = db_list_messages(&mut db, &topic_id).unwrap();
    assert_eq!(messages[0].attachments.len(), 0);
}

#[test]
fn test_round_trip() {
    let mut db = setup_test_db();
    let files = Files::new("/data/attachments");
    let bot = create_test_bot(&mut db, "RoundTripBot");
    let topic = db_create_topic(
        &mut db,
        CreateTopicRequest { title: "Round Trip".to_string(), bot_ids: vec![bot.id.clone()] },
    )
    .unwrap();
    let msg = db_send_human_message(
        &mut db,
        SendMessageRequest { topic_id: topic.id.clone(), content: "Human says hi".to_string() },
    )
    .unwrap();
    db_save_attachment(&mut db, &msg.id, "round.txt", b"round trip data".to_vec(), "text/plain", |n, d| {
        files.store(n, d)
    })
    .unwrap();
    db_save_bot_message(&mut db, &topic.id, &bot.id, "Bot says hi").unwrap();

    let exported = export(&mut db, &files, &topic.id).unwrap();
    let import_files = Files::new("/data/imported");
    let new_topic_id = import(&mut db, &import_files, &exported).unwrap();

    let new_topic = db_get_topic(&mut db, &new_topic_id).unwrap();
    assert_eq!(new_topic.title, "Round Trip (imported)");
    assert_eq!(new_topic.bots.len(), 1);
    assert_eq!(new_topic.bots[0].name, "RoundTripBot");

    let new_messages = db_list_messages(&mut db, &new_topic_id).unwrap();
    assert_eq!(new_messages.len(), 2);
    assert_eq!(new_messages[0].content, "Human says hi");
    assert_eq!(new_messages[0].sender_type, "human");
    assert_eq!(new_messages[0].attachments.len(), 1);
    assert_eq!(new_messages[1].content, "Bot says hi");
    assert_eq!(new_messages[1].sender_type, "bot");
    assert!(new_messages[1].sender_bot_id.is_some());

    let att = &new_messages[0].attachments[0];
    let data = import_files.get(&att.file_path).unwrap();
    assert_eq!(data, b"round trip data");
}

#[test]
fn test_import_rejects_bad_format() {
    let mut db = setup_test_db();
    let files = Files::new("/data/imported");
    let mut bad_data = export_data("Bad", vec![], vec![]);
    bad_data.format = "wrong-format".to_string();

    let result = import(&mut db, &files, &bad_data);
    assert!(result.is_err());
    assert!(result.unwrap_err().contains("Invalid format"));
}

#[test]
fn test_import_rejects_bad_version() {
    let mut db = setup_test_db();
    let files = Files::new("/data/imported");
    let mut bad_data = export_data("Bad", vec![], vec![]);
    bad_data.version = 99;

    let result = import(&mut db, &files, &bad_data);
    assert!(result.is_err());
    assert!(result.unwrap_err().contains("Unsupported version"));
}

#[test]
fn import_errors_read_in_full() {
    let mut data = export_data("Bad", vec![], vec![]);
    data.format = "other".to_string();
    assert_eq!(
        validate_import(&data),
        Err("Invalid format: expected 'ai-group-chat-export', got 'other'".to_string())
    );
    data.format = "ai-group-chat-export".to_string();
    data.version = 2;
    assert_eq!(validate_import(&data), Err("Unsupported version: 2".to_string()));
    data.version = 1;
    assert_eq!(validate_import(&data), Ok(()));
}

#[test]
fn refused_import_stores_nothing() {
    let mut db = setup_test_db();
    let files = Files::new("/data/imported");
    let mut bad = export_data("Bad", vec![], vec![]);
    bad.version = 7;
    assert!(import(&mut db, &files, &bad).is_err());
    let topics: i64 = db.connection().query_row("SELECT COUNT(*) FROM topics", [], |r| r.get(0)).unwrap();
    assert_eq!(topics, 0);
}

#[test]
fn bad_base64_fails_the_import() {
    let mut db = setup_test_db();
    let files = Files::new("/data/imported");
    let data = export_data(
        "B64",
        vec![],
        vec![MessageExport {
            sender_type: "human".to_string(),
            sender_bot_name: None,
            content: "x".to_string(),
            created_at: "2026-03-04T10:00:01+00:00".to_string(),
            attachments: vec![AttachmentExport {
                file_name: "a.txt".to_string(),
                file_type: "file".to_string(),
                mime_type: "text/plain".to_string(),
                data_base64: Some("@@not base64@@".to_string()),
                skipped: false,
                skip_reason: None,
            }],
        }],
    );
    let err = import(&mut db, &files, &data).unwrap_err();
    assert!(err.starts_with("Failed to decode base64 attachment: "));
    let topics: i64 = db
        .connection()
        .query_row("SELECT COUNT(*) FROM topics WHERE title = 'B64 (imported)'", [], |row| row.get(0))
        .unwrap();
    assert_eq!(topics, 1);
    let messages: i64 = db.connection().query_row("SELECT COUNT(*) FROM messages", [], |row| row.get(0)).unwrap();
    assert_eq!(messages, 1);
    let attachments: i64 = db.connection().query_row("SELECT COUNT(*) FROM attachments", [], |row| row.get(0)).unwrap();
    assert_eq!(attachments, 0);
}

#[test]
fn duplicate_local_names_match_the_last_bot() {
    let mut db = setup_test_db();
    let files = Files::new("/data/imported");
    let _first = create_test_bot(&mut db, "Twin");
    let second = create_test_bot(&mut db, "Twin");
    let data = export_data(
        "Twins",
        vec![BotExportMeta {
            name: "Twin".to_string(),
            avatar_color: "#000000".to_string(),
            model: "m".to_string(),
            system_prompt: "".to_string(),
            supports_vision: false,
        }],
        vec![MessageExport {
            sender_type: "bot".to_string(),
            sender_bot_name: Some("Twin".to_string()),
            content: "hi".to_string(),
            created_at: "2026-03-04T10:00:01+00:00".to_string(),
            attachments: vec![],
        }],
    );
    let topic_id = import(&mut db, &files, &data).unwrap();
    let topic = db_get_topic(&mut db, &topic_id).unwrap();
    assert_eq!(topic.bots.len(), 1);
    assert_eq!(topic.bots[0].id, second.id);
    let messages = db_list_messages(&mut db, &topic_id).unwrap();
    assert_eq!(messages[0].sender_bot_id.as_deref(), Some(second.id.as_str()));
}

#[test]
fn size_labels_round_like_the_float_format() {
    assert_eq!(megabytes(11 * 1024 * 1024), "11.0");
    assert_eq!(megabytes(10 * 1024 * 1024 + 1), "10.0");
    assert_eq!(megabytes(10_538_188), "10.0");
    assert_eq!(megabytes(10_538_189), "10.1");
    assert_eq!(megabytes(262_144), "0.2");
    assert_eq!(megabytes(786_432), "0.8");
    for size in [
        262_144u64, 786_432, 10_485_761, 10_538_188, 10_538_189, 10_999_999, 12_345_678, 104_857_600,
        157_286_400, 1_000_000_000,
    ] {
        assert_eq!(megabytes(size), format!("{:.1}", size as f64 / 1_048_576.0));
    }
}

#[test]
fn unreadable_attachment_is_skipped_with_the_error() {
    let mut db = setup_test_db();
    let bot = create_test_bot(&mut db, "X");
    let att = ai_group_chat::models::Attachment {
        id: "a".to_string(),
        message_id: "m".to_string(),
        file_name: "f.txt".to_string(),
        file_path: "/p".to_string(),
        file_type: "file".to_string(),
        mime_type: "text/plain".to_string(),
        created_at: "t".to_string(),
    };
    let _ = bot;
    let e = attachment_export(&att, &AttachmentProbe::Unreadable("Permission denied (os error 13)".to_string()));
    assert!(e.skipped);
    assert_eq!(e.skip_reason.as_deref(), Some("Failed to read file: Permission denied (os error 13)"));
    let e = attachment_export(&att, &AttachmentProbe::Missing("No such file or directory (os error 2)".to_string()));
    assert_eq!(e.skip_reason.as_deref(), Some("File not found: No such file or directory (os error 2)"));
    let e = attachment_export(&att, &AttachmentProbe::Read(b"hi".to_vec()));
    assert!(!e.skipped);
    assert_eq!(e.data_base64.as_deref(), Some("aGk="));
}

fn local_bot(id: &str, name: &str) -> Bot {
    Bot {
        id: id.to_string(),
        name: name.to_string(),
        avatar_color: "#000000".to_string(),
        base_url: "http://x".to_string(),
        api_key: "".to_string(),
        model: "m".to_string(),
        system_prompt: "".to_string(),
        supports_vision: false,
        created_at: "t".to_string(),
    }
}

fn bot_meta(name: &str) -> BotExportMeta {
    BotExportMeta {
        name: name.to_string(),
        avatar_color: "#000000".to_string(),
        model: "m".to_string(),
        system_prompt: "".to_string(),
        supports_vision: false,
    }
}

#[test]
fn import_plan_matches_names_and_decodes() {
    let local = vec![local_bot("l1", "Ada"), local_bot("l2", "Lin")];
    let data = export_data(
        "Plan",
        vec![bot_meta("Lin"), bot_meta("Nobody"), bot_meta("Ada"), bot_meta("Lin")],
        vec![MessageExport {
            sender_type: "bot".to_string(),
            sender_bot_name: Some("Ada".to_string()),
            content: "hello".to_string(),
            created_at: "c".to_string(),
            attachments: vec![
                AttachmentExport {
                    file_name: "a.txt".to_string(),
                    file_type: "file".to_string(),
                    mime_type: "text/plain".to_string(),
                    data_base64: Some("aGk=".to_string()),
                    skipped: false,
                    skip_reason: None,
                },
                AttachmentExport {
                    file_name: "b.bin".to_string(),
                    file_type: "file".to_string(),
                    mime_type: "application/octet-stream".to_string(),
                    data_base64: Some("aGk=".to_string()),
                    skipped: true,
                    skip_reason: Some("x".to_string()),
                },
                AttachmentExport {
                    file_name: "c.bin".to_string(),
                    file_type: "file".to_string(),
                    mime_type: "application/octet-stream".to_string(),
                    data_base64: Some("!!".to_string()),
                    skipped: false,
                    skip_reason: None,
                },
            ],
        }],
    );
    let plan = import_plan(&data, &local);
    assert_eq!(plan.bot_ids, vec!["l2".to_string(), "l1".to_string()]);
    let m = &plan.messages[0];
    assert_eq!(m.sender_bot_id.as_deref(), Some("l1"));
    assert_eq!(m.attachments[0].data, Ok(Some(b"hi".to_vec())));
    assert_eq!(m.attachments[1].data, Ok(None));
    assert!(m.attachments[2].data.as_ref().unwrap_err().starts_with("Failed to decode base64 attachment: "));
}

#[test]
fn export_data_names_senders_from_the_topic() {
    let topic = ai_group_chat::models::Topic {
        id: "t".to_string(),
        title: "T".to_string(),
        created_at: "c".to_string(),
        updated_at: "u".to_string(),
        bots: vec![local_bot("b1", "Ada")],
    };
    let msg = |sender: Option<&str>| ai_group_chat::models::Message {
        id: "m".to_string(),
        topic_id: "t".to_string(),
        sender_type: if sender.is_some() { "bot" } else { "human" }.to_string(),
        sender_bot_id: sender.map(|s| s.to_string()),
        content: "x".to_string(),
        created_at: "c".to_string(),
        attachments: vec![],
    };
    let messages = vec![msg(None), msg(Some("b1")), msg(Some("gone"))];
    let e = export_topic_data(&topic, &messages, &vec![vec![], vec![], vec![]], "now".to_string());
    assert_eq!(e.exported_at, "now");
    assert_eq!(e.messages[0].sender_bot_name, None);
    assert_eq!(e.messages[1].sender_bot_name.as_deref(), Some("Ada"));
    assert_eq!(e.messages[2].sender_bot_name, None);
}
