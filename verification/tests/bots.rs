use ai_group_chat::db::Db;
use ai_group_chat::bots::{
    db_create_bot, db_delete_bot, db_list_bots, db_update_bot, merge_bot_update, new_bot,
};
use ai_group_chat::models::{Bot, CreateBotRequest, UpdateBotRequest};
use ai_group_chat::schema::run_migrations;
use rusqlite::Connection;

fn setup_test_db() -> Db {
    let mut db = Db::new(Connection::open_in_memory().unwrap());
    db.connection().execute_batch("PRAGMA foreign_keys=ON;").unwrap();
    run_migrations(&mut db).unwrap();
    db
}

fn make_full_create_request() -> CreateBotRequest {
    CreateBotRequest {
        name: "TestBot".to_string(),
        avatar_color: Some("#ff0000".to_string()),
        base_url: "https://api.openai.com/v1".to_string(),
        api_key: Some("sk-test-key".to_string()),
        model: "gpt-4".to_string(),
        system_prompt: Some("You are a helpful assistant.".to_string()),
        supports_vision: Some(true),
    }
}

fn make_minimal_create_request() -> CreateBotRequest {
    CreateBotRequest {
        name: "MinimalBot".to_string(),
        avatar_color: None,
        base_url: "https://api.openai.com/v1".to_string(),
        api_key: None,
        model: "gpt-3.5-turbo".to_string(),
        system_prompt: None,
        supports_vision: None,
    }
}

#[test]
fn test_create_bot_all_fields() {
    let mut db = setup_test_db();
    let req = make_full_create_request();
    let bot = db_create_bot(&mut db, req).unwrap();

    assert!(!bot.id.is_empty());
    assert_eq!(bot.name, "TestBot");
    assert_eq!(bot.avatar_color, "#ff0000");
    assert_eq!(bot.base_url, "https://api.openai.com/v1");
    assert_eq!(bot.api_key, "sk-test-key");
    assert_eq!(bot.model, "gpt-4");
    assert_eq!(bot.system_prompt, "You are a helpful assistant.");
    assert!(bot.supports_vision);
    assert!(!bot.created_at.is_empty());

    let bots = db_list_bots(&mut db).unwrap();
    assert_eq!(bots.len(), 1);
    assert_eq!(bots[0].id, bot.id);
}

#[test]
fn test_create_bot_defaults() {
    let mut db = setup_test_db();
    let req = make_minimal_create_request();
    let bot = db_create_bot(&mut db, req).unwrap();

    assert!(!bot.id.is_empty());
    assert_eq!(bot.name, "MinimalBot");
    assert_eq!(bot.avatar_color, "#6366f1");
    assert_eq!(bot.api_key, "");
    assert_eq!(bot.system_prompt, "");
    assert!(!bot.supports_vision);
}

#[test]
fn test_list_bots_empty() {
    let mut db = setup_test_db();
    let bots = db_list_bots(&mut db).unwrap();
    assert!(bots.is_empty());
}

#[test]
fn test_list_bots_ordered() {
    let mut db = setup_test_db();
    for i in 1..=3 {
        let req = CreateBotRequest {
            name: format!("Bot{}", i),
            avatar_color: None,
            base_url: "https://api.example.com".to_string(),
            api_key: None,
            model: "gpt-4".to_string(),
            system_prompt: None,
            supports_vision: None,
        };
        db_create_bot(&mut db, req).unwrap();
    }

    let bots = db_list_bots(&mut db).unwrap();
    assert_eq!(bots.len(), 3);
    for i in 0..bots.len() - 1 {
        assert!(bots[i].created_at <= bots[i + 1].created_at);
    }
    assert_eq!(bots[0].name, "Bot1");
    assert_eq!(bots[1].name, "Bot2");
    assert_eq!(bots[2].name, "Bot3");
}

#[test]
fn test_update_bot_name_only() {
    let mut db = setup_test_db();
    let bot = db_create_bot(&mut db, make_full_create_request()).unwrap();

    let update_req = UpdateBotRequest {
        name: Some("UpdatedName".to_string()),
        avatar_color: None,
        base_url: None,
        api_key: None,
        model: None,
        system_prompt: None,
        supports_vision: None,
    };

    let updated = db_update_bot(&mut db, &bot.id, update_req).unwrap();
    assert_eq!(updated.name, "UpdatedName");
    assert_eq!(updated.avatar_color, bot.avatar_color);
    assert_eq!(updated.base_url, bot.base_url);
    assert_eq!(updated.api_key, bot.api_key);
    assert_eq!(updated.model, bot.model);
    assert_eq!(updated.system_prompt, bot.system_prompt);
    assert_eq!(updated.supports_vision, bot.supports_vision);
    assert_eq!(updated.created_at, bot.created_at);
}

#[test]
fn test_update_bot_all_fields() {
    let mut db = setup_test_db();
    let bot = db_create_bot(&mut db, make_full_create_request()).unwrap();

    let update_req = UpdateBotRequest {
        name: Some("NewName".to_string()),
        avatar_color: Some("#00ff00".to_string()),
        base_url: Some("https://new-api.example.com".to_string()),
        api_key: Some("sk-new-key".to_string()),
        model: Some("gpt-4-turbo".to_string()),
        system_prompt: Some("New prompt".to_string()),
        supports_vision: Some(false),
    };

    let updated = db_update_bot(&mut db, &bot.id, update_req).unwrap();
    assert_eq!(updated.name, "NewName");
    assert_eq!(updated.avatar_color, "#00ff00");
    assert_eq!(updated.base_url, "https://new-api.example.com");
    assert_eq!(updated.api_key, "sk-new-key");
    assert_eq!(updated.model, "gpt-4-turbo");
    assert_eq!(updated.system_prompt, "New prompt");
    assert!(!updated.supports_vision);
    assert_eq!(updated.created_at, bot.created_at);
}

#[test]
fn test_delete_bot() {
    let mut db = setup_test_db();
    let bot = db_create_bot(&mut db, make_full_create_request()).unwrap();
    assert_eq!(db_list_bots(&mut db).unwrap().len(), 1);
    db_delete_bot(&mut db, &bot.id).unwrap();
    assert!(db_list_bots(&mut db).unwrap().is_empty());
}

#[test]
fn test_delete_nonexistent_bot() {
    let mut db = setup_test_db();
    let result = db_delete_bot(&mut db, "nonexistent-id");
    assert!(result.is_ok());
}

#[test]
fn test_create_bot_empty_name_fails() {
    let mut db = setup_test_db();
    let req = CreateBotRequest {
        name: "".to_string(),
        avatar_color: None,
        base_url: "https://api.example.com".to_string(),
        api_key: None,
        model: "gpt-4".to_string(),
        system_prompt: None,
        supports_vision: None,
    };
    let result = db_create_bot(&mut db, req);
    assert!(result.is_err());
}

#[test]
fn test_create_bot_empty_base_url_fails() {
    let mut db = setup_test_db();
    let req = CreateBotRequest {
        name: "TestBot".to_string(),
        avatar_color: None,
        base_url: "".to_string(),
        api_key: None,
        model: "gpt-4".to_string(),
        system_prompt: None,
        supports_vision: None,
    };
    let result = db_create_bot(&mut db, req);
    assert!(result.is_err());
}

#[test]
fn new_bot_reports_each_validation_error() {
    let mut req = make_minimal_create_request();
    req.name = String::new();
    let err = new_bot(req, "id".to_string(), "t".to_string()).unwrap_err();
    assert_eq!(err, "Bot name cannot be empty");

    let mut req = make_minimal_create_request();
    req.base_url = String::new();
    let err = new_bot(req, "id".to_string(), "t".to_string()).unwrap_err();
    assert_eq!(err, "Bot base_url cannot be empty");
}

#[test]
fn new_bot_keeps_given_id_and_time() {
    let bot = new_bot(make_full_create_request(), "abc".to_string(), "2024-01-01".to_string()).unwrap();
    assert_eq!(bot.id, "abc");
    assert_eq!(bot.created_at, "2024-01-01");
    assert_eq!(bot.avatar_color, "#ff0000");
}

#[test]
fn update_bot_of_unknown_id_is_not_found() {
    let mut db = setup_test_db();
    let update_req = UpdateBotRequest {
        name: Some("X".to_string()),
        avatar_color: None,
        base_url: None,
        api_key: None,
        model: None,
        system_prompt: None,
        supports_vision: None,
    };
    let err = db_update_bot(&mut db, "missing", update_req).unwrap_err();
    assert_eq!(err, "Bot not found: Query returned no rows");
}

#[test]
fn merge_keeps_absent_fields_and_identity() {
    let existing = Bot {
        id: "b1".to_string(),
        name: "Old".to_string(),
        avatar_color: "#111111".to_string(),
        base_url: "http://a".to_string(),
        api_key: "k".to_string(),
        model: "m".to_string(),
        system_prompt: "p".to_string(),
        supports_vision: true,
        created_at: "t0".to_string(),
    };
    let req = UpdateBotRequest {
        name: None,
        avatar_color: None,
        base_url: Some("http://b".to_string()),
        api_key: None,
        model: None,
        system_prompt: Some(String::new()),
        supports_vision: None,
    };
    let merged = merge_bot_update(existing, req);
    assert_eq!(merged.id, "b1");
    assert_eq!(merged.name, "Old");
    assert_eq!(merged.base_url, "http://b");
    assert_eq!(merged.system_prompt, "");
    assert!(merged.supports_vision);
    assert_eq!(merged.created_at, "t0");
}

fn sample_bot() -> Bot {
    Bot {
        id: "b1".to_string(),
        name: "Old".to_string(),
        avatar_color: "#111111".to_string(),
        base_url: "http://a".to_string(),
        api_key: "k".to_string(),
        model: "m".to_string(),
        system_prompt: "p".to_string(),
        supports_vision: false,
        created_at: "t0".to_string(),
    }
}

fn empty_update() -> UpdateBotRequest {
    UpdateBotRequest {
        name: None,
        avatar_color: None,
        base_url: None,
        api_key: None,
        model: None,
        system_prompt: None,
        supports_vision: None,
    }
}

fn same_bot(a: &Bot, b: &Bot) -> bool {
    a.id == b.id
        && a.name == b.name
        && a.avatar_color == b.avatar_color
        && a.base_url == b.base_url
        && a.api_key == b.api_key
        && a.model == b.model
        && a.system_prompt == b.system_prompt
        && a.supports_vision == b.supports_vision
        && a.created_at == b.created_at
}

#[test]
fn empty_update_changes_nothing() {
    let merged = merge_bot_update(sample_bot(), empty_update());
    assert!(same_bot(&merged, &sample_bot()));
}

#[test]
fn updating_twice_is_updating_once() {
    let req = || UpdateBotRequest {
        name: Some("New".to_string()),
        supports_vision: Some(true),
        ..empty_update()
    };
    let once = merge_bot_update(sample_bot(), req());
    let twice = merge_bot_update(merge_bot_update(sample_bot(), req()), req());
    assert!(same_bot(&once, &twice));
    assert_eq!(once.name, "New");
    assert!(once.supports_vision);
}

#[test]
fn unreadable_rows_report_the_column() {
    let mut db = setup_test_db();
    db.connection().execute(
        "INSERT INTO bots (id, name, base_url, model) VALUES ('b1', X'00', 'http://x', 'm')",
        [],
    )
    .unwrap();
    let err = db_list_bots(&mut db).unwrap_err();
    let expected = db
        .connection().query_row("SELECT name FROM bots", [], |row| row.get::<_, String>(0))
        .unwrap_err()
        .to_string();
    assert_eq!(err, "Invalid column type Blob at index: 1, name: name");
    assert_eq!(err.replace("index: 1", "index: 0"), expected);
}

#[test]
fn text_that_is_not_utf8_is_an_error() {
    let mut db = setup_test_db();
    db.connection()
        .execute(
            "INSERT INTO bots (id, name, base_url, model) VALUES ('b1', CAST(X'FF' AS TEXT), 'http://x', 'm')",
            [],
        )
        .unwrap();
    let err = db_list_bots(&mut db).unwrap_err();
    assert!(err.contains("index: 1"));
}
