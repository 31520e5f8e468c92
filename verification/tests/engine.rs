use backup_engine::backup::{read_discord_backup, ChatDocs};
use backup_engine::executor::{delete_message, plan_delete, RemoteOutcome};
use backup_engine::export::{classify_channel, Channel, ChannelKind, Classified, Message};
use backup_engine::ident::{canon_id, is_digit_str, u64_to_dec_string};
use backup_engine::json::Json;
use backup_engine::ledger::{load_ledger, record_deletion, LedgerEntry};
use backup_engine::EngineError;

fn chat(channel: &str, messages: &str) -> ChatDocs {
    ChatDocs {
        channel_text: String::from(channel),
        messages_text: String::from(messages),
    }
}

fn msg(id: &str, contents: &str) -> String {
    format!(
        "{{\"ID\": \"{}\", \"Timestamp\": \"2024-01-01\", \"Contents\": \"{}\"}}",
        id, contents
    )
}

#[test]
fn normalize_number_and_string_agree() {
    let from_number = canon_id(&Json::UInt(123456789012345678)).unwrap();
    let from_string = canon_id(&Json::Str(String::from("123456789012345678"))).unwrap();
    assert_eq!(from_number, from_string);
    assert_eq!(from_number, "123456789012345678");
}

#[test]
fn normalize_renders_exact_decimal() {
    assert_eq!(u64_to_dec_string(0), "0");
    assert_eq!(u64_to_dec_string(905), "905");
    assert_eq!(u64_to_dec_string(u64::MAX), "18446744073709551615");
}

#[test]
fn normalize_rejects_other_shapes() {
    assert!(canon_id(&Json::Str(String::from("abc"))).is_none());
    assert!(canon_id(&Json::Str(String::new())).is_none());
    assert!(canon_id(&Json::Null).is_none());
    assert!(canon_id(&Json::Bool(true)).is_none());
    assert!(is_digit_str("0123"));
    assert!(!is_digit_str("12 3"));
}

#[test]
fn global_filter_scope() {
    let ledger = String::from(
        "{\"deleted_messages\": [{\"channel_id\": \"A\", \"message_id\": \"99\"}]}",
    );
    let channel_b = "{\"id\": \"42\", \"type\": \"GUILD_TEXT\"}";
    let messages = format!("[{}, {}]", msg("99", "gone"), msg("100", "kept"));
    let chats = vec![chat(channel_b, &messages)];
    let backup = read_discord_backup(true, Some(ledger.as_str()), &chats).unwrap();
    assert_eq!(backup.guilds.len(), 1);
    assert_eq!(backup.guilds[0].messages.len(), 1);
    assert_eq!(backup.guilds[0].messages[0].id, "100");
}

#[test]
fn dm_recipient_selection_sentinel_first() {
    let channel = Channel {
        id: String::from("7"),
        kind: ChannelKind::DirectMessage,
        recipients: Some(vec![String::from("Deleted User"), String::from("Bob")]),
    };
    match classify_channel(channel, Vec::new()) {
        Classified::Dm(dm) => {
            assert_eq!(dm.recipient_name, "Bob");
            assert_eq!(dm.recipient_id, "Bob");
        }
        _ => panic!("expected a direct-message conversation"),
    }
}

#[test]
fn dm_recipient_selection_plain() {
    let channel = Channel {
        id: String::from("7"),
        kind: ChannelKind::DirectMessage,
        recipients: Some(vec![String::from("Alice"), String::from("Bob")]),
    };
    match classify_channel(channel, Vec::new()) {
        Classified::Dm(dm) => {
            assert_eq!(dm.recipient_name, "Alice");
            assert_eq!(dm.recipient_id, "Bob");
        }
        _ => panic!("expected a direct-message conversation"),
    }
}

#[test]
fn malformed_recipient_count_excluded() {
    let one = "{\"id\": \"1\", \"type\": \"DM\", \"recipients\": [\"Solo\"]}";
    let three = "{\"id\": \"2\", \"type\": \"DM\", \"recipients\": [\"A\", \"B\", \"C\"]}";
    let chats = vec![chat(one, "[]"), chat(three, "[]")];
    let backup = read_discord_backup(true, None, &chats).unwrap();
    assert_eq!(backup.dms.len(), 0);
    assert_eq!(backup.guilds.len(), 0);
}

#[test]
fn first_run_ledger_is_empty_and_filters_nothing() {
    let loaded = load_ledger(None).unwrap();
    assert_eq!(loaded.len(), 0);
    let channel = "{\"id\": \"10\", \"type\": \"GUILD_TEXT\"}";
    let messages = format!("[{}, {}]", msg("1", "a"), msg("2", "b"));
    let chats = vec![chat(channel, &messages)];
    let backup = read_discord_backup(true, None, &chats).unwrap();
    assert_eq!(backup.guilds[0].messages.len(), 2);
}

#[test]
fn delete_success_writes_ledger_once_per_call() {
    let channel_id = String::from("55");
    let message_id = String::from("99");
    let (status, doc) = delete_message(
        &RemoteOutcome::Completed(200),
        None,
        &channel_id,
        &message_id,
    )
    .unwrap();
    assert_eq!(status, 200);
    let doc = doc.expect("a confirming delete must rewrite the ledger");
    let entries = load_ledger(Some(doc.as_str())).unwrap();
    assert_eq!(entries.len(), 1);
    assert_eq!(entries[0].channel_id, "55");
    assert_eq!(entries[0].message_id, "99");

    let channel = "{\"id\": \"55\", \"type\": \"GUILD_TEXT\"}";
    let messages = format!("[{}, {}]", msg("99", "gone"), msg("100", "kept"));
    let chats = vec![chat(channel, &messages)];
    let backup = read_discord_backup(true, Some(doc.as_str()), &chats).unwrap();
    assert_eq!(backup.guilds[0].messages.len(), 1);
    assert_eq!(backup.guilds[0].messages[0].id, "100");

    // A second delete of the same message appends a second entry, and the
    // filtering behaviour is unchanged.
    let (_, doc2) = delete_message(
        &RemoteOutcome::Completed(204),
        Some(doc.as_str()),
        &channel_id,
        &message_id,
    )
    .unwrap();
    let doc2 = doc2.unwrap();
    let entries2 = load_ledger(Some(doc2.as_str())).unwrap();
    assert_eq!(entries2.len(), 2);
    let backup2 = read_discord_backup(true, Some(doc2.as_str()), &chats).unwrap();
    assert_eq!(backup2.guilds[0].messages.len(), 1);
    assert_eq!(backup2.guilds[0].messages[0].id, "100");
}

#[test]
fn delete_404_treated_as_success() {
    let (status, doc) = delete_message(
        &RemoteOutcome::Completed(404),
        None,
        &String::from("A"),
        &String::from("7"),
    )
    .unwrap();
    assert_eq!(status, 404);
    let entries = load_ledger(Some(doc.unwrap().as_str())).unwrap();
    assert_eq!(entries.len(), 1);
    assert_eq!(entries[0].message_id, "7");
}

#[test]
fn delete_other_status_not_recorded() {
    let (status, doc) = delete_message(
        &RemoteOutcome::Completed(403),
        None,
        &String::from("A"),
        &String::from("7"),
    )
    .unwrap();
    assert_eq!(status, 403);
    assert!(doc.is_none());
}

#[test]
fn delete_transport_failure_reported() {
    let r = delete_message(
        &RemoteOutcome::TransportFailed,
        None,
        &String::from("A"),
        &String::from("7"),
    );
    assert_eq!(r, Err(EngineError::RemoteTransportFailure));
    assert_eq!(
        plan_delete(&RemoteOutcome::TransportFailed),
        Err(EngineError::RemoteTransportFailure)
    );
    assert_eq!(plan_delete(&RemoteOutcome::Completed(404)), Ok((404, true)));
    assert_eq!(plan_delete(&RemoteOutcome::Completed(500)), Ok((500, false)));
}

#[test]
fn non_directory_input_rejected() {
    // Even with a corrupt ledger and malformed chats on hand, a non-directory
    // root is rejected first.
    let chats = vec![chat("nonsense", "nonsense")];
    let r = read_discord_backup(false, Some("not json at all"), &chats);
    assert_eq!(r.map(|_| ()), Err(EngineError::InvalidInput));
}

#[test]
fn corrupt_ledger_aborts_build() {
    let chats: Vec<ChatDocs> = Vec::new();
    let garbage = read_discord_backup(true, Some("not json"), &chats);
    assert_eq!(garbage.map(|_| ()), Err(EngineError::LedgerCorrupt));
    let wrong_shape = read_discord_backup(true, Some("{\"deleted_messages\": 5}"), &chats);
    assert_eq!(wrong_shape.map(|_| ()), Err(EngineError::LedgerCorrupt));
    let missing_key = read_discord_backup(true, Some("{}"), &chats);
    assert_eq!(missing_key.map(|_| ()), Err(EngineError::LedgerCorrupt));
    assert_eq!(
        record_deletion(Some("no"), &String::from("A"), &String::from("1")),
        Err(EngineError::LedgerCorrupt)
    );
}

#[test]
fn malformed_export_aborts_build() {
    let missing_id = "{\"type\": \"GUILD_TEXT\"}";
    let chats = vec![chat(missing_id, "[]")];
    let r = read_discord_backup(true, None, &chats);
    assert_eq!(r.map(|_| ()), Err(EngineError::MalformedExport));

    let ok_channel = "{\"id\": \"1\", \"type\": \"GUILD_TEXT\"}";
    let bad_messages = vec![chat(ok_channel, "{\"not\": \"a list\"}")];
    let r2 = read_discord_backup(true, None, &bad_messages);
    assert_eq!(r2.map(|_| ()), Err(EngineError::MalformedExport));

    let float_id = "{\"id\": 1.5, \"type\": \"GUILD_TEXT\"}";
    let r3 = read_discord_backup(true, None, &vec![chat(float_id, "[]")]);
    assert_eq!(r3.map(|_| ()), Err(EngineError::MalformedExport));
}

#[test]
fn numeric_ids_normalized_through_build() {
    let channel = "{\"id\": 123456789012345678, \"type\": \"GUILD_TEXT\"}";
    let messages = "[{\"ID\": 987654321098765432, \"Timestamp\": \"t\", \"Contents\": \"c\"}]";
    let chats = vec![chat(channel, messages)];
    let backup = read_discord_backup(true, None, &chats).unwrap();
    assert_eq!(backup.guilds[0].id, "123456789012345678");
    assert_eq!(backup.guilds[0].messages[0].id, "987654321098765432");
}

#[test]
fn unknown_kind_and_null_recipients_skipped() {
    let voice = "{\"id\": \"1\", \"type\": \"VOICE\"}";
    let null_recipients = "{\"id\": \"2\", \"type\": \"DM\", \"recipients\": null}";
    let chats = vec![chat(voice, "[]"), chat(null_recipients, "[]")];
    let backup = read_discord_backup(true, None, &chats).unwrap();
    assert_eq!(backup.dms.len(), 0);
    assert_eq!(backup.guilds.len(), 0);
}

#[test]
fn dm_through_full_build_with_attachments() {
    let ledger = String::from(
        "{\"deleted_messages\": [{\"channel_id\": \"X\", \"message_id\": \"2\"}]}",
    );
    let channel = "{\"id\": \"77\", \"type\": \"DM\", \"recipients\": [\"Deleted User\", \"Bob\"]}";
    let messages = "[{\"ID\": \"1\", \"Timestamp\": \"t1\", \"Contents\": \"hi\", \"Attachments\": \"file.png\"}, \
        {\"ID\": \"2\", \"Timestamp\": \"t2\", \"Contents\": \"bye\", \"Attachments\": null}]";
    let chats = vec![chat(channel, messages)];
    let backup = read_discord_backup(true, Some(ledger.as_str()), &chats).unwrap();
    assert_eq!(backup.dms.len(), 1);
    let dm = &backup.dms[0];
    assert_eq!(dm.id, "77");
    assert_eq!(dm.recipient_name, "Bob");
    assert_eq!(dm.messages.len(), 1);
    assert_eq!(dm.messages[0].id, "1");
    assert_eq!(dm.messages[0].attachments.as_deref(), Some("file.png"));
}

#[test]
fn ledger_document_is_well_formed_json() {
    let (_, doc) = delete_message(
        &RemoteOutcome::Completed(200),
        None,
        &String::from("chan"),
        &String::from("123"),
    )
    .unwrap();
    let doc = doc.unwrap();
    let value: serde_json::Value = serde_json::from_str(&doc).unwrap();
    let entries = value
        .get("deleted_messages")
        .and_then(|v| v.as_array())
        .expect("one top-level array-valued key");
    assert_eq!(entries.len(), 1);
    assert_eq!(entries[0].get("channel_id").unwrap().as_str(), Some("chan"));
    assert_eq!(entries[0].get("message_id").unwrap().as_str(), Some("123"));
}

#[test]
fn classify_preserves_message_order() {
    let channel = Channel {
        id: String::from("9"),
        kind: ChannelKind::GuildText,
        recipients: None,
    };
    let messages = vec![
        Message {
            id: String::from("3"),
            timestamp: String::from("t1"),
            contents: String::from("first"),
            attachments: None,
        },
        Message {
            id: String::from("1"),
            timestamp: String::from("t2"),
            contents: String::from("second"),
            attachments: None,
        },
    ];
    match classify_channel(channel, messages) {
        Classified::Guild(g) => {
            assert_eq!(g.messages[0].contents, "first");
            assert_eq!(g.messages[1].contents, "second");
        }
        _ => panic!("expected a guild conversation"),
    }
}

#[test]
fn ledger_entry_fields_survive_round_trip() {
    let doc = record_deletion(None, &String::from("c1"), &String::from("m1")).unwrap();
    let doc2 = record_deletion(Some(doc.as_str()), &String::from("c2"), &String::from("m2"))
        .unwrap();
    let entries: Vec<LedgerEntry> = load_ledger(Some(doc2.as_str())).unwrap();
    assert_eq!(entries.len(), 2);
    assert_eq!(entries[0].channel_id, "c1");
    assert_eq!(entries[0].message_id, "m1");
    assert_eq!(entries[1].channel_id, "c2");
    assert_eq!(entries[1].message_id, "m2");
}
