use hemdaimail::sync::{
    attachment_path, connect_retry_delay, first_store_step, indexing_task_for, next_store_step, single_component,
    sync_start, StepOutcome, StoreStep, SyncStart,
};
use hemdaimail::mail::{
    checked_prepare_email, prepare_email, send_status, sent_mailbox, sent_mailbox_name, sent_message_record, MailboxType,
    Pagination, PrepareError, SendEmailRequest, SentMailbox,
};
use hemdaimail::realtime::{on_socket_event, SocketAction, SocketEvent};
use hemdaimail::sync::{
    attachment_dir, last_synced_uid, message_row, raw_dir_name, raw_file_name, raw_message_key,
    size_column, uid_column, uid_fetch_set, uid_is_new, ImapClient, Storage,
};
use hemdaimail::tasks::{
    event_message, indexing_queue_name, indexing_task_json, next_index_action, next_worker_action,
    sync_queue_name, sync_task_json, user_events_channel, IndexAction, IndexingTask, SyncPop,
    SyncTask, SyncType, WorkerAction,
};
use hemdaimail::threading::{ThreadAction, ThreadLookup, ThreadSearch};
use hemdaimail::mime::ProcessedMessage;

const USER: u128 = 0x67e5504410b1426f9247bb680e5fe0c8;

#[test]
fn pagination_defaults() {
    assert_eq!(Pagination { limit: None, offset: None }.resolve(), (50, 0));
    assert_eq!(Pagination { limit: Some(10), offset: Some(30) }.resolve(), (10, 30));
}

#[test]
fn mailbox_types_round_trip() {
    let all = [
        MailboxType::Inbox,
        MailboxType::Sent,
        MailboxType::Drafts,
        MailboxType::Trash,
        MailboxType::Spam,
        MailboxType::Archive,
        MailboxType::Custom,
    ];
    for t in all {
        assert_eq!(MailboxType::from_db_name(&t.db_name()), Some(t));
    }
    assert_eq!(MailboxType::Archive.db_name(), "archive");
    assert_eq!(MailboxType::from_db_name("Inbox"), None);
    assert_eq!(MailboxType::from_db_name("outbox"), None);
}

fn request(to: &[&str]) -> SendEmailRequest {
    SendEmailRequest {
        to: to.iter().map(|s| s.to_string()).collect(),
        subject: "Hi".to_string(),
        body: "Body".to_string(),
    }
}

#[test]
fn email_is_prepared_for_the_first_recipient() {
    let p = prepare_email("alice@example.com", &request(&["bob@example.com", "carol@example.com"]));
    assert_eq!(p.fields().from, "alice@example.com");
    assert_eq!(p.fields().to, "bob@example.com");
    assert_eq!(p.fields().subject, "Hi");
    assert_eq!(p.fields().body, "Body");
    let m = p.into_message();
    let to: Vec<String> = m.envelope().to().iter().map(|a| a.to_string()).collect();
    assert_eq!(to, vec!["bob@example.com"]);
    assert_eq!(m.envelope().from().map(|a| a.to_string()), Some("alice@example.com".to_string()));
    let text = String::from_utf8(m.formatted()).unwrap();
    assert!(text.contains("Subject: Hi"));
    assert!(text.ends_with("Body"));
}

#[test]
fn invalid_addresses_are_reported() {
    assert_eq!(checked_prepare_email("not an address", &request(&["bob@example.com"])).err(), Some(PrepareError::InvalidSender));
    assert_eq!(checked_prepare_email("alice@example.com", &request(&["bob"])).err(), Some(PrepareError::InvalidRecipient));
    assert!(checked_prepare_email("alice@example.com", &request(&["bob@example.com"])).is_ok());
}

#[test]
fn sent_copy_is_filed() {
    assert_eq!(sent_mailbox(Some(3)), SentMailbox::Existing(3));
    assert_eq!(sent_mailbox(None), SentMailbox::Create);
    assert_eq!(sent_mailbox_name(), "Sent");
    let r = sent_message_record(1, "alice@example.com", 3, &request(&["b@x.y", "c@x.y"]));
    assert_eq!((r.user_id, r.mailbox_id), (1, 3));
    assert_eq!(r.sender, "alice@example.com");
    assert_eq!(r.recipients, vec!["b@x.y", "c@x.y"]);
    assert_eq!((r.subject.as_str(), r.body_text.as_str()), ("Hi", "Body"));
    assert!(r.is_read);
    assert_eq!(send_status(true, true), 200);
    assert_eq!(send_status(false, true), 500);
    assert_eq!(send_status(true, false), 500);
}

fn message(in_reply_to: Option<&str>, refs: &[&str]) -> ProcessedMessage {
    ProcessedMessage {
        message_id: Some("<new@x>".to_string()),
        in_reply_to: in_reply_to.map(|s| s.to_string()),
        references: refs.iter().map(|s| s.to_string()).collect(),
        subject: Some("Topic".to_string()),
        from: None,
        to: vec!["a@b.c".to_string()],
        body_text: None,
        body_html: None,
        attachments: vec![],
    }
}

fn lookup_key(a: &ThreadAction) -> String {
    match a {
        ThreadAction::Lookup(k) => k.clone(),
        _ => panic!("expected a lookup"),
    }
}

#[test]
fn reply_joins_the_thread_of_its_parent() {
    let (mut search, first) = ThreadSearch::start(&message(Some("<p@x>"), &["<r1@x>"]));
    assert_eq!(lookup_key(&first), "<p@x>");
    assert!(matches!(search.on_lookup(ThreadLookup::Threaded(42)), ThreadAction::UseThread(42)));
}

#[test]
fn references_are_tried_in_order() {
    let (mut search, first) = ThreadSearch::start(&message(Some("<p@x>"), &["<r1@x>", "<r2@x>"]));
    assert_eq!(lookup_key(&first), "<p@x>");
    assert_eq!(lookup_key(&search.on_lookup(ThreadLookup::NoMessage)), "<r1@x>");
    assert_eq!(lookup_key(&search.on_lookup(ThreadLookup::Unthreaded)), "<r2@x>");
    assert!(matches!(search.on_lookup(ThreadLookup::Threaded(7)), ThreadAction::UseThread(7)));
}

#[test]
fn unmatched_message_starts_a_thread() {
    let (mut search, first) = ThreadSearch::start(&message(None, &["<r1@x>"]));
    assert_eq!(lookup_key(&first), "<r1@x>");
    match search.on_lookup(ThreadLookup::NoMessage) {
        ThreadAction::CreateThread(s) => assert_eq!(s.as_deref(), Some("Topic")),
        _ => panic!("expected a new thread"),
    }
    let (_, first) = ThreadSearch::start(&message(None, &[]));
    assert!(matches!(first, ThreadAction::CreateThread(Some(ref s)) if s == "Topic"));
}

#[test]
fn queue_names_and_channels() {
    assert_eq!(sync_queue_name(), "mail_sync_tasks");
    assert_eq!(indexing_queue_name(), "search_indexing_tasks");
    assert_eq!(user_events_channel(USER), "user_events:67e55044-10b1-426f-9247-bb680e5fe0c8");
}

#[test]
fn event_framing() {
    let e = event_message("new_\"mail\"", "{\"id\":1}");
    assert_eq!(e, "{\"payload\":{\"id\":1},\"type\":\"new_\\\"mail\\\"\"}");
    let v: serde_json::Value = serde_json::from_str(&e).unwrap();
    assert_eq!(v.to_string(), e);
}

#[test]
fn task_framing() {
    let t = SyncTask { user_id: USER, mailbox_name: "INBOX".to_string(), sync_type: SyncType::Incremental };
    assert_eq!(
        sync_task_json(&t),
        "{\"user_id\":\"67e55044-10b1-426f-9247-bb680e5fe0c8\",\"mailbox\":\"INBOX\",\"sync_type\":\"incremental\"}"
    );
    let i = IndexingTask {
        message_id: 1,
        user_id: USER,
        subject: None,
        sender: "a@b".to_string(),
        body_text: Some("line\nnext".to_string()),
        created_at: "2024-01-01T00:00:00Z".to_string(),
        correlation_id: None,
    };
    let text = indexing_task_json(&i);
    let v: serde_json::Value = serde_json::from_str(&text).unwrap();
    assert_eq!(v["message_id"], "00000000-0000-0000-0000-000000000001");
    assert!(v["subject"].is_null());
    assert_eq!(v["body_text"], "line\nnext");
    assert!(text.starts_with("{\"message_id\":"));
}

#[test]
fn worker_reactions() {
    let t = SyncTask { user_id: 5, mailbox_name: "INBOX".to_string(), sync_type: SyncType::Full };
    assert_eq!(next_worker_action(&SyncPop::Task(t)), WorkerAction::SyncUser(5));
    assert_eq!(next_worker_action(&SyncPop::Empty), WorkerAction::Sleep(5));
    assert_eq!(next_worker_action(&SyncPop::Failed), WorkerAction::Sleep(10));
    assert!(matches!(next_index_action(None), IndexAction::Sleep(5)));
    assert!(matches!(next_index_action(Some("{}".to_string())), IndexAction::Index(ref j) if j == "{}"));
}

#[test]
fn sync_bookkeeping_conversions() {
    let c = ImapClient::from_credentials("imap.x".to_string(), 70_000, "u".to_string(), "p".to_string());
    assert_eq!(c.port, 4464);
    assert_eq!(ImapClient::from_credentials("h".to_string(), 993, "u".to_string(), "p".to_string()).port, 993);
    assert_eq!(last_synced_uid(Some(-1)), Some(u32::MAX));
    assert_eq!(last_synced_uid(Some(42)), Some(42));
    assert_eq!(last_synced_uid(None), None);
    assert_eq!(uid_column(u32::MAX), 4_294_967_295);
    assert_eq!(size_column(12), 12);
}

#[test]
fn incremental_fetch_window() {
    assert_eq!(uid_fetch_set(None), "1:*");
    assert_eq!(uid_fetch_set(Some(41)), "42:*");
    assert_eq!(uid_fetch_set(Some(u32::MAX)), "4294967295:*");
    assert!(uid_is_new(42, Some(41)));
    assert!(!uid_is_new(41, Some(41)));
    assert!(uid_is_new(1, None));
    assert_eq!(last_synced_uid(Some(uid_column(77))), Some(77));
}

#[test]
fn storage_layout() {
    assert_eq!(Storage::new(None).base_path, "./data");
    assert_eq!(Storage::new(Some("/srv/mail".to_string())).base_path, "/srv/mail");
    assert_eq!(attachment_dir("<m1@x>"), "attachments/<m1@x>");
    assert_eq!(raw_dir_name(), "raw");
    assert_eq!(raw_file_name("<m1@x>"), "<m1@x>.eml");
    assert_eq!(raw_message_key(&Some("<m1@x>".to_string())), "<m1@x>");
    let fresh = raw_message_key(&None);
    assert_eq!(fresh.len(), 36);
    assert_eq!(fresh.chars().nth(14), Some('4'));
}

#[test]
fn stored_rows() {
    let mut m = message(Some("<p@x>"), &["<r@x>"]);
    m.from = None;
    let row = message_row(1, 2, 3, 77, m, "raw/k.eml".to_string());
    assert_eq!((row.user_id, row.mailbox_id, row.thread_id, row.remote_uid), (1, 2, 3, 77));
    assert_eq!(row.sender, "");
    assert_eq!(row.in_reply_to.as_deref(), Some("<p@x>"));
    assert_eq!(row.references_list, vec!["<r@x>"]);
    assert_eq!(row.s3_key, "raw/k.eml");
}

#[test]
fn socket_reactions() {
    assert!(matches!(on_socket_event(SocketEvent::Published("x".to_string())), SocketAction::Forward(ref p) if p == "x"));
    assert!(matches!(on_socket_event(SocketEvent::ClientMessage), SocketAction::Continue));
    assert!(matches!(on_socket_event(SocketEvent::ClientClosed), SocketAction::Disconnect));
    assert!(matches!(on_socket_event(SocketEvent::ClientError), SocketAction::Disconnect));
}

#[test]
fn uid_is_recorded_after_the_whole_message_is_stored() {
    let mut step = first_store_step();
    let mut seen = Vec::new();
    while step != StoreStep::Finished {
        seen.push(step);
        step = next_store_step(step, 2, 42, StepOutcome::Done);
    }
    assert_eq!(
        seen,
        vec![
            StoreStep::UploadRaw,
            StoreStep::Begin,
            StoreStep::SaveMessage,
            StoreStep::UploadAttachment(0),
            StoreStep::SaveAttachment(0),
            StoreStep::UploadAttachment(1),
            StoreStep::SaveAttachment(1),
            StoreStep::RecordUid(42),
            StoreStep::Commit,
            StoreStep::QueueIndexing,
        ]
    );
    assert_eq!(next_store_step(StoreStep::SaveMessage, 0, 7, StepOutcome::Done), StoreStep::RecordUid(7));
    assert_eq!(next_store_step(StoreStep::UploadRaw, 2, 7, StepOutcome::Failed), StoreStep::Abandoned);
    assert_eq!(next_store_step(StoreStep::Begin, 2, 7, StepOutcome::Failed), StoreStep::Abandoned);
    assert_eq!(next_store_step(StoreStep::UploadAttachment(0), 2, 7, StepOutcome::Failed), StoreStep::Rollback);
    assert_eq!(next_store_step(StoreStep::Commit, 2, 7, StepOutcome::Failed), StoreStep::Rollback);
    assert_eq!(next_store_step(StoreStep::Rollback, 2, 7, StepOutcome::Done), StoreStep::Abandoned);
    assert_eq!(next_store_step(StoreStep::QueueIndexing, 2, 7, StepOutcome::Failed), StoreStep::Finished);
    assert_eq!(next_store_step(StoreStep::Abandoned, 2, 7, StepOutcome::Done), StoreStep::Abandoned);
}

#[test]
fn attachments_are_stored_under_the_message_uuid() {
    assert_eq!(attachment_path(USER, "a.txt"), "attachments/67e55044-10b1-426f-9247-bb680e5fe0c8/a.txt");
    assert_eq!(attachment_path(USER, "../etc/passwd"), "attachments/67e55044-10b1-426f-9247-bb680e5fe0c8/unnamed");
    assert_eq!(attachment_path(USER, ".."), "attachments/67e55044-10b1-426f-9247-bb680e5fe0c8/unnamed");
    assert_eq!(attachment_path(USER, ""), "attachments/67e55044-10b1-426f-9247-bb680e5fe0c8/unnamed");
    assert!(single_component("..a"));
    assert!(!single_component("a\\b"));
    assert!(!single_component("a\0"));
}

#[test]
fn connection_retries_back_off() {
    assert_eq!(connect_retry_delay(0), None);
    assert_eq!(connect_retry_delay(1), Some(1));
    assert_eq!(connect_retry_delay(2), Some(2));
    assert_eq!(connect_retry_delay(3), Some(4));
    assert_eq!(connect_retry_delay(4), Some(8));
    assert_eq!(connect_retry_delay(5), None);
}

#[test]
fn sync_runs_start_from_the_credentials() {
    assert!(matches!(sync_start(None), SyncStart::NoCredentials));
    match sync_start(Some(("imap.x".to_string(), 993, "u".to_string(), "p".to_string()))) {
        SyncStart::Connect(c) => {
            assert_eq!(c.host, "imap.x");
            assert_eq!(c.port, 993);
            assert_eq!(c.username, "u");
        }
        SyncStart::NoCredentials => panic!("credentials were given"),
    }
}

#[test]
fn stored_messages_are_queued_for_indexing() {
    let m = message(None, &[]);
    let t = indexing_task_for(9, USER, &m, "2024-01-01T00:00:00Z".to_string());
    assert_eq!(t.message_id, 9);
    assert_eq!(t.user_id, USER);
    assert_eq!(t.subject, m.subject);
    assert_eq!(t.sender, m.from.clone().unwrap_or_default());
    assert_eq!(t.body_text, m.body_text);
    assert_eq!(t.correlation_id, None);
}
