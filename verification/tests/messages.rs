use kdeconnect::client::{
    cached_messages, cached_photos, messages_read, window_input, ServiceEvent, WindowInput,
};
use kdeconnect::contacts::{
    cached_contacts, contact_name, decode_photos, index_contacts, name_group,
    normalize_phone_number, phone_numbers_match, sort_cached_contacts,
};
use kdeconnect::conversation::{
    message_entries, parse_sms_messages, Conversation, Message, MessageAttachment, ProtocolEvent,
};
use kdeconnect::sms::{SmsAddress, SmsAttachment};
use kdeconnect::sms_view::{
    emoji_rows, emoji_runs, truncate_preview, view_attachment, AttachmentView, CardKind,
    EmptyNote, MessagePage, ThreadPanel,
};
use kdeconnect::sms_window::{
    message_window_start, sms_window_arguments, SmsMessage, SmsTask, SmsWindow,
};
use kdeconnect::table::{TextMap, TextSet};

fn texts(list: &[&str]) -> Vec<String> {
    list.iter().map(|s| s.to_string()).collect()
}

fn table(list: &[(&str, &str)]) -> TextMap<String> {
    let mut map = TextMap::new();
    for (k, v) in list {
        map.insert(k.to_string(), v.to_string());
    }
    map
}

fn window() -> SmsWindow {
    SmsWindow::init("phone".into(), "Pixel".into(), TextSet::new(), TextMap::new())
}

fn conversation(thread: &str, number: &str, timestamp: i64) -> Conversation {
    Conversation {
        thread_id: thread.into(),
        contact_name: String::new(),
        phone_number: number.into(),
        addresses: texts(&[number]),
        last_message: "hello".into(),
        timestamp,
        unread: false,
    }
}

fn message(id: &str, thread: &str, body: &str, date: i64, type_: i32) -> Message {
    Message {
        id: id.into(),
        thread_id: thread.into(),
        body: body.into(),
        address: "+15551234567".into(),
        date,
        attachments: vec![],
        type_,
        read: true,
    }
}

fn received(list: Vec<Message>) -> SmsMessage {
    SmsMessage::ProtocolEventReceived(ProtocolEvent::MessagesReceived(list))
}

fn ids(w: &SmsWindow) -> Vec<&str> {
    w.messages.iter().map(|m| m.id.as_str()).collect()
}

fn threads(w: &SmsWindow) -> Vec<&str> {
    w.conversations.iter().map(|c| c.thread_id.as_str()).collect()
}

#[test]
fn message_window_starts_at_newest_page() {
    assert_eq!(message_window_start(150, 100), 50);
    assert_eq!(message_window_start(150, 200), 0);
    assert_eq!(message_window_start(50, 100), 0);

    let messages: Vec<_> = (0..150).collect();
    let visible: Vec<_> = messages
        .iter()
        .skip(message_window_start(messages.len(), 100))
        .copied()
        .collect();
    assert_eq!(visible.first(), Some(&50));
    assert_eq!(visible.last(), Some(&149));
    assert_eq!(visible.len(), 100);
}

#[test]
fn window_arguments_have_defaults() {
    assert_eq!(
        sms_window_arguments(&texts(&["sms"])),
        ("unknown".to_string(), "Unknown Device".to_string())
    );
    assert_eq!(
        sms_window_arguments(&texts(&["sms", "phone", "Pixel"])),
        ("phone".to_string(), "Pixel".to_string())
    );
}

#[test]
fn numbers_are_compared_by_their_digits() {
    assert_eq!(normalize_phone_number("+1 (555) 123-4567"), "15551234567");
    assert!(phone_numbers_match("+1 555 123 4567", "15551234567"));
    assert!(!phone_numbers_match("+1 555 123 4567", "5551234568"));
    let by_phone = index_contacts(&table(&[("+1 555 123-4567", "Ada"), ("12", "Short")]));
    assert_eq!(contact_name(&by_phone, "+15551234567"), Some("Ada".to_string()));
    assert_eq!(contact_name(&by_phone, "12"), None);
    assert_eq!(contact_name(&by_phone, "+15559999999"), None);
}

#[test]
fn groups_are_named_after_everyone() {
    let by_phone = index_contacts(&table(&[("+15551234567", "Ada"), ("+15557654321", "Bob")]));
    assert_eq!(
        name_group(&by_phone, &texts(&["+15551234567", "+15557654321", "+15550000000"])),
        "Ada, Bob, +15550000000"
    );
}

#[test]
fn contacts_are_sorted_by_name() {
    let list = sort_cached_contacts(&table(&[("2", "Zoe"), ("1", "Ada"), ("3", "Bob")]));
    let names: Vec<_> = list.iter().map(|c| c.1.as_str()).collect();
    assert_eq!(names, ["Ada", "Bob", "Zoe"]);
}

#[test]
fn photos_that_do_not_decode_are_dropped() {
    let photos = decode_photos(&table(&[("1", "QUJD"), ("2", "!!")]));
    assert_eq!(photos, vec![("1".to_string(), b"ABC".to_vec())]);
    assert_eq!(cached_photos("{\"1\":\"QUJD\"}"), vec![("1".to_string(), b"ABC".to_vec())]);
    assert!(cached_photos("{").is_empty());
    assert_eq!(cached_contacts("{\"1\":\"Ada\"}").get("1").map(String::as_str), Some("Ada"));
    assert_eq!(cached_messages(String::new()), None);
    assert_eq!(cached_messages("{}".into()), Some("{}".to_string()));
}

#[test]
fn message_lists_are_split() {
    assert_eq!(
        message_entries("{\"messages\":[{\"_id\":1},{\"_id\":2}]}"),
        texts(&["{\"_id\":1}", "{\"_id\":2}"])
    );
    assert!(message_entries("{\"messages\":3}").is_empty());
}

fn raw(id: i64, thread_id: i64, date: i64, body: &str, read: i32) -> kdeconnect::sms::SmsMessage {
    kdeconnect::sms::SmsMessage {
        id,
        addresses: vec![SmsAddress { address: "+15551234567".into() }],
        attachments: vec![],
        body: body.into(),
        date,
        message_type: 1,
        read,
        thread_id,
        sub_id: None,
        event: None,
    }
}

#[test]
fn messages_become_conversations() {
    let mut with_picture = raw(3, 8, 5, "pic", 1);
    with_picture.attachments = vec![SmsAttachment {
        part_id: 4,
        mime_type: "image/png".into(),
        encoded_thumbnail: Some("QUJD".into()),
        unique_identifier: Some("u".into()),
    }];
    let (messages, conversations) =
        parse_sms_messages(&vec![raw(1, 7, 10, "old", 1), raw(2, 7, 20, "new", 0), with_picture]);
    assert_eq!(messages.len(), 3);
    assert_eq!(conversations.len(), 2);
    let first = conversations.iter().find(|c| c.thread_id == "7").unwrap();
    assert_eq!(first.last_message, "new");
    assert_eq!(first.timestamp, 20);
    assert!(first.unread);
    let picture = messages.iter().find(|m| m.id == "3").unwrap();
    assert_eq!(picture.attachments[0].thumbnail, Some(b"ABC".to_vec()));
    assert_eq!(picture.attachments[0].part_id, 4);
    let (all, convs) = messages_read(&vec![raw(1, 7, 10, "old", 1)]);
    assert!(matches!(all, SmsMessage::ProtocolEventReceived(_)));
    assert!(matches!(convs, SmsMessage::ProtocolEventReceived(_)));
}

#[test]
fn windows_ignore_other_phones() {
    let event = |id: &str| ServiceEvent::SmsMessagesReceived(id.into(), "{}".into());
    assert!(matches!(window_input("phone", event("phone")), WindowInput::Read(_)));
    assert!(matches!(window_input("phone", event("tablet")), WindowInput::Nothing));
}

#[test]
fn threads_are_opened_and_read() {
    let mut w = window();
    w.update(
        SmsMessage::ConversationsLoaded(vec![
            conversation("7", "+15551234567", 10),
            conversation("8", "+15557654321", 20),
        ]),
        0,
    );
    assert_eq!(threads(&w), ["8", "7"]);
    w.conversations[1].unread = true;
    assert!(w.is_conversation_unread(&w.conversations[1]));
    let tasks = w.update(SmsMessage::SelectThread("7".into()), 1000);
    assert!(tasks.iter().any(|t| matches!(t, SmsTask::RequestMessages(7))));
    assert_eq!(w.selected_thread.as_deref(), Some("7"));
    let at = w.conversations.iter().position(|c| c.thread_id == "7").unwrap();
    assert!(!w.is_conversation_unread(&w.conversations[at]));
    assert!(matches!(w.view_thread_panel(), ThreadPanel::Thread(i) if i == at));
    assert!(matches!(w.view_messages_list(), MessagePage::Waiting));
}

#[test]
fn messages_come_once_and_in_order() {
    let mut w = window();
    w.update(SmsMessage::ConversationsLoaded(vec![conversation("7", "+15551234567", 10)]), 0);
    w.update(SmsMessage::SelectThread("7".into()), 1000);
    w.update(received(vec![message("2", "7", "b", 20, 1), message("1", "7", "a", 10, 1)]), 1000);
    assert_eq!(ids(&w), ["1", "2"]);
    w.update(received(vec![message("2", "7", "b", 20, 1)]), 1000);
    assert_eq!(ids(&w), ["1", "2"]);
    // A message of another thread is not shown here.
    w.update(received(vec![message("3", "8", "c", 30, 1)]), 1000);
    assert_eq!(ids(&w), ["1", "2"]);
    assert!(matches!(w.view_messages_list(), MessagePage::From { first: 0, load_more: false }));
}

#[test]
fn echoes_take_the_place_of_what_is_sent() {
    let mut w = window();
    w.update(SmsMessage::ConversationsLoaded(vec![conversation("7", "+15551234567", 10)]), 0);
    w.update(SmsMessage::SelectThread("7".into()), 1000);
    w.update(received(vec![message("1", "7", "hi", 900, 1)]), 1000);
    w.update(SmsMessage::UpdateInput("yo".into()), 1000);
    let tasks = w.update(SmsMessage::SendMessage, 1000);
    assert!(tasks.iter().any(|t| matches!(t, SmsTask::SendSms { text, phone, .. }
        if text == "yo" && phone == "+15551234567")));
    assert_eq!(w.message_input, "");
    assert_eq!(w.messages.len(), 2);
    assert!(w.messages[1].id.starts_with("sending_"));
    // The phone's own copy replaces it.
    w.update(received(vec![message("9", "7", "yo", 1500, 2)]), 2000);
    assert_eq!(ids(&w), ["1", "9"]);
    // Far later the same text is another message.
    w.update(SmsMessage::UpdateInput("yo".into()), 2000);
    w.update(SmsMessage::SendMessage, 2000);
    w.update(received(vec![message("10", "7", "yo", 2000 + 300_000, 2)]), 400_000);
    assert_eq!(w.messages.len(), 4);
}

#[test]
fn hidden_conversations_stay_hidden() {
    let mut w = window();
    w.update(SmsMessage::ConversationsLoaded(vec![conversation("7", "+15551234567", 10)]), 0);
    w.update(SmsMessage::RequestDeleteConversation("7".into()), 0);
    assert!(w.delete_confirm_dialog().is_some());
    w.update(SmsMessage::CancelDeleteConversation, 0);
    assert!(w.delete_confirm_dialog().is_none());
    w.update(SmsMessage::RequestDeleteConversation("7".into()), 0);
    let tasks = w.update(SmsMessage::ConfirmDeleteConversation, 0);
    assert!(tasks.contains(&SmsTask::SaveHidden));
    assert!(threads(&w).is_empty());
    w.update(
        SmsMessage::ProtocolEventReceived(ProtocolEvent::ConversationsReceived(vec![
            conversation("7", "+15551234567", 50),
        ])),
        0,
    );
    assert!(threads(&w).is_empty());
    assert!(w.hidden_conversations.contains("7"));
}

#[test]
fn contacts_name_conversations() {
    let mut w = window();
    w.update(SmsMessage::ConversationsLoaded(vec![conversation("7", "+15551234567", 10)]), 0);
    w.update(SmsMessage::ContactsLoaded(table(&[("+1 555 123 4567", "Ada")])), 0);
    assert_eq!(w.conversations[0].contact_name, "Ada");
    assert_eq!(w.conversations[0].display_name(), "Ada");
    assert_eq!(w.get_contact_name("+15551234567"), Some("Ada".to_string()));
    let list = w.view_conversations_list();
    assert_eq!(list.rows.len(), 1);
    assert_eq!(list.rows[0].name, "Ada");
    let header = w.view_thread_header(&w.conversations[0]);
    assert_eq!(header.name, "Ada");
    assert_eq!(header.phone_number, "+15551234567");
    assert_eq!(header.photo, None);
    w.update(SmsMessage::UpdateSearch("zzz 999".into()), 0);
    let list = w.view_conversations_list();
    assert!(list.rows.is_empty());
    assert!(matches!(list.note, Some(EmptyNote::NoMatchingConversations)));
    w.update(SmsMessage::UpdateSearch("ADA".into()), 0);
    assert_eq!(w.view_conversations_list().rows.len(), 1);
}

#[test]
fn empty_windows_say_so() {
    let w = window();
    assert!(matches!(w.view_conversations_list().note, Some(EmptyNote::NoConversations)));
    assert!(matches!(w.view_thread_panel(), ThreadPanel::NothingSelected));
}

#[test]
fn older_messages_come_page_by_page() {
    let mut w = window();
    w.update(SmsMessage::ConversationsLoaded(vec![conversation("7", "+15551234567", 10)]), 0);
    w.update(SmsMessage::SelectThread("7".into()), 1000);
    let list: Vec<Message> =
        (0..150).map(|i| message(&i.to_string(), "7", "x", i as i64, 1)).collect();
    w.update(received(list), 1000);
    assert!(matches!(w.view_messages_list(), MessagePage::From { first: 50, load_more: true }));
    w.update(SmsMessage::LoadMoreMessages, 1000);
    assert!(matches!(w.view_messages_list(), MessagePage::From { first: 0, load_more: false }));
}

#[test]
fn attachments_wait_with_the_message() {
    let mut w = window();
    w.update(SmsMessage::AttachmentsPicked(texts(&["/a/b.png", "/c.txt"])), 0);
    assert_eq!(w.view_pending_attachments(), texts(&["b.png", "c.txt"]));
    w.update(SmsMessage::RemovePendingAttachment(0), 0);
    assert_eq!(w.view_pending_attachments(), texts(&["c.txt"]));
    assert!(w.update(SmsMessage::PickAttachment, 0).contains(&SmsTask::PickFiles));
    assert!(w.update(SmsMessage::CloseWindow, 0).contains(&SmsTask::Exit));
}

#[test]
fn previews_are_cut() {
    assert_eq!(truncate_preview("short", 50), "short");
    assert_eq!(truncate_preview("abcdef", 3), "abc\u{2026}");
    assert_eq!(truncate_preview("\u{e9}\u{e9}\u{e9}", 2), "\u{e9}\u{e9}\u{2026}");
}

#[test]
fn emoji_are_told_apart() {
    let s = "hi\u{1f600}\u{1f600}!";
    let flags: Vec<bool> = s.chars().map(|c| c == '\u{1f600}').collect();
    assert_eq!(
        emoji_runs(s, &flags),
        vec![
            ("hi".to_string(), false),
            ("\u{1f600}\u{1f600}".to_string(), true),
            ("!".to_string(), false)
        ]
    );
}

#[test]
fn attachments_are_shown_by_kind() {
    let a = |mime: &str, thumbnail: bool, path: Option<&str>| MessageAttachment {
        part_id: 3,
        unique_identifier: Some("u".into()),
        mime_type: mime.into(),
        thumbnail: thumbnail.then_some(vec![1]),
        full_path: path.map(str::to_string),
    };
    assert!(a("video/mp4", false, None).is_video());
    assert!(!a("image/png", false, None).is_video());
    assert!(matches!(
        view_attachment(&a("video/mp4", false, Some("/v.mp4"))),
        AttachmentView::OpenVideo { path } if path == "/v.mp4"
    ));
    assert!(matches!(
        view_attachment(&a("image/png", true, Some("/p.png"))),
        AttachmentView::Picture { path } if path == "/p.png"
    ));
    assert!(matches!(
        view_attachment(&a("video/mp4", false, None)),
        AttachmentView::Preview { card: Some(CardKind::Video), request: Some((3, _)) }
    ));
    assert!(matches!(
        view_attachment(&a("image/png", true, None)),
        AttachmentView::Preview { card: None, request: Some((3, _)) }
    ));
}

#[test]
fn emoji_come_in_rows_of_eight() {
    let all: Vec<String> = (0..19).map(|i| format!("e{i}")).collect();
    let rows = emoji_rows(&all);
    assert_eq!(rows.iter().map(Vec::len).collect::<Vec<_>>(), vec![8, 8, 3]);
    assert_eq!(rows.concat(), all);
    assert_eq!(emoji_rows(&all[..16].to_vec()).len(), 2);
    assert!(emoji_rows(&Vec::new()).is_empty());
}

#[test]
fn conversations_stand_newest_first() {
    let mut w = window();
    let event = ProtocolEvent::ConversationsReceived(vec![
        conversation("1", "+15551230001", 10),
        conversation("2", "+15551230002", 20),
    ]);
    w.update(SmsMessage::ProtocolEventReceived(event), 0);
    assert_eq!(threads(&w), vec!["2", "1"]);
    w.update(
        SmsMessage::ConversationsLoaded(vec![
            conversation("3", "+15551230003", 5),
            conversation("4", "+15551230004", 50),
            conversation("5", "+15551230005", 7),
        ]),
        0,
    );
    assert_eq!(threads(&w), vec!["4", "5", "3"]);
    w.update(SmsMessage::UpdateNewChatPhone("+15551230006".into()), 0);
    w.update(SmsMessage::CreateNewChat, 6);
    assert_eq!(threads(&w), vec!["4", "5", "new_6", "3"]);
}

#[test]
fn hidden_conversations_are_not_loaded_again() {
    let mut w = window();
    let list = || vec![conversation("1", "+15551230001", 10), conversation("2", "+15551230002", 20)];
    w.update(SmsMessage::ConversationsLoaded(list()), 0);
    w.update(SmsMessage::RequestDeleteConversation("2".into()), 0);
    w.update(SmsMessage::ConfirmDeleteConversation, 0);
    assert_eq!(threads(&w), vec!["1"]);
    w.update(SmsMessage::ConversationsLoaded(list()), 0);
    assert_eq!(threads(&w), vec!["1"]);
}
