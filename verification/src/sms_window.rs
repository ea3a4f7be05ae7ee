//! The window for text messages: what it holds, and how it changes.

use vstd::prelude::*;

use crate::contacts;
use crate::contacts::{
    contact_name, index_contacts, name_group, phone_numbers_match, sort_cached_contacts,
};
use crate::conversation::{
    AttachmentModel, Conversation, ConversationModel, Message, MessageAttachment, MessageModel,
    ProtocolEvent,
};
use crate::order;
use crate::order::{sort, Ranked};
use crate::paths;
use crate::paths::file_name_of;
use crate::sms;
use crate::sms::guess_mime_type;
use crate::table::{Duplicate, TextMap, TextSet};
use crate::text;
use crate::text::{
    copy_texts, decimal_text, join2, parse_number, same, starts_with, to_lowercase, trim,
};

verus! {

/// How many messages of a thread are shown at first, and how many more each
/// time that older ones are asked for.
pub const INITIAL_MESSAGES_WINDOW: usize = 100;

/// How far apart the dates of a message that is being sent and of its echo may
/// be, in milliseconds.
pub const ECHO_WINDOW: i64 = 300_000;

/// The first message that is shown, out of `total`.
pub open spec fn window_start(total: nat, window_size: nat) -> nat {
    if total > window_size {
        (total - window_size) as nat
    } else {
        0
    }
}

/// The first message that is shown, out of `total`.
pub fn message_window_start(total: usize, window_size: usize) -> (r: usize)
    ensures
        r == window_start(total as nat, window_size as nat),
        total <= window_size ==> r == 0,
        total > window_size ==> r == total - window_size,
{
    total.saturating_sub(window_size)
}

/// What the window is told.
#[derive(Debug)]
pub enum SmsMessage {
    LoadConversations,
    ConversationsLoaded(Vec<Conversation>),
    /// Names by phone number.
    ContactsLoaded(TextMap<String>),
    /// Photos by phone number.
    ContactPhotosLoaded(Vec<(String, Vec<u8>)>),
    /// Handles of pictures by phone number.
    AvatarsBaked(Vec<(String, u64)>),
    SelectThread(String),
    LoadMoreMessages,
    UpdateInput(String),
    UpdateSearch(String),
    SendMessage,
    RefreshThread,
    CloseWindow,
    ProtocolEventReceived(ProtocolEvent),
    OpenNewChatDialog,
    CloseNewChatDialog,
    UpdateNewChatPhone(String),
    SelectContactForNewChat(usize),
    CreateNewChat,
    ToggleEmojiPicker,
    SelectEmojiCategory(usize),
    InsertEmoji(String),
    RequestDeleteConversation(String),
    CancelDeleteConversation,
    /// Hides the conversation from this window. The phone keeps it.
    ConfirmDeleteConversation,
    RequestFullAttachment { part_id: i64, unique_identifier: String },
    /// The full file of an attachment is there: its identifier and its path.
    AttachmentReceived(String, String),
    OpenAttachment(String),
    SaveAttachment(String),
    PickAttachment,
    AttachmentsPicked(Vec<String>),
    RemovePendingAttachment(usize),
}

/// What the window asks for.
#[derive(Debug, PartialEq, Eq)]
pub enum SmsTask {
    FetchConversations,
    BakeAvatars(Vec<(String, Vec<u8>)>),
    RequestAttachment { part_id: i64, unique_identifier: String },
    OpenFile(String),
    /// Ask where to save the file, and copy it there.
    SaveFile { path: String, suggested_name: String },
    PickFiles,
    RequestMessages(i64),
    SaveLastSeen,
    ScrollToTop,
    SendSms { phone: String, text: String, attachments: Vec<String> },
    SelectThread(String),
    SaveHidden,
    Exit,
}

/// What the window asks for, as a value.
pub enum TaskModel {
    FetchConversations,
    BakeAvatars(Seq<(Seq<char>, Seq<u8>)>),
    RequestAttachment { part_id: i64, unique_identifier: Seq<char> },
    OpenFile(Seq<char>),
    SaveFile { path: Seq<char>, suggested_name: Seq<char> },
    PickFiles,
    RequestMessages(i64),
    SaveLastSeen,
    ScrollToTop,
    SendSms { phone: Seq<char>, text: Seq<char>, attachments: Seq<Seq<char>> },
    SelectThread(Seq<char>),
    SaveHidden,
    Exit,
}

/// Photos by phone number, as values.
pub open spec fn photos_view(photos: Seq<(String, Vec<u8>)>) -> Seq<(Seq<char>, Seq<u8>)> {
    photos.map_values(|p: (String, Vec<u8>)| contacts::photo_view(p))
}

impl View for SmsTask {
    type V = TaskModel;

    open spec fn view(&self) -> TaskModel {
        match self {
            SmsTask::FetchConversations => TaskModel::FetchConversations,
            SmsTask::BakeAvatars(photos) => TaskModel::BakeAvatars(photos_view(photos@)),
            SmsTask::RequestAttachment {
                part_id,
                unique_identifier,
            } => TaskModel::RequestAttachment {
                part_id: *part_id,
                unique_identifier: unique_identifier@,
            },
            SmsTask::OpenFile(p) => TaskModel::OpenFile(p@),
            SmsTask::SaveFile { path, suggested_name } => TaskModel::SaveFile {
                path: path@,
                suggested_name: suggested_name@,
            },
            SmsTask::PickFiles => TaskModel::PickFiles,
            SmsTask::RequestMessages(t) => TaskModel::RequestMessages(*t),
            SmsTask::SaveLastSeen => TaskModel::SaveLastSeen,
            SmsTask::ScrollToTop => TaskModel::ScrollToTop,
            SmsTask::SendSms { phone, text, attachments } => TaskModel::SendSms {
                phone: phone@,
                text: text@,
                attachments: attachments.deep_view(),
            },
            SmsTask::SelectThread(t) => TaskModel::SelectThread(t@),
            SmsTask::SaveHidden => TaskModel::SaveHidden,
            SmsTask::Exit => TaskModel::Exit,
        }
    }
}

/// The window for text messages of one device.
#[derive(Debug)]
pub struct SmsWindow {
    pub device_id: String,
    pub device_name: String,
    pub conversations: Vec<Conversation>,
    /// Numbers and names, in the order of the names.
    pub contacts: Vec<(String, String)>,
    pub contacts_by_name: Vec<String>,
    pub contacts_by_phone: TextMap<String>,
    pub contact_photo_handles: TextMap<u64>,
    pub selected_thread: Option<String>,
    pub contact_idx: Option<usize>,
    pub messages: Vec<Message>,
    pub messages_window_size: usize,
    pub message_input: String,
    pub search_query: String,
    pub search_query_lower: String,
    pub show_new_chat_dialog: bool,
    pub new_chat_phone_input: String,
    pub show_emoji_picker: bool,
    pub emoji_category: usize,
    pub hidden_conversations: TextSet,
    pub pending_delete_thread: Option<String>,
    pub last_seen_timestamp: TextMap<i64>,
    pub pending_attachments: Vec<String>,
}

/// What the window holds, as a value.
#[verifier::ext_equal]
pub struct SmsState {
    pub device_id: Seq<char>,
    pub device_name: Seq<char>,
    pub conversations: Seq<ConversationModel>,
    pub contacts: Seq<(Seq<char>, Seq<char>)>,
    pub contacts_by_name: Seq<Seq<char>>,
    pub contacts_by_phone: Map<Seq<char>, Seq<char>>,
    pub photos: Map<Seq<char>, u64>,
    pub selected_thread: Option<Seq<char>>,
    pub contact_idx: Option<usize>,
    pub messages: Seq<MessageModel>,
    pub messages_window_size: usize,
    pub message_input: Seq<char>,
    pub search_query: Seq<char>,
    pub search_query_lower: Seq<char>,
    pub show_new_chat_dialog: bool,
    pub new_chat_phone_input: Seq<char>,
    pub show_emoji_picker: bool,
    pub emoji_category: usize,
    pub hidden: Set<Seq<char>>,
    pub pending_delete_thread: Option<Seq<char>>,
    pub last_seen: Map<Seq<char>, i64>,
    pub pending_attachments: Seq<Seq<char>>,
}

impl View for SmsWindow {
    type V = SmsState;

    open spec fn view(&self) -> SmsState {
        SmsState {
            device_id: self.device_id@,
            device_name: self.device_name@,
            conversations: order::views(self.conversations@),
            contacts: order::views(self.contacts@),
            contacts_by_name: self.contacts_by_name.deep_view(),
            contacts_by_phone: self.contacts_by_phone@,
            photos: self.contact_photo_handles@,
            selected_thread: self.selected_thread.deep_view(),
            contact_idx: self.contact_idx,
            messages: order::views(self.messages@),
            messages_window_size: self.messages_window_size,
            message_input: self.message_input@,
            search_query: self.search_query@,
            search_query_lower: self.search_query_lower@,
            show_new_chat_dialog: self.show_new_chat_dialog,
            new_chat_phone_input: self.new_chat_phone_input@,
            show_emoji_picker: self.show_emoji_picker,
            emoji_category: self.emoji_category,
            hidden: self.hidden_conversations@,
            pending_delete_thread: self.pending_delete_thread.deep_view(),
            last_seen: self.last_seen_timestamp@,
            pending_attachments: self.pending_attachments.deep_view(),
        }
    }
}

/// Where the conversation of a thread stands, or how many there are.
pub open spec fn thread_at(conversations: Seq<ConversationModel>, thread_id: Seq<char>) -> int {
    order::first_where(conversations, |c: ConversationModel| c.thread_id == thread_id)
}

/// Whether there is a conversation of a thread.
pub open spec fn has_thread(conversations: Seq<ConversationModel>, thread_id: Seq<char>) -> bool {
    thread_at(conversations, thread_id) < conversations.len()
}

/// A conversation under the name of its contacts: a group under the names of
/// everyone in it, another under the name of its number where that is known.
pub open spec fn named(by_phone: Map<Seq<char>, Seq<char>>, c: ConversationModel) -> ConversationModel {
    if c.addresses.len() > 1 {
        ConversationModel { contact_name: contacts::group_name(by_phone, c.addresses), ..c }
    } else {
        match contacts::name_of(by_phone, c.phone_number) {
            Some(name) => ConversationModel { contact_name: name, ..c },
            None => c,
        }
    }
}

/// Conversations under the names of their contacts.
pub open spec fn all_named(
    by_phone: Map<Seq<char>, Seq<char>>,
    conversations: Seq<ConversationModel>,
) -> Seq<ConversationModel> {
    conversations.map_values(|c: ConversationModel| named(by_phone, c))
}

/// The identifier of a message that is being sent.
pub open spec fn is_sending(m: MessageModel) -> bool {
    text::begins(m.id, "sending_"@)
}

/// How far apart two dates are.
pub open spec fn apart(a: i64, b: i64) -> int {
    if a >= b {
        a - b
    } else {
        b - a
    }
}

/// Whether a message that comes in is the echo of one that is being sent.
pub open spec fn echoes(pending: MessageModel, m: MessageModel) -> bool {
    &&& is_sending(pending)
    &&& pending.type_ == 2
    &&& m.type_ == 2
    &&& pending.body == m.body
    &&& apart(pending.date, m.date) < ECHO_WINDOW
}

/// The messages of the open thread with one that comes in: one that is there
/// already changes nothing, an echo takes the place of the message that is
/// being sent, and any other comes last.
pub open spec fn with_message(messages: Seq<MessageModel>, m: MessageModel) -> Seq<MessageModel> {
    let known = order::first_where(messages, |x: MessageModel| x.id == m.id);
    let echo = order::first_where(messages, |x: MessageModel| echoes(x, m));
    if known < messages.len() {
        messages
    } else if echo < messages.len() {
        messages.update(
            echo,
            MessageModel { id: m.id, thread_id: m.thread_id, date: m.date, ..messages[echo] },
        )
    } else {
        messages.push(m)
    }
}

/// The conversations after a message that comes in: its own shows it, and is
/// unread unless it is open or the message was sent from here.
pub open spec fn with_latest(
    conversations: Seq<ConversationModel>,
    selected: Option<Seq<char>>,
    m: MessageModel,
) -> Seq<ConversationModel> {
    let at = thread_at(conversations, m.thread_id);
    if at < conversations.len() {
        let c = conversations[at];
        conversations.update(
            at,
            ConversationModel {
                last_message: m.body,
                timestamp: m.date,
                unread: c.unread || (selected != Some(m.thread_id) && m.type_ != 2),
                ..c
            },
        )
    } else {
        conversations
    }
}

/// What was last seen of a thread, after a message of it was shown.
pub open spec fn seen_until(last_seen: Map<Seq<char>, i64>, m: MessageModel) -> Map<Seq<char>, i64> {
    let before: i64 = if last_seen.contains_key(m.thread_id) {
        last_seen[m.thread_id]
    } else {
        0
    };
    last_seen.insert(
        m.thread_id,
        if before >= m.date {
            before
        } else {
            m.date
        },
    )
}

/// The window after one message has come in, before anything is sorted.
pub open spec fn taken_in(s: SmsState, m: MessageModel) -> SmsState {
    if s.hidden.contains(m.thread_id) {
        s
    } else {
        let open = s.selected_thread == Some(m.thread_id);
        SmsState {
            last_seen: if open {
                seen_until(s.last_seen, m)
            } else {
                s.last_seen
            },
            messages: if open {
                with_message(s.messages, m)
            } else {
                s.messages
            },
            conversations: with_latest(s.conversations, s.selected_thread, m),
            ..s
        }
    }
}

/// The window after messages have come in, before anything is sorted.
pub open spec fn all_taken_in(s: SmsState, messages: Seq<MessageModel>) -> SmsState
    decreases messages.len(),
{
    if messages.len() == 0 {
        s
    } else {
        taken_in(all_taken_in(s, messages.drop_last()), messages.last())
    }
}

/// Whether a batch of messages leaves an open thread that shows any.
pub open spec fn shows_thread(s: SmsState) -> bool {
    s.selected_thread is Some && s.messages.len() > 0
}

/// The window after a batch of messages.
pub open spec fn after_messages(s: SmsState, messages: Seq<MessageModel>) -> SmsState {
    let now = all_taken_in(s, messages);
    SmsState {
        messages: if shows_thread(now) {
            order::sorted::<Message>(now.messages)
        } else {
            now.messages
        },
        conversations: order::sorted::<Conversation>(now.conversations),
        ..now
    }
}

/// Whether a thread exists in this window only, until the phone knows it.
pub open spec fn is_new(thread_id: Seq<char>) -> bool {
    text::begins(thread_id, "new_"@)
}

/// Whether two phone numbers are the same.
pub open spec fn same_phone(a: Seq<char>, b: Seq<char>) -> bool {
    contacts::normalized(a) == contacts::normalized(b)
}

/// The conversations with one that comes in: it takes the place of a new chat
/// with the same number, or else of its own earlier state, or else comes last.
pub open spec fn with_conversation(list: Seq<ConversationModel>, c: ConversationModel) -> Seq<
    ConversationModel,
> {
    let chat = order::first_where(
        list,
        |x: ConversationModel| is_new(x.thread_id) && same_phone(x.phone_number, c.phone_number),
    );
    if is_new(c.thread_id) {
        list
    } else if chat < list.len() {
        list.update(chat, c)
    } else if has_thread(list, c.thread_id) {
        list.update(thread_at(list, c.thread_id), c)
    } else {
        list.push(c)
    }
}

/// The conversations with all that come in.
pub open spec fn with_conversations(
    list: Seq<ConversationModel>,
    incoming: Seq<ConversationModel>,
) -> Seq<ConversationModel>
    decreases incoming.len(),
{
    if incoming.len() == 0 {
        list
    } else {
        with_conversation(with_conversations(list, incoming.drop_last()), incoming.last())
    }
}

/// Whether a conversation that comes in has the phone number.
pub open spec fn known_phone(incoming: Seq<ConversationModel>, phone: Seq<char>) -> bool {
    exists|i: int|
        0 <= i < incoming.len() && same_phone((#[trigger] incoming[i]).phone_number, phone)
}

/// Whether a conversation stays once others have come in: a new chat goes as
/// soon as the phone knows its number, and a hidden one goes too.
pub open spec fn stays(s: SmsState, incoming: Seq<ConversationModel>, c: ConversationModel) -> bool {
    &&& is_new(c.thread_id) ==> !known_phone(incoming, c.phone_number)
    &&& !s.hidden.contains(c.thread_id)
}

/// The number of the new chat that is open, where one is.
pub open spec fn open_chat(s: SmsState) -> Option<Seq<char>> {
    match s.selected_thread {
        Some(t) => if is_new(t) && has_thread(s.conversations, t) {
            Some(s.conversations[thread_at(s.conversations, t)].phone_number)
        } else {
            None
        },
        None => None,
    }
}

/// The conversations that are not hidden.
pub open spec fn unhidden(hidden: Set<Seq<char>>, list: Seq<ConversationModel>) -> Seq<
    ConversationModel,
> {
    list.filter(|c: ConversationModel| !hidden.contains(c.thread_id))
}

/// The window after conversations have come in, the newest first. An open new
/// chat moves on to the thread that the phone has for it.
pub open spec fn after_conversations(s: SmsState, incoming: Seq<ConversationModel>) -> SmsState {
    let kept = with_conversations(s.conversations, incoming).filter(
        |c: ConversationModel| stays(s, incoming, c),
    );
    let list = order::sorted::<Conversation>(all_named(s.contacts_by_phone, kept));
    let selected = match open_chat(s) {
        Some(phone) => {
            let actual = order::first_where(
                list,
                |c: ConversationModel| !is_new(c.thread_id) && same_phone(c.phone_number, phone),
            );
            if actual < list.len() {
                Some(list[actual].thread_id)
            } else {
                s.selected_thread
            }
        },
        None => s.selected_thread,
    };
    SmsState { conversations: list, selected_thread: selected, ..s }
}

/// An attachment, with its file where it is the one that came in.
pub open spec fn with_file(a: AttachmentModel, id: Seq<char>, path: Seq<char>) -> AttachmentModel {
    if a.unique_identifier == Some(id) {
        AttachmentModel { full_path: Some(path), ..a }
    } else {
        a
    }
}

/// Messages, with the file of the attachment that came in.
pub open spec fn with_files(messages: Seq<MessageModel>, id: Seq<char>, path: Seq<char>) -> Seq<
    MessageModel,
> {
    messages.map_values(
        |m: MessageModel|
            MessageModel {
                attachments: m.attachments.map_values(
                    |a: AttachmentModel| with_file(a, id, path),
                ),
                ..m
            },
    )
}

/// Handles by phone number, with further ones.
pub open spec fn with_handles(map: Map<Seq<char>, u64>, baked: Seq<(String, u64)>) -> Map<
    Seq<char>,
    u64,
>
    decreases baked.len(),
{
    if baked.len() == 0 {
        map
    } else {
        with_handles(map, baked.drop_last()).insert(baked.last().0@, baked.last().1)
    }
}

/// The attachment that stands for a file that is being sent.
pub open spec fn outgoing(path: Seq<char>) -> AttachmentModel {
    AttachmentModel {
        part_id: 0,
        unique_identifier: None,
        mime_type: sms::mime_type_of(sms::lower_extension(path)),
        thumbnail: None,
        full_path: Some(path),
    }
}

/// The message that stands for one that is being sent.
pub open spec fn sending(s: SmsState, c: ConversationModel, now: i64) -> MessageModel {
    MessageModel {
        id: "sending_"@ + text::decimal(now as int),
        thread_id: c.thread_id,
        body: s.message_input,
        address: c.phone_number,
        date: now,
        attachments: s.pending_attachments.map_values(|p: Seq<char>| outgoing(p)),
        type_: 2,
        read: true,
    }
}

/// The conversation that a message would be sent in: there is something to
/// send, and its thread is open.
pub open spec fn recipient(s: SmsState) -> Option<ConversationModel> {
    if text::trimmed(s.message_input).len() == 0 && s.pending_attachments.len() == 0 {
        None
    } else {
        match s.selected_thread {
            Some(t) => if has_thread(s.conversations, t) {
                Some(s.conversations[thread_at(s.conversations, t)])
            } else {
                None
            },
            None => None,
        }
    }
}

/// The window after a message was sent.
pub open spec fn after_send(s: SmsState, c: ConversationModel, now: i64) -> SmsState {
    SmsState {
        messages: order::sorted::<Message>(s.messages.push(sending(s, c, now))),
        message_input: Seq::empty(),
        pending_attachments: Seq::empty(),
        conversations: order::sorted::<Conversation>(
            s.conversations.update(
                thread_at(s.conversations, c.thread_id),
                ConversationModel { last_message: s.message_input, timestamp: now, ..c },
            ),
        ),
        ..s
    }
}

/// The window after a thread was opened.
pub open spec fn after_select(s: SmsState, thread_id: Seq<char>) -> SmsState {
    SmsState {
        last_seen: if has_thread(s.conversations, thread_id) {
            s.last_seen.insert(
                thread_id,
                s.conversations[thread_at(s.conversations, thread_id)].timestamp,
            )
        } else {
            s.last_seen
        },
        selected_thread: Some(thread_id),
        messages: Seq::empty(),
        messages_window_size: INITIAL_MESSAGES_WINDOW,
        ..s
    }
}

/// The chat that is begun with a number.
pub open spec fn new_chat(phone: Seq<char>, now: i64) -> ConversationModel {
    ConversationModel {
        thread_id: "new_"@ + text::decimal(now as int),
        contact_name: Seq::empty(),
        phone_number: phone,
        addresses: seq![phone],
        last_message: Seq::empty(),
        timestamp: now,
        unread: false,
    }
}

/// The window after a conversation was hidden.
pub open spec fn after_delete(s: SmsState, thread_id: Seq<char>) -> SmsState {
    let open = s.selected_thread == Some(thread_id);
    SmsState {
        conversations: s.conversations.filter(
            |c: ConversationModel| c.thread_id != thread_id,
        ),
        hidden: s.hidden.insert(thread_id),
        pending_delete_thread: None,
        selected_thread: if open {
            None
        } else {
            s.selected_thread
        },
        messages: if open {
            Seq::empty()
        } else {
            s.messages
        },
        ..s
    }
}

/// The window after contacts were loaded.
pub open spec fn after_contacts(s: SmsState, list: Seq<(Seq<char>, Seq<char>)>) -> SmsState {
    let contacts = order::sorted::<(String, String)>(list);
    let by_phone = contacts::by_digits(list);
    SmsState {
        contacts,
        contacts_by_name: contacts.map_values(|c: (Seq<char>, Seq<char>)| c.1),
        contacts_by_phone: by_phone,
        conversations: all_named(by_phone, s.conversations),
        ..s
    }
}

/// The window after it was told something.
pub open spec fn after(s: SmsState, message: SmsMessage, now: i64) -> SmsState {
    match message {
        SmsMessage::ConversationsLoaded(list) => SmsState {
            conversations: order::sorted::<Conversation>(
                all_named(s.contacts_by_phone, unhidden(s.hidden, order::views(list@))),
            ),
            ..s
        },
        SmsMessage::ContactsLoaded(contacts) => after_contacts(s, order::views(contacts.list())),
        SmsMessage::AvatarsBaked(baked) => SmsState { photos: with_handles(s.photos, baked@), ..s },
        SmsMessage::AttachmentReceived(id, path) => SmsState {
            messages: with_files(s.messages, id@, path@),
            ..s
        },
        SmsMessage::AttachmentsPicked(paths) => SmsState {
            pending_attachments: s.pending_attachments + paths.deep_view(),
            ..s
        },
        SmsMessage::RemovePendingAttachment(index) => SmsState {
            pending_attachments: if index < s.pending_attachments.len() {
                s.pending_attachments.remove(index as int)
            } else {
                s.pending_attachments
            },
            ..s
        },
        SmsMessage::SelectThread(t) => after_select(s, t@),
        SmsMessage::LoadMoreMessages => SmsState {
            messages_window_size: if s.messages_window_size + INITIAL_MESSAGES_WINDOW
                <= usize::MAX {
                (s.messages_window_size + INITIAL_MESSAGES_WINDOW) as usize
            } else {
                usize::MAX
            },
            ..s
        },
        SmsMessage::UpdateInput(input) => SmsState { message_input: input@, ..s },
        SmsMessage::UpdateSearch(query) => SmsState {
            search_query: query@,
            search_query_lower: text::lowercased(query@),
            ..s
        },
        SmsMessage::SendMessage => match recipient(s) {
            Some(c) => after_send(s, c, now),
            None => s,
        },
        SmsMessage::ProtocolEventReceived(event) => match event {
            ProtocolEvent::MessageReceived(m) => after_messages(s, seq![m@]),
            ProtocolEvent::MessagesReceived(list) => after_messages(s, order::views(list@)),
            ProtocolEvent::ConversationsReceived(list) => after_conversations(
                s,
                order::views(list@),
            ),
            ProtocolEvent::Error(_) => s,
        },
        SmsMessage::OpenNewChatDialog => SmsState { show_new_chat_dialog: true, ..s },
        SmsMessage::CloseNewChatDialog => SmsState {
            show_new_chat_dialog: false,
            new_chat_phone_input: Seq::empty(),
            ..s
        },
        SmsMessage::UpdateNewChatPhone(phone) => SmsState { new_chat_phone_input: phone@, ..s },
        SmsMessage::SelectContactForNewChat(idx) => SmsState {
            new_chat_phone_input: s.contacts[idx as int].0,
            contact_idx: Some(idx),
            ..s
        },
        SmsMessage::CreateNewChat => {
            let phone = text::trimmed(s.new_chat_phone_input);
            if phone.len() > 0 {
                SmsState {
                    conversations: order::sorted::<Conversation>(
                        seq![new_chat(phone, now)] + s.conversations,
                    ),
                    show_new_chat_dialog: false,
                    new_chat_phone_input: Seq::empty(),
                    ..s
                }
            } else {
                s
            }
        },
        SmsMessage::ToggleEmojiPicker => SmsState {
            show_emoji_picker: !s.show_emoji_picker,
            ..s
        },
        SmsMessage::SelectEmojiCategory(category) => SmsState { emoji_category: category, ..s },
        SmsMessage::InsertEmoji(emoji) => SmsState {
            message_input: s.message_input + emoji@,
            ..s
        },
        SmsMessage::RequestDeleteConversation(t) => SmsState {
            pending_delete_thread: Some(t@),
            ..s
        },
        SmsMessage::CancelDeleteConversation => SmsState { pending_delete_thread: None, ..s },
        SmsMessage::ConfirmDeleteConversation => match s.pending_delete_thread {
            Some(t) => after_delete(s, t),
            None => s,
        },
        _ => s,
    }
}

/// The thread to ask the phone for. A thread that the phone does not know yet
/// has no number.
pub open spec fn thread_number(thread_id: Seq<char>) -> i64 {
    match text::parsed(thread_id) {
        Some(n) => n,
        None => 0,
    }
}

/// What the window asks for when it is told something.
pub open spec fn asks(s: SmsState, message: SmsMessage, now: i64) -> Seq<TaskModel> {
    match message {
        SmsMessage::LoadConversations => seq![TaskModel::FetchConversations],
        SmsMessage::ContactPhotosLoaded(photos) => seq![
            TaskModel::BakeAvatars(photos_view(photos@)),
        ],
        SmsMessage::RequestFullAttachment { part_id, unique_identifier } => seq![
            TaskModel::RequestAttachment { part_id, unique_identifier: unique_identifier@ },
        ],
        SmsMessage::OpenAttachment(path) => seq![TaskModel::OpenFile(path@)],
        SmsMessage::SaveAttachment(path) => seq![
            TaskModel::SaveFile {
                path: path@,
                suggested_name: match paths::file_name(path@) {
                    Some(name) => name,
                    None => "attachment"@,
                },
            },
        ],
        SmsMessage::PickAttachment => seq![TaskModel::PickFiles],
        SmsMessage::SelectThread(t) => seq![
            TaskModel::RequestMessages(thread_number(t@)),
            TaskModel::SaveLastSeen,
        ],
        SmsMessage::SendMessage => match recipient(s) {
            Some(c) => seq![
                TaskModel::ScrollToTop,
                TaskModel::SendSms {
                    phone: c.phone_number,
                    text: s.message_input,
                    attachments: s.pending_attachments,
                },
            ],
            None => Seq::empty(),
        },
        SmsMessage::ProtocolEventReceived(event) => match event {
            ProtocolEvent::MessageReceived(m) => save_asked(all_taken_in(s, seq![m@])),
            ProtocolEvent::MessagesReceived(list) => save_asked(
                all_taken_in(s, order::views(list@)),
            ),
            _ => Seq::empty(),
        },
        SmsMessage::CreateNewChat => if text::trimmed(s.new_chat_phone_input).len() > 0 {
            seq![TaskModel::SelectThread("new_"@ + text::decimal(now as int))]
        } else {
            Seq::empty()
        },
        SmsMessage::CloseWindow => seq![TaskModel::Exit],
        SmsMessage::ConfirmDeleteConversation => if s.pending_delete_thread is Some {
            seq![TaskModel::SaveHidden]
        } else {
            Seq::empty()
        },
        _ => Seq::empty(),
    }
}

/// What was seen is saved once for a whole batch of messages.
pub open spec fn save_asked(s: SmsState) -> Seq<TaskModel> {
    if shows_thread(s) {
        seq![TaskModel::SaveLastSeen]
    } else {
        Seq::empty()
    }
}

fn no_task() -> (r: Vec<SmsTask>)
    ensures
        order::views(r@) == Seq::<TaskModel>::empty(),
{
    let r: Vec<SmsTask> = Vec::new();
    proof {
        assert(order::views(r@) =~= Seq::<TaskModel>::empty());
    }
    r
}

fn one_task(t: SmsTask) -> (r: Vec<SmsTask>)
    ensures
        order::views(r@) == seq![t@],
{
    let mut r: Vec<SmsTask> = Vec::new();
    r.push(t);
    proof {
        assert(order::views(r@) =~= seq![t@]);
    }
    r
}

fn two_tasks(t: SmsTask, u: SmsTask) -> (r: Vec<SmsTask>)
    ensures
        order::views(r@) == seq![t@, u@],
{
    let mut r: Vec<SmsTask> = Vec::new();
    r.push(t);
    r.push(u);
    proof {
        assert(order::views(r@) =~= seq![t@, u@]);
    }
    r
}

fn find_thread(list: &Vec<Conversation>, thread_id: &str) -> (r: Option<usize>)
    ensures
        r is Some <==> has_thread(order::views(list@), thread_id@),
        r is Some ==> r->0 < list@.len() && r->0 == thread_at(order::views(list@), thread_id@)
            && list@[r->0 as int].thread_id@ == thread_id@,
{
    let ghost all = order::views(list@);
    let ghost p = |c: ConversationModel| c.thread_id == thread_id@;
    let mut i: usize = 0;
    while i < list.len() && !same(&list[i].thread_id, thread_id)
        invariant
            i <= list@.len(),
            all == order::views(list@),
            p == (|c: ConversationModel| c.thread_id == thread_id@),
            forall|j: int| 0 <= j < i ==> !p(#[trigger] all[j]),
        decreases list@.len() - i,
    {
        proof {
            assert(all[i as int] == list@[i as int]@);
        }
        i = i + 1;
    }
    proof {
        if i < list.len() {
            assert(all[i as int] == list@[i as int]@);
        }
        order::lemma_first_where(all, p, i as int);
    }
    if i < list.len() {
        Some(i)
    } else {
        None
    }
}

fn find_chat(list: &Vec<Conversation>, phone: &str, wanted: bool) -> (r: Option<usize>)
    ensures
        ({
            let all = order::views(list@);
            let at = order::first_where(
                all,
                |x: ConversationModel|
                    is_new(x.thread_id) == wanted && same_phone(x.phone_number, phone@),
            );
            &&& r is Some <==> at < all.len()
            &&& r is Some ==> r->0 == at
        }),
{
    let ghost all = order::views(list@);
    let ghost p = |x: ConversationModel|
        is_new(x.thread_id) == wanted && same_phone(x.phone_number, phone@);
    let mut i: usize = 0;
    while i < list.len() && !(starts_with(&list[i].thread_id, "new_") == wanted
        && phone_numbers_match(&list[i].phone_number, phone))
        invariant
            i <= list@.len(),
            all == order::views(list@),
            p == (|x: ConversationModel|
                is_new(x.thread_id) == wanted && same_phone(x.phone_number, phone@)),
            forall|j: int| 0 <= j < i ==> !p(#[trigger] all[j]),
        decreases list@.len() - i,
    {
        proof {
            assert(all[i as int] == list@[i as int]@);
        }
        i = i + 1;
    }
    proof {
        if i < list.len() {
            assert(all[i as int] == list@[i as int]@);
        }
        order::lemma_first_where(all, p, i as int);
    }
    if i < list.len() {
        Some(i)
    } else {
        None
    }
}

fn name_conversations(list: &mut Vec<Conversation>, by_phone: &TextMap<String>)
    requires
        by_phone.wf(),
    ensures
        order::views(final(list)@) == all_named(by_phone@, order::views(old(list)@)),
{
    let ghost before = list@;
    let mut i: usize = 0;
    while i < list.len()
        invariant
            i <= list@.len(),
            list@.len() == before.len(),
            by_phone.wf(),
            forall|k: int|
                0 <= k < i ==> (#[trigger] list@[k])@ == named(by_phone@, before[k]@),
            forall|k: int| i <= k < before.len() ==> #[trigger] list@[k] == before[k],
        decreases list@.len() - i,
    {
        if list[i].addresses.len() > 1 {
            let name = name_group(by_phone, &list[i].addresses);
            list[i].contact_name = name;
        } else {
            let found = contact_name(by_phone, &list[i].phone_number);
            if let Some(name) = found {
                list[i].contact_name = name;
            }
        }
        i = i + 1;
    }
    proof {
        assert(order::views(list@) =~= all_named(by_phone@, order::views(before)));
    }
}

/// Leaves the conversations that are not hidden.
fn drop_hidden(list: &mut Vec<Conversation>, hidden: &TextSet)
    ensures
        order::views(final(list)@) == unhidden(hidden@, order::views(old(list)@)),
{
    let ghost all = order::views(list@);
    let ghost shown = |c: ConversationModel| !hidden@.contains(c.thread_id);
    let n: usize = list.len();
    let mut k: usize = 0;
    let mut done: usize = 0;
    proof {
        assert(all.take(0) =~= Seq::empty());
        assert(order::views(list@.take(0)) =~= Seq::empty());
    }
    while done < n
        invariant
            k <= done <= n,
            n == all.len(),
            shown == (|c: ConversationModel| !hidden@.contains(c.thread_id)),
            list@.len() == k + (n - done),
            order::views(list@.take(k as int)) == all.take(done as int).filter(shown),
            forall|j: int| k <= j < list@.len() ==> (#[trigger] list@[j])@ == all[j - k + done],
        decreases n - done,
    {
        let ghost was = list@;
        proof {
            assert(was[k as int]@ == all[k - k + done]);
            assert(all.take(done + 1) =~= all.take(done as int).push(all[done as int]));
            all.take(done as int).lemma_filter_push(all[done as int], shown);
        }
        if hidden.contains(&list[k].thread_id) {
            list.remove(k);
            proof {
                assert(list@.take(k as int) =~= was.take(k as int));
                assert forall|j: int| k <= j < list@.len() implies (#[trigger] list@[j])@ == all[j
                    - k + (done + 1)] by {
                    assert(list@[j] == was[j + 1]);
                }
            }
        } else {
            proof {
                assert(was.take(k + 1) =~= was.take(k as int).push(was[k as int]));
                assert(order::views(was.take(k + 1)) =~= order::views(was.take(k as int)).push(
                    was[k as int]@,
                ));
            }
            k = k + 1;
        }
        done = done + 1;
    }
    proof {
        assert(all.take(n as int) =~= all);
        assert(list@.take(k as int) =~= list@);
    }
}

fn date_gap(a: i64, b: i64) -> (r: i128)
    ensures
        r == apart(a, b),
{
    if a >= b {
        a as i128 - b as i128
    } else {
        b as i128 - a as i128
    }
}

fn add_message(messages: &mut Vec<Message>, m: Message)
    ensures
        order::views(final(messages)@) == with_message(order::views(old(messages)@), m@),
{
    let ghost all = order::views(messages@);
    let ghost known = |x: MessageModel| x.id == m@.id;
    let ghost echo = |x: MessageModel| echoes(x, m@);
    let mut i: usize = 0;
    let mut at: Option<usize> = None;
    while i < messages.len() && !same(&messages[i].id, &m.id)
        invariant
            i <= messages@.len(),
            all == order::views(messages@),
            known == (|x: MessageModel| x.id == m@.id),
            echo == (|x: MessageModel| echoes(x, m@)),
            forall|j: int| 0 <= j < i ==> !known(#[trigger] all[j]),
            match at {
                Some(n) => n < i && echo(all[n as int]) && forall|j: int|
                    0 <= j < n ==> !echo(#[trigger] all[j]),
                None => forall|j: int| 0 <= j < i ==> !echo(#[trigger] all[j]),
            },
        decreases messages@.len() - i,
    {
        let x = &messages[i];
        proof {
            assert(all[i as int] == x@);
        }
        if at.is_none() && starts_with(&x.id, "sending_") && x.type_ == 2 && m.type_ == 2 && same(
            &x.body,
            &m.body,
        ) && date_gap(x.date, m.date) < ECHO_WINDOW as i128 {
            at = Some(i);
        }
        i = i + 1;
    }
    proof {
        if i < messages.len() {
            assert(all[i as int] == messages@[i as int]@);
        }
        order::lemma_first_where(all, known, i as int);
    }
    if i < messages.len() {
        return;
    }
    match at {
        Some(n) => {
            proof {
                order::lemma_first_where(all, echo, n as int);
                assert(all[n as int] == messages@[n as int]@);
            }
            messages[n].id = m.id;
            messages[n].thread_id = m.thread_id;
            messages[n].date = m.date;
            proof {
                assert(order::views(messages@) =~= with_message(all, m@));
            }
        },
        None => {
            proof {
                order::lemma_first_where(all, echo, all.len() as int);
            }
            messages.push(m);
            proof {
                assert(order::views(messages@) =~= all.push(m@));
            }
        },
    }
}

impl SmsWindow {
    /// The maps hold no key twice, and the names that are offered are those of
    /// the contacts.
    pub open spec fn wf(&self) -> bool {
        &&& self.contacts_by_phone.wf()
        &&& self.contact_photo_handles.wf()
        &&& self.last_seen_timestamp.wf()
        &&& self@.contacts_by_name == self@.contacts.map_values(
            |c: (Seq<char>, Seq<char>)| c.1,
        )
    }

    /// The window as it opens. What was hidden and what was seen comes from the
    /// disk.
    pub fn init(
        device_id: String,
        device_name: String,
        hidden: TextSet,
        last_seen: TextMap<i64>,
    ) -> (r: SmsWindow)
        requires
            last_seen.wf(),
        ensures
            r.wf(),
            r@ == (SmsState {
                device_id: device_id@,
                device_name: device_name@,
                conversations: Seq::empty(),
                contacts: Seq::empty(),
                contacts_by_name: Seq::empty(),
                contacts_by_phone: Map::empty(),
                photos: Map::empty(),
                selected_thread: None,
                contact_idx: Some(0),
                messages: Seq::empty(),
                messages_window_size: INITIAL_MESSAGES_WINDOW,
                message_input: Seq::empty(),
                search_query: Seq::empty(),
                search_query_lower: Seq::empty(),
                show_new_chat_dialog: false,
                new_chat_phone_input: Seq::empty(),
                show_emoji_picker: false,
                emoji_category: 0,
                hidden: hidden@,
                pending_delete_thread: None,
                last_seen: last_seen@,
                pending_attachments: Seq::empty(),
            }),
            r.messages_window_size == 100,
    {
        let r = SmsWindow {
            device_id,
            device_name,
            conversations: Vec::new(),
            contacts: Vec::new(),
            contacts_by_name: Vec::new(),
            contacts_by_phone: TextMap::new(),
            contact_photo_handles: TextMap::new(),
            selected_thread: None,
            contact_idx: Some(0),
            messages: Vec::new(),
            messages_window_size: INITIAL_MESSAGES_WINDOW,
            message_input: String::new(),
            search_query: String::new(),
            search_query_lower: String::new(),
            show_new_chat_dialog: false,
            new_chat_phone_input: String::new(),
            show_emoji_picker: false,
            emoji_category: 0,
            hidden_conversations: hidden,
            pending_delete_thread: None,
            last_seen_timestamp: last_seen,
            pending_attachments: Vec::new(),
        };
        proof {
            assert(r@.conversations =~= Seq::empty());
            assert(r@.contacts =~= Seq::empty());
            assert(r@.contacts_by_name =~= Seq::empty());
            assert(r@.messages =~= Seq::empty());
            assert(r@.pending_attachments =~= Seq::empty());
            assert(r@.contacts_by_name =~= r@.contacts.map_values(
                |c: (Seq<char>, Seq<char>)| c.1,
            ));
        }
        r
    }

    fn is_selected(&self, thread_id: &str) -> (r: bool)
        ensures
            r == (self@.selected_thread == Some(thread_id@)),
    {
        match &self.selected_thread {
            Some(t) => same(t, thread_id),
            None => false,
        }
    }

    fn take_in(&mut self, m: Message)
        requires
            old(self).wf(),
        ensures
            final(self).wf(),
            final(self)@ == taken_in(old(self)@, m@),
    {
        if self.hidden_conversations.contains(&m.thread_id) {
            return;
        }
        let ghost s = self@;
        let ghost v = m@;
        let open = self.is_selected(&m.thread_id);
        let at = find_thread(&self.conversations, &m.thread_id);
        if let Some(i) = at {
            self.conversations[i].last_message = m.body.clone();
            self.conversations[i].timestamp = m.date;
            if !open && m.type_ != 2 {
                self.conversations[i].unread = true;
            }
        }
        proof {
            assert(order::views(self.conversations@) =~= with_latest(
                s.conversations,
                s.selected_thread,
                v,
            ));
        }
        if open {
            let before: i64 = match self.last_seen_timestamp.get(&m.thread_id) {
                Some(t) => *t,
                None => 0,
            };
            let date = m.date;
            self.last_seen_timestamp.insert(
                m.thread_id.clone(),
                if before >= date {
                    before
                } else {
                    date
                },
            );
            add_message(&mut self.messages, m);
        }
        proof {
            assert(self@ =~= taken_in(s, v));
        }
    }

    fn handle_messages_received(&mut self, messages: Vec<Message>) -> (r: Vec<SmsTask>)
        requires
            old(self).wf(),
        ensures
            final(self).wf(),
            final(self)@ == after_messages(old(self)@, order::views(messages@)),
            order::views(r@) == save_asked(all_taken_in(old(self)@, order::views(messages@))),
    {
        let ghost s = self@;
        let ghost all = order::views(messages@);
        let mut rest = messages;
        let n: usize = rest.len();
        let mut i: usize = 0;
        proof {
            assert(all.take(0) =~= Seq::empty());
        }
        while i < n
            invariant
                i <= n,
                n == all.len(),
                rest@.len() == n - i,
                forall|k: int| 0 <= k < rest@.len() ==> (#[trigger] rest@[k])@ == all[k + i],
                self.wf(),
                self@ == all_taken_in(s, all.take(i as int)),
            decreases n - i,
        {
            let ghost was = rest@;
            proof {
                assert(was[0]@ == all[0 + i]);
                assert(all.take(i + 1).drop_last() =~= all.take(i as int));
                assert(all.take(i + 1).last() == all[i as int]);
            }
            let m = rest.remove(0);
            proof {
                assert forall|k: int| 0 <= k < rest@.len() implies (#[trigger] rest@[k])@ == all[k
                    + (i + 1)] by {
                    assert(rest@[k] == was[k + 1]);
                }
            }
            self.take_in(m);
            i = i + 1;
        }
        proof {
            assert(all.take(n as int) =~= all);
        }
        let ghost now = self@;
        let mut r = no_task();
        if self.selected_thread.is_some() && self.messages.len() > 0 {
            sort(&mut self.messages);
            r = one_task(SmsTask::SaveLastSeen);
        }
        sort(&mut self.conversations);
        proof {
            assert(self@ =~= after_messages(s, all));
        }
        r
    }

    fn merge_conversation(list: &mut Vec<Conversation>, c: &Conversation)
        ensures
            order::views(final(list)@) == with_conversation(order::views(old(list)@), c@),
    {
        let ghost all = order::views(list@);
        if starts_with(&c.thread_id, "new_") {
            return;
        }
        let chat = find_chat(list, &c.phone_number, true);
        proof {
            let p = |x: ConversationModel|
                is_new(x.thread_id) && same_phone(x.phone_number, c@.phone_number);
            let q = |x: ConversationModel|
                is_new(x.thread_id) == true && same_phone(x.phone_number, c@.phone_number);
            assert(p =~= q);
        }
        let own = find_thread(list, &c.thread_id);
        match chat {
            Some(i) => {
                list.set(i, c.duplicate());
            },
            None => match own {
                Some(i) => {
                    list.set(i, c.duplicate());
                },
                None => {
                    list.push(c.duplicate());
                },
            },
        }
        proof {
            assert(order::views(list@) =~= with_conversation(all, c@));
        }
    }

    fn keeps(&self, incoming: &Vec<Conversation>, c: &Conversation) -> (r: bool)
        ensures
            r == stays(self@, order::views(incoming@), c@),
    {
        if self.hidden_conversations.contains(&c.thread_id) {
            return false;
        }
        if !starts_with(&c.thread_id, "new_") {
            return true;
        }
        let ghost all = order::views(incoming@);
        let mut i: usize = 0;
        while i < incoming.len()
            invariant
                i <= incoming@.len(),
                all == order::views(incoming@),
                is_new(c@.thread_id),
                forall|j: int|
                    0 <= j < i ==> !same_phone((#[trigger] all[j]).phone_number, c@.phone_number),
            decreases incoming@.len() - i,
        {
            proof {
                assert(all[i as int] == incoming@[i as int]@);
            }
            if phone_numbers_match(&incoming[i].phone_number, &c.phone_number) {
                proof {
                    assert(known_phone(all, c@.phone_number));
                }
                return false;
            }
            i = i + 1;
        }
        true
    }

    fn handle_conversations_received(&mut self, incoming: Vec<Conversation>)
        requires
            old(self).wf(),
        ensures
            final(self).wf(),
            final(self)@ == after_conversations(old(self)@, order::views(incoming@)),
            order::in_order::<Conversation>(final(self)@.conversations),
            none_hidden(final(self)@.hidden, final(self)@.conversations),
    {
        let ghost s = self@;
        let ghost fresh = order::views(incoming@);
        let mut pending: Option<String> = None;
        if let Some(t) = &self.selected_thread {
            if starts_with(t, "new_") {
                if let Some(i) = find_thread(&self.conversations, t) {
                    pending = Some(self.conversations[i].phone_number.clone());
                }
            }
        }
        proof {
            assert(pending.deep_view() == open_chat(s));
        }
        let mut i: usize = 0;
        proof {
            assert(fresh.take(0) =~= Seq::empty());
        }
        while i < incoming.len()
            invariant
                i <= incoming@.len(),
                fresh == order::views(incoming@),
                self.wf(),
                self@ == (SmsState {
                    conversations: with_conversations(s.conversations, fresh.take(i as int)),
                    ..s
                }),
            decreases incoming@.len() - i,
        {
            proof {
                assert(fresh.take(i + 1).drop_last() =~= fresh.take(i as int));
                assert(fresh.take(i + 1).last() == incoming@[i as int]@);
            }
            Self::merge_conversation(&mut self.conversations, &incoming[i]);
            i = i + 1;
        }
        proof {
            assert(fresh.take(i as int) =~= fresh);
        }
        let ghost merged = self@.conversations;
        let ghost keep = |c: ConversationModel| stays(s, fresh, c);
        let mut k: usize = 0;
        let mut done: usize = 0;
        let n: usize = self.conversations.len();
        proof {
            assert(merged.take(0) =~= Seq::empty());
        }
        while done < n
            invariant
                k <= done <= n,
                n == merged.len(),
                fresh == order::views(incoming@),
                keep == (|c: ConversationModel| stays(s, fresh, c)),
                self.wf(),
                self@ == (SmsState { conversations: self@.conversations, ..s }),
                self.conversations@.len() == k + (n - done),
                order::views(self.conversations@.take(k as int)) == merged.take(
                    done as int,
                ).filter(keep),
                forall|j: int|
                    k <= j < self.conversations@.len() ==> (#[trigger] self.conversations@[j])@
                        == merged[j - k + done],
            decreases n - done,
        {
            let ghost was = self.conversations@;
            proof {
                assert(was[k as int]@ == merged[k - k + done]);
                assert(merged.take(done + 1) =~= merged.take(done as int).push(
                    merged[done as int],
                ));
                merged.take(done as int).lemma_filter_push(merged[done as int], keep);
            }
            if self.keeps(&incoming, &self.conversations[k]) {
                proof {
                    assert(was.take(k + 1) =~= was.take(k as int).push(was[k as int]));
                    assert(order::views(was.take(k + 1)) =~= order::views(
                        was.take(k as int),
                    ).push(was[k as int]@));
                }
                k = k + 1;
            } else {
                self.conversations.remove(k);
                proof {
                    assert(self.conversations@.take(k as int) =~= was.take(k as int));
                    assert forall|j: int| k <= j < self.conversations@.len() implies (
                    #[trigger] self.conversations@[j])@ == merged[j - k + (done + 1)] by {
                        assert(self.conversations@[j] == was[j + 1]);
                    }
                }
            }
            done = done + 1;
        }
        proof {
            assert(merged.take(n as int) =~= merged);
            assert(self.conversations@.take(k as int) =~= self.conversations@);
        }
        name_conversations(&mut self.conversations, &self.contacts_by_phone);
        sort(&mut self.conversations);
        let ghost list = self@.conversations;
        if let Some(phone) = pending {
            let actual = find_chat(&self.conversations, &phone, false);
            proof {
                let p = |c: ConversationModel|
                    !is_new(c.thread_id) && same_phone(c.phone_number, phone@);
                let q = |c: ConversationModel|
                    is_new(c.thread_id) == false && same_phone(c.phone_number, phone@);
                assert(p =~= q);
            }
            if let Some(at) = actual {
                self.selected_thread = Some(self.conversations[at].thread_id.clone());
            }
        }
        proof {
            assert(self@ =~= after_conversations(s, fresh));
            lemma_received_conversations(s, fresh);
        }
    }

    fn handle_protocol_event(&mut self, event: ProtocolEvent) -> (r: Vec<SmsTask>)
        requires
            old(self).wf(),
        ensures
            final(self).wf(),
            final(self)@ == after(old(self)@, SmsMessage::ProtocolEventReceived(event), 0),
            order::views(r@) == asks(
                old(self)@,
                SmsMessage::ProtocolEventReceived(event),
                0,
            ),
            event is ConversationsReceived ==> {
                &&& order::in_order::<Conversation>(final(self)@.conversations)
                &&& none_hidden(final(self)@.hidden, final(self)@.conversations)
            },
    {
        match event {
            ProtocolEvent::MessagesReceived(messages) => self.handle_messages_received(messages),
            ProtocolEvent::MessageReceived(message) => {
                let ghost v = message@;
                let mut one: Vec<Message> = Vec::new();
                one.push(message);
                proof {
                    assert(order::views(one@) =~= seq![v]);
                }
                self.handle_messages_received(one)
            },
            ProtocolEvent::ConversationsReceived(conversations) => {
                self.handle_conversations_received(conversations);
                no_task()
            },
            ProtocolEvent::Error(_) => no_task(),
        }
    }

    fn attach_file(&mut self, id: &str, path: &str)
        requires
            old(self).wf(),
        ensures
            final(self).wf(),
            final(self)@ == (SmsState {
                messages: with_files(old(self)@.messages, id@, path@),
                ..old(self)@
            }),
    {
        let ghost s = self@;
        let ghost before = self.messages@;
        let mut i: usize = 0;
        while i < self.messages.len()
            invariant
                i <= self.messages@.len(),
                self.messages@.len() == before.len(),
                s.messages == order::views(before),
                self.wf(),
                self@ == (SmsState { messages: self@.messages, ..s }),
                forall|k: int|
                    0 <= k < i ==> (#[trigger] self.messages@[k])@ == (MessageModel {
                        attachments: before[k]@.attachments.map_values(
                            |a: AttachmentModel| with_file(a, id@, path@),
                        ),
                        ..before[k]@
                    }),
                forall|k: int| i <= k < before.len() ==> #[trigger] self.messages@[k] == before[k],
            decreases self.messages@.len() - i,
        {
            let ghost was = self.messages@;
            let mut j: usize = 0;
            let n: usize = self.messages[i].attachments.len();
            while j < n
                invariant
                    i < self.messages@.len(),
                    j <= n,
                    n == before[i as int].attachments@.len(),
                    self.messages@.len() == before.len(),
                    was.len() == before.len(),
                    was[i as int] == before[i as int],
                    self.wf(),
                    self@ == (SmsState { messages: self@.messages, ..s }),
                    forall|k: int|
                        0 <= k < before.len() && k != i ==> #[trigger] self.messages@[k] == was[k],
                    self.messages@[i as int] == (Message {
                        attachments: self.messages@[i as int].attachments,
                        ..before[i as int]
                    }),
                    self.messages@[i as int].attachments@.len() == n,
                    forall|k: int|
                        0 <= k < j ==> (#[trigger] self.messages@[i as int].attachments@[k])@
                            == with_file(before[i as int].attachments@[k]@, id@, path@),
                    forall|k: int|
                        j <= k < n ==> #[trigger] self.messages@[i as int].attachments@[k]
                            == before[i as int].attachments@[k],
                decreases n - j,
            {
                let hit = match &self.messages[i].attachments[j].unique_identifier {
                    Some(u) => same(u, id),
                    None => false,
                };
                if hit {
                    self.messages[i].attachments[j].full_path = Some(path.to_owned());
                }
                j = j + 1;
            }
            proof {
                assert(order::views(self.messages@[i as int].attachments@)
                    =~= before[i as int]@.attachments.map_values(
                    |a: AttachmentModel| with_file(a, id@, path@),
                ));
            }
            i = i + 1;
        }
        proof {
            assert(order::views(self.messages@) =~= with_files(s.messages, id@, path@));
        }
    }

    fn load_contacts(&mut self, contacts: TextMap<String>)
        requires
            old(self).wf(),
        ensures
            final(self).wf(),
            final(self)@ == after_contacts(old(self)@, order::views(contacts.list())),
    {
        let ghost s = self@;
        let ghost list = order::views(contacts.list());
        let by_name = sort_cached_contacts(&contacts);
        let mut names: Vec<String> = Vec::new();
        let mut i: usize = 0;
        while i < by_name.len()
            invariant
                i <= by_name@.len(),
                names@.len() == i,
                forall|k: int| 0 <= k < i ==> (#[trigger] names@[k])@ == by_name@[k].1@,
            decreases by_name@.len() - i,
        {
            names.push(by_name[i].1.clone());
            i = i + 1;
        }
        proof {
            assert(names.deep_view() =~= order::views(by_name@).map_values(
                |c: (Seq<char>, Seq<char>)| c.1,
            ));
        }
        self.contacts_by_name = names;
        self.contacts = by_name;
        self.contacts_by_phone = index_contacts(&contacts);
        name_conversations(&mut self.conversations, &self.contacts_by_phone);
        proof {
            assert(self@ =~= after_contacts(s, list));
        }
    }

    fn send_message(&mut self, now: i64) -> (r: Vec<SmsTask>)
        requires
            old(self).wf(),
        ensures
            final(self).wf(),
            final(self)@ == after(old(self)@, SmsMessage::SendMessage, now),
            order::views(r@) == asks(old(self)@, SmsMessage::SendMessage, now),
    {
        let ghost s = self@;
        if trim(&self.message_input).as_str().is_empty() && self.pending_attachments.len() == 0 {
            return no_task();
        }
        let found = match &self.selected_thread {
            Some(t) => find_thread(&self.conversations, t),
            None => None,
        };
        let at = match found {
            Some(i) => i,
            None => {
                return no_task();
            },
        };
        let ghost c = s.conversations[at as int];
        proof {
            assert(recipient(s) == Some(c));
            assert(c == self.conversations@[at as int]@);
        }
        let phone = self.conversations[at].phone_number.clone();
        let thread_id = self.conversations[at].thread_id.clone();
        let text = self.message_input.clone();
        let attachments = copy_texts(&self.pending_attachments);
        let mut shown: Vec<MessageAttachment> = Vec::new();
        let mut i: usize = 0;
        while i < attachments.len()
            invariant
                i <= attachments@.len(),
                shown@.len() == i,
                forall|k: int| 0 <= k < i ==> (#[trigger] shown@[k])@ == outgoing(attachments@[k]@),
            decreases attachments@.len() - i,
        {
            shown.push(
                MessageAttachment {
                    part_id: 0,
                    unique_identifier: None,
                    mime_type: guess_mime_type(&attachments[i]),
                    thumbnail: None,
                    full_path: Some(attachments[i].clone()),
                },
            );
            i = i + 1;
        }
        let m = Message {
            id: join2("sending_", &decimal_text(now)),
            thread_id,
            body: text.clone(),
            address: phone.clone(),
            date: now,
            attachments: shown,
            type_: 2,
            read: true,
        };
        proof {
            assert(order::views(shown@) =~= s.pending_attachments.map_values(
                |p: Seq<char>| outgoing(p),
            ));
            assert(m@ == sending(s, c, now));
        }
        let ghost before = self.messages@;
        self.messages.push(m);
        proof {
            assert(order::views(self.messages@) =~= s.messages.push(sending(s, c, now)));
        }
        sort(&mut self.messages);
        self.message_input = String::new();
        self.pending_attachments = Vec::new();
        self.conversations[at].last_message = text.clone();
        self.conversations[at].timestamp = now;
        proof {
            assert(order::views(self.conversations@) =~= s.conversations.update(
                at as int,
                ConversationModel { last_message: s.message_input, timestamp: now, ..c },
            ));
        }
        sort(&mut self.conversations);
        proof {
            assert(self@.pending_attachments =~= Seq::empty());
            assert(self@ =~= after_send(s, c, now));
        }
        two_tasks(SmsTask::ScrollToTop, SmsTask::SendSms { phone, text, attachments })
    }

    fn select_thread(&mut self, thread_id: String) -> (r: Vec<SmsTask>)
        requires
            old(self).wf(),
        ensures
            final(self).wf(),
            final(self)@ == after_select(old(self)@, thread_id@),
            order::views(r@) == seq![
                TaskModel::RequestMessages(thread_number(thread_id@)),
                TaskModel::SaveLastSeen,
            ],
    {
        let ghost s = self@;
        let number = match parse_number(&thread_id) {
            Some(n) => n,
            None => 0,
        };
        if let Some(i) = find_thread(&self.conversations, &thread_id) {
            let seen = self.conversations[i].timestamp;
            self.last_seen_timestamp.insert(thread_id.clone(), seen);
        }
        self.selected_thread = Some(thread_id);
        self.messages = Vec::new();
        self.messages_window_size = INITIAL_MESSAGES_WINDOW;
        proof {
            assert(self@.messages =~= Seq::empty());
            assert(self@ =~= after_select(s, thread_id@));
        }
        two_tasks(SmsTask::RequestMessages(number), SmsTask::SaveLastSeen)
    }

    fn create_chat(&mut self, now: i64) -> (r: Vec<SmsTask>)
        requires
            old(self).wf(),
        ensures
            final(self).wf(),
            final(self)@ == after(old(self)@, SmsMessage::CreateNewChat, now),
            order::views(r@) == asks(old(self)@, SmsMessage::CreateNewChat, now),
    {
        let ghost s = self@;
        let phone = trim(&self.new_chat_phone_input);
        if phone.as_str().is_empty() {
            return no_task();
        }
        let ghost p = phone@;
        let thread_id = join2("new_", &decimal_text(now));
        let mut addresses: Vec<String> = Vec::new();
        addresses.push(phone.clone());
        let chat = Conversation {
            thread_id: thread_id.clone(),
            contact_name: String::new(),
            phone_number: phone,
            addresses,
            last_message: String::new(),
            timestamp: now,
            unread: false,
        };
        proof {
            assert(addresses.deep_view() =~= seq![p]);
            assert(chat@ =~= new_chat(p, now));
        }
        self.conversations.insert(0, chat);
        proof {
            assert(self@.conversations =~= seq![new_chat(p, now)] + s.conversations);
        }
        sort(&mut self.conversations);
        self.show_new_chat_dialog = false;
        self.new_chat_phone_input = String::new();
        proof {
            assert(self@ =~= after(s, SmsMessage::CreateNewChat, now));
        }
        one_task(SmsTask::SelectThread(thread_id))
    }

    fn confirm_delete(&mut self) -> (r: Vec<SmsTask>)
        requires
            old(self).wf(),
        ensures
            final(self).wf(),
            final(self)@ == after(old(self)@, SmsMessage::ConfirmDeleteConversation, 0),
            order::views(r@) == asks(old(self)@, SmsMessage::ConfirmDeleteConversation, 0),
    {
        let ghost s = self@;
        let thread_id = match &self.pending_delete_thread {
            Some(t) => t.clone(),
            None => {
                return no_task();
            },
        };
        let ghost t = thread_id@;
        self.pending_delete_thread = None;
        let ghost all = s.conversations;
        let ghost keep = |c: ConversationModel| c.thread_id != t;
        let n: usize = self.conversations.len();
        let mut k: usize = 0;
        let mut done: usize = 0;
        proof {
            assert(all.take(0) =~= Seq::empty());
        }
        while done < n
            invariant
                k <= done <= n,
                n == all.len(),
                t == thread_id@,
                keep == (|c: ConversationModel| c.thread_id != t),
                self.wf(),
                self@ == (SmsState {
                    conversations: self@.conversations,
                    pending_delete_thread: None,
                    ..s
                }),
                self.conversations@.len() == k + (n - done),
                order::views(self.conversations@.take(k as int)) == all.take(done as int).filter(
                    keep,
                ),
                forall|j: int|
                    k <= j < self.conversations@.len() ==> (#[trigger] self.conversations@[j])@
                        == all[j - k + done],
            decreases n - done,
        {
            let ghost was = self.conversations@;
            proof {
                assert(was[k as int]@ == all[k - k + done]);
                assert(all.take(done + 1) =~= all.take(done as int).push(all[done as int]));
                all.take(done as int).lemma_filter_push(all[done as int], keep);
            }
            if same(&self.conversations[k].thread_id, &thread_id) {
                self.conversations.remove(k);
                proof {
                    assert(self.conversations@.take(k as int) =~= was.take(k as int));
                    assert forall|j: int| k <= j < self.conversations@.len() implies (
                    #[trigger] self.conversations@[j])@ == all[j - k + (done + 1)] by {
                        assert(self.conversations@[j] == was[j + 1]);
                    }
                }
            } else {
                proof {
                    assert(was.take(k + 1) =~= was.take(k as int).push(was[k as int]));
                    assert(order::views(was.take(k + 1)) =~= order::views(
                        was.take(k as int),
                    ).push(was[k as int]@));
                }
                k = k + 1;
            }
            done = done + 1;
        }
        proof {
            assert(all.take(n as int) =~= all);
            assert(self.conversations@.take(k as int) =~= self.conversations@);
        }
        let open = self.is_selected(&thread_id);
        self.hidden_conversations.insert(thread_id);
        if open {
            self.selected_thread = None;
            self.messages = Vec::new();
            proof {
                assert(self@.messages =~= Seq::empty());
            }
        }
        proof {
            assert(self@ =~= after_delete(s, t));
        }
        one_task(SmsTask::SaveHidden)
    }

    /// Takes in what the window is told at the time `now`, and says what the
    /// window asks for.
    pub fn update(&mut self, message: SmsMessage, now: i64) -> (r: Vec<SmsTask>)
        requires
            old(self).wf(),
            message matches SmsMessage::SelectContactForNewChat(idx) ==> idx
                < old(self).contacts@.len(),
        ensures
            final(self).wf(),
            final(self)@ == after(old(self)@, message, now),
            order::views(r@) == asks(old(self)@, message, now),
            order::in_order::<Conversation>(old(self)@.conversations) ==> order::in_order::<
                Conversation,
            >(final(self)@.conversations),
    {
        let ghost s = self@;
        proof {
            if order::in_order::<Conversation>(s.conversations) {
                lemma_conversations_stay_sorted(s, message, now);
            }
        }
        match message {
            SmsMessage::LoadConversations => one_task(SmsTask::FetchConversations),
            SmsMessage::ConversationsLoaded(conversations) => {
                self.conversations = conversations;
                drop_hidden(&mut self.conversations, &self.hidden_conversations);
                name_conversations(&mut self.conversations, &self.contacts_by_phone);
                sort(&mut self.conversations);
                no_task()
            },
            SmsMessage::ContactsLoaded(contacts) => {
                self.load_contacts(contacts);
                no_task()
            },
            SmsMessage::ContactPhotosLoaded(photos) => one_task(SmsTask::BakeAvatars(photos)),
            SmsMessage::AvatarsBaked(baked) => {
                let mut i: usize = 0;
                proof {
                    assert(baked@.take(0) =~= Seq::empty());
                }
                while i < baked.len()
                    invariant
                        i <= baked@.len(),
                        self.wf(),
                        self@ == (SmsState {
                            photos: with_handles(s.photos, baked@.take(i as int)),
                            ..s
                        }),
                    decreases baked@.len() - i,
                {
                    proof {
                        assert(baked@.take(i + 1).drop_last() =~= baked@.take(i as int));
                        assert(baked@.take(i + 1).last() == baked@[i as int]);
                    }
                    self.contact_photo_handles.insert(baked[i].0.clone(), baked[i].1);
                    i = i + 1;
                }
                proof {
                    assert(baked@.take(i as int) =~= baked@);
                }
                no_task()
            },
            SmsMessage::RequestFullAttachment { part_id, unique_identifier } => one_task(
                SmsTask::RequestAttachment { part_id, unique_identifier },
            ),
            SmsMessage::AttachmentReceived(id, path) => {
                self.attach_file(&id, &path);
                no_task()
            },
            SmsMessage::OpenAttachment(path) => one_task(SmsTask::OpenFile(path)),
            SmsMessage::SaveAttachment(path) => {
                let suggested_name = match file_name_of(&path) {
                    Some(n) => n,
                    None => "attachment".to_owned(),
                };
                one_task(SmsTask::SaveFile { path, suggested_name })
            },
            SmsMessage::PickAttachment => one_task(SmsTask::PickFiles),
            SmsMessage::AttachmentsPicked(paths) => {
                let ghost picked = paths.deep_view();
                let mut more = paths;
                let ghost had = self.pending_attachments@;
                self.pending_attachments.append(&mut more);
                proof {
                    assert(self@.pending_attachments =~= s.pending_attachments + picked);
                }
                no_task()
            },
            SmsMessage::RemovePendingAttachment(index) => {
                if index < self.pending_attachments.len() {
                    self.pending_attachments.remove(index);
                    proof {
                        assert(self@.pending_attachments =~= s.pending_attachments.remove(
                            index as int,
                        ));
                    }
                }
                no_task()
            },
            SmsMessage::SelectThread(thread_id) => self.select_thread(thread_id),
            SmsMessage::LoadMoreMessages => {
                self.messages_window_size = self.messages_window_size.saturating_add(
                    INITIAL_MESSAGES_WINDOW,
                );
                no_task()
            },
            SmsMessage::UpdateInput(input) => {
                self.message_input = input;
                no_task()
            },
            SmsMessage::UpdateSearch(query) => {
                self.search_query_lower = to_lowercase(&query);
                self.search_query = query;
                no_task()
            },
            SmsMessage::SendMessage => self.send_message(now),
            SmsMessage::RefreshThread => no_task(),
            SmsMessage::ProtocolEventReceived(event) => self.handle_protocol_event(event),
            SmsMessage::OpenNewChatDialog => {
                self.show_new_chat_dialog = true;
                no_task()
            },
            SmsMessage::CloseNewChatDialog => {
                self.show_new_chat_dialog = false;
                self.new_chat_phone_input = String::new();
                no_task()
            },
            SmsMessage::UpdateNewChatPhone(phone) => {
                self.new_chat_phone_input = phone;
                no_task()
            },
            SmsMessage::SelectContactForNewChat(idx) => {
                self.new_chat_phone_input = self.contacts[idx].0.clone();
                self.contact_idx = Some(idx);
                no_task()
            },
            SmsMessage::CreateNewChat => self.create_chat(now),
            SmsMessage::CloseWindow => one_task(SmsTask::Exit),
            SmsMessage::ToggleEmojiPicker => {
                self.show_emoji_picker = !self.show_emoji_picker;
                no_task()
            },
            SmsMessage::SelectEmojiCategory(category) => {
                self.emoji_category = category;
                no_task()
            },
            SmsMessage::InsertEmoji(emoji) => {
                self.message_input.append(&emoji);
                no_task()
            },
            SmsMessage::RequestDeleteConversation(thread_id) => {
                self.pending_delete_thread = Some(thread_id);
                no_task()
            },
            SmsMessage::CancelDeleteConversation => {
                self.pending_delete_thread = None;
                no_task()
            },
            SmsMessage::ConfirmDeleteConversation => self.confirm_delete(),
        }
    }
}

proof fn lemma_found<A>(s: Seq<A>, p: spec_fn(A) -> bool, i: int)
    requires
        0 <= i < s.len(),
        p(s[i]),
    ensures
        0 <= order::first_where(s, p) <= i,
        p(s[order::first_where(s, p)]),
    decreases s.len(),
{
    if !p(s[0]) {
        assert(s.skip(1)[i - 1] == s[i]);
        lemma_found(s.skip(1), p, i - 1);
    }
}

proof fn lemma_first_bounds<A>(s: Seq<A>, p: spec_fn(A) -> bool)
    ensures
        0 <= order::first_where(s, p) <= s.len(),
        order::first_where(s, p) < s.len() ==> p(s[order::first_where(s, p)]),
    decreases s.len(),
{
    if s.len() > 0 && !p(s[0]) {
        lemma_first_bounds(s.skip(1), p);
    }
}

/// A message that is there already changes nothing.
pub proof fn lemma_known_message_changes_nothing(
    messages: Seq<MessageModel>,
    m: MessageModel,
    i: int,
)
    requires
        0 <= i < messages.len(),
        messages[i].id == m.id,
    ensures
        with_message(messages, m) == messages,
{
    lemma_found(messages, |x: MessageModel| x.id == m.id, i);
}

/// A message that comes in is there afterwards, and coming in again changes
/// nothing.
pub proof fn lemma_message_comes_once(messages: Seq<MessageModel>, m: MessageModel)
    ensures
        exists|i: int|
            0 <= i < with_message(messages, m).len() && (#[trigger] with_message(
                messages,
                m,
            )[i]).id == m.id,
        with_message(with_message(messages, m), m) == with_message(messages, m),
{
    let p = |x: MessageModel| x.id == m.id;
    let q = |x: MessageModel| echoes(x, m);
    let now = with_message(messages, m);
    lemma_first_bounds(messages, p);
    lemma_first_bounds(messages, q);
    let i = if order::first_where(messages, p) < messages.len() {
        order::first_where(messages, p)
    } else if order::first_where(messages, q) < messages.len() {
        order::first_where(messages, q)
    } else {
        messages.len() as int
    };
    assert(now[i].id == m.id);
    lemma_known_message_changes_nothing(now, m, i);
}

/// Only a message that was sent from here takes the place of one that is being
/// sent: a new message that was received always comes last.
pub proof fn lemma_received_messages_are_added(messages: Seq<MessageModel>, m: MessageModel)
    requires
        m.type_ != 2,
        forall|i: int| 0 <= i < messages.len() ==> (#[trigger] messages[i]).id != m.id,
    ensures
        with_message(messages, m) == messages.push(m),
{
    order::lemma_first_where(messages, |x: MessageModel| x.id == m.id, messages.len() as int);
    order::lemma_first_where(messages, |x: MessageModel| echoes(x, m), messages.len() as int);
}

/// Nothing that is dated outside the window around a message that is being sent
/// takes its place.
pub proof fn lemma_late_echoes_are_added(messages: Seq<MessageModel>, m: MessageModel)
    requires
        forall|i: int|
            0 <= i < messages.len() ==> (#[trigger] messages[i]).id != m.id && apart(
                messages[i].date,
                m.date,
            ) >= ECHO_WINDOW,
    ensures
        with_message(messages, m) == messages.push(m),
{
    order::lemma_first_where(messages, |x: MessageModel| x.id == m.id, messages.len() as int);
    order::lemma_first_where(messages, |x: MessageModel| echoes(x, m), messages.len() as int);
}

/// The echo of a message that is being sent takes its place: nothing is shown
/// twice, and what is shown keeps its text and attachments.
pub proof fn lemma_echo_takes_the_place(messages: Seq<MessageModel>, m: MessageModel, i: int)
    requires
        0 <= i < messages.len(),
        echoes(messages[i], m),
        forall|j: int| 0 <= j < messages.len() ==> (#[trigger] messages[j]).id != m.id,
    ensures
        with_message(messages, m).len() == messages.len(),
        ({
            let at = order::first_where(messages, |x: MessageModel| echoes(x, m));
            let now = with_message(messages, m);
            &&& 0 <= at <= i
            &&& now[at].id == m.id
            &&& now[at].date == m.date
            &&& now[at].body == messages[at].body
            &&& now[at].attachments == messages[at].attachments
            &&& forall|j: int| 0 <= j < messages.len() && j != at ==> now[j] == messages[j]
        }),
{
    order::lemma_first_where(messages, |x: MessageModel| x.id == m.id, messages.len() as int);
    lemma_found(messages, |x: MessageModel| echoes(x, m), i);
}

/// The messages of a hidden conversation change nothing.
pub proof fn lemma_hidden_messages_change_nothing(s: SmsState, m: MessageModel)
    requires
        s.hidden.contains(m.thread_id),
    ensures
        taken_in(s, m) == s,
{
}

proof fn lemma_filter_holds<A>(s: Seq<A>, p: spec_fn(A) -> bool, i: int)
    requires
        0 <= i < s.filter(p).len(),
    ensures
        p(s.filter(p)[i]),
{
    broadcast use vstd::seq_lib::group_filter_ensures;

}

/// No conversation of the list is hidden.
pub open spec fn none_hidden(hidden: Set<Seq<char>>, list: Seq<ConversationModel>) -> bool {
    forall|i: int| 0 <= i < list.len() ==> !hidden.contains((#[trigger] list[i]).thread_id)
}

proof fn lemma_sorted_none_hidden(hidden: Set<Seq<char>>, list: Seq<ConversationModel>)
    requires
        none_hidden(hidden, list),
    ensures
        none_hidden(hidden, order::sorted::<Conversation>(list)),
{
    assert(order::ranks::<Conversation>());
    let r = order::sorted::<Conversation>(list);
    assert forall|i: int| 0 <= i < r.len() implies !hidden.contains((#[trigger] r[i]).thread_id) by {
        order::lemma_sorted_contains::<Conversation>(list, i);
        let k = choose|k: int| 0 <= k < list.len() && list[k] == r[i];
        assert(list[k] == r[i]);
    }
}

proof fn lemma_filtered_none_hidden(
    hidden: Set<Seq<char>>,
    list: Seq<ConversationModel>,
    p: spec_fn(ConversationModel) -> bool,
)
    requires
        forall|c: ConversationModel| #[trigger] p(c) ==> !hidden.contains(c.thread_id),
    ensures
        none_hidden(hidden, list.filter(p)),
{
    assert forall|i: int| 0 <= i < list.filter(p).len() implies !hidden.contains(
        (#[trigger] list.filter(p)[i]).thread_id,
    ) by {
        lemma_filter_holds(list, p, i);
    }
}

proof fn lemma_taken_in_threads(s: SmsState, messages: Seq<MessageModel>)
    ensures
        all_taken_in(s, messages).hidden == s.hidden,
        all_taken_in(s, messages).conversations.len() == s.conversations.len(),
        forall|i: int|
            0 <= i < s.conversations.len() ==> (#[trigger] all_taken_in(
                s,
                messages,
            ).conversations[i]).thread_id == s.conversations[i].thread_id,
    decreases messages.len(),
{
    if messages.len() > 0 {
        let before = all_taken_in(s, messages.drop_last());
        let m = messages.last();
        lemma_taken_in_threads(s, messages.drop_last());
        lemma_first_bounds(before.conversations, |c: ConversationModel| c.thread_id == m.thread_id);
        assert forall|i: int| 0 <= i < s.conversations.len() implies (#[trigger] all_taken_in(
            s,
            messages,
        ).conversations[i]).thread_id == s.conversations[i].thread_id by {
            assert(before.conversations[i].thread_id == s.conversations[i].thread_id);
        }
    }
}

/// A conversation that was hidden stays hidden, whatever the window is told and
/// whatever the phone sends: none comes back into the list, and nothing is taken
/// from those that are hidden. A chat that is begun must not be given the
/// identifier of one that was hidden.
pub proof fn lemma_hidden_conversations_stay_hidden(s: SmsState, message: SmsMessage, now: i64)
    requires
        none_hidden(s.hidden, s.conversations),
        message is CreateNewChat && text::trimmed(s.new_chat_phone_input).len() > 0
            ==> !s.hidden.contains("new_"@ + text::decimal(now as int)),
    ensures
        none_hidden(after(s, message, now).hidden, after(s, message, now).conversations),
        s.hidden.subset_of(after(s, message, now).hidden),
{
    match message {
        SmsMessage::ConversationsLoaded(list) => {
            let p = |c: ConversationModel| !s.hidden.contains(c.thread_id);
            let kept = unhidden(s.hidden, order::views(list@));
            lemma_filtered_none_hidden(s.hidden, order::views(list@), p);
            lemma_named_none_hidden(s.hidden, s.contacts_by_phone, kept);
            lemma_sorted_none_hidden(s.hidden, all_named(s.contacts_by_phone, kept));
        },
        SmsMessage::ContactsLoaded(contacts) => {
            lemma_named_none_hidden(
                s.hidden,
                contacts::by_digits(order::views(contacts.list())),
                s.conversations,
            );
        },
        SmsMessage::SendMessage => match recipient(s) {
            Some(c) => {
                let at = thread_at(s.conversations, c.thread_id);
                let t = s.selected_thread->0;
                lemma_first_bounds(s.conversations, |x: ConversationModel| x.thread_id == t);
                lemma_first_bounds(
                    s.conversations,
                    |x: ConversationModel| x.thread_id == c.thread_id,
                );
                assert(!s.hidden.contains(s.conversations[thread_at(s.conversations, t)].thread_id));
                lemma_sorted_none_hidden(
                    s.hidden,
                    s.conversations.update(
                        at,
                        ConversationModel { last_message: s.message_input, timestamp: now, ..c },
                    ),
                );
            },
            None => {},
        },
        SmsMessage::ProtocolEventReceived(event) => match event {
            ProtocolEvent::MessageReceived(m) => {
                lemma_messages_none_hidden(s, seq![m@]);
            },
            ProtocolEvent::MessagesReceived(list) => {
                lemma_messages_none_hidden(s, order::views(list@));
            },
            ProtocolEvent::ConversationsReceived(list) => {
                lemma_received_conversations(s, order::views(list@));
            },
            ProtocolEvent::Error(_) => {},
        },
        SmsMessage::CreateNewChat => {
            let phone = text::trimmed(s.new_chat_phone_input);
            if phone.len() > 0 {
                lemma_sorted_none_hidden(s.hidden, seq![new_chat(phone, now)] + s.conversations);
            }
        },
        SmsMessage::ConfirmDeleteConversation => match s.pending_delete_thread {
            Some(t) => {
                let p = |c: ConversationModel| c.thread_id != t;
                let kept = s.conversations.filter(p);
                assert forall|i: int| 0 <= i < kept.len() implies !s.hidden.insert(t).contains(
                    (#[trigger] kept[i]).thread_id,
                ) by {
                    lemma_filter_holds(s.conversations, p, i);
                    s.conversations.lemma_filter_contains_rev(p, kept[i]);
                    let k = choose|k: int|
                        0 <= k < s.conversations.len() && s.conversations[k] == kept[i];
                    assert(!s.hidden.contains(s.conversations[k].thread_id));
                }
            },
            None => {},
        },
        _ => {},
    }
}

/// Conversations that come in leave the list newest first and without any that
/// is hidden, however it stood before.
pub proof fn lemma_received_conversations(s: SmsState, incoming: Seq<ConversationModel>)
    ensures
        order::in_order::<Conversation>(after_conversations(s, incoming).conversations),
        none_hidden(s.hidden, after_conversations(s, incoming).conversations),
{
    assert(order::ranks::<Conversation>());
    let p = |c: ConversationModel| stays(s, incoming, c);
    let kept = with_conversations(s.conversations, incoming).filter(p);
    lemma_filtered_none_hidden(s.hidden, with_conversations(s.conversations, incoming), p);
    lemma_named_none_hidden(s.hidden, s.contacts_by_phone, kept);
    lemma_sorted_none_hidden(s.hidden, all_named(s.contacts_by_phone, kept));
    order::lemma_sorted::<Conversation>(all_named(s.contacts_by_phone, kept));
}

proof fn lemma_named_none_hidden(
    hidden: Set<Seq<char>>,
    by_phone: Map<Seq<char>, Seq<char>>,
    list: Seq<ConversationModel>,
)
    requires
        none_hidden(hidden, list),
    ensures
        none_hidden(hidden, all_named(by_phone, list)),
{
    let r = all_named(by_phone, list);
    assert forall|i: int| 0 <= i < r.len() implies !hidden.contains((#[trigger] r[i]).thread_id) by {
        assert(!hidden.contains(list[i].thread_id));
    }
}

proof fn lemma_messages_none_hidden(s: SmsState, messages: Seq<MessageModel>)
    requires
        none_hidden(s.hidden, s.conversations),
    ensures
        none_hidden(s.hidden, after_messages(s, messages).conversations),
        after_messages(s, messages).hidden == s.hidden,
{
    lemma_taken_in_threads(s, messages);
    let now = all_taken_in(s, messages).conversations;
    assert forall|i: int| 0 <= i < now.len() implies !s.hidden.contains(
        (#[trigger] now[i]).thread_id,
    ) by {
        assert(!s.hidden.contains(s.conversations[i].thread_id));
    }
    lemma_sorted_none_hidden(s.hidden, now);
}

/// Hiding a conversation removes it from the list, and closes it.
pub proof fn lemma_hiding_removes(s: SmsState, thread_id: Seq<char>, i: int)
    requires
        0 <= i < after_delete(s, thread_id).conversations.len(),
    ensures
        after_delete(s, thread_id).conversations[i].thread_id != thread_id,
        after_delete(s, thread_id).selected_thread != Some(thread_id),
        after_delete(s, thread_id).hidden.contains(thread_id),
{
    lemma_filter_holds(
        s.conversations,
        |c: ConversationModel| c.thread_id != thread_id,
        i,
    );
}

/// Whether a conversation is marked as unread: once a thread was seen, only a
/// later message counts; before, the phone decides.
pub open spec fn is_unread(last_seen: Map<Seq<char>, i64>, c: ConversationModel) -> bool {
    if last_seen.contains_key(c.thread_id) {
        c.timestamp > last_seen[c.thread_id]
    } else {
        c.unread
    }
}

/// Opening a thread marks its conversation as read.
pub proof fn lemma_opened_threads_are_read(s: SmsState, thread_id: Seq<char>)
    requires
        has_thread(s.conversations, thread_id),
    ensures
        ({
            let now = after_select(s, thread_id);
            let c = now.conversations[thread_at(now.conversations, thread_id)];
            c.thread_id == thread_id && !is_unread(now.last_seen, c)
        }),
{
    lemma_first_bounds(s.conversations, |c: ConversationModel| c.thread_id == thread_id);
}

/// What was seen of a thread never goes back.
pub proof fn lemma_seen_moves_forward(last_seen: Map<Seq<char>, i64>, m: MessageModel)
    ensures
        seen_until(last_seen, m).contains_key(m.thread_id),
        seen_until(last_seen, m)[m.thread_id] >= m.date,
        last_seen.contains_key(m.thread_id) ==> seen_until(last_seen, m)[m.thread_id]
            >= last_seen[m.thread_id],
        forall|t: Seq<char>|
            #![trigger last_seen.contains_key(t)]
            t != m.thread_id && last_seen.contains_key(t) ==> seen_until(
                last_seen,
                m,
            ).contains_key(t) && seen_until(last_seen, m)[t] == last_seen[t],
{
}

/// The conversations stand newest first, whatever the window is told.
pub proof fn lemma_conversations_stay_sorted(s: SmsState, message: SmsMessage, now: i64)
    requires
        order::in_order::<Conversation>(s.conversations),
    ensures
        order::in_order::<Conversation>(after(s, message, now).conversations),
{
    assert(order::ranks::<Conversation>());
    match message {
        SmsMessage::ConversationsLoaded(list) => {
            order::lemma_sorted::<Conversation>(
                all_named(s.contacts_by_phone, unhidden(s.hidden, order::views(list@))),
            );
        },
        SmsMessage::ContactsLoaded(contacts) => {
            let r = all_named(
                contacts::by_digits(order::views(contacts.list())),
                s.conversations,
            );
            assert forall|i: int, j: int|
                #![trigger r[i], r[j]]
                0 <= i < j < r.len() implies r[i].timestamp >= r[j].timestamp by {
                assert(s.conversations[i].timestamp >= s.conversations[j].timestamp);
            }
        },
        SmsMessage::SendMessage => match recipient(s) {
            Some(c) => {
                order::lemma_sorted::<Conversation>(
                    s.conversations.update(
                        thread_at(s.conversations, c.thread_id),
                        ConversationModel { last_message: s.message_input, timestamp: now, ..c },
                    ),
                );
            },
            None => {},
        },
        SmsMessage::ProtocolEventReceived(event) => match event {
            ProtocolEvent::MessageReceived(m) => {
                order::lemma_sorted::<Conversation>(all_taken_in(s, seq![m@]).conversations);
            },
            ProtocolEvent::MessagesReceived(list) => {
                order::lemma_sorted::<Conversation>(
                    all_taken_in(s, order::views(list@)).conversations,
                );
            },
            ProtocolEvent::ConversationsReceived(list) => {
                lemma_received_conversations(s, order::views(list@));
            },
            ProtocolEvent::Error(_) => {},
        },
        SmsMessage::CreateNewChat => {
            let phone = text::trimmed(s.new_chat_phone_input);
            order::lemma_sorted::<Conversation>(
                seq![new_chat(phone, now)] + s.conversations,
            );
        },
        SmsMessage::ConfirmDeleteConversation => match s.pending_delete_thread {
            Some(t) => {
                lemma_filter_in_order(s.conversations, |c: ConversationModel| c.thread_id != t);
            },
            None => {},
        },
        _ => {},
    }
}

proof fn lemma_filter_in_order(
    list: Seq<ConversationModel>,
    p: spec_fn(ConversationModel) -> bool,
)
    requires
        order::in_order::<Conversation>(list),
    ensures
        order::in_order::<Conversation>(list.filter(p)),
    decreases list.len(),
{
    if list.len() > 0 {
        let init = list.drop_last();
        assert forall|i: int, j: int|
            #![trigger init[i], init[j]]
            0 <= i < j < init.len() implies init[i].timestamp >= init[j].timestamp by {
            assert(list[i].timestamp >= list[j].timestamp);
        }
        lemma_filter_in_order(init, p);
        assert(init.push(list.last()) =~= list);
        init.lemma_filter_push(list.last(), p);
        let r = list.filter(p);
        assert forall|i: int, j: int|
            #![trigger r[i], r[j]]
            0 <= i < j < r.len() implies r[i].timestamp >= r[j].timestamp by {
            let kept = init.filter(p);
            if j < kept.len() {
                assert(r[i] == kept[i] && r[j] == kept[j]);
            } else {
                assert(r[i] == kept[i]);
                assert(kept.contains(kept[i]));
                init.lemma_filter_contains_rev(p, kept[i]);
                let k = choose|k: int| 0 <= k < init.len() && init[k] == kept[i];
                assert(list[k].timestamp >= list[list.len() - 1].timestamp);
            }
        }
    } else {
        assert(list.filter(p) =~= list) by {
            reveal(Seq::filter);
        }
    }
}

/// Sorting after a batch of messages loses no conversation.
pub proof fn lemma_batches_keep_conversations(s: SmsState, messages: Seq<MessageModel>)
    ensures
        after_messages(s, messages).conversations.to_multiset() == all_taken_in(
            s,
            messages,
        ).conversations.to_multiset(),
{
    assert(order::ranks::<Conversation>());
    order::lemma_sorted::<Conversation>(all_taken_in(s, messages).conversations);
}

/// After a batch of messages, the open thread stands oldest first.
pub proof fn lemma_messages_stay_sorted(s: SmsState, messages: Seq<MessageModel>)
    requires
        s.selected_thread is Some,
    ensures
        order::in_order::<Message>(after_messages(s, messages).messages),
        after_messages(s, messages).messages.to_multiset() == all_taken_in(
            s,
            messages,
        ).messages.to_multiset(),
{
    lemma_selection_stays(s, messages);
    assert(order::ranks::<Message>());
    order::lemma_sorted::<Message>(all_taken_in(s, messages).messages);
}

proof fn lemma_selection_stays(s: SmsState, messages: Seq<MessageModel>)
    ensures
        all_taken_in(s, messages).selected_thread == s.selected_thread,
    decreases messages.len(),
{
    if messages.len() > 0 {
        lemma_selection_stays(s, messages.drop_last());
    }
}

/// What the window for text messages is started with: a device and its name.
pub open spec fn argument(args: Seq<Seq<char>>, i: int, otherwise: Seq<char>) -> Seq<char> {
    if i < args.len() {
        args[i]
    } else {
        otherwise
    }
}

/// The device that the window for text messages is started for, and its name.
pub fn sms_window_arguments(args: &Vec<String>) -> (r: (String, String))
    ensures
        r.0@ == argument(args.deep_view(), 1, "unknown"@),
        r.1@ == argument(args.deep_view(), 2, "Unknown Device"@),
{
    let device_id = if args.len() > 1 {
        args[1].clone()
    } else {
        "unknown".to_owned()
    };
    let device_name = if args.len() > 2 {
        args[2].clone()
    } else {
        "Unknown Device".to_owned()
    };
    (device_id, device_name)
}

/// Every conversation has a thread of its own.
pub open spec fn own_threads(list: Seq<ConversationModel>) -> bool {
    forall|i: int, j: int|
        #![trigger list[i], list[j]]
        0 <= i < j < list.len() ==> list[i].thread_id != list[j].thread_id
}

proof fn lemma_one_taken_in(s: SmsState, m: MessageModel)
    ensures
        all_taken_in(s, seq![m]) == taken_in(s, m),
{
    assert(seq![m].drop_last() =~= Seq::empty());
    assert(all_taken_in(s, Seq::empty()) == s);
}

proof fn lemma_sorting_keeps(list: Seq<ConversationModel>, i: int)
    requires
        0 <= i < list.len(),
    ensures
        order::sorted::<Conversation>(list).contains(list[i]),
{
    broadcast use vstd::seq_lib::group_to_multiset_ensures;

    assert(order::ranks::<Conversation>());
    order::lemma_sorted::<Conversation>(list);
    assert(list.contains(list[i]));
    assert(list.to_multiset().count(list[i]) > 0);
}

proof fn lemma_sorting_keeps_messages(list: Seq<MessageModel>, i: int)
    requires
        0 <= i < list.len(),
    ensures
        order::sorted::<Message>(list).contains(list[i]),
{
    broadcast use vstd::seq_lib::group_to_multiset_ensures;

    assert(order::ranks::<Message>());
    order::lemma_sorted::<Message>(list);
    assert(list.contains(list[i]));
    assert(list.to_multiset().count(list[i]) > 0);
}

/// A message that comes in shows in the conversation of its thread, whether that
/// is open or not: the conversation has its text and its date, and is unread if
/// it was, or if the message was received while the thread was not open. Every
/// other conversation stays as it is, and none comes or goes.
pub proof fn lemma_messages_show_in_their_conversation(s: SmsState, m: Message, now: i64, i: int)
    requires
        0 <= i < s.conversations.len(),
        s.conversations[i].thread_id == m@.thread_id,
        own_threads(s.conversations),
        !s.hidden.contains(m@.thread_id),
    ensures
        ({
            let r = after(
                s,
                SmsMessage::ProtocolEventReceived(ProtocolEvent::MessageReceived(m)),
                now,
            ).conversations;
            let c = s.conversations[i];
            let d = ConversationModel {
                thread_id: c.thread_id,
                contact_name: c.contact_name,
                phone_number: c.phone_number,
                addresses: c.addresses,
                last_message: m@.body,
                timestamp: m@.date,
                unread: c.unread || (s.selected_thread != Some(m@.thread_id) && m@.type_ != 2),
            };
            &&& r.len() == s.conversations.len()
            &&& r.contains(d)
            &&& s.selected_thread != Some(m@.thread_id) && m@.type_ != 2 ==> d.unread
            &&& forall|j: int|
                0 <= j < s.conversations.len() && j != i ==> r.contains(#[trigger] s.conversations[j])
            &&& forall|k: int|
                0 <= k < r.len() ==> if (#[trigger] r[k]).thread_id == m@.thread_id {
                    r[k] == d
                } else {
                    s.conversations.contains(r[k])
                }
        }),
{
    let event = SmsMessage::ProtocolEventReceived(ProtocolEvent::MessageReceived(m));
    let r = after(s, event, now).conversations;
    let p = |c: ConversationModel| c.thread_id == m@.thread_id;
    assert forall|j: int| 0 <= j < i implies !p(#[trigger] s.conversations[j]) by {
        assert(s.conversations[j].thread_id != s.conversations[i].thread_id);
    }
    order::lemma_first_where(s.conversations, p, i);
    lemma_one_taken_in(s, m@);
    let list = taken_in(s, m@).conversations;
    let c = s.conversations[i];
    let d = ConversationModel {
        thread_id: c.thread_id,
        contact_name: c.contact_name,
        phone_number: c.phone_number,
        addresses: c.addresses,
        last_message: m@.body,
        timestamp: m@.date,
        unread: c.unread || (s.selected_thread != Some(m@.thread_id) && m@.type_ != 2),
    };
    assert(list == s.conversations.update(i, d));
    assert(r == order::sorted::<Conversation>(list));
    assert(order::ranks::<Conversation>());
    order::lemma_sorted::<Conversation>(list);
    assert(list[i] == d);
    lemma_sorting_keeps(list, i);
    assert forall|j: int| 0 <= j < s.conversations.len() && j != i implies r.contains(
        #[trigger] s.conversations[j],
    ) by {
        assert(list[j] == s.conversations[j]);
        lemma_sorting_keeps(list, j);
    }
    assert forall|k: int| 0 <= k < r.len() implies if (#[trigger] r[k]).thread_id == m@.thread_id {
        r[k] == d
    } else {
        s.conversations.contains(r[k])
    } by {
        order::lemma_sorted_contains::<Conversation>(list, k);
        let j = choose|j: int| 0 <= j < list.len() && list[j] == r[k];
        if j != i {
            assert(s.conversations[j] == r[k]);
            if j < i {
                assert(s.conversations[j].thread_id != s.conversations[i].thread_id);
            } else {
                assert(s.conversations[i].thread_id != s.conversations[j].thread_id);
            }
        }
    }
}

/// A message of a hidden thread, or of one without a conversation, changes no
/// conversation.
pub proof fn lemma_stray_messages_change_no_conversation(s: SmsState, m: Message, now: i64)
    requires
        s.hidden.contains(m@.thread_id) || forall|i: int|
            0 <= i < s.conversations.len() ==> (#[trigger] s.conversations[i]).thread_id
                != m@.thread_id,
    ensures
        ({
            let r = after(
                s,
                SmsMessage::ProtocolEventReceived(ProtocolEvent::MessageReceived(m)),
                now,
            );
            &&& r.conversations.to_multiset() == s.conversations.to_multiset()
            &&& s.hidden.contains(m@.thread_id) ==> r.last_seen == s.last_seen
                && r.messages.to_multiset() == s.messages.to_multiset()
        }),
{
    lemma_one_taken_in(s, m@);
    assert(order::ranks::<Conversation>());
    assert(order::ranks::<Message>());
    order::lemma_sorted::<Conversation>(s.conversations);
    order::lemma_sorted::<Message>(s.messages);
    if !s.hidden.contains(m@.thread_id) {
        let p = |c: ConversationModel| c.thread_id == m@.thread_id;
        assert forall|j: int| 0 <= j < s.conversations.len() implies !p(
            #[trigger] s.conversations[j],
        ) by {
            assert(s.conversations[j].thread_id != m@.thread_id);
        }
        order::lemma_first_where(s.conversations, p, s.conversations.len() as int);
    }
}

/// Only the open thread shows messages: one of another thread adds none and
/// counts as seen by none. A message of the open thread is shown, and the thread
/// is then seen at least until its date; nothing was seen less than before, and
/// other threads are as they were. Nothing else in the window changes.
pub proof fn lemma_only_open_threads_show_messages(s: SmsState, m: Message, now: i64)
    ensures
        ({
            let r = after(
                s,
                SmsMessage::ProtocolEventReceived(ProtocolEvent::MessageReceived(m)),
                now,
            );
            let t = m@.thread_id;
            &&& s.selected_thread != Some(t) ==> r.last_seen == s.last_seen
                && r.messages.to_multiset() == s.messages.to_multiset()
            &&& s.selected_thread == Some(t) && !s.hidden.contains(t) ==> {
                &&& exists|k: int|
                    0 <= k < r.messages.len() && (#[trigger] r.messages[k]).id == m@.id
                &&& r.last_seen.contains_key(t)
                &&& r.last_seen[t] >= m@.date
                &&& s.last_seen.contains_key(t) ==> r.last_seen[t] >= s.last_seen[t] && (
                r.last_seen[t] == s.last_seen[t] || r.last_seen[t] == m@.date)
                &&& forall|u: Seq<char>|
                    u != t ==> (#[trigger] r.last_seen.contains_key(u) <==> s.last_seen.contains_key(
                        u,
                    )) && (s.last_seen.contains_key(u) ==> r.last_seen[u] == s.last_seen[u])
            }
            &&& r.selected_thread == s.selected_thread
            &&& r.hidden == s.hidden
            &&& r.contacts == s.contacts
            &&& r.contacts_by_phone == s.contacts_by_phone
            &&& r.message_input == s.message_input
            &&& r.pending_attachments == s.pending_attachments
            &&& r.search_query == s.search_query
            &&& r.messages_window_size == s.messages_window_size
            &&& r.pending_delete_thread == s.pending_delete_thread
            &&& r.photos == s.photos
        }),
{
    lemma_one_taken_in(s, m@);
    assert(order::ranks::<Message>());
    order::lemma_sorted::<Message>(s.messages);
    let t = taken_in(s, m@);
    order::lemma_sorted::<Message>(t.messages);
    if s.selected_thread == Some(m@.thread_id) && !s.hidden.contains(m@.thread_id) {
        lemma_message_comes_once(s.messages, m@);
        let k = choose|k: int| 0 <= k < t.messages.len() && (#[trigger] t.messages[k]).id == m@.id;
        lemma_sorting_keeps_messages(t.messages, k);
        let r = after(
            s,
            SmsMessage::ProtocolEventReceived(ProtocolEvent::MessageReceived(m)),
            now,
        );
        let j = choose|j: int| 0 <= j < r.messages.len() && r.messages[j] == t.messages[k];
        assert(r.messages[j].id == m@.id);
    }
}

proof fn lemma_taken_in_step(s: SmsState, m: MessageModel, i: int)
    requires
        0 <= i < s.conversations.len(),
        own_threads(s.conversations),
        !s.hidden.contains(s.conversations[i].thread_id),
    ensures
        taken_in(s, m).conversations.len() == s.conversations.len(),
        own_threads(taken_in(s, m).conversations),
        taken_in(s, m).hidden == s.hidden,
        taken_in(s, m).selected_thread == s.selected_thread,
        m.thread_id != s.conversations[i].thread_id ==> taken_in(s, m).conversations[i]
            == s.conversations[i],
        m.thread_id == s.conversations[i].thread_id ==> taken_in(s, m).conversations[i] == (
        ConversationModel {
            last_message: m.body,
            timestamp: m.date,
            unread: s.conversations[i].unread || (s.selected_thread != Some(m.thread_id) && m.type_
                != 2),
            ..s.conversations[i]
        }),
{
    let p = |x: ConversationModel| x.thread_id == m.thread_id;
    lemma_first_bounds(s.conversations, p);
    if m.thread_id == s.conversations[i].thread_id {
        assert forall|j: int| 0 <= j < i implies !p(#[trigger] s.conversations[j]) by {
            assert(s.conversations[j].thread_id != s.conversations[i].thread_id);
        }
        order::lemma_first_where(s.conversations, p, i);
    }
    let list = taken_in(s, m).conversations;
    assert forall|a: int, b: int|
        #![trigger list[a], list[b]]
        0 <= a < b < list.len() implies list[a].thread_id != list[b].thread_id by {
        assert(s.conversations[a].thread_id != s.conversations[b].thread_id);
    }
}

/// Whether the message at `k` is the last one of its thread.
pub open spec fn last_of_thread(messages: Seq<MessageModel>, k: int) -> bool {
    forall|j: int|
        k < j < messages.len() ==> (#[trigger] messages[j]).thread_id != messages[k].thread_id
}

/// Whether any of the messages was received in the thread.
pub open spec fn received_in(messages: Seq<MessageModel>, thread_id: Seq<char>) -> bool {
    exists|k: int|
        0 <= k < messages.len() && (#[trigger] messages[k]).thread_id == thread_id
            && messages[k].type_ != 2
}

/// Whether any of the messages is of the thread.
pub open spec fn speaks_of(messages: Seq<MessageModel>, thread_id: Seq<char>) -> bool {
    exists|k: int| 0 <= k < messages.len() && (#[trigger] messages[k]).thread_id == thread_id
}

proof fn lemma_one_more_message(messages: Seq<MessageModel>, m: MessageModel, thread_id: Seq<char>)
    ensures
        received_in(messages.push(m), thread_id) <==> received_in(messages, thread_id) || (
        m.thread_id == thread_id && m.type_ != 2),
        speaks_of(messages.push(m), thread_id) <==> speaks_of(messages, thread_id) || m.thread_id
            == thread_id,
{
    let more = messages.push(m);
    assert(more[messages.len() as int] == m);
    if received_in(messages, thread_id) {
        let k = choose|k: int|
            0 <= k < messages.len() && (#[trigger] messages[k]).thread_id == thread_id
                && messages[k].type_ != 2;
        assert(more[k].thread_id == thread_id && more[k].type_ != 2);
    }
    if received_in(more, thread_id) {
        let k = choose|k: int|
            0 <= k < more.len() && (#[trigger] more[k]).thread_id == thread_id && more[k].type_
                != 2;
        if k < messages.len() {
            assert(messages[k].thread_id == thread_id && messages[k].type_ != 2);
        }
    }
    if speaks_of(messages, thread_id) {
        let k = choose|k: int|
            0 <= k < messages.len() && (#[trigger] messages[k]).thread_id == thread_id;
        assert(more[k].thread_id == thread_id);
    }
    if speaks_of(more, thread_id) {
        let k = choose|k: int| 0 <= k < more.len() && (#[trigger] more[k]).thread_id == thread_id;
        if k < messages.len() {
            assert(messages[k].thread_id == thread_id);
        }
    }
}

proof fn lemma_taken_in_conversation(s: SmsState, messages: Seq<MessageModel>, i: int)
    requires
        0 <= i < s.conversations.len(),
        own_threads(s.conversations),
        !s.hidden.contains(s.conversations[i].thread_id),
    ensures
        all_taken_in(s, messages).selected_thread == s.selected_thread,
        all_taken_in(s, messages).hidden == s.hidden,
        all_taken_in(s, messages).conversations.len() == s.conversations.len(),
        own_threads(all_taken_in(s, messages).conversations),
        ({
            let c = s.conversations[i];
            let d = all_taken_in(s, messages).conversations[i];
            &&& d.thread_id == c.thread_id
            &&& d.contact_name == c.contact_name
            &&& d.phone_number == c.phone_number
            &&& d.addresses == c.addresses
            &&& !speaks_of(messages, c.thread_id) ==> d == c
            &&& forall|k: int|
                #![trigger messages[k]]
                0 <= k < messages.len() && messages[k].thread_id == c.thread_id && last_of_thread(
                    messages,
                    k,
                ) ==> d.last_message == messages[k].body && d.timestamp == messages[k].date
            &&& d.unread <==> c.unread || (s.selected_thread != Some(c.thread_id) && received_in(
                messages,
                c.thread_id,
            ))
        }),
    decreases messages.len(),
{
    if messages.len() > 0 {
        let less = messages.drop_last();
        let m = messages.last();
        let c = s.conversations[i];
        let before = all_taken_in(s, less);
        lemma_taken_in_conversation(s, less, i);
        lemma_taken_in_step(before, m, i);
        assert(less.push(m) =~= messages);
        lemma_one_more_message(less, m, c.thread_id);
        let d = all_taken_in(s, messages).conversations[i];
        assert forall|k: int|
            #![trigger messages[k]]
            0 <= k < messages.len() && messages[k].thread_id == c.thread_id && last_of_thread(
                messages,
                k,
            ) implies d.last_message == messages[k].body && d.timestamp == messages[k].date by {
            if k < less.len() {
                assert(messages[messages.len() - 1].thread_id != messages[k].thread_id);
                assert(less[k] == messages[k]);
                assert forall|j: int| k < j < less.len() implies (#[trigger] less[j]).thread_id
                    != less[k].thread_id by {
                    assert(messages[j].thread_id != messages[k].thread_id);
                }
                assert(last_of_thread(less, k));
            }
        }
    } else {
        assert(all_taken_in(s, messages) == s);
        assert(!received_in(messages, s.conversations[i].thread_id));
    }
}

/// After a batch of messages a conversation shows the last one of its thread in
/// the batch. It is unread if it was, or if any message of the batch was received
/// in it while it was not open. Without a message of its thread it stays as it
/// is.
pub proof fn lemma_batches_show_in_their_conversations(
    s: SmsState,
    list: Vec<Message>,
    now: i64,
    i: int,
)
    requires
        0 <= i < s.conversations.len(),
        own_threads(s.conversations),
        !s.hidden.contains(s.conversations[i].thread_id),
    ensures
        ({
            let r = after(
                s,
                SmsMessage::ProtocolEventReceived(ProtocolEvent::MessagesReceived(list)),
                now,
            ).conversations;
            let messages = order::views(list@);
            let c = s.conversations[i];
            exists|n: int|
                #![trigger r[n]]
                0 <= n < r.len() && {
                    let d = r[n];
                    &&& d.thread_id == c.thread_id
                    &&& d.contact_name == c.contact_name
                    &&& d.phone_number == c.phone_number
                    &&& d.addresses == c.addresses
                    &&& !speaks_of(messages, c.thread_id) ==> d == c
                    &&& forall|k: int|
                        #![trigger messages[k]]
                        0 <= k < messages.len() && messages[k].thread_id == c.thread_id
                            && last_of_thread(messages, k) ==> d.last_message == messages[k].body
                            && d.timestamp == messages[k].date
                    &&& d.unread <==> c.unread || (s.selected_thread != Some(c.thread_id)
                        && received_in(messages, c.thread_id))
                }
        }),
{
    let messages = order::views(list@);
    let r = after(
        s,
        SmsMessage::ProtocolEventReceived(ProtocolEvent::MessagesReceived(list)),
        now,
    ).conversations;
    lemma_taken_in_conversation(s, messages, i);
    let d = all_taken_in(s, messages).conversations[i];
    lemma_sorting_keeps(all_taken_in(s, messages).conversations, i);
    let n = choose|n: int| 0 <= n < r.len() && r[n] == d;
    assert(r[n] == d);
}

proof fn lemma_taken_in_messages(s: SmsState, messages: Seq<MessageModel>, k: int)
    requires
        0 <= k < messages.len(),
        s.selected_thread == Some(messages[k].thread_id),
        !s.hidden.contains(messages[k].thread_id),
        !text::begins(messages[k].id, "sending_"@),
    ensures
        exists|j: int|
            0 <= j < all_taken_in(s, messages).messages.len() && (#[trigger] all_taken_in(
                s,
                messages,
            ).messages[j]).id == messages[k].id,
    decreases messages.len(),
{
    let less = messages.drop_last();
    let m = messages.last();
    let before = all_taken_in(s, less);
    let r = all_taken_in(s, messages).messages;
    lemma_selection_stays(s, less);
    lemma_taken_in_threads(s, less);
    if k == messages.len() - 1 {
        lemma_message_comes_once(before.messages, m);
        let j = choose|j: int| 0 <= j < r.len() && (#[trigger] r[j]).id == m.id;
        assert(r[j].id == messages[k].id);
    } else {
        assert(less[k] == messages[k]);
        lemma_taken_in_messages(s, less, k);
        let j = choose|j: int|
            0 <= j < before.messages.len() && (#[trigger] before.messages[j]).id == messages[k].id;
        lemma_first_bounds(before.messages, |x: MessageModel| x.id == m.id);
        lemma_first_bounds(before.messages, |x: MessageModel| echoes(x, m));
        assert(r[j].id == messages[k].id);
    }
}

/// Every message of the open thread in a batch is shown.
pub proof fn lemma_open_threads_show_all_messages(s: SmsState, list: Vec<Message>, now: i64, k: int)
    requires
        0 <= k < list@.len(),
        s.selected_thread == Some(list@[k]@.thread_id),
        !s.hidden.contains(list@[k]@.thread_id),
        !text::begins(list@[k]@.id, "sending_"@),
    ensures
        ({
            let r = after(
                s,
                SmsMessage::ProtocolEventReceived(ProtocolEvent::MessagesReceived(list)),
                now,
            ).messages;
            exists|j: int| 0 <= j < r.len() && (#[trigger] r[j]).id == list@[k]@.id
        }),
{
    let messages = order::views(list@);
    assert(messages[k] == list@[k]@);
    lemma_taken_in_messages(s, messages, k);
    let t = all_taken_in(s, messages);
    let j = choose|j: int| 0 <= j < t.messages.len() && (#[trigger] t.messages[j]).id == messages[k].id;
    lemma_selection_stays(s, messages);
    lemma_sorting_keeps_messages(t.messages, j);
    let r = after(
        s,
        SmsMessage::ProtocolEventReceived(ProtocolEvent::MessagesReceived(list)),
        now,
    ).messages;
    let n = choose|n: int| 0 <= n < r.len() && r[n] == t.messages[j];
    assert(r[n].id == list@[k]@.id);
}

proof fn lemma_shown_messages(s: SmsState, messages: Seq<MessageModel>, x: MessageModel)
    requires
        s.messages.contains(x),
        !text::begins(x.id, "sending_"@),
    ensures
        all_taken_in(s, messages).messages.contains(x),
    decreases messages.len(),
{
    if messages.len() > 0 {
        let before = all_taken_in(s, messages.drop_last());
        let m = messages.last();
        lemma_shown_messages(s, messages.drop_last(), x);
        let j = choose|j: int| 0 <= j < before.messages.len() && before.messages[j] == x;
        lemma_first_bounds(before.messages, |y: MessageModel| y.id == m.id);
        lemma_first_bounds(before.messages, |y: MessageModel| echoes(y, m));
        assert(all_taken_in(s, messages).messages[j] == x);
    } else {
        assert(all_taken_in(s, messages) == s);
    }
}

/// A message that is shown stays shown as it is, whatever comes in. Only one that
/// is being sent may be replaced, by its echo.
pub proof fn lemma_shown_messages_stay(s: SmsState, list: Vec<Message>, now: i64, x: MessageModel)
    requires
        s.messages.contains(x),
        !text::begins(x.id, "sending_"@),
    ensures
        after(
            s,
            SmsMessage::ProtocolEventReceived(ProtocolEvent::MessagesReceived(list)),
            now,
        ).messages.contains(x),
{
    let t = all_taken_in(s, order::views(list@));
    lemma_shown_messages(s, order::views(list@), x);
    let j = choose|j: int| 0 <= j < t.messages.len() && t.messages[j] == x;
    lemma_sorting_keeps_messages(t.messages, j);
}

/// Sending: what was typed, with what was picked, goes to the number of the open
/// conversation. It is shown at once as a message that was sent now, the
/// conversation shows it too, and the input is empty again. Every other message
/// and conversation stays.
pub proof fn lemma_sending(s: SmsState, now: i64, i: int)
    requires
        0 <= i < s.conversations.len(),
        s.selected_thread == Some(s.conversations[i].thread_id),
        own_threads(s.conversations),
        text::trimmed(s.message_input).len() > 0 || s.pending_attachments.len() > 0,
    ensures
        ({
            let c = s.conversations[i];
            let r = after(s, SmsMessage::SendMessage, now);
            &&& asks(s, SmsMessage::SendMessage, now) == seq![
                TaskModel::ScrollToTop,
                TaskModel::SendSms {
                    phone: c.phone_number,
                    text: s.message_input,
                    attachments: s.pending_attachments,
                },
            ]
            &&& r.message_input.len() == 0
            &&& r.pending_attachments.len() == 0
            &&& r.messages.len() == s.messages.len() + 1
            &&& forall|j: int|
                0 <= j < s.messages.len() ==> r.messages.contains(#[trigger] s.messages[j])
            &&& exists|j: int|
                #![trigger r.messages[j]]
                0 <= j < r.messages.len() && {
                    let m = r.messages[j];
                    &&& m.body == s.message_input
                    &&& m.thread_id == c.thread_id
                    &&& m.address == c.phone_number
                    &&& m.date == now
                    &&& m.type_ == 2
                    &&& m.id == "sending_"@ + text::decimal(now as int)
                    &&& m.attachments.len() == s.pending_attachments.len()
                    &&& forall|k: int|
                        0 <= k < s.pending_attachments.len() ==> (
                        #[trigger] m.attachments[k]).full_path == Some(s.pending_attachments[k])
                }
            &&& r.conversations.len() == s.conversations.len()
            &&& r.conversations.contains(
                (ConversationModel {
                    thread_id: c.thread_id,
                    contact_name: c.contact_name,
                    phone_number: c.phone_number,
                    addresses: c.addresses,
                    last_message: s.message_input,
                    timestamp: now,
                    unread: c.unread,
                }),
            )
            &&& forall|j: int|
                0 <= j < s.conversations.len() && j != i ==> r.conversations.contains(
                    #[trigger] s.conversations[j],
                )
            &&& r.selected_thread == s.selected_thread
            &&& r.hidden == s.hidden
            &&& r.last_seen == s.last_seen
        }),
{
    let c = s.conversations[i];
    let p = |x: ConversationModel| x.thread_id == c.thread_id;
    assert forall|j: int| 0 <= j < i implies !p(#[trigger] s.conversations[j]) by {
        assert(s.conversations[j].thread_id != s.conversations[i].thread_id);
    }
    order::lemma_first_where(s.conversations, p, i);
    assert(recipient(s) == Some(c));
    let r = after(s, SmsMessage::SendMessage, now);
    let shown = s.messages.push(sending(s, c, now));
    let d = ConversationModel { last_message: s.message_input, timestamp: now, ..c };
    let list = s.conversations.update(i, d);
    assert(order::ranks::<Message>());
    assert(order::ranks::<Conversation>());
    order::lemma_sorted::<Message>(shown);
    order::lemma_sorted::<Conversation>(list);
    assert forall|j: int| 0 <= j < s.messages.len() implies r.messages.contains(
        #[trigger] s.messages[j],
    ) by {
        assert(shown[j] == s.messages[j]);
        lemma_sorting_keeps_messages(shown, j);
    }
    let last = s.messages.len() as int;
    assert(shown[last] == sending(s, c, now));
    lemma_sorting_keeps_messages(shown, last);
    let j = choose|j: int| 0 <= j < r.messages.len() && r.messages[j] == sending(s, c, now);
    assert(r.messages[j].body == s.message_input);
    assert(list[i] == d);
    lemma_sorting_keeps(list, i);
    assert forall|j: int| 0 <= j < s.conversations.len() && j != i implies r.conversations.contains(
        #[trigger] s.conversations[j],
    ) by {
        assert(list[j] == s.conversations[j]);
        lemma_sorting_keeps(list, j);
    }
}

/// With nothing to send, or no conversation to send it in, nothing is sent and
/// nothing changes.
pub proof fn lemma_nothing_to_send(s: SmsState, now: i64)
    requires
        (text::trimmed(s.message_input).len() == 0 && s.pending_attachments.len() == 0)
            || s.selected_thread is None || forall|i: int|
            0 <= i < s.conversations.len() ==> (#[trigger] s.conversations[i]).thread_id
                != s.selected_thread->0,
    ensures
        after(s, SmsMessage::SendMessage, now) == s,
        asks(s, SmsMessage::SendMessage, now).len() == 0,
{
    if s.selected_thread is Some && forall|i: int|
        0 <= i < s.conversations.len() ==> (#[trigger] s.conversations[i]).thread_id
            != s.selected_thread->0 {
        let t = s.selected_thread->0;
        let p = |x: ConversationModel| x.thread_id == t;
        assert forall|j: int| 0 <= j < s.conversations.len() implies !p(
            #[trigger] s.conversations[j],
        ) by {
            assert(s.conversations[j].thread_id != t);
        }
        order::lemma_first_where(s.conversations, p, s.conversations.len() as int);
    }
}

/// A new chat begins with the number that was typed, trimmed: it is among the
/// conversations, all others stay, and it is opened. A blank number begins none.
pub proof fn lemma_chats_begin(s: SmsState, now: i64)
    ensures
        ({
            let r = after(s, SmsMessage::CreateNewChat, now);
            let phone = text::trimmed(s.new_chat_phone_input);
            let id = "new_"@ + text::decimal(now as int);
            &&& phone.len() == 0 ==> r == s && asks(s, SmsMessage::CreateNewChat, now).len() == 0
            &&& phone.len() > 0 ==> {
                &&& asks(s, SmsMessage::CreateNewChat, now) == seq![TaskModel::SelectThread(id)]
                &&& !r.show_new_chat_dialog
                &&& r.new_chat_phone_input.len() == 0
                &&& r.conversations.len() == s.conversations.len() + 1
                &&& forall|j: int|
                    0 <= j < s.conversations.len() ==> r.conversations.contains(
                        #[trigger] s.conversations[j],
                    )
                &&& exists|j: int|
                    #![trigger r.conversations[j]]
                    0 <= j < r.conversations.len() && r.conversations[j].thread_id == id
                        && r.conversations[j].phone_number == phone
                        && r.conversations[j].addresses == seq![phone]
                        && r.conversations[j].timestamp == now && !r.conversations[j].unread
                &&& r.messages == s.messages
                &&& r.selected_thread == s.selected_thread
                &&& r.hidden == s.hidden
            }
        }),
{
    let phone = text::trimmed(s.new_chat_phone_input);
    if phone.len() > 0 {
        let r = after(s, SmsMessage::CreateNewChat, now);
        let chat = new_chat(phone, now);
        let list = seq![chat] + s.conversations;
        assert(order::ranks::<Conversation>());
        order::lemma_sorted::<Conversation>(list);
        assert(list[0] == chat);
        lemma_sorting_keeps(list, 0);
        let k = choose|k: int| 0 <= k < r.conversations.len() && r.conversations[k] == chat;
        assert(r.conversations[k].phone_number == phone);
        assert forall|j: int| 0 <= j < s.conversations.len() implies r.conversations.contains(
            #[trigger] s.conversations[j],
        ) by {
            assert(list[j + 1] == s.conversations[j]);
            lemma_sorting_keeps(list, j + 1);
        }
    }
}

/// Hiding a conversation hides that one alone: every other stays, in its order,
/// and so does what another open thread shows. What is hidden is saved.
pub proof fn lemma_hiding_spares_the_rest(s: SmsState, now: i64, t: Seq<char>, i: int)
    requires
        s.pending_delete_thread == Some(t),
        0 <= i < s.conversations.len(),
    ensures
        ({
            let r = after(s, SmsMessage::ConfirmDeleteConversation, now);
            &&& s.conversations[i].thread_id != t ==> r.conversations.contains(s.conversations[i])
            &&& forall|k: int|
                0 <= k < r.conversations.len() ==> (#[trigger] r.conversations[k]).thread_id != t
                    && s.conversations.contains(r.conversations[k])
            &&& r.hidden == s.hidden.insert(t)
            &&& r.pending_delete_thread is None
            &&& s.selected_thread != Some(t) ==> r.messages == s.messages && r.selected_thread
                == s.selected_thread
            &&& s.selected_thread == Some(t) ==> r.messages.len() == 0 && r.selected_thread is None
            &&& asks(s, SmsMessage::ConfirmDeleteConversation, now) == seq![TaskModel::SaveHidden]
            &&& r.last_seen == s.last_seen
        }),
{
    let keep = |c: ConversationModel| c.thread_id != t;
    let r = after(s, SmsMessage::ConfirmDeleteConversation, now);
    if keep(s.conversations[i]) {
        s.conversations.lemma_filter_contains(keep, i);
    }
    assert forall|k: int| 0 <= k < r.conversations.len() implies (
    #[trigger] r.conversations[k]).thread_id != t && s.conversations.contains(r.conversations[k]) by {
        lemma_filter_holds(s.conversations, keep, k);
        s.conversations.lemma_filter_contains_rev(keep, r.conversations[k]);
    }
}

/// Opening a thread: it is the one that is open, its messages are asked for by
/// its number, and it counts as seen until its latest message.
pub proof fn lemma_opening(s: SmsState, t: String, now: i64)
    ensures
        ({
            let r = after(s, SmsMessage::SelectThread(t), now);
            &&& r.selected_thread == Some(t@)
            &&& r.messages.len() == 0
            &&& r.messages_window_size == 100
            &&& r.conversations == s.conversations
            &&& r.hidden == s.hidden
            &&& r.message_input == s.message_input
            &&& forall|i: int|
                #![trigger s.conversations[i]]
                0 <= i < s.conversations.len() && s.conversations[i].thread_id == t@
                    && own_threads(s.conversations) ==> r.last_seen.contains_key(t@)
                    && r.last_seen[t@] == s.conversations[i].timestamp
            &&& forall|u: Seq<char>|
                u != t@ ==> (#[trigger] r.last_seen.contains_key(u) <==> s.last_seen.contains_key(u))
                    && (s.last_seen.contains_key(u) ==> r.last_seen[u] == s.last_seen[u])
            &&& asks(s, SmsMessage::SelectThread(t), now).len() == 2
            &&& asks(s, SmsMessage::SelectThread(t), now)[1] is SaveLastSeen
            &&& forall|n: i64|
                t@ == #[trigger] text::decimal(n as int) ==> asks(
                    s,
                    SmsMessage::SelectThread(t),
                    now,
                )[0] == TaskModel::RequestMessages(n)
        }),
{
    let r = after(s, SmsMessage::SelectThread(t), now);
    assert forall|i: int|
        #![trigger s.conversations[i]]
        0 <= i < s.conversations.len() && s.conversations[i].thread_id == t@ && own_threads(
            s.conversations,
        ) implies r.last_seen.contains_key(t@) && r.last_seen[t@] == s.conversations[i].timestamp by {
        let p = |x: ConversationModel| x.thread_id == t@;
        assert forall|j: int| 0 <= j < i implies !p(#[trigger] s.conversations[j]) by {
            assert(s.conversations[j].thread_id != s.conversations[i].thread_id);
        }
        order::lemma_first_where(s.conversations, p, i);
    }
    assert forall|n: i64| t@ == #[trigger] text::decimal(n as int) implies asks(
        s,
        SmsMessage::SelectThread(t),
        now,
    )[0] == TaskModel::RequestMessages(n) by {
        text::lemma_number_reads_back(n);
    }
}

proof fn lemma_kept_by_one(list: Seq<ConversationModel>, c: ConversationModel, x: ConversationModel)
    requires
        list.contains(x),
        x.thread_id != c.thread_id,
        is_new(x.thread_id) ==> !same_phone(x.phone_number, c.phone_number),
    ensures
        with_conversation(list, c).contains(x),
{
    let chat = |y: ConversationModel|
        is_new(y.thread_id) && same_phone(y.phone_number, c.phone_number);
    let i = choose|i: int| 0 <= i < list.len() && list[i] == x;
    lemma_first_bounds(list, chat);
    lemma_first_bounds(list, |y: ConversationModel| y.thread_id == c.thread_id);
    assert(with_conversation(list, c)[i] == x);
}

proof fn lemma_comes_in(list: Seq<ConversationModel>, c: ConversationModel)
    requires
        !is_new(c.thread_id),
    ensures
        with_conversation(list, c).contains(c),
{
    let chat = |y: ConversationModel|
        is_new(y.thread_id) && same_phone(y.phone_number, c.phone_number);
    let own = |y: ConversationModel| y.thread_id == c.thread_id;
    lemma_first_bounds(list, chat);
    lemma_first_bounds(list, own);
    let i = if order::first_where(list, chat) < list.len() {
        order::first_where(list, chat)
    } else if order::first_where(list, own) < list.len() {
        order::first_where(list, own)
    } else {
        list.len() as int
    };
    assert(with_conversation(list, c)[i] == c);
}

proof fn lemma_kept_by_all(
    list: Seq<ConversationModel>,
    incoming: Seq<ConversationModel>,
    x: ConversationModel,
)
    requires
        list.contains(x),
        forall|k: int|
            0 <= k < incoming.len() ==> (#[trigger] incoming[k]).thread_id != x.thread_id,
        is_new(x.thread_id) ==> !known_phone(incoming, x.phone_number),
    ensures
        with_conversations(list, incoming).contains(x),
    decreases incoming.len(),
{
    if incoming.len() > 0 {
        let less = incoming.drop_last();
        assert forall|k: int| 0 <= k < less.len() implies (#[trigger] less[k]).thread_id
            != x.thread_id by {
            assert(incoming[k].thread_id != x.thread_id);
        }
        assert(incoming[incoming.len() - 1] == incoming.last());
        if is_new(x.thread_id) {
            if known_phone(less, x.phone_number) {
                let k = choose|k: int|
                    0 <= k < less.len() && same_phone(
                        (#[trigger] less[k]).phone_number,
                        x.phone_number,
                    );
                assert(same_phone(incoming[k].phone_number, x.phone_number));
            }
            assert(!same_phone(incoming[incoming.len() - 1].phone_number, x.phone_number));
        }
        lemma_kept_by_all(list, less, x);
        lemma_kept_by_one(with_conversations(list, less), incoming.last(), x);
    }
}

proof fn lemma_all_come_in(list: Seq<ConversationModel>, incoming: Seq<ConversationModel>, k: int)
    requires
        0 <= k < incoming.len(),
        !is_new(incoming[k].thread_id),
        forall|j: int|
            k < j < incoming.len() ==> (#[trigger] incoming[j]).thread_id != incoming[k].thread_id,
    ensures
        with_conversations(list, incoming).contains(incoming[k]),
    decreases incoming.len(),
{
    let less = incoming.drop_last();
    if k == incoming.len() - 1 {
        lemma_comes_in(with_conversations(list, less), incoming.last());
    } else {
        assert(less[k] == incoming[k]);
        assert forall|j: int| k < j < less.len() implies (#[trigger] less[j]).thread_id
            != less[k].thread_id by {
            assert(incoming[j].thread_id != incoming[k].thread_id);
        }
        lemma_all_come_in(list, less, k);
        assert(incoming[incoming.len() - 1] == incoming.last());
        lemma_kept_by_one(with_conversations(list, less), incoming.last(), incoming[k]);
    }
}

proof fn lemma_shown_conversation(s: SmsState, incoming: Seq<ConversationModel>, x: ConversationModel)
    requires
        with_conversations(s.conversations, incoming).contains(x),
        stays(s, incoming, x),
    ensures
        after_conversations(s, incoming).conversations.contains(named(s.contacts_by_phone, x)),
{
    let all = with_conversations(s.conversations, incoming);
    let keep = |c: ConversationModel| stays(s, incoming, c);
    let i = choose|i: int| 0 <= i < all.len() && all[i] == x;
    all.lemma_filter_contains(keep, i);
    let kept = all.filter(keep);
    let j = choose|j: int| 0 <= j < kept.len() && kept[j] == x;
    let list = all_named(s.contacts_by_phone, kept);
    assert(list[j] == named(s.contacts_by_phone, x));
    lemma_sorting_keeps(list, j);
}

/// A conversation that the phone sends is shown, under the name of its contacts,
/// unless it is hidden. Of several with one thread the last counts.
pub proof fn lemma_sent_conversations_are_shown(
    s: SmsState,
    list: Vec<Conversation>,
    now: i64,
    k: int,
)
    requires
        0 <= k < list@.len(),
        !text::begins(list@[k]@.thread_id, "new_"@),
        !s.hidden.contains(list@[k]@.thread_id),
        forall|j: int|
            k < j < list@.len() ==> (#[trigger] list@[j])@.thread_id != list@[k]@.thread_id,
    ensures
        after(
            s,
            SmsMessage::ProtocolEventReceived(ProtocolEvent::ConversationsReceived(list)),
            now,
        ).conversations.contains(named(s.contacts_by_phone, list@[k]@)),
{
    let incoming = order::views(list@);
    assert(incoming[k] == list@[k]@);
    assert forall|j: int| k < j < incoming.len() implies (#[trigger] incoming[j]).thread_id
        != incoming[k].thread_id by {
        assert(incoming[j] == list@[j]@);
    }
    lemma_all_come_in(s.conversations, incoming, k);
    lemma_shown_conversation(s, incoming, incoming[k]);
}

/// A conversation that the phone sends nothing about stays, unless it is hidden.
/// A new chat stays until the phone sends a conversation with its number.
pub proof fn lemma_other_conversations_stay(
    s: SmsState,
    list: Vec<Conversation>,
    now: i64,
    x: ConversationModel,
)
    requires
        s.conversations.contains(x),
        !s.hidden.contains(x.thread_id),
        forall|k: int| 0 <= k < list@.len() ==> (#[trigger] list@[k])@.thread_id != x.thread_id,
        text::begins(x.thread_id, "new_"@) ==> forall|k: int|
            0 <= k < list@.len() ==> !same_phone((#[trigger] list@[k])@.phone_number, x.phone_number),
    ensures
        after(
            s,
            SmsMessage::ProtocolEventReceived(ProtocolEvent::ConversationsReceived(list)),
            now,
        ).conversations.contains(named(s.contacts_by_phone, x)),
{
    let incoming = order::views(list@);
    assert forall|k: int| 0 <= k < incoming.len() implies (#[trigger] incoming[k]).thread_id
        != x.thread_id by {
        assert(incoming[k] == list@[k]@);
    }
    if is_new(x.thread_id) && known_phone(incoming, x.phone_number) {
        let k = choose|k: int|
            0 <= k < incoming.len() && same_phone(
                (#[trigger] incoming[k]).phone_number,
                x.phone_number,
            );
        assert(incoming[k] == list@[k]@);
    }
    lemma_kept_by_all(s.conversations, incoming, x);
    lemma_shown_conversation(s, incoming, x);
}

/// What is shown after the phone sent conversations is one of those it sent or
/// one that was there. A new chat whose number the phone now knows is gone.
pub proof fn lemma_shown_conversations_are_known(
    s: SmsState,
    list: Vec<Conversation>,
    now: i64,
    n: int,
)
    requires
        0 <= n < after(
            s,
            SmsMessage::ProtocolEventReceived(ProtocolEvent::ConversationsReceived(list)),
            now,
        ).conversations.len(),
    ensures
        ({
            let r = after(
                s,
                SmsMessage::ProtocolEventReceived(ProtocolEvent::ConversationsReceived(list)),
                now,
            ).conversations[n];
            &&& exists|x: ConversationModel|
                #![trigger named(s.contacts_by_phone, x)]
                r == named(s.contacts_by_phone, x) && (s.conversations.contains(x) || order::views(
                    list@,
                ).contains(x))
            &&& text::begins(r.thread_id, "new_"@) ==> forall|k: int|
                0 <= k < list@.len() ==> !same_phone(
                    (#[trigger] list@[k])@.phone_number,
                    r.phone_number,
                )
        }),
{
    let incoming = order::views(list@);
    let r = after_conversations(s, incoming).conversations;
    let all = with_conversations(s.conversations, incoming);
    let keep = |c: ConversationModel| stays(s, incoming, c);
    let kept = all.filter(keep);
    let shown = all_named(s.contacts_by_phone, kept);
    assert(order::ranks::<Conversation>());
    order::lemma_sorted_contains::<Conversation>(shown, n);
    let j = choose|j: int| 0 <= j < shown.len() && shown[j] == r[n];
    lemma_filter_holds(all, keep, j);
    all.lemma_filter_contains_rev(keep, kept[j]);
    let x = kept[j];
    assert(r[n] == named(s.contacts_by_phone, x));
    lemma_nothing_else_comes_in(s.conversations, incoming, x);
    if is_new(r[n].thread_id) {
        assert forall|k: int| 0 <= k < list@.len() implies !same_phone(
            (#[trigger] list@[k])@.phone_number,
            r[n].phone_number,
        ) by {
            assert(incoming[k] == list@[k]@);
            assert(!known_phone(incoming, x.phone_number));
        }
    }
}

proof fn lemma_nothing_else_comes_in(
    list: Seq<ConversationModel>,
    incoming: Seq<ConversationModel>,
    x: ConversationModel,
)
    requires
        with_conversations(list, incoming).contains(x),
    ensures
        list.contains(x) || incoming.contains(x),
    decreases incoming.len(),
{
    if incoming.len() > 0 {
        let less = incoming.drop_last();
        let c = incoming.last();
        let before = with_conversations(list, less);
        let now = with_conversations(list, incoming);
        lemma_first_bounds(
            before,
            |y: ConversationModel| is_new(y.thread_id) && same_phone(y.phone_number, c.phone_number),
        );
        lemma_first_bounds(before, |y: ConversationModel| y.thread_id == c.thread_id);
        let i = choose|i: int| 0 <= i < now.len() && now[i] == x;
        if x == c {
            assert(incoming[incoming.len() - 1] == x);
        } else {
            assert(before[i] == x);
            assert(before.contains(x));
            lemma_nothing_else_comes_in(list, less, x);
            if less.contains(x) {
                let k = choose|k: int| 0 <= k < less.len() && less[k] == x;
                assert(incoming[k] == x);
            }
        }
    }
}

/// An open thread stays open when conversations come in, except that an open new
/// chat moves on to a thread that the phone has with its number.
pub proof fn lemma_open_chats_move_on(s: SmsState, list: Vec<Conversation>, now: i64)
    ensures
        ({
            let r = after(
                s,
                SmsMessage::ProtocolEventReceived(ProtocolEvent::ConversationsReceived(list)),
                now,
            );
            &&& s.selected_thread is None ==> r.selected_thread is None
            &&& s.selected_thread is Some && !text::begins(s.selected_thread->0, "new_"@)
                ==> r.selected_thread == s.selected_thread
            &&& forall|i: int|
                #![trigger s.conversations[i]]
                0 <= i < s.conversations.len() && own_threads(s.conversations) && s.selected_thread
                    == Some(s.conversations[i].thread_id) && text::begins(
                    s.conversations[i].thread_id,
                    "new_"@,
                ) ==> {
                    ||| exists|n: int|
                        #![trigger r.conversations[n]]
                        0 <= n < r.conversations.len() && !is_new(r.conversations[n].thread_id)
                            && same_phone(
                            r.conversations[n].phone_number,
                            s.conversations[i].phone_number,
                        ) && r.selected_thread == Some(r.conversations[n].thread_id)
                    ||| r.selected_thread == s.selected_thread && forall|n: int|
                        0 <= n < r.conversations.len() && same_phone(
                            (#[trigger] r.conversations[n]).phone_number,
                            s.conversations[i].phone_number,
                        ) ==> is_new(r.conversations[n].thread_id)
                }
            &&& r.messages == s.messages
            &&& r.hidden == s.hidden
            &&& r.last_seen == s.last_seen
            &&& r.message_input == s.message_input
        }),
{
    let r = after(
        s,
        SmsMessage::ProtocolEventReceived(ProtocolEvent::ConversationsReceived(list)),
        now,
    );
    assert forall|i: int|
        #![trigger s.conversations[i]]
        0 <= i < s.conversations.len() && own_threads(s.conversations) && s.selected_thread == Some(
            s.conversations[i].thread_id,
        ) && text::begins(s.conversations[i].thread_id, "new_"@) implies ({
        ||| exists|n: int|
            #![trigger r.conversations[n]]
            0 <= n < r.conversations.len() && !is_new(r.conversations[n].thread_id) && same_phone(
                r.conversations[n].phone_number,
                s.conversations[i].phone_number,
            ) && r.selected_thread == Some(r.conversations[n].thread_id)
        ||| r.selected_thread == s.selected_thread && forall|n: int|
            0 <= n < r.conversations.len() && same_phone(
                (#[trigger] r.conversations[n]).phone_number,
                s.conversations[i].phone_number,
            ) ==> is_new(r.conversations[n].thread_id)
    }) by {
        let t = s.conversations[i].thread_id;
        let own = |c: ConversationModel| c.thread_id == t;
        assert forall|j: int| 0 <= j < i implies !own(#[trigger] s.conversations[j]) by {
            assert(s.conversations[j].thread_id != s.conversations[i].thread_id);
        }
        order::lemma_first_where(s.conversations, own, i);
        let phone = s.conversations[i].phone_number;
        assert(open_chat(s) == Some(phone));
        let p = |c: ConversationModel| !is_new(c.thread_id) && same_phone(c.phone_number, phone);
        let at = order::first_where(r.conversations, p);
        lemma_first_bounds(r.conversations, p);
        if at < r.conversations.len() {
            assert(p(r.conversations[at]));
        } else {
            assert forall|n: int|
                0 <= n < r.conversations.len() && same_phone(
                    (#[trigger] r.conversations[n]).phone_number,
                    phone,
                ) implies is_new(r.conversations[n].thread_id) by {
                if !is_new(r.conversations[n].thread_id) {
                    lemma_found(r.conversations, p, n);
                }
            }
        }
    }
}

/// Conversations that are loaded are shown, each under the name of its contacts,
/// unless it is hidden.
pub proof fn lemma_loaded_conversations_are_shown(s: SmsState, list: Vec<Conversation>, now: i64)
    ensures
        ({
            let r = after(s, SmsMessage::ConversationsLoaded(list), now);
            &&& forall|k: int|
                #![trigger list@[k]]
                0 <= k < list@.len() && !s.hidden.contains(list@[k]@.thread_id)
                    ==> r.conversations.contains(named(s.contacts_by_phone, list@[k]@))
            &&& r.messages == s.messages
            &&& r.selected_thread == s.selected_thread
            &&& asks(s, SmsMessage::ConversationsLoaded(list), now).len() == 0
        }),
{
    let r = after(s, SmsMessage::ConversationsLoaded(list), now);
    let all = order::views(list@);
    let keep = |c: ConversationModel| !s.hidden.contains(c.thread_id);
    let kept = all.filter(keep);
    assert(kept == unhidden(s.hidden, all));
    let shown = all_named(s.contacts_by_phone, kept);
    assert forall|k: int|
        #![trigger list@[k]]
        0 <= k < list@.len() && !s.hidden.contains(
            list@[k]@.thread_id,
        ) implies r.conversations.contains(named(s.contacts_by_phone, list@[k]@)) by {
        assert(all[k] == list@[k]@);
        all.lemma_filter_contains(keep, k);
        let j = choose|j: int| 0 <= j < kept.len() && kept[j] == all[k];
        assert(shown[j] == named(s.contacts_by_phone, all[k]));
        lemma_sorting_keeps(shown, j);
    }
}

/// Every conversation that is shown after conversations were loaded is one of
/// them that is not hidden.
pub proof fn lemma_only_loaded_conversations_are_shown(
    s: SmsState,
    list: Vec<Conversation>,
    now: i64,
    n: int,
)
    requires
        0 <= n < after(s, SmsMessage::ConversationsLoaded(list), now).conversations.len(),
    ensures
        exists|x: ConversationModel|
            #![trigger named(s.contacts_by_phone, x)]
            order::views(list@).contains(x) && !s.hidden.contains(x.thread_id) && named(
                s.contacts_by_phone,
                x,
            ) == after(s, SmsMessage::ConversationsLoaded(list), now).conversations[n],
{
    let r = after(s, SmsMessage::ConversationsLoaded(list), now);
    let all = order::views(list@);
    let keep = |c: ConversationModel| !s.hidden.contains(c.thread_id);
    let kept = all.filter(keep);
    assert(kept == unhidden(s.hidden, all));
    let shown = all_named(s.contacts_by_phone, kept);
    assert(order::ranks::<Conversation>());
    order::lemma_sorted_contains::<Conversation>(shown, n);
    let j = choose|j: int| 0 <= j < shown.len() && shown[j] == r.conversations[n];
    lemma_filter_holds(all, keep, j);
    all.lemma_filter_contains_rev(keep, kept[j]);
    assert(named(s.contacts_by_phone, kept[j]) == r.conversations[n]);
}

/// A conversation under the name of its contacts is otherwise the same one: a
/// group has the names of all its members, any other the name that its number
/// has, and where the number has none it keeps the name it had.
pub proof fn lemma_naming(by_phone: Map<Seq<char>, Seq<char>>, c: ConversationModel)
    ensures
        ({
            let r = named(by_phone, c);
            &&& r.thread_id == c.thread_id
            &&& r.phone_number == c.phone_number
            &&& r.addresses == c.addresses
            &&& r.last_message == c.last_message
            &&& r.timestamp == c.timestamp
            &&& r.unread == c.unread
            &&& c.addresses.len() > 1 ==> r.contact_name == contacts::group_name(
                by_phone,
                c.addresses,
            )
            &&& c.addresses.len() <= 1 && contacts::name_of(by_phone, c.phone_number) is Some
                ==> r.contact_name == contacts::name_of(by_phone, c.phone_number)->0
            &&& c.addresses.len() <= 1 && contacts::name_of(by_phone, c.phone_number) is None
                ==> r.contact_name == c.contact_name
        }),
{
}

proof fn lemma_contacts_rank()
    ensures
        order::ranks::<(String, String)>(),
{
    assert forall|a: (Seq<char>, Seq<char>), b: (Seq<char>, Seq<char>)|
        #![trigger <(String, String) as Ranked>::precedes(a, b)]
        <(String, String) as Ranked>::precedes(a, b) || <(String, String) as Ranked>::precedes(
            b,
            a,
        ) by {
        order::lemma_text_total(a.1, b.1);
    }
    assert forall|
        a: (Seq<char>, Seq<char>),
        b: (Seq<char>, Seq<char>),
        c: (Seq<char>, Seq<char>),
    |
        #![trigger <(String, String) as Ranked>::precedes(a, b), <(String, String) as Ranked>::precedes(b, c)]
        <(String, String) as Ranked>::precedes(a, b) && <(String, String) as Ranked>::precedes(
            b,
            c,
        ) implies <(String, String) as Ranked>::precedes(a, c) by {
        order::lemma_text_transitive(a.1, b.1, c.1);
    }
}

/// Contacts that are loaded name every conversation, and are all offered with
/// their names in order.
pub proof fn lemma_loaded_contacts_name_conversations(
    s: SmsState,
    contacts: TextMap<String>,
    now: i64,
)
    ensures
        ({
            let r = after(s, SmsMessage::ContactsLoaded(contacts), now);
            let list = order::views(contacts.list());
            &&& r.contacts_by_phone == contacts::by_digits(list)
            &&& r.conversations.len() == s.conversations.len()
            &&& forall|i: int|
                0 <= i < s.conversations.len() ==> #[trigger] r.conversations[i] == named(
                    r.contacts_by_phone,
                    s.conversations[i],
                )
            &&& r.contacts.to_multiset() == list.to_multiset()
            &&& r.contacts_by_name.len() == r.contacts.len()
            &&& forall|i: int|
                0 <= i < r.contacts.len() ==> #[trigger] r.contacts_by_name[i] == r.contacts[i].1
            &&& r.messages == s.messages
            &&& r.selected_thread == s.selected_thread
            &&& r.hidden == s.hidden
        }),
{
    lemma_contacts_rank();
    order::lemma_sorted::<(String, String)>(order::views(contacts.list()));
}

/// The file of an attachment goes to every attachment with its identifier, in
/// every message, and to no other. Nothing else of a message changes.
pub proof fn lemma_files_find_their_attachment(
    s: SmsState,
    id: String,
    path: String,
    now: i64,
    i: int,
    j: int,
)
    requires
        0 <= i < s.messages.len(),
        0 <= j < s.messages[i].attachments.len(),
    ensures
        ({
            let r = after(s, SmsMessage::AttachmentReceived(id, path), now);
            let m = s.messages[i];
            let n = r.messages[i];
            let a = m.attachments[j];
            let b = n.attachments[j];
            &&& r.messages.len() == s.messages.len()
            &&& n.attachments.len() == m.attachments.len()
            &&& n.id == m.id && n.body == m.body && n.date == m.date && n.thread_id == m.thread_id
                && n.type_ == m.type_ && n.address == m.address && n.read == m.read
            &&& a.unique_identifier == Some(id@) ==> b.full_path == Some(path@)
            &&& a.unique_identifier != Some(id@) ==> b == a
            &&& b.part_id == a.part_id && b.unique_identifier == a.unique_identifier && b.mime_type
                == a.mime_type && b.thumbnail == a.thumbnail
            &&& r.conversations == s.conversations
            &&& r.selected_thread == s.selected_thread
        }),
{
}

/// What the plain controls of the window do: each changes what it stands for and
/// nothing else.
pub proof fn lemma_controls(s: SmsState, x: String, n: usize, now: i64)
    ensures
        after(s, SmsMessage::UpdateInput(x), now) == (SmsState { message_input: x@, ..s }),
        after(s, SmsMessage::InsertEmoji(x), now) == (SmsState {
            message_input: s.message_input + x@,
            ..s
        }),
        after(s, SmsMessage::UpdateSearch(x), now) == (SmsState {
            search_query: x@,
            search_query_lower: text::lowercased(x@),
            ..s
        }),
        after(s, SmsMessage::OpenNewChatDialog, now) == (SmsState { show_new_chat_dialog: true, ..s }),
        after(s, SmsMessage::CloseNewChatDialog, now) == (SmsState {
            show_new_chat_dialog: false,
            new_chat_phone_input: Seq::empty(),
            ..s
        }),
        after(s, SmsMessage::UpdateNewChatPhone(x), now) == (SmsState {
            new_chat_phone_input: x@,
            ..s
        }),
        n < s.contacts.len() ==> after(s, SmsMessage::SelectContactForNewChat(n), now) == (
        SmsState { new_chat_phone_input: s.contacts[n as int].0, contact_idx: Some(n), ..s }),
{
}

/// What the controls of the picker and of hiding do: each changes what it stands
/// for and nothing else.
pub proof fn lemma_picker_and_hiding_controls(s: SmsState, x: String, n: usize, now: i64)
    ensures
        after(s, SmsMessage::ToggleEmojiPicker, now) == (SmsState {
            show_emoji_picker: !s.show_emoji_picker,
            ..s
        }),
        after(s, SmsMessage::SelectEmojiCategory(n), now) == (SmsState { emoji_category: n, ..s }),
        after(s, SmsMessage::RequestDeleteConversation(x), now) == (SmsState {
            pending_delete_thread: Some(x@),
            ..s
        }),
        after(s, SmsMessage::CancelDeleteConversation, now) == (SmsState {
            pending_delete_thread: None,
            ..s
        }),
        s.pending_delete_thread is None ==> after(s, SmsMessage::ConfirmDeleteConversation, now)
            == s && asks(s, SmsMessage::ConfirmDeleteConversation, now).len() == 0,
{
}

/// What the controls of attachments and of the shown part of a thread do.
pub proof fn lemma_attachment_controls(
    s: SmsState,
    x: String,
    n: usize,
    list: Vec<String>,
    now: i64,
)
    ensures
        after(s, SmsMessage::AttachmentsPicked(list), now) == (SmsState {
            pending_attachments: s.pending_attachments + list.deep_view(),
            ..s
        }),
        n < s.pending_attachments.len() ==> after(s, SmsMessage::RemovePendingAttachment(n), now)
            == (SmsState { pending_attachments: s.pending_attachments.remove(n as int), ..s }),
        n >= s.pending_attachments.len() ==> after(s, SmsMessage::RemovePendingAttachment(n), now)
            == s,
        s.messages_window_size + 100 <= usize::MAX ==> after(
            s,
            SmsMessage::LoadMoreMessages,
            now,
        ).messages_window_size == s.messages_window_size + 100,
        after(s, SmsMessage::LoadMoreMessages, now).messages == s.messages,
        after(s, SmsMessage::CloseWindow, now) == s,
        after(s, SmsMessage::RefreshThread, now) == s,
        after(s, SmsMessage::LoadConversations, now) == s,
        after(s, SmsMessage::ProtocolEventReceived(ProtocolEvent::Error(x)), now) == s,
{
}

/// What the plain controls of the window ask for.
pub proof fn lemma_controls_ask(
    s: SmsState,
    x: String,
    part_id: i64,
    photos: Vec<(String, Vec<u8>)>,
    m: Message,
    now: i64,
)
    ensures
        asks(s, SmsMessage::LoadConversations, now) == seq![TaskModel::FetchConversations],
        asks(s, SmsMessage::CloseWindow, now) == seq![TaskModel::Exit],
        asks(s, SmsMessage::OpenAttachment(x), now) == seq![TaskModel::OpenFile(x@)],
        asks(s, SmsMessage::PickAttachment, now) == seq![TaskModel::PickFiles],
        asks(
            s,
            SmsMessage::RequestFullAttachment { part_id, unique_identifier: x },
            now,
        ) == seq![TaskModel::RequestAttachment { part_id, unique_identifier: x@ }],
        asks(s, SmsMessage::ContactPhotosLoaded(photos), now) == seq![
            TaskModel::BakeAvatars(photos_view(photos@)),
        ],
        paths::file_name(x@) matches Some(name) ==> asks(s, SmsMessage::SaveAttachment(x), now)
            == seq![TaskModel::SaveFile { path: x@, suggested_name: name }],
        paths::file_name(x@) is None ==> asks(s, SmsMessage::SaveAttachment(x), now) == seq![
            TaskModel::SaveFile { path: x@, suggested_name: "attachment"@ },
        ],
        asks(s, SmsMessage::UpdateInput(x), now).len() == 0,
        s.selected_thread == Some(m@.thread_id) && !s.hidden.contains(m@.thread_id) ==> asks(
            s,
            SmsMessage::ProtocolEventReceived(ProtocolEvent::MessageReceived(m)),
            now,
        ) == seq![TaskModel::SaveLastSeen],
        s.selected_thread is None ==> asks(
            s,
            SmsMessage::ProtocolEventReceived(ProtocolEvent::MessageReceived(m)),
            now,
        ).len() == 0,
{
    lemma_one_taken_in(s, m@);
    if s.selected_thread == Some(m@.thread_id) && !s.hidden.contains(m@.thread_id) {
        lemma_message_comes_once(s.messages, m@);
    }
}

/// Pictures that were made are kept by number, the last one for each, and the
/// others stay.
pub proof fn lemma_pictures_are_kept(s: SmsState, baked: Vec<(String, u64)>, now: i64, k: int)
    requires
        0 <= k < baked@.len(),
        forall|j: int| k < j < baked@.len() ==> (#[trigger] baked@[j]).0@ != baked@[k].0@,
    ensures
        after(s, SmsMessage::AvatarsBaked(baked), now).photos.contains_key(baked@[k].0@),
        after(s, SmsMessage::AvatarsBaked(baked), now).photos[baked@[k].0@] == baked@[k].1,
        after(s, SmsMessage::AvatarsBaked(baked), now) == (SmsState {
            photos: after(s, SmsMessage::AvatarsBaked(baked), now).photos,
            ..s
        }),
{
    lemma_handles(s.photos, baked@, k);
}

proof fn lemma_handles(map: Map<Seq<char>, u64>, baked: Seq<(String, u64)>, k: int)
    requires
        0 <= k < baked.len(),
        forall|j: int| k < j < baked.len() ==> (#[trigger] baked[j]).0@ != baked[k].0@,
    ensures
        with_handles(map, baked).contains_key(baked[k].0@),
        with_handles(map, baked)[baked[k].0@] == baked[k].1,
    decreases baked.len(),
{
    if k < baked.len() - 1 {
        assert(baked[baked.len() - 1].0@ != baked[k].0@);
        assert(baked.last() == baked[baked.len() - 1]);
        let less = baked.drop_last();
        assert(less[k] == baked[k]);
        assert forall|j: int| k < j < less.len() implies (#[trigger] less[j]).0@ != less[k].0@ by {
            assert(baked[j].0@ != baked[k].0@);
        }
        lemma_handles(map, less, k);
    }
}

/// Which message an incoming one is the echo of: one that is being sent, with
/// its text and dated less than five minutes from it, both sent from here. The
/// first of these takes over its identifier and date and keeps everything else;
/// a message that is known changes nothing, and any other comes last.
pub proof fn lemma_echoes_and_others(messages: Seq<MessageModel>, m: MessageModel, i: int)
    requires
        0 <= i <= messages.len(),
        forall|j: int|
            0 <= j < i ==> !(text::begins((#[trigger] messages[j]).id, "sending_"@)
                && messages[j].type_ == 2 && messages[j].body == m.body && messages[j].date - m.date
                < 300_000 && m.date - messages[j].date < 300_000),
    ensures
        (exists|j: int| 0 <= j < messages.len() && (#[trigger] messages[j]).id == m.id)
            ==> with_message(messages, m) == messages,
        (forall|j: int| 0 <= j < messages.len() ==> (#[trigger] messages[j]).id != m.id) && (i
            == messages.len() || m.type_ != 2) ==> with_message(messages, m) == messages.push(m),
        (forall|j: int| 0 <= j < messages.len() ==> (#[trigger] messages[j]).id != m.id) && i
            < messages.len() && m.type_ == 2 && text::begins(messages[i].id, "sending_"@)
            && messages[i].type_ == 2 && messages[i].body == m.body && messages[i].date - m.date
            < 300_000 && m.date - messages[i].date < 300_000 ==> with_message(messages, m)
            == messages.update(
            i,
            MessageModel { id: m.id, thread_id: m.thread_id, date: m.date, ..messages[i] },
        ),
{
    let p = |x: MessageModel| x.id == m.id;
    let q = |x: MessageModel| echoes(x, m);
    lemma_first_bounds(messages, p);
    if exists|j: int| 0 <= j < messages.len() && (#[trigger] messages[j]).id == m.id {
        let j = choose|j: int| 0 <= j < messages.len() && (#[trigger] messages[j]).id == m.id;
        lemma_found(messages, p, j);
    } else {
        order::lemma_first_where(messages, p, messages.len() as int);
        if m.type_ != 2 {
            order::lemma_first_where(messages, q, messages.len() as int);
        } else if i == messages.len() || echoes(messages[i], m) {
            order::lemma_first_where(messages, q, i);
        }
    }
}

} // verus!
