//! Conversations, and how messages make them up.

use vstd::prelude::*;

use crate::json;
use crate::order;
use crate::order::Ranked;
use crate::sms;
use crate::sms::{SmsAddress, SmsAttachment, SmsMessage};
use crate::table::Duplicate;
use crate::text;
use crate::text::{copy_texts, decimal_text, same, starts_with};
use crate::transfer::copy_text;

verus! {

/// One conversation.
#[derive(Debug, PartialEq, Eq)]
pub struct Conversation {
    pub thread_id: String,
    pub contact_name: String,
    pub phone_number: String,
    /// Everyone who takes part.
    pub addresses: Vec<String>,
    pub last_message: String,
    pub timestamp: i64,
    pub unread: bool,
}

/// A conversation as a value.
#[verifier::ext_equal]
pub struct ConversationModel {
    pub thread_id: Seq<char>,
    pub contact_name: Seq<char>,
    pub phone_number: Seq<char>,
    pub addresses: Seq<Seq<char>>,
    pub last_message: Seq<char>,
    pub timestamp: i64,
    pub unread: bool,
}

impl View for Conversation {
    type V = ConversationModel;

    open spec fn view(&self) -> ConversationModel {
        ConversationModel {
            thread_id: self.thread_id@,
            contact_name: self.contact_name@,
            phone_number: self.phone_number@,
            addresses: self.addresses.deep_view(),
            last_message: self.last_message@,
            timestamp: self.timestamp,
            unread: self.unread,
        }
    }
}

impl Ranked for Conversation {
    /// The newest conversation comes first.
    open spec fn precedes(a: ConversationModel, b: ConversationModel) -> bool {
        a.timestamp >= b.timestamp
    }

    fn may_precede(&self, other: &Self) -> (r: bool) {
        self.timestamp >= other.timestamp
    }
}

impl Duplicate for Conversation {
    fn duplicate(&self) -> (r: Self) {
        Conversation {
            thread_id: self.thread_id.clone(),
            contact_name: self.contact_name.clone(),
            phone_number: self.phone_number.clone(),
            addresses: copy_texts(&self.addresses),
            last_message: self.last_message.clone(),
            timestamp: self.timestamp,
            unread: self.unread,
        }
    }
}

/// The name that a conversation is shown under.
pub open spec fn shown_name(c: ConversationModel) -> Seq<char> {
    if c.contact_name.len() > 0 {
        c.contact_name
    } else {
        c.phone_number
    }
}

impl Conversation {
    /// The name that the conversation is shown under: that of its contacts, or
    /// its number.
    pub fn display_name(&self) -> (r: String)
        ensures
            r@ == shown_name(self@),
            self.contact_name@.len() > 0 ==> r@ == self.contact_name@,
            self.contact_name@.len() == 0 ==> r@ == self.phone_number@,
    {
        if self.contact_name.as_str().is_empty() {
            self.phone_number.clone()
        } else {
            self.contact_name.clone()
        }
    }
}

/// An attachment of a message. The full file comes later, where it comes at all.
#[derive(Debug, PartialEq, Eq)]
pub struct MessageAttachment {
    pub part_id: i64,
    pub unique_identifier: Option<String>,
    pub mime_type: String,
    pub thumbnail: Option<Vec<u8>>,
    pub full_path: Option<String>,
}

/// An attachment as a value.
pub struct AttachmentModel {
    pub part_id: i64,
    pub unique_identifier: Option<Seq<char>>,
    pub mime_type: Seq<char>,
    pub thumbnail: Option<Seq<u8>>,
    pub full_path: Option<Seq<char>>,
}

impl View for MessageAttachment {
    type V = AttachmentModel;

    open spec fn view(&self) -> AttachmentModel {
        AttachmentModel {
            part_id: self.part_id,
            unique_identifier: self.unique_identifier.deep_view(),
            mime_type: self.mime_type@,
            thumbnail: self.thumbnail.deep_view(),
            full_path: self.full_path.deep_view(),
        }
    }
}

impl MessageAttachment {
    /// Whether the attachment is a video.
    pub fn is_video(&self) -> (r: bool)
        ensures
            r == text::begins(self.mime_type@, "video/"@),
    {
        starts_with(&self.mime_type, "video/")
    }
}

/// One message of a conversation.
#[derive(Debug, PartialEq, Eq)]
pub struct Message {
    pub id: String,
    pub thread_id: String,
    pub body: String,
    pub address: String,
    pub date: i64,
    pub attachments: Vec<MessageAttachment>,
    /// 1 for a received message, 2 for a sent one.
    pub type_: i32,
    pub read: bool,
}

/// A message as a value.
pub struct MessageModel {
    pub id: Seq<char>,
    pub thread_id: Seq<char>,
    pub body: Seq<char>,
    pub address: Seq<char>,
    pub date: i64,
    pub attachments: Seq<AttachmentModel>,
    pub type_: i32,
    pub read: bool,
}

impl View for Message {
    type V = MessageModel;

    open spec fn view(&self) -> MessageModel {
        MessageModel {
            id: self.id@,
            thread_id: self.thread_id@,
            body: self.body@,
            address: self.address@,
            date: self.date,
            attachments: order::views(self.attachments@),
            type_: self.type_,
            read: self.read,
        }
    }
}

impl Ranked for Message {
    /// The oldest message comes first.
    open spec fn precedes(a: MessageModel, b: MessageModel) -> bool {
        a.date <= b.date
    }

    fn may_precede(&self, other: &Self) -> (r: bool) {
        self.date <= other.date
    }
}

impl Message {
    /// Whether the message was sent from here.
    pub fn is_sent(&self) -> (r: bool)
        ensures
            r == (self.type_ == 2),
    {
        self.type_ == 2
    }
}

/// What comes in for the window.
#[derive(Debug, PartialEq, Eq)]
pub enum ProtocolEvent {
    /// One message.
    MessageReceived(Message),
    /// Many messages at once.
    MessagesReceived(Vec<Message>),
    ConversationsReceived(Vec<Conversation>),
    Error(String),
}

/// The entries of a list of messages, each as JSON. An entry that is no message
/// can then be passed over without losing the others.
pub fn message_entries(messages_json: &str) -> (r: Vec<String>)
    ensures
        r.deep_view() == (match json::json_array_items(messages_json@, "messages"@) {
            Some(items) => items,
            None => Seq::empty(),
        }),
{
    json::items_under(messages_json, "messages")
}

/// The first address of a message, or nothing.
pub open spec fn first_address(m: SmsMessage) -> Seq<char> {
    if m.addresses@.len() > 0 {
        m.addresses@[0].address@
    } else {
        Seq::empty()
    }
}

/// An attachment as the window shows it at first.
pub open spec fn shown_attachment(a: SmsAttachment) -> AttachmentModel {
    AttachmentModel {
        part_id: a.part_id,
        unique_identifier: a.unique_identifier.deep_view(),
        mime_type: a.mime_type@,
        thumbnail: sms::thumbnail(a.encoded_thumbnail.deep_view()),
        full_path: None,
    }
}

/// A message as the window shows it.
pub open spec fn shown_message(m: SmsMessage) -> MessageModel {
    MessageModel {
        id: text::decimal(m.id as int),
        thread_id: text::decimal(m.thread_id as int),
        body: m.body@,
        address: first_address(m),
        date: m.date,
        attachments: m.attachments@.map_values(|a: SmsAttachment| shown_attachment(a)),
        type_: m.message_type,
        read: m.read == 1,
    }
}

/// A message is shown with all that the phone says of it: its number, its thread,
/// its text, its date, whether it was sent and whether it was read, the first of
/// its addresses and every one of its attachments.
pub proof fn lemma_messages_are_shown_whole(m: SmsMessage, j: int)
    ensures
        ({
            let x = shown_message(m);
            &&& text::parsed(x.id) == Some(m.id)
            &&& text::parsed(x.thread_id) == Some(m.thread_id)
            &&& x.body == m.body@
            &&& x.date == m.date
            &&& x.type_ == m.message_type
            &&& x.read <==> m.read == 1
            &&& m.addresses@.len() > 0 ==> x.address == m.addresses@[0].address@
            &&& m.addresses@.len() == 0 ==> x.address.len() == 0
            &&& x.attachments.len() == m.attachments@.len()
            &&& 0 <= j < m.attachments@.len() ==> {
                let a = m.attachments@[j];
                let b = x.attachments[j];
                &&& b.part_id == a.part_id
                &&& b.unique_identifier == a.unique_identifier.deep_view()
                &&& b.mime_type == a.mime_type@
                &&& b.thumbnail == sms::thumbnail(a.encoded_thumbnail.deep_view())
                &&& b.full_path is None
            }
        }),
{
    text::lemma_number_reads_back(m.id);
    text::lemma_number_reads_back(m.thread_id);
}

fn address_of(m: &SmsMessage) -> (r: String)
    ensures
        r@ == first_address(*m),
{
    if m.addresses.len() > 0 {
        m.addresses[0].address.clone()
    } else {
        String::new()
    }
}

fn show_attachments(list: &Vec<SmsAttachment>) -> (r: Vec<MessageAttachment>)
    ensures
        order::views(r@) == list@.map_values(|a: SmsAttachment| shown_attachment(a)),
{
    let mut r: Vec<MessageAttachment> = Vec::new();
    let mut i: usize = 0;
    while i < list.len()
        invariant
            i <= list@.len(),
            r@.len() == i,
            forall|k: int| 0 <= k < i ==> (#[trigger] r@[k])@ == shown_attachment(list@[k]),
        decreases list@.len() - i,
    {
        let a = &list[i];
        let thumbnail = a.decode_thumbnail();
        proof {
            if thumbnail is Some {
                assert(thumbnail->0.deep_view() =~= thumbnail->0@);
            }
        }
        r.push(
            MessageAttachment {
                part_id: a.part_id,
                unique_identifier: copy_text(&a.unique_identifier),
                mime_type: a.mime_type.clone(),
                thumbnail,
                full_path: None,
            },
        );
        i = i + 1;
    }
    proof {
        assert(order::views(r@) =~= list@.map_values(|a: SmsAttachment| shown_attachment(a)));
    }
    r
}

fn show_message(m: &SmsMessage) -> (r: Message)
    ensures
        r@ == shown_message(*m),
{
    Message {
        id: decimal_text(m.id),
        thread_id: decimal_text(m.thread_id),
        address: address_of(m),
        body: m.body.clone(),
        date: m.date,
        attachments: show_attachments(&m.attachments),
        type_: m.message_type,
        read: m.read == 1,
    }
}

/// The threads of the messages, each once, in the order in which they first
/// come up.
pub open spec fn threads(messages: Seq<SmsMessage>) -> Seq<i64>
    decreases messages.len(),
{
    if messages.len() == 0 {
        Seq::empty()
    } else {
        let before = threads(messages.drop_last());
        if before.contains(messages.last().thread_id) {
            before
        } else {
            before.push(messages.last().thread_id)
        }
    }
}

/// Addresses with further ones, none of them twice.
pub open spec fn with_addresses(list: Seq<Seq<char>>, more: Seq<SmsAddress>) -> Seq<Seq<char>>
    decreases more.len(),
{
    if more.len() == 0 {
        list
    } else {
        let before = with_addresses(list, more.drop_last());
        if before.contains(more.last().address@) {
            before
        } else {
            before.push(more.last().address@)
        }
    }
}

/// Everyone who takes part in a thread.
pub open spec fn roster(messages: Seq<SmsMessage>, thread_id: i64) -> Seq<Seq<char>>
    decreases messages.len(),
{
    if messages.len() == 0 {
        Seq::empty()
    } else {
        let before = roster(messages.drop_last(), thread_id);
        if messages.last().thread_id == thread_id {
            with_addresses(before, messages.last().addresses@)
        } else {
            before
        }
    }
}

/// The message is the newest of its thread, and the first of that date.
pub open spec fn leads(messages: Seq<SmsMessage>, thread_id: i64, i: int) -> bool {
    &&& 0 <= i < messages.len()
    &&& messages[i].thread_id == thread_id
    &&& forall|j: int|
        0 <= j < messages.len() && (#[trigger] messages[j]).thread_id == thread_id
            ==> messages[j].date <= messages[i].date && (j < i ==> messages[j].date
            < messages[i].date)
}

/// Some message of the thread has not been read on the phone.
pub open spec fn thread_unread(messages: Seq<SmsMessage>, thread_id: i64) -> bool {
    exists|j: int|
        0 <= j < messages.len() && (#[trigger] messages[j]).thread_id == thread_id
            && messages[j].read != 1
}

/// The conversation that a thread makes up, led by its newest message.
pub open spec fn made_up(messages: Seq<SmsMessage>, thread_id: i64, lead: int) -> ConversationModel {
    ConversationModel {
        thread_id: text::decimal(thread_id as int),
        contact_name: Seq::empty(),
        phone_number: first_address(messages[lead]),
        addresses: roster(messages, thread_id),
        last_message: messages[lead].body@,
        timestamp: messages[lead].date,
        unread: thread_unread(messages, thread_id),
    }
}

/// The conversation is the one that the thread makes up.
pub open spec fn summarised(messages: Seq<SmsMessage>, thread_id: i64, c: ConversationModel) -> bool {
    exists|lead: int| #[trigger]
        leads(messages, thread_id, lead) && c == made_up(messages, thread_id, lead)
}

/// What a conversation says of the messages of its thread: it shows one that is
/// as new as any, has the number of that message, names everyone who takes part
/// and nobody else, and is unread if any of them is.
pub open spec fn sums_up(messages: Seq<SmsMessage>, thread_id: i64, c: ConversationModel) -> bool {
    &&& c.thread_id == text::decimal(thread_id as int)
    &&& c.contact_name.len() == 0
    &&& forall|j: int|
        0 <= j < messages.len() && (#[trigger] messages[j]).thread_id == thread_id
            ==> messages[j].date <= c.timestamp && (messages[j].read != 1 ==> c.unread)
    &&& c.unread ==> exists|j: int|
        0 <= j < messages.len() && (#[trigger] messages[j]).thread_id == thread_id
            && messages[j].read != 1
    &&& exists|j: int|
        0 <= j < messages.len() && (#[trigger] messages[j]).thread_id == thread_id
            && messages[j].date == c.timestamp && messages[j].body@ == c.last_message && (
        messages[j].addresses@.len() > 0 ==> c.phone_number == messages[j].addresses@[0].address@)
    &&& forall|a: Seq<char>| #[trigger] c.addresses.contains(a) <==> takes_part(
        messages,
        thread_id,
        a,
    )
}

/// The conversation that a thread makes up sums up its messages.
pub proof fn lemma_conversations_sum_up(
    messages: Seq<SmsMessage>,
    thread_id: i64,
    c: ConversationModel,
)
    requires
        summarised(messages, thread_id, c),
    ensures
        sums_up(messages, thread_id, c),
{
    let lead = choose|lead: int| #[trigger]
        leads(messages, thread_id, lead) && c == made_up(messages, thread_id, lead);
    lemma_roster_is_complete(messages, thread_id);
    assert(messages[lead].thread_id == thread_id);
}

fn has_number(list: &Vec<i64>, n: i64) -> (r: bool)
    ensures
        r == list@.contains(n),
{
    let mut i: usize = 0;
    while i < list.len()
        invariant
            i <= list@.len(),
            forall|k: int| 0 <= k < i ==> #[trigger] list@[k] != n,
        decreases list@.len() - i,
    {
        if list[i] == n {
            proof {
                assert(list@[i as int] == n);
            }
            return true;
        }
        i = i + 1;
    }
    false
}

fn has_text(list: &Vec<String>, s: &str) -> (r: bool)
    ensures
        r == list.deep_view().contains(s@),
{
    let ghost all = list.deep_view();
    let mut i: usize = 0;
    while i < list.len()
        invariant
            i <= list@.len(),
            all == list.deep_view(),
            forall|k: int| 0 <= k < i ==> #[trigger] all[k] != s@,
        decreases list@.len() - i,
    {
        proof {
            assert(all[i as int] == list@[i as int]@);
        }
        if same(&list[i], s) {
            proof {
                assert(all.contains(s@));
            }
            return true;
        }
        i = i + 1;
    }
    false
}

fn threads_of(messages: &Vec<SmsMessage>) -> (r: Vec<i64>)
    ensures
        r@ == threads(messages@),
{
    let mut r: Vec<i64> = Vec::new();
    let mut i: usize = 0;
    proof {
        assert(messages@.take(0) =~= Seq::empty());
    }
    while i < messages.len()
        invariant
            i <= messages@.len(),
            r@ == threads(messages@.take(i as int)),
        decreases messages@.len() - i,
    {
        proof {
            assert(messages@.take(i + 1).drop_last() == messages@.take(i as int));
            assert(messages@.take(i + 1).last() == messages@[i as int]);
        }
        let t = messages[i].thread_id;
        if !has_number(&r, t) {
            r.push(t);
        }
        i = i + 1;
    }
    proof {
        assert(messages@.take(i as int) == messages@);
    }
    r
}

fn add_addresses(list: &mut Vec<String>, more: &Vec<SmsAddress>)
    ensures
        final(list).deep_view() == with_addresses(old(list).deep_view(), more@),
{
    let ghost start = list.deep_view();
    let mut i: usize = 0;
    proof {
        assert(more@.take(0) =~= Seq::empty());
    }
    while i < more.len()
        invariant
            i <= more@.len(),
            list.deep_view() == with_addresses(start, more@.take(i as int)),
        decreases more@.len() - i,
    {
        let ghost before = list.deep_view();
        proof {
            assert(more@.take(i + 1).drop_last() == more@.take(i as int));
            assert(more@.take(i + 1).last() == more@[i as int]);
        }
        if !has_text(list, &more[i].address) {
            list.push(more[i].address.clone());
            proof {
                assert(list.deep_view() =~= before.push(more@[i as int].address@));
            }
        }
        i = i + 1;
    }
    proof {
        assert(more@.take(i as int) == more@);
    }
}

fn conversation_of(messages: &Vec<SmsMessage>, thread_id: i64) -> (r: Conversation)
    requires
        exists|i: int|
            0 <= i < messages@.len() && (#[trigger] messages@[i]).thread_id == thread_id,
    ensures
        summarised(messages@, thread_id, r@),
{
    let mut lead: Option<usize> = None;
    let mut addresses: Vec<String> = Vec::new();
    let mut unread = false;
    let mut i: usize = 0;
    proof {
        assert(messages@.take(0) =~= Seq::empty());
        assert(addresses.deep_view() =~= Seq::<Seq<char>>::empty());
    }
    while i < messages.len()
        invariant
            i <= messages@.len(),
            addresses.deep_view() == roster(messages@.take(i as int), thread_id),
            unread == (exists|j: int|
                0 <= j < i && (#[trigger] messages@[j]).thread_id == thread_id
                    && messages@[j].read != 1),
            match lead {
                Some(n) => {
                    &&& n < i
                    &&& messages@[n as int].thread_id == thread_id
                    &&& forall|j: int|
                        0 <= j < i && (#[trigger] messages@[j]).thread_id == thread_id
                            ==> messages@[j].date <= messages@[n as int].date && (j < n
                            ==> messages@[j].date < messages@[n as int].date)
                },
                None => forall|j: int|
                    0 <= j < i ==> (#[trigger] messages@[j]).thread_id != thread_id,
            },
        decreases messages@.len() - i,
    {
        let m = &messages[i];
        proof {
            assert(messages@.take(i + 1).drop_last() == messages@.take(i as int));
            assert(messages@.take(i + 1).last() == messages@[i as int]);
        }
        if m.thread_id == thread_id {
            add_addresses(&mut addresses, &m.addresses);
            if m.read != 1 {
                unread = true;
            }
            let newer = match lead {
                Some(n) => m.date > messages[n].date,
                None => true,
            };
            if newer {
                lead = Some(i);
            }
        }
        i = i + 1;
    }
    proof {
        assert(messages@.take(i as int) == messages@);
    }
    let n: usize = match lead {
        Some(n) => n,
        None => 0,
    };
    let r = Conversation {
        thread_id: decimal_text(thread_id),
        contact_name: String::new(),
        phone_number: address_of(&messages[n]),
        addresses,
        last_message: messages[n].body.clone(),
        timestamp: messages[n].date,
        unread,
    };
    proof {
        assert(leads(messages@, thread_id, n as int));
        assert(r@ =~= made_up(messages@, thread_id, n as int));
    }
    r
}

proof fn lemma_thread_occurs(messages: Seq<SmsMessage>, k: int)
    requires
        0 <= k < threads(messages).len(),
    ensures
        exists|i: int|
            0 <= i < messages.len() && (#[trigger] messages[i]).thread_id == threads(messages)[k],
    decreases messages.len(),
{
    let init = messages.drop_last();
    if k < threads(init).len() {
        lemma_thread_occurs(init, k);
        let i = choose|i: int|
            0 <= i < init.len() && (#[trigger] init[i]).thread_id == threads(init)[k];
        assert(messages[i] == init[i]);
    } else {
        assert(messages[messages.len() - 1].thread_id == threads(messages)[k]);
    }
}

/// The messages as the window shows them, and the conversation that each thread
/// makes up.
#[verifier::rlimit(30)]
pub fn parse_sms_messages(messages: &Vec<SmsMessage>) -> (r: (Vec<Message>, Vec<Conversation>))
    ensures
        order::views(r.0@) == messages@.map_values(|m: SmsMessage| shown_message(m)),
        r.1@.len() == threads(messages@).len(),
        forall|k: int|
            0 <= k < r.1@.len() ==> summarised(
                messages@,
                threads(messages@)[k],
                (#[trigger] r.1@[k])@,
            ),
        r.0@.len() == messages@.len(),
        forall|i: int|
            #![trigger messages@[i]]
            0 <= i < messages@.len() ==> exists|k: int|
                #![trigger r.1@[k]]
                0 <= k < r.1@.len() && sums_up(messages@, messages@[i].thread_id, r.1@[k]@),
        forall|j: int, k: int|
            #![trigger r.1@[j], r.1@[k]]
            0 <= j < k < r.1@.len() ==> r.1@[j]@.thread_id != r.1@[k]@.thread_id,
{
    let mut shown: Vec<Message> = Vec::new();
    let mut i: usize = 0;
    while i < messages.len()
        invariant
            i <= messages@.len(),
            shown@.len() == i,
            forall|k: int| 0 <= k < i ==> (#[trigger] shown@[k])@ == shown_message(messages@[k]),
        decreases messages@.len() - i,
    {
        shown.push(show_message(&messages[i]));
        i = i + 1;
    }
    let ids = threads_of(messages);
    let mut conversations: Vec<Conversation> = Vec::new();
    let mut k: usize = 0;
    while k < ids.len()
        invariant
            k <= ids@.len(),
            ids@ == threads(messages@),
            conversations@.len() == k,
            forall|n: int|
                0 <= n < k ==> summarised(
                    messages@,
                    threads(messages@)[n],
                    (#[trigger] conversations@[n])@,
                ),
        decreases ids@.len() - k,
    {
        proof {
            lemma_thread_occurs(messages@, k as int);
        }
        conversations.push(conversation_of(messages, ids[k]));
        k = k + 1;
    }
    proof {
        assert(order::views(shown@) =~= messages@.map_values(|m: SmsMessage| shown_message(m)));
        let ts = threads(messages@);
        assert forall|i: int|
            #![trigger messages@[i]]
            0 <= i < messages@.len() implies exists|k: int|
            #![trigger conversations@[k]]
            0 <= k < conversations@.len() && sums_up(
                messages@,
                messages@[i].thread_id,
                conversations@[k]@,
            ) by {
            lemma_threads_cover(messages@, i);
            let k = choose|k: int| 0 <= k < ts.len() && ts[k] == messages@[i].thread_id;
            lemma_conversations_sum_up(messages@, ts[k], conversations@[k]@);
        }
        assert forall|j: int, k: int|
            #![trigger conversations@[j], conversations@[k]]
            0 <= j < k < conversations@.len() implies conversations@[j]@.thread_id
            != conversations@[k]@.thread_id by {
            lemma_threads_distinct(messages@);
            assert(ts[j] != ts[k]);
            lemma_conversations_sum_up(messages@, ts[j], conversations@[j]@);
            lemma_conversations_sum_up(messages@, ts[k], conversations@[k]@);
            text::lemma_number_reads_back(ts[j]);
            text::lemma_number_reads_back(ts[k]);
        }
    }
    (shown, conversations)
}

proof fn lemma_threads_cover(messages: Seq<SmsMessage>, i: int)
    requires
        0 <= i < messages.len(),
    ensures
        threads(messages).contains(messages[i].thread_id),
    decreases messages.len(),
{
    let init = messages.drop_last();
    let before = threads(init);
    if i < init.len() {
        lemma_threads_cover(init, i);
        let k = choose|k: int| 0 <= k < before.len() && before[k] == messages[i].thread_id;
        assert(threads(messages)[k] == messages[i].thread_id);
    } else if !before.contains(messages.last().thread_id) {
        assert(threads(messages)[before.len() as int] == messages[i].thread_id);
    }
}

proof fn lemma_threads_distinct(messages: Seq<SmsMessage>)
    ensures
        threads(messages).no_duplicates(),
    decreases messages.len(),
{
    if messages.len() > 0 {
        lemma_threads_distinct(messages.drop_last());
    }
}

/// Every message belongs to exactly one conversation.
pub proof fn lemma_one_conversation_each(messages: Seq<SmsMessage>, i: int)
    requires
        0 <= i < messages.len(),
    ensures
        exists|k: int|
            0 <= k < threads(messages).len() && #[trigger] threads(messages)[k]
                == messages[i].thread_id,
        forall|j: int, k: int|
            #![trigger threads(messages)[j], threads(messages)[k]]
            0 <= j < k < threads(messages).len() ==> threads(messages)[j] != threads(messages)[k],
{
    lemma_threads_cover(messages, i);
    lemma_threads_distinct(messages);
}

proof fn lemma_with_addresses(list: Seq<Seq<char>>, more: Seq<SmsAddress>)
    requires
        list.no_duplicates(),
    ensures
        with_addresses(list, more).no_duplicates(),
        forall|a: Seq<char>| #[trigger]
            with_addresses(list, more).contains(a) <==> list.contains(a) || exists|k: int|
                0 <= k < more.len() && (#[trigger] more[k]).address@ == a,
    decreases more.len(),
{
    if more.len() > 0 {
        let init = more.drop_last();
        let before = with_addresses(list, init);
        let x = more.last().address@;
        lemma_with_addresses(list, init);
        assert forall|a: Seq<char>| #[trigger]
            with_addresses(list, more).contains(a) <==> list.contains(a) || exists|k: int|
                0 <= k < more.len() && (#[trigger] more[k]).address@ == a by {
            if !before.contains(x) {
                crate::table::lemma_push_contains(before, x, a);
            }
            if exists|k: int| 0 <= k < init.len() && (#[trigger] init[k]).address@ == a {
                let k = choose|k: int| 0 <= k < init.len() && (#[trigger] init[k]).address@ == a;
                assert(more[k].address@ == a);
            }
            if exists|k: int| 0 <= k < more.len() && (#[trigger] more[k]).address@ == a {
                let k = choose|k: int| 0 <= k < more.len() && (#[trigger] more[k]).address@ == a;
                if k < init.len() {
                    assert(init[k].address@ == a);
                }
            }
            if a == x {
                assert(more[more.len() - 1].address@ == a);
            }
        }
    }
}

/// The address stands in some message of the thread.
pub open spec fn takes_part(messages: Seq<SmsMessage>, thread_id: i64, a: Seq<char>) -> bool {
    exists|i: int, k: int|
        #![trigger messages[i].addresses@[k]]
        0 <= i < messages.len() && messages[i].thread_id == thread_id && 0 <= k
            < messages[i].addresses@.len() && messages[i].addresses@[k].address@ == a
}

/// The roster of a thread names everyone who stands in one of its messages, and
/// each of them once.
pub proof fn lemma_roster_is_complete(messages: Seq<SmsMessage>, thread_id: i64)
    ensures
        roster(messages, thread_id).no_duplicates(),
        forall|a: Seq<char>| #[trigger]
            roster(messages, thread_id).contains(a) <==> takes_part(messages, thread_id, a),
    decreases messages.len(),
{
    if messages.len() > 0 {
        let init = messages.drop_last();
        let m = messages.last();
        let before = roster(init, thread_id);
        lemma_roster_is_complete(init, thread_id);
        if m.thread_id == thread_id {
            lemma_with_addresses(before, m.addresses@);
        }
        assert forall|a: Seq<char>| #[trigger]
            roster(messages, thread_id).contains(a) <==> takes_part(messages, thread_id, a) by {
            assert(before.contains(a) <==> takes_part(init, thread_id, a));
            if takes_part(init, thread_id, a) {
                let (i, k) = choose|i: int, k: int|
                    #![trigger init[i].addresses@[k]]
                    0 <= i < init.len() && init[i].thread_id == thread_id && 0 <= k
                        < init[i].addresses@.len() && init[i].addresses@[k].address@ == a;
                assert(messages[i].addresses@[k].address@ == a);
            }
            if takes_part(messages, thread_id, a) {
                let (i, k) = choose|i: int, k: int|
                    #![trigger messages[i].addresses@[k]]
                    0 <= i < messages.len() && messages[i].thread_id == thread_id && 0 <= k
                        < messages[i].addresses@.len() && messages[i].addresses@[k].address@ == a;
                if i < init.len() {
                    assert(init[i].addresses@[k].address@ == a);
                } else {
                    assert(m.addresses@[k].address@ == a);
                }
            }
            if m.thread_id == thread_id {
                if exists|k: int|
                    0 <= k < m.addresses@.len() && (#[trigger] m.addresses@[k]).address@ == a {
                    let k = choose|k: int|
                        0 <= k < m.addresses@.len() && (#[trigger] m.addresses@[k]).address@ == a;
                    assert(messages[messages.len() - 1].addresses@[k].address@ == a);
                }
            }
        }
    }
}

/// Sorted conversations come newest first, and sorted messages oldest first.
pub proof fn lemma_sorting_goes_by_date(
    conversations: Seq<ConversationModel>,
    messages: Seq<MessageModel>,
    i: int,
    j: int,
)
    ensures
        0 <= i < j < conversations.len() ==> order::sorted::<Conversation>(
            conversations,
        )[i].timestamp >= order::sorted::<Conversation>(conversations)[j].timestamp,
        0 <= i < j < messages.len() ==> order::sorted::<Message>(messages)[i].date
            <= order::sorted::<Message>(messages)[j].date,
{
    assert(order::ranks::<Conversation>());
    assert(order::ranks::<Message>());
    order::lemma_sorted::<Conversation>(conversations);
    order::lemma_sorted::<Message>(messages);
}

} // verus!
