//! What the window for text messages shows.

use vstd::prelude::*;

use crate::contacts;
use crate::contacts::{contact_name, normalize_phone_number, phone_numbers_match};
use crate::conversation;
use crate::conversation::{AttachmentModel, Conversation, ConversationModel, Message, MessageAttachment};
use crate::order;
use crate::paths;
use crate::paths::file_name_of;
use crate::sms_window;
use crate::sms_window::{message_window_start, SmsState, SmsWindow};
use crate::text;
use crate::text::{chars_of, contains, same, starts_with, text_of_range, to_lowercase, trim};

verus! {

/// How many characters of the last message a conversation shows.
pub const PREVIEW_MAX_CHARS: usize = 50;

/// A text cut to a number of characters, with an ellipsis where anything was
/// cut.
pub open spec fn preview(s: Seq<char>, max_chars: nat) -> Seq<char> {
    if s.len() <= max_chars {
        s
    } else {
        s.take(max_chars as int).push('\u{2026}')
    }
}

/// The text cut to the number of characters.
pub fn truncate_preview(s: &str, max_chars: usize) -> (r: String)
    ensures
        r@ == preview(s@, max_chars as nat),
        s@.len() <= max_chars ==> r@ == s@,
        s@.len() > max_chars ==> r@ == s@.take(max_chars as int).push('\u{2026}'),
{
    let v = chars_of(s);
    if v.len() <= max_chars {
        return s.to_owned();
    }
    let mut r = text_of_range(&v, 0, max_chars);
    proof {
        assert(v@.subrange(0, max_chars as int) =~= v@.take(max_chars as int));
    }
    r.push('\u{2026}');
    r
}

/// A preview is never longer than the limit and its ellipsis, and begins as the
/// text does.
pub proof fn lemma_preview_is_short(s: Seq<char>, max_chars: nat)
    ensures
        preview(s, max_chars).len() <= max_chars + 1,
        s.len() > max_chars ==> preview(s, max_chars).take(max_chars as int) == s.take(
            max_chars as int,
        ),
        s.len() <= max_chars ==> preview(s, max_chars) == s,
{
    if s.len() > max_chars {
        assert(preview(s, max_chars).take(max_chars as int) =~= s.take(max_chars as int));
    }
}

/// A text in runs of characters that are emoji and of such that are not.
pub open spec fn runs(s: Seq<char>, emoji: Seq<bool>) -> Seq<(Seq<char>, bool)>
    decreases s.len(),
{
    if s.len() == 0 {
        Seq::empty()
    } else {
        let before = runs(s.drop_last(), emoji.drop_last());
        if before.len() > 0 && before.last().1 == emoji.last() {
            before.update(
                before.len() - 1,
                (before.last().0.push(s.last()), before.last().1),
            )
        } else {
            before.push((seq![s.last()], emoji.last()))
        }
    }
}

/// The text in runs; `emoji` says of each character whether it is one.
pub fn emoji_runs(s: &str, emoji: &Vec<bool>) -> (r: Vec<(String, bool)>)
    requires
        emoji@.len() == s@.len(),
    ensures
        r.deep_view() == runs(s@, emoji@),
{
    let v = chars_of(s);
    let mut r: Vec<(String, bool)> = Vec::new();
    let mut i: usize = 0;
    proof {
        assert(r.deep_view() =~= runs(v@.take(0), emoji@.take(0)));
    }
    while i < v.len()
        invariant
            i <= v@.len(),
            v@.len() == emoji@.len(),
            r.deep_view() == runs(v@.take(i as int), emoji@.take(i as int)),
        decreases v@.len() - i,
    {
        let ghost before = r.deep_view();
        let ghost was = r@;
        proof {
            assert(v@.take(i + 1).drop_last() =~= v@.take(i as int));
            assert(emoji@.take(i + 1).drop_last() =~= emoji@.take(i as int));
            assert(v@.take(i + 1).last() == v@[i as int]);
            assert(emoji@.take(i + 1).last() == emoji@[i as int]);
            assert(before.len() == was.len());
        }
        let n = r.len();
        if n > 0 && r[n - 1].1 == emoji[i] {
            proof {
                assert(before.last() == (was[n - 1].0@, was[n - 1].1));
            }
            r[n - 1].0.push(v[i]);
            proof {
                assert(r.deep_view() =~= before.update(
                    before.len() - 1,
                    (before.last().0.push(v@[i as int]), before.last().1),
                ));
            }
        } else {
            proof {
                if n > 0 {
                    assert(before.last() == (was[n - 1].0@, was[n - 1].1));
                }
            }
            let mut one = String::new();
            one.push(v[i]);
            proof {
                assert(one@ =~= seq![v@[i as int]]);
            }
            r.push((one, emoji[i]));
            proof {
                assert(r.deep_view() =~= before.push((seq![v@[i as int]], emoji@[i as int])));
            }
        }
        i = i + 1;
    }
    proof {
        assert(v@.take(i as int) =~= v@);
        assert(emoji@.take(i as int) =~= emoji@);
    }
    r
}

/// The text of runs, one after the other.
pub open spec fn run_text(list: Seq<(Seq<char>, bool)>) -> Seq<char>
    decreases list.len(),
{
    if list.len() == 0 {
        Seq::empty()
    } else {
        run_text(list.drop_last()) + list.last().0
    }
}

/// Nothing of a text is lost in its runs, no run is empty, and neighbouring
/// runs differ.
pub proof fn lemma_runs_keep_the_text(s: Seq<char>, emoji: Seq<bool>)
    requires
        s.len() == emoji.len(),
    ensures
        run_text(runs(s, emoji)) == s,
        forall|i: int| 0 <= i < runs(s, emoji).len() ==> (#[trigger] runs(s, emoji)[i]).0.len() > 0,
        forall|i: int, j: int|
            #![trigger runs(s, emoji)[i], runs(s, emoji)[j]]
            0 <= i && j == i + 1 && j < runs(s, emoji).len() ==> runs(s, emoji)[i].1 != runs(
                s,
                emoji,
            )[j].1,
    decreases s.len(),
{
    if s.len() > 0 {
        let before = runs(s.drop_last(), emoji.drop_last());
        let now = runs(s, emoji);
        lemma_runs_keep_the_text(s.drop_last(), emoji.drop_last());
        assert(s.drop_last().push(s.last()) =~= s);
        if before.len() > 0 && before.last().1 == emoji.last() {
            assert(now.drop_last() =~= before.drop_last());
            assert(run_text(now) =~= run_text(before).push(s.last()));
        } else {
            assert(now.drop_last() =~= before);
            assert(run_text(now) =~= run_text(before).push(s.last()));
        }
    }
}

/// Whether a conversation meets the search: by its name in any case, by its
/// number as written, or by the digits of its number.
pub open spec fn matches_search(s: SmsState, c: ConversationModel) -> bool {
    ||| s.search_query_lower.len() == 0
    ||| text::occurs(text::lowercased(c.contact_name), s.search_query_lower)
    ||| text::occurs(c.phone_number, s.search_query)
    ||| text::occurs(contacts::normalized(c.phone_number), contacts::normalized(s.search_query))
}

/// One conversation in the list.
#[derive(Debug, PartialEq, Eq)]
pub struct ConversationRow {
    pub thread_id: String,
    pub name: String,
    pub unread: bool,
    pub selected: bool,
    pub preview: String,
    pub timestamp: i64,
    pub photo: Option<u64>,
}

/// One conversation in the list, as a value.
pub struct RowModel {
    pub thread_id: Seq<char>,
    pub name: Seq<char>,
    pub unread: bool,
    pub selected: bool,
    pub preview: Seq<char>,
    pub timestamp: i64,
    pub photo: Option<u64>,
}

impl View for ConversationRow {
    type V = RowModel;

    open spec fn view(&self) -> RowModel {
        RowModel {
            thread_id: self.thread_id@,
            name: self.name@,
            unread: self.unread,
            selected: self.selected,
            preview: self.preview@,
            timestamp: self.timestamp,
            photo: self.photo,
        }
    }
}

/// The picture of the contact with a phone number.
pub open spec fn photo_of(s: SmsState, phone: Seq<char>) -> Option<u64> {
    let digits = contacts::normalized(phone);
    if s.photos.contains_key(digits) {
        Some(s.photos[digits])
    } else {
        None
    }
}

/// A conversation in the list.
pub open spec fn row_of(s: SmsState, c: ConversationModel) -> RowModel {
    RowModel {
        thread_id: c.thread_id,
        name: conversation::shown_name(c),
        unread: sms_window::is_unread(s.last_seen, c),
        selected: s.selected_thread == Some(c.thread_id),
        preview: preview(c.last_message, PREVIEW_MAX_CHARS as nat),
        timestamp: c.timestamp,
        photo: photo_of(s, c.phone_number),
    }
}

/// The conversations that meet the search, in order.
pub open spec fn rows(s: SmsState, list: Seq<ConversationModel>) -> Seq<RowModel>
    decreases list.len(),
{
    if list.len() == 0 {
        Seq::empty()
    } else {
        let before = rows(s, list.drop_last());
        if matches_search(s, list.last()) {
            before.push(row_of(s, list.last()))
        } else {
            before
        }
    }
}

/// What stands in place of an empty list.
#[derive(Debug, Clone, Copy, PartialEq, Eq, Structural)]
pub enum EmptyNote {
    NoConversations,
    NoMatchingConversations,
}

/// The list of conversations.
#[derive(Debug, PartialEq, Eq)]
pub struct ConversationList {
    pub has_contacts: bool,
    pub can_start_chat: bool,
    pub rows: Vec<ConversationRow>,
    pub note: Option<EmptyNote>,
}

/// What the panel beside the list shows.
#[derive(Debug, Clone, Copy, PartialEq, Eq, Structural)]
pub enum ThreadPanel {
    NothingSelected,
    NotFound,
    /// The conversation at this place in the list.
    Thread(usize),
}

/// What stands above the messages of a conversation.
#[derive(Debug, PartialEq, Eq)]
pub struct ThreadHeader {
    pub name: String,
    pub phone_number: String,
    pub photo: Option<u64>,
}

/// Which messages of the open thread are shown.
#[derive(Debug, Clone, Copy, PartialEq, Eq, Structural)]
pub enum MessagePage {
    /// None has come yet.
    Waiting,
    /// Those from this one on. Where older ones are left out, they can be asked
    /// for.
    From { first: usize, load_more: bool },
}

/// How an attachment is shown.
#[derive(Debug, PartialEq, Eq)]
pub enum AttachmentView {
    /// A video that was received, to open or to save.
    OpenVideo { path: String },
    /// A picture that was received, to save.
    Picture { path: String },
    /// The preview that the phone sent, or a card in its place. Where the full
    /// file can be asked for, its identifier is given.
    Preview { card: Option<CardKind>, request: Option<(i64, String)> },
}

/// What a card in place of a preview says.
#[derive(Debug, Clone, Copy, PartialEq, Eq, Structural)]
pub enum CardKind {
    Video,
    Photo,
    Other,
}

/// What the card of an attachment says.
pub open spec fn card_of(mime_type: Seq<char>) -> CardKind {
    if text::begins(mime_type, "video/"@) {
        CardKind::Video
    } else if text::begins(mime_type, "image/"@) {
        CardKind::Photo
    } else {
        CardKind::Other
    }
}

/// How an attachment is shown.
pub open spec fn shows(a: AttachmentModel, v: AttachmentView) -> bool {
    match a.full_path {
        Some(p) => if text::begins(a.mime_type, "video/"@) {
            v matches AttachmentView::OpenVideo { path } && path@ == p
        } else {
            v matches AttachmentView::Picture { path } && path@ == p
        },
        None => {
            &&& v matches AttachmentView::Preview { card, request }
            &&& card == (if a.thumbnail is Some && a.thumbnail->0.len() > 0 {
                None
            } else {
                Some(card_of(a.mime_type))
            })
            &&& match request {
                Some((part_id, uid)) => part_id == a.part_id && a.unique_identifier == Some(uid@),
                None => a.unique_identifier is None,
            }
        },
    }
}

/// How the attachment is shown.
pub fn view_attachment(attachment: &MessageAttachment) -> (r: AttachmentView)
    ensures
        shows(attachment@, r),
        (match attachment@.full_path {
        Some(p) => if text::begins(attachment@.mime_type, "video/"@) {
            r matches AttachmentView::OpenVideo { path } && path@ == p
        } else {
            r matches AttachmentView::Picture { path } && path@ == p
        },
        None => {
            &&& r matches AttachmentView::Preview { card, request }
            &&& card == (if attachment@.thumbnail is Some && attachment@.thumbnail->0.len() > 0 {
                None
            } else {
                Some(
                    if text::begins(attachment@.mime_type, "video/"@) {
                        CardKind::Video
                    } else if text::begins(attachment@.mime_type, "image/"@) {
                        CardKind::Photo
                    } else {
                        CardKind::Other
                    },
                )
            })
            &&& match request {
                Some((part_id, uid)) => part_id == attachment@.part_id && attachment@.unique_identifier == Some(uid@),
                None => attachment@.unique_identifier is None,
            }
        },
    }),
{
    if let Some(path) = &attachment.full_path {
        return if attachment.is_video() {
            AttachmentView::OpenVideo { path: path.clone() }
        } else {
            AttachmentView::Picture { path: path.clone() }
        };
    }
    let pictured = match &attachment.thumbnail {
        Some(t) => {
            proof {
                assert(t.deep_view() =~= t@);
            }
            t.len() > 0
        },
        None => false,
    };
    let card = if pictured {
        None
    } else {
        Some(attachment_card(attachment))
    };
    let request = match &attachment.unique_identifier {
        Some(uid) => Some((attachment.part_id, uid.clone())),
        None => None,
    };
    AttachmentView::Preview { card, request }
}

fn attachment_card(attachment: &MessageAttachment) -> (r: CardKind)
    ensures
        r == card_of(attachment@.mime_type),
{
    if attachment.is_video() {
        CardKind::Video
    } else if starts_with(&attachment.mime_type, "image/") {
        CardKind::Photo
    } else {
        CardKind::Other
    }
}

/// How many emoji stand in a row of the picker.
pub const EMOJI_PER_ROW: usize = 8;

/// How many rows the emoji fill.
pub open spec fn row_count(n: nat) -> nat {
    ((n + EMOJI_PER_ROW - 1) / EMOJI_PER_ROW as int) as nat
}

/// The emoji of a category in rows: all rows are full but for the last.
pub fn emoji_rows(emoji: &Vec<String>) -> (r: Vec<Vec<String>>)
    ensures
        r@.len() == row_count(emoji@.len()),
        r@.len() == (emoji@.len() + 7) / 8,
        forall|i: int, j: int|
            #![trigger r@[i]@[j]]
            0 <= i < r@.len() && 0 <= j < r@[i]@.len() ==> r@[i]@[j]@ == emoji@[i * EMOJI_PER_ROW
                + j]@,
        forall|i: int|
            0 <= i < r@.len() ==> (#[trigger] r@[i])@.len() == (if i + 1 < r@.len() {
                EMOJI_PER_ROW as int
            } else {
                emoji@.len() - i * EMOJI_PER_ROW
            }),
{
    let mut r: Vec<Vec<String>> = Vec::new();
    let mut i: usize = 0;
    while i < emoji.len()
        invariant
            i <= emoji@.len(),
            i == r@.len() * EMOJI_PER_ROW || i == emoji@.len(),
            r@.len() == row_count(i as nat),
            forall|k: int, j: int|
                #![trigger r@[k]@[j]]
                0 <= k < r@.len() && 0 <= j < r@[k]@.len() ==> r@[k]@[j]@ == emoji@[k
                    * EMOJI_PER_ROW + j]@,
            forall|k: int|
                0 <= k < r@.len() ==> (#[trigger] r@[k])@.len() == (if k + 1 < r@.len() {
                    EMOJI_PER_ROW as int
                } else {
                    i - k * EMOJI_PER_ROW
                }),
        decreases emoji@.len() - i,
    {
        let mut row: Vec<String> = Vec::new();
        let ghost start = i;
        while i < emoji.len() && row.len() < EMOJI_PER_ROW
            invariant
                start <= i <= emoji@.len(),
                row@.len() == i - start,
                row@.len() <= EMOJI_PER_ROW,
                forall|j: int| 0 <= j < row@.len() ==> (#[trigger] row@[j])@ == emoji@[start + j]@,
            decreases emoji@.len() - i,
        {
            row.push(emoji[i].clone());
            i = i + 1;
        }
        r.push(row);
    }
    r
}

/// The name of the contact, or the number.
pub open spec fn label_of(s: SmsState, phone: Seq<char>) -> Seq<char> {
    contacts::participant(s.contacts_by_phone, phone)
}

/// The number of the open conversation.
pub open spec fn open_phone(s: SmsState) -> Option<Seq<char>> {
    match s.selected_thread {
        Some(t) => if sms_window::has_thread(s.conversations, t) {
            Some(s.conversations[sms_window::thread_at(s.conversations, t)].phone_number)
        } else {
            None
        },
        None => None,
    }
}

impl SmsWindow {
    fn matches(&self, c: &Conversation) -> (r: bool)
        ensures
            r == matches_search(self@, c@),
    {
        self.search_query_lower.as_str().is_empty() || contains(
            &to_lowercase(&c.contact_name),
            &self.search_query_lower,
        ) || contains(&c.phone_number, &self.search_query) || contains(
            &normalize_phone_number(&c.phone_number),
            &normalize_phone_number(&self.search_query),
        )
    }

    /// Whether the conversation is marked as unread.
    pub fn is_conversation_unread(&self, c: &Conversation) -> (r: bool)
        requires
            self.wf(),
        ensures
            r == sms_window::is_unread(self@.last_seen, c@),
            self@.last_seen.contains_key(c@.thread_id) ==> (r <==> c.timestamp
                > self@.last_seen[c@.thread_id]),
            !self@.last_seen.contains_key(c@.thread_id) ==> r == c.unread,
    {
        match self.last_seen_timestamp.get(&c.thread_id) {
            Some(seen_at) => c.timestamp > *seen_at,
            None => c.unread,
        }
    }

    /// The picture of the contact with the phone number.
    pub fn get_contact_photo(&self, phone_number: &str) -> (r: Option<u64>)
        requires
            self.wf(),
        ensures
            r == photo_of(self@, phone_number@),
            self@.photos.contains_key(contacts::normalized(phone_number@)) ==> r == Some(
                self@.photos[contacts::normalized(phone_number@)],
            ),
            !self@.photos.contains_key(contacts::normalized(phone_number@)) ==> r is None,
    {
        match self.contact_photo_handles.get(&normalize_phone_number(phone_number)) {
            Some(h) => Some(*h),
            None => None,
        }
    }

    /// The name of the contact with the phone number.
    pub fn get_contact_name(&self, phone_number: &str) -> (r: Option<String>)
        requires
            self.wf(),
        ensures
            r.deep_view() == contacts::name_of(self@.contacts_by_phone, phone_number@),
    {
        contact_name(&self.contacts_by_phone, phone_number)
    }

    fn row(&self, c: &Conversation) -> (r: ConversationRow)
        requires
            self.wf(),
        ensures
            r@ == row_of(self@, c@),
    {
        let selected = match &self.selected_thread {
            Some(t) => same(t, &c.thread_id),
            None => false,
        };
        ConversationRow {
            thread_id: c.thread_id.clone(),
            name: c.display_name(),
            unread: self.is_conversation_unread(c),
            selected,
            preview: truncate_preview(&c.last_message, PREVIEW_MAX_CHARS),
            timestamp: c.timestamp,
            photo: self.get_contact_photo(&c.phone_number),
        }
    }

    /// The list of conversations that meet the search.
    pub fn view_conversations_list(&self) -> (r: ConversationList)
        requires
            self.wf(),
        ensures
            r.has_contacts == (self@.contacts.len() > 0),
            r.can_start_chat == (text::trimmed(self@.new_chat_phone_input).len() > 0),
            order::views(r.rows@) == rows(self@, self@.conversations),
            r.note == (if r.rows@.len() > 0 {
                None
            } else if self@.search_query.len() == 0 {
                Some(EmptyNote::NoConversations)
            } else {
                Some(EmptyNote::NoMatchingConversations)
            }),
    {
        let ghost s = self@;
        let ghost all = s.conversations;
        let mut list: Vec<ConversationRow> = Vec::new();
        let mut i: usize = 0;
        proof {
            assert(order::views(list@) =~= rows(s, all.take(0)));
        }
        while i < self.conversations.len()
            invariant
                i <= self.conversations@.len(),
                self.wf(),
                s == self@,
                all == s.conversations,
                order::views(list@) == rows(s, all.take(i as int)),
            decreases self.conversations@.len() - i,
        {
            let ghost before = order::views(list@);
            proof {
                assert(all.take(i + 1).drop_last() =~= all.take(i as int));
                assert(all.take(i + 1).last() == self.conversations@[i as int]@);
            }
            if self.matches(&self.conversations[i]) {
                list.push(self.row(&self.conversations[i]));
                proof {
                    assert(order::views(list@) =~= before.push(
                        row_of(s, self.conversations@[i as int]@),
                    ));
                }
            }
            i = i + 1;
        }
        proof {
            assert(all.take(i as int) =~= all);
        }
        let note = if list.len() > 0 {
            None
        } else if self.search_query.as_str().is_empty() {
            Some(EmptyNote::NoConversations)
        } else {
            Some(EmptyNote::NoMatchingConversations)
        };
        ConversationList {
            has_contacts: self.contacts.len() > 0,
            can_start_chat: !trim(&self.new_chat_phone_input).as_str().is_empty(),
            rows: list,
            note,
        }
    }

    /// What the panel beside the list shows.
    pub fn view_thread_panel(&self) -> (r: ThreadPanel)
        ensures
            match self@.selected_thread {
                None => r is NothingSelected,
                Some(t) => if sms_window::has_thread(self@.conversations, t) {
                    r matches ThreadPanel::Thread(i) && i == sms_window::thread_at(
                        self@.conversations,
                        t,
                    )
                } else {
                    r is NotFound
                },
            },
    {
        match &self.selected_thread {
            None => ThreadPanel::NothingSelected,
            Some(t) => {
                let ghost all = self@.conversations;
                let ghost p = |c: ConversationModel| c.thread_id == t@;
                let mut i: usize = 0;
                while i < self.conversations.len() && !same(&self.conversations[i].thread_id, t)
                    invariant
                        i <= self.conversations@.len(),
                        all == order::views(self.conversations@),
                        p == (|c: ConversationModel| c.thread_id == t@),
                        forall|j: int| 0 <= j < i ==> !p(#[trigger] all[j]),
                    decreases self.conversations@.len() - i,
                {
                    proof {
                        assert(all[i as int] == self.conversations@[i as int]@);
                    }
                    i = i + 1;
                }
                proof {
                    if i < self.conversations@.len() {
                        assert(all[i as int] == self.conversations@[i as int]@);
                    }
                    order::lemma_first_where(all, p, i as int);
                }
                if i < self.conversations.len() {
                    ThreadPanel::Thread(i)
                } else {
                    ThreadPanel::NotFound
                }
            },
        }
    }

    /// What stands above the messages of a conversation.
    pub fn view_thread_header(&self, c: &Conversation) -> (r: ThreadHeader)
        requires
            self.wf(),
        ensures
            r.name@ == conversation::shown_name(c@),
            r.phone_number@ == c@.phone_number,
            r.photo == photo_of(self@, c@.phone_number),
    {
        ThreadHeader {
            name: c.display_name(),
            phone_number: c.phone_number.clone(),
            photo: self.get_contact_photo(&c.phone_number),
        }
    }

    /// Which messages of the open thread are shown.
    pub fn view_messages_list(&self) -> (r: MessagePage)
        ensures
            self@.messages.len() == 0 ==> r is Waiting,
            self@.messages.len() > 0 ==> (r matches MessagePage::From { first, load_more } && {
                &&& first == sms_window::window_start(
                    self@.messages.len(),
                    self@.messages_window_size as nat,
                )
                &&& load_more == (first > 0)
            }),
    {
        if self.messages.len() == 0 {
            return MessagePage::Waiting;
        }
        let first = message_window_start(self.messages.len(), self.messages_window_size);
        MessagePage::From { first, load_more: first > 0 }
    }

    fn current_phone(&self) -> (r: Option<String>)
        ensures
            r.deep_view() == open_phone(self@),
    {
        match self.view_thread_panel() {
            ThreadPanel::Thread(i) => Some(self.conversations[i].phone_number.clone()),
            _ => None,
        }
    }

    /// The sender that a message is shown with: that of the conversation, or
    /// else of the message. What was sent from here shows none.
    pub fn sender_label(&self, msg: &Message) -> (r: Option<String>)
        requires
            self.wf(),
        ensures
            r.deep_view() == (if msg.type_ == 2 {
                None
            } else {
                match open_phone(self@) {
                    Some(p) => Some(label_of(self@, p)),
                    None => Some(label_of(self@, msg@.address)),
                }
            }),
    {
        if msg.is_sent() {
            return None;
        }
        let phone = match self.current_phone() {
            Some(p) => p,
            None => msg.address.clone(),
        };
        match self.get_contact_name(&phone) {
            Some(name) => Some(name),
            None => Some(phone),
        }
    }

    /// The names of the files that are waiting to be sent.
    pub fn view_pending_attachments(&self) -> (r: Vec<String>)
        ensures
            r.deep_view() == self@.pending_attachments.map_values(
                |p: Seq<char>|
                    match paths::file_name(p) {
                        Some(name) => name,
                        None => p,
                    },
            ),
    {
        let mut r: Vec<String> = Vec::new();
        let mut i: usize = 0;
        while i < self.pending_attachments.len()
            invariant
                i <= self.pending_attachments@.len(),
                r@.len() == i,
                forall|k: int|
                    0 <= k < i ==> (#[trigger] r@[k])@ == (match paths::file_name(
                        self.pending_attachments@[k]@,
                    ) {
                        Some(name) => name,
                        None => self.pending_attachments@[k]@,
                    }),
            decreases self.pending_attachments@.len() - i,
        {
            let name = match file_name_of(&self.pending_attachments[i]) {
                Some(n) => n,
                None => self.pending_attachments[i].clone(),
            };
            r.push(name);
            i = i + 1;
        }
        proof {
            assert(r.deep_view() =~= self@.pending_attachments.map_values(
                |p: Seq<char>|
                    match paths::file_name(p) {
                        Some(name) => name,
                        None => p,
                    },
            ));
        }
        r
    }

    /// The name in the question whether to delete a conversation, where that
    /// question is open: that of the first contact with its number, or the
    /// number, or nothing where the conversation is gone.
    pub fn delete_confirm_dialog(&self) -> (r: Option<String>)
        ensures
            r is Some <==> self@.pending_delete_thread is Some,
            r is Some ==> r->0@ == delete_label(self@, self@.pending_delete_thread->0),
    {
        let thread_id = match &self.pending_delete_thread {
            Some(t) => t,
            None => {
                return None;
            },
        };
        let ghost all = self@.conversations;
        let ghost p = |c: ConversationModel| c.thread_id == thread_id@;
        let mut i: usize = 0;
        while i < self.conversations.len() && !same(&self.conversations[i].thread_id, thread_id)
            invariant
                i <= self.conversations@.len(),
                all == order::views(self.conversations@),
                p == (|c: ConversationModel| c.thread_id == thread_id@),
                forall|j: int| 0 <= j < i ==> !p(#[trigger] all[j]),
            decreases self.conversations@.len() - i,
        {
            proof {
                assert(all[i as int] == self.conversations@[i as int]@);
            }
            i = i + 1;
        }
        proof {
            if i < self.conversations@.len() {
                assert(all[i as int] == self.conversations@[i as int]@);
            }
            order::lemma_first_where(all, p, i as int);
        }
        if i >= self.conversations.len() {
            return Some(String::new());
        }
        let phone = &self.conversations[i].phone_number;
        let ghost list = self@.contacts;
        let ghost q = |c: (Seq<char>, Seq<char>)| sms_window::same_phone(phone@, c.0);
        let mut k: usize = 0;
        while k < self.contacts.len() && !phone_numbers_match(phone, &self.contacts[k].0)
            invariant
                k <= self.contacts@.len(),
                list == order::views(self.contacts@),
                q == (|c: (Seq<char>, Seq<char>)| sms_window::same_phone(phone@, c.0)),
                forall|j: int| 0 <= j < k ==> !q(#[trigger] list[j]),
            decreases self.contacts@.len() - k,
        {
            proof {
                assert(list[k as int] == self.contacts@[k as int]@);
            }
            k = k + 1;
        }
        proof {
            if k < self.contacts@.len() {
                assert(list[k as int] == self.contacts@[k as int]@);
            }
            order::lemma_first_where(list, q, k as int);
        }
        if k < self.contacts.len() {
            Some(self.contacts[k].1.clone())
        } else {
            Some(phone.clone())
        }
    }
}

/// The name in the question whether to delete the conversation of a thread.
pub open spec fn delete_label(s: SmsState, thread_id: Seq<char>) -> Seq<char> {
    if sms_window::has_thread(s.conversations, thread_id) {
        let phone = s.conversations[sms_window::thread_at(
            s.conversations,
            thread_id,
        )].phone_number;
        let at = order::first_where(
            s.contacts,
            |c: (Seq<char>, Seq<char>)| sms_window::same_phone(phone, c.0),
        );
        if at < s.contacts.len() {
            s.contacts[at].1
        } else {
            phone
        }
    } else {
        Seq::empty()
    }
}

/// At most the window's number of messages is shown, and the newest always is.
pub proof fn lemma_window_shows_the_newest(total: nat, window_size: nat)
    ensures
        total - sms_window::window_start(total, window_size) <= window_size,
        total > 0 && window_size > 0 ==> sms_window::window_start(total, window_size) < total,
{
}

/// Asking for older messages shows more of them, until all are shown.
pub proof fn lemma_older_messages_come_into_view(total: nat, window_size: nat, more: nat)
    requires
        more > 0,
        sms_window::window_start(total, window_size) > 0,
    ensures
        sms_window::window_start(total, window_size + more) < sms_window::window_start(
            total,
            window_size,
        ),
{
}

/// What the search finds: everything while it is empty, and otherwise the
/// conversations whose name holds what is looked for in any case, or whose number
/// does, as written or by its digits.
pub proof fn lemma_search(s: SmsState, c: ConversationModel)
    ensures
        s.search_query_lower.len() == 0 ==> matches_search(s, c),
        text::occurs(text::lowercased(c.contact_name), s.search_query_lower) ==> matches_search(s, c),
        text::occurs(c.phone_number, s.search_query) ==> matches_search(s, c),
        text::occurs(
            contacts::normalized(c.phone_number),
            contacts::normalized(s.search_query),
        ) ==> matches_search(s, c),
        matches_search(s, c) ==> s.search_query_lower.len() == 0 || text::occurs(
            text::lowercased(c.contact_name),
            s.search_query_lower,
        ) || text::occurs(c.phone_number, s.search_query) || text::occurs(
            contacts::normalized(c.phone_number),
            contacts::normalized(s.search_query),
        ),
{
}

/// What the row of a conversation shows.
pub proof fn lemma_rows_show_their_conversation(s: SmsState, c: ConversationModel)
    ensures
        ({
            let r = row_of(s, c);
            &&& r.thread_id == c.thread_id
            &&& c.contact_name.len() > 0 ==> r.name == c.contact_name
            &&& c.contact_name.len() == 0 ==> r.name == c.phone_number
            &&& r.selected <==> s.selected_thread == Some(c.thread_id)
            &&& r.timestamp == c.timestamp
            &&& c.last_message.len() <= 50 ==> r.preview == c.last_message
            &&& c.last_message.len() > 50 ==> r.preview == c.last_message.take(50).push('\u{2026}')
            &&& s.last_seen.contains_key(c.thread_id) ==> (r.unread <==> c.timestamp
                > s.last_seen[c.thread_id])
            &&& !s.last_seen.contains_key(c.thread_id) ==> r.unread == c.unread
            &&& s.photos.contains_key(contacts::normalized(c.phone_number)) ==> r.photo == Some(
                s.photos[contacts::normalized(c.phone_number)],
            )
        }),
{
}

/// The list shows every conversation that meets the search, in its place, and no
/// other.
pub proof fn lemma_lists_show_what_is_found(
    s: SmsState,
    list: Seq<ConversationModel>,
    c: ConversationModel,
)
    ensures
        matches_search(s, c) ==> rows(s, list.push(c)) == rows(s, list).push(row_of(s, c)),
        !matches_search(s, c) ==> rows(s, list.push(c)) == rows(s, list),
        rows(s, Seq::empty()).len() == 0,
{
    assert(list.push(c).drop_last() =~= list);
}

/// The sender of a message in an open conversation goes by the number of the
/// conversation; the question whether to delete a conversation names the first
/// contact with its number, and otherwise the number.
pub proof fn lemma_numbers_are_named(s: SmsState, i: int, k: int)
    requires
        0 <= i < s.conversations.len(),
        forall|j: int|
            0 <= j < i ==> (#[trigger] s.conversations[j]).thread_id != s.conversations[i].thread_id,
    ensures
        s.selected_thread == Some(s.conversations[i].thread_id) ==> open_phone(s) == Some(
            s.conversations[i].phone_number,
        ),
        s.selected_thread is None ==> open_phone(s) is None,
        0 <= k < s.contacts.len() && contacts::normalized(s.contacts[k].0) == contacts::normalized(
            s.conversations[i].phone_number,
        ) && (forall|j: int|
            0 <= j < k ==> contacts::normalized((#[trigger] s.contacts[j]).0)
                != contacts::normalized(s.conversations[i].phone_number)) ==> delete_label(
            s,
            s.conversations[i].thread_id,
        ) == s.contacts[k].1,
        (forall|j: int|
            0 <= j < s.contacts.len() ==> contacts::normalized((#[trigger] s.contacts[j]).0)
                != contacts::normalized(s.conversations[i].phone_number)) ==> delete_label(
            s,
            s.conversations[i].thread_id,
        ) == s.conversations[i].phone_number,
{
    let t = s.conversations[i].thread_id;
    let phone = s.conversations[i].phone_number;
    order::lemma_first_where(s.conversations, |c: ConversationModel| c.thread_id == t, i);
    let q = |c: (Seq<char>, Seq<char>)| sms_window::same_phone(phone, c.0);
    if 0 <= k < s.contacts.len() && contacts::normalized(s.contacts[k].0) == contacts::normalized(
        phone,
    ) && (forall|j: int|
        0 <= j < k ==> contacts::normalized((#[trigger] s.contacts[j]).0) != contacts::normalized(
            phone,
        )) {
        order::lemma_first_where(s.contacts, q, k);
    }
    if forall|j: int|
        0 <= j < s.contacts.len() ==> contacts::normalized((#[trigger] s.contacts[j]).0)
            != contacts::normalized(phone) {
        order::lemma_first_where(s.contacts, q, s.contacts.len() as int);
    }
}

/// A sender goes by the name of the contact, as in a group.
pub proof fn lemma_senders_are_named(s: SmsState, phone: Seq<char>)
    ensures
        contacts::name_of(s.contacts_by_phone, phone) is Some ==> label_of(s, phone)
            == contacts::name_of(s.contacts_by_phone, phone)->0,
        contacts::name_of(s.contacts_by_phone, phone) is None ==> label_of(s, phone) == phone,
{
}

} // verus!
