//! The decisions of the chat client: composing a message and its attachments' metadata,
//! reading the chat route, opening the messages of a conversation, and choosing the members of
//! a new group.
use vstd::prelude::*;

use crate::hybrid::{
    answers_for, choice_spec, decrypt_message_accepting, fallback_spec, message_views, try_decrypt_message, FallbackChoice,
    InboundMessagePayload, MessageView, TrackView,
};
use crate::files::attachment_nonce_field;
use crate::primitives::{b64_encode, base64_encode, uuid_from_text, uuid_parse};
use crate::text::{chars_of, contains_spec, contains_text, is_blank, is_blank_spec, text_eq, trim, trim_spec};
use vstd::utf8::encode_utf8;

verus! {

/// Why a message cannot be sent.
#[derive(Clone, Copy, PartialEq, Eq, Structural, Debug)]
pub enum ComposeError {
    /// Neither text nor files.
    EmptyMessage,
}

impl ComposeError {
    /// The text shown for the error.
    pub fn message(&self) -> (r: String)
        ensures
            r@ == "Message cannot be empty."@,
    {
        String::from_str("Message cannot be empty.")
    }
}

/// The text that a message carries: refused when it is blank and no file goes with it; a single
/// space when it is blank but files go with it; else the text as typed.
pub open spec fn compose_spec(content: Seq<char>, file_count: nat) -> Result<Seq<char>, ComposeError> {
    if is_blank_spec(content) {
        if file_count == 0 {
            Err(ComposeError::EmptyMessage)
        } else {
            Ok(" "@)
        }
    } else {
        Ok(content)
    }
}

/// Law of composing: text that is not blank is sent exactly as typed, whatever files go with it;
/// the number of files matters only for blank text, which is refused exactly when no file goes with
/// it.
pub proof fn lemma_compose_keeps_typed_text(content: Seq<char>, file_count: nat, other_count: nat)
    ensures
        !is_blank_spec(content) ==> compose_spec(content, file_count) == Ok::<Seq<char>, ComposeError>(content),
        !is_blank_spec(content) ==> compose_spec(content, file_count) == compose_spec(content, other_count),
        compose_spec(content, file_count) is Err <==> is_blank_spec(content) && file_count == 0,
{
}

/// The text that a message with `file_count` attached files carries.
pub fn compose_message_text(content: &str, file_count: usize) -> (r: Result<String, ComposeError>)
    ensures
        match compose_spec(content@, file_count as nat) {
            Ok(t) => r matches Ok(s) && s@ == t,
            Err(e) => r == Err::<String, ComposeError>(e),
        },
{
    if is_blank(content) {
        if file_count == 0 {
            Err(ComposeError::EmptyMessage)
        } else {
            Ok(String::from_str(" "))
        }
    } else {
        Ok(String::from_str(content))
    }
}

/// The metadata of an attached file that travels inside an encrypted message.
pub struct AttachmentMeta {
    pub file_name: String,
    pub file_size: i32,
    pub file_type: String,
    pub storage_url: String,
    /// The file's secret key, in base64.
    pub file_key: String,
    /// The nonce field: the base64 of the nonce's base64 text.
    pub nonce_base: String,
}

/// An attached file as a received message shows it.
pub struct Attachment {
    pub file_name: String,
    pub file_size: i32,
    pub file_type: String,
    pub storage_url: String,
    pub file_key: String,
    pub nonce_base: String,
}

/// The metadata of a file sealed under `file_secret_key`, whose nonce `encrypt_raw_file_bytes`
/// gave as the base64 text `nonce_base`, and which was stored at `storage_url`.
pub fn attachment_meta(
    file_name: String,
    file_type: String,
    file_size: i32,
    storage_url: String,
    file_secret_key: &[u8; 32],
    nonce_base: &str,
) -> (m: AttachmentMeta)
    ensures
        m.file_name == file_name,
        m.file_type == file_type,
        m.file_size == file_size,
        m.storage_url == storage_url,
        m.file_key@ == b64_encode(file_secret_key@),
        m.nonce_base@ == b64_encode(encode_utf8(nonce_base@)),
{
    AttachmentMeta {
        file_name,
        file_size,
        file_type,
        storage_url,
        file_key: base64_encode(file_secret_key.as_slice()),
        nonce_base: attachment_nonce_field(nonce_base),
    }
}

/// The attachment that a received message shows for a piece of metadata: the same fields.
pub fn attachment_from_meta(meta: AttachmentMeta) -> (a: Attachment)
    ensures
        a.file_name == meta.file_name,
        a.file_size == meta.file_size,
        a.file_type == meta.file_type,
        a.storage_url == meta.storage_url,
        a.file_key == meta.file_key,
        a.nonce_base == meta.nonce_base,
{
    Attachment {
        file_name: meta.file_name,
        file_size: meta.file_size,
        file_type: meta.file_type,
        storage_url: meta.storage_url,
        file_key: meta.file_key,
        nonce_base: meta.nonce_base,
    }
}

/// Why a search cannot be made.
#[derive(Clone, Copy, PartialEq, Eq, Structural, Debug)]
pub enum SearchInputError {
    /// The search box is blank.
    Empty,
}

impl SearchInputError {
    /// The text shown for the error.
    pub fn message(&self) -> (r: String)
        ensures
            r@ == "search cannot be empty."@,
    {
        String::from_str("search cannot be empty.")
    }
}

/// The key searched for: the trimmed content of the search box, refused when blank.
pub fn search_key_input(content: &str) -> (r: Result<String, SearchInputError>)
    ensures
        is_blank_spec(content@) ==> r == Err::<String, SearchInputError>(SearchInputError::Empty),
        !is_blank_spec(content@) ==> (r matches Ok(k) && k@ == trim_spec(content@)),
{
    if is_blank(content) {
        Err(SearchInputError::Empty)
    } else {
        Ok(trim(content))
    }
}

/// The chat page was reached from a search result (a chat that may not exist yet).
pub fn is_recipient_route(path: &str) -> (b: bool)
    ensures
        b == contains_spec(path@, "/chats/c/"@),
{
    contains_text(&chars_of(path), "/chats/c/")
}

/// The id in the chat route, or `No ID found` when the route has none.
pub fn chat_route_id(param: Option<String>) -> (r: String)
    ensures
        match param {
            Some(p) => r == p,
            None => r@ == "No ID found"@,
        },
{
    match param {
        Some(p) => p,
        None => String::from_str("No ID found"),
    }
}

/// The route names a conversation whose messages are to be fetched.
pub open spec fn wants_messages_spec(chat_id: Seq<char>) -> bool {
    chat_id != "No ID found"@ && !is_blank_spec(chat_id)
}

/// Whether the messages of the routed conversation are to be fetched.
pub fn wants_messages(chat_id: &str) -> (b: bool)
    ensures
        b == wants_messages_spec(chat_id@),
{
    !text_eq(chat_id, "No ID found") && !is_blank(chat_id)
}

/// The conversation id that a route id names: the UUID it holds, or the nil UUID.
pub open spec fn route_conversation_spec(chat_id: Seq<char>) -> u128 {
    match uuid_parse(chat_id) {
        Some(u) => u,
        None => 0,
    }
}

/// The conversation id that a route id names (the nil UUID when it holds none).
pub fn route_conversation_id(chat_id: &str) -> (r: u128)
    ensures
        r == route_conversation_spec(chat_id@),
{
    match uuid_from_text(chat_id) {
        Some(u) => u,
        None => 0,
    }
}

/// Where the header of an open chat comes from.
#[derive(Clone, Copy, PartialEq, Eq, Structural, Debug)]
pub enum HeaderSource {
    /// The stored search result (a chat opened from a search).
    SearchResult,
    /// The server's record of this conversation.
    Server(u128),
}

/// Where the header of the chat at `chat_id` comes from.
pub fn chat_header_source(is_recipient: bool, chat_id: &str) -> (h: HeaderSource)
    ensures
        (is_recipient || chat_id@ == "No ID found"@) ==> h == HeaderSource::SearchResult,
        !(is_recipient || chat_id@ == "No ID found"@) ==> h == HeaderSource::Server(route_conversation_spec(chat_id@)),
{
    if is_recipient || text_eq(chat_id, "No ID found") {
        HeaderSource::SearchResult
    } else {
        HeaderSource::Server(route_conversation_id(chat_id))
    }
}

/// The name a chat is shown under: its display name, or else its name.
pub fn chat_display_name(display_name: Option<String>, name: String) -> (r: String)
    ensures
        match display_name {
            Some(d) => r == d,
            None => r == name,
        },
{
    match display_name {
        Some(d) => d,
        None => name,
    }
}

/// What trying a message's envelopes gives the reader with secrets `x_secret` and `kem_seed`.
pub open spec fn message_outcome(p: InboundMessagePayload, x_secret: Seq<u8>, kem_seed: Seq<u8>) -> MessageView {
    fallback_spec(p.ciphertext@, p.nonce@, p.envelopes@, x_secret, kem_seed, 0)
}

/// The plaintexts of the messages that open for the reader, in order; the others are left out.
pub open spec fn inbox_spec(payloads: Seq<InboundMessagePayload>, x_secret: Seq<u8>, kem_seed: Seq<u8>) -> Seq<Seq<u8>>
    decreases payloads.len(),
{
    if payloads.len() == 0 {
        Seq::<Seq<u8>>::empty()
    } else {
        let rest = inbox_spec(payloads.drop_last(), x_secret, kem_seed);
        match message_outcome(payloads.last(), x_secret, kem_seed) {
            MessageView::Opened(_, p) => rest.push(p),
            _ => rest,
        }
    }
}

/// Some message has an envelope that the decryption procedure cannot handle.
pub open spec fn inbox_aborts(payloads: Seq<InboundMessagePayload>, x_secret: Seq<u8>, kem_seed: Seq<u8>) -> bool {
    exists|i: int| 0 <= i < payloads.len() && #[trigger] message_outcome(payloads[i], x_secret, kem_seed) is Aborted
}

/// Decrypts the messages of a conversation, keeping those that open for the reader, in order;
/// `None` when a message has an envelope that the decryption procedure cannot handle.
pub fn open_inbox(
    payloads: &Vec<InboundMessagePayload>,
    my_x25519_private: &[u8; 32],
    my_mlkem_private: &[u8; 64],
) -> (r: Option<Vec<Vec<u8>>>)
    ensures
        inbox_aborts(payloads@, my_x25519_private@, my_mlkem_private@) <==> r is None,
        r matches Some(v) ==> v@.map_values(|b: Vec<u8>| b@) == inbox_spec(payloads@, my_x25519_private@, my_mlkem_private@),
{
    let ghost xs = my_x25519_private@;
    let ghost seed = my_mlkem_private@;
    let mut out: Vec<Vec<u8>> = Vec::new();
    let mut i: usize = 0;
    while i < payloads.len()
        invariant
            i <= payloads@.len(),
            xs == my_x25519_private@,
            seed == my_mlkem_private@,
            out@.map_values(|b: Vec<u8>| b@) == inbox_spec(payloads@.take(i as int), xs, seed),
            forall|j: int| 0 <= j < i ==> !(#[trigger] message_outcome(payloads@[j], xs, seed) is Aborted),
        decreases payloads@.len() - i,
    {
        let ghost before = out@;
        assert(payloads@.take(i as int + 1).drop_last() =~= payloads@.take(i as int));
        assert(payloads@.take(i as int + 1).last() == payloads@[i as int]);
        match try_decrypt_message(&payloads[i], my_x25519_private, my_mlkem_private) {
            None => {
                assert(message_outcome(payloads@[i as int], xs, seed) is Aborted);
                return None;
            },
            Some(Ok(p)) => {
                out.push(p);
                assert(out@.map_values(|b: Vec<u8>| b@) =~= before.map_values(|b: Vec<u8>| b@).push(p@));
            },
            Some(Err(_)) => {},
        }
        i += 1;
    }
    assert(payloads@.take(payloads@.len() as int) =~= payloads@);
    Some(out)
}

/// The plaintext a reader takes from a message, given which envelope it chose.
pub open spec fn chosen_plaintext(views: Seq<TrackView>, choice: FallbackChoice) -> Option<Seq<u8>> {
    match choice {
        FallbackChoice::Chosen(k) => match views[k as int] {
            TrackView::Opened(p) => Some(p),
            _ => None,
        },
        _ => None,
    }
}

/// `accept` can lead the reader of `payload` to `choice`.
pub open spec fn reads_as<F: Fn(&Vec<u8>) -> bool>(
    accept: F,
    payload: InboundMessagePayload,
    x_secret: Seq<u8>,
    kem_seed: Seq<u8>,
    choice: FallbackChoice,
) -> bool {
    exists|usable: Seq<bool>|
        answers_for(accept, message_views(payload, x_secret, kem_seed), usable) && choice == #[trigger] choice_spec(
            message_views(payload, x_secret, kem_seed),
            usable,
            0,
        )
}

/// The plaintexts kept from the first `n` messages, given the reader's choice for each.
pub open spec fn kept_plaintexts(
    payloads: Seq<InboundMessagePayload>,
    x_secret: Seq<u8>,
    kem_seed: Seq<u8>,
    choices: Seq<FallbackChoice>,
    n: int,
) -> Seq<Seq<u8>>
    decreases n,
{
    if n <= 0 {
        Seq::empty()
    } else {
        let before = kept_plaintexts(payloads, x_secret, kem_seed, choices, n - 1);
        match chosen_plaintext(message_views(payloads[n - 1], x_secret, kem_seed), choices[n - 1]) {
            Some(p) => before.push(p),
            None => before,
        }
    }
}

/// Reading an inbox with `accept` made the choices `choices` and gave `r`: each choice is one that
/// `accept` can lead to; `None` when the last message read has an envelope that cannot be handled;
/// otherwise every message was read and `r` holds the taken plaintexts, in order.
pub open spec fn inbox_read<F: Fn(&Vec<u8>) -> bool>(
    accept: F,
    payloads: Seq<InboundMessagePayload>,
    x_secret: Seq<u8>,
    kem_seed: Seq<u8>,
    choices: Seq<FallbackChoice>,
    r: Option<Vec<Vec<u8>>>,
) -> bool {
    &&& choices.len() <= payloads.len()
    &&& forall|i: int| 0 <= i < choices.len() ==> reads_as(accept, payloads[i], x_secret, kem_seed, #[trigger] choices[i])
    &&& match r {
        None => choices.len() > 0 && choices.last() is Aborted && forall|i: int|
            0 <= i < choices.len() - 1 ==> !(#[trigger] choices[i] is Aborted),
        Some(v) => choices.len() == payloads.len() && (forall|i: int| 0 <= i < choices.len() ==> !(#[trigger] choices[i] is Aborted))
            && v@.map_values(|b: Vec<u8>| b@) == kept_plaintexts(payloads, x_secret, kem_seed, choices, choices.len() as int),
    }
}

/// Decrypts the messages of a conversation, each by `decrypt_message_accepting`: a message is kept
/// when some envelope opens to a plaintext that `accept` takes; `None` when a message has an
/// envelope that the decryption procedure cannot handle.
pub fn open_inbox_accepting<F: Fn(&Vec<u8>) -> bool>(
    payloads: &Vec<InboundMessagePayload>,
    my_x25519_private: &[u8; 32],
    my_mlkem_private: &[u8; 64],
    accept: &F,
) -> (r: Option<Vec<Vec<u8>>>)
    requires
        forall|v: &Vec<u8>| #[trigger] accept.requires((v,)),
    ensures
        exists|choices: Seq<FallbackChoice>|
            #[trigger] inbox_read(*accept, payloads@, my_x25519_private@, my_mlkem_private@, choices, r),
{
    let ghost xs = my_x25519_private@;
    let ghost seed = my_mlkem_private@;
    let ghost mut choices: Seq<FallbackChoice> = Seq::empty();
    let mut out: Vec<Vec<u8>> = Vec::new();
    let mut i: usize = 0;
    while i < payloads.len()
        invariant
            i <= payloads@.len(),
            xs == my_x25519_private@,
            seed == my_mlkem_private@,
            forall|v: &Vec<u8>| #[trigger] accept.requires((v,)),
            choices.len() == i,
            forall|j: int| 0 <= j < i ==> reads_as(*accept, payloads@[j], xs, seed, #[trigger] choices[j]),
            forall|j: int| 0 <= j < i ==> !(#[trigger] choices[j] is Aborted),
            out@.map_values(|b: Vec<u8>| b@) == kept_plaintexts(payloads@, xs, seed, choices, i as int),
        decreases payloads@.len() - i,
    {
        let (choice, bytes) = decrypt_message_accepting(&payloads[i], my_x25519_private, my_mlkem_private, accept);
        let ghost before = choices;
        proof {
            choices = choices.push(choice);
            assert(reads_as(*accept, payloads@[i as int], xs, seed, choice));
            assert forall|j: int| 0 <= j < i + 1 implies reads_as(*accept, payloads@[j], xs, seed, #[trigger] choices[j]) by {
                if j < i {
                    assert(choices[j] == before[j]);
                }
            }
            assert(kept_plaintexts(payloads@, xs, seed, choices, i as int) == kept_plaintexts(
                payloads@,
                xs,
                seed,
                before,
                i as int,
            )) by {
                lemma_kept_prefix(payloads@, xs, seed, before, choices, i as int);
            }
        }
        match choice {
            FallbackChoice::Aborted(_) => {
                let r: Option<Vec<Vec<u8>>> = None;
                assert(inbox_read(*accept, payloads@, xs, seed, choices, r));
                return r;
            },
            FallbackChoice::Chosen(_) => {
                let ghost prev = out@;
                match bytes {
                    Some(b) => {
                        out.push(b);
                        assert(out@.map_values(|b: Vec<u8>| b@) =~= prev.map_values(|b: Vec<u8>| b@).push(b@));
                    },
                    None => {},
                }
            },
            FallbackChoice::NoneUsable => {},
        }
        i += 1;
    }
    let r = Some(out);
    assert(inbox_read(*accept, payloads@, xs, seed, choices, r));
    r
}

/// The kept plaintexts of the first `n` messages depend only on the first `n` choices.
proof fn lemma_kept_prefix(
    payloads: Seq<InboundMessagePayload>,
    x_secret: Seq<u8>,
    kem_seed: Seq<u8>,
    a: Seq<FallbackChoice>,
    b: Seq<FallbackChoice>,
    n: int,
)
    requires
        n <= a.len(),
        n <= b.len(),
        forall|j: int| 0 <= j < n ==> a[j] == b[j],
    ensures
        kept_plaintexts(payloads, x_secret, kem_seed, a, n) == kept_plaintexts(payloads, x_secret, kem_seed, b, n),
    decreases n,
{
    if n > 0 {
        lemma_kept_prefix(payloads, x_secret, kem_seed, a, b, n - 1);
    }
}

/// A conversation in the list from which a new group's members are picked.
#[derive(Clone, Copy, PartialEq, Eq, Structural, Debug)]
pub struct ConversationEntry {
    pub conv_id: u128,
    pub is_group: bool,
}

/// A conversation offers a member for a group made from `current`: it is another direct chat.
pub open spec fn offers_member(entry: ConversationEntry, current: u128) -> bool {
    entry.conv_id != current && !entry.is_group
}

/// The conversations that offer members for a group made from `current`, in order.
pub fn group_candidates(entries: &Vec<ConversationEntry>, current: u128) -> (r: Vec<ConversationEntry>)
    ensures
        r@ == entries@.filter(|e: ConversationEntry| offers_member(e, current)),
{
    let mut r: Vec<ConversationEntry> = Vec::new();
    let mut i: usize = 0;
    while i < entries.len()
        invariant
            i <= entries@.len(),
            r@ == entries@.take(i as int).filter(|e: ConversationEntry| offers_member(e, current)),
        decreases entries@.len() - i,
    {
        let e = entries[i];
        proof {
            reveal_with_fuel(Seq::filter, 1);
            assert(entries@.take(i as int + 1).drop_last() =~= entries@.take(i as int));
        }
        if e.conv_id != current && !e.is_group {
            r.push(e);
        }
        i += 1;
    }
    assert(entries@.take(entries@.len() as int) =~= entries@);
    r
}

/// The header of a conversation offered in the member picker, as the header lookup returns it.
pub struct CandidateHeader {
    pub conv_id: u128,
    pub display_name: String,
    /// The other user of a direct chat; absent when the header names none.
    pub recipient_id: Option<u128>,
}

impl CandidateHeader {
    /// The header as plain values.
    pub open spec fn fields(self) -> (u128, Seq<char>, Option<u128>) {
        (self.conv_id, self.display_name@, self.recipient_id)
    }
}

/// The picker's rows for the header lookups of the offered conversations, in order: each lookup
/// that gave a header gives a row; a failed lookup gives none.
pub open spec fn picker_rows_spec(lookups: Seq<Option<CandidateHeader>>) -> Seq<(u128, Seq<char>, Option<u128>)>
    decreases lookups.len(),
{
    if lookups.len() == 0 {
        Seq::empty()
    } else {
        let before = picker_rows_spec(lookups.drop_last());
        match lookups.last() {
            Some(h) => before.push(h.fields()),
            None => before,
        }
    }
}

/// The rows of the member picker, from the header lookups of the offered conversations.
pub fn picker_rows(lookups: &Vec<Option<CandidateHeader>>) -> (r: Vec<CandidateHeader>)
    ensures
        r@.map_values(|h: CandidateHeader| h.fields()) == picker_rows_spec(lookups@),
{
    let mut r: Vec<CandidateHeader> = Vec::new();
    let mut i: usize = 0;
    while i < lookups.len()
        invariant
            i <= lookups@.len(),
            r@.map_values(|h: CandidateHeader| h.fields()) == picker_rows_spec(lookups@.take(i as int)),
        decreases lookups@.len() - i,
    {
        proof {
            assert(lookups@.take(i as int + 1).drop_last() =~= lookups@.take(i as int));
            assert(lookups@.take(i as int + 1).last() == lookups@[i as int]);
        }
        match &lookups[i] {
            Some(h) => {
                let row = CandidateHeader {
                    conv_id: h.conv_id,
                    display_name: String::from_str(h.display_name.as_str()),
                    recipient_id: h.recipient_id,
                };
                let ghost before = r@;
                r.push(row);
                assert(r@.map_values(|h: CandidateHeader| h.fields()) =~= before.map_values(
                    |h: CandidateHeader| h.fields(),
                ).push(row.fields()));
            },
            None => {},
        }
        i += 1;
    }
    assert(lookups@.take(lookups@.len() as int) =~= lookups@);
    r
}

/// The button beside a picker row: add the row's user to the group, or take them out again.
#[derive(Clone, Copy, PartialEq, Eq, Structural, Debug)]
pub enum PickerButton {
    Add(u128),
    Remove(u128),
}

/// The button of a row: none for a header without a recipient; `Remove` for a user already
/// picked; otherwise `Add`.
pub fn row_button(header: &CandidateHeader, selection: &ParticipantSelection) -> (b: Option<PickerButton>)
    ensures
        b == match header.recipient_id {
            None => None,
            Some(id) => if selection@.contains(id) {
                Some(PickerButton::Remove(id))
            } else {
                Some(PickerButton::Add(id))
            },
        },
{
    match header.recipient_id {
        None => None,
        Some(id) => if selection.contains(id) {
            Some(PickerButton::Remove(id))
        } else {
            Some(PickerButton::Add(id))
        },
    }
}

/// The users picked to join a new group, in the order they were added.
pub struct ParticipantSelection {
    pub ids: Vec<u128>,
}

impl View for ParticipantSelection {
    type V = Seq<u128>;

    open spec fn view(&self) -> Seq<u128> {
        self.ids@
    }
}

impl ParticipantSelection {
    /// Nobody picked yet.
    pub fn new() -> (s: Self)
        ensures
            s@ == Seq::<u128>::empty(),
    {
        ParticipantSelection { ids: Vec::new() }
    }

    /// Whether the user is picked.
    pub fn contains(&self, id: u128) -> (b: bool)
        ensures
            b == self@.contains(id),
    {
        let mut i: usize = 0;
        while i < self.ids.len()
            invariant
                i <= self.ids@.len(),
                forall|j: int| 0 <= j < i ==> self.ids@[j] != id,
            decreases self.ids@.len() - i,
        {
            if self.ids[i] == id {
                return true;
            }
            i += 1;
        }
        false
    }

    /// Picks a user (at the end of the list).
    pub fn add(&mut self, id: u128)
        ensures
            final(self)@ == old(self)@.push(id),
    {
        self.ids.push(id);
    }

    /// Unpicks a user: every entry of that user goes, the others keep their order.
    pub fn remove(&mut self, id: u128)
        ensures
            final(self)@ == old(self)@.filter(other_than(id)),
    {
        let mut kept: Vec<u128> = Vec::new();
        let mut i: usize = 0;
        while i < self.ids.len()
            invariant
                i <= self.ids@.len(),
                self.ids@ == old(self).ids@,
                kept@ == self.ids@.take(i as int).filter(other_than(id)),
            decreases self.ids@.len() - i,
        {
            let x = self.ids[i];
            proof {
                reveal_with_fuel(Seq::filter, 1);
                assert(self.ids@.take(i as int + 1).drop_last() =~= self.ids@.take(i as int));
            }
            if x != id {
                kept.push(x);
            }
            i += 1;
        }
        assert(self.ids@.take(self.ids@.len() as int) =~= self.ids@);
        self.ids = kept;
    }

    /// What pressing a picker button does to the selection.
    pub fn press(&mut self, button: PickerButton)
        ensures
            match button {
                PickerButton::Add(id) => final(self)@ == old(self)@.push(id),
                PickerButton::Remove(id) => final(self)@ == old(self)@.filter(other_than(id)),
            },
    {
        match button {
            PickerButton::Add(id) => self.add(id),
            PickerButton::Remove(id) => self.remove(id),
        }
    }
}

/// The test that keeps every user but `id`.
pub open spec fn other_than(id: u128) -> spec_fn(u128) -> bool {
    |x: u128| x != id
}

/// Law of the selection: a user just added is picked; a user just removed is not, and every
/// other picked user stays picked.
pub proof fn lemma_selection(picked: Seq<u128>, id: u128, other: u128)
    requires
        other != id,
    ensures
        picked.push(id).contains(id),
        !picked.filter(other_than(id)).contains(id),
        picked.contains(other) ==> picked.filter(other_than(id)).contains(other),
{
    assert(picked.push(id)[picked.len() as int] == id);
    let f = other_than(id);
    if picked.filter(f).contains(id) {
        let k = choose|k: int| 0 <= k < picked.filter(f).len() && picked.filter(f)[k] == id;
        picked.lemma_filter_pred(f, k);
    }
    if picked.contains(other) {
        let k = choose|k: int| 0 <= k < picked.len() && picked[k] == other;
        picked.lemma_filter_contains(f, k);
    }
}

/// The details a user registers with.
pub struct RegisterCredentials<'a> {
    pub name: &'a str,
    pub phone_number: &'a str,
    pub password: &'a str,
}

/// The details a user logs in with.
pub struct LoginCredentials<'a> {
    pub phone_number: &'a str,
    pub password: &'a str,
}

/// Where a message goes: a chat opened from a search is new and goes to the recipient; otherwise
/// to the open conversation.
#[derive(Clone, Copy, PartialEq, Eq, Structural, Debug)]
pub enum ChatTarget {
    NewChat { recipient_id: u128 },
    ExistingChat { conv_id: u128 },
}

/// Where a message typed on a chat page goes.
pub fn chat_target(is_recipient: bool, target_id: u128) -> (t: ChatTarget)
    ensures
        is_recipient ==> t == (ChatTarget::NewChat { recipient_id: target_id }),
        !is_recipient ==> t == (ChatTarget::ExistingChat { conv_id: target_id }),
{
    if is_recipient {
        ChatTarget::NewChat { recipient_id: target_id }
    } else {
        ChatTarget::ExistingChat { conv_id: target_id }
    }
}

/// The name a message is signed with: the user's name, or `Unknown User`.
pub fn sender_display_name(name: Option<&str>) -> (r: String)
    ensures
        match name {
            Some(n) => r@ == n@,
            None => r@ == "Unknown User"@,
        },
{
    match name {
        Some(n) => String::from_str(n),
        None => String::from_str("Unknown User"),
    }
}

/// The state of the voice recorder.
pub enum RecordState {
    Idle,
    Recording,
    /// A recording is done and can be played from this object URL.
    Finished(String),
}

/// What happens to the voice recorder.
pub enum RecorderEvent {
    /// The microphone started recording.
    Started,
    /// The recording stopped; its audio is at this object URL.
    Stopped(String),
    /// The user discarded the recording.
    Reset,
}

/// The recorder's next state, and the object URL to release (a discarded finished recording's).
pub fn recorder_step(state: RecordState, event: RecorderEvent) -> (r: (RecordState, Option<String>))
    ensures
        match event {
            RecorderEvent::Started => r.0 is Recording && r.1 is None,
            RecorderEvent::Stopped(url) => r.0 == RecordState::Finished(url) && r.1 is None,
            RecorderEvent::Reset => r.0 is Idle && match state {
                RecordState::Finished(url) => r.1 == Some(url),
                _ => r.1 is None,
            },
        },
{
    match event {
        RecorderEvent::Started => (RecordState::Recording, None),
        RecorderEvent::Stopped(url) => (RecordState::Finished(url), None),
        RecorderEvent::Reset => match state {
            RecordState::Finished(url) => (RecordState::Idle, Some(url)),
            _ => (RecordState::Idle, None),
        },
    }
}

/// A moment as shown on the reader's clock: the calendar date and the time of day.
#[derive(Clone, Copy, PartialEq, Eq, Structural, Debug)]
pub struct LocalMoment {
    pub year: i32,
    pub month: u32,
    pub day: u32,
    pub hour: u32,
    pub minute: u32,
}

/// The two decimal digits of a number below one hundred.
pub open spec fn two_digits(n: nat) -> Seq<char> {
    seq![((48 + n / 10) as u8) as char, ((48 + n % 10) as u8) as char]
}

/// The label of a message's time: `HH:MM` when it was sent on the reader's current day, else
/// `DD-MM-YY HH:MM` (the year taken modulo one hundred).
pub open spec fn chat_time_spec(t: LocalMoment, today_year: i32, today_month: u32, today_day: u32) -> Seq<char> {
    let clock = two_digits(t.hour as nat) + ":"@ + two_digits(t.minute as nat);
    if t.year == today_year && t.month == today_month && t.day == today_day {
        clock
    } else {
        two_digits(t.day as nat) + "-"@ + two_digits(t.month as nat) + "-"@ + two_digits((t.year as int % 100) as nat) + " "@
            + clock
    }
}

/// Law of the time label: a message sent on the reader's current date (same year, month and day)
/// is labelled with its time alone, `HH:MM`; one sent on any other date is labelled
/// `DD-MM-YY HH:MM`, its date first. Either way the label ends with the time of day.
pub proof fn lemma_time_label_shows_date_unless_today(t: LocalMoment, today_year: i32, today_month: u32, today_day: u32)
    requires
        t.hour < 24,
        t.minute < 60,
        1 <= t.month <= 12,
        1 <= t.day <= 31,
    ensures
        ({
            let l = chat_time_spec(t, today_year, today_month, today_day);
            let today = t.year == today_year && t.month == today_month && t.day == today_day;
            &&& (l.len() == 5) <==> today
            &&& !today ==> l.len() == 14
            &&& l.subrange(l.len() - 5, l.len() - 3) == two_digits(t.hour as nat)
            &&& l[l.len() - 3] == ':'
            &&& l.subrange(l.len() - 2, l.len() as int) == two_digits(t.minute as nat)
            &&& !today ==> {
                &&& l.subrange(0, 2) == two_digits(t.day as nat)
                &&& l[2] == '-'
                &&& l.subrange(3, 5) == two_digits(t.month as nat)
                &&& l[5] == '-'
                &&& l.subrange(6, 8) == two_digits((t.year as int % 100) as nat)
                &&& l[8] == ' '
            }
        }),
{
    reveal_strlit(":");
    reveal_strlit("-");
    reveal_strlit(" ");
    let l = chat_time_spec(t, today_year, today_month, today_day);
    let today = t.year == today_year && t.month == today_month && t.day == today_day;
    if today {
        assert(l.subrange(0, 2) =~= two_digits(t.hour as nat));
        assert(l.subrange(3, 5) =~= two_digits(t.minute as nat));
    } else {
        assert(l.subrange(0, 2) =~= two_digits(t.day as nat));
        assert(l.subrange(3, 5) =~= two_digits(t.month as nat));
        assert(l.subrange(6, 8) =~= two_digits((t.year as int % 100) as nat));
        assert(l.subrange(9, 11) =~= two_digits(t.hour as nat));
        assert(l.subrange(12, 14) =~= two_digits(t.minute as nat));
    }
}

/// Appends the two decimal digits of a number below one hundred.
fn push_two_digits(out: &mut String, n: u32)
    requires
        n < 100,
    ensures
        final(out)@ == old(out)@ + two_digits(n as nat),
{
    crate::primitives::push_char(out, ((48 + n / 10) as u8) as char);
    crate::primitives::push_char(out, ((48 + n % 10) as u8) as char);
    assert(final(out)@ =~= old(out)@ + two_digits(n as nat));
}

/// The label shown beside a message sent at `t`, read on the day `today_year`-`today_month`-`today_day`.
pub fn chat_time_label(t: LocalMoment, today_year: i32, today_month: u32, today_day: u32) -> (r: String)
    requires
        t.hour < 24,
        t.minute < 60,
        1 <= t.month <= 12,
        1 <= t.day <= 31,
    ensures
        r@ == chat_time_spec(t, today_year, today_month, today_day),
{
    proof {
        reveal_strlit(":");
        reveal_strlit("-");
        reveal_strlit(" ");
    }
    let mut s = String::new();
    let same_day = t.year == today_year && t.month == today_month && t.day == today_day;
    if !same_day {
        let yy: u32 = if t.year % 100 < 0 {
            (t.year % 100 + 100) as u32
        } else {
            (t.year % 100) as u32
        };
        assert(yy as int == t.year as int % 100);
        push_two_digits(&mut s, t.day);
        crate::primitives::push_char(&mut s, '-');
        push_two_digits(&mut s, t.month);
        crate::primitives::push_char(&mut s, '-');
        push_two_digits(&mut s, yy);
        crate::primitives::push_char(&mut s, ' ');
    }
    push_two_digits(&mut s, t.hour);
    crate::primitives::push_char(&mut s, ':');
    push_two_digits(&mut s, t.minute);
    assert(s@ =~= chat_time_spec(t, today_year, today_month, today_day));
    s
}

/// A message bubble is the reader's own (shown on the sender's side) when the reader is known and
/// sent it.
pub fn is_own_message(sender_id: u128, reader: Option<u128>) -> (b: bool)
    ensures
        b == (reader == Some(sender_id)),
{
    match reader {
        Some(me) => me == sender_id,
        None => false,
    }
}

/// What sending a message to a chat target needs first.
#[derive(Clone, Copy, PartialEq, Eq, Structural, Debug)]
pub enum SendPlan {
    /// Open the chat with this recipient first, then send into the conversation it gives.
    CreateThenSend { recipient_id: u128 },
    /// Send straight into this conversation.
    SendTo { conv_id: u128 },
}

/// The plan for sending to a chat target: a new chat is opened first.
pub fn send_plan(target: ChatTarget) -> (p: SendPlan)
    ensures
        target matches ChatTarget::NewChat { recipient_id } ==> p == (SendPlan::CreateThenSend { recipient_id }),
        target matches ChatTarget::ExistingChat { conv_id } ==> p == (SendPlan::SendTo { conv_id }),
{
    match target {
        ChatTarget::NewChat { recipient_id } => SendPlan::CreateThenSend { recipient_id },
        ChatTarget::ExistingChat { conv_id } => SendPlan::SendTo { conv_id },
    }
}

/// Why a message to a new chat could not be sent.
#[derive(Clone, Copy, PartialEq, Eq, Structural, Debug)]
pub enum InitChatError {
    /// The chat could not be opened.
    FailedToInitialize,
}

impl InitChatError {
    /// The text shown for the error.
    pub fn message(&self) -> (r: String)
        ensures
            r@ == "Failed to initialize chat"@,
    {
        String::from_str("Failed to initialize chat")
    }
}

/// The conversation to send into once opening the chat answered: the conversation it gave, or the
/// error when it gave none.
pub fn conversation_after_create(created: Option<u128>) -> (r: Result<u128, InitChatError>)
    ensures
        match created {
            Some(c) => r == Ok::<u128, InitChatError>(c),
            None => r == Err::<u128, InitChatError>(InitChatError::FailedToInitialize),
        },
{
    match created {
        Some(c) => Ok(c),
        None => Err(InitChatError::FailedToInitialize),
    }
}

/// How the request that sent a message ended.
pub enum SendOutcome {
    /// The server answered: whether with success, its status line, and the conversation named in
    /// the answer, when the answer reads as a stored message.
    Reply { success: bool, status: String, replied_conv: Option<u128> },
    /// The request did not reach the server; the failure's text.
    NetworkFailure { error: String },
}

/// What the composer does once a message was sent.
pub enum SendReaction {
    /// The text and the files are cleared; the chat is told `notifications` times that a message
    /// went out; and, for the first message to a new recipient, the conversation it opened is shown.
    Delivered { open_chat: Option<u128>, notifications: u8 },
    /// The error shown under the composer.
    Failed { error: String },
}

/// The composer's reaction to how sending a message ended; `is_recipient` says the message went to a
/// recipient with no conversation yet.
pub fn send_reaction(outcome: SendOutcome, is_recipient: bool) -> (r: SendReaction)
    ensures
        match outcome {
            SendOutcome::Reply { success, status, replied_conv } => if success {
                r == (SendReaction::Delivered {
                    open_chat: if is_recipient {
                        replied_conv
                    } else {
                        None
                    },
                    notifications: if is_recipient && replied_conv is None {
                        2
                    } else {
                        1
                    },
                })
            } else {
                r matches SendReaction::Failed { error } && error@ == "Server returned error status: "@ + status@
            },
            SendOutcome::NetworkFailure { error: e } => r matches SendReaction::Failed { error } && error@
                == "Network layer failure: "@ + e@,
        },
{
    match outcome {
        SendOutcome::Reply { success, status, replied_conv } => if success {
            if is_recipient {
                match replied_conv {
                    Some(c) => SendReaction::Delivered { open_chat: Some(c), notifications: 1 },
                    None => SendReaction::Delivered { open_chat: None, notifications: 2 },
                }
            } else {
                SendReaction::Delivered { open_chat: None, notifications: 1 }
            }
        } else {
            let mut error = String::from_str("Server returned error status: ");
            error.append(status.as_str());
            SendReaction::Failed { error }
        },
        SendOutcome::NetworkFailure { error: e } => {
            let mut error = String::from_str("Network layer failure: ");
            error.append(e.as_str());
            SendReaction::Failed { error }
        },
    }
}

} // verus!
