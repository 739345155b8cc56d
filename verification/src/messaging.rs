//! The server's side of sending a message: the fields of a send request, how they are checked,
//! and the steps that find or open the direct conversation the message goes into.
use vstd::prelude::*;

use crate::primitives::{uuid_from_text, uuid_parse};
use crate::text::{text_eq, trim, trim_spec};

verus! {

/// One recipient's envelope, as the server stores it.
pub struct DbEnvelope {
    pub ephemeral_x25519: String,
    pub pq_ciphertext: String,
    pub encrypted_master_key: String,
}

/// A message as the server stores it: the sealed body, its nonce and the envelopes.
pub struct EncryptedMessagePayload {
    pub ciphertext: String,
    pub nonce: String,
    pub envelopes: Vec<DbEnvelope>,
}

/// The fields of a send request gathered so far.
pub struct SendFields {
    pub recipient_id: Option<u128>,
    pub ciphertext: Option<String>,
    pub nonce: Option<String>,
    pub envelopes: Option<String>,
}

/// The fields of a send request, as mathematical values.
pub struct SendFieldsView {
    pub recipient_id: Option<u128>,
    pub ciphertext: Option<Seq<char>>,
    pub nonce: Option<Seq<char>>,
    pub envelopes: Option<Seq<char>>,
}

/// The text of an optional string.
pub open spec fn text_of(o: Option<String>) -> Option<Seq<char>> {
    match o {
        Some(s) => Some(s@),
        None => None,
    }
}

impl View for SendFields {
    type V = SendFieldsView;

    open spec fn view(&self) -> SendFieldsView {
        SendFieldsView {
            recipient_id: self.recipient_id,
            ciphertext: text_of(self.ciphertext),
            nonce: text_of(self.nonce),
            envelopes: text_of(self.envelopes),
        }
    }
}

/// No field gathered yet.
pub open spec fn no_fields() -> SendFieldsView {
    SendFieldsView { recipient_id: None, ciphertext: None, nonce: None, envelopes: None }
}

/// The fields after a part named `name` with text `text` arrived: `recipient_id` is replaced by
/// the UUID read from the trimmed text (none when it does not read), `ciphertext`, `nonce` and
/// `envelopes` by the trimmed text; a part of any other name changes nothing.
pub open spec fn accept_spec(f: SendFieldsView, name: Seq<char>, text: Seq<char>) -> SendFieldsView {
    if name == "recipient_id"@ {
        SendFieldsView { recipient_id: uuid_parse(trim_spec(text)), ..f }
    } else if name == "ciphertext"@ {
        SendFieldsView { ciphertext: Some(trim_spec(text)), ..f }
    } else if name == "nonce"@ {
        SendFieldsView { nonce: Some(trim_spec(text)), ..f }
    } else if name == "envelopes"@ {
        SendFieldsView { envelopes: Some(trim_spec(text)), ..f }
    } else {
        f
    }
}

/// The fields gathered from the parts of a request, in order (each part a name and a text).
pub open spec fn gather_spec(parts: Seq<(Seq<char>, Seq<char>)>) -> SendFieldsView
    decreases parts.len(),
{
    if parts.len() == 0 {
        no_fields()
    } else {
        accept_spec(gather_spec(parts.drop_last()), parts.last().0, parts.last().1)
    }
}

/// The text of the last part named `name`, if any.
pub open spec fn last_text(parts: Seq<(Seq<char>, Seq<char>)>, name: Seq<char>) -> Option<Seq<char>>
    decreases parts.len(),
{
    if parts.len() == 0 {
        None
    } else if parts.last().0 == name {
        Some(parts.last().1)
    } else {
        last_text(parts.drop_last(), name)
    }
}

/// Law: each gathered field is made from the last part of its name alone: the ciphertext, nonce
/// and envelopes are that part's trimmed text, and the recipient is the UUID it holds; earlier
/// parts of the same name and parts of other names do not matter.
pub proof fn lemma_gather_keeps_last(parts: Seq<(Seq<char>, Seq<char>)>)
    ensures
        gather_spec(parts).ciphertext == (match last_text(parts, "ciphertext"@) {
            Some(t) => Some(trim_spec(t)),
            None => None,
        }),
        gather_spec(parts).nonce == (match last_text(parts, "nonce"@) {
            Some(t) => Some(trim_spec(t)),
            None => None,
        }),
        gather_spec(parts).envelopes == (match last_text(parts, "envelopes"@) {
            Some(t) => Some(trim_spec(t)),
            None => None,
        }),
        gather_spec(parts).recipient_id == (match last_text(parts, "recipient_id"@) {
            Some(t) => uuid_parse(trim_spec(t)),
            None => None,
        }),
    decreases parts.len(),
{
    reveal_strlit("recipient_id");
    reveal_strlit("ciphertext");
    reveal_strlit("nonce");
    reveal_strlit("envelopes");
    assert("recipient_id"@.len() == 12 && "ciphertext"@.len() == 10 && "nonce"@.len() == 5 && "envelopes"@.len() == 9);
    if parts.len() > 0 {
        lemma_gather_keeps_last(parts.drop_last());
    }
}

impl SendFields {
    /// No field gathered yet.
    pub fn new() -> (f: Self)
        ensures
            f@ == no_fields(),
    {
        SendFields { recipient_id: None, ciphertext: None, nonce: None, envelopes: None }
    }

    /// Takes in one part of the request.
    pub fn accept_field(&mut self, name: &str, text: &str)
        ensures
            final(self)@ == accept_spec(old(self)@, name@, text@),
    {
        if text_eq(name, "recipient_id") {
            let t = trim(text);
            self.recipient_id = uuid_from_text(t.as_str());
        } else if text_eq(name, "ciphertext") {
            self.ciphertext = Some(trim(text));
        } else if text_eq(name, "nonce") {
            self.nonce = Some(trim(text));
        } else if text_eq(name, "envelopes") {
            self.envelopes = Some(trim(text));
        }
    }
}

/// Why a send request is refused (each is answered with status 400).
#[derive(Clone, Copy, PartialEq, Eq, Structural, Debug)]
pub enum SendRejection {
    MissingRecipient,
    MissingCiphertext,
    MissingNonce,
    MissingEnvelope,
}

impl SendRejection {
    /// The text of the refusal.
    pub fn message(&self) -> (r: String)
        ensures
            r@ == match *self {
                SendRejection::MissingRecipient => "Missing or invalid recipient_id"@,
                SendRejection::MissingCiphertext => "Missing ciphertext"@,
                SendRejection::MissingNonce => "Missing nonce"@,
                SendRejection::MissingEnvelope => "Missing envelope"@,
            },
    {
        match self {
            SendRejection::MissingRecipient => String::from_str("Missing or invalid recipient_id"),
            SendRejection::MissingCiphertext => String::from_str("Missing ciphertext"),
            SendRejection::MissingNonce => String::from_str("Missing nonce"),
            SendRejection::MissingEnvelope => String::from_str("Missing envelope"),
        }
    }
}

/// A send request with every field present; the envelopes are still JSON text.
pub struct ReadySend {
    pub recipient_id: u128,
    pub ciphertext: String,
    pub nonce: String,
    pub envelopes_json: String,
}

/// Checks that a send request has all its fields, in this order: recipient, ciphertext, nonce,
/// envelopes; the first one missing is the refusal.
pub fn validate_send_fields(fields: SendFields) -> (r: Result<ReadySend, SendRejection>)
    ensures
        fields.recipient_id is None ==> r == Err::<ReadySend, SendRejection>(SendRejection::MissingRecipient),
        fields.recipient_id is Some && fields.ciphertext is None ==> r == Err::<ReadySend, SendRejection>(
            SendRejection::MissingCiphertext,
        ),
        fields.recipient_id is Some && fields.ciphertext is Some && fields.nonce is None ==> r == Err::<
            ReadySend,
            SendRejection,
        >(SendRejection::MissingNonce),
        fields.recipient_id is Some && fields.ciphertext is Some && fields.nonce is Some && fields.envelopes is None
            ==> r == Err::<ReadySend, SendRejection>(SendRejection::MissingEnvelope),
        r matches Ok(ready) ==> fields.recipient_id == Some(ready.recipient_id) && fields.ciphertext == Some(
            ready.ciphertext,
        ) && fields.nonce == Some(ready.nonce) && fields.envelopes == Some(ready.envelopes_json),
        (fields.recipient_id is Some && fields.ciphertext is Some && fields.nonce is Some && fields.envelopes is Some)
            ==> r is Ok,
{
    let recipient_id = match fields.recipient_id {
        Some(r) => r,
        None => return Err(SendRejection::MissingRecipient),
    };
    let ciphertext = match fields.ciphertext {
        Some(c) => c,
        None => return Err(SendRejection::MissingCiphertext),
    };
    let nonce = match fields.nonce {
        Some(n) => n,
        None => return Err(SendRejection::MissingNonce),
    };
    let envelopes_json = match fields.envelopes {
        Some(e) => e,
        None => return Err(SendRejection::MissingEnvelope),
    };
    Ok(ReadySend { recipient_id, ciphertext, nonce, envelopes_json })
}

/// The message to store, from a checked request and its parsed envelopes.
pub fn encrypted_payload(ready: ReadySend, envelopes: Vec<DbEnvelope>) -> (p: EncryptedMessagePayload)
    ensures
        p.ciphertext == ready.ciphertext,
        p.nonce == ready.nonce,
        p.envelopes == envelopes,
{
    EncryptedMessagePayload { ciphertext: ready.ciphertext, nonce: ready.nonce, envelopes }
}

/// Where finding or opening the direct conversation between two users stands.
#[derive(Clone, Copy, PartialEq, Eq, Structural, Debug)]
pub enum DirectStage {
    /// Waiting for the lookup of an existing direct conversation.
    Looking,
    /// Waiting for a new conversation to be created.
    Creating,
    /// Waiting for the sender to be added to the new conversation.
    AddingSender(u128),
    /// Waiting for the recipient to be added to the new conversation.
    AddingRecipient(u128),
    /// The conversation is known.
    Resolved(u128),
    /// The store failed at the given step.
    Failed(DirectFailure),
}

/// The step at which the store failed.
#[derive(Clone, Copy, PartialEq, Eq, Structural, Debug)]
pub enum DirectFailure {
    Lookup,
    Create,
    AddParticipant,
}

/// What the store answered to the last request.
#[derive(Clone, Copy, PartialEq, Eq, Structural, Debug)]
pub enum StoreReply {
    /// The lookup found this conversation, or none.
    Found(Option<u128>),
    /// A conversation with this id was created.
    Created(u128),
    /// A participant was added.
    Added,
    /// The request failed.
    Failed,
}

/// What to ask the store next.
#[derive(Clone, Copy, PartialEq, Eq, Structural, Debug)]
pub enum StoreRequest {
    /// Look for a direct conversation between the two users.
    FindExisting(u128, u128),
    /// Create a new (non-group) conversation.
    CreateConversation,
    /// Add the user to the conversation.
    AddParticipant(u128, u128),
    /// Nothing more: the stage is final.
    Stop,
}

/// One step of finding or opening the direct conversation between `user` and `recipient`.
/// With `strict`, a failure to add a participant ends in failure; without it (as when a message
/// is sent) it is passed over.
pub open spec fn direct_step_spec(
    user: u128,
    recipient: u128,
    strict: bool,
    stage: DirectStage,
    reply: StoreReply,
) -> (DirectStage, StoreRequest) {
    match stage {
        DirectStage::Looking => match reply {
            StoreReply::Found(Some(c)) => (DirectStage::Resolved(c), StoreRequest::Stop),
            StoreReply::Found(None) => (DirectStage::Creating, StoreRequest::CreateConversation),
            _ => (DirectStage::Failed(DirectFailure::Lookup), StoreRequest::Stop),
        },
        DirectStage::Creating => match reply {
            StoreReply::Created(c) => (DirectStage::AddingSender(c), StoreRequest::AddParticipant(c, user)),
            _ => (DirectStage::Failed(DirectFailure::Create), StoreRequest::Stop),
        },
        DirectStage::AddingSender(c) => if reply == StoreReply::Added || !strict {
            (DirectStage::AddingRecipient(c), StoreRequest::AddParticipant(c, recipient))
        } else {
            (DirectStage::Failed(DirectFailure::AddParticipant), StoreRequest::Stop)
        },
        DirectStage::AddingRecipient(c) => if reply == StoreReply::Added || !strict {
            (DirectStage::Resolved(c), StoreRequest::Stop)
        } else {
            (DirectStage::Failed(DirectFailure::AddParticipant), StoreRequest::Stop)
        },
        _ => (stage, StoreRequest::Stop),
    }
}

/// One step of finding or opening a direct conversation: from the stage and the store's reply to
/// the last request, the next stage and the next request.
pub fn direct_conversation_step(
    user: u128,
    recipient: u128,
    strict: bool,
    stage: DirectStage,
    reply: StoreReply,
) -> (r: (DirectStage, StoreRequest))
    ensures
        r == direct_step_spec(user, recipient, strict, stage, reply),
{
    match stage {
        DirectStage::Looking => match reply {
            StoreReply::Found(Some(c)) => (DirectStage::Resolved(c), StoreRequest::Stop),
            StoreReply::Found(None) => (DirectStage::Creating, StoreRequest::CreateConversation),
            _ => (DirectStage::Failed(DirectFailure::Lookup), StoreRequest::Stop),
        },
        DirectStage::Creating => match reply {
            StoreReply::Created(c) => (DirectStage::AddingSender(c), StoreRequest::AddParticipant(c, user)),
            _ => (DirectStage::Failed(DirectFailure::Create), StoreRequest::Stop),
        },
        DirectStage::AddingSender(c) => {
            let added = match reply {
                StoreReply::Added => true,
                _ => false,
            };
            if added || !strict {
                (DirectStage::AddingRecipient(c), StoreRequest::AddParticipant(c, recipient))
            } else {
                (DirectStage::Failed(DirectFailure::AddParticipant), StoreRequest::Stop)
            }
        },
        DirectStage::AddingRecipient(c) => {
            let added = match reply {
                StoreReply::Added => true,
                _ => false,
            };
            if added || !strict {
                (DirectStage::Resolved(c), StoreRequest::Stop)
            } else {
                (DirectStage::Failed(DirectFailure::AddParticipant), StoreRequest::Stop)
            }
        },
        _ => (stage, StoreRequest::Stop),
    }
}

/// The first step: look for an existing direct conversation between the two users.
pub fn direct_conversation_start(user: u128, recipient: u128) -> (r: (DirectStage, StoreRequest))
    ensures
        r == (DirectStage::Looking, StoreRequest::FindExisting(user, recipient)),
{
    (DirectStage::Looking, StoreRequest::FindExisting(user, recipient))
}

/// The stage reached, and every request made, when the store answered with `replies`.
pub open spec fn direct_run(
    user: u128,
    recipient: u128,
    strict: bool,
    replies: Seq<StoreReply>,
) -> (DirectStage, Seq<StoreRequest>)
    decreases replies.len(),
{
    if replies.len() == 0 {
        (DirectStage::Looking, seq![StoreRequest::FindExisting(user, recipient)])
    } else {
        let prev = direct_run(user, recipient, strict, replies.drop_last());
        let next = direct_step_spec(user, recipient, strict, prev.0, replies.last());
        (next.0, prev.1.push(next.1))
    }
}

/// Law: when a direct conversation between the users exists, it is used and nothing is created;
/// when none exists and the store does what it is asked, exactly one conversation is created,
/// the sender and then the recipient are added to it, and it is the one used.
pub proof fn lemma_direct_conversation(user: u128, recipient: u128, strict: bool, existing: u128, created: u128)
    ensures
        direct_run(user, recipient, strict, seq![StoreReply::Found(Some(existing))]) == (
            DirectStage::Resolved(existing),
            seq![StoreRequest::FindExisting(user, recipient), StoreRequest::Stop],
        ),
        direct_run(
            user,
            recipient,
            strict,
            seq![StoreReply::Found(None), StoreReply::Created(created), StoreReply::Added, StoreReply::Added],
        ) == (
            DirectStage::Resolved(created),
            seq![
                StoreRequest::FindExisting(user, recipient),
                StoreRequest::CreateConversation,
                StoreRequest::AddParticipant(created, user),
                StoreRequest::AddParticipant(created, recipient),
                StoreRequest::Stop,
            ],
        ),
{
    let r0 = seq![StoreRequest::FindExisting(user, recipient)];
    let a = seq![StoreReply::Found(Some(existing))];
    assert(a.drop_last() =~= Seq::<StoreReply>::empty());
    assert(direct_run(user, recipient, strict, Seq::<StoreReply>::empty()) == (DirectStage::Looking, r0));
    assert(r0.push(StoreRequest::Stop) =~= seq![StoreRequest::FindExisting(user, recipient), StoreRequest::Stop]);
    let b = seq![StoreReply::Found(None), StoreReply::Created(created), StoreReply::Added, StoreReply::Added];
    let b1 = b.take(1);
    let b2 = b.take(2);
    let b3 = b.take(3);
    assert(b1.drop_last() =~= Seq::<StoreReply>::empty());
    assert(b2.drop_last() =~= b1);
    assert(b3.drop_last() =~= b2);
    assert(b.drop_last() =~= b3);
    assert(b1.last() == StoreReply::Found(None));
    assert(b2.last() == StoreReply::Created(created));
    assert(b3.last() == StoreReply::Added);
    assert(b.last() == StoreReply::Added);
    assert(direct_run(user, recipient, strict, Seq::<StoreReply>::empty()) == (DirectStage::Looking, r0));
    let r1 = r0.push(StoreRequest::CreateConversation);
    assert(direct_run(user, recipient, strict, b1) == (DirectStage::Creating, r1));
    let r2 = r1.push(StoreRequest::AddParticipant(created, user));
    assert(direct_run(user, recipient, strict, b2) == (DirectStage::AddingSender(created), r2));
    let r3 = r2.push(StoreRequest::AddParticipant(created, recipient));
    assert(direct_run(user, recipient, strict, b3) == (DirectStage::AddingRecipient(created), r3));
    let r4 = r3.push(StoreRequest::Stop);
    assert(direct_run(user, recipient, strict, b) == (DirectStage::Resolved(created), r4));
    assert(r4 =~= seq![
        StoreRequest::FindExisting(user, recipient),
        StoreRequest::CreateConversation,
        StoreRequest::AddParticipant(created, user),
        StoreRequest::AddParticipant(created, recipient),
        StoreRequest::Stop,
    ]);
}

/// A model of the stored conversations: for each conversation id, whether it is a group and who
/// takes part in it.
pub type ConversationStore = Map<u128, (bool, Set<u128>)>;

/// A direct (non-group) conversation in which both users take part.
pub open spec fn is_direct_between(store: ConversationStore, c: u128, a: u128, b: u128) -> bool {
    store.dom().contains(c) && !store[c].0 && store[c].1.contains(a) && store[c].1.contains(b)
}

/// What the lookup for a direct conversation between two users finds in the store.
pub open spec fn find_direct(store: ConversationStore, a: u128, b: u128) -> Option<u128> {
    if exists|c: u128| #[trigger] is_direct_between(store, c, a, b) {
        Some(choose|c: u128| #[trigger] is_direct_between(store, c, a, b))
    } else {
        None
    }
}

/// The store carrying out one request, a new conversation getting the id `fresh`; and its reply.
pub open spec fn store_step(store: ConversationStore, request: StoreRequest, fresh: u128) -> (ConversationStore, StoreReply) {
    match request {
        StoreRequest::FindExisting(a, b) => (store, StoreReply::Found(find_direct(store, a, b))),
        StoreRequest::CreateConversation => (store.insert(fresh, (false, Set::<u128>::empty())), StoreReply::Created(fresh)),
        StoreRequest::AddParticipant(c, u) => if store.dom().contains(c) {
            (store.insert(c, (store[c].0, store[c].1.insert(u))), StoreReply::Added)
        } else {
            (store, StoreReply::Failed)
        },
        StoreRequest::Stop => (store, StoreReply::Failed),
    }
}

/// Running the direct-conversation steps against the store for at most `fuel` requests.
pub open spec fn store_run(
    user: u128,
    recipient: u128,
    strict: bool,
    store: ConversationStore,
    stage: DirectStage,
    request: StoreRequest,
    fresh: u128,
    fuel: nat,
) -> (ConversationStore, DirectStage)
    decreases fuel,
{
    if fuel == 0 || request == StoreRequest::Stop {
        (store, stage)
    } else {
        let (next_store, reply) = store_step(store, request, fresh);
        let (next_stage, next_request) = direct_step_spec(user, recipient, strict, stage, reply);
        store_run(user, recipient, strict, next_store, next_stage, next_request, fresh, (fuel - 1) as nat)
    }
}

/// Finding or opening the direct conversation between two users against the store, from the start.
pub open spec fn open_direct(
    store: ConversationStore,
    user: u128,
    recipient: u128,
    strict: bool,
    fresh: u128,
) -> (ConversationStore, DirectStage) {
    store_run(user, recipient, strict, store, DirectStage::Looking, StoreRequest::FindExisting(user, recipient), fresh, 5)
}

/// Law: opening the chat between two users twice, with nothing else written between, gives the same
/// conversation both times, and the second time writes nothing. The first time reuses an existing
/// direct conversation between them, or else creates exactly one, a non-group conversation whose
/// participants are the two users.
pub proof fn lemma_direct_conversation_not_duplicated(
    store: ConversationStore,
    user: u128,
    recipient: u128,
    strict: bool,
    fresh1: u128,
    fresh2: u128,
)
    requires
        !store.dom().contains(fresh1),
    ensures
        ({
            let first = open_direct(store, user, recipient, strict, fresh1);
            let second = open_direct(first.0, user, recipient, strict, fresh2);
            &&& first.1 is Resolved
            &&& second.1 == first.1
            &&& second.0 == first.0
            &&& find_direct(store, user, recipient) matches Some(c) ==> first.1 == DirectStage::Resolved(c) && first.0
                == store
            &&& find_direct(store, user, recipient) is None ==> first.1 == DirectStage::Resolved(fresh1) && first.0
                == store.insert(fresh1, (false, Set::<u128>::empty().insert(user).insert(recipient)))
        }),
{
    reveal_with_fuel(store_run, 6);
    let first = open_direct(store, user, recipient, strict, fresh1);
    match find_direct(store, user, recipient) {
        Some(c) => {
            assert(first == (store, DirectStage::Resolved(c)));
        },
        None => {
            let s1 = store.insert(fresh1, (false, Set::<u128>::empty()));
            let s2 = s1.insert(fresh1, (false, Set::<u128>::empty().insert(user)));
            let s3 = s2.insert(fresh1, (false, Set::<u128>::empty().insert(user).insert(recipient)));
            assert(s3 =~= store.insert(fresh1, (false, Set::<u128>::empty().insert(user).insert(recipient))));
            assert(first == (s3, DirectStage::Resolved(fresh1)));
            assert(is_direct_between(s3, fresh1, user, recipient));
            assert forall|c: u128| #[trigger] is_direct_between(s3, c, user, recipient) implies c == fresh1 by {
                if c != fresh1 {
                    assert(is_direct_between(store, c, user, recipient));
                }
            }
            assert(find_direct(s3, user, recipient) == Some(fresh1));
        },
    }
}

/// The members of a new group made from a conversation: its current participants, then the
/// users added to it, in that order.
pub fn group_members(existing: &Vec<u128>, others: &Vec<u128>) -> (r: Vec<u128>)
    ensures
        r@ == existing@ + others@,
{
    let mut r: Vec<u128> = Vec::new();
    let mut i: usize = 0;
    while i < existing.len()
        invariant
            i <= existing@.len(),
            r@ == existing@.take(i as int),
        decreases existing@.len() - i,
    {
        r.push(existing[i]);
        i += 1;
        assert(r@ =~= existing@.take(i as int));
    }
    let mut j: usize = 0;
    while j < others.len()
        invariant
            j <= others@.len(),
            r@ == existing@ + others@.take(j as int),
        decreases others@.len() - j,
    {
        r.push(others[j]);
        j += 1;
        assert(r@ =~= existing@ + others@.take(j as int));
    }
    assert(existing@.take(existing@.len() as int) =~= existing@);
    assert(others@.take(others@.len() as int) =~= others@);
    r
}

} // verus!
