//! Call signaling: the messages that peers exchange to set up a voice call, the server's
//! switchboard that forwards them between connected users, and the client's reaction to them.
use vstd::prelude::*;

use vstd::hash_map::StringHashMap;

use crate::auth::opt_text;
use crate::text::{chars_of, contains_spec, contains_text, text_eq};

verus! {

/// A call-signaling message.
pub enum SignalingMessage {
    /// A user declares who they are on connecting.
    Register { username: String, user_id: String },
    /// A user calls another, with an SDP offer. `caller_id` is the calling user's id, which the
    /// server fills in when it relays the request (whatever the caller put there).
    CallRequest { target_user_id: String, sender_name: String, sdp_offer: String, caller_id: String },
    /// The called user answers, with an SDP answer.
    CallResponse { target_user_id: String, sdp_answer: String, accepted: bool },
    /// A peer passes a network route candidate to the other.
    IceCandidate { target_user_id: String, candidate: String },
}

/// The user a signaling message is addressed to (registrations are addressed to no one).
pub open spec fn signal_target_spec(msg: SignalingMessage) -> Option<Seq<char>> {
    match msg {
        SignalingMessage::Register { .. } => None,
        SignalingMessage::CallRequest { target_user_id, .. } => Some(target_user_id@),
        SignalingMessage::CallResponse { target_user_id, .. } => Some(target_user_id@),
        SignalingMessage::IceCandidate { target_user_id, .. } => Some(target_user_id@),
    }
}

/// The user a signaling message is addressed to.
pub fn signal_target(msg: &SignalingMessage) -> (r: Option<&String>)
    ensures
        match signal_target_spec(*msg) {
            Some(t) => r matches Some(s) && s@ == t,
            None => r is None,
        },
{
    match msg {
        SignalingMessage::Register { .. } => None,
        SignalingMessage::CallRequest { target_user_id, .. } => Some(target_user_id),
        SignalingMessage::CallResponse { target_user_id, .. } => Some(target_user_id),
        SignalingMessage::IceCandidate { target_user_id, .. } => Some(target_user_id),
    }
}

/// The server's table of connected users: for each user id, the channel to that user's socket.
#[verifier::reject_recursive_types(T)]
pub struct Switchboard<T> {
    pub connections: StringHashMap<T>,
}

impl<T> View for Switchboard<T> {
    type V = Map<Seq<char>, T>;

    open spec fn view(&self) -> Map<Seq<char>, T> {
        self.connections@
    }
}

/// Where the switchboard forwards a message: the channel of the connected user it is addressed to.
pub open spec fn route_spec<T>(connections: Map<Seq<char>, T>, msg: SignalingMessage) -> Option<T> {
    match signal_target_spec(msg) {
        Some(t) => if connections.contains_key(t) {
            Some(connections[t])
        } else {
            None
        },
        None => None,
    }
}

impl<T> Switchboard<T> {
    /// An empty switchboard.
    pub fn new() -> (s: Self)
        ensures
            s@ == Map::<Seq<char>, T>::empty(),
    {
        Switchboard { connections: StringHashMap::new() }
    }

    /// Records that a user is connected through `channel` (replacing an earlier connection).
    pub fn register(&mut self, user_id: String, channel: T)
        ensures
            final(self)@ == old(self)@.insert(user_id@, channel),
    {
        self.connections.insert(user_id, channel);
    }

    /// Records that a user has disconnected.
    pub fn unregister(&mut self, user_id: &str)
        ensures
            final(self)@ == old(self)@.remove(user_id@),
    {
        self.connections.remove(user_id);
    }

    /// The channel to forward a message to: that of the connected user it is addressed to, if any.
    pub fn route(&self, msg: &SignalingMessage) -> (r: Option<&T>)
        ensures
            match route_spec(self@, *msg) {
                Some(c) => r matches Some(x) && *x == c,
                None => r is None,
            },
    {
        match signal_target(msg) {
            None => None,
            Some(t) => self.connections.get(t.as_str()),
        }
    }
}

/// Law: a message addressed to a user reaches the channel that user registered last, as long as
/// the user has not disconnected since; other users' registrations and departures do not change that.
pub proof fn lemma_route_after_register<T>(
    connections: Map<Seq<char>, T>,
    user: Seq<char>,
    channel: T,
    others: Seq<Seq<char>>,
    msg: SignalingMessage,
)
    requires
        signal_target_spec(msg) == Some(user),
        forall|i: int| 0 <= i < others.len() ==> others[i] != user,
    ensures
        route_spec(apply_departures(connections.insert(user, channel), others), msg) == Some(channel),
        route_spec(connections.insert(user, channel).remove(user), msg) is None,
    decreases others.len(),
{
    if others.len() > 0 {
        lemma_route_after_register(connections, user, channel, others.drop_last(), msg);
    }
}

/// The channel a user is connected through, if connected.
pub open spec fn channel_of<T>(connections: Map<Seq<char>, T>, user: Seq<char>) -> Option<T> {
    if connections.dom().contains(user) {
        Some(connections[user])
    } else {
        None
    }
}

/// Law of the switchboard: every message that names a target user (a call request, a call answer
/// or a network route candidate) is addressed to that user and forwarded to the channel that user
/// is connected through, or nowhere when the user is not connected; a registration is forwarded
/// nowhere.
pub proof fn lemma_addressed_signals_reach_target<T>(connections: Map<Seq<char>, T>, msg: SignalingMessage)
    ensures
        msg matches SignalingMessage::CallRequest { target_user_id, .. } ==> signal_target_spec(msg) == Some(target_user_id@)
            && route_spec(connections, msg) == channel_of(connections, target_user_id@),
        msg matches SignalingMessage::CallResponse { target_user_id, .. } ==> signal_target_spec(msg) == Some(
            target_user_id@,
        ) && route_spec(connections, msg) == channel_of(connections, target_user_id@),
        msg matches SignalingMessage::IceCandidate { target_user_id, .. } ==> signal_target_spec(msg) == Some(
            target_user_id@,
        ) && route_spec(connections, msg) == channel_of(connections, target_user_id@),
        msg is Register ==> signal_target_spec(msg) is None && route_spec(connections, msg) is None,
{
}

/// The table after the given users disconnected, in order.
pub open spec fn apply_departures<T>(connections: Map<Seq<char>, T>, users: Seq<Seq<char>>) -> Map<Seq<char>, T>
    decreases users.len(),
{
    if users.len() == 0 {
        connections
    } else {
        apply_departures(connections, users.drop_last()).remove(users.last())
    }
}

/// The details of a call that is ringing: who calls (their name and id), the id the request was
/// addressed to, and the caller's SDP offer.
pub struct IncomingCallState {
    pub sender_name: String,
    pub target_user_id: String,
    pub sdp_offer: String,
    pub caller_id: String,
}

/// Stamps a signaling message that the user `sender_id` sent with that user as the caller, before
/// the server forwards it.
pub fn relay_signal(msg: SignalingMessage, sender_id: &str) -> (r: SignalingMessage)
    ensures
        signal_target_spec(r) == signal_target_spec(msg),
        match msg {
            SignalingMessage::CallRequest { target_user_id, sender_name, sdp_offer, .. } => r matches SignalingMessage::CallRequest {
                target_user_id: t,
                sender_name: n,
                sdp_offer: o,
                caller_id: c,
            } && t == target_user_id && n == sender_name && o == sdp_offer && c@ == sender_id@,
            _ => r == msg,
        },
{
    match msg {
        SignalingMessage::CallRequest { target_user_id, sender_name, sdp_offer, caller_id: _ } => SignalingMessage::CallRequest {
            target_user_id,
            sender_name,
            sdp_offer,
            caller_id: String::from_str(sender_id),
        },
        other => other,
    }
}

/// The ringing call that a call request announces.
pub open spec fn ring_spec(msg: SignalingMessage) -> Option<IncomingCallState> {
    match msg {
        SignalingMessage::CallRequest { target_user_id, sender_name, sdp_offer, caller_id } => Some(
            IncomingCallState { sender_name, target_user_id, sdp_offer, caller_id },
        ),
        _ => None,
    }
}

/// The client's call state.
pub enum CallState {
    NoCall,
    Incoming(IncomingCallState),
    Connected { target_user_id: String, sender_name: String },
}

/// What the client does with a frame that arrives on its socket.
pub enum SocketEvent {
    /// Not a signaling message: the chat has changed, so refresh it.
    ChatUpdate,
    /// A signaling message, handed on to the call code; for a call request, also the ringing call.
    Signal(SignalingMessage, Option<IncomingCallState>),
}

/// Classifies an arriving frame, given whether (and as what) it parsed as a signaling message.
pub fn classify_socket_frame(parsed: Option<SignalingMessage>) -> (e: SocketEvent)
    ensures
        parsed is None ==> e is ChatUpdate,
        parsed matches Some(m) ==> (e matches SocketEvent::Signal(s, ring) && s == m && ring == ring_spec(m)),
{
    match parsed {
        None => SocketEvent::ChatUpdate,
        Some(m) => {
            let ring = match &m {
                SignalingMessage::CallRequest { target_user_id, sender_name, sdp_offer, caller_id } => Some(
                    IncomingCallState {
                        sender_name: sender_name.clone(),
                        target_user_id: target_user_id.clone(),
                        sdp_offer: sdp_offer.clone(),
                        caller_id: caller_id.clone(),
                    },
                ),
                _ => None,
            };
            SocketEvent::Signal(m, ring)
        },
    }
}

/// A call can be dialed to this target: the route gave an id.
pub open spec fn dial_target_valid_spec(target: Seq<char>) -> bool {
    target.len() != 0 && target != "No ID found"@
}

/// Whether a call can be dialed to the target of the call page.
pub fn dial_target_valid(target: &str) -> (b: bool)
    ensures
        b == dial_target_valid_spec(target@),
{
    !target.is_empty() && !text_eq(target, "No ID found")
}

/// The status a caller shows before dialing: dialing, or an error for a target without an id.
pub fn dial_status(target: &str) -> (r: String)
    ensures
        dial_target_valid_spec(target@) ==> r@ == "Dialing Peer..."@,
        !dial_target_valid_spec(target@) ==> r@ == "Error: Invalid Target ID"@,
{
    if dial_target_valid(target) {
        String::from_str("Dialing Peer...")
    } else {
        String::from_str("Error: Invalid Target ID")
    }
}

/// The status a caller shows after hanging up.
pub fn cancelled_status() -> (r: String)
    ensures
        r@ == "Idle (Call Cancelled)"@,
{
    String::from_str("Idle (Call Cancelled)")
}

/// The caller's page offers to start a call (rather than to hang up) in this status.
pub fn shows_start_button(status: &str) -> (b: bool)
    ensures
        b == (status@ == "Idle"@ || contains_spec(status@, "Cancelled"@)),
{
    text_eq(status, "Idle") || contains_text(&chars_of(status), "Cancelled")
}

/// What the caller does with its connection to the peer.
pub enum CallerAction {
    /// Complete the handshake with the peer's SDP answer.
    ApplyAnswer(String),
    /// Add the peer's network route candidate.
    AddCandidate(String),
    /// Forget the connection.
    DropPeer,
    /// Nothing.
    Nothing,
}

/// How a caller reacts to a signaling message, given whether it holds a connection to the peer:
/// the status it now shows (if it changes) and what it does with the connection.
pub open spec fn caller_reaction_spec(msg: SignalingMessage, has_peer: bool) -> (Option<Seq<char>>, CallerAction) {
    match msg {
        SignalingMessage::CallResponse { sdp_answer, accepted, .. } => if !accepted {
            (Some("Call Declined"@), CallerAction::DropPeer)
        } else if has_peer {
            (Some("Connected"@), CallerAction::ApplyAnswer(sdp_answer))
        } else {
            (Some("Call Rejected by peer"@), CallerAction::Nothing)
        },
        SignalingMessage::IceCandidate { candidate, .. } => if has_peer {
            (None, CallerAction::AddCandidate(candidate))
        } else {
            (None, CallerAction::Nothing)
        },
        _ => (None, CallerAction::Nothing),
    }
}

/// How a caller reacts to a signaling message.
pub fn caller_reaction(msg: SignalingMessage, has_peer: bool) -> (r: (Option<String>, CallerAction))
    ensures
        opt_text(r.0) == caller_reaction_spec(msg, has_peer).0,
        r.1 == caller_reaction_spec(msg, has_peer).1,
{
    match msg {
        SignalingMessage::CallResponse { sdp_answer, accepted, .. } => if !accepted {
            (Some(String::from_str("Call Declined")), CallerAction::DropPeer)
        } else if has_peer {
            (Some(String::from_str("Connected")), CallerAction::ApplyAnswer(sdp_answer))
        } else {
            (Some(String::from_str("Call Rejected by peer")), CallerAction::Nothing)
        },
        SignalingMessage::IceCandidate { candidate, .. } => if has_peer {
            (None, CallerAction::AddCandidate(candidate))
        } else {
            (None, CallerAction::Nothing)
        },
        _ => (None, CallerAction::Nothing),
    }
}

/// The answer that declines a ringing call: addressed back to the caller, with no SDP.
pub fn decline_call(call: &IncomingCallState) -> (m: SignalingMessage)
    ensures
        m matches SignalingMessage::CallResponse { target_user_id, sdp_answer, accepted } && target_user_id
            == call.caller_id && sdp_answer@ == Seq::<char>::empty() && !accepted,
        signal_target_spec(m) == Some(call.caller_id@),
{
    SignalingMessage::CallResponse { target_user_id: call.caller_id.clone(), sdp_answer: String::new(), accepted: false }
}

/// The answer that accepts a ringing call with the callee's SDP answer, addressed back to the
/// caller, and the call state after: connected to the caller.
pub fn accept_call(call: &IncomingCallState, sdp_answer: String) -> (r: (SignalingMessage, CallState))
    ensures
        r.0 matches SignalingMessage::CallResponse { target_user_id, sdp_answer: a, accepted } && target_user_id
            == call.caller_id && a == sdp_answer && accepted,
        signal_target_spec(r.0) == Some(call.caller_id@),
        r.1 matches CallState::Connected { target_user_id, sender_name } && target_user_id == call.caller_id
            && sender_name == call.sender_name,
{
    (
        SignalingMessage::CallResponse { target_user_id: call.caller_id.clone(), sdp_answer, accepted: true },
        CallState::Connected { target_user_id: call.caller_id.clone(), sender_name: call.sender_name.clone() },
    )
}

/// Law of a call's answer: a call request that the server relayed from user `caller` reaches the
/// channel of the user it is addressed to; the ringing call it announces there names `caller` as its
/// caller; and an answer addressed to that ringing call's caller (as `decline_call` and
/// `accept_call` address theirs) is routed to the caller's channel.
pub proof fn lemma_answer_reaches_caller<T>(
    connections: Map<Seq<char>, T>,
    caller: Seq<char>,
    relayed: SignalingMessage,
    answer: SignalingMessage,
)
    requires
        relayed matches SignalingMessage::CallRequest { caller_id, .. } && caller_id@ == caller,
        connections.contains_key(caller),
        connections.contains_key(signal_target_spec(relayed)->0),
        answer matches SignalingMessage::CallResponse { target_user_id, .. } && target_user_id == ring_spec(relayed)->0.caller_id,
    ensures
        route_spec(connections, relayed) == Some(connections[signal_target_spec(relayed)->0]),
        ring_spec(relayed) matches Some(call) && call.caller_id@ == caller,
        route_spec(connections, answer) == Some(connections[caller]),
{
}

} // verus!
