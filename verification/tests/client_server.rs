use base64::Engine as _;
use swa_moola::audio::wav_header;
use swa_moola::chat_client::{
    chat_display_name, chat_header_source, chat_time_label, LocalMoment, chat_route_id, chat_target, compose_message_text, group_candidates,
    is_recipient_route, recorder_step, route_conversation_id, search_key_input, sender_display_name, wants_messages,
    ChatTarget, ComposeError, conversation_after_create, is_own_message, send_plan, InitChatError, SendPlan, ConversationEntry, HeaderSource, ParticipantSelection, RecordState, RecorderEvent,
    SearchInputError, picker_rows, row_button, send_reaction, CandidateHeader, PickerButton, SendOutcome, SendReaction,
};
use swa_moola::hybrid::{UserPublicKeyStrings, UserPublicKeys};
use swa_moola::identity::{
    convert_recipient_keys, derive_hybrid_identity, generate_hybrid_identities, load_private_keys_locally,
    SavedPrivateKeys,
};
use swa_moola::messaging::{
    direct_conversation_start, direct_conversation_step, encrypted_payload, group_members, validate_send_fields,
    DbEnvelope, DirectFailure, DirectStage, SendFields, SendRejection, StoreReply, StoreRequest,
};
use swa_moola::signaling::{
    accept_call, caller_reaction, cancelled_status, classify_socket_frame, decline_call, dial_status,
    dial_target_valid, shows_start_button, signal_target, CallState, CallerAction, IncomingCallState,
    SignalingMessage, SocketEvent, Switchboard, relay_signal,
};
use swa_moola::text::{hex_encode, is_blank, strip_whitespace, trim};

fn b64(b: &[u8]) -> String {
    base64::engine::general_purpose::STANDARD.encode(b)
}

const UUID_TEXT: &str = "01234567-89ab-4def-8123-456789abcdef";
const UUID_NUM: u128 = 0x0123_4567_89ab_4def_8123_456789abcdef;

#[test]
fn send_request_fields_are_gathered_and_trimmed() {
    let mut f = SendFields::new();
    f.accept_field("recipient_id", &format!("  {}\n", UUID_TEXT));
    f.accept_field("ciphertext", " abc ");
    f.accept_field("nonce", "n1");
    f.accept_field("nonce", " n2 ");
    f.accept_field("envelopes", "[]");
    f.accept_field("unknown", "ignored");
    let ready = validate_send_fields(f).ok().unwrap();
    assert_eq!(ready.recipient_id, UUID_NUM);
    assert_eq!(ready.ciphertext, "abc");
    assert_eq!(ready.nonce, "n2");
    assert_eq!(ready.envelopes_json, "[]");
    let env = DbEnvelope {
        ephemeral_x25519: "e".to_string(),
        pq_ciphertext: "p".to_string(),
        encrypted_master_key: "m".to_string(),
    };
    let stored = encrypted_payload(ready, vec![env]);
    assert_eq!(stored.ciphertext, "abc");
    assert_eq!(stored.nonce, "n2");
    assert_eq!(stored.envelopes.len(), 1);
}

#[test]
fn send_request_refusals_come_in_order() {
    let f = SendFields::new();
    assert_eq!(validate_send_fields(f).err(), Some(SendRejection::MissingRecipient));
    let mut f = SendFields::new();
    f.accept_field("recipient_id", UUID_TEXT);
    assert_eq!(validate_send_fields(f).err(), Some(SendRejection::MissingCiphertext));
    let mut f = SendFields::new();
    f.accept_field("recipient_id", UUID_TEXT);
    f.accept_field("ciphertext", "c");
    assert_eq!(validate_send_fields(f).err(), Some(SendRejection::MissingNonce));
    let mut f = SendFields::new();
    f.accept_field("recipient_id", UUID_TEXT);
    f.accept_field("ciphertext", "c");
    f.accept_field("nonce", "n");
    assert_eq!(validate_send_fields(f).err(), Some(SendRejection::MissingEnvelope));
    let mut f = SendFields::new();
    f.accept_field("recipient_id", UUID_TEXT);
    f.accept_field("recipient_id", "not a uuid");
    f.accept_field("ciphertext", "c");
    assert_eq!(validate_send_fields(f).err(), Some(SendRejection::MissingRecipient));
    assert_eq!(SendRejection::MissingRecipient.message(), "Missing or invalid recipient_id");
    assert_eq!(SendRejection::MissingEnvelope.message(), "Missing envelope");
}

#[test]
fn existing_direct_conversation_is_reused() {
    let (stage, req) = direct_conversation_start(1, 2);
    assert_eq!(stage, DirectStage::Looking);
    assert_eq!(req, StoreRequest::FindExisting(1, 2));
    let (stage, req) = direct_conversation_step(1, 2, true, stage, StoreReply::Found(Some(99)));
    assert_eq!(stage, DirectStage::Resolved(99));
    assert_eq!(req, StoreRequest::Stop);
}

#[test]
fn missing_direct_conversation_is_created_with_both_users() {
    let (mut stage, _) = direct_conversation_start(1, 2);
    let mut requests = Vec::new();
    for reply in [StoreReply::Found(None), StoreReply::Created(50), StoreReply::Added, StoreReply::Added] {
        let (s, r) = direct_conversation_step(1, 2, true, stage, reply);
        stage = s;
        requests.push(r);
    }
    assert_eq!(stage, DirectStage::Resolved(50));
    assert_eq!(
        requests,
        vec![
            StoreRequest::CreateConversation,
            StoreRequest::AddParticipant(50, 1),
            StoreRequest::AddParticipant(50, 2),
            StoreRequest::Stop
        ]
    );
}

#[test]
fn participant_failures_depend_on_strictness() {
    let strict = direct_conversation_step(1, 2, true, DirectStage::AddingSender(5), StoreReply::Failed);
    assert_eq!(strict, (DirectStage::Failed(DirectFailure::AddParticipant), StoreRequest::Stop));
    let lenient = direct_conversation_step(1, 2, false, DirectStage::AddingSender(5), StoreReply::Failed);
    assert_eq!(lenient, (DirectStage::AddingRecipient(5), StoreRequest::AddParticipant(5, 2)));
    let lookup = direct_conversation_step(1, 2, false, DirectStage::Looking, StoreReply::Failed);
    assert_eq!(lookup.0, DirectStage::Failed(DirectFailure::Lookup));
    let create = direct_conversation_step(1, 2, false, DirectStage::Creating, StoreReply::Failed);
    assert_eq!(create.0, DirectStage::Failed(DirectFailure::Create));
}

#[test]
fn group_members_are_old_then_new() {
    assert_eq!(group_members(&vec![1, 2], &vec![3]), vec![1, 2, 3]);
    assert_eq!(group_members(&vec![], &vec![]), Vec::<u128>::new());
}

#[test]
fn composing_messages() {
    assert_eq!(compose_message_text("   ", 0).err(), Some(ComposeError::EmptyMessage));
    assert_eq!(ComposeError::EmptyMessage.message(), "Message cannot be empty.");
    assert_eq!(compose_message_text(" \t", 2).ok(), Some(" ".to_string()));
    assert_eq!(compose_message_text("  hi  ", 0).ok(), Some("  hi  ".to_string()));
}

#[test]
fn search_box_input() {
    assert_eq!(search_key_input("  ").err(), Some(SearchInputError::Empty));
    assert_eq!(SearchInputError::Empty.message(), "search cannot be empty.");
    assert_eq!(search_key_input("  AbC234xyzKLm \n").ok(), Some("AbC234xyzKLm".to_string()));
}

#[test]
fn chat_routes() {
    assert!(is_recipient_route("/chats/c/123"));
    assert!(!is_recipient_route("/chats/123"));
    assert_eq!(chat_route_id(None), "No ID found");
    assert_eq!(chat_route_id(Some("abc".to_string())), "abc");
    assert!(!wants_messages("No ID found"));
    assert!(!wants_messages("  "));
    assert!(wants_messages(UUID_TEXT));
    assert_eq!(route_conversation_id(UUID_TEXT), UUID_NUM);
    assert_eq!(route_conversation_id("junk"), 0);
    assert_eq!(chat_header_source(true, UUID_TEXT), HeaderSource::SearchResult);
    assert_eq!(chat_header_source(false, "No ID found"), HeaderSource::SearchResult);
    assert_eq!(chat_header_source(false, UUID_TEXT), HeaderSource::Server(UUID_NUM));
    assert_eq!(chat_display_name(Some("Group".to_string()), "name".to_string()), "Group");
    assert_eq!(chat_display_name(None, "name".to_string()), "name");
    assert_eq!(chat_target(true, 4), ChatTarget::NewChat { recipient_id: 4 });
    assert_eq!(chat_target(false, 4), ChatTarget::ExistingChat { conv_id: 4 });
    assert_eq!(sender_display_name(Some("Juma")), "Juma");
    assert_eq!(sender_display_name(None), "Unknown User");
}

#[test]
fn group_candidates_and_selection() {
    let entries = vec![
        ConversationEntry { conv_id: 1, is_group: false },
        ConversationEntry { conv_id: 2, is_group: true },
        ConversationEntry { conv_id: 3, is_group: false },
    ];
    assert_eq!(group_candidates(&entries, 1), vec![ConversationEntry { conv_id: 3, is_group: false }]);
    let mut picked = ParticipantSelection::new();
    assert!(!picked.contains(8));
    picked.add(8);
    picked.add(9);
    assert!(picked.contains(8));
    picked.remove(8);
    assert!(!picked.contains(8));
    assert!(picked.contains(9));
    assert_eq!(picked.ids, vec![9]);
}

#[test]
fn voice_recorder_states() {
    let (s, revoke) = recorder_step(RecordState::Idle, RecorderEvent::Started);
    assert!(matches!(s, RecordState::Recording) && revoke.is_none());
    let (s, revoke) = recorder_step(s, RecorderEvent::Stopped("blob:1".to_string()));
    assert!(matches!(s, RecordState::Finished(ref u) if u == "blob:1") && revoke.is_none());
    let (s, revoke) = recorder_step(s, RecorderEvent::Reset);
    assert!(matches!(s, RecordState::Idle));
    assert_eq!(revoke, Some("blob:1".to_string()));
    let (_, revoke) = recorder_step(RecordState::Recording, RecorderEvent::Reset);
    assert_eq!(revoke, None);
}

fn call_request(target: &str) -> SignalingMessage {
    SignalingMessage::CallRequest {
        target_user_id: target.to_string(),
        sender_name: "Amina".to_string(),
        sdp_offer: "offer".to_string(),
        caller_id: String::new(),
    }
}

#[test]
fn switchboard_forwards_to_registered_user() {
    let mut board: Switchboard<u32> = Switchboard::new();
    board.register("bob".to_string(), 1);
    board.register("carol".to_string(), 2);
    assert_eq!(board.route(&call_request("bob")), Some(&1));
    board.register("bob".to_string(), 3);
    assert_eq!(board.route(&call_request("bob")), Some(&3));
    board.unregister("bob");
    assert_eq!(board.route(&call_request("bob")), None);
    assert_eq!(board.route(&call_request("carol")), Some(&2));
    let reg = SignalingMessage::Register { username: "carol".to_string(), user_id: "carol".to_string() };
    assert_eq!(board.route(&reg), None);
    assert_eq!(signal_target(&reg), None);
}

#[test]
fn socket_frames_and_incoming_calls() {
    assert!(matches!(classify_socket_frame(None), SocketEvent::ChatUpdate));
    match classify_socket_frame(Some(call_request("bob"))) {
        SocketEvent::Signal(_, Some(ring)) => {
            assert_eq!(ring.sender_name, "Amina");
            assert_eq!(ring.target_user_id, "bob");
            assert_eq!(ring.sdp_offer, "offer");
        },
        _ => panic!("a call request rings"),
    }
    let ice = SignalingMessage::IceCandidate { target_user_id: "bob".to_string(), candidate: "c".to_string() };
    assert!(matches!(classify_socket_frame(Some(ice)), SocketEvent::Signal(_, None)));
}

#[test]
fn caller_side_of_a_call() {
    assert!(dial_target_valid("bob"));
    assert!(!dial_target_valid(""));
    assert!(!dial_target_valid("No ID found"));
    assert_eq!(dial_status("bob"), "Dialing Peer...");
    assert_eq!(dial_status(""), "Error: Invalid Target ID");
    assert!(shows_start_button("Idle"));
    assert!(shows_start_button(&cancelled_status()));
    assert!(!shows_start_button("Connected"));
    let yes = SignalingMessage::CallResponse { target_user_id: "a".to_string(), sdp_answer: "ans".to_string(), accepted: true };
    let (status, action) = caller_reaction(yes, true);
    assert_eq!(status.as_deref(), Some("Connected"));
    assert!(matches!(action, CallerAction::ApplyAnswer(ref s) if s == "ans"));
    let yes = SignalingMessage::CallResponse { target_user_id: "a".to_string(), sdp_answer: "ans".to_string(), accepted: true };
    let (status, action) = caller_reaction(yes, false);
    assert_eq!(status.as_deref(), Some("Call Rejected by peer"));
    assert!(matches!(action, CallerAction::Nothing));
    let no = SignalingMessage::CallResponse { target_user_id: "a".to_string(), sdp_answer: String::new(), accepted: false };
    let (status, action) = caller_reaction(no, true);
    assert_eq!(status.as_deref(), Some("Call Declined"));
    assert!(matches!(action, CallerAction::DropPeer));
    let ice = SignalingMessage::IceCandidate { target_user_id: "a".to_string(), candidate: "cand".to_string() };
    let (status, action) = caller_reaction(ice, true);
    assert!(status.is_none());
    assert!(matches!(action, CallerAction::AddCandidate(ref c) if c == "cand"));
}

#[test]
fn callee_answers_a_call() {
    let ring = IncomingCallState {
        sender_name: "Amina".to_string(),
        target_user_id: "juma-id".to_string(),
        sdp_offer: "o".to_string(),
        caller_id: "amina-id".to_string(),
    };
    match decline_call(&ring) {
        SignalingMessage::CallResponse { target_user_id, sdp_answer, accepted } => {
            assert_eq!(target_user_id, "amina-id");
            assert_eq!(sdp_answer, "");
            assert!(!accepted);
        },
        _ => panic!("a decline is a call response"),
    }
    let (answer, state) = accept_call(&ring, "sdp".to_string());
    assert!(matches!(answer, SignalingMessage::CallResponse { ref sdp_answer, ref target_user_id, accepted: true } if sdp_answer == "sdp" && target_user_id == "amina-id"));
    assert!(matches!(state, CallState::Connected { ref sender_name, ref target_user_id } if sender_name == "Amina" && target_user_id == "amina-id"));
}

#[test]
fn wav_header_layout() {
    let h = wav_header(3, 44100);
    assert_eq!(h.len(), 44);
    assert_eq!(&h[0..4], b"RIFF");
    assert_eq!(&h[4..8], &(36u32 + 6).to_le_bytes());
    assert_eq!(&h[8..16], b"WAVEfmt ");
    assert_eq!(&h[16..20], &16u32.to_le_bytes());
    assert_eq!(&h[20..22], &1u16.to_le_bytes());
    assert_eq!(&h[22..24], &1u16.to_le_bytes());
    assert_eq!(&h[24..28], &44100u32.to_le_bytes());
    assert_eq!(&h[28..32], &88200u32.to_le_bytes());
    assert_eq!(&h[32..34], &2u16.to_le_bytes());
    assert_eq!(&h[34..36], &16u16.to_le_bytes());
    assert_eq!(&h[36..40], b"data");
    assert_eq!(&h[40..44], &6u32.to_le_bytes());
}

#[test]
fn identity_keys_survive_saving() {
    let id = derive_hybrid_identity(&[1u8; 32], &[2u8; 32]);
    let again = derive_hybrid_identity(&[1u8; 32], &[2u8; 32]);
    assert_eq!(id.x25519_public_b64, again.x25519_public_b64);
    assert_eq!(id.mlkem_public_b64, again.mlkem_public_b64);
    let secret = load_private_keys_locally(&id.private_keys).unwrap();
    assert_eq!(b64(&secret.x25519_private), id.private_keys.x25519_private_b64);
    assert_eq!(b64(&secret.mlkem_private), id.private_keys.mlkem_private_b64);
    let public = UserPublicKeys::new(Some(&id.x25519_public_b64), Some(&id.mlkem_public_b64));
    assert_eq!(b64(&public.x25519), id.x25519_public_b64);
    assert_eq!(b64(&public.mlkem), id.mlkem_public_b64);
    let fresh = generate_hybrid_identities().expect("the OS generator works");
    assert_ne!(fresh.x25519_public_b64, id.x25519_public_b64);
}

#[test]
fn saved_keys_that_do_not_decode_are_refused() {
    let bad = SavedPrivateKeys { x25519_private_b64: "%%".to_string(), mlkem_private_b64: b64(&[0u8; 64]) };
    assert!(load_private_keys_locally(&bad).is_none());
    let short = SavedPrivateKeys { x25519_private_b64: b64(&[0u8; 31]), mlkem_private_b64: b64(&[0u8; 64]) };
    assert!(load_private_keys_locally(&short).is_none());
    let long = SavedPrivateKeys { x25519_private_b64: b64(&[9u8; 40]), mlkem_private_b64: b64(&[8u8; 70]) };
    let k = load_private_keys_locally(&long).unwrap();
    assert_eq!(k.x25519_private, [9u8; 32]);
    assert_eq!(k.mlkem_private, [8u8; 64]);
}

#[test]
fn published_keys_read_back_or_zero() {
    let keys = vec![
        UserPublicKeyStrings { x25519: b64(&[3u8; 32]), mlkem: b64(&[4u8; 1184]) },
        UserPublicKeyStrings { x25519: "bad".to_string(), mlkem: b64(&[4u8; 10]) },
    ];
    let read = convert_recipient_keys(&keys);
    assert_eq!(read[0].x25519, [3u8; 32]);
    assert_eq!(read[0].mlkem, [4u8; 1184]);
    assert_eq!(read[1].x25519, [0u8; 32]);
    assert_eq!(read[1].mlkem, [0u8; 1184]);
}

#[test]
fn text_helpers() {
    assert_eq!(trim("  a b \n"), "a b");
    assert_eq!(trim(" \u{3000}x\u{a0}"), "x");
    assert_eq!(strip_whitespace(" +255 712\t345 "), "+255712345");
    assert!(is_blank(" \n\t"));
    assert!(!is_blank(" x "));
    assert_eq!(hex_encode(&[0, 15, 16, 255]), "000f10ff");
}

#[test]
fn chat_time_labels() {
    let t = LocalMoment { year: 2024, month: 3, day: 5, hour: 9, minute: 7 };
    assert_eq!(chat_time_label(t, 2024, 3, 5), "09:07");
    assert_eq!(chat_time_label(t, 2024, 3, 6), "05-03-24 09:07");
    let old = LocalMoment { year: 2000, month: 12, day: 31, hour: 23, minute: 59 };
    assert_eq!(chat_time_label(old, 2024, 1, 1), "31-12-00 23:59");
}

#[test]
fn relayed_request_rings_with_caller_and_answers_go_back() {
    let mut board: Switchboard<u32> = Switchboard::new();
    board.register("amina".to_string(), 1);
    board.register("juma".to_string(), 2);
    let sent = SignalingMessage::CallRequest {
        target_user_id: "juma".to_string(),
        sender_name: "Amina".to_string(),
        sdp_offer: "offer".to_string(),
        caller_id: "forged".to_string(),
    };
    let relayed = relay_signal(sent, "amina");
    assert_eq!(board.route(&relayed), Some(&2));
    let ring = match classify_socket_frame(Some(relayed)) {
        SocketEvent::Signal(_, Some(ring)) => ring,
        _ => panic!("a call request rings"),
    };
    assert_eq!(ring.caller_id, "amina");
    assert_eq!(ring.target_user_id, "juma");
    let declined = decline_call(&ring);
    assert_eq!(board.route(&declined), Some(&1));
    let (accepted, _) = accept_call(&ring, "answer".to_string());
    assert_eq!(board.route(&accepted), Some(&1));
    let ice = SignalingMessage::IceCandidate { target_user_id: "amina".to_string(), candidate: "c".to_string() };
    assert!(matches!(relay_signal(ice, "juma"), SignalingMessage::IceCandidate { ref target_user_id, .. } if target_user_id == "amina"));
}

#[test]
fn message_sides_and_send_plans() {
    assert!(is_own_message(5, Some(5)));
    assert!(!is_own_message(5, Some(6)));
    assert!(!is_own_message(5, None));
    assert_eq!(send_plan(ChatTarget::NewChat { recipient_id: 3 }), SendPlan::CreateThenSend { recipient_id: 3 });
    assert_eq!(send_plan(ChatTarget::ExistingChat { conv_id: 4 }), SendPlan::SendTo { conv_id: 4 });
    assert_eq!(conversation_after_create(Some(9)), Ok(9));
    assert_eq!(conversation_after_create(None), Err(InitChatError::FailedToInitialize));
    assert_eq!(InitChatError::FailedToInitialize.message(), "Failed to initialize chat");
}

fn header(conv_id: u128, name: &str, recipient_id: Option<u128>) -> CandidateHeader {
    CandidateHeader { conv_id, display_name: name.to_string(), recipient_id }
}

#[test]
fn picker_skips_failed_header_lookups() {
    let lookups = vec![Some(header(1, "Amina", Some(11))), None, Some(header(3, "Group?", None)), Some(header(4, "Baraka", Some(44)))];
    let rows = picker_rows(&lookups);
    let ids: Vec<u128> = rows.iter().map(|h| h.conv_id).collect();
    assert_eq!(ids, vec![1, 3, 4]);
    assert_eq!(rows[2].display_name, "Baraka");
    assert!(picker_rows(&vec![None, None]).is_empty());
}

#[test]
fn picker_buttons_follow_the_selection() {
    let mut picked = ParticipantSelection::new();
    assert_eq!(row_button(&header(3, "x", None), &picked), None);
    let amina = header(1, "Amina", Some(11));
    assert_eq!(row_button(&amina, &picked), Some(PickerButton::Add(11)));
    picked.press(PickerButton::Add(11));
    assert_eq!(row_button(&amina, &picked), Some(PickerButton::Remove(11)));
    picked.press(PickerButton::Remove(11));
    assert_eq!(row_button(&amina, &picked), Some(PickerButton::Add(11)));
    assert!(picked.ids.is_empty());
}

#[test]
fn composer_reacts_to_the_send_reply() {
    let ok = |conv: Option<u128>| SendOutcome::Reply { success: true, status: "200 OK".to_string(), replied_conv: conv };
    assert!(matches!(send_reaction(ok(None), false), SendReaction::Delivered { open_chat: None, notifications: 1 }));
    assert!(matches!(send_reaction(ok(Some(9)), false), SendReaction::Delivered { open_chat: None, notifications: 1 }));
    assert!(matches!(send_reaction(ok(Some(9)), true), SendReaction::Delivered { open_chat: Some(9), notifications: 1 }));
    assert!(matches!(send_reaction(ok(None), true), SendReaction::Delivered { open_chat: None, notifications: 2 }));
    let refused = SendOutcome::Reply { success: false, status: "500 Internal Server Error".to_string(), replied_conv: None };
    match send_reaction(refused, true) {
        SendReaction::Failed { error } => assert_eq!(error, "Server returned error status: 500 Internal Server Error"),
        _ => panic!("a refused send is an error"),
    }
    match send_reaction(SendOutcome::NetworkFailure { error: "offline".to_string() }, false) {
        SendReaction::Failed { error } => assert_eq!(error, "Network layer failure: offline"),
        _ => panic!("a network failure is an error"),
    }
}
