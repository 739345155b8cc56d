use base64::Engine as _;
use chacha20poly1305::aead::{Aead, KeyInit};
use swa_moola::chat_client::{attachment_from_meta, attachment_meta, Attachment};
use swa_moola::files::{
    attachment_nonce_field, decrypt_raw_file_bytes, encrypt_raw_file_bytes, file_nonce_usable, generate_random_32_bytes,
    seal_file_bytes, try_decrypt_raw_file_bytes, FileCryptoError,
};
use swa_moola::media::{
    attachment_readable, audio_mime, classify_attachment, decode_file_key, image_data_url, normalize_downloaded_bytes,
    message_viewer, recover_attachment_bytes, try_recover_attachment_bytes, AttachmentKind,
};
use swa_moola::paths::{
    content_disposition, resolve_attachment_url, sanitize_filename, storage_url, upload_file_path, upload_url,
};

fn b64(b: &[u8]) -> String {
    base64::engine::general_purpose::STANDARD.encode(b)
}

#[test]
fn file_round_trip_through_metadata_nonce_field() {
    let key = [11u8; 32];
    let data = b"a picture of a cat".to_vec();
    let (sealed, nonce_text) = encrypt_raw_file_bytes(&data, &key).unwrap();
    assert_eq!(sealed.len(), data.len() + 16);
    let field = attachment_nonce_field(&nonce_text);
    assert_eq!(decrypt_raw_file_bytes(&sealed, &field, &key), Ok(data));
}

#[test]
fn sealing_with_a_given_nonce_is_chacha20poly1305() {
    let key = [1u8; 32];
    let nonce = [2u8; 12];
    let (sealed, nonce_text) = seal_file_bytes(b"bytes", &key, &nonce).unwrap();
    let cipher = chacha20poly1305::ChaCha20Poly1305::new(chacha20poly1305::Key::from_slice(&key));
    let expected = cipher.encrypt(chacha20poly1305::Nonce::from_slice(&nonce), &b"bytes"[..]).unwrap();
    assert_eq!(sealed, expected);
    assert_eq!(nonce_text, b64(&nonce));
}

#[test]
fn file_decryption_errors() {
    let key = [3u8; 32];
    let (sealed, nonce_text) = encrypt_raw_file_bytes(b"data", &key).unwrap();
    let field = attachment_nonce_field(&nonce_text);
    assert_eq!(decrypt_raw_file_bytes(&sealed, &field, &[4u8; 32]), Err(FileCryptoError::DecryptionFailed));
    assert_eq!(decrypt_raw_file_bytes(&sealed, "@@@", &key), Err(FileCryptoError::NonceNotBase64));
    assert_eq!(decrypt_raw_file_bytes(&sealed, &b64(&[0xFF, 0xFE]), &key), Err(FileCryptoError::NonceNotText));
    assert_eq!(decrypt_raw_file_bytes(&sealed, &b64(b"!!"), &key), Err(FileCryptoError::NonceInnerNotBase64));
}

#[test]
fn nonce_of_wrong_length_is_refused_before_decrypting() {
    let key = [5u8; 32];
    let short_field = attachment_nonce_field(&b64(&[1u8; 8]));
    assert!(!file_nonce_usable(&short_field));
    assert_eq!(try_decrypt_raw_file_bytes(b"whatever", &short_field, &key), None);
    let good_field = attachment_nonce_field(&b64(&[1u8; 12]));
    assert!(file_nonce_usable(&good_field));
    assert_eq!(
        try_decrypt_raw_file_bytes(b"whatever", &good_field, &key),
        Some(Err(FileCryptoError::DecryptionFailed))
    );
}

#[test]
fn random_file_keys_differ() {
    assert_ne!(generate_random_32_bytes(), generate_random_32_bytes());
}

#[test]
fn attachment_metadata_leads_back_to_the_file() {
    let key = [21u8; 32];
    let data = b"voice note".to_vec();
    let (sealed, nonce_text) = loop {
        let r = encrypt_raw_file_bytes(&data, &key).unwrap();
        if r.0[0] != b'[' {
            break r;
        }
    };
    let meta = attachment_meta(
        "voice_note.webm".to_string(),
        "audio/webm".to_string(),
        10,
        "/view-files/vault_file_1.enc".to_string(),
        &key,
        &nonce_text,
    );
    assert_eq!(meta.file_key, b64(&key));
    assert_eq!(meta.nonce_base, b64(nonce_text.as_bytes()));
    let shown = attachment_from_meta(meta);
    assert_eq!(shown.file_name, "voice_note.webm");
    assert_eq!(shown.file_size, 10);
    let got = recover_attachment_bytes(sealed.clone(), &shown.file_key, &shown.nonce_base);
    assert_eq!(got, Some(data.clone()));
    assert_eq!(try_recover_attachment_bytes(sealed, &shown.file_key, &shown.nonce_base), Some(Some(data)));
}

#[test]
fn download_stored_as_json_array_is_read_back() {
    let json = b"[1, 2, 250]".to_vec();
    assert_eq!(normalize_downloaded_bytes(json), vec![1, 2, 250]);
    assert_eq!(normalize_downloaded_bytes(b"[oops".to_vec()), Vec::<u8>::new());
    assert_eq!(normalize_downloaded_bytes(vec![91, 0xFF]), Vec::<u8>::new());
    assert_eq!(normalize_downloaded_bytes(vec![1, 2, 3]), vec![1, 2, 3]);
    assert_eq!(normalize_downloaded_bytes(vec![]), Vec::<u8>::new());
}

#[test]
fn json_download_of_sealed_file_decrypts() {
    let key = [8u8; 32];
    let (sealed, nonce_text) = encrypt_raw_file_bytes(b"pdf bytes", &key).unwrap();
    let as_json = format!("{:?}", sealed).into_bytes();
    let field = attachment_nonce_field(&nonce_text);
    assert_eq!(recover_attachment_bytes(as_json, &b64(&key), &field), Some(b"pdf bytes".to_vec()));
}

#[test]
fn file_key_field_must_hold_32_bytes() {
    assert_eq!(decode_file_key(&b64(&[7u8; 32])), Some([7u8; 32]));
    assert_eq!(decode_file_key(&b64(&[7u8; 31])), None);
    assert_eq!(decode_file_key("not base64"), None);
    assert_eq!(recover_attachment_bytes(vec![1, 2, 3], "not base64", "whatever"), None);
}

#[test]
fn unreadable_attachment_is_reported() {
    let short_field = attachment_nonce_field(&b64(&[1u8; 8]));
    assert!(!attachment_readable(&b64(&[7u8; 32]), &short_field));
    assert!(attachment_readable("bad key", &short_field));
    assert_eq!(try_recover_attachment_bytes(vec![1], &b64(&[7u8; 32]), &short_field), None);
    assert_eq!(try_recover_attachment_bytes(vec![1], "bad key", &short_field), Some(None));
}

#[test]
fn attachments_are_classified_by_type_then_name() {
    assert_eq!(classify_attachment("image/png", "x.bin"), AttachmentKind::Image);
    assert_eq!(classify_attachment("", "Holiday.JPG"), AttachmentKind::Image);
    assert_eq!(classify_attachment("application/octet-stream", "photo.webp"), AttachmentKind::Image);
    assert_eq!(classify_attachment("audio/webm", "voice_note.webm"), AttachmentKind::Audio);
    assert_eq!(classify_attachment("", "song.ogg"), AttachmentKind::Audio);
    assert_eq!(classify_attachment("", "clip.mp4"), AttachmentKind::Video);
    assert_eq!(classify_attachment("video/quicktime", "clip.mov"), AttachmentKind::Video);
    assert_eq!(classify_attachment("application/pdf", "doc"), AttachmentKind::Pdf);
    assert_eq!(classify_attachment("", "REPORT.PDF"), AttachmentKind::Pdf);
    assert_eq!(classify_attachment("application/zip", "a"), AttachmentKind::Archive);
    assert_eq!(classify_attachment("", "backup.tar"), AttachmentKind::Archive);
    assert_eq!(classify_attachment("text/plain", "notes.txt"), AttachmentKind::Other);
}

#[test]
fn image_source_and_audio_type_defaults() {
    assert_eq!(image_data_url("", &[1, 2, 3]), format!("data:image/jpeg;base64,{}", b64(&[1, 2, 3])));
    assert_eq!(image_data_url("image/png", b"hi"), "data:image/png;base64,aGk=");
    assert_eq!(audio_mime(""), "audio/mpeg");
    assert_eq!(audio_mime("audio/webm"), "audio/webm");
}

#[test]
fn file_names_cannot_leave_storage() {
    assert_eq!(sanitize_filename("../../etc/passwd"), "etcpasswd");
    assert_eq!(sanitize_filename("a\\b/c..d"), "abcd");
    assert_eq!(sanitize_filename("vault_file_12.enc"), "vault_file_12.enc");
    assert_eq!(sanitize_filename("..."), "");
    assert_eq!(sanitize_filename("./."), "");
    assert_eq!(sanitize_filename("."), "");
    assert_eq!(sanitize_filename("a./.b"), "ab");
    assert_eq!(sanitize_filename("..../"), "");
    assert_eq!(sanitize_filename("x.y"), "x.y");
    for name in ["./.", ".\\.", "../..", "a/./.", ".", "..", "...."] {
        let clean = sanitize_filename(name);
        assert!(!clean.contains("..") && !clean.contains('/') && !clean.contains('\\'));
        assert!(clean != "." && clean != "..");
    }
    assert_eq!(upload_file_path("../x.enc"), "./local_cloud_storage/x.enc");
    assert_eq!(storage_url("x/y.enc"), "/view-files/xy.enc");
}

#[test]
fn download_headers_and_upload_address() {
    assert_eq!(content_disposition("a.pdf"), "attachment; filename=\"a.pdf\"");
    assert_eq!(upload_url(0), "http://localhost:8000/api/upload/vault_file_0.enc");
    assert_eq!(upload_url(1234567), "http://localhost:8000/api/upload/vault_file_1234567.enc");
    assert_eq!(
        upload_url(u64::MAX),
        format!("http://localhost:8000/api/upload/vault_file_{}.enc", u64::MAX)
    );
}

#[test]
fn attachment_urls_are_resolved_against_the_server() {
    assert_eq!(resolve_attachment_url("/view-files/a.enc"), "http://localhost:8000/view-files/a.enc");
    assert_eq!(resolve_attachment_url("a.enc"), "http://localhost:8000/view-files/a.enc");
    assert_eq!(
        resolve_attachment_url("http://127.0.0.1:8000/view-files/a.enc"),
        "http://localhost:8000/view-files/.1:8000/view-files/a.enc"
    );
    assert_eq!(resolve_attachment_url("https://cdn.example/a.enc"), "http://localhost:8000https://cdn.example/a.enc");
}

#[test]
fn announced_upload_address_resolves_to_the_served_file() {
    let url = storage_url("vault_file_42.enc");
    assert_eq!(url, "/view-files/vault_file_42.enc");
    assert_eq!(resolve_attachment_url(&url), "http://localhost:8000/view-files/vault_file_42.enc");
    assert_eq!(upload_file_path("vault_file_42.enc"), "./local_cloud_storage/vault_file_42.enc");
    let odd = storage_url("x127.0.0.enc");
    assert_ne!(resolve_attachment_url(&odd), format!("http://localhost:8000{}", odd));
}

fn attachment(name: &str, file_type: &str, url: &str) -> Attachment {
    Attachment {
        file_name: name.to_string(),
        file_size: 2048,
        file_type: file_type.to_string(),
        storage_url: url.to_string(),
        file_key: "K".to_string(),
        nonce_base: "N".to_string(),
    }
}

#[test]
fn blank_voice_note_shows_one_audio_viewer_and_no_text() {
    let shown = message_viewer(
        Some("   ".to_string()),
        vec![attachment("voice_note.webm", "audio/webm", "/view-files/vault_file_7.enc")],
    );
    assert_eq!(shown.viewers.len(), 1);
    let v = &shown.viewers[0];
    assert_eq!(v.kind, AttachmentKind::Audio);
    assert_eq!(v.media_url, "/view-files/vault_file_7.enc");
    assert_eq!(v.file_type, "audio/webm");
    assert_eq!(v.file_key, "K");
    assert_eq!(v.nonce_base, "N");
    assert!(shown.text.is_none());
}

#[test]
fn viewers_follow_attachment_order() {
    let shown = message_viewer(
        Some("hello".to_string()),
        vec![
            attachment("notes.PDF", "application/octet-stream", "/a"),
            attachment("Photo.JPG", "", "/b"),
            attachment("clip.mp4", "video/mp4", "/c"),
            attachment("bundle.tar", "", "/d"),
            attachment("readme", "text/plain", "/e"),
        ],
    );
    let kinds: Vec<AttachmentKind> = shown.viewers.iter().map(|v| v.kind).collect();
    assert_eq!(
        kinds,
        vec![AttachmentKind::Pdf, AttachmentKind::Image, AttachmentKind::Video, AttachmentKind::Archive, AttachmentKind::Other]
    );
    let urls: Vec<&str> = shown.viewers.iter().map(|v| v.media_url.as_str()).collect();
    assert_eq!(urls, vec!["/a", "/b", "/c", "/d", "/e"]);
    assert_eq!(shown.viewers[4].file_name, "readme");
    assert_eq!(shown.text.as_deref(), Some("hello"));
}

#[test]
fn text_only_message_has_no_viewers() {
    let shown = message_viewer(Some(" hi ".to_string()), vec![]);
    assert!(shown.viewers.is_empty());
    assert_eq!(shown.text.as_deref(), Some(" hi "));
    assert!(message_viewer(None, vec![]).text.is_none());
    assert!(message_viewer(Some(String::new()), vec![]).text.is_none());
}

#[test]
fn image_source_is_standard_base64() {
    assert_eq!(image_data_url("image/png", b"Man"), "data:image/png;base64,TWFu");
    assert_eq!(image_data_url("", b"Ma"), "data:image/jpeg;base64,TWE=");
    assert_eq!(image_data_url("image/gif", b"M"), "data:image/gif;base64,TQ==");
    assert_eq!(image_data_url("image/gif", &[0xfb, 0xff]), "data:image/gif;base64,+/8=");
}
