//! Showing a received attachment: which viewer it gets, how its downloaded bytes are read back,
//! and the source that an image is displayed from.
use vstd::prelude::*;

use crate::files::{decrypt_file_spec, decrypt_raw_file_bytes, file_nonce_unusable, file_nonce_usable, FileCryptoError};
use crate::primitives::{
    aead_len_ok, b64_decode, b64_encode, base64_decode, chacha_seal, base64_encode, json_byte_array, lowercase,
    parse_json_byte_array, string_from_utf8, to_lowercase,
};
use crate::bytes::exact_array;
use crate::chat_client::Attachment;
use crate::text::{is_blank, is_blank_spec, chars_of, contains_spec, contains_text, ends_with_spec, ends_with_text, starts_with_spec, starts_with_text};
use vstd::utf8::{decode_utf8, encode_utf8, valid_utf8};

verus! {

/// The viewer that shows an attachment.
#[derive(Clone, Copy, PartialEq, Eq, Structural, Debug)]
pub enum AttachmentKind {
    Image,
    Audio,
    Video,
    Pdf,
    Archive,
    /// Shown as a plain link.
    Other,
}

/// An image: by its MIME type (`t`, and `tl` lowercased) or its lowercased name `nl`.
pub open spec fn looks_like_image(t: Seq<char>, tl: Seq<char>, nl: Seq<char>) -> bool {
    ||| starts_with_spec(t, "image/"@)
    ||| contains_spec(tl, "jpg"@)
    ||| contains_spec(tl, "jpeg"@)
    ||| contains_spec(tl, "png"@)
    ||| contains_spec(tl, "webp"@)
    ||| ends_with_spec(nl, ".jpg"@)
    ||| ends_with_spec(nl, ".jpeg"@)
    ||| ends_with_spec(nl, ".png"@)
    ||| ends_with_spec(nl, ".webp"@)
}

/// A video: by its MIME type, or by a video extension when the type is not an audio type.
pub open spec fn looks_like_video(t: Seq<char>, tl: Seq<char>, nl: Seq<char>) -> bool {
    ||| starts_with_spec(t, "video/"@)
    ||| contains_spec(tl, "video/mp4"@)
    ||| contains_spec(tl, "video/webm"@)
    ||| contains_spec(tl, "video/ogg"@)
    ||| (!starts_with_spec(t, "audio/"@) && (ends_with_spec(nl, ".mp4"@) || ends_with_spec(nl, ".webm"@)
        || ends_with_spec(nl, ".ogg"@)))
}

/// An audio clip: by its MIME type or its extension.
pub open spec fn looks_like_audio(t: Seq<char>, tl: Seq<char>, nl: Seq<char>) -> bool {
    ||| starts_with_spec(t, "audio/"@)
    ||| contains_spec(tl, "mp3"@)
    ||| contains_spec(tl, "wav"@)
    ||| contains_spec(tl, "mpeg"@)
    ||| contains_spec(tl, "ogg"@)
    ||| ends_with_spec(nl, ".mp3"@)
    ||| ends_with_spec(nl, ".wav"@)
    ||| ends_with_spec(nl, ".m4a"@)
    ||| ends_with_spec(nl, ".ogg"@)
}

/// A PDF document.
pub open spec fn looks_like_pdf(t: Seq<char>, nl: Seq<char>) -> bool {
    contains_spec(t, "pdf"@) || ends_with_spec(nl, ".pdf"@)
}

/// An archive.
pub open spec fn looks_like_archive(t: Seq<char>, tl: Seq<char>, nl: Seq<char>) -> bool {
    ||| contains_spec(t, "zip"@)
    ||| contains_spec(tl, "x-rar-compressed"@)
    ||| contains_spec(tl, "x-tar"@)
    ||| ends_with_spec(nl, ".zip"@)
    ||| ends_with_spec(nl, ".rar"@)
    ||| ends_with_spec(nl, ".tar"@)
    ||| ends_with_spec(nl, ".gz"@)
}

/// The viewer of an attachment with MIME type `t` and name `n`: the first of image, audio,
/// video, PDF and archive that it looks like, else a plain link.
pub open spec fn attachment_kind_spec(t: Seq<char>, n: Seq<char>) -> AttachmentKind {
    let tl = lowercase(t);
    let nl = lowercase(n);
    if looks_like_image(t, tl, nl) {
        AttachmentKind::Image
    } else if looks_like_audio(t, tl, nl) {
        AttachmentKind::Audio
    } else if looks_like_video(t, tl, nl) {
        AttachmentKind::Video
    } else if looks_like_pdf(t, nl) {
        AttachmentKind::Pdf
    } else if looks_like_archive(t, tl, nl) {
        AttachmentKind::Archive
    } else {
        AttachmentKind::Other
    }
}

/// Law of the viewers: an attachment whose MIME type starts with `image/` is shown as an image,
/// whatever its name; one whose type starts with `audio/` is played as audio unless it also looks
/// like an image; one whose type starts with `video/` is played as a video unless it looks like an
/// image or audio; one whose type mentions `pdf` is shown as a document unless it looks like an
/// image, audio or video; and an attachment is shown as a plain link only when its type names none
/// of image, audio, video, PDF or zip.
pub proof fn lemma_mime_type_picks_viewer(t: Seq<char>, n: Seq<char>)
    ensures
        starts_with_spec(t, "image/"@) ==> attachment_kind_spec(t, n) == AttachmentKind::Image,
        starts_with_spec(t, "audio/"@) && !looks_like_image(t, lowercase(t), lowercase(n)) ==> attachment_kind_spec(t, n)
            == AttachmentKind::Audio,
        starts_with_spec(t, "video/"@) && !looks_like_image(t, lowercase(t), lowercase(n)) && !looks_like_audio(
            t,
            lowercase(t),
            lowercase(n),
        ) ==> attachment_kind_spec(t, n) == AttachmentKind::Video,
        contains_spec(t, "pdf"@) && !looks_like_image(t, lowercase(t), lowercase(n)) && !looks_like_audio(
            t,
            lowercase(t),
            lowercase(n),
        ) && !looks_like_video(t, lowercase(t), lowercase(n)) ==> attachment_kind_spec(t, n) == AttachmentKind::Pdf,
        attachment_kind_spec(t, n) == AttachmentKind::Other ==> !starts_with_spec(t, "image/"@) && !starts_with_spec(
            t,
            "audio/"@,
        ) && !starts_with_spec(t, "video/"@) && !contains_spec(t, "pdf"@) && !contains_spec(t, "zip"@),
{
}

/// Chooses the viewer of an attachment from its MIME type and its name.
pub fn classify_attachment(file_type: &str, file_name: &str) -> (k: AttachmentKind)
    ensures
        k == attachment_kind_spec(file_type@, file_name@),
{
    let t = chars_of(file_type);
    let tl = chars_of(to_lowercase(file_type).as_str());
    let nl = chars_of(to_lowercase(file_name).as_str());
    let is_image = starts_with_text(&t, "image/") || contains_text(&tl, "jpg") || contains_text(&tl, "jpeg")
        || contains_text(&tl, "png") || contains_text(&tl, "webp") || ends_with_text(&nl, ".jpg")
        || ends_with_text(&nl, ".jpeg") || ends_with_text(&nl, ".png") || ends_with_text(&nl, ".webp");
    let is_video = starts_with_text(&t, "video/") || contains_text(&tl, "video/mp4") || contains_text(
        &tl,
        "video/webm",
    ) || contains_text(&tl, "video/ogg") || (!starts_with_text(&t, "audio/") && (ends_with_text(&nl, ".mp4")
        || ends_with_text(&nl, ".webm") || ends_with_text(&nl, ".ogg")));
    let is_audio = starts_with_text(&t, "audio/") || contains_text(&tl, "mp3") || contains_text(&tl, "wav")
        || contains_text(&tl, "mpeg") || contains_text(&tl, "ogg") || ends_with_text(&nl, ".mp3")
        || ends_with_text(&nl, ".wav") || ends_with_text(&nl, ".m4a") || ends_with_text(&nl, ".ogg");
    let is_pdf = contains_text(&t, "pdf") || ends_with_text(&nl, ".pdf");
    let is_archive = contains_text(&t, "zip") || contains_text(&tl, "x-rar-compressed") || contains_text(
        &tl,
        "x-tar",
    ) || ends_with_text(&nl, ".zip") || ends_with_text(&nl, ".rar") || ends_with_text(&nl, ".tar")
        || ends_with_text(&nl, ".gz");
    if is_image {
        AttachmentKind::Image
    } else if is_audio {
        AttachmentKind::Audio
    } else if is_video {
        AttachmentKind::Video
    } else if is_pdf {
        AttachmentKind::Pdf
    } else if is_archive {
        AttachmentKind::Archive
    } else {
        AttachmentKind::Other
    }
}

/// A download whose first byte is `[`, which is read as a JSON array of bytes.
pub open spec fn downloaded_as_json(raw: Seq<u8>) -> bool {
    raw.len() > 0 && raw[0] == 91u8
}

/// The encrypted bytes in a download. Storage that returned the bytes as a JSON array (its first
/// byte is `[`) is read as one, and what does not read as one counts as no bytes; anything else is
/// the raw ciphertext.
pub open spec fn downloaded_ciphertext(raw: Seq<u8>) -> Seq<u8> {
    if downloaded_as_json(raw) {
        let text = if valid_utf8(raw) {
            decode_utf8(raw)
        } else {
            Seq::<char>::empty()
        };
        match json_byte_array(text) {
            Some(b) => b,
            None => Seq::<u8>::empty(),
        }
    } else {
        raw
    }
}

/// Reads the encrypted bytes out of a download.
pub fn normalize_downloaded_bytes(raw_downloaded: Vec<u8>) -> (r: Vec<u8>)
    ensures
        r@ == downloaded_ciphertext(raw_downloaded@),
{
    if raw_downloaded.len() > 0 && raw_downloaded[0] == 91u8 {
        let text = match string_from_utf8(raw_downloaded) {
            Some(s) => s,
            None => String::new(),
        };
        match parse_json_byte_array(text.as_str()) {
            Some(b) => b,
            None => Vec::new(),
        }
    } else {
        raw_downloaded
    }
}

/// The 32-byte file key that an attachment's key field (base64) carries.
pub open spec fn file_key_spec(key_base64: Seq<char>) -> Option<Seq<u8>> {
    match b64_decode(key_base64) {
        Some(k) => if k.len() == 32 {
            Some(k)
        } else {
            None
        },
        None => None,
    }
}

/// Reads an attachment's file key from its base64 field (`None` unless it decodes to 32 bytes).
pub fn decode_file_key(key_base64: &str) -> (r: Option<[u8; 32]>)
    ensures
        match file_key_spec(key_base64@) {
            Some(k) => r matches Some(a) && a@ == k,
            None => r is None,
        },
        forall|k: Seq<u8>| k.len() == 32 && key_base64@ == #[trigger] b64_encode(k) ==> (r matches Some(a) && a@ == k),
{
    match base64_decode(key_base64) {
        Some(k) => if k.len() == 32 {
            Some(exact_array::<32>(k.as_slice()))
        } else {
            None
        },
        None => None,
    }
}

/// The plaintext of a downloaded attachment, given its key field and nonce field; `None` when the
/// key does not read or the bytes do not decrypt.
pub open spec fn recovered_attachment(raw: Seq<u8>, key_base64: Seq<char>, nonce_base64: Seq<char>) -> Option<Seq<u8>> {
    match file_key_spec(key_base64) {
        None => None,
        Some(k) => match decrypt_file_spec(downloaded_ciphertext(raw), nonce_base64, k) {
            Ok(p) => Some(p),
            Err(_) => None,
        },
    }
}

/// The key field reads but the nonce field yields a nonce the cipher cannot take: the one case in
/// which recovering an attachment cannot proceed.
pub open spec fn attachment_unreadable(key_base64: Seq<char>, nonce_base64: Seq<char>) -> bool {
    file_key_spec(key_base64) is Some && file_nonce_unusable(nonce_base64)
}

/// Decrypts a downloaded attachment with the key and nonce fields of its metadata.
pub fn recover_attachment_bytes(raw_downloaded: Vec<u8>, key_base64: &str, nonce_base64: &str) -> (r: Option<Vec<u8>>)
    requires
        !attachment_unreadable(key_base64@, nonce_base64@),
    ensures
        match recovered_attachment(raw_downloaded@, key_base64@, nonce_base64@) {
            Some(p) => r matches Some(v) && v@ == p,
            None => r is None,
        },
        forall|key: Seq<u8>, nonce: Seq<u8>, plain: Seq<u8>|
            key.len() == 32 && nonce.len() == 12 && aead_len_ok(plain.len()) && raw_downloaded@ == #[trigger] chacha_seal(
                key,
                nonce,
                plain,
            ) && !downloaded_as_json(raw_downloaded@) && key_base64@ == b64_encode(key) && nonce_base64@ == b64_encode(
                encode_utf8(b64_encode(nonce)),
            ) ==> (r matches Some(v) && v@ == plain),
{
    let ghost raw = raw_downloaded@;
    let encrypted = normalize_downloaded_bytes(raw_downloaded);
    let key = match decode_file_key(key_base64) {
        Some(k) => k,
        None => return None,
    };
    let d = decrypt_raw_file_bytes(encrypted.as_slice(), nonce_base64, &key);
    assert forall|k: Seq<u8>, n: Seq<u8>, p: Seq<u8>|
        k.len() == 32 && n.len() == 12 && aead_len_ok(p.len()) && raw == #[trigger] chacha_seal(k, n, p)
            && !downloaded_as_json(raw) && key_base64@ == b64_encode(k) && nonce_base64@ == b64_encode(encode_utf8(b64_encode(n)))
        implies (d matches Ok(v) && v@ == p) by {
        assert(key@ == k);
        assert(encrypted@ == raw);
    }
    match d {
        Ok(p) => Some(p),
        Err(_) => None,
    }
}

/// Whether an attachment can be recovered at all (the complement of `attachment_unreadable`).
pub fn attachment_readable(key_base64: &str, nonce_base64: &str) -> (b: bool)
    ensures
        b == !attachment_unreadable(key_base64@, nonce_base64@),
{
    match decode_file_key(key_base64) {
        None => true,
        Some(_) => file_nonce_usable(nonce_base64),
    }
}

/// Decrypts a downloaded attachment when it can be; `None` when the nonce field cannot be used.
pub fn try_recover_attachment_bytes(raw_downloaded: Vec<u8>, key_base64: &str, nonce_base64: &str) -> (r: Option<Option<Vec<u8>>>)
    ensures
        attachment_unreadable(key_base64@, nonce_base64@) <==> r is None,
        r matches Some(o) ==> match recovered_attachment(raw_downloaded@, key_base64@, nonce_base64@) {
            Some(p) => o matches Some(v) && v@ == p,
            None => o is None,
        },
{
    if attachment_readable(key_base64, nonce_base64) {
        Some(recover_attachment_bytes(raw_downloaded, key_base64, nonce_base64))
    } else {
        None
    }
}

/// A MIME type, or `fallback` when it is empty.
pub open spec fn mime_or(mime: Seq<char>, fallback: Seq<char>) -> Seq<char> {
    if mime.len() == 0 {
        fallback
    } else {
        mime
    }
}

/// The type under which a decrypted audio clip is played: its own, or `audio/mpeg`.
pub fn audio_mime(mime: &str) -> (r: String)
    ensures
        r@ == mime_or(mime@, "audio/mpeg"@),
{
    if mime.is_empty() {
        String::from_str("audio/mpeg")
    } else {
        String::from_str(mime)
    }
}

/// The `data:` URL that shows a decrypted image: its type (or `image/jpeg`) and its base64.
pub fn image_data_url(mime: &str, image_bytes: &[u8]) -> (r: String)
    ensures
        r@ == "data:"@ + mime_or(mime@, "image/jpeg"@) + ";base64,"@ + b64_encode(image_bytes@),
{
    let mut s = String::from_str("data:");
    if mime.is_empty() {
        s.append("image/jpeg");
    } else {
        s.append(mime);
    }
    s.append(";base64,");
    let encoded = base64_encode(image_bytes);
    s.append(encoded.as_str());
    s
}

/// One attachment of a message as its viewer shows it.
pub struct AttachmentViewer {
    /// Which viewer shows it.
    pub kind: AttachmentKind,
    /// Where its encrypted bytes are fetched from.
    pub media_url: String,
    pub file_type: String,
    pub file_key: String,
    pub nonce_base: String,
    /// Its name: the alternative text of an image, the label of a document, archive or link.
    pub file_name: String,
}

/// What a message bubble shows: a viewer for each attachment, in the order of the attachments,
/// then the message text, if there is any that is not blank.
pub struct MessageViewerContent {
    pub viewers: Vec<AttachmentViewer>,
    pub text: Option<String>,
}

/// The viewer of one attachment: its kind, and the attachment's fields handed to it.
pub open spec fn viewer_of(v: AttachmentViewer, a: Attachment) -> bool {
    &&& v.kind == attachment_kind_spec(a.file_type@, a.file_name@)
    &&& v.media_url@ == a.storage_url@
    &&& v.file_type@ == a.file_type@
    &&& v.file_key@ == a.file_key@
    &&& v.nonce_base@ == a.nonce_base@
    &&& v.file_name@ == a.file_name@
}

/// Lays out a message bubble: one viewer per attachment, in order, and the text shown under them.
pub fn message_viewer(msg_content: Option<String>, msg_attachments: Vec<Attachment>) -> (v: MessageViewerContent)
    ensures
        v.viewers@.len() == msg_attachments@.len(),
        forall|i: int| 0 <= i < msg_attachments@.len() ==> viewer_of(#[trigger] v.viewers@[i], msg_attachments@[i]),
        match msg_content {
            Some(c) => if is_blank_spec(c@) {
                v.text is None
            } else {
                v.text matches Some(t) && t@ == c@
            },
            None => v.text is None,
        },
{
    let mut viewers: Vec<AttachmentViewer> = Vec::new();
    let mut i: usize = 0;
    while i < msg_attachments.len()
        invariant
            i <= msg_attachments@.len(),
            viewers@.len() == i,
            forall|j: int| 0 <= j < i ==> viewer_of(#[trigger] viewers@[j], msg_attachments@[j]),
        decreases msg_attachments@.len() - i,
    {
        let a = &msg_attachments[i];
        let kind = classify_attachment(a.file_type.as_str(), a.file_name.as_str());
        viewers.push(
            AttachmentViewer {
                kind,
                media_url: String::from_str(a.storage_url.as_str()),
                file_type: String::from_str(a.file_type.as_str()),
                file_key: String::from_str(a.file_key.as_str()),
                nonce_base: String::from_str(a.nonce_base.as_str()),
                file_name: String::from_str(a.file_name.as_str()),
            },
        );
        i += 1;
    }
    let text = match msg_content {
        Some(c) => if is_blank(c.as_str()) {
            None
        } else {
            Some(c)
        },
        None => None,
    };
    MessageViewerContent { viewers, text }
}

} // verus!
