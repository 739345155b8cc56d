//! File names, storage paths and the URLs of stored attachments.
use vstd::prelude::*;

use crate::text::{
    chars_of, contains, contains_spec, lemma_remove_all_len, occurs_at, remove_all, remove_all_exec, starts_with,
    starts_with_spec, string_of,
};

verus! {

/// One cleaning pass over a file name: every `..`, then every `/`, then every `\` removed.
pub open spec fn clean_pass(name: Seq<char>) -> Seq<char> {
    remove_all(remove_all(remove_all(name, ".."@), "/"@), "\\"@)
}

/// Cleaning passes repeated until one changes nothing (a pass can join dots into a new `..`, as
/// `./.` becomes `..`).
pub open spec fn clean_until_stable(name: Seq<char>) -> Seq<char>
    decreases name.len(),
{
    let r = clean_pass(name);
    if r.len() >= name.len() {
        r
    } else {
        clean_until_stable(r)
    }
}

/// The cleaned file name: passes repeated until stable, and a lone `.` (the directory itself)
/// dropped. A name that one pass leaves without `..`, `/` or `\`, and that is not `.`, is what that
/// one pass gives.
pub open spec fn sanitize_spec(name: Seq<char>) -> Seq<char> {
    let r = clean_until_stable(name);
    if r == "."@ {
        Seq::<char>::empty()
    } else {
        r
    }
}

/// A pass that shortens nothing changes nothing, and leaves no `..`, `/` or `\`.
proof fn lemma_stable_pass(name: Seq<char>)
    ensures
        clean_pass(name).len() <= name.len(),
        clean_pass(name).len() == name.len() ==> clean_pass(name) == name && !contains_spec(name, ".."@)
            && !contains_spec(name, "/"@) && !contains_spec(name, "\\"@),
{
    reveal_strlit("..");
    reveal_strlit("/");
    reveal_strlit("\\");
    let a = remove_all(name, ".."@);
    let b = remove_all(a, "/"@);
    lemma_remove_all_len(name, ".."@);
    lemma_remove_all_len(a, "/"@);
    lemma_remove_all_len(b, "\\"@);
}

/// The stable result holds no `..`, `/` or `\`.
proof fn lemma_clean_until_stable(name: Seq<char>)
    ensures
        !contains_spec(clean_until_stable(name), ".."@),
        !contains_spec(clean_until_stable(name), "/"@),
        !contains_spec(clean_until_stable(name), "\\"@),
    decreases name.len(),
{
    lemma_stable_pass(name);
    let r = clean_pass(name);
    if r.len() < name.len() {
        lemma_clean_until_stable(r);
    }
}

/// `pat` of one character occurs in a text exactly when the character does.
proof fn lemma_contains_single(s: Seq<char>, c: char)
    ensures
        contains_spec(s, seq![c]) <==> s.contains(c),
{
    if s.contains(c) {
        let k = choose|k: int| 0 <= k < s.len() && s[k] == c;
        assert(s.subrange(k, k + 1) =~= seq![c]);
        assert(occurs_at(s, seq![c], k));
    }
    if contains_spec(s, seq![c]) {
        let k = choose|k: int| #[trigger] occurs_at(s, seq![c], k);
        assert(s.subrange(k, k + 1)[0] == s[k]);
    }
}

/// One cleaning pass, computed.
fn clean_pass_exec(name: &Vec<char>) -> (r: Vec<char>)
    ensures
        r@ == clean_pass(name@),
{
    let dots = chars_of("..");
    let slash = chars_of("/");
    let backslash = chars_of("\\");
    let a = remove_all_exec(name, &dots);
    let b = remove_all_exec(&a, &slash);
    remove_all_exec(&b, &backslash)
}

/// Cleans an uploaded file's name so that it cannot leave the storage directory: cleaning passes
/// (removing every `..`, then every `/`, then every `\`) are repeated until one changes nothing,
/// and a lone `.` is dropped. The result holds no separator and no `..`, and is neither `.` nor `..`.
pub fn sanitize_filename(filename: &str) -> (r: String)
    ensures
        r@ == sanitize_spec(filename@),
        !r@.contains('/'),
        !r@.contains('\\'),
        !contains_spec(r@, ".."@),
        r@ != "."@,
        r@ != ".."@,
{
    let mut cur = chars_of(filename);
    let mut next = clean_pass_exec(&cur);
    proof {
        lemma_stable_pass(cur@);
    }
    while next.len() < cur.len()
        invariant
            next@ == clean_pass(cur@),
            clean_until_stable(filename@) == clean_until_stable(cur@),
        decreases cur@.len(),
    {
        cur = next;
        next = clean_pass_exec(&cur);
        proof {
            lemma_stable_pass(cur@);
        }
    }
    proof {
        lemma_stable_pass(cur@);
        lemma_clean_until_stable(cur@);
        reveal_strlit("/");
        reveal_strlit("\\");
        reveal_strlit("..");
        reveal_strlit(".");
        assert("/"@ =~= seq!['/']);
        assert("\\"@ =~= seq!['\\']);
        lemma_contains_single(next@, '/');
        lemma_contains_single(next@, '\\');
        assert(next@ == clean_until_stable(filename@));
        assert(occurs_at(".."@, ".."@, 0)) by {
            assert(".."@.subrange(0, 2) =~= ".."@);
        }
    }
    if next.len() == 1 && next[0] == '.' {
        proof {
            assert(next@ =~= "."@);
        }
        String::new()
    } else {
        proof {
            assert(next@ != "."@);
        }
        string_of(&next)
    }
}

/// `prefix` followed by `rest`, as a new string.
fn joined(prefix: &str, rest: &str) -> (r: String)
    ensures
        r@ == prefix@ + rest@,
{
    let mut s = String::from_str(prefix);
    s.append(rest);
    s
}

/// Where an uploaded file is kept: in the storage directory, under its cleaned name.
pub fn upload_file_path(filename: &str) -> (r: String)
    ensures
        r@ == "./local_cloud_storage/"@ + sanitize_spec(filename@),
{
    let clean = sanitize_filename(filename);
    joined("./local_cloud_storage/", clean.as_str())
}

/// The URL under which an uploaded file is served.
pub fn storage_url(filename: &str) -> (r: String)
    ensures
        r@ == "/view-files/"@ + sanitize_spec(filename@),
{
    let clean = sanitize_filename(filename);
    joined("/view-files/", clean.as_str())
}

/// The `Content-Disposition` value that offers an attachment for download under its name.
pub fn content_disposition(file_name: &str) -> (r: String)
    ensures
        r@ == "attachment; filename=\""@ + file_name@ + "\""@,
{
    let s = joined("attachment; filename=\"", file_name);
    joined(s.as_str(), "\"")
}

/// The path part of an attachment's URL: a loopback URL is mapped into the served directory,
/// a bare file name is placed in it, and anything else is kept.
pub open spec fn attachment_path_spec(url: Seq<char>) -> Seq<char> {
    if contains_spec(url, "127.0.0"@) {
        "/view-files/"@ + remove_all(url, "http://127.0.0"@)
    } else if !starts_with_spec(url, "/view-files/"@) && !starts_with_spec(url, "http"@) {
        "/view-files/"@ + url
    } else {
        url
    }
}

/// The address from which an attachment is downloaded.
pub fn resolve_attachment_url(url: &str) -> (r: String)
    ensures
        r@ == "http://localhost:8000"@ + attachment_path_spec(url@),
{
    let u = chars_of(url);
    let loopback = chars_of("127.0.0");
    let clean = if contains(&u, &loopback) {
        let prefix = chars_of("http://127.0.0");
        let rest = remove_all_exec(&u, &prefix);
        let rest = string_of(&rest);
        joined("/view-files/", rest.as_str())
    } else {
        let served = chars_of("/view-files/");
        let http = chars_of("http");
        if !starts_with(&u, &served) && !starts_with(&u, &http) {
            joined("/view-files/", url)
        } else {
            String::from_str(url)
        }
    };
    joined("http://localhost:8000", clean.as_str())
}

/// Law: the address under which an upload is announced leads back to the stored file: it is
/// served from the storage directory under the same cleaned name, and a client resolves it to that
/// served path, unless the cleaned name contains `127.0.0` (which the client rewrites).
pub proof fn lemma_upload_url_resolves(name: Seq<char>)
    requires
        !contains_spec("/view-files/"@ + sanitize_spec(name), "127.0.0"@),
    ensures
        attachment_path_spec("/view-files/"@ + sanitize_spec(name)) == "/view-files/"@ + sanitize_spec(name),
{
    let u = "/view-files/"@ + sanitize_spec(name);
    reveal_strlit("/view-files/");
    assert(u.subrange(0, 12) =~= "/view-files/"@);
    assert(starts_with_spec(u, "/view-files/"@));
}

/// The decimal digit of a value below ten.
pub open spec fn digit_char(d: nat) -> char {
    ((('0' as u8) as nat + d) as u8) as char
}

/// The decimal text of a number.
pub open spec fn decimal(n: nat) -> Seq<char>
    decreases n,
{
    if n < 10 {
        seq![digit_char(n)]
    } else {
        decimal(n / 10) + seq![digit_char(n % 10)]
    }
}

/// Appends the decimal text of a number.
pub fn push_decimal(out: &mut String, n: u64)
    ensures
        final(out)@ == old(out)@ + decimal(n as nat),
    decreases n,
{
    if n >= 10 {
        push_decimal(out, n / 10);
    }
    let d = (n % 10) as u8;
    crate::primitives::push_char(out, (48u8 + d) as char);
    assert(final(out)@ =~= old(out)@ + decimal(n as nat)) by {
        if n >= 10 {
            assert(decimal(n as nat) == decimal((n / 10) as nat) + seq![digit_char((n % 10) as nat)]);
        }
    }
}

/// The name under which an encrypted upload is stored: `vault_file_` and a timestamp, with `.enc`.
pub open spec fn vault_file_name(timestamp: nat) -> Seq<char> {
    "vault_file_"@ + decimal(timestamp) + ".enc"@
}

/// The address to which an encrypted file is uploaded.
pub fn upload_url(timestamp: u64) -> (r: String)
    ensures
        r@ == "http://localhost:8000/api/upload/"@ + vault_file_name(timestamp as nat),
{
    let mut s = String::from_str("http://localhost:8000/api/upload/vault_file_");
    push_decimal(&mut s, timestamp);
    s.append(".enc");
    proof {
        reveal_strlit("http://localhost:8000/api/upload/vault_file_");
        reveal_strlit("http://localhost:8000/api/upload/");
        reveal_strlit("vault_file_");
        assert("http://localhost:8000/api/upload/vault_file_"@ =~= "http://localhost:8000/api/upload/"@ + "vault_file_"@);
    }
    assert(s@ =~= "http://localhost:8000/api/upload/"@ + vault_file_name(timestamp as nat));
    s
}

} // verus!
