//! Text helpers: characters of a string, whitespace, trimming, searching and removing
//! patterns, and hexadecimal encoding.
use vstd::prelude::*;

use crate::primitives::push_char;

verus! {

broadcast use vstd::string::group_string_axioms;

/// The characters of a string, in order.
pub fn chars_of(s: &str) -> (r: Vec<char>)
    ensures
        r@ == s@,
{
    let mut r: Vec<char> = Vec::new();
    for c in it: s.chars()
        invariant
            it.seq() == s@,
            r@ == it.seq().take(it.index()),
    {
        r.push(c);
        assert(r@ =~= it.seq().take(it.index() + 1));
    }
    assert(r@ =~= s@);
    r
}

/// A string made of the given characters.
pub fn string_of(chars: &Vec<char>) -> (r: String)
    ensures
        r@ == chars@,
{
    let mut r = String::new();
    let mut i: usize = 0;
    while i < chars.len()
        invariant
            i <= chars@.len(),
            r@ == chars@.take(i as int),
        decreases chars@.len() - i,
    {
        push_char(&mut r, chars[i]);
        i += 1;
        assert(r@ =~= chars@.take(i as int));
    }
    assert(chars@.take(chars@.len() as int) =~= chars@);
    r
}

/// Unicode's White_Space property (what `char::is_whitespace` tests).
pub open spec fn is_white_space(c: char) -> bool {
    let u = c as u32;
    (0x9 <= u <= 0xD) || u == 0x20 || u == 0x85 || u == 0xA0 || u == 0x1680 || (0x2000 <= u <= 0x200A) || u
        == 0x2028 || u == 0x2029 || u == 0x202F || u == 0x205F || u == 0x3000
}

/// Whether a character has Unicode's White_Space property.
pub fn char_is_whitespace(c: char) -> (b: bool)
    ensures
        b == is_white_space(c),
{
    let u = c as u32;
    (0x9 <= u && u <= 0xD) || u == 0x20 || u == 0x85 || u == 0xA0 || u == 0x1680 || (0x2000 <= u && u <= 0x200A)
        || u == 0x2028 || u == 0x2029 || u == 0x202F || u == 0x205F || u == 0x3000
}

/// The text without its leading white space.
pub open spec fn trim_start_spec(s: Seq<char>) -> Seq<char>
    decreases s.len(),
{
    if s.len() > 0 && is_white_space(s[0]) {
        trim_start_spec(s.drop_first())
    } else {
        s
    }
}

/// The text without its trailing white space.
pub open spec fn trim_end_spec(s: Seq<char>) -> Seq<char>
    decreases s.len(),
{
    if s.len() > 0 && is_white_space(s.last()) {
        trim_end_spec(s.drop_last())
    } else {
        s
    }
}

/// The text without its leading and trailing white space (what `str::trim` gives).
pub open spec fn trim_spec(s: Seq<char>) -> Seq<char> {
    trim_end_spec(trim_start_spec(s))
}

proof fn lemma_trim_start_skip(s: Seq<char>, i: int)
    requires
        0 <= i <= s.len(),
        forall|j: int| 0 <= j < i ==> is_white_space(#[trigger] s[j]),
    ensures
        trim_start_spec(s) == trim_start_spec(s.skip(i)),
    decreases i,
{
    if i > 0 {
        assert(s.drop_first().skip(i - 1) =~= s.skip(i));
        lemma_trim_start_skip(s.drop_first(), i - 1);
    } else {
        assert(s.skip(0) =~= s);
    }
}

proof fn lemma_trim_end_take(s: Seq<char>, i: int)
    requires
        0 <= i <= s.len(),
        forall|j: int| i <= j < s.len() ==> is_white_space(#[trigger] s[j]),
    ensures
        trim_end_spec(s) == trim_end_spec(s.take(i)),
    decreases s.len() - i,
{
    if i < s.len() {
        assert(s.drop_last().take(i) =~= s.take(i));
        lemma_trim_end_take(s.drop_last(), i);
    } else {
        assert(s.take(i) =~= s);
    }
}

/// The text with its leading and trailing white space removed.
pub fn trim(s: &str) -> (r: String)
    ensures
        r@ == trim_spec(s@),
{
    let cs = chars_of(s);
    let mut lo: usize = 0;
    while lo < cs.len() && char_is_whitespace(cs[lo])
        invariant
            lo <= cs@.len(),
            forall|j: int| 0 <= j < lo ==> is_white_space(#[trigger] cs@[j]),
        decreases cs@.len() - lo,
    {
        lo += 1;
    }
    proof {
        lemma_trim_start_skip(cs@, lo as int);
    }
    let ghost rest = cs@.skip(lo as int);
    assert(rest.len() == 0 || !is_white_space(rest[0]));
    assert(trim_start_spec(rest) == rest);
    let mut hi: usize = cs.len();
    while hi > lo && char_is_whitespace(cs[hi - 1])
        invariant
            lo <= hi <= cs@.len(),
            forall|j: int| hi <= j < cs@.len() ==> is_white_space(#[trigger] cs@[j]),
        decreases hi,
    {
        hi -= 1;
    }
    proof {
        let t = rest.take(hi - lo);
        assert forall|j: int| hi - lo <= j < rest.len() implies is_white_space(#[trigger] rest[j]) by {
            assert(rest[j] == cs@[j + lo]);
        }
        lemma_trim_end_take(rest, hi - lo);
        assert(t.len() == 0 || !is_white_space(t.last())) by {
            if t.len() > 0 {
                assert(t.last() == cs@[hi - 1]);
            }
        }
    }
    let mut out: Vec<char> = Vec::new();
    let mut k: usize = lo;
    while k < hi
        invariant
            lo <= k <= hi <= cs@.len(),
            out@ == cs@.subrange(lo as int, k as int),
        decreases hi - k,
    {
        out.push(cs[k]);
        k += 1;
        assert(out@ =~= cs@.subrange(lo as int, k as int));
    }
    assert(out@ =~= rest.take(hi - lo));
    string_of(&out)
}

/// The text without any white-space character.
pub open spec fn strip_white_space_spec(s: Seq<char>) -> Seq<char> {
    s.filter(|c: char| !is_white_space(c))
}

/// The text with every white-space character removed.
pub fn strip_whitespace(s: &str) -> (r: String)
    ensures
        r@ == strip_white_space_spec(s@),
{
    let cs = chars_of(s);
    let mut out: Vec<char> = Vec::new();
    let mut i: usize = 0;
    while i < cs.len()
        invariant
            i <= cs@.len(),
            out@ == cs@.take(i as int).filter(|c: char| !is_white_space(c)),
        decreases cs@.len() - i,
    {
        let c = cs[i];
        proof {
            reveal_with_fuel(Seq::filter, 1);
            assert(cs@.take(i + 1).drop_last() =~= cs@.take(i as int));
        }
        if !char_is_whitespace(c) {
            out.push(c);
        }
        i += 1;
    }
    assert(cs@.take(cs@.len() as int) =~= cs@);
    string_of(&out)
}

/// The text is empty or all white space (what `str::trim().is_empty()` tests).
pub open spec fn is_blank_spec(s: Seq<char>) -> bool {
    forall|i: int| 0 <= i < s.len() ==> is_white_space(#[trigger] s[i])
}

proof fn lemma_trim_blank(s: Seq<char>)
    ensures
        is_blank_spec(s) <==> trim_spec(s).len() == 0,
    decreases s.len(),
{
    if s.len() > 0 && is_white_space(s[0]) {
        lemma_trim_blank(s.drop_first());
        assert(is_blank_spec(s) <==> is_blank_spec(s.drop_first())) by {
            if is_blank_spec(s.drop_first()) {
                assert forall|i: int| 0 <= i < s.len() implies is_white_space(#[trigger] s[i]) by {
                    if i > 0 {
                        assert(s[i] == s.drop_first()[i - 1]);
                    }
                }
            }
        }
    } else if s.len() > 0 {
        assert(trim_start_spec(s) == s);
        assert(!is_blank_spec(s));
        lemma_trim_end_keeps_first(s);
    } else {
        assert(trim_start_spec(s) == s);
    }
}

proof fn lemma_trim_end_keeps_first(s: Seq<char>)
    requires
        s.len() > 0,
        !is_white_space(s[0]),
    ensures
        trim_end_spec(s).len() > 0,
    decreases s.len(),
{
    if is_white_space(s.last()) {
        assert(s.len() > 1);
        lemma_trim_end_keeps_first(s.drop_last());
    }
}

/// Whether the text is empty or all white space; this is exactly when trimming leaves nothing.
pub fn is_blank(s: &str) -> (b: bool)
    ensures
        b == is_blank_spec(s@),
        b == (trim_spec(s@).len() == 0),
{
    proof {
        lemma_trim_blank(s@);
    }
    let cs = chars_of(s);
    let mut i: usize = 0;
    while i < cs.len()
        invariant
            i <= cs@.len(),
            cs@ == s@,
            is_blank_spec(s@) <==> trim_spec(s@).len() == 0,
            forall|j: int| 0 <= j < i ==> is_white_space(#[trigger] cs@[j]),
        decreases cs@.len() - i,
    {
        if !char_is_whitespace(cs[i]) {
            assert(!is_blank_spec(s@)) by {
                assert(s@[i as int] == cs@[i as int]);
            }
            return false;
        }
        i += 1;
    }
    true
}

/// `pat` occurs in `s` at position `i`.
pub open spec fn occurs_at(s: Seq<char>, pat: Seq<char>, i: int) -> bool {
    0 <= i && i + pat.len() <= s.len() && s.subrange(i, i + pat.len()) == pat
}

/// `s` begins with `pat`.
pub open spec fn starts_with_spec(s: Seq<char>, pat: Seq<char>) -> bool {
    occurs_at(s, pat, 0)
}

/// `s` ends with `pat`.
pub open spec fn ends_with_spec(s: Seq<char>, pat: Seq<char>) -> bool {
    occurs_at(s, pat, s.len() - pat.len())
}

/// `pat` occurs somewhere in `s`.
pub open spec fn contains_spec(s: Seq<char>, pat: Seq<char>) -> bool {
    exists|i: int| #[trigger] occurs_at(s, pat, i)
}

/// Whether `pat` occurs in `s` at position `i`.
pub fn occurs_at_exec(s: &Vec<char>, pat: &Vec<char>, i: usize) -> (b: bool)
    ensures
        b == occurs_at(s@, pat@, i as int),
{
    if i > s.len() || pat.len() > s.len() - i {
        return false;
    }
    let mut j: usize = 0;
    let sl = s.len();
    while j < pat.len()
        invariant
            sl == s@.len(),
            j <= pat@.len(),
            i + pat@.len() <= s@.len(),
            forall|k: int| 0 <= k < j ==> s@[i + k] == pat@[k],
        decreases pat@.len() - j,
    {
        assert(i + j < s@.len());
        if s[i + j] != pat[j] {
            assert(s@.subrange(i as int, i + pat@.len())[j as int] != pat@[j as int]);
            return false;
        }
        j += 1;
    }
    assert(s@.subrange(i as int, i + pat@.len()) =~= pat@);
    true
}

/// Whether `s` begins with `pat`.
pub fn starts_with(s: &Vec<char>, pat: &Vec<char>) -> (b: bool)
    ensures
        b == starts_with_spec(s@, pat@),
{
    occurs_at_exec(s, pat, 0)
}

/// Whether `s` ends with `pat`.
pub fn ends_with(s: &Vec<char>, pat: &Vec<char>) -> (b: bool)
    ensures
        b == ends_with_spec(s@, pat@),
{
    if pat.len() > s.len() {
        return false;
    }
    occurs_at_exec(s, pat, s.len() - pat.len())
}

/// Whether `pat` occurs somewhere in `s`.
pub fn contains(s: &Vec<char>, pat: &Vec<char>) -> (b: bool)
    ensures
        b == contains_spec(s@, pat@),
{
    let mut i: usize = 0;
    while i < s.len()
        invariant
            i <= s@.len(),
            forall|k: int| 0 <= k < i ==> !#[trigger] occurs_at(s@, pat@, k),
        decreases s@.len() - i,
    {
        if occurs_at_exec(s, pat, i) {
            return true;
        }
        i += 1;
    }
    if occurs_at_exec(s, pat, i) {
        return true;
    }
    assert forall|k: int| !#[trigger] occurs_at(s@, pat@, k) by {
        if 0 <= k <= i {
        }
    }
    false
}

/// Whether two texts are the same.
pub fn text_eq(a: &str, b: &str) -> (r: bool)
    ensures
        r == (a@ == b@),
{
    let x = chars_of(a);
    let y = chars_of(b);
    if x.len() != y.len() {
        return false;
    }
    let r = starts_with(&x, &y);
    assert(x@.subrange(0, y@.len() as int) =~= x@);
    r
}

/// Whether the text `pat` occurs in `s`.
pub fn contains_text(s: &Vec<char>, pat: &str) -> (b: bool)
    ensures
        b == contains_spec(s@, pat@),
{
    contains(s, &chars_of(pat))
}

/// Whether `s` begins with the text `pat`.
pub fn starts_with_text(s: &Vec<char>, pat: &str) -> (b: bool)
    ensures
        b == starts_with_spec(s@, pat@),
{
    starts_with(s, &chars_of(pat))
}

/// Whether `s` ends with the text `pat`.
pub fn ends_with_text(s: &Vec<char>, pat: &str) -> (b: bool)
    ensures
        b == ends_with_spec(s@, pat@),
{
    ends_with(s, &chars_of(pat))
}

/// `s` with every occurrence of `pat` removed, scanning from the left and never overlapping
/// (what `str::replace(pat, "")` gives for a non-empty `pat`).
pub open spec fn remove_all(s: Seq<char>, pat: Seq<char>) -> Seq<char>
    decreases s.len(),
{
    if pat.len() == 0 || s.len() < pat.len() {
        s
    } else if s.take(pat.len() as int) == pat {
        remove_all(s.skip(pat.len() as int), pat)
    } else {
        seq![s[0]] + remove_all(s.skip(1), pat)
    }
}

/// `s` with every occurrence of `pat` removed, scanning from the left.
pub fn remove_all_exec(s: &Vec<char>, pat: &Vec<char>) -> (r: Vec<char>)
    ensures
        r@ == remove_all(s@, pat@),
{
    if pat.len() == 0 {
        return s.clone();
    }
    let mut out: Vec<char> = Vec::new();
    let mut i: usize = 0;
    assert(s@.skip(0) =~= s@);
    assert(out@ + remove_all(s@, pat@) =~= remove_all(s@, pat@));
    while i < s.len()
        invariant
            i <= s@.len(),
            pat@.len() > 0,
            out@ + remove_all(s@.skip(i as int), pat@) == remove_all(s@, pat@),
        decreases s@.len() - i,
    {
        let ghost rest = s@.skip(i as int);
        if pat.len() <= s.len() - i && occurs_at_exec(s, pat, i) {
            assert(rest.take(pat@.len() as int) =~= s@.subrange(i as int, i + pat@.len()));
            assert(rest.skip(pat@.len() as int) =~= s@.skip(i + pat@.len()));
            i += pat.len();
        } else {
            assert(rest.len() < pat@.len() || rest.take(pat@.len() as int) != pat@) by {
                if rest.len() >= pat@.len() {
                    assert(rest.take(pat@.len() as int) =~= s@.subrange(i as int, i + pat@.len()));
                }
            }
            if pat.len() > s.len() - i {
                assert(remove_all(rest, pat@) == rest);
                let ghost before = out@;
                let mut k: usize = i;
                while k < s.len()
                    invariant
                        i <= k <= s@.len(),
                        out@ == before + s@.subrange(i as int, k as int),
                    decreases s@.len() - k,
                {
                    out.push(s[k]);
                    k += 1;
                    assert(out@ =~= before + s@.subrange(i as int, k as int));
                }
                assert(s@.subrange(i as int, s@.len() as int) =~= rest);
                assert(s@.skip(s@.len() as int) =~= Seq::<char>::empty());
                i = k;
            } else {
                assert(rest.skip(1) =~= s@.skip(i + 1));
                let ghost before = out@;
                out.push(s[i]);
                assert(out@ =~= before + seq![rest[0]]);
                assert(out@ + remove_all(s@.skip(i + 1), pat@) =~= before + remove_all(rest, pat@));
                i += 1;
            }
        }
    }
    assert(s@.skip(i as int) =~= Seq::<char>::empty());
    assert(out@ + Seq::<char>::empty() =~= out@);
    out
}

/// Removing a pattern never lengthens a text; when nothing is shortened, the pattern does not
/// occur and the text is unchanged.
pub proof fn lemma_remove_all_len(s: Seq<char>, pat: Seq<char>)
    requires
        pat.len() > 0,
    ensures
        remove_all(s, pat).len() <= s.len(),
        remove_all(s, pat).len() == s.len() ==> remove_all(s, pat) == s && !contains_spec(s, pat),
    decreases s.len(),
{
    if s.len() < pat.len() {
        assert forall|i: int| !#[trigger] occurs_at(s, pat, i) by {}
    } else if s.take(pat.len() as int) == pat {
        lemma_remove_all_len(s.skip(pat.len() as int), pat);
    } else {
        let t = s.skip(1);
        lemma_remove_all_len(t, pat);
        if remove_all(s, pat).len() == s.len() {
            assert(seq![s[0]] + t =~= s);
            assert forall|i: int| !#[trigger] occurs_at(s, pat, i) by {
                if occurs_at(s, pat, i) {
                    if i == 0 {
                        assert(s.subrange(0, pat.len() as int) =~= s.take(pat.len() as int));
                    } else {
                        assert(t.subrange(i - 1, i - 1 + pat.len()) =~= s.subrange(i, i + pat.len()));
                        assert(occurs_at(t, pat, i - 1));
                    }
                }
            }
        }
    }
}

/// The lower-case hexadecimal digit for a value below sixteen.
pub open spec fn hex_digit(v: u8) -> char {
    if v < 10 {
        (('0' as u8) + v) as char
    } else {
        (('a' as u8) + (v - 10)) as char
    }
}

/// Lower-case hexadecimal text of a byte string: two digits per byte, high nibble first.
pub open spec fn hex_lower(bytes: Seq<u8>) -> Seq<char>
    decreases bytes.len(),
{
    if bytes.len() == 0 {
        Seq::empty()
    } else {
        hex_lower(bytes.drop_last()) + seq![hex_digit(bytes.last() / 16), hex_digit(bytes.last() % 16)]
    }
}

fn hex_digit_exec(v: u8) -> (c: char)
    requires
        v < 16,
    ensures
        c == hex_digit(v),
{
    if v < 10 {
        (48u8 + v) as char
    } else {
        (97u8 + (v - 10)) as char
    }
}

/// Lower-case hexadecimal text of a byte string.
pub fn hex_encode(bytes: &[u8]) -> (r: String)
    ensures
        r@ == hex_lower(bytes@),
{
    let mut out = String::new();
    let mut i: usize = 0;
    while i < bytes.len()
        invariant
            i <= bytes@.len(),
            out@ == hex_lower(bytes@.take(i as int)),
        decreases bytes@.len() - i,
    {
        let b = bytes[i];
        push_char(&mut out, hex_digit_exec(b / 16));
        push_char(&mut out, hex_digit_exec(b % 16));
        proof {
            assert(bytes@.take(i + 1).drop_last() =~= bytes@.take(i as int));
        }
        i += 1;
    }
    assert(bytes@.take(bytes@.len() as int) =~= bytes@);
    out
}

} // verus!
