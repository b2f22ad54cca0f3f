use vstd::prelude::*;
use base64::Engine;
use vstd::utf8::{decode_utf8, encode_utf8, is_ascii_chars, valid_utf8};
use vstd::string::StringSliceAdditionalSpecFns;
use crate::text::{concat2, ends_with, is_prefix, is_suffix, push_char, split_on, split_spec, starts_with, views};

verus! {

/// Bytes that an artwork URL escapes besides the non-ASCII ones: the C0
/// controls, DEL, and ` "#%&+=?<>\`:` and the backquote.
pub open spec fn artwork_escaped(b: u8) -> bool {
    b < 0x20 || b == 0x7f || b == 0x20 || b == 0x22 || b == 0x23 || b == 0x25 || b == 0x26
        || b == 0x2b || b == 0x3d || b == 0x3f || b == 0x3c || b == 0x3e || b == 0x60
        || b == 0x5c || b == 0x3a
}

/// Upper-case hexadecimal digit of `d` (< 16).
pub open spec fn hex_char(d: u8) -> char {
    if d < 10 { (48 + d) as char } else { (55 + d) as char }
}

/// A byte as it stands in a percent-encoded string.
pub open spec fn encode_byte(b: u8) -> Seq<char> {
    if b >= 0x80 || artwork_escaped(b) {
        seq!['%', hex_char(b / 16), hex_char(b % 16)]
    } else {
        seq![b as char]
    }
}

/// Percent-encoding of a byte string with the artwork escape set.
pub open spec fn percent_encode_spec(bytes: Seq<u8>) -> Seq<char>
    decreases bytes.len(),
{
    if bytes.len() == 0 {
        Seq::<char>::empty()
    } else {
        percent_encode_spec(bytes.drop_last()) + encode_byte(bytes.last())
    }
}

/// The value of an ASCII hexadecimal digit.
pub open spec fn hex_value(b: u8) -> Option<u8> {
    if 48 <= b <= 57 {
        Some((b - 48) as u8)
    } else if 97 <= b <= 102 {
        Some((b - 87) as u8)
    } else if 65 <= b <= 70 {
        Some((b - 55) as u8)
    } else {
        None
    }
}

/// Percent-decoding of a byte string: `%` followed by two hexadecimal digits
/// stands for the byte they spell; every other byte stands for itself.
pub open spec fn percent_decode_spec(bytes: Seq<u8>) -> Seq<u8>
    decreases bytes.len(),
{
    if bytes.len() == 0 {
        Seq::<u8>::empty()
    } else if bytes[0] == 37 && bytes.len() >= 3 && hex_value(bytes[1]).is_some()
        && hex_value(bytes[2]).is_some() {
        seq![(hex_value(bytes[1]).unwrap() * 16 + hex_value(bytes[2]).unwrap()) as u8]
            + percent_decode_spec(bytes.subrange(3, bytes.len() as int))
    } else {
        seq![bytes[0]] + percent_decode_spec(bytes.drop_first())
    }
}

/// What `String::from_utf8_lossy` makes of a byte string.
pub uninterp spec fn utf8_lossy(bytes: Seq<u8>) -> Seq<char>;

/// The text of a byte string decoded as UTF-8, invalid sequences replaced.
pub open spec fn lossy_text(bytes: Seq<u8>) -> Seq<char> {
    if valid_utf8(bytes) { decode_utf8(bytes) } else { utf8_lossy(bytes) }
}

/// The file path an artwork request with query `query` names.
pub open spec fn request_text(query: Seq<char>) -> Seq<char> {
    match first_with_prefix(split_spec(query, '&'), "p="@) {
        Some(v) => lossy_text(percent_decode_spec(encode_utf8(v))),
        None => Seq::<char>::empty(),
    }
}

/// The first piece that starts with `prefix`, without that prefix.
pub open spec fn first_with_prefix(parts: Seq<Seq<char>>, prefix: Seq<char>) -> Option<Seq<char>>
    decreases parts.len(),
{
    if parts.len() == 0 {
        None
    } else if is_prefix(prefix, parts[0]) {
        Some(parts[0].subrange(prefix.len() as int, parts[0].len() as int))
    } else {
        first_with_prefix(parts.drop_first(), prefix)
    }
}

/// `path` with a leading `~` replaced by the home directory, when one is known.
pub open spec fn expand_home_spec(path: Seq<char>, home: Option<Seq<char>>) -> Seq<char> {
    if path.len() > 0 && path[0] == '~' && home.is_some() {
        home.unwrap() + path.drop_first()
    } else {
        path
    }
}

/// Decodes a byte string as UTF-8, replacing invalid sequences by U+FFFD.
///
/// Trusted wrapper around `String::from_utf8_lossy`: on valid UTF-8 its result
/// is the decoded text; on other input what it gives is only named.
#[verifier::external_body]
fn utf8_lossy_string(bytes: &[u8]) -> (r: String)
    ensures
        r@ == utf8_lossy(bytes@),
        valid_utf8(bytes@) ==> r@ == decode_utf8(bytes@),
{
    String::from_utf8_lossy(bytes).into_owned()
}

fn hex_digit(d: u8) -> (c: char)
    requires
        d < 16,
    ensures
        c == hex_char(d),
{
    if d < 10 { (48 + d) as char } else { (55 + d) as char }
}

fn is_artwork_escaped(b: u8) -> (r: bool)
    ensures
        r == artwork_escaped(b),
{
    b < 0x20 || b == 0x7f || b == 0x20 || b == 0x22 || b == 0x23 || b == 0x25 || b == 0x26
        || b == 0x2b || b == 0x3d || b == 0x3f || b == 0x3c || b == 0x3e || b == 0x60
        || b == 0x5c || b == 0x3a
}

/// Percent-encodes the UTF-8 bytes of `s`: non-ASCII bytes and the artwork
/// escape set become `%XX`, everything else stays.
pub fn percent_encode(s: &str) -> (r: String)
    ensures
        r@ == percent_encode_spec(s.spec_bytes()),
{
    let bytes = s.as_bytes();
    let n = bytes.len();
    let mut out = String::new();
    let mut i: usize = 0;
    while i < n
        invariant
            n == bytes@.len(),
            bytes@ == s.spec_bytes(),
            i <= n,
            out@ == percent_encode_spec(bytes@.subrange(0, i as int)),
        decreases n - i,
    {
        let b = bytes[i];
        assert(bytes@.subrange(0, i + 1).drop_last() =~= bytes@.subrange(0, i as int));
        if b >= 0x80 || is_artwork_escaped(b) {
            push_char(&mut out, '%');
            push_char(&mut out, hex_digit(b / 16));
            push_char(&mut out, hex_digit(b % 16));
        } else {
            push_char(&mut out, b as char);
        }
        assert(out@ =~= percent_encode_spec(bytes@.subrange(0, i + 1)));
        i = i + 1;
    }
    assert(bytes@.subrange(0, n as int) =~= bytes@);
    out
}

fn hex_val(b: u8) -> (r: Option<u8>)
    ensures
        r == hex_value(b),
{
    if 48 <= b && b <= 57 {
        Some(b - 48)
    } else if 97 <= b && b <= 102 {
        Some(b - 87)
    } else if 65 <= b && b <= 70 {
        Some(b - 55)
    } else {
        None
    }
}

/// Percent-decodes a byte string.
pub fn percent_decode(bytes: &[u8]) -> (r: Vec<u8>)
    ensures
        r@ == percent_decode_spec(bytes@),
{
    let n = bytes.len();
    let mut out: Vec<u8> = Vec::new();
    let mut i: usize = 0;
    assert(bytes@.subrange(0, n as int) =~= bytes@);
    while i < n
        invariant
            n == bytes@.len(),
            i <= n,
            out@ + percent_decode_spec(bytes@.subrange(i as int, n as int)) == percent_decode_spec(bytes@),
        decreases n - i,
    {
        let ghost rest = bytes@.subrange(i as int, n as int);
        let b = bytes[i];
        if b == 37 && n - i > 2 {
            let h = hex_val(bytes[i + 1]);
            let l = hex_val(bytes[i + 2]);
            if h.is_some() && l.is_some() {
                let v: u8 = h.unwrap() * 16 + l.unwrap();
                assert(rest.subrange(3, rest.len() as int) =~= bytes@.subrange(i + 3, n as int));
                assert(out@.push(v) + percent_decode_spec(bytes@.subrange(i + 3, n as int))
                    =~= out@ + percent_decode_spec(rest));
                out.push(v);
                i = i + 3;
                continue;
            }
        }
        assert(rest.drop_first() =~= bytes@.subrange(i + 1, n as int));
        assert(out@.push(b) + percent_decode_spec(bytes@.subrange(i + 1, n as int))
            =~= out@ + percent_decode_spec(rest));
        out.push(b);
        i = i + 1;
    }
    assert(bytes@.subrange(n as int, n as int) =~= Seq::<u8>::empty());
    assert(out@ + Seq::<u8>::empty() =~= out@);
    out
}

/// `path` with a leading `~` replaced by `home` (when it is known).
pub fn expand_home(path: &str, home: Option<&str>) -> (r: String)
    ensures
        r@ == expand_home_spec(path@, match home { Some(h) => Some(h@), None => None }),
{
    match home {
        Some(h) => {
            if path.unicode_len() > 0 && path.get_char(0) == '~' {
                let n = path.unicode_len();
                let rest = path.substring_char(1, n);
                assert(rest@ =~= path@.drop_first());
                concat2(h, rest)
            } else {
                path.to_owned()
            }
        },
        None => path.to_owned(),
    }
}

/// The `artwork://` URL under which the views load the image file at `abs_path`.
pub fn format_artwork_url(abs_path: &str, home: Option<&str>) -> (r: String)
    ensures
        ({
            let full = expand_home_spec(abs_path@, match home { Some(h) => Some(h@), None => None });
            r@ == "artwork://local?"@ + ("p="@ + percent_encode_spec(encode_utf8(full)))
        }),
{
    let full = expand_home(abs_path, home);
    let enc = percent_encode(full.as_str());
    let r = concat2("artwork://local?p=", enc.as_str());
    proof {
        reveal_strlit("artwork://local?p=");
        reveal_strlit("artwork://local?");
        reveal_strlit("p=");
        assert("artwork://local?p="@ =~= "artwork://local?"@ + "p="@);
    }
    r
}

/// The file path an `artwork://` request asks for: the percent-decoded value of
/// its first `p=` query parameter, or empty when there is none.
pub fn artwork_request_path(query: Option<&str>) -> (r: String)
    ensures
        match query {
            None => r@.len() == 0,
            Some(q) => r@ == request_text(q@),
        },
{
    match query {
        None => String::new(),
        Some(q) => {
            let parts = split_on(q, '&');
            let n = parts.len();
            let mut i: usize = 0;
            assert(views(parts@).subrange(0, n as int) =~= views(parts@));
            while i < n
                invariant
                    n == parts@.len(),
                    i <= n,
                    query == Some(q),
                    views(parts@) == split_spec(q@, '&'),
                    first_with_prefix(views(parts@).subrange(i as int, n as int), "p="@)
                        == first_with_prefix(split_spec(q@, '&'), "p="@),
                decreases n - i,
            {
                let ghost rest = views(parts@).subrange(i as int, n as int);
                assert(rest[0] == parts@[i as int]@);
                if starts_with(parts[i].as_str(), "p=") {
                    let len = parts[i].as_str().unicode_len();
                    let pl = "p=".unicode_len();
                    let v = parts[i].as_str().substring_char(pl, len);
                    assert(first_with_prefix(rest, "p="@) == Some(v@));
                    let vb = v.as_bytes();
                    assert(vb@ == encode_utf8(v@));
                    let bytes = percent_decode(vb);
                    let r = utf8_lossy_string(bytes.as_slice());

                    return r;
                }
                assert(rest.drop_first() =~= views(parts@).subrange(i + 1, n as int));
                i = i + 1;
            }
            String::new()
        },
    }
}

/// MIME type the artwork protocol answers with: PNG for `.png` files, JPEG otherwise.
pub fn artwork_mime(path: &str) -> (r: &'static str)
    ensures
        is_suffix(".png"@, path@) ==> r@ == "image/png"@,
        !is_suffix(".png"@, path@) ==> r@ == "image/jpeg"@,
{
    if ends_with(path, ".png") { "image/png" } else { "image/jpeg" }
}

/// An upper-case hexadecimal digit.
pub open spec fn is_hex_upper(c: char) -> bool {
    ('0' <= c <= '9') || ('A' <= c <= 'F')
}

/// A percent-encoded text holds only ASCII; none of the escaped characters
/// stands raw in it, and each `%` starts an escape of two hexadecimal digits.
pub open spec fn cleanly_encoded(r: Seq<char>) -> bool {
    &&& forall|i: int| 0 <= i < r.len() ==> (#[trigger] r[i] as u32) < 128
        && (r[i] == '%' || !artwork_escaped(r[i] as u8))
    &&& forall|i: int| 0 <= i < r.len() && #[trigger] r[i] == '%' ==> i + 2 < r.len()
        && is_hex_upper(r[i + 1]) && is_hex_upper(r[i + 2])
}

proof fn lemma_hex_char(d: u8)
    requires
        d < 16,
    ensures
        is_hex_upper(hex_char(d)),
        (hex_char(d) as u32) < 128,
        !artwork_escaped(hex_char(d) as u8),
{
}

/// The artwork URL encoding leaves none of the escaped characters (controls,
/// space, `"#%&+=?<>\`:` and the backquote, non-ASCII) raw: every `%` in it
/// starts an escape of two hexadecimal digits.
pub proof fn lemma_percent_encode_clean(bytes: Seq<u8>)
    ensures
        cleanly_encoded(percent_encode_spec(bytes)),
    decreases bytes.len(),
{
    if bytes.len() > 0 {
        let p = percent_encode_spec(bytes.drop_last());
        lemma_percent_encode_clean(bytes.drop_last());
        let b = bytes.last();
        let e = encode_byte(b);
        let r = p + e;
        assert(r == percent_encode_spec(bytes));
        lemma_hex_char(b / 16);
        lemma_hex_char(b % 16);
        if !(b >= 0x80 || artwork_escaped(b)) {
            assert((b as char) as u32 == b as u32);
            assert((b as char) as u8 == b);
            assert(b != 0x25);
        }
        assert forall|i: int| 0 <= i < r.len() implies (#[trigger] r[i] as u32) < 128
            && (r[i] == '%' || !artwork_escaped(r[i] as u8)) by {
            if i >= p.len() {
                assert(r[i] == e[i - p.len()]);
            } else {
                assert(r[i] == p[i]);
            }
        }
        assert forall|i: int| 0 <= i < r.len() && #[trigger] r[i] == '%' implies i + 2 < r.len()
            && is_hex_upper(r[i + 1]) && is_hex_upper(r[i + 2]) by {
            if i >= p.len() {
                assert(r[i] == e[i - p.len()]);
                assert(r[i + 1] == e[i + 1 - p.len()]);
                assert(r[i + 2] == e[i + 2 - p.len()]);
            } else {
                assert(r[i] == p[i]);
                assert(r[i + 1] == p[i + 1]);
                assert(r[i + 2] == p[i + 2]);
            }
        }
    }
}

/// The standard base64 text of `bytes` (alphabet `A-Z a-z 0-9 + /`, `=`
/// padding), as `base64::engine::general_purpose::STANDARD` encodes them.
pub uninterp spec fn base64_standard(bytes: Seq<u8>) -> Seq<char>;

/// The standard base64 text of `bytes`.
///
/// Trusted wrapper around `base64::engine::general_purpose::STANDARD.encode`
/// (base64 0.22): the text is named as a function of the bytes; with padding
/// it has four characters for each started group of three bytes (its
/// `encoded_len`), and it panics only when that length overflows `usize`,
/// which `requires` leaves out.
#[verifier::external_body]
fn base64_encode(bytes: &[u8]) -> (r: String)
    requires
        4 * ((bytes@.len() + 2) / 3) <= usize::MAX,
    ensures
        r@ == base64_standard(bytes@),
        r@.len() == 4 * ((bytes@.len() + 2) / 3),
{
    base64::engine::general_purpose::STANDARD.encode(bytes)
}

/// MIME type of an inline (`data:`) cover image, by the file's extension.
pub open spec fn data_mime_spec(path: Seq<char>) -> Seq<char> {
    if is_suffix(".png"@, path) {
        "image/png"@
    } else if is_suffix(".gif"@, path) {
        "image/gif"@
    } else if is_suffix(".webp"@, path) {
        "image/webp"@
    } else {
        "image/jpeg"@
    }
}

/// MIME type of an inline cover image: PNG, GIF or WebP by extension, JPEG
/// otherwise.
pub fn data_url_mime(path: &str) -> (r: &'static str)
    ensures
        r@ == data_mime_spec(path@),
{
    if ends_with(path, ".png") {
        "image/png"
    } else if ends_with(path, ".gif") {
        "image/gif"
    } else if ends_with(path, ".webp") {
        "image/webp"
    } else {
        "image/jpeg"
    }
}

/// The `data:` URL of the image file at `path` whose bytes encode to
/// `encoded` in base64.
pub fn data_url(path: &str, encoded: &str) -> (r: String)
    ensures
        r@ == "data:"@ + data_mime_spec(path@) + ";base64,"@ + encoded@,
{
    let mut r = concat2("data:", data_url_mime(path));
    r.append(";base64,");
    r.append(encoded);
    r
}

/// The `data:` URL under which the views show the image file at `path`
/// (holding `bytes`) inline, as the Windows build does.
pub fn artwork_data_url(path: &str, bytes: &[u8]) -> (r: String)
    requires
        4 * ((bytes@.len() + 2) / 3) <= usize::MAX,
    ensures
        r@ == "data:"@ + data_mime_spec(path@) + ";base64,"@ + base64_standard(bytes@),
{
    let encoded = base64_encode(bytes);
    data_url(path, encoded.as_str())
}

/// The bytes of an ASCII text.
pub open spec fn ascii_bytes(cs: Seq<char>) -> Seq<u8> {
    cs.map_values(|c: char| c as u8)
}

proof fn lemma_encode_front(b: Seq<u8>)
    requires
        b.len() > 0,
    ensures
        percent_encode_spec(b) == encode_byte(b[0]) + percent_encode_spec(b.drop_first()),
    decreases b.len(),
{
    if b.len() == 1 {
        assert(b.drop_last() =~= Seq::<u8>::empty());
        assert(b.drop_first() =~= Seq::<u8>::empty());
        assert(percent_encode_spec(b) =~= encode_byte(b[0]) + percent_encode_spec(b.drop_first()));
    } else {
        lemma_encode_front(b.drop_last());
        assert(b.drop_last().drop_first() =~= b.drop_first().drop_last());
        assert(b.drop_first().last() == b.last());
        assert(percent_encode_spec(b) =~= encode_byte(b[0]) + percent_encode_spec(b.drop_first()));
    }
}

proof fn lemma_encode_ascii(b: Seq<u8>)
    ensures
        is_ascii_chars(percent_encode_spec(b)),
        !percent_encode_spec(b).contains('&'),
    decreases b.len(),
{
    if b.len() > 0 {
        lemma_encode_ascii(b.drop_last());
        let e = percent_encode_spec(b);
        let p = percent_encode_spec(b.drop_last());
        let t = encode_byte(b.last());
        assert(e == p + t);
        assert forall|i: int| 0 <= i < e.len() implies '\0' <= #[trigger] e[i] <= '\u{7f}' && e[i] != '&' by {
            if i >= p.len() {
                assert(e[i] == t[i - p.len()]);
            } else {
                assert(e[i] == p[i]);
            }
        }
    }
}

proof fn lemma_decode_encoded(b: Seq<u8>)
    ensures
        percent_decode_spec(ascii_bytes(percent_encode_spec(b))) == b,
    decreases b.len(),
{
    if b.len() == 0 {
        assert(ascii_bytes(percent_encode_spec(b)) =~= Seq::<u8>::empty());
    } else {
        lemma_encode_front(b);
        lemma_decode_encoded(b.drop_first());
        let rest = percent_encode_spec(b.drop_first());
        let tok = encode_byte(b[0]);
        let bytes = ascii_bytes(tok + rest);
        assert(ascii_bytes(tok + rest) =~= ascii_bytes(tok) + ascii_bytes(rest));
        let b0 = b[0];
        if b0 >= 0x80 || artwork_escaped(b0) {
            let hi = b0 / 16;
            let lo = b0 % 16;
            assert(bytes[0] == 37u8);
            assert(hex_value(bytes[1]) == Some(hi));
            assert(hex_value(bytes[2]) == Some(lo));
            assert(bytes.subrange(3, bytes.len() as int) =~= ascii_bytes(rest));
            assert(seq![(hi * 16 + lo) as u8] =~= seq![b0]);
        } else {
            assert(bytes[0] == b0);
            assert(bytes.drop_first() =~= ascii_bytes(rest));
        }
        assert(percent_decode_spec(bytes) =~= seq![b0] + b.drop_first());
        assert(seq![b0] + b.drop_first() =~= b);
    }
}

proof fn lemma_split_without_separator(s: Seq<char>, sep: char)
    requires
        !s.contains(sep),
    ensures
        split_spec(s, sep) == seq![s],
    decreases s.len(),
{
    if s.len() > 0 {
        assert(!s.drop_last().contains(sep)) by {
            if s.drop_last().contains(sep) {
                let i = choose|i: int| 0 <= i < s.drop_last().len() && s.drop_last()[i] == sep;
                assert(s[i] == sep);
            }
        }
        lemma_split_without_separator(s.drop_last(), sep);
        assert(s.last() != sep) by {
            assert(s[s.len() - 1] == s.last());
        }
        assert(s.drop_last().push(s.last()) =~= s);
        assert(split_spec(s, sep) =~= seq![s]);
    } else {
        assert(s =~= Seq::<char>::empty());
    }
}

/// An artwork request for a URL built by `format_artwork_url` names exactly the
/// path the URL was built from.
pub proof fn lemma_artwork_round_trip(path: Seq<char>)
    ensures
        request_text("p="@ + percent_encode_spec(encode_utf8(path))) == path,
{
    reveal_strlit("p=");
    let enc = percent_encode_spec(encode_utf8(path));
    let q = "p="@ + enc;
    lemma_encode_ascii(encode_utf8(path));
    assert(!q.contains('&')) by {
        if q.contains('&') {
            let i = choose|i: int| 0 <= i < q.len() && q[i] == '&';
            if i >= 2 {
                assert(q[i] == enc[i - 2]);
                assert(enc.contains('&'));
            }
        }
    }
    lemma_split_without_separator(q, '&');
    assert(is_prefix("p="@, q)) by {
        assert(q.subrange(0, 2) =~= "p="@);
    }
    assert(q.subrange(2, q.len() as int) =~= enc);
    assert(first_with_prefix(seq![q], "p="@) == Some(enc));
    vstd::utf8::is_ascii_chars_encode_utf8(enc);
    assert(encode_utf8(enc) =~= ascii_bytes(enc));
    lemma_decode_encoded(encode_utf8(path));
    vstd::utf8::encode_utf8_valid_utf8(path);
    vstd::utf8::encode_utf8_decode_utf8(path);
}

} // verus!
