//! Custom CA bundles for TLS: a PEM file with one or more certificates, or
//! a single DER-encoded certificate. The bundle's bytes come from the
//! program; this module checks them and gives the certificates' DER bytes.

use vstd::prelude::*;
use vstd::utf8::{decode_utf8, valid_utf8};
use crate::text::{char_is_alphanumeric, is_blank, is_white, str_to_string, string_push, unicode_alphanumeric};

verus! {

/// The largest bundle accepted, in bytes.
pub const MAX_BUNDLE_BYTES: usize = 10_000_000;

/// `String::from_utf8`: the text the bytes encode, when they are valid
/// UTF-8 (the standard definition, which is vstd's `valid_utf8`).
#[verifier::external_body]
fn utf8_text(bytes: &[u8]) -> (r: Option<String>)
    ensures
        r is Some <==> valid_utf8(bytes@),
        r matches Some(s) ==> s@ == decode_utf8(bytes@),
{
    String::from_utf8(bytes.to_vec()).ok()
}

/// What the standard base64 engine (standard alphabet, padding) decodes a
/// text to, or none when it refuses the text.
pub uninterp spec fn base64_decoded(text: Seq<char>) -> Option<Seq<u8>>;

/// `base64::engine::general_purpose::STANDARD.decode`: the bytes a base64
/// text stands for, or none for a text the engine refuses. Which texts it
/// accepts and what it gives is the engine's (see `base64_decoded`).
#[verifier::external_body]
fn base64_standard_decode(s: &str) -> (r: Option<Vec<u8>>)
    ensures
        match base64_decoded(s@) {
            Some(d) => r matches Some(v) && v@ == d,
            None => r is None,
        },
{
    base64::Engine::decode(&base64::engine::general_purpose::STANDARD, s).ok()
}

/// The marker that opens a certificate.
pub open spec fn begin_marker() -> Seq<char> {
    "-----BEGIN CERTIFICATE-----"@
}

/// The marker that closes a certificate.
pub open spec fn end_marker() -> Seq<char> {
    "-----END CERTIFICATE-----"@
}

/// The first position at or after `s` where `pat` occurs in `t`.
pub open spec fn find_from(t: Seq<char>, pat: Seq<char>, s: int) -> Option<int>
    decreases t.len() - s,
{
    if s < 0 || s >= t.len() || s + pat.len() > t.len() {
        None
    } else if t.subrange(s, s + pat.len()) == pat {
        Some(s)
    } else {
        find_from(t, pat, s + 1)
    }
}

/// The texts between the certificate markers, from position `s`: each
/// BEGIN marker, then the first END marker after it; the search goes on
/// after that END marker and stops at a BEGIN without an END.
pub open spec fn pem_segments(t: Seq<char>, s: int) -> Seq<Seq<char>>
    decreases t.len() - s,
{
    match find_from(t, begin_marker(), s) {
        Some(b) => {
            let p = b + begin_marker().len();
            match find_from(t, end_marker(), p) {
                Some(e) => if s < e + end_marker().len() && e + end_marker().len() <= t.len() && p <= e {
                    seq![t.subrange(p, e)] + pem_segments(t, e + end_marker().len())
                } else {
                    Seq::empty()
                },
                None => Seq::empty(),
            }
        },
        None => Seq::empty(),
    }
}

/// The position of the first line feed at or after `i`, or the length.
pub open spec fn next_newline(seg: Seq<char>, i: int) -> int
    decreases seg.len() - i,
{
    if i < 0 || i >= seg.len() {
        seg.len() as int
    } else if seg[i] == '\n' {
        i
    } else {
        next_newline(seg, i + 1)
    }
}

/// The line from `i` to the line feed at `j` (`str::lines`): a carriage
/// return just before the line feed is not part of it.
pub open spec fn line_text(seg: Seq<char>, i: int, j: int) -> Seq<char> {
    let l = seg.subrange(i, j);
    if j < seg.len() && l.len() > 0 && l.last() == '\r' {
        l.drop_last()
    } else {
        l
    }
}

/// Whether a line is kept for the base64 text: it is not blank and does
/// not start with five dashes.
pub open spec fn keep_line(l: Seq<char>) -> bool {
    !is_blank(l) && !(l.len() >= 5 && forall|k: int| 0 <= k < 5 ==> #[trigger] l[k] == '-')
}

/// The kept lines of a segment from position `i`, joined.
pub open spec fn body_from(seg: Seq<char>, i: int) -> Seq<char>
    decreases seg.len() - i,
{
    if i < 0 || i >= seg.len() {
        Seq::empty()
    } else {
        let j = next_newline(seg, i);
        let l = line_text(seg, i, j);
        (if keep_line(l) { l } else { Seq::empty() }) + if i <= j && j < seg.len() { body_from(seg, j + 1) } else { Seq::empty() }
    }
}

/// The base64 text of each segment (see `body_from`).
pub open spec fn segment_bodies(segs: Seq<Seq<char>>) -> Seq<Seq<char>> {
    segs.map_values(|seg: Seq<char>| body_from(seg, 0))
}

/// Whether a character may stand in a certificate's base64 text: an
/// alphanumeric character (in Unicode), '+', '/' or '='.
pub open spec fn base64_char_ok(c: char) -> bool {
    unicode_alphanumeric(c) || c == '+' || c == '/' || c == '='
}

/// Whether every character of a text may stand in base64 text.
pub open spec fn all_base64_chars(b: Seq<char>) -> bool {
    forall|k: int| 0 <= k < b.len() ==> base64_char_ok(#[trigger] b[k])
}

/// The base64 texts of the certificates of a PEM bundle:
/// - a bundle over 10 000 000 bytes is refused as too large;
/// - bytes that are not UTF-8 text are refused;
/// - a text without both a BEGIN and an END marker is refused;
/// - for each marked certificate (see `pem_segments`) the lines that are
///   not blank and do not start with five dashes are joined (see
///   `body_from`);
/// - a certificate text with a character other than an alphanumeric
///   character, '+', '/' or '=' refuses the bundle.
pub open spec fn spec_pem_bodies(bytes: Seq<u8>) -> Result<Seq<Seq<char>>, Seq<char>> {
    if bytes.len() > MAX_BUNDLE_BYTES {
        Err("Certificate bundle too large - possible DoS attempt"@)
    } else if !valid_utf8(bytes) {
        Err("CA bundle contains invalid UTF-8"@)
    } else {
        let t = decode_utf8(bytes);
        if find_from(t, begin_marker(), 0) is None || find_from(t, end_marker(), 0) is None {
            Err("Invalid PEM certificate format"@)
        } else {
            let bodies = segment_bodies(pem_segments(t, 0));
            if exists|k: int| 0 <= k < bodies.len() && !all_base64_chars(#[trigger] bodies[k]) {
                Err("Invalid base64 characters in certificate"@)
            } else {
                Ok(bodies)
            }
        }
    }
}

/// The certificates that decode, in order (see `base64_decoded`).
pub open spec fn decoded_certificates(bodies: Seq<Seq<char>>) -> Seq<Seq<u8>>
    decreases bodies.len(),
{
    if bodies.len() == 0 {
        Seq::empty()
    } else {
        decoded_certificates(bodies.drop_last()) + match base64_decoded(bodies.last()) {
            Some(d) => seq![d],
            None => Seq::<Seq<u8>>::empty(),
        }
    }
}

/// The certificates of a CA bundle, in DER form: a bundle over 10 000 000
/// bytes is refused; bytes that are not UTF-8 text are one DER-encoded
/// certificate; otherwise the PEM certificates (see `spec_pem_bodies`)
/// whose base64 text decodes, skipping those that do not, and a bundle
/// left with none is refused.
pub open spec fn spec_ca_bundle(bytes: Seq<u8>) -> Result<Seq<Seq<u8>>, Seq<char>> {
    if bytes.len() > MAX_BUNDLE_BYTES {
        Err("Certificate bundle too large - possible DoS attempt"@)
    } else if !valid_utf8(bytes) {
        Ok(seq![bytes])
    } else {
        match spec_pem_bodies(bytes) {
            Err(e) => Err(e),
            Ok(bodies) => if decoded_certificates(bodies).len() == 0 {
                Err("No valid certificates found in PEM bundle"@)
            } else {
                Ok(decoded_certificates(bodies))
            },
        }
    }
}

/// The characters of a text.
fn chars_of(s: &str) -> (r: Vec<char>)
    ensures
        r@ == s@,
{
    let n = s.unicode_len();
    let mut out: Vec<char> = Vec::new();
    let mut i: usize = 0;
    while i < n
        invariant
            n == s@.len(),
            i <= n,
            out@ == s@.take(i as int),
        decreases n - i,
    {
        out.push(s.get_char(i));
        assert(out@ =~= s@.take(i + 1));
        i = i + 1;
    }
    assert(s@.take(n as int) =~= s@);
    out
}

/// Whether `pat` occurs in `t` at `i`.
fn occurs_at(t: &Vec<char>, pat: &Vec<char>, i: usize) -> (r: bool)
    requires
        i + pat@.len() <= t@.len(),
    ensures
        r == (t@.subrange(i as int, i + pat@.len()) == pat@),
{
    let n = t.len();
    let mut k: usize = 0;
    while k < pat.len()
        invariant
            n == t@.len(),
            i + pat@.len() <= t@.len(),
            k <= pat@.len(),
            forall|m: int| 0 <= m < k ==> t@[i + m] == pat@[m],
        decreases pat@.len() - k,
    {
        if t[i + k] != pat[k] {
            assert(t@.subrange(i as int, i + pat@.len())[k as int] != pat@[k as int]);
            return false;
        }
        k = k + 1;
    }
    assert(t@.subrange(i as int, i + pat@.len()) =~= pat@);
    true
}

/// The first position at or after `s` where `pat` occurs (see `find_from`).
fn find_chars(t: &Vec<char>, pat: &Vec<char>, s: usize) -> (r: Option<usize>)
    requires
        pat@.len() > 0,
    ensures
        r matches Some(x) ==> find_from(t@, pat@, s as int) == Some(x as int) && x + pat@.len() <= t@.len(),
        r is None <==> find_from(t@, pat@, s as int) is None,
{
    let n = t.len();
    let m = pat.len();
    if m > n {
        assert(find_from(t@, pat@, s as int) is None) by {
            lemma_find_none(t@, pat@, s as int);
        }
        return None;
    }
    let mut i = s;
    while i <= n - m
        invariant
            n == t@.len(),
            m == pat@.len(),
            0 < m <= n,
            s <= i,
            find_from(t@, pat@, s as int) == find_from(t@, pat@, i as int),
        decreases n - i,
    {
        if occurs_at(t, pat, i) {
            return Some(i);
        }
        i = i + 1;
    }
    None
}

/// A search that starts past the last place a pattern fits finds nothing.
proof fn lemma_find_none(t: Seq<char>, pat: Seq<char>, s: int)
    requires
        s + pat.len() > t.len(),
    ensures
        find_from(t, pat, s) is None,
{
}

/// A found position is at or after the start.
proof fn lemma_find_after(t: Seq<char>, pat: Seq<char>, s: int)
    ensures
        find_from(t, pat, s) matches Some(i) ==> s <= i && i + pat.len() <= t.len(),
    decreases t.len() - s,
{
    if !(s < 0 || s >= t.len() || s + pat.len() > t.len()) && t.subrange(s, s + pat.len()) != pat {
        lemma_find_after(t, pat, s + 1);
    }
}

/// The next line feed is at or after the start.
proof fn lemma_next_newline(seg: Seq<char>, i: int)
    requires
        0 <= i,
    ensures
        i <= next_newline(seg, i) <= seg.len() || (i > seg.len() && next_newline(seg, i) == seg.len()),
        next_newline(seg, i) < seg.len() ==> seg[next_newline(seg, i)] == '\n',
    decreases seg.len() - i,
{
    if i < seg.len() && seg[i] != '\n' {
        lemma_next_newline(seg, i + 1);
    }
}

/// Whether a line is kept (see `keep_line`).
fn line_kept(l: &Vec<char>) -> (r: bool)
    ensures
        r == keep_line(l@),
{
    let mut blank = true;
    let mut k: usize = 0;
    while k < l.len()
        invariant
            k <= l@.len(),
            blank == (forall|m: int| 0 <= m < k ==> crate::text::spec_is_white(#[trigger] l@[m])),
        decreases l@.len() - k,
    {
        if !is_white(l[k]) {
            blank = false;
        }
        k = k + 1;
    }
    if blank {
        return false;
    }
    if l.len() >= 5 && l[0] == '-' && l[1] == '-' && l[2] == '-' && l[3] == '-' && l[4] == '-' {
        assert forall|m: int| 0 <= m < 5 implies #[trigger] l@[m] == '-' by {
            assert(m == 0 || m == 1 || m == 2 || m == 3 || m == 4);
        }
        return false;
    }
    true
}

/// The kept lines of a segment, joined (see `body_from`).
fn certificate_body(seg: &Vec<char>) -> (r: Vec<char>)
    ensures
        r@ == body_from(seg@, 0),
{
    let n = seg.len();
    let mut out: Vec<char> = Vec::new();
    let mut i: usize = 0;
    while i < n
        invariant
            n == seg@.len(),
            i <= n,
            out@ + body_from(seg@, i as int) == body_from(seg@, 0),
        decreases n - i,
    {
        let mut j = i;
        while j < n && seg[j] != '\n'
            invariant
                n == seg@.len(),
                i <= j <= n,
                next_newline(seg@, i as int) == next_newline(seg@, j as int),
            decreases n - j,
        {
            j = j + 1;
        }
        let mut end = j;
        if j < n && end > i && seg[end - 1] == '\r' {
            end = end - 1;
        }
        let mut line: Vec<char> = Vec::new();
        let mut k = i;
        while k < end
            invariant
                i <= k <= end,
                end <= n,
                n == seg@.len(),
                line@ == seg@.subrange(i as int, k as int),
            decreases end - k,
        {
            line.push(seg[k]);
            assert(line@ =~= seg@.subrange(i as int, k + 1));
            k = k + 1;
        }
        let ghost before = out@;
        proof {
            assert(line@ =~= line_text(seg@, i as int, j as int));
        }
        if line_kept(&line) {
            let mut q: usize = 0;
            while q < line.len()
                invariant
                    q <= line@.len(),
                    out@ == before + line@.take(q as int),
                decreases line@.len() - q,
            {
                out.push(line[q]);
                assert(out@ =~= before + line@.take(q + 1));
                q = q + 1;
            }
            assert(line@.take(line@.len() as int) =~= line@);
        }
        proof {
            let l = line_text(seg@, i as int, j as int);
            let kept = if keep_line(l) { l } else { Seq::<char>::empty() };
            assert(out@ =~= before + kept);
            assert(body_from(seg@, i as int) == kept + body_from(seg@, j + 1));
            assert(out@ + body_from(seg@, j + 1) =~= before + body_from(seg@, i as int));
        }
        if j < n {
            i = j + 1;
        } else {
            assert(body_from(seg@, j + 1) =~= Seq::<char>::empty());
            assert(body_from(seg@, n as int) =~= Seq::<char>::empty());
            i = n;
        }
    }
    assert(out@ + body_from(seg@, n as int) =~= out@);
    out
}

/// Whether every character may stand in base64 text (see
/// `all_base64_chars`).
fn base64_chars_ok(b: &Vec<char>) -> (r: bool)
    ensures
        r == all_base64_chars(b@),
{
    let mut k: usize = 0;
    while k < b.len()
        invariant
            k <= b@.len(),
            forall|m: int| 0 <= m < k ==> base64_char_ok(#[trigger] b@[m]),
        decreases b@.len() - k,
    {
        let c = b[k];
        if !char_is_alphanumeric(c) && c != '+' && c != '/' && c != '=' {
            assert(!base64_char_ok(b@[k as int]));
            return false;
        }
        k = k + 1;
    }
    true
}

/// A string of the given characters.
fn string_of(chars: &Vec<char>) -> (r: String)
    ensures
        r@ == chars@,
{
    let mut s = String::new();
    let mut k: usize = 0;
    while k < chars.len()
        invariant
            k <= chars@.len(),
            s@ == chars@.take(k as int),
        decreases chars@.len() - k,
    {
        string_push(&mut s, chars[k]);
        assert(s@ =~= chars@.take(k + 1));
        k = k + 1;
    }
    assert(chars@.take(chars@.len() as int) =~= chars@);
    s
}

/// The base64 texts of the certificates of a PEM bundle (see
/// `spec_pem_bodies`).
pub fn pem_certificate_bodies(bytes: &[u8]) -> (r: Result<Vec<String>, String>)
    ensures
        match spec_pem_bodies(bytes@) {
            Ok(bs) => r matches Ok(v) && v@.map_values(|x: String| x@) == bs,
            Err(e) => r matches Err(m) && m@ == e,
        },
{
    if bytes.len() > MAX_BUNDLE_BYTES {
        return Err(str_to_string("Certificate bundle too large - possible DoS attempt"));
    }
    let text = match utf8_text(bytes) {
        Some(s) => s,
        None => {
            return Err(str_to_string("CA bundle contains invalid UTF-8"));
        },
    };
    let t = chars_of(text.as_str());
    let begin = chars_of("-----BEGIN CERTIFICATE-----");
    let end = chars_of("-----END CERTIFICATE-----");
    proof {
        reveal_strlit("-----BEGIN CERTIFICATE-----");
        reveal_strlit("-----END CERTIFICATE-----");
    }
    if find_chars(&t, &begin, 0).is_none() || find_chars(&t, &end, 0).is_none() {
        return Err(str_to_string("Invalid PEM certificate format"));
    }
    let ghost segs = pem_segments(t@, 0);
    let ghost all = segment_bodies(segs);
    let mut bodies: Vec<String> = Vec::new();
    let mut start: usize = 0;
    let n = t.len();
    loop
        invariant
            n == t@.len(),
            bytes@.len() <= MAX_BUNDLE_BYTES,
            valid_utf8(bytes@),
            find_from(t@, begin_marker(), 0) is Some,
            find_from(t@, end_marker(), 0) is Some,
            t@ == decode_utf8(bytes@),
            begin@ == begin_marker(),
            end@ == end_marker(),
            begin@.len() == 27,
            end@.len() == 25,
            start <= t@.len(),
            segs == pem_segments(t@, 0),
            all == segment_bodies(segs),
            bodies@.map_values(|x: String| x@) + segment_bodies(pem_segments(t@, start as int)) == all,
            forall|k: int| 0 <= k < bodies@.len() ==> all_base64_chars(#[trigger] bodies@[k]@),
        ensures
            bodies@.map_values(|x: String| x@) == all,
            forall|k: int| 0 <= k < bodies@.len() ==> all_base64_chars(#[trigger] bodies@[k]@),
        decreases t@.len() - start,
    {
        let ghost before = bodies@.map_values(|x: String| x@);
        let b = match find_chars(&t, &begin, start) {
            Some(b) => b,
            None => {
                assert(pem_segments(t@, start as int) =~= Seq::<Seq<char>>::empty());
                assert(before + Seq::<Seq<char>>::empty() =~= before);
                break;
            },
        };
        proof {
            lemma_find_after(t@, begin@, start as int);
        }
        let p = b + begin.len();
        let e = match find_chars(&t, &end, p) {
            Some(e) => e,
            None => {
                assert(pem_segments(t@, start as int) =~= Seq::<Seq<char>>::empty());
                assert(before + Seq::<Seq<char>>::empty() =~= before);
                break;
            },
        };
        proof {
            lemma_find_after(t@, end@, p as int);
        }
        let mut seg: Vec<char> = Vec::new();
        let mut k = p;
        while k < e
            invariant
                p <= k <= e,
                e <= t@.len(),
                seg@ == t@.subrange(p as int, k as int),
            decreases e - k,
        {
            seg.push(t[k]);
            assert(seg@ =~= t@.subrange(p as int, k + 1));
            k = k + 1;
        }
        let body = certificate_body(&seg);
        let next = e + end.len();
        proof {
            let rest = pem_segments(t@, next as int);
            assert(pem_segments(t@, start as int) == seq![seg@] + rest);
            assert(segment_bodies(seq![seg@] + rest) =~= seq![body@] + segment_bodies(rest));
        }
        if !base64_chars_ok(&body) {
            proof {
                let idx = before.len() as int;
                let rest = segment_bodies(pem_segments(t@, next as int));
                assert(before + (seq![body@] + rest) == all);
                assert(all[idx] == body@);
                assert(!all_base64_chars(all[idx]));
            }
            return Err(str_to_string("Invalid base64 characters in certificate"));
        }
        let bs = string_of(&body);
        bodies.push(bs);
        proof {
            let rest = segment_bodies(pem_segments(t@, next as int));
            assert(bodies@.map_values(|x: String| x@) =~= before.push(body@));
            assert(before.push(body@) + rest =~= before + (seq![body@] + rest));
            assert forall|k: int| 0 <= k < bodies@.len() implies all_base64_chars(#[trigger] bodies@[k]@) by {
                if k < bodies@.len() - 1 {
                    assert(bodies@[k] == bodies@.drop_last()[k]);
                }
            }
        }
        start = next;
    }
    proof {
        assert forall|k: int| 0 <= k < all.len() implies all_base64_chars(#[trigger] all[k]) by {
            assert(all[k] == bodies@.map_values(|x: String| x@)[k]);
        }
    }
    Ok(bodies)
}

/// The certificates of a CA bundle in DER form (see `spec_ca_bundle`).
pub fn parse_ca_bundle(bytes: &[u8]) -> (r: Result<Vec<Vec<u8>>, String>)
    ensures
        match spec_ca_bundle(bytes@) {
            Ok(ds) => r matches Ok(v) && v@.map_values(|x: Vec<u8>| x@) == ds,
            Err(e) => r matches Err(m) && m@ == e,
        },
{
    if bytes.len() > MAX_BUNDLE_BYTES {
        return Err(str_to_string("Certificate bundle too large - possible DoS attempt"));
    }
    if utf8_text(bytes).is_none() {
        let der = vstd::slice::slice_to_vec(bytes);
        let mut certs: Vec<Vec<u8>> = Vec::new();
        certs.push(der);
        assert(certs@.map_values(|x: Vec<u8>| x@) =~= seq![bytes@]);
        return Ok(certs);
    }
    let bodies = match pem_certificate_bodies(bytes) {
        Ok(b) => b,
        Err(e) => {
            return Err(e);
        },
    };
    let ghost views = bodies@.map_values(|x: String| x@);
    let mut certs: Vec<Vec<u8>> = Vec::new();
    let mut i: usize = 0;
    while i < bodies.len()
        invariant
            i <= bodies@.len(),
            views == bodies@.map_values(|x: String| x@),
            certs@.map_values(|x: Vec<u8>| x@) == decoded_certificates(views.take(i as int)),
        decreases bodies@.len() - i,
    {
        let ghost before = certs@.map_values(|x: Vec<u8>| x@);
        proof {
            assert(views.take(i + 1).drop_last() =~= views.take(i as int));
            assert(views.take(i + 1).last() == bodies@[i as int]@);
        }
        match base64_standard_decode(bodies[i].as_str()) {
            Some(d) => {
                certs.push(d);
                assert(certs@.map_values(|x: Vec<u8>| x@) =~= before + seq![d@]);
            },
            None => {
                assert(before =~= before + Seq::<Seq<u8>>::empty());
            },
        }
        i = i + 1;
    }
    assert(views.take(bodies@.len() as int) =~= views);
    if certs.len() == 0 {
        return Err(str_to_string("No valid certificates found in PEM bundle"));
    }
    Ok(certs)
}

} // verus!
