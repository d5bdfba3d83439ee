//! Small string helpers with specifications: building strings from literals,
//! characters and decimal numbers.

use vstd::prelude::*;

verus! {

/// An owned copy of a string slice.
pub fn str_to_string(s: &str) -> (r: String)
    ensures
        r@ == s@,
{
    String::from_str(s)
}

/// The concatenation of two strings.
pub fn string_concat(a: String, b: &str) -> (r: String)
    ensures
        r@ == a@ + b@,
{
    let mut a = a;
    a.append(b);
    a
}

/// `String::push`: appends one character at the end of the string.
#[verifier::external_body]
pub fn string_push(s: &mut String, c: char)
    ensures
        final(s)@ == old(s)@.push(c),
{
    s.push(c);
}

/// The decimal digit character of a value below ten.
pub open spec fn digit_char(d: nat) -> char {
    (('0' as nat) + d) as char
}

/// The decimal representation of `n`, most significant digit first,
/// without leading zeros ("0" for zero).
pub open spec fn decimal_seq(n: nat) -> Seq<char>
    decreases n,
{
    if n < 10 {
        seq![digit_char(n)]
    } else {
        decimal_seq(n / 10).push(digit_char(n % 10))
    }
}

/// The decimal representation of a number.
pub fn decimal_string(n: u64) -> (r: String)
    ensures
        r@ == decimal_seq(n as nat),
{
    // Collect digits least significant first, then emit them in reverse.
    let mut digits: Vec<u8> = Vec::new();
    let mut m: u64 = n;
    let ghost mut rest: Seq<char> = Seq::empty();
    while m >= 10
        invariant
            decimal_seq(n as nat) == decimal_seq(m as nat) + rest,
            digits@.len() == rest.len(),
            forall|i: int|
                0 <= i < digits@.len() ==> digits@[i] < 10 && rest[rest.len() - 1 - i]
                    == digit_char(digits@[i] as nat),
        decreases m,
    {
        let d = (m % 10) as u8;
        digits.push(d);
        proof {
            let r2 = seq![digit_char((m % 10) as nat)] + rest;
            assert(decimal_seq(m as nat) == decimal_seq((m / 10) as nat).push(
                digit_char((m % 10) as nat),
            ));
            assert(decimal_seq((m / 10) as nat).push(digit_char((m % 10) as nat)) + rest
                =~= decimal_seq((m / 10) as nat) + r2);
            rest = r2;
        }
        m = m / 10;
    }
    digits.push(m as u8);
    proof {
        rest = seq![digit_char(m as nat)] + rest;
    }
    assert(decimal_seq(n as nat) =~= rest);
    let mut s = String::new();
    let mut i: usize = digits.len();
    while i > 0
        invariant
            i <= digits@.len(),
            digits@.len() == rest.len(),
            forall|k: int|
                0 <= k < digits@.len() ==> digits@[k] < 10 && rest[rest.len() - 1 - k]
                    == digit_char(digits@[k] as nat),
            s@ =~= rest.subrange(0, (digits@.len() - i) as int),
        decreases i,
    {
        i = i - 1;
        let d = digits[i];
        let c = ((48u8 + d) as char);
        proof {
            assert(c == digit_char(d as nat));
        }
        string_push(&mut s, c);
        assert(s@ =~= rest.subrange(0, (digits@.len() - i) as int));
    }
    s
}

/// The upper-case hexadecimal digit of a value below sixteen.
pub open spec fn hex_digit(d: nat) -> char {
    if d < 10 {
        digit_char(d)
    } else {
        (('A' as nat) + (d - 10)) as char
    }
}

/// The two upper-case hexadecimal digits of a byte.
pub open spec fn hex_byte_seq(b: u8) -> Seq<char> {
    seq![hex_digit((b / 16) as nat), hex_digit((b % 16) as nat)]
}

fn hex_digit_char(d: u8) -> (c: char)
    requires
        d < 16,
    ensures
        c == hex_digit(d as nat),
{
    if d < 10 {
        (48u8 + d) as char
    } else {
        (55u8 + d) as char
    }
}

/// A byte as two upper-case hexadecimal digits.
pub fn hex_byte_string(b: u8) -> (r: String)
    ensures
        r@ == hex_byte_seq(b),
{
    let mut s = String::new();
    string_push(&mut s, hex_digit_char(b / 16));
    string_push(&mut s, hex_digit_char(b % 16));
    assert(s@ =~= hex_byte_seq(b));
    s
}

/// Whether two string slices hold the same characters.
pub fn str_equal(a: &str, b: &str) -> (r: bool)
    ensures
        r == (a@ == b@),
{
    let n = a.unicode_len();
    let m = b.unicode_len();
    if n != m {
        return false;
    }
    let mut i: usize = 0;
    while i < n
        invariant
            n == a@.len(),
            n == b@.len(),
            i <= n,
            forall|k: int| 0 <= k < i ==> a@[k] == b@[k],
        decreases n - i,
    {
        if a.get_char(i) != b.get_char(i) {
            return false;
        }
        i = i + 1;
    }
    assert(a@ =~= b@);
    true
}

/// Append the UTF-8 bytes of a string slice.
pub fn push_utf8(out: &mut Vec<u8>, s: &str)
    ensures
        final(out)@ == old(out)@ + vstd::utf8::encode_utf8(s@),
{
    let bytes = s.as_bytes();
    let ghost start = out@;
    let mut i: usize = 0;
    while i < bytes.len()
        invariant
            bytes@ == vstd::utf8::encode_utf8(s@),
            i <= bytes@.len(),
            out@ == start + bytes@.take(i as int),
        decreases bytes@.len() - i,
    {
        out.push(bytes[i]);
        i = i + 1;
        assert(out@ =~= start + bytes@.take(i as int));
    }
    assert(bytes@.take(bytes@.len() as int) =~= bytes@);
}

/// What `String::from_utf8_lossy` makes of a byte sequence.
pub uninterp spec fn utf8_lossy(bytes: Seq<u8>) -> Seq<char>;

/// `String::from_utf8_lossy`: the text of a byte sequence, with each
/// invalid UTF-8 sequence replaced by U+FFFD. Stated: the result is a
/// function of the bytes alone, and valid UTF-8 decodes exactly.
#[verifier::external_body]
pub fn string_from_utf8_lossy(bytes: &[u8]) -> (r: String)
    ensures
        r@ == utf8_lossy(bytes@),
        vstd::utf8::valid_utf8(bytes@) ==> r@ == vstd::utf8::decode_utf8(bytes@),
{
    String::from_utf8_lossy(bytes).to_string()
}

/// Whether a character is white space in Unicode (what `str::trim` strips).
pub open spec fn spec_is_white(c: char) -> bool {
    let v = c as u32;
    ||| 0x09 <= v <= 0x0D
    ||| v == 0x20
    ||| v == 0x85
    ||| v == 0xA0
    ||| v == 0x1680
    ||| 0x2000 <= v <= 0x200A
    ||| v == 0x2028
    ||| v == 0x2029
    ||| v == 0x202F
    ||| v == 0x205F
    ||| v == 0x3000
}

/// Whether a text is empty once white space is trimmed.
pub open spec fn is_blank(text: Seq<char>) -> bool {
    forall|i: int| 0 <= i < text.len() ==> spec_is_white(#[trigger] text[i])
}

/// Whether a character is white space.
pub fn is_white(c: char) -> (r: bool)
    ensures
        r == spec_is_white(c),
{
    let v = c as u32;
    (0x09 <= v && v <= 0x0D) || v == 0x20 || v == 0x85 || v == 0xA0 || v == 0x1680 || (0x2000
        <= v && v <= 0x200A) || v == 0x2028 || v == 0x2029 || v == 0x202F || v == 0x205F || v
        == 0x3000
}

/// Whether a string holds only white space.
pub fn text_is_blank(text: &str) -> (r: bool)
    ensures
        r == is_blank(text@),
{
    let n = text.unicode_len();
    let mut i: usize = 0;
    while i < n
        invariant
            n == text@.len(),
            i <= n,
            forall|k: int| 0 <= k < i ==> spec_is_white(#[trigger] text@[k]),
        decreases n - i,
    {
        if !is_white(text.get_char(i)) {
            return false;
        }
        i = i + 1;
    }
    true
}

/// The number of leading white-space characters of a text.
pub open spec fn leading_white(text: Seq<char>) -> nat
    decreases text.len(),
{
    if text.len() > 0 && spec_is_white(text[0]) {
        1 + leading_white(text.drop_first())
    } else {
        0
    }
}

/// The number of trailing white-space characters of a text.
pub open spec fn trailing_white(text: Seq<char>) -> nat
    decreases text.len(),
{
    if text.len() > 0 && spec_is_white(text.last()) {
        1 + trailing_white(text.drop_last())
    } else {
        0
    }
}

/// A text with leading and trailing white space removed (`str::trim`).
pub open spec fn spec_trim(text: Seq<char>) -> Seq<char> {
    let lead = leading_white(text);
    if lead == text.len() {
        Seq::empty()
    } else {
        text.subrange(lead as int, text.len() - trailing_white(text))
    }
}

/// The four upper-case hexadecimal digits of a 16-bit value.
pub open spec fn hex4_seq(v: u16) -> Seq<char> {
    seq![
        hex_digit((v / 4096) as nat),
        hex_digit(((v / 256) % 16) as nat),
        hex_digit(((v / 16) % 16) as nat),
        hex_digit((v % 16) as nat),
    ]
}

/// A 16-bit value as four upper-case hexadecimal digits.
pub fn hex4_string(v: u16) -> (r: String)
    ensures
        r@ == hex4_seq(v),
{
    let mut s = String::new();
    string_push(&mut s, hex_digit_char((v / 4096) as u8));
    string_push(&mut s, hex_digit_char(((v / 256) % 16) as u8));
    string_push(&mut s, hex_digit_char(((v / 16) % 16) as u8));
    string_push(&mut s, hex_digit_char((v % 16) as u8));
    assert(s@ =~= hex4_seq(v));
    s
}

/// The lower-case hexadecimal digit of a value below sixteen.
pub open spec fn lower_hex_digit(d: nat) -> char {
    if d < 10 {
        digit_char(d)
    } else {
        (('a' as nat) + (d - 10)) as char
    }
}

/// The last `n` lower-case hexadecimal digits of `v`, most significant
/// first (zero-padded).
pub open spec fn lower_hex_digits(v: nat, n: nat) -> Seq<char>
    decreases n,
{
    if n == 0 {
        Seq::empty()
    } else {
        lower_hex_digits(v / 16, (n - 1) as nat).push(lower_hex_digit(v % 16))
    }
}

/// A 64-bit value as sixteen lower-case hexadecimal digits.
pub fn lower_hex16_string(v: u64) -> (r: String)
    ensures
        r@ == lower_hex_digits(v as nat, 16),
{
    let mut digits: Vec<u8> = Vec::new();
    let mut m: u64 = v;
    let mut k: usize = 0;
    let ghost mut rest: Seq<char> = Seq::empty();
    while k < 16
        invariant
            k <= 16,
            lower_hex_digits(v as nat, 16) == lower_hex_digits(m as nat, (16 - k) as nat) + rest,
            digits@.len() == k,
            rest.len() == k,
            forall|i: int| 0 <= i < k ==> digits@[i] < 16 && rest[k - 1 - i] == lower_hex_digit(digits@[i] as nat),
        decreases 16 - k,
    {
        let d = (m % 16) as u8;
        digits.push(d);
        proof {
            let r2 = seq![lower_hex_digit((m % 16) as nat)] + rest;
            assert(lower_hex_digits(m as nat, (16 - k) as nat) == lower_hex_digits((m / 16) as nat, (16 - k - 1) as nat).push(
                lower_hex_digit((m % 16) as nat),
            ));
            assert(lower_hex_digits((m / 16) as nat, (16 - k - 1) as nat).push(lower_hex_digit((m % 16) as nat)) + rest
                =~= lower_hex_digits((m / 16) as nat, (16 - k - 1) as nat) + r2);
            rest = r2;
        }
        m = m / 16;
        k = k + 1;
    }
    assert(rest =~= lower_hex_digits(v as nat, 16));
    let mut s = String::new();
    let mut i: usize = 16;
    while i > 0
        invariant
            i <= 16,
            digits@.len() == 16,
            rest.len() == 16,
            forall|j: int| 0 <= j < 16 ==> digits@[j] < 16 && rest[15 - j] == lower_hex_digit(digits@[j] as nat),
            s@ =~= rest.subrange(0, 16 - i),
        decreases i,
    {
        i = i - 1;
        let d = digits[i];
        let c = if d < 10 { (48u8 + d) as char } else { (87u8 + d) as char };
        proof {
            assert(c == lower_hex_digit(d as nat));
        }
        string_push(&mut s, c);
        assert(s@ =~= rest.subrange(0, 16 - i));
    }
    s
}

/// Append the bytes of a slice to a vector.
pub fn append_bytes(v: &mut Vec<u8>, s: &[u8])
    ensures
        final(v)@ == old(v)@ + s@,
{
    let mut i: usize = 0;
    while i < s.len()
        invariant
            i <= s@.len(),
            v@ == old(v)@ + s@.subrange(0, i as int),
        decreases s@.len() - i,
    {
        v.push(s[i]);
        proof {
            assert(s@.subrange(0, i as int + 1) =~= s@.subrange(0, i as int).push(s@[i as int]));
        }
        i = i + 1;
    }
    assert(s@.subrange(0, i as int) =~= s@);
}

/// Whether Unicode counts a character as alphabetic or numeric.
pub uninterp spec fn unicode_alphanumeric(c: char) -> bool;

/// `char::is_alphanumeric`: whether the character is alphabetic or numeric
/// in Unicode. Stated here of its result: that name for it, and what the
/// documentation gives for ASCII (letters and digits are, nothing else is).
#[verifier::external_body]
pub fn char_is_alphanumeric(c: char) -> (r: bool)
    ensures
        r == unicode_alphanumeric(c),
        (c as u32) < 0x80 ==> (r <==> (('a' <= c && c <= 'z') || ('A' <= c && c <= 'Z') || ('0' <= c && c <= '9'))),
{
    c.is_alphanumeric()
}

/// Whether a character is an ASCII graphic character ('!' through '~').
pub open spec fn is_ascii_graphic(c: char) -> bool {
    0x21 <= (c as u32) && (c as u32) <= 0x7E
}

/// `n` digits are `n` characters long.
pub proof fn lemma_lower_hex_len(v: nat, n: nat)
    ensures
        lower_hex_digits(v, n).len() == n,
    decreases n,
{
    if n > 0 {
        lemma_lower_hex_len(v / 16, (n - 1) as nat);
    }
}

/// Whether a character is an ASCII decimal digit.
pub open spec fn is_digit(c: char) -> bool {
    '0' <= c && c <= '9'
}

/// The value of a run of decimal digits.
pub open spec fn digits_value(s: Seq<char>) -> nat
    decreases s.len(),
{
    if s.len() == 0 {
        0
    } else {
        digits_value(s.drop_last()) * 10 + ((s.last() as nat) - ('0' as nat)) as nat
    }
}

/// The text after an optional leading '+'.
pub open spec fn unsigned_part(s: Seq<char>) -> Seq<char> {
    if s.len() > 0 && s[0] == '+' { s.drop_first() } else { s }
}

/// Whether every character is a decimal digit.
pub open spec fn digits_only(d: Seq<char>) -> bool {
    forall|i: int| 0 <= i < d.len() ==> is_digit(#[trigger] d[i])
}

/// What `str::parse::<u64>` gives: an optional '+' and then one or more
/// decimal digits whose value fits in 64 bits; nothing for anything else.
pub open spec fn parsed_u64(s: Seq<char>) -> Option<u64> {
    let d = unsigned_part(s);
    if d.len() > 0 && digits_only(d) && digits_value(d) <= u64::MAX {
        Some(digits_value(d) as u64)
    } else {
        None
    }
}

/// A run of digits is worth at least any of its prefixes.
pub proof fn lemma_digits_value_grows(s: Seq<char>, k: int)
    requires
        0 <= k <= s.len(),
        digits_only(s),
    ensures
        digits_value(s.take(k)) <= digits_value(s),
    decreases s.len() - k,
{
    if k < s.len() {
        lemma_digits_value_grows(s, k + 1);
        assert(s.take(k + 1).drop_last() =~= s.take(k));
        assert(is_digit(s[k]));
    } else {
        assert(s.take(k) =~= s);
    }
}

/// A decimal number (see `parsed_u64`).
pub fn parse_u64(s: &str) -> (r: Option<u64>)
    ensures
        r == parsed_u64(s@),
{
    let n = s.unicode_len();
    let start: usize = if n > 0 && s.get_char(0) == '+' { 1 } else { 0 };
    let ghost d = unsigned_part(s@);
    assert(d =~= s@.subrange(start as int, n as int));
    if start == n {
        return None;
    }
    let mut value: u64 = 0;
    let mut i: usize = start;
    while i < n
        invariant
            n == s@.len(),
            start <= i <= n,
            start < n,
            d == s@.subrange(start as int, n as int),
            d == unsigned_part(s@),
            forall|j: int| 0 <= j < i - start ==> is_digit(#[trigger] d[j]),
            value == digits_value(d.take(i - start)),
        decreases n - i,
    {
        let c = s.get_char(i);
        let ghost k = i - start;
        assert(d[k] == c);
        if !('0' <= c && c <= '9') {
            assert(!is_digit(d[k]));
            assert(!digits_only(d));
            return None;
        }
        let digit: u64 = (c as u32 - '0' as u32) as u64;
        assert(d.take(k + 1).drop_last() =~= d.take(k));
        assert(d.take(k + 1).last() == c);
        if value > (u64::MAX - digit) / 10 {
            proof {
                assert(digits_value(d.take(k + 1)) > u64::MAX) by (nonlinear_arith)
                    requires
                        digits_value(d.take(k + 1)) == value * 10 + digit,
                        value > (u64::MAX - digit) / 10,
                        digit <= 9;
                if digits_only(d) {
                    lemma_digits_value_grows(d, k + 1);
                }
            }
            return None;
        }
        assert(value * 10 + digit <= u64::MAX) by (nonlinear_arith)
            requires
                value <= (u64::MAX - digit) / 10,
                digit <= 9;
        value = value * 10 + digit;
        i = i + 1;
    }
    assert(d.take(d.len() as int) =~= d);
    Some(value)
}

} // verus!
