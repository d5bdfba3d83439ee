//! Conversion between ASCII and EBCDIC (code page 037 letters, digits and
//! the printable ASCII symbols).

use vstd::prelude::*;

verus! {

/// The EBCDIC code of an ASCII byte; bytes with no printable ASCII meaning
/// map to the EBCDIC space (0x40).
pub open spec fn spec_ascii_byte_to_ebcdic(a: u8) -> u8 {
    if a == 32 {
        0x40u8
    } else if a == 33 {
        0x5Au8
    } else if a == 34 {
        0x7Fu8
    } else if a == 35 {
        0x7Bu8
    } else if a == 36 {
        0x5Bu8
    } else if a == 37 {
        0x6Cu8
    } else if a == 38 {
        0x50u8
    } else if a == 39 {
        0x7Du8
    } else if a == 40 {
        0x4Du8
    } else if a == 41 {
        0x5Du8
    } else if a == 42 {
        0x5Cu8
    } else if a == 43 {
        0x4Eu8
    } else if a == 44 {
        0x6Bu8
    } else if a == 45 {
        0x60u8
    } else if a == 46 {
        0x4Bu8
    } else if a == 47 {
        0x61u8
    } else if a == 58 {
        0x7Au8
    } else if a == 59 {
        0x5Eu8
    } else if a == 60 {
        0x4Cu8
    } else if a == 61 {
        0x7Eu8
    } else if a == 62 {
        0x6Eu8
    } else if a == 63 {
        0x6Fu8
    } else if a == 64 {
        0x7Cu8
    } else if a == 91 {
        0xADu8
    } else if a == 92 {
        0xE0u8
    } else if a == 93 {
        0xBDu8
    } else if a == 94 {
        0x5Fu8
    } else if a == 95 {
        0x6Du8
    } else if a == 96 {
        0x79u8
    } else if a == 123 {
        0xC0u8
    } else if a == 124 {
        0x4Fu8
    } else if a == 125 {
        0xD0u8
    } else if a == 126 {
        0xA1u8
    } else if 48 <= a <= 57 {
        (0xF0 + (a - 48)) as u8
    } else if 65 <= a <= 73 {
        (0xC1 + (a - 65)) as u8
    } else if 74 <= a <= 82 {
        (0xD1 + (a - 74)) as u8
    } else if 83 <= a <= 90 {
        (0xE2 + (a - 83)) as u8
    } else if 97 <= a <= 105 {
        (0x81 + (a - 97)) as u8
    } else if 106 <= a <= 114 {
        (0x91 + (a - 106)) as u8
    } else if 115 <= a <= 122 {
        (0xA2 + (a - 115)) as u8
    } else {
        0x40u8
    }
}

/// The ASCII byte of an EBCDIC code; codes outside the printable ASCII
/// repertoire map to 0.
pub open spec fn spec_ebcdic_to_ascii_byte(b: u8) -> u8 {
    if b == 0x40 {
        32u8
    } else if b == 0x5A {
        33u8
    } else if b == 0x7F {
        34u8
    } else if b == 0x7B {
        35u8
    } else if b == 0x5B {
        36u8
    } else if b == 0x6C {
        37u8
    } else if b == 0x50 {
        38u8
    } else if b == 0x7D {
        39u8
    } else if b == 0x4D {
        40u8
    } else if b == 0x5D {
        41u8
    } else if b == 0x5C {
        42u8
    } else if b == 0x4E {
        43u8
    } else if b == 0x6B {
        44u8
    } else if b == 0x60 {
        45u8
    } else if b == 0x4B {
        46u8
    } else if b == 0x61 {
        47u8
    } else if b == 0x7A {
        58u8
    } else if b == 0x5E {
        59u8
    } else if b == 0x4C {
        60u8
    } else if b == 0x7E {
        61u8
    } else if b == 0x6E {
        62u8
    } else if b == 0x6F {
        63u8
    } else if b == 0x7C {
        64u8
    } else if b == 0xAD {
        91u8
    } else if b == 0xE0 {
        92u8
    } else if b == 0xBD {
        93u8
    } else if b == 0x5F {
        94u8
    } else if b == 0x6D {
        95u8
    } else if b == 0x79 {
        96u8
    } else if b == 0xC0 {
        123u8
    } else if b == 0x4F {
        124u8
    } else if b == 0xD0 {
        125u8
    } else if b == 0xA1 {
        126u8
    } else if 0xF0 <= b <= 0xF9 {
        (48 + (b - 0xF0)) as u8
    } else if 0xC1 <= b <= 0xC9 {
        (65 + (b - 0xC1)) as u8
    } else if 0xD1 <= b <= 0xD9 {
        (74 + (b - 0xD1)) as u8
    } else if 0xE2 <= b <= 0xE9 {
        (83 + (b - 0xE2)) as u8
    } else if 0x81 <= b <= 0x89 {
        (97 + (b - 0x81)) as u8
    } else if 0x91 <= b <= 0x99 {
        (106 + (b - 0x91)) as u8
    } else if 0xA2 <= b <= 0xA9 {
        (115 + (b - 0xA2)) as u8
    } else {
        0u8
    }
}

/// The EBCDIC code of a character: printable ASCII characters by the table,
/// every other character maps to the EBCDIC space.
pub open spec fn spec_ascii_to_ebcdic(c: char) -> u8 {
    if (c as u32) < 128 {
        spec_ascii_byte_to_ebcdic(c as u8)
    } else {
        0x40
    }
}

/// The character of an EBCDIC code ('\0' outside the printable repertoire).
pub open spec fn spec_ebcdic_to_ascii(b: u8) -> char {
    spec_ebcdic_to_ascii_byte(b) as char
}

/// Whether a character is printable ASCII (space to tilde).
pub open spec fn is_printable_ascii(c: char) -> bool {
    0x20 <= (c as u32) <= 0x7E
}

/// Convert an ASCII byte to EBCDIC.
pub fn ascii_byte_to_ebcdic(a: u8) -> (r: u8)
    ensures
        r == spec_ascii_byte_to_ebcdic(a),
{
    if a == 32 {
        0x40
    } else if a == 33 {
        0x5A
    } else if a == 34 {
        0x7F
    } else if a == 35 {
        0x7B
    } else if a == 36 {
        0x5B
    } else if a == 37 {
        0x6C
    } else if a == 38 {
        0x50
    } else if a == 39 {
        0x7D
    } else if a == 40 {
        0x4D
    } else if a == 41 {
        0x5D
    } else if a == 42 {
        0x5C
    } else if a == 43 {
        0x4E
    } else if a == 44 {
        0x6B
    } else if a == 45 {
        0x60
    } else if a == 46 {
        0x4B
    } else if a == 47 {
        0x61
    } else if a == 58 {
        0x7A
    } else if a == 59 {
        0x5E
    } else if a == 60 {
        0x4C
    } else if a == 61 {
        0x7E
    } else if a == 62 {
        0x6E
    } else if a == 63 {
        0x6F
    } else if a == 64 {
        0x7C
    } else if a == 91 {
        0xAD
    } else if a == 92 {
        0xE0
    } else if a == 93 {
        0xBD
    } else if a == 94 {
        0x5F
    } else if a == 95 {
        0x6D
    } else if a == 96 {
        0x79
    } else if a == 123 {
        0xC0
    } else if a == 124 {
        0x4F
    } else if a == 125 {
        0xD0
    } else if a == 126 {
        0xA1
    } else if a >= 48 && a <= 57 {
        0xF0 + (a - 48)
    } else if a >= 65 && a <= 73 {
        0xC1 + (a - 65)
    } else if a >= 74 && a <= 82 {
        0xD1 + (a - 74)
    } else if a >= 83 && a <= 90 {
        0xE2 + (a - 83)
    } else if a >= 97 && a <= 105 {
        0x81 + (a - 97)
    } else if a >= 106 && a <= 114 {
        0x91 + (a - 106)
    } else if a >= 115 && a <= 122 {
        0xA2 + (a - 115)
    } else {
        0x40
    }
}

/// Convert an EBCDIC byte to its ASCII byte.
pub fn ebcdic_to_ascii_byte(b: u8) -> (r: u8)
    ensures
        r == spec_ebcdic_to_ascii_byte(b),
        r < 128,
{
    if b == 0x40 {
        32
    } else if b == 0x5A {
        33
    } else if b == 0x7F {
        34
    } else if b == 0x7B {
        35
    } else if b == 0x5B {
        36
    } else if b == 0x6C {
        37
    } else if b == 0x50 {
        38
    } else if b == 0x7D {
        39
    } else if b == 0x4D {
        40
    } else if b == 0x5D {
        41
    } else if b == 0x5C {
        42
    } else if b == 0x4E {
        43
    } else if b == 0x6B {
        44
    } else if b == 0x60 {
        45
    } else if b == 0x4B {
        46
    } else if b == 0x61 {
        47
    } else if b == 0x7A {
        58
    } else if b == 0x5E {
        59
    } else if b == 0x4C {
        60
    } else if b == 0x7E {
        61
    } else if b == 0x6E {
        62
    } else if b == 0x6F {
        63
    } else if b == 0x7C {
        64
    } else if b == 0xAD {
        91
    } else if b == 0xE0 {
        92
    } else if b == 0xBD {
        93
    } else if b == 0x5F {
        94
    } else if b == 0x6D {
        95
    } else if b == 0x79 {
        96
    } else if b == 0xC0 {
        123
    } else if b == 0x4F {
        124
    } else if b == 0xD0 {
        125
    } else if b == 0xA1 {
        126
    } else if b >= 0xF0 && b <= 0xF9 {
        48 + (b - 0xF0)
    } else if b >= 0xC1 && b <= 0xC9 {
        65 + (b - 0xC1)
    } else if b >= 0xD1 && b <= 0xD9 {
        74 + (b - 0xD1)
    } else if b >= 0xE2 && b <= 0xE9 {
        83 + (b - 0xE2)
    } else if b >= 0x81 && b <= 0x89 {
        97 + (b - 0x81)
    } else if b >= 0x91 && b <= 0x99 {
        106 + (b - 0x91)
    } else if b >= 0xA2 && b <= 0xA9 {
        115 + (b - 0xA2)
    } else {
        0
    }
}

/// Convert a character to EBCDIC.
pub fn ascii_to_ebcdic(c: char) -> (r: u8)
    ensures
        r == spec_ascii_to_ebcdic(c),
{
    let v = c as u32;
    if v < 128 {
        ascii_byte_to_ebcdic(v as u8)
    } else {
        0x40
    }
}

/// Convert an EBCDIC byte to a character.
pub fn ebcdic_to_ascii(b: u8) -> (r: char)
    ensures
        r == spec_ebcdic_to_ascii(b),
        (r as u32) < 128,
{
    let a = ebcdic_to_ascii_byte(b);
    a as char
}

/// Every printable ASCII character survives conversion to EBCDIC and back.
pub proof fn lemma_printable_roundtrip(c: char)
    requires
        is_printable_ascii(c),
    ensures
        spec_ebcdic_to_ascii(spec_ascii_to_ebcdic(c)) == c,
{
    let a = c as u8;
    assert(spec_ebcdic_to_ascii_byte(spec_ascii_byte_to_ebcdic(a)) == a);
    assert((a as char) == c);
}

/// Distinct printable ASCII characters have distinct EBCDIC codes.
pub proof fn lemma_printable_injective(c: char, d: char)
    requires
        is_printable_ascii(c),
        is_printable_ascii(d),
        spec_ascii_to_ebcdic(c) == spec_ascii_to_ebcdic(d),
    ensures
        c == d,
{
    lemma_printable_roundtrip(c);
    lemma_printable_roundtrip(d);
}

/// The EBCDIC code of a printable ASCII symbol (neither a letter nor a
/// digit), as the 5250 code page gives it: ' ' is 0x40, '$' is 0x5B, '#'
/// is 0x7B, and so on; none for other characters.
pub open spec fn code_page_symbol(c: char) -> Option<u8> {
    match c {
        ' ' => Some(0x40u8),
        '!' => Some(0x5Au8),
        '"' => Some(0x7Fu8),
        '#' => Some(0x7Bu8),
        '$' => Some(0x5Bu8),
        '%' => Some(0x6Cu8),
        '&' => Some(0x50u8),
        '\'' => Some(0x7Du8),
        '(' => Some(0x4Du8),
        ')' => Some(0x5Du8),
        '*' => Some(0x5Cu8),
        '+' => Some(0x4Eu8),
        ',' => Some(0x6Bu8),
        '-' => Some(0x60u8),
        '.' => Some(0x4Bu8),
        '/' => Some(0x61u8),
        ':' => Some(0x7Au8),
        ';' => Some(0x5Eu8),
        '<' => Some(0x4Cu8),
        '=' => Some(0x7Eu8),
        '>' => Some(0x6Eu8),
        '?' => Some(0x6Fu8),
        '@' => Some(0x7Cu8),
        '[' => Some(0xADu8),
        '\\' => Some(0xE0u8),
        ']' => Some(0xBDu8),
        '^' => Some(0x5Fu8),
        '_' => Some(0x6Du8),
        '`' => Some(0x79u8),
        '{' => Some(0xC0u8),
        '|' => Some(0x4Fu8),
        '}' => Some(0xD0u8),
        '~' => Some(0xA1u8),
        _ => None,
    }
}

/// The EBCDIC code page of the terminal: letters come in the three blocks
/// A-I, J-R, S-Z at 0xC1, 0xD1 and 0xE2 (lower case at 0x81, 0x91 and
/// 0xA2), digits at 0xF0, and every other printable character at its code
/// (see `code_page_symbol`); the code of a printable character converts
/// back to it.
pub proof fn lemma_ebcdic_code_page(c: char)
    requires
        is_printable_ascii(c),
    ensures
        'A' <= c <= 'I' ==> spec_ascii_to_ebcdic(c) == 0xC1 + (c as u32 - 'A' as u32),
        'J' <= c <= 'R' ==> spec_ascii_to_ebcdic(c) == 0xD1 + (c as u32 - 'J' as u32),
        'S' <= c <= 'Z' ==> spec_ascii_to_ebcdic(c) == 0xE2 + (c as u32 - 'S' as u32),
        'a' <= c <= 'i' ==> spec_ascii_to_ebcdic(c) == 0x81 + (c as u32 - 'a' as u32),
        'j' <= c <= 'r' ==> spec_ascii_to_ebcdic(c) == 0x91 + (c as u32 - 'j' as u32),
        's' <= c <= 'z' ==> spec_ascii_to_ebcdic(c) == 0xA2 + (c as u32 - 's' as u32),
        '0' <= c <= '9' ==> spec_ascii_to_ebcdic(c) == 0xF0 + (c as u32 - '0' as u32),
        !('A' <= c <= 'Z' || 'a' <= c <= 'z' || '0' <= c <= '9') ==> code_page_symbol(c) == Some(spec_ascii_to_ebcdic(c)),
        spec_ebcdic_to_ascii(spec_ascii_to_ebcdic(c)) == c,
{
    lemma_printable_roundtrip(c);
}

/// The conversion back from EBCDIC reads the same code page: an EBCDIC
/// code of the page gives its character (a code in a letter or digit block
/// gives the letter or digit at its place in the block).
pub proof fn lemma_ebcdic_code_page_back(b: u8)
    ensures
        0xC1 <= b <= 0xC9 ==> spec_ebcdic_to_ascii(b) as u32 == 'A' as u32 + (b - 0xC1),
        0xD1 <= b <= 0xD9 ==> spec_ebcdic_to_ascii(b) as u32 == 'J' as u32 + (b - 0xD1),
        0xE2 <= b <= 0xE9 ==> spec_ebcdic_to_ascii(b) as u32 == 'S' as u32 + (b - 0xE2),
        0x81 <= b <= 0x89 ==> spec_ebcdic_to_ascii(b) as u32 == 'a' as u32 + (b - 0x81),
        0x91 <= b <= 0x99 ==> spec_ebcdic_to_ascii(b) as u32 == 'j' as u32 + (b - 0x91),
        0xA2 <= b <= 0xA9 ==> spec_ebcdic_to_ascii(b) as u32 == 's' as u32 + (b - 0xA2),
        0xF0 <= b <= 0xF9 ==> spec_ebcdic_to_ascii(b) as u32 == '0' as u32 + (b - 0xF0),
        forall|c: char| #[trigger] code_page_symbol(c) == Some(b) ==> spec_ebcdic_to_ascii(b) == c,
        spec_ebcdic_to_ascii(b) != '\0' ==> is_printable_ascii(spec_ebcdic_to_ascii(b))
            && spec_ascii_to_ebcdic(spec_ebcdic_to_ascii(b)) == b,
{
}

/// Characters outside printable ASCII have no code of their own on the
/// page: each is sent as the EBCDIC space (0x40).
pub proof fn lemma_unprintable_is_space(c: char)
    requires
        !is_printable_ascii(c),
    ensures
        spec_ascii_to_ebcdic(c) == 0x40,
{
}

} // verus!
