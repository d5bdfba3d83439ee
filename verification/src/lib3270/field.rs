//! 3270 field attributes (Start Field / Start Field Extended) and the
//! collection of fields present on a screen.

use vstd::prelude::*;
use vstd::multiset::Multiset;
use crate::lib3270::codes::{
    ATTR_DISPLAY, ATTR_MDT, ATTR_NUMERIC, ATTR_PROTECTED, ATTR_RESERVED, DISPLAY_HIDDEN,
    DISPLAY_INTENSIFIED, DISPLAY_NORMAL, VALIDATION_MANDATORY_ENTRY, VALIDATION_MANDATORY_FILL,
    VALIDATION_TRIGGER, XA_BACKGROUND, XA_CHARSET, XA_FOREGROUND, XA_HIGHLIGHTING, XA_OUTLINING,
    XA_TRANSPARENCY, XA_VALIDATION,
};
use crate::text::{decimal_seq, decimal_string, str_to_string, string_concat};

verus! {

/// Extended field attributes carried by the SFE order.
#[derive(Debug, Clone, Copy, PartialEq, Eq, Structural)]
pub struct ExtendedAttributes {
    pub highlighting: Option<u8>,
    pub foreground_color: Option<u8>,
    pub background_color: Option<u8>,
    pub charset: Option<u8>,
    pub validation: Option<u8>,
    pub outlining: Option<u8>,
    pub transparency: Option<u8>,
}

impl ExtendedAttributes {
    /// The attribute set in which no attribute is present.
    pub open spec fn spec_empty() -> Self {
        ExtendedAttributes {
            highlighting: None,
            foreground_color: None,
            background_color: None,
            charset: None,
            validation: None,
            outlining: None,
            transparency: None,
        }
    }

    /// Create extended attributes with every attribute absent.
    pub fn new() -> (r: Self)
        ensures
            r == Self::spec_empty(),
    {
        ExtendedAttributes {
            highlighting: None,
            foreground_color: None,
            background_color: None,
            charset: None,
            validation: None,
            outlining: None,
            transparency: None,
        }
    }

    /// Set the highlighting attribute.
    pub fn with_highlighting(self, highlighting: u8) -> (r: Self)
        ensures
            r == (ExtendedAttributes { highlighting: Some(highlighting), ..self }),
    {
        let mut s = self;
        s.highlighting = Some(highlighting);
        s
    }

    /// Set the foreground colour.
    pub fn with_foreground(self, color: u8) -> (r: Self)
        ensures
            r == (ExtendedAttributes { foreground_color: Some(color), ..self }),
    {
        let mut s = self;
        s.foreground_color = Some(color);
        s
    }

    /// Set the background colour.
    pub fn with_background(self, color: u8) -> (r: Self)
        ensures
            r == (ExtendedAttributes { background_color: Some(color), ..self }),
    {
        let mut s = self;
        s.background_color = Some(color);
        s
    }

    /// Set the character set.
    pub fn with_charset(self, charset: u8) -> (r: Self)
        ensures
            r == (ExtendedAttributes { charset: Some(charset), ..self }),
    {
        let mut s = self;
        s.charset = Some(charset);
        s
    }

    /// Set the validation attribute.
    pub fn with_validation(self, validation: u8) -> (r: Self)
        ensures
            r == (ExtendedAttributes { validation: Some(validation), ..self }),
    {
        let mut s = self;
        s.validation = Some(validation);
        s
    }

    /// The attribute set after applying one (type, value) pair: known types
    /// overwrite their attribute, unknown types leave the set unchanged.
    pub open spec fn spec_apply_pair(self, attr_type: u8, attr_value: u8) -> Self {
        if attr_type == XA_HIGHLIGHTING {
            ExtendedAttributes { highlighting: Some(attr_value), ..self }
        } else if attr_type == XA_FOREGROUND {
            ExtendedAttributes { foreground_color: Some(attr_value), ..self }
        } else if attr_type == XA_BACKGROUND {
            ExtendedAttributes { background_color: Some(attr_value), ..self }
        } else if attr_type == XA_CHARSET {
            ExtendedAttributes { charset: Some(attr_value), ..self }
        } else if attr_type == XA_VALIDATION {
            ExtendedAttributes { validation: Some(attr_value), ..self }
        } else if attr_type == XA_OUTLINING {
            ExtendedAttributes { outlining: Some(attr_value), ..self }
        } else if attr_type == XA_TRANSPARENCY {
            ExtendedAttributes { transparency: Some(attr_value), ..self }
        } else {
            self
        }
    }

    /// Apply one (type, value) pair.
    pub fn apply_pair(self, attr_type: u8, attr_value: u8) -> (r: Self)
        ensures
            r == self.spec_apply_pair(attr_type, attr_value),
    {
        let mut s = self;
        if attr_type == XA_HIGHLIGHTING {
            s.highlighting = Some(attr_value);
        } else if attr_type == XA_FOREGROUND {
            s.foreground_color = Some(attr_value);
        } else if attr_type == XA_BACKGROUND {
            s.background_color = Some(attr_value);
        } else if attr_type == XA_CHARSET {
            s.charset = Some(attr_value);
        } else if attr_type == XA_VALIDATION {
            s.validation = Some(attr_value);
        } else if attr_type == XA_OUTLINING {
            s.outlining = Some(attr_value);
        } else if attr_type == XA_TRANSPARENCY {
            s.transparency = Some(attr_value);
        }
        s
    }

    /// The attribute set obtained from the first `n` pairs that follow the
    /// count byte in `data`, applied in order to `start`.
    pub open spec fn spec_apply_pairs(start: Self, data: Seq<u8>, n: nat) -> Self
        decreases n,
    {
        if n == 0 {
            start
        } else {
            Self::spec_apply_pairs(start, data, (n - 1) as nat).spec_apply_pair(
                data[2 * n - 1],
                data[(2 * n) as int],
            )
        }
    }

    /// Parse extended attributes from SFE order data: a count byte followed by
    /// that many (type, value) pairs. Returns the attributes and the number of
    /// bytes consumed.
    pub fn parse_from_sfe(data: &[u8]) -> (r: Result<(Self, usize), String>)
        ensures
            data@.len() == 0 ==> r is Err,
            data@.len() > 0 ==> (r is Ok <==> 2 * (data@[0] as int) < data@.len()),
            r matches Ok((attrs, used)) ==> {
                &&& used == 1 + 2 * (data@[0] as int)
                &&& attrs == Self::spec_apply_pairs(
                    Self::spec_empty(),
                    data@,
                    data@[0] as nat,
                )
            },
    {
        if data.len() == 0 {
            return Err(str_to_string("Empty SFE data"));
        }
        let num_pairs = data[0] as usize;
        let mut attrs = ExtendedAttributes::new();
        let mut pos: usize = 1;
        let mut k: usize = 0;
        while k < num_pairs
            invariant
                data@.len() > 0,
                num_pairs == data@[0] as int,
                k <= num_pairs,
                pos == 1 + 2 * k,
                2 * k < data@.len(),
                attrs == Self::spec_apply_pairs(Self::spec_empty(), data@, k as nat),
            decreases num_pairs - k,
        {
            if pos + 1 >= data.len() {
                return Err(str_to_string("Incomplete attribute pair in SFE"));
            }
            let attr_type = data[pos];
            let attr_value = data[pos + 1];
            attrs = attrs.apply_pair(attr_type, attr_value);
            pos = pos + 2;
            k = k + 1;
        }
        Ok((attrs, pos))
    }
}

impl Default for ExtendedAttributes {
    fn default() -> (r: Self)
        ensures
            r == Self::spec_empty(),
    {
        Self::new()
    }
}

/// A field on the 3270 screen.
#[derive(Debug, Clone, Copy, PartialEq, Eq, Structural)]
pub struct FieldAttribute {
    /// Buffer address of the field attribute position.
    pub address: u16,
    /// Base attribute byte (Start Field order).
    pub base_attr: u8,
    /// Extended attributes (Start Field Extended order).
    pub extended_attrs: ExtendedAttributes,
    /// Field length, measured to the next field or to the end of the buffer.
    pub length: usize,
}

/// Whether `b` has a bit of `mask` set.
pub open spec fn has_bits(b: u8, mask: u8) -> bool {
    b & mask != 0
}

/// Whether an entered byte counts as empty: null or EBCDIC space.
pub open spec fn is_blank_byte(b: u8) -> bool {
    b == 0x00 || b == 0x40
}

/// Whether a byte is an EBCDIC digit.
pub open spec fn is_ebcdic_digit(b: u8) -> bool {
    0xF0 <= b <= 0xF9
}

pub const MSG_MANDATORY_FILL: &'static str = "Mandatory fill: field must be completely filled";
pub const MSG_MANDATORY_ENTRY: &'static str = "Mandatory entry: field must have at least one character";
pub const MSG_NUMERIC_ONLY: &'static str = "Numeric field: only digits allowed";

impl FieldAttribute {
    /// Create a field with a base attribute only.
    pub fn new(address: u16, base_attr: u8) -> (r: Self)
        ensures
            r == (FieldAttribute {
                address,
                base_attr,
                extended_attrs: ExtendedAttributes::spec_empty(),
                length: 0,
            }),
    {
        FieldAttribute { address, base_attr, extended_attrs: ExtendedAttributes::new(), length: 0 }
    }

    /// Create a field with extended attributes.
    pub fn new_extended(address: u16, base_attr: u8, extended_attrs: ExtendedAttributes) -> (r:
        Self)
        ensures
            r == (FieldAttribute { address, base_attr, extended_attrs, length: 0 }),
    {
        FieldAttribute { address, base_attr, extended_attrs, length: 0 }
    }

    pub open spec fn spec_is_protected(self) -> bool {
        has_bits(self.base_attr, ATTR_PROTECTED)
    }

    pub open spec fn spec_is_numeric(self) -> bool {
        has_bits(self.base_attr, ATTR_NUMERIC)
    }

    pub open spec fn spec_is_modified(self) -> bool {
        has_bits(self.base_attr, ATTR_MDT)
    }

    /// Whether the field is protected (bit 5).
    pub fn is_protected(&self) -> (b: bool)
        ensures
            b == self.spec_is_protected(),
    {
        (self.base_attr & ATTR_PROTECTED) != 0
    }

    /// Whether the field is numeric (bit 4).
    pub fn is_numeric(&self) -> (b: bool)
        ensures
            b == self.spec_is_numeric(),
    {
        (self.base_attr & ATTR_NUMERIC) != 0
    }

    /// Whether the field is non-display.
    pub fn is_hidden(&self) -> (b: bool)
        ensures
            b == (self.base_attr & ATTR_DISPLAY == DISPLAY_HIDDEN),
    {
        (self.base_attr & ATTR_DISPLAY) == DISPLAY_HIDDEN
    }

    /// Whether the field is intensified.
    pub fn is_intensified(&self) -> (b: bool)
        ensures
            b == (self.base_attr & ATTR_DISPLAY == DISPLAY_INTENSIFIED),
    {
        (self.base_attr & ATTR_DISPLAY) == DISPLAY_INTENSIFIED
    }

    /// Whether the Modified Data Tag is set.
    pub fn is_modified(&self) -> (b: bool)
        ensures
            b == self.spec_is_modified(),
    {
        (self.base_attr & ATTR_MDT) != 0
    }

    /// The base attribute with the Modified Data Tag set or cleared.
    pub open spec fn spec_with_mdt(base: u8, modified: bool) -> u8 {
        if modified {
            base | ATTR_MDT
        } else {
            base & !ATTR_MDT
        }
    }

    /// Set or clear the Modified Data Tag, leaving every other bit and field.
    pub fn set_modified(&mut self, modified: bool)
        ensures
            *final(self) == (FieldAttribute {
                base_attr: Self::spec_with_mdt(old(self).base_attr, modified),
                ..*old(self)
            }),
            final(self).spec_is_modified() == modified,
            final(self).spec_is_protected() == old(self).spec_is_protected(),
            final(self).spec_is_numeric() == old(self).spec_is_numeric(),
    {
        let b = self.base_attr;
        if modified {
            self.base_attr = b | ATTR_MDT;
            assert((b | 1u8) & 1u8 != 0) by (bit_vector);
            assert(((b | 1u8) & 0x20u8 != 0) == (b & 0x20u8 != 0)) by (bit_vector);
            assert(((b | 1u8) & 0x10u8 != 0) == (b & 0x10u8 != 0)) by (bit_vector);
        } else {
            self.base_attr = b & !ATTR_MDT;
            assert((b & !1u8) & 1u8 == 0) by (bit_vector);
            assert(((b & !1u8) & 0x20u8 != 0) == (b & 0x20u8 != 0)) by (bit_vector);
            assert(((b & !1u8) & 0x10u8 != 0) == (b & 0x10u8 != 0)) by (bit_vector);
        }
    }

    /// The display bits of the base attribute.
    pub fn display_attr(&self) -> (b: u8)
        ensures
            b == self.base_attr & ATTR_DISPLAY,
    {
        self.base_attr & ATTR_DISPLAY
    }

    pub open spec fn spec_validation_has(self, mask: u8) -> bool {
        match self.extended_attrs.validation {
            Some(v) => has_bits(v, mask),
            None => false,
        }
    }

    /// Whether the field requires mandatory fill.
    pub fn is_mandatory_fill(&self) -> (b: bool)
        ensures
            b == self.spec_validation_has(VALIDATION_MANDATORY_FILL),
    {
        match self.extended_attrs.validation {
            Some(v) => (v & VALIDATION_MANDATORY_FILL) != 0,
            None => false,
        }
    }

    /// Whether the field requires mandatory entry.
    pub fn is_mandatory_entry(&self) -> (b: bool)
        ensures
            b == self.spec_validation_has(VALIDATION_MANDATORY_ENTRY),
    {
        match self.extended_attrs.validation {
            Some(v) => (v & VALIDATION_MANDATORY_ENTRY) != 0,
            None => false,
        }
    }

    /// Whether the field is a trigger field.
    pub fn is_trigger(&self) -> (b: bool)
        ensures
            b == self.spec_validation_has(VALIDATION_TRIGGER),
    {
        match self.extended_attrs.validation {
            Some(v) => (v & VALIDATION_TRIGGER) != 0,
            None => false,
        }
    }

    /// Mandatory fill holds: the content is at least as long as the field and
    /// no byte of it is blank.
    pub open spec fn spec_fill_ok(self, content: Seq<u8>) -> bool {
        !self.spec_validation_has(VALIDATION_MANDATORY_FILL) || (content.len() >= self.length
            && forall|i: int| 0 <= i < content.len() ==> !is_blank_byte(#[trigger] content[i]))
    }

    /// Mandatory entry holds: some byte of the content is not blank.
    pub open spec fn spec_entry_ok(self, content: Seq<u8>) -> bool {
        !self.spec_validation_has(VALIDATION_MANDATORY_ENTRY) || exists|i: int|
            0 <= i < content.len() && !is_blank_byte(#[trigger] content[i])
    }

    /// The numeric rule holds: every byte is blank or a digit.
    pub open spec fn spec_numeric_ok(self, content: Seq<u8>) -> bool {
        !self.spec_is_numeric() || forall|i: int|
            0 <= i < content.len() ==> is_blank_byte(#[trigger] content[i]) || is_ebcdic_digit(
                content[i],
            )
    }

    /// Validate entered content against the field's attributes. The checks
    /// run in the order mandatory fill, mandatory entry, numeric; the first
    /// that fails gives the error.
    #[verifier::loop_isolation(false)]
    pub fn validate_content(&self, content: &[u8]) -> (r: Result<(), String>)
        ensures
            r is Ok <==> (self.spec_fill_ok(content@) && self.spec_entry_ok(content@)
                && self.spec_numeric_ok(content@)),
            r matches Err(e) ==> {
                &&& !self.spec_fill_ok(content@) ==> e@ == MSG_MANDATORY_FILL@
                &&& (self.spec_fill_ok(content@) && !self.spec_entry_ok(content@)) ==> e@
                    == MSG_MANDATORY_ENTRY@
                &&& (self.spec_fill_ok(content@) && self.spec_entry_ok(content@)) ==> e@
                    == MSG_NUMERIC_ONLY@
            },
    {
        if self.is_mandatory_fill() {
            if content.len() < self.length {
                return Err(str_to_string(MSG_MANDATORY_FILL));
            }
            let mut i: usize = 0;
            while i < content.len()
                invariant
                    i <= content@.len(),
                    forall|j: int| 0 <= j < i ==> !is_blank_byte(#[trigger] content@[j]),
                decreases content@.len() - i,
            {
                let ch = content[i];
                if ch == 0x00 || ch == 0x40 {
                    return Err(str_to_string(MSG_MANDATORY_FILL));
                }
                i = i + 1;
            }
        }
        if self.is_mandatory_entry() {
            let mut has_content = false;
            let mut i: usize = 0;
            while i < content.len()
                invariant
                    i <= content@.len(),
                    !has_content ==> forall|j: int|
                        0 <= j < i ==> is_blank_byte(#[trigger] content@[j]),
                    has_content ==> exists|j: int|
                        0 <= j < content@.len() && !is_blank_byte(#[trigger] content@[j]),
                decreases content@.len() - i,
            {
                let ch = content[i];
                if ch != 0x00 && ch != 0x40 {
                    has_content = true;
                }
                i = i + 1;
            }
            if !has_content {
                return Err(str_to_string(MSG_MANDATORY_ENTRY));
            }
        }
        if self.is_numeric() {
            let mut i: usize = 0;
            while i < content.len()
                invariant
                    i <= content@.len(),
                    forall|j: int|
                        0 <= j < i ==> is_blank_byte(#[trigger] content@[j]) || is_ebcdic_digit(
                            content@[j],
                        ),
                decreases content@.len() - i,
            {
                let ch = content[i];
                if ch != 0x00 && ch != 0x40 && !(ch >= 0xF0 && ch <= 0xF9) {
                    return Err(str_to_string(MSG_NUMERIC_ONLY));
                }
                i = i + 1;
            }
        }
        Ok(())
    }
}

/// The individual bits of a base attribute byte.
#[derive(Debug, Clone, Copy, PartialEq, Eq, Structural)]
pub struct FieldAttributeInfo {
    pub protected: bool,
    pub numeric: bool,
    /// One of DISPLAY_NORMAL, DISPLAY_INTENSIFIED or DISPLAY_HIDDEN (or 0x04).
    pub display: u8,
    pub modified: bool,
    pub reserved: bool,
}

/// Split a base attribute byte into its bits.
pub fn parse_base_attribute(attr_byte: u8) -> (r: FieldAttributeInfo)
    ensures
        r == (FieldAttributeInfo {
            protected: has_bits(attr_byte, ATTR_PROTECTED),
            numeric: has_bits(attr_byte, ATTR_NUMERIC),
            display: attr_byte & ATTR_DISPLAY,
            modified: has_bits(attr_byte, ATTR_MDT),
            reserved: has_bits(attr_byte, ATTR_RESERVED),
        }),
{
    FieldAttributeInfo {
        protected: (attr_byte & ATTR_PROTECTED) != 0,
        numeric: (attr_byte & ATTR_NUMERIC) != 0,
        display: attr_byte & ATTR_DISPLAY,
        modified: (attr_byte & ATTR_MDT) != 0,
        reserved: (attr_byte & ATTR_RESERVED) != 0,
    }
}

impl FieldAttributeInfo {
    /// Whether the display bits say non-display.
    pub fn is_hidden(&self) -> (b: bool)
        ensures
            b == (self.display == DISPLAY_HIDDEN),
    {
        self.display == DISPLAY_HIDDEN
    }

    /// Whether the display bits say intensified.
    pub fn is_intensified(&self) -> (b: bool)
        ensures
            b == (self.display == DISPLAY_INTENSIFIED),
    {
        self.display == DISPLAY_INTENSIFIED
    }

    /// Whether the display bits say normal.
    pub fn is_normal(&self) -> (b: bool)
        ensures
            b == (self.display == DISPLAY_NORMAL),
    {
        self.display == DISPLAY_NORMAL
    }
}


/// Whether the fields are ordered by address.
pub open spec fn sorted_by_address(s: Seq<FieldAttribute>) -> bool {
    forall|i: int, j: int| 0 <= i <= j < s.len() ==> #[trigger] s[i].address <= #[trigger] s[j].address
}

/// Insert `f` after every trailing field whose address is greater than its
/// own: one step of a stable insertion sort by address.
pub open spec fn insert_by_address(s: Seq<FieldAttribute>, f: FieldAttribute) -> Seq<FieldAttribute>
    decreases s.len(),
{
    if s.len() == 0 {
        seq![f]
    } else if s.last().address <= f.address {
        s.push(f)
    } else {
        insert_by_address(s.drop_last(), f).push(s.last())
    }
}

/// Stable sort of fields by address (insertion sort).
pub open spec fn sort_by_address(s: Seq<FieldAttribute>) -> Seq<FieldAttribute>
    decreases s.len(),
{
    if s.len() == 0 {
        s
    } else {
        insert_by_address(sort_by_address(s.drop_last()), s.last())
    }
}

/// Adding a field to a list sorted by address is stable: the new field
/// goes in at one place `k`, after every field with the same or a lower
/// address and before every field with a higher one, and the fields
/// already there keep their order (so fields with the same address stay in
/// the order they were added, the new one last).
pub proof fn lemma_insert_stable(s: Seq<FieldAttribute>, f: FieldAttribute) -> (k: int)
    requires
        sorted_by_address(s),
    ensures
        0 <= k <= s.len(),
        insert_by_address(s, f) == s.take(k).push(f) + s.skip(k),
        forall|i: int| 0 <= i < k ==> (#[trigger] s[i]).address <= f.address,
        forall|i: int| k <= i < s.len() ==> (#[trigger] s[i]).address > f.address,
    decreases s.len(),
{
    if s.len() == 0 {
        assert(insert_by_address(s, f) =~= s.take(0).push(f) + s.skip(0));
        0
    } else if s.last().address <= f.address {
        let k = s.len() as int;
        assert(insert_by_address(s, f) =~= s.take(k).push(f) + s.skip(k));
        assert forall|i: int| 0 <= i < k implies (#[trigger] s[i]).address <= f.address by {
            assert(s[i].address <= s[s.len() - 1].address);
        }
        k
    } else {
        let t = s.drop_last();
        assert(sorted_by_address(t)) by {
            assert forall|i: int, j: int| 0 <= i <= j < t.len() implies #[trigger] t[i].address <= #[trigger] t[j].address by {
                assert(t[i] == s[i] && t[j] == s[j]);
            }
        }
        let k = lemma_insert_stable(t, f);
        assert(insert_by_address(s, f) =~= s.take(k).push(f) + s.skip(k)) by {
            assert(s.take(k) =~= t.take(k));
            assert(s.skip(k) =~= t.skip(k).push(s.last()));
        }
        assert forall|i: int| 0 <= i < k implies (#[trigger] s[i]).address <= f.address by {
            assert(s[i] == t[i]);
        }
        assert forall|i: int| k <= i < s.len() implies (#[trigger] s[i]).address > f.address by {
            if i < t.len() {
                assert(s[i] == t[i]);
            }
        }
        k
    }
}

/// `insert_by_address` adds exactly one element and keeps a sorted list sorted.
pub proof fn lemma_insert_by_address(s: Seq<FieldAttribute>, f: FieldAttribute)
    ensures
        insert_by_address(s, f).len() == s.len() + 1,
        insert_by_address(s, f).to_multiset() == s.to_multiset().insert(f),
        sorted_by_address(s) ==> sorted_by_address(insert_by_address(s, f)),
    decreases s.len(),
{
    broadcast use vstd::seq_lib::group_to_multiset_ensures;
    if s.len() == 0 {
        assert(seq![f].to_multiset() =~= Multiset::empty().insert(f)) by {
            assert(seq![f] =~= Seq::<FieldAttribute>::empty().push(f));
        }
    } else if s.last().address <= f.address {
    } else {
        let t = s.drop_last();
        lemma_insert_by_address(t, f);
        assert(s =~= t.push(s.last()));
        if sorted_by_address(s) {
            let r = insert_by_address(t, f);
            assert(sorted_by_address(t)) by {
                assert forall|i: int, j: int| 0 <= i <= j < t.len() implies #[trigger] t[i].address
                    <= #[trigger] t[j].address by {
                    assert(t[i] == s[i] && t[j] == s[j]);
                }
            }
            let m = s.last().address;
            assert forall|i: int| 0 <= i < t.len() implies #[trigger] t[i].address <= m by {
                assert(t[i] == s[i]);
                assert(s[s.len() - 1] == s.last());
            }
            lemma_insert_bounded(t, f, m);
            let rr = insert_by_address(s, f);
            assert(rr =~= r.push(s.last()));
            assert forall|i: int, j: int| 0 <= i <= j < rr.len() implies #[trigger] rr[i].address
                <= #[trigger] rr[j].address by {
                if j < r.len() {
                    assert(rr[i] == r[i] && rr[j] == r[j]);
                } else {
                    assert(rr[j] == s.last());
                    if i < r.len() {
                        assert(rr[i] == r[i]);
                    }
                }
            }
        }
    }
}

/// Inserting a field into fields that all lie at or before `a`, when the new
/// field does too, gives fields that all lie at or before `a`.
pub proof fn lemma_insert_bounded(s: Seq<FieldAttribute>, f: FieldAttribute, a: u16)
    requires
        forall|i: int| 0 <= i < s.len() ==> #[trigger] s[i].address <= a,
        f.address <= a,
    ensures
        forall|i: int|
            0 <= i < insert_by_address(s, f).len() ==> #[trigger] insert_by_address(s, f)[i].address
                <= a,
    decreases s.len(),
{
    if s.len() > 0 && s.last().address > f.address {
        let t = s.drop_last();
        assert forall|i: int| 0 <= i < t.len() implies #[trigger] t[i].address <= a by {
            assert(t[i] == s[i]);
        }
        lemma_insert_bounded(t, f, a);
        lemma_insert_by_address(t, f);
        let r = insert_by_address(t, f);
        assert forall|i: int|
            0 <= i < insert_by_address(s, f).len() implies #[trigger] insert_by_address(s, f)[i].address
            <= a by {
            if i < r.len() {
                assert(insert_by_address(s, f)[i] == r[i]);
            } else {
                assert(s[s.len() - 1].address <= a);
            }
        }
    }
}

/// Whether every field's last position fits in a machine word.
pub open spec fn extents_fit(s: Seq<FieldAttribute>) -> bool {
    forall|i: int| 0 <= i < s.len() ==> s[i].address + #[trigger] s[i].length <= usize::MAX
}

/// Inserting a field whose extent fits keeps all extents fitting.
pub proof fn lemma_insert_extents(s: Seq<FieldAttribute>, f: FieldAttribute)
    requires
        extents_fit(s),
        f.address + f.length <= usize::MAX,
    ensures
        extents_fit(insert_by_address(s, f)),
    decreases s.len(),
{
    if s.len() > 0 && s.last().address > f.address {
        let t = s.drop_last();
        assert(extents_fit(t)) by {
            assert forall|i: int| 0 <= i < t.len() implies t[i].address + #[trigger] t[i].length
                <= usize::MAX by {
                assert(t[i] == s[i]);
            }
        }
        lemma_insert_extents(t, f);
        lemma_insert_by_address(t, f);
        let r = insert_by_address(t, f);
        let rr = insert_by_address(s, f);
        assert forall|i: int| 0 <= i < rr.len() implies rr[i].address + #[trigger] rr[i].length
            <= usize::MAX by {
            if i < r.len() {
                assert(rr[i] == r[i]);
            } else {
                assert(rr[i] == s[s.len() - 1]);
            }
        }
    }
}

/// Sorting keeps all extents fitting.
pub proof fn lemma_sort_extents(s: Seq<FieldAttribute>)
    requires
        extents_fit(s),
    ensures
        extents_fit(sort_by_address(s)),
    decreases s.len(),
{
    if s.len() > 0 {
        let t = s.drop_last();
        assert(extents_fit(t)) by {
            assert forall|i: int| 0 <= i < t.len() implies t[i].address + #[trigger] t[i].length
                <= usize::MAX by {
                assert(t[i] == s[i]);
            }
        }
        lemma_sort_extents(t);
        assert(s.last() == s[s.len() - 1]);
        lemma_insert_extents(sort_by_address(t), s.last());
    }
}

/// Every field of the sorted list is a field of the input.
pub proof fn lemma_sort_members(s: Seq<FieldAttribute>, x: FieldAttribute)
    requires
        sort_by_address(s).contains(x),
    ensures
        s.contains(x),
{
    lemma_sort_by_address(s);
    vstd::seq_lib::to_multiset_contains(sort_by_address(s), x);
    vstd::seq_lib::to_multiset_contains(s, x);
}

/// Sorting gives a sorted permutation of the input.
pub proof fn lemma_sort_by_address(s: Seq<FieldAttribute>)
    ensures
        sorted_by_address(sort_by_address(s)),
        sort_by_address(s).len() == s.len(),
        sort_by_address(s).to_multiset() == s.to_multiset(),
    decreases s.len(),
{
    broadcast use vstd::seq_lib::group_to_multiset_ensures;
    if s.len() > 0 {
        lemma_sort_by_address(s.drop_last());
        lemma_insert_by_address(sort_by_address(s.drop_last()), s.last());
        assert(s =~= s.drop_last().push(s.last()));
    }
}

/// Sorting a list that is already ordered by address leaves it unchanged.
pub proof fn lemma_sort_sorted_is_identity(s: Seq<FieldAttribute>)
    requires
        sorted_by_address(s),
    ensures
        sort_by_address(s) == s,
    decreases s.len(),
{
    if s.len() > 0 {
        let t = s.drop_last();
        assert(sorted_by_address(t)) by {
            assert forall|i: int, j: int| 0 <= i <= j < t.len() implies #[trigger] t[i].address
                <= #[trigger] t[j].address by {
                assert(t[i] == s[i] && t[j] == s[j]);
            }
        }
        lemma_sort_sorted_is_identity(t);
        if t.len() > 0 {
            assert(t.last() == s[s.len() - 2]);
            assert(s[s.len() - 2].address <= s[s.len() - 1].address);
        }
        assert(s =~= t.push(s.last()));
    }
}

/// The fields of a screen, kept in address order.
#[derive(Debug)]
pub struct FieldManager {
    fields: Vec<FieldAttribute>,
}

impl View for FieldManager {
    type V = Seq<FieldAttribute>;

    closed spec fn view(&self) -> Seq<FieldAttribute> {
        self.fields@
    }
}

/// The end address of field `i`: the next field's address, or the buffer
/// size for the last field.
pub open spec fn field_end(s: Seq<FieldAttribute>, i: int, buffer_size: usize) -> int {
    if i + 1 < s.len() {
        s[i + 1].address as int
    } else {
        buffer_size as int
    }
}

/// Whether field `i` has valid boundaries in a buffer of the given size.
pub open spec fn field_bounds_ok(s: Seq<FieldAttribute>, i: int, buffer_size: usize) -> bool {
    &&& (s[i].address as int) < buffer_size
    &&& field_end(s, i, buffer_size) <= buffer_size
    &&& s[i].address as int <= field_end(s, i, buffer_size)
}

/// The error text for a field whose boundaries are invalid.
pub open spec fn field_bounds_error(s: Seq<FieldAttribute>, i: int, buffer_size: usize) -> Seq<
    char,
> {
    let start = s[i].address as nat;
    let end = field_end(s, i, buffer_size) as nat;
    if start >= buffer_size {
        "Field "@ + decimal_seq(i as nat) + " start address "@ + decimal_seq(start)
            + " exceeds buffer size "@ + decimal_seq(buffer_size as nat)
    } else if end > buffer_size {
        "Field "@ + decimal_seq(i as nat) + " end address "@ + decimal_seq(end)
            + " exceeds buffer size "@ + decimal_seq(buffer_size as nat)
    } else {
        "Field "@ + decimal_seq(i as nat) + " has invalid boundaries: start "@ + decimal_seq(start)
            + " > end "@ + decimal_seq(end)
    }
}

/// Field `i` with its length measured to its end.
pub open spec fn with_measured_length(s: Seq<FieldAttribute>, i: int, buffer_size: usize) -> FieldAttribute {
    FieldAttribute { length: (field_end(s, i, buffer_size) - s[i].address) as usize, ..s[i] }
}

impl FieldManager {
    /// Create an empty field manager.
    pub fn new() -> (r: Self)
        ensures
            r@ == Seq::<FieldAttribute>::empty(),
    {
        FieldManager { fields: Vec::new() }
    }

    /// Add a field, then order all fields by address (a stable sort, so a
    /// field added at an address already in use comes after the earlier one).
    pub fn add_field(&mut self, field: FieldAttribute)
        ensures
            final(self)@ == sort_by_address(old(self)@.push(field)),
            sorted_by_address(final(self)@),
            final(self)@.len() == old(self)@.len() + 1,
            sorted_by_address(old(self)@) ==> final(self)@ == insert_by_address(old(self)@, field),
    {
        let ghost input = self.fields@.push(field);
        let mut old_fields: Vec<FieldAttribute> = Vec::new();
        std::mem::swap(&mut old_fields, &mut self.fields);
        old_fields.push(field);
        let mut sorted: Vec<FieldAttribute> = Vec::new();
        let mut i: usize = 0;
        while i < old_fields.len()
            invariant
                old_fields@ == input,
                i <= input.len(),
                sorted@ == sort_by_address(input.take(i as int)),
            decreases input.len() - i,
        {
            let f = old_fields[i];
            Self::insert_sorted(&mut sorted, f);
            proof {
                assert(input.take((i + 1) as int).drop_last() =~= input.take(i as int));
                assert(input.take((i + 1) as int).last() == f);
            }
            i = i + 1;
        }
        proof {
            assert(input.take(input.len() as int) =~= input);
            lemma_sort_by_address(input);
            if sorted_by_address(old(self)@) {
                lemma_sort_sorted_is_identity(old(self)@);
                assert(input.drop_last() =~= old(self)@);
            }
        }
        self.fields = sorted;
    }

    /// Insert one field by `insert_by_address`.
    fn insert_sorted(v: &mut Vec<FieldAttribute>, f: FieldAttribute)
        ensures
            final(v)@ == insert_by_address(old(v)@, f),
    {
        let ghost s = v@;
        let mut j: usize = v.len();
        assert(s.take(s.len() as int) =~= s);
        assert(s.skip(s.len() as int) =~= Seq::<FieldAttribute>::empty());
        while j > 0 && v[j - 1].address > f.address
            invariant
                v@ == s,
                j <= s.len(),
                insert_by_address(s, f) == insert_by_address(s.take(j as int), f) + s.skip(j as int),
            decreases j,
        {
            proof {
                let t = s.take(j as int);
                assert(t.last() == s[j - 1]);
                assert(t.drop_last() =~= s.take(j - 1));
                assert(insert_by_address(t, f) == insert_by_address(s.take(j - 1), f).push(s[j - 1]));
                assert(insert_by_address(s.take(j - 1), f).push(s[j - 1]) + s.skip(j as int)
                    =~= insert_by_address(s.take(j - 1), f) + s.skip(j - 1));
            }
            j = j - 1;
        }
        proof {
            let t = s.take(j as int);
            if j == 0 {
                assert(insert_by_address(t, f) =~= seq![f]);
            } else {
                assert(t.last() == s[j - 1]);
                assert(insert_by_address(t, f) == t.push(f));
            }
        }
        v.insert(j, f);
        assert(v@ =~= insert_by_address(s, f)) by {
            let t = s.take(j as int);
            assert(insert_by_address(t, f) == t.push(f)) by {
                if j == 0 {
                    assert(insert_by_address(t, f) =~= seq![f]);
                    assert(t.push(f) =~= seq![f]);
                }
            }
        }
    }

    /// Remove every field.
    pub fn clear(&mut self)
        ensures
            final(self)@ == Seq::<FieldAttribute>::empty(),
    {
        self.fields.clear();
    }

    /// All fields, in order.
    pub fn fields(&self) -> (r: &[FieldAttribute])
        ensures
            r@ == self@,
    {
        self.fields.as_slice()
    }

    /// The last field (in list order) whose address is at or before `address`.
    pub fn find_field_at(&self, address: u16) -> (r: Option<&FieldAttribute>)
        ensures
            r is None <==> forall|i: int| 0 <= i < self@.len() ==> #[trigger] self@[i].address > address,
            r matches Some(f) ==> exists|i: int|
                0 <= i < self@.len() && *f == self@[i] && self@[i].address <= address && forall|
                    j: int,
                | i < j < self@.len() ==> #[trigger] self@[j].address > address,
    {
        let mut k: usize = self.fields.len();
        while k > 0
            invariant
                k <= self@.len(),
                self@ == self.fields@,
                forall|j: int| k <= j < self@.len() ==> #[trigger] self@[j].address > address,
            decreases k,
        {
            if self.fields[k - 1].address <= address {
                return Some(&self.fields[k - 1]);
            }
            k = k - 1;
        }
        None
    }

    /// Index of the last field (in list order) whose address is at or before
    /// `address`, if any.
    pub open spec fn spec_find_index(s: Seq<FieldAttribute>, address: u16) -> int
        decreases s.len(),
    {
        if s.len() == 0 {
            -1
        } else if s.last().address <= address {
            s.len() - 1
        } else {
            Self::spec_find_index(s.drop_last(), address)
        }
    }

    /// The position found by `spec_find_index` satisfies the search.
    pub proof fn lemma_find_index(s: Seq<FieldAttribute>, address: u16)
        ensures
            -1 <= Self::spec_find_index(s, address) < s.len(),
            Self::spec_find_index(s, address) == -1 <==> forall|i: int|
                0 <= i < s.len() ==> #[trigger] s[i].address > address,
            Self::spec_find_index(s, address) >= 0 ==> {
                let i = Self::spec_find_index(s, address);
                &&& s[i].address <= address
                &&& forall|j: int| i < j < s.len() ==> #[trigger] s[j].address > address
            },
        decreases s.len(),
    {
        if s.len() > 0 {
            let t = s.drop_last();
            Self::lemma_find_index(t, address);
            if s.last().address > address {
                assert forall|j: int| 0 <= j < s.len() && Self::spec_find_index(s, address) < j
                    implies #[trigger] s[j].address > address by {
                    if j < t.len() {
                        assert(s[j] == t[j]);
                    }
                }
                if Self::spec_find_index(s, address) == -1 {
                    assert forall|i: int| 0 <= i < s.len() implies #[trigger] s[i].address
                        > address by {
                        if i < t.len() {
                            assert(s[i] == t[i]);
                        }
                    }
                }
            }
        }
    }

    /// Mutable access to the last field (in list order) whose address is at or
    /// before `address`.
    pub fn find_field_at_mut(&mut self, address: u16) -> (r: Option<&mut FieldAttribute>)
        ensures
            r is None <==> Self::spec_find_index(old(self)@, address) < 0,
            r is None ==> final(self)@ == old(self)@,
            r matches Some(f) ==> {
                let i = Self::spec_find_index(old(self)@, address);
                &&& 0 <= i < old(self)@.len()
                &&& *f == old(self)@[i]
                &&& final(self)@ == old(self)@.update(i, *final(f))
            },
    {
        proof {
            Self::lemma_find_index(self.fields@, address);
        }
        let ghost target = Self::spec_find_index(self.fields@, address);
        let mut k: usize = self.fields.len();
        while k > 0
            invariant
                k <= self.fields@.len(),
                self.fields@ == old(self)@,
                target == Self::spec_find_index(self.fields@, address),
                -1 <= target < self.fields@.len(),
                target < k,
                forall|j: int| k <= j < self.fields@.len() ==> #[trigger] self.fields@[j].address > address,
                target >= 0 ==> self.fields@[target].address <= address,
                target >= 0 ==> forall|j: int|
                    target < j < self.fields@.len() ==> #[trigger] self.fields@[j].address > address,
                target == -1 <==> forall|i: int|
                    0 <= i < self.fields@.len() ==> #[trigger] self.fields@[i].address > address,
            decreases k,
        {
            if self.fields[k - 1].address <= address {
                assert(target == k - 1);
                return Some(&mut self.fields[k - 1]);
            }
            k = k - 1;
        }
        None
    }

    /// The first field (in list order) whose address is after `address`.
    pub fn next_field(&self, address: u16) -> (r: Option<&FieldAttribute>)
        ensures
            r is None <==> forall|i: int| 0 <= i < self@.len() ==> #[trigger] self@[i].address <= address,
            r matches Some(f) ==> exists|i: int|
                0 <= i < self@.len() && *f == self@[i] && self@[i].address > address && forall|
                    j: int,
                | 0 <= j < i ==> #[trigger] self@[j].address <= address,
    {
        let mut k: usize = 0;
        while k < self.fields.len()
            invariant
                k <= self@.len(),
                self@ == self.fields@,
                forall|j: int| 0 <= j < k ==> #[trigger] self@[j].address <= address,
            decreases self@.len() - k,
        {
            if self.fields[k].address > address {
                return Some(&self.fields[k]);
            }
            k = k + 1;
        }
        None
    }

    /// Measure each field's length as the distance to the next field (the
    /// buffer end for the last one). Stops at the first field whose
    /// boundaries are invalid and reports it; fields before it have been
    /// measured, fields from it on are unchanged.
    #[verifier::loop_isolation(false)]
    pub fn calculate_field_lengths(&mut self, buffer_size: usize) -> (r: Result<(), String>)
        ensures
            final(self)@.len() == old(self)@.len(),
            r is Ok <==> forall|i: int|
                0 <= i < old(self)@.len() ==> field_bounds_ok(old(self)@, i, buffer_size),
            r is Ok ==> forall|i: int|
                0 <= i < old(self)@.len() ==> #[trigger] final(self)@[i] == with_measured_length(
                    old(self)@,
                    i,
                    buffer_size,
                ),
            r matches Err(e) ==> exists|k: int|
                0 <= k < old(self)@.len() && !field_bounds_ok(old(self)@, k, buffer_size) && e@
                    == field_bounds_error(old(self)@, k, buffer_size) && (forall|i: int|
                    0 <= i < k ==> field_bounds_ok(old(self)@, i, buffer_size)
                        && #[trigger] final(self)@[i] == with_measured_length(
                        old(self)@,
                        i,
                        buffer_size,
                    )) && (forall|i: int|
                    k <= i < old(self)@.len() ==> #[trigger] final(self)@[i] == old(self)@[i]),
    {
        let ghost s = self.fields@;
        let field_count = self.fields.len();
        let mut i: usize = 0;
        while i < field_count
            invariant
                field_count == s.len(),
                i <= field_count,
                self.fields@.len() == s.len(),
                forall|j: int| 0 <= j < i ==> field_bounds_ok(s, j, buffer_size),
                forall|j: int|
                    0 <= j < i ==> #[trigger] self.fields@[j] == with_measured_length(s, j, buffer_size),
                forall|j: int| i <= j < s.len() ==> #[trigger] self.fields@[j] == s[j],
            decreases field_count - i,
        {
            let start_addr = self.fields[i].address as usize;
            if start_addr >= buffer_size {
                let msg = Self::bounds_message(i, " start address ", start_addr, " exceeds buffer size ", buffer_size);
                assert(!field_bounds_ok(s, i as int, buffer_size));
                assert(msg@ == field_bounds_error(s, i as int, buffer_size));
                return Err(msg);
            }
            let end_addr = if i + 1 < field_count {
                self.fields[i + 1].address as usize
            } else {
                buffer_size
            };
            assert(end_addr == field_end(s, i as int, buffer_size));
            if end_addr > buffer_size {
                let msg = Self::bounds_message(i, " end address ", end_addr, " exceeds buffer size ", buffer_size);
                assert(!field_bounds_ok(s, i as int, buffer_size));
                assert(msg@ == field_bounds_error(s, i as int, buffer_size));
                return Err(msg);
            }
            if end_addr < start_addr {
                let msg = Self::bounds_message(i, " has invalid boundaries: start ", start_addr, " > end ", end_addr);
                assert(!field_bounds_ok(s, i as int, buffer_size));
                assert(msg@ == field_bounds_error(s, i as int, buffer_size));
                return Err(msg);
            }
            let mut f = self.fields[i];
            f.length = end_addr - start_addr;
            self.fields.set(i, f);
            i = i + 1;
        }
        Ok(())
    }

    /// "Field <i><mid1><a><mid2><b>".
    fn bounds_message(i: usize, mid1: &str, a: usize, mid2: &str, b: usize) -> (r: String)
        ensures
            r@ == "Field "@ + decimal_seq(i as nat) + mid1@ + decimal_seq(a as nat) + mid2@
                + decimal_seq(b as nat),
    {
        let mut m = str_to_string("Field ");
        let n1 = decimal_string(i as u64);
        m = string_concat(m, n1.as_str());
        m = string_concat(m, mid1);
        let n2 = decimal_string(a as u64);
        m = string_concat(m, n2.as_str());
        m = string_concat(m, mid2);
        let n3 = decimal_string(b as u64);
        m = string_concat(m, n3.as_str());
        m
    }

    /// The fields whose Modified Data Tag is set, in order.
    pub fn modified_fields(&self) -> (r: Vec<&FieldAttribute>)
        ensures
            r@.map_values(|f: &FieldAttribute| *f) == self@.filter(
                |f: FieldAttribute| f.spec_is_modified(),
            ),
    {
        let ghost pred = |f: FieldAttribute| f.spec_is_modified();
        let mut r: Vec<&FieldAttribute> = Vec::new();
        let mut i: usize = 0;
        while i < self.fields.len()
            invariant
                i <= self@.len(),
                self@ == self.fields@,
                r@.map_values(|f: &FieldAttribute| *f) == self@.take(i as int).filter(pred),
                pred == (|f: FieldAttribute| f.spec_is_modified()),
            decreases self@.len() - i,
        {
            proof {
                reveal_with_fuel(Seq::<_>::filter, 1);
                assert(self@.take((i + 1) as int).drop_last() =~= self@.take(i as int));
            }
            let ghost prev = r@;
            let f = &self.fields[i];
            proof {
                assert(self@.take((i + 1) as int).last() == *f);
            }
            if f.is_modified() {
                r.push(f);
                assert(r@.map_values(|f: &FieldAttribute| *f) =~= prev.map_values(
                    |f: &FieldAttribute| *f,
                ).push(*f));
                assert(pred(*f));
                assert(self@.take((i + 1) as int).filter(pred) == self@.take(i as int).filter(
                    pred,
                ).push(*f));
            } else {
                assert(!pred(*f));
                assert(self@.take((i + 1) as int).filter(pred) == self@.take(i as int).filter(
                    pred,
                ));
            }
            i = i + 1;
        }
        assert(self@.take(self@.len() as int) =~= self@);
        r
    }

    /// Clear the Modified Data Tag of every field.
    pub fn reset_mdt(&mut self)
        ensures
            final(self)@.len() == old(self)@.len(),
            forall|i: int|
                0 <= i < old(self)@.len() ==> #[trigger] final(self)@[i] == (FieldAttribute {
                    base_attr: FieldAttribute::spec_with_mdt(old(self)@[i].base_attr, false),
                    ..old(self)@[i]
                }),
            forall|i: int| 0 <= i < old(self)@.len() ==> !(#[trigger] final(self)@[i]).spec_is_modified(),
    {
        let ghost s = self.fields@;
        let mut i: usize = 0;
        while i < self.fields.len()
            invariant
                i <= s.len(),
                self.fields@.len() == s.len(),
                forall|j: int|
                    0 <= j < i ==> #[trigger] self.fields@[j] == (FieldAttribute {
                        base_attr: FieldAttribute::spec_with_mdt(s[j].base_attr, false),
                        ..s[j]
                    }) && !self.fields@[j].spec_is_modified(),
                forall|j: int| i <= j < s.len() ==> #[trigger] self.fields@[j] == s[j],
            decreases s.len() - i,
        {
            let mut f = self.fields[i];
            f.set_modified(false);
            self.fields.set(i, f);
            i = i + 1;
        }
    }

    /// Validate content entered into the field at or before `address`; with
    /// no such field there is nothing to check.
    pub fn validate_field_at(&self, address: u16, content: &[u8]) -> (r: Result<(), String>)
        ensures
            (forall|i: int| 0 <= i < self@.len() ==> #[trigger] self@[i].address > address) ==> r is Ok,
            forall|i: int|
                0 <= i < self@.len() && self@[i].address <= address && (forall|j: int|
                    i < j < self@.len() ==> #[trigger] self@[j].address > address) ==> {
                    &&& (r is Ok <==> (self@[i].spec_fill_ok(content@) && self@[i].spec_entry_ok(
                        content@,
                    ) && self@[i].spec_numeric_ok(content@)))
                },
    {
        match self.find_field_at(address) {
            Some(field) => field.validate_content(content),
            None => Ok(()),
        }
    }
}

impl Default for FieldManager {
    fn default() -> (r: Self)
        ensures
            r@ == Seq::<FieldAttribute>::empty(),
    {
        Self::new()
    }
}

} // verus!
