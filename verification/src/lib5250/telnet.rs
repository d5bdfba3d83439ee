//! Telnet option negotiation for TN5250: option states, terminal types and
//! device capabilities, NEW-ENVIRON variables and subnegotiation replies.

use vstd::prelude::*;
use crate::text::{
    hex4_seq, hex4_string, decimal_seq, decimal_string, push_utf8, str_equal, str_to_string, string_from_utf8_lossy,
    utf8_lossy,
};
use vstd::utf8::encode_utf8;

verus! {

/// Errors of telnet negotiation.
#[derive(Debug, Clone, PartialEq, Eq, Structural)]
pub enum TelnetError {
    InvalidCommand(u8),
    InvalidOption(u8),
    MalformedSubnegotiation,
    InvalidEnvironmentData,
    DeviceNameTooLong,
    UnsupportedCapability,
}

/// Telnet options that TN5250 knows.
#[derive(Debug, Clone, Copy, PartialEq, Eq, Hash, Structural)]
pub enum TelnetOption {
    Binary,
    Echo,
    SuppressGoAhead,
    EndOfRecord,
    TerminalType,
    WindowSize,
    NewEnviron,
    Charset,
}

impl TelnetOption {
    /// The option's number on the wire.
    pub open spec fn spec_byte(self) -> u8 {
        match self {
            TelnetOption::Binary => 0,
            TelnetOption::Echo => 1,
            TelnetOption::SuppressGoAhead => 3,
            TelnetOption::EndOfRecord => 19,
            TelnetOption::TerminalType => 24,
            TelnetOption::WindowSize => 31,
            TelnetOption::NewEnviron => 39,
            TelnetOption::Charset => 42,
        }
    }

    /// The option with a given number, if it is one of these.
    pub open spec fn spec_from_byte(value: u8) -> Option<Self> {
        if value == 0 {
            Some(TelnetOption::Binary)
        } else if value == 1 {
            Some(TelnetOption::Echo)
        } else if value == 3 {
            Some(TelnetOption::SuppressGoAhead)
        } else if value == 19 {
            Some(TelnetOption::EndOfRecord)
        } else if value == 24 {
            Some(TelnetOption::TerminalType)
        } else if value == 31 {
            Some(TelnetOption::WindowSize)
        } else if value == 39 {
            Some(TelnetOption::NewEnviron)
        } else if value == 42 {
            Some(TelnetOption::Charset)
        } else {
            None
        }
    }

    /// The option with a given number, if it is one of these.
    pub fn from_u8(value: u8) -> (r: Option<Self>)
        ensures
            r == Self::spec_from_byte(value),
    {
        match value {
            0 => Some(TelnetOption::Binary),
            1 => Some(TelnetOption::Echo),
            3 => Some(TelnetOption::SuppressGoAhead),
            19 => Some(TelnetOption::EndOfRecord),
            24 => Some(TelnetOption::TerminalType),
            31 => Some(TelnetOption::WindowSize),
            39 => Some(TelnetOption::NewEnviron),
            42 => Some(TelnetOption::Charset),
            _ => None,
        }
    }

    /// The option's number on the wire.
    pub fn to_u8(self) -> (r: u8)
        ensures
            r == self.spec_byte(),
    {
        match self {
            TelnetOption::Binary => 0,
            TelnetOption::Echo => 1,
            TelnetOption::SuppressGoAhead => 3,
            TelnetOption::EndOfRecord => 19,
            TelnetOption::TerminalType => 24,
            TelnetOption::WindowSize => 31,
            TelnetOption::NewEnviron => 39,
            TelnetOption::Charset => 42,
        }
    }
}

/// Telnet commands used in negotiation.
#[derive(Debug, Clone, Copy, PartialEq, Eq, Structural)]
pub enum TelnetCommand {
    Will,
    Wont,
    Do,
    Dont,
    Subnegotiation,
    SubnegotiationEnd,
}

impl TelnetCommand {
    /// The command's byte on the wire.
    pub open spec fn spec_byte(self) -> u8 {
        match self {
            TelnetCommand::Will => 251,
            TelnetCommand::Wont => 252,
            TelnetCommand::Do => 253,
            TelnetCommand::Dont => 254,
            TelnetCommand::Subnegotiation => 250,
            TelnetCommand::SubnegotiationEnd => 240,
        }
    }

    /// The command with a given byte, if it is one of these.
    pub open spec fn spec_from_byte(value: u8) -> Option<Self> {
        if value == 251 {
            Some(TelnetCommand::Will)
        } else if value == 252 {
            Some(TelnetCommand::Wont)
        } else if value == 253 {
            Some(TelnetCommand::Do)
        } else if value == 254 {
            Some(TelnetCommand::Dont)
        } else if value == 250 {
            Some(TelnetCommand::Subnegotiation)
        } else if value == 240 {
            Some(TelnetCommand::SubnegotiationEnd)
        } else {
            None
        }
    }

    /// The command with a given byte, if it is one of these.
    pub fn from_u8(value: u8) -> (r: Option<Self>)
        ensures
            r == Self::spec_from_byte(value),
    {
        match value {
            251 => Some(TelnetCommand::Will),
            252 => Some(TelnetCommand::Wont),
            253 => Some(TelnetCommand::Do),
            254 => Some(TelnetCommand::Dont),
            250 => Some(TelnetCommand::Subnegotiation),
            240 => Some(TelnetCommand::SubnegotiationEnd),
            _ => None,
        }
    }

    /// The command's byte on the wire.
    pub fn to_u8(self) -> (r: u8)
        ensures
            r == self.spec_byte(),
    {
        match self {
            TelnetCommand::Will => 251,
            TelnetCommand::Wont => 252,
            TelnetCommand::Do => 253,
            TelnetCommand::Dont => 254,
            TelnetCommand::Subnegotiation => 250,
            TelnetCommand::SubnegotiationEnd => 240,
        }
    }
}

/// Decoding the number of any option gives it back, and decoding the byte
/// of any command gives it back.
pub proof fn lemma_telnet_codes_roundtrip(o: TelnetOption, c: TelnetCommand)
    ensures
        TelnetOption::spec_from_byte(o.spec_byte()) == Some(o),
        TelnetCommand::spec_from_byte(c.spec_byte()) == Some(c),
{
}

/// Where negotiation of one option stands.
#[derive(Debug, Clone, Copy, PartialEq, Eq, Structural)]
pub enum NegotiationState {
    NotNegotiated,
    WillSent,
    DoSent,
    Enabled,
    Disabled,
}

/// What a terminal of some type can do.
#[derive(Debug, Clone, Copy, PartialEq, Eq)]
pub struct DeviceCapabilities {
    /// (rows, columns).
    pub screen_size: (u8, u8),
    pub color_support: bool,
    pub extended_attributes: bool,
    pub printer_support: bool,
    pub light_pen_support: bool,
    pub programmed_symbols: bool,
    pub device_type: u16,
}

impl DeviceCapabilities {
    pub open spec fn spec_standard() -> Self {
        DeviceCapabilities {
            screen_size: (24, 80),
            color_support: false,
            extended_attributes: false,
            printer_support: false,
            light_pen_support: false,
            programmed_symbols: false,
            device_type: 0x5250,
        }
    }

    pub open spec fn spec_enhanced() -> Self {
        DeviceCapabilities {
            screen_size: (27, 132),
            color_support: true,
            extended_attributes: true,
            printer_support: true,
            light_pen_support: true,
            programmed_symbols: true,
            device_type: 0x5555,
        }
    }

    pub open spec fn spec_printer() -> Self {
        DeviceCapabilities {
            screen_size: (0, 132),
            color_support: false,
            extended_attributes: false,
            printer_support: true,
            light_pen_support: false,
            programmed_symbols: false,
            device_type: 0x5553,
        }
    }

    pub open spec fn spec_color() -> Self {
        DeviceCapabilities {
            screen_size: (24, 80),
            color_support: true,
            extended_attributes: true,
            printer_support: false,
            light_pen_support: true,
            programmed_symbols: true,
            device_type: 0x5291,
        }
    }

    pub open spec fn spec_basic() -> Self {
        DeviceCapabilities {
            screen_size: (24, 80),
            color_support: false,
            extended_attributes: false,
            printer_support: false,
            light_pen_support: false,
            programmed_symbols: false,
            device_type: 0x3179,
        }
    }

    /// A 24 x 80 monochrome 5250 display.
    pub fn standard_5250() -> (r: Self)
        ensures
            r == Self::spec_standard(),
    {
        DeviceCapabilities {
            screen_size: (24, 80),
            color_support: false,
            extended_attributes: false,
            printer_support: false,
            light_pen_support: false,
            programmed_symbols: false,
            device_type: 0x5250,
        }
    }

    /// A 27 x 132 color display with every extension.
    pub fn enhanced_5250() -> (r: Self)
        ensures
            r == Self::spec_enhanced(),
    {
        DeviceCapabilities {
            screen_size: (27, 132),
            color_support: true,
            extended_attributes: true,
            printer_support: true,
            light_pen_support: true,
            programmed_symbols: true,
            device_type: 0x5555,
        }
    }

    /// A 132-column printer (no screen rows).
    pub fn printer_5250() -> (r: Self)
        ensures
            r == Self::spec_printer(),
    {
        DeviceCapabilities {
            screen_size: (0, 132),
            color_support: false,
            extended_attributes: false,
            printer_support: true,
            light_pen_support: false,
            programmed_symbols: false,
            device_type: 0x5553,
        }
    }

    /// A 24 x 80 color display.
    pub fn color_5250() -> (r: Self)
        ensures
            r == Self::spec_color(),
    {
        DeviceCapabilities {
            screen_size: (24, 80),
            color_support: true,
            extended_attributes: true,
            printer_support: false,
            light_pen_support: true,
            programmed_symbols: true,
            device_type: 0x5291,
        }
    }

    /// A 24 x 80 display with no extensions.
    pub fn basic_5250() -> (r: Self)
        ensures
            r == Self::spec_basic(),
    {
        DeviceCapabilities {
            screen_size: (24, 80),
            color_support: false,
            extended_attributes: false,
            printer_support: false,
            light_pen_support: false,
            programmed_symbols: false,
            device_type: 0x3179,
        }
    }
}

/// Terminal types a session can announce.
#[derive(Debug, Clone, Copy, PartialEq, Eq)]
pub enum TerminalType {
    IBM5250,
    IBM5250W,
    IBM5555C01,
    IBM5555B01,
    IBM5555C02,
    IBM5553C01,
    IBM5291,
    IBM5292,
    IBM3179,
    Custom(&'static str),
}

impl TerminalType {
    /// The name announced for the type.
    pub open spec fn spec_name(self) -> Seq<char> {
        match self {
            TerminalType::IBM5250 => "IBM-5250"@,
            TerminalType::IBM5250W => "IBM-5250-W"@,
            TerminalType::IBM5555C01 => "IBM-5555-C01"@,
            TerminalType::IBM5555B01 => "IBM-5555-B01"@,
            TerminalType::IBM5555C02 => "IBM-5555-C02"@,
            TerminalType::IBM5553C01 => "IBM-5553-C01"@,
            TerminalType::IBM5291 => "IBM-5291"@,
            TerminalType::IBM5292 => "IBM-5292"@,
            TerminalType::IBM3179 => "IBM-3179"@,
            TerminalType::Custom(s) => s@,
        }
    }

    /// The capabilities that go with the type.
    pub open spec fn spec_capabilities(self) -> DeviceCapabilities {
        match self {
            TerminalType::IBM5250 | TerminalType::IBM5250W => DeviceCapabilities::spec_standard(),
            TerminalType::IBM5555C01 | TerminalType::IBM5555B01 | TerminalType::IBM5555C02 => DeviceCapabilities::spec_enhanced(),
            TerminalType::IBM5553C01 => DeviceCapabilities::spec_printer(),
            TerminalType::IBM5291 | TerminalType::IBM5292 => DeviceCapabilities::spec_color(),
            TerminalType::IBM3179 => DeviceCapabilities::spec_basic(),
            TerminalType::Custom(_) => DeviceCapabilities::spec_standard(),
        }
    }

    /// The name announced for the type.
    pub fn as_str(&self) -> (r: &str)
        ensures
            r@ == self.spec_name(),
    {
        match self {
            TerminalType::IBM5250 => "IBM-5250",
            TerminalType::IBM5250W => "IBM-5250-W",
            TerminalType::IBM5555C01 => "IBM-5555-C01",
            TerminalType::IBM5555B01 => "IBM-5555-B01",
            TerminalType::IBM5555C02 => "IBM-5555-C02",
            TerminalType::IBM5553C01 => "IBM-5553-C01",
            TerminalType::IBM5291 => "IBM-5291",
            TerminalType::IBM5292 => "IBM-5292",
            TerminalType::IBM3179 => "IBM-3179",
            TerminalType::Custom(s) => s,
        }
    }

    /// The capabilities that go with the type.
    pub fn get_capabilities(&self) -> (r: DeviceCapabilities)
        ensures
            r == self.spec_capabilities(),
    {
        match self {
            TerminalType::IBM5250 | TerminalType::IBM5250W => DeviceCapabilities::standard_5250(),
            TerminalType::IBM5555C01 | TerminalType::IBM5555B01 | TerminalType::IBM5555C02 => DeviceCapabilities::enhanced_5250(),
            TerminalType::IBM5553C01 => DeviceCapabilities::printer_5250(),
            TerminalType::IBM5291 | TerminalType::IBM5292 => DeviceCapabilities::color_5250(),
            TerminalType::IBM3179 => DeviceCapabilities::basic_5250(),
            TerminalType::Custom(_) => DeviceCapabilities::standard_5250(),
        }
    }
}

/// The position of the first entry with key `k`, or -1.
pub open spec fn first_index<K, V>(s: Seq<(K, V)>, k: K) -> int {
    if exists|i: int| 0 <= i < s.len() && (#[trigger] s[i]).0 == k && (forall|j: int| 0 <= j < i ==> s[j].0 != k) {
        choose|i: int| 0 <= i < s.len() && (#[trigger] s[i]).0 == k && (forall|j: int| 0 <= j < i ==> s[j].0 != k)
    } else {
        -1
    }
}

/// The value of the first entry with key `k`.
pub open spec fn lookup<K, V>(s: Seq<(K, V)>, k: K) -> Option<V> {
    let i = first_index(s, k);
    if i < 0 {
        None
    } else {
        Some(s[i].1)
    }
}

/// The entries after setting key `k` to `v`: the first entry with that key
/// is replaced, or a new entry is added at the end.
pub open spec fn insert_entry<K, V>(s: Seq<(K, V)>, k: K, v: V) -> Seq<(K, V)> {
    let i = first_index(s, k);
    if i < 0 {
        s.push((k, v))
    } else {
        s.update(i, (k, v))
    }
}

/// Whether no key occurs twice in an association list.
pub open spec fn keys_unique<K, V>(s: Seq<(K, V)>) -> bool {
    forall|i: int, j: int| 0 <= i < j < s.len() ==> (#[trigger] s[i]).0 != (#[trigger] s[j]).0
}

/// Setting a key keeps every key once: the entry of a key already there is
/// replaced in place, a new key goes at the end.
pub proof fn lemma_insert_keeps_keys_unique<K, V>(s: Seq<(K, V)>, k: K, v: V)
    requires
        keys_unique(s),
    ensures
        keys_unique(insert_entry(s, k, v)),
        insert_entry(s, k, v).len() == if first_index(s, k) < 0 { s.len() + 1 } else { s.len() + 0 },
{
    let i = first_index(s, k);
    if i < 0 {
        assert forall|j: int| 0 <= j < s.len() implies s[j].0 != k by {
            if s[j].0 == k {
                let m = choose|m: int| 0 <= m <= j && s[m].0 == k && forall|q: int| 0 <= q < m ==> s[q].0 != k;
                assert(exists|m: int| 0 <= m <= j && s[m].0 == k && forall|q: int| 0 <= q < m ==> s[q].0 != k) by {
                    lemma_least_key_index(s, k, j);
                }
                lemma_first_index(s, k, m);
            }
        }
        let t = s.push((k, v));
        assert forall|a: int, b: int| 0 <= a < b < t.len() implies (#[trigger] t[a]).0 != (#[trigger] t[b]).0 by {
            if b == s.len() {
                assert(t[a] == s[a]);
            } else {
                assert(t[a] == s[a] && t[b] == s[b]);
            }
        }
    } else {
        let c = choose|c: int| 0 <= c < s.len() && (#[trigger] s[c]).0 == k && (forall|j: int| 0 <= j < c ==> s[j].0 != k);
        assert(i == c);
        let t = s.update(i, (k, v));
        assert forall|a: int, b: int| 0 <= a < b < t.len() implies (#[trigger] t[a]).0 != (#[trigger] t[b]).0 by {
            if a == i {
                assert(t[b] == s[b]);
                assert(s[i].0 != s[b].0);
            } else if b == i {
                assert(t[a] == s[a]);
                assert(s[a].0 != s[i].0);
            } else {
                assert(t[a] == s[a] && t[b] == s[b]);
            }
        }
    }
}

/// When a key occurs at or before `j`, there is a first place it occurs.
proof fn lemma_least_key_index<K, V>(s: Seq<(K, V)>, k: K, j: int)
    requires
        0 <= j < s.len(),
        s[j].0 == k,
    ensures
        exists|m: int| 0 <= m <= j && s[m].0 == k && forall|q: int| 0 <= q < m ==> s[q].0 != k,
    decreases j,
{
    if exists|q: int| 0 <= q < j && s[q].0 == k {
        let q = choose|q: int| 0 <= q < j && s[q].0 == k;
        lemma_least_key_index(s, k, q);
    } else {
        assert(forall|q: int| 0 <= q < j ==> s[q].0 != k);
    }
}

/// The first entry with key `k` is at `i` when `i` holds `k` and nothing
/// before it does; no entry has the key when none of them holds it.
pub proof fn lemma_first_index<K, V>(s: Seq<(K, V)>, k: K, i: int)
    requires
        0 <= i <= s.len(),
        forall|j: int| 0 <= j < i ==> s[j].0 != k,
    ensures
        i < s.len() && s[i].0 == k ==> first_index(s, k) == i,
        i == s.len() ==> first_index(s, k) == -1,
{
    if i < s.len() && s[i].0 == k {
        assert(0 <= i < s.len() && s[i].0 == k && (forall|j: int| 0 <= j < i ==> s[j].0 != k));
        let c = choose|c: int| 0 <= c < s.len() && (#[trigger] s[c]).0 == k && (forall|j: int| 0 <= j < c ==> s[j].0 != k);
        if c < i {
            assert(s[c].0 != k);
        } else if c > i {
            assert(s[i].0 != k);
        }
    }
}

/// If some entry has key `k`, a first one exists.
proof fn lemma_first_index_found<K, V>(s: Seq<(K, V)>, k: K, j: int)
    requires
        0 <= j < s.len(),
        s[j].0 == k,
    ensures
        0 <= first_index(s, k) <= j,
        s[first_index(s, k)].0 == k,
        forall|m: int| 0 <= m < first_index(s, k) ==> s[m].0 != k,
    decreases j,
{
    if exists|m: int| 0 <= m < j && s[m].0 == k {
        let m = choose|m: int| 0 <= m < j && s[m].0 == k;
        lemma_first_index_found(s, k, m);
    } else {
        lemma_first_index(s, k, j);
    }
}

/// `first_index` is -1 exactly when no entry has the key, and otherwise the
/// position of the first entry that has it.
pub proof fn lemma_first_index_spec<K, V>(s: Seq<(K, V)>, k: K)
    ensures
        first_index(s, k) == -1 <==> (forall|j: int| 0 <= j < s.len() ==> s[j].0 != k),
        first_index(s, k) != -1 ==> {
            &&& 0 <= first_index(s, k) < s.len()
            &&& s[first_index(s, k)].0 == k
            &&& forall|m: int| 0 <= m < first_index(s, k) ==> s[m].0 != k
        },
{
    if exists|j: int| 0 <= j < s.len() && s[j].0 == k {
        let j = choose|j: int| 0 <= j < s.len() && s[j].0 == k;
        lemma_first_index_found(s, k, j);
    } else {
        lemma_first_index(s, k, s.len() as int);
    }
}

/// Reading a key after setting it gives the value set; every other key
/// reads as before.
pub proof fn lemma_lookup_insert<K, V>(s: Seq<(K, V)>, k: K, v: V, k2: K)
    ensures
        lookup(insert_entry(s, k, v), k2) == if k2 == k {
            Some(v)
        } else {
            lookup(s, k2)
        },
{
    let t = insert_entry(s, k, v);
    lemma_first_index_spec(s, k);
    lemma_first_index_spec(s, k2);
    lemma_first_index_spec(t, k2);
    let i = first_index(s, k);
    if i == -1 {
        assert(t == s.push((k, v)));
        if k2 == k {
            lemma_first_index(t, k, s.len() as int);
        } else {
            let m = first_index(s, k2);
            if m == -1 {
                assert forall|j: int| 0 <= j < t.len() implies t[j].0 != k2 by {
                    if j < s.len() {
                        assert(t[j] == s[j]);
                    }
                }
            } else {
                assert forall|j: int| 0 <= j < m implies t[j].0 != k2 by {
                    assert(t[j] == s[j]);
                }
                assert(t[m] == s[m]);
                lemma_first_index(t, k2, m);
            }
        }
    } else {
        assert(t == s.update(i, (k, v)));
        if k2 == k {
            assert forall|j: int| 0 <= j < i implies t[j].0 != k by {
                assert(t[j] == s[j]);
            }
            lemma_first_index(t, k, i);
        } else {
            let m = first_index(s, k2);
            if m == -1 {
                assert forall|j: int| 0 <= j < t.len() implies t[j].0 != k2 by {
                    if j != i {
                        assert(t[j] == s[j]);
                    }
                }
            } else {
                assert(m != i);
                assert forall|j: int| 0 <= j < m implies t[j].0 != k2 by {
                    if j != i {
                        assert(t[j] == s[j]);
                    }
                }
                assert(t[m] == s[m]);
                lemma_first_index(t, k2, m);
            }
        }
    }
}

/// The state of each negotiated option, in the order options were first
/// recorded.
#[derive(Debug)]
pub struct OptionStates {
    entries: Vec<(TelnetOption, NegotiationState)>,
}

impl OptionStates {
    pub closed spec fn entries(&self) -> Seq<(TelnetOption, NegotiationState)> {
        self.entries@
    }

    /// No option recorded.
    pub fn new() -> (r: Self)
        ensures
            r.entries() == Seq::<(TelnetOption, NegotiationState)>::empty(),
            keys_unique(r.entries()),
    {
        OptionStates { entries: Vec::new() }
    }

    /// Where negotiation of an option stands, if it was recorded.
    pub fn get(&self, option: &TelnetOption) -> (r: Option<&NegotiationState>)
        ensures
            match lookup(self.entries(), *option) {
                Some(v) => r matches Some(x) && *x == v,
                None => r is None,
            },
    {
        let mut i: usize = 0;
        while i < self.entries.len()
            invariant
                i <= self.entries@.len(),
                forall|j: int| 0 <= j < i ==> self.entries@[j].0 != *option,
            decreases self.entries@.len() - i,
        {
            if self.entries[i].0 == *option {
                proof {
                    lemma_first_index(self.entries@, *option, i as int);
                }
                return Some(&self.entries[i].1);
            }
            i = i + 1;
        }
        proof {
            lemma_first_index(self.entries@, *option, i as int);
        }
        None
    }

    /// Record the state of an option.
    pub fn insert(&mut self, option: TelnetOption, state: NegotiationState)
        ensures
            final(self).entries() == insert_entry(old(self).entries(), option, state),
            keys_unique(old(self).entries()) ==> keys_unique(final(self).entries()),
    {
        proof {
            if keys_unique(old(self).entries()) {
                lemma_insert_keeps_keys_unique(old(self).entries(), option, state);
            }
        }
        let mut i: usize = 0;
        while i < self.entries.len()
            invariant
                self.entries@ == old(self).entries@,
                i <= self.entries@.len(),
                forall|j: int| 0 <= j < i ==> self.entries@[j].0 != option,
            decreases self.entries@.len() - i,
        {
            if self.entries[i].0 == option {
                proof {
                    lemma_first_index(self.entries@, option, i as int);
                }
                self.entries.set(i, (option, state));
                return;
            }
            i = i + 1;
        }
        proof {
            lemma_first_index(self.entries@, option, i as int);
        }
        self.entries.push((option, state));
    }
}

/// Text variables sent in NEW-ENVIRON, in the order they were first set.
#[derive(Debug)]
pub struct EnvironmentVars {
    entries: Vec<(String, String)>,
}

/// The (name, value) texts of string pairs.
pub open spec fn text_pairs(s: Seq<(String, String)>) -> Seq<(Seq<char>, Seq<char>)> {
    s.map_values(|p: (String, String)| (p.0@, p.1@))
}

impl EnvironmentVars {
    pub closed spec fn entries(&self) -> Seq<(Seq<char>, Seq<char>)> {
        text_pairs(self.entries@)
    }

    /// No variable set.
    pub fn new() -> (r: Self)
        ensures
            r.entries() == Seq::<(Seq<char>, Seq<char>)>::empty(),
            keys_unique(r.entries()),
    {
        let r = EnvironmentVars { entries: Vec::new() };
        assert(r.entries() =~= Seq::<(Seq<char>, Seq<char>)>::empty());
        r
    }

    /// The value of a variable, if it is set.
    pub fn get(&self, name: &str) -> (r: Option<&String>)
        ensures
            match lookup(self.entries(), name@) {
                Some(v) => r matches Some(x) && x@ == v,
                None => r is None,
            },
    {
        let ghost s = self.entries();
        let mut i: usize = 0;
        while i < self.entries.len()
            invariant
                s == text_pairs(self.entries@),
                i <= self.entries@.len(),
                forall|j: int| 0 <= j < i ==> s[j].0 != name@,
            decreases self.entries@.len() - i,
        {
            if str_equal(self.entries[i].0.as_str(), name) {
                proof {
                    lemma_first_index(s, name@, i as int);
                }
                return Some(&self.entries[i].1);
            }
            i = i + 1;
        }
        proof {
            lemma_first_index(s, name@, i as int);
        }
        None
    }

    /// Set a variable.
    pub fn insert(&mut self, name: String, value: String)
        ensures
            final(self).entries() == insert_entry(old(self).entries(), name@, value@),
            keys_unique(old(self).entries()) ==> keys_unique(final(self).entries()),
    {
        proof {
            if keys_unique(old(self).entries()) {
                lemma_insert_keeps_keys_unique(old(self).entries(), name@, value@);
            }
        }
        let ghost s = self.entries();
        let mut i: usize = 0;
        while i < self.entries.len()
            invariant
                self.entries@ == old(self).entries@,
                s == text_pairs(self.entries@),
                i <= self.entries@.len(),
                forall|j: int| 0 <= j < i ==> s[j].0 != name@,
            decreases self.entries@.len() - i,
        {
            if str_equal(self.entries[i].0.as_str(), name.as_str()) {
                proof {
                    lemma_first_index(s, name@, i as int);
                }
                let ghost nv = (name@, value@);
                self.entries.set(i, (name, value));
                assert(self.entries() =~= s.update(i as int, nv));
                return;
            }
            i = i + 1;
        }
        proof {
            lemma_first_index(s, name@, i as int);
        }
        let ghost nv = (name@, value@);
        self.entries.push((name, value));
        assert(self.entries() =~= s.push(nv));
    }
}

/// Options the terminal lets the host enable (answer to WILL).
pub open spec fn accepts_option(o: TelnetOption) -> bool {
    match o {
        TelnetOption::Binary | TelnetOption::EndOfRecord | TelnetOption::SuppressGoAhead
        | TelnetOption::TerminalType | TelnetOption::NewEnviron | TelnetOption::WindowSize
        | TelnetOption::Charset => true,
        _ => false,
    }
}

/// Options the terminal agrees to enable itself (answer to DO).
pub open spec fn offers_option(o: TelnetOption) -> bool {
    match o {
        TelnetOption::Binary | TelnetOption::EndOfRecord | TelnetOption::SuppressGoAhead
        | TelnetOption::TerminalType | TelnetOption::NewEnviron | TelnetOption::WindowSize => true,
        _ => false,
    }
}

/// The option states and the reply after a negotiation command: WILL and
/// DO are answered DO/WILL and the option enabled when it is wanted, else
/// DONT/WONT and disabled; WONT and DONT disable it and are confirmed.
/// Unknown commands and options get no reply.
pub open spec fn command_outcome(
    states: Seq<(TelnetOption, NegotiationState)>,
    command: u8,
    option: u8,
) -> (Seq<(TelnetOption, NegotiationState)>, Option<Seq<u8>>) {
    match TelnetOption::spec_from_byte(option) {
        None => (states, None),
        Some(o) => match TelnetCommand::spec_from_byte(command) {
            Some(TelnetCommand::Will) => if accepts_option(o) {
                (insert_entry(states, o, NegotiationState::Enabled), Some(seq![253u8, option]))
            } else {
                (insert_entry(states, o, NegotiationState::Disabled), Some(seq![254u8, option]))
            },
            Some(TelnetCommand::Wont) => (insert_entry(states, o, NegotiationState::Disabled), Some(seq![254u8, option])),
            Some(TelnetCommand::Do) => if offers_option(o) {
                (insert_entry(states, o, NegotiationState::Enabled), Some(seq![251u8, option]))
            } else {
                (insert_entry(states, o, NegotiationState::Disabled), Some(seq![252u8, option]))
            },
            Some(TelnetCommand::Dont) => (insert_entry(states, o, NegotiationState::Disabled), Some(seq![252u8, option])),
            _ => (states, None),
        },
    }
}

/// The terminal's answer to the host's DO: it agrees (WILL) to enable
/// Binary (0), Suppress Go Ahead (3), End of Record (19), Terminal Type
/// (24), Window Size (31) and New Environ (39), the options a TN5250
/// session runs on, and records them enabled; it refuses (WONT) Echo (1)
/// and Charset (42) and records them disabled.
pub proof fn lemma_do_answers(states: Seq<(TelnetOption, NegotiationState)>, option: u8)
    requires
        TelnetOption::spec_from_byte(option) is Some,
    ensures
        ({
            let out = command_outcome(states, 253, option);
            let o = TelnetOption::spec_from_byte(option)->0;
            &&& (option == 0 || option == 3 || option == 19 || option == 24 || option == 31 || option == 39) ==> out.1
                == Some(seq![251u8, option]) && lookup(out.0, o) == Some(NegotiationState::Enabled)
            &&& (option == 1 || option == 42) ==> out.1 == Some(seq![252u8, option]) && lookup(out.0, o) == Some(
                NegotiationState::Disabled,
            )
        }),
{
    let o = TelnetOption::spec_from_byte(option)->0;
    lemma_lookup_insert(states, o, NegotiationState::Enabled, o);
    lemma_lookup_insert(states, o, NegotiationState::Disabled, o);
}

/// The terminal's answer to the host's WILL: it asks the host to go ahead
/// (DO) with Binary (0), Suppress Go Ahead (3), End of Record (19),
/// Terminal Type (24), Window Size (31), New Environ (39) and Charset (42),
/// recording them enabled; it refuses (DONT) Echo (1) and records it
/// disabled.
pub proof fn lemma_will_answers(states: Seq<(TelnetOption, NegotiationState)>, option: u8)
    requires
        TelnetOption::spec_from_byte(option) is Some,
    ensures
        ({
            let out = command_outcome(states, 251, option);
            let o = TelnetOption::spec_from_byte(option)->0;
            &&& option != 1 ==> out.1 == Some(seq![253u8, option]) && lookup(out.0, o) == Some(NegotiationState::Enabled)
            &&& option == 1 ==> out.1 == Some(seq![254u8, option]) && lookup(out.0, o) == Some(NegotiationState::Disabled)
        }),
{
    let o = TelnetOption::spec_from_byte(option)->0;
    lemma_lookup_insert(states, o, NegotiationState::Enabled, o);
    lemma_lookup_insert(states, o, NegotiationState::Disabled, o);
}

/// A WILL for a known option sets that option to Enabled when it is
/// accepted (Disabled otherwise) and leaves every other option as it was.
pub proof fn lemma_will_sets_option(states: Seq<(TelnetOption, NegotiationState)>, o: TelnetOption, other: TelnetOption)
    ensures
        lookup(command_outcome(states, 251, o.spec_byte()).0, other) == if other == o {
            Some(if accepts_option(o) { NegotiationState::Enabled } else { NegotiationState::Disabled })
        } else {
            lookup(states, other)
        },
{
    lemma_telnet_codes_roundtrip(o, TelnetCommand::Will);
    let st = if accepts_option(o) { NegotiationState::Enabled } else { NegotiationState::Disabled };
    lemma_lookup_insert(states, o, st, other);
}

/// Whatever the option states were, once the host has sent WILL for
/// Binary, End of Record and Suppress Go Ahead all three are enabled.
pub proof fn lemma_required_wills_complete(states: Seq<(TelnetOption, NegotiationState)>)
    ensures
        ({
            let s1 = command_outcome(states, 251, 0).0;
            let s2 = command_outcome(s1, 251, 19).0;
            let s3 = command_outcome(s2, 251, 3).0;
            &&& lookup(s3, TelnetOption::Binary) == Some(NegotiationState::Enabled)
            &&& lookup(s3, TelnetOption::EndOfRecord) == Some(NegotiationState::Enabled)
            &&& lookup(s3, TelnetOption::SuppressGoAhead) == Some(NegotiationState::Enabled)
        }),
{
    let s1 = command_outcome(states, 251, 0).0;
    let s2 = command_outcome(s1, 251, 19).0;
    lemma_will_sets_option(states, TelnetOption::Binary, TelnetOption::Binary);
    lemma_will_sets_option(s1, TelnetOption::EndOfRecord, TelnetOption::Binary);
    lemma_will_sets_option(s1, TelnetOption::EndOfRecord, TelnetOption::EndOfRecord);
    lemma_will_sets_option(s2, TelnetOption::SuppressGoAhead, TelnetOption::Binary);
    lemma_will_sets_option(s2, TelnetOption::SuppressGoAhead, TelnetOption::EndOfRecord);
    lemma_will_sets_option(s2, TelnetOption::SuppressGoAhead, TelnetOption::SuppressGoAhead);
}

/// A negotiation result with byte vectors taken by value.
pub open spec fn reply_view(r: Result<Option<Vec<u8>>, TelnetError>) -> Result<Option<Seq<u8>>, TelnetError> {
    match r {
        Ok(Some(v)) => Ok(Some(v@)),
        Ok(None) => Ok(None),
        Err(e) => Err(e),
    }
}

/// An optional string by its text.
pub open spec fn opt_text(s: Option<String>) -> Option<Seq<char>> {
    match s {
        Some(t) => Some(t@),
        None => None,
    }
}

/// One NEW-ENVIRON variable: VAR, its name, VALUE, its value.
pub open spec fn var_bytes(name: Seq<u8>, value: Seq<u8>) -> Seq<u8> {
    seq![0u8] + name + seq![1u8] + value
}

/// The user variables as sent, in order.
pub open spec fn user_vars_bytes(vars: Seq<(Seq<char>, Seq<char>)>) -> Seq<u8>
    decreases vars.len(),
{
    if vars.len() == 0 {
        Seq::empty()
    } else {
        user_vars_bytes(vars.drop_last()) + var_bytes(encode_utf8(vars.last().0), encode_utf8(vars.last().1))
    }
}

/// The NEW-ENVIRON IS reply: the device name (when there is one), the
/// device type in hexadecimal, the columns and rows, then the user
/// variables.
pub open spec fn environment_reply(
    device_name: Option<Seq<char>>,
    caps: DeviceCapabilities,
    vars: Seq<(Seq<char>, Seq<char>)>,
) -> Seq<u8> {
    seq![250u8, 39, 1] + match device_name {
        Some(d) => var_bytes(encode_utf8("DEVNAME"@), encode_utf8(d)),
        None => Seq::empty(),
    } + var_bytes(encode_utf8("DEVTYPE"@), encode_utf8(hex4_seq(caps.device_type)))
        + var_bytes(encode_utf8("COLUMNS"@), encode_utf8(decimal_seq(caps.screen_size.1 as nat)))
        + var_bytes(encode_utf8("ROWS"@), encode_utf8(decimal_seq(caps.screen_size.0 as nat)))
        + user_vars_bytes(vars) + seq![240u8]
}

/// The position of the first NUL byte at or after `start` (the length when
/// there is none).
pub open spec fn nul_from(data: Seq<u8>, start: int) -> int
    decreases data.len() - start,
{
    if start < 0 || start >= data.len() {
        data.len() as int
    } else if data[start] == 0 {
        start
    } else {
        nul_from(data, start + 1)
    }
}

/// The NUL-terminated string at `start` and the position after its NUL.
pub open spec fn terminated_text(data: Seq<u8>, start: int) -> Option<(Seq<char>, int)> {
    let end = nul_from(data, start);
    if end < data.len() {
        Some((utf8_lossy(data.subrange(start, end)), end + 1))
    } else {
        None
    }
}

/// The NUL search stays inside the data and after its start.
pub proof fn lemma_nul_from(data: Seq<u8>, start: int)
    requires
        0 <= start <= data.len(),
    ensures
        start <= nul_from(data, start) <= data.len(),
        nul_from(data, start) < data.len() ==> data[nul_from(data, start)] == 0,
        forall|j: int| start <= j < nul_from(data, start) ==> data[j] != 0,
    decreases data.len() - start,
{
    if start < data.len() && data[start] != 0 {
        lemma_nul_from(data, start + 1);
    }
}

/// One step of NEW-ENVIRON parsing at `i`: the next position and the
/// variables. VAR reads a name, then, after VALUE, a value; a name without
/// VALUE gets the empty value; ESC skips the escaped byte; anything else is
/// skipped.
pub open spec fn env_step(data: Seq<u8>, i: int, vars: Seq<(Seq<char>, Seq<char>)>) -> (int, Seq<(Seq<char>, Seq<char>)>) {
    let b = data[i];
    if b == 0 {
        let j = i + 1;
        if j < data.len() {
            match terminated_text(data, j) {
                Some((name, ni)) => if ni < data.len() && data[ni] == 1 {
                    let k = ni + 1;
                    if k < data.len() {
                        match terminated_text(data, k) {
                            Some((value, nk)) => (nk, insert_entry(vars, name, value)),
                            None => (ni, vars),
                        }
                    } else {
                        (k, vars)
                    }
                } else {
                    (ni, insert_entry(vars, name, Seq::empty()))
                },
                None => (j, vars),
            }
        } else {
            (j, vars)
        }
    } else if b == 2 {
        (i + 2, vars)
    } else {
        (i + 1, vars)
    }
}

/// NEW-ENVIRON parsing from `i` to the end of the data.
pub open spec fn env_parse(data: Seq<u8>, i: int, vars: Seq<(Seq<char>, Seq<char>)>) -> Seq<(Seq<char>, Seq<char>)>
    decreases data.len() - i,
{
    if i < 0 || i >= data.len() {
        vars
    } else {
        let (n, v) = env_step(data, i, vars);
        if n <= i {
            vars
        } else if n >= data.len() {
            v
        } else {
            env_parse(data, n, v)
        }
    }
}

/// Every parsing step moves forward.
pub proof fn lemma_env_step_advances(data: Seq<u8>, i: int, vars: Seq<(Seq<char>, Seq<char>)>)
    requires
        0 <= i < data.len(),
    ensures
        env_step(data, i, vars).0 > i,
{
    if data[i] == 0 && i + 1 < data.len() {
        lemma_nul_from(data, i + 1);
        let ni = nul_from(data, i + 1) + 1;
        if ni < data.len() && data[ni] == 1 && ni + 1 < data.len() {
            lemma_nul_from(data, ni + 1);
        }
    }
}

/// Tracks telnet negotiation for a TN5250 session.
#[derive(Debug)]
pub struct TelnetNegotiator {
    pub option_states: OptionStates,
    pub terminal_type: Option<String>,
    pub environment_vars: EnvironmentVars,
    pub configured_terminal_type: TerminalType,
    pub device_name: Option<String>,
    pub device_capabilities: DeviceCapabilities,
    pub charset: Option<String>,
    /// (columns, rows) announced by window size negotiation.
    pub window_size: Option<(u16, u16)>,
}

impl TelnetNegotiator {
    /// A negotiator announcing IBM-5250.
    pub fn new() -> (r: Self)
        ensures
            r.option_states.entries() == seq![
                (TelnetOption::Binary, NegotiationState::NotNegotiated),
                (TelnetOption::EndOfRecord, NegotiationState::NotNegotiated),
                (TelnetOption::SuppressGoAhead, NegotiationState::NotNegotiated),
            ],
            r.terminal_type is None,
            r.environment_vars.entries() == Seq::<(Seq<char>, Seq<char>)>::empty(),
            r.configured_terminal_type == TerminalType::IBM5250,
            opt_text(r.device_name) == Some("IBM-5250"@),
            r.device_capabilities == DeviceCapabilities::spec_standard(),
            r.charset is None,
            r.window_size is None,
    {
        Self::with_terminal_type(TerminalType::IBM5250)
    }

    /// A negotiator announcing the given terminal type: the three required
    /// options not yet negotiated, the type's name as device name and its
    /// capabilities.
    pub fn with_terminal_type(terminal_type: TerminalType) -> (r: Self)
        ensures
            r.option_states.entries() == seq![
                (TelnetOption::Binary, NegotiationState::NotNegotiated),
                (TelnetOption::EndOfRecord, NegotiationState::NotNegotiated),
                (TelnetOption::SuppressGoAhead, NegotiationState::NotNegotiated),
            ],
            r.terminal_type is None,
            r.environment_vars.entries() == Seq::<(Seq<char>, Seq<char>)>::empty(),
            r.configured_terminal_type == terminal_type,
            opt_text(r.device_name) == Some(terminal_type.spec_name()),
            r.device_capabilities == terminal_type.spec_capabilities(),
            r.charset is None,
            r.window_size is None,
    {
        let mut option_states = OptionStates::new();
        option_states.insert(TelnetOption::Binary, NegotiationState::NotNegotiated);
        option_states.insert(TelnetOption::EndOfRecord, NegotiationState::NotNegotiated);
        option_states.insert(TelnetOption::SuppressGoAhead, NegotiationState::NotNegotiated);
        proof {
            let s0 = Seq::<(TelnetOption, NegotiationState)>::empty();
            lemma_first_index(s0, TelnetOption::Binary, 0);
            let s1 = s0.push((TelnetOption::Binary, NegotiationState::NotNegotiated));
            lemma_first_index(s1, TelnetOption::EndOfRecord, 1);
            let s2 = s1.push((TelnetOption::EndOfRecord, NegotiationState::NotNegotiated));
            lemma_first_index(s2, TelnetOption::SuppressGoAhead, 2);
        }
        let device_capabilities = terminal_type.get_capabilities();
        TelnetNegotiator {
            option_states,
            terminal_type: None,
            environment_vars: EnvironmentVars::new(),
            configured_terminal_type: terminal_type,
            device_name: Some(str_to_string(terminal_type.as_str())),
            device_capabilities,
            charset: None,
            window_size: None,
        }
    }

    /// Answer a WILL, WONT, DO or DONT from the host and record the
    /// option's new state (see `command_outcome`).
    pub fn process_command(&mut self, command: u8, option: u8) -> (r: Result<Option<Vec<u8>>, TelnetError>)
        ensures
            final(self).option_states.entries() == command_outcome(old(self).option_states.entries(), command, option).0,
            reply_view(r) == Ok::<Option<Seq<u8>>, TelnetError>(command_outcome(old(self).option_states.entries(), command, option).1),
            final(self).terminal_type == old(self).terminal_type,
            final(self).environment_vars == old(self).environment_vars,
            final(self).configured_terminal_type == old(self).configured_terminal_type,
            final(self).device_name == old(self).device_name,
            final(self).device_capabilities == old(self).device_capabilities,
            final(self).charset == old(self).charset,
            final(self).window_size == old(self).window_size,
    {
        let telnet_option = match TelnetOption::from_u8(option) {
            Some(o) => o,
            None => {
                return Ok(None);
            },
        };
        let telnet_command = match TelnetCommand::from_u8(command) {
            Some(c) => c,
            None => {
                return Ok(None);
            },
        };
        match telnet_command {
            TelnetCommand::Will => {
                if self.should_accept_option(telnet_option) {
                    self.option_states.insert(telnet_option, NegotiationState::Enabled);
                    Ok(Some(vec![TelnetCommand::Do.to_u8(), option]))
                } else {
                    self.option_states.insert(telnet_option, NegotiationState::Disabled);
                    Ok(Some(vec![TelnetCommand::Dont.to_u8(), option]))
                }
            },
            TelnetCommand::Wont => {
                self.option_states.insert(telnet_option, NegotiationState::Disabled);
                Ok(Some(vec![TelnetCommand::Dont.to_u8(), option]))
            },
            TelnetCommand::Do => {
                if self.should_offer_option(telnet_option) {
                    self.option_states.insert(telnet_option, NegotiationState::Enabled);
                    Ok(Some(vec![TelnetCommand::Will.to_u8(), option]))
                } else {
                    self.option_states.insert(telnet_option, NegotiationState::Disabled);
                    Ok(Some(vec![TelnetCommand::Wont.to_u8(), option]))
                }
            },
            TelnetCommand::Dont => {
                self.option_states.insert(telnet_option, NegotiationState::Disabled);
                Ok(Some(vec![TelnetCommand::Wont.to_u8(), option]))
            },
            _ => Ok(None),
        }
    }

    /// Whether the terminal lets the host enable an option.
    fn should_accept_option(&self, option: TelnetOption) -> (r: bool)
        ensures
            r == accepts_option(option),
    {
        match option {
            TelnetOption::Binary | TelnetOption::EndOfRecord | TelnetOption::SuppressGoAhead
            | TelnetOption::TerminalType | TelnetOption::NewEnviron | TelnetOption::WindowSize
            | TelnetOption::Charset => true,
            _ => false,
        }
    }

    /// Whether the terminal enables an option when the host asks.
    fn should_offer_option(&self, option: TelnetOption) -> (r: bool)
        ensures
            r == offers_option(option),
    {
        match option {
            TelnetOption::Binary | TelnetOption::EndOfRecord | TelnetOption::SuppressGoAhead
            | TelnetOption::TerminalType | TelnetOption::NewEnviron | TelnetOption::WindowSize => true,
            _ => false,
        }
    }

    /// Answer a subnegotiation: TERMINAL-TYPE SEND is answered IS with the
    /// configured type (which becomes the negotiated type); NEW-ENVIRON IS
    /// records the host's variables and SEND is answered with ours; window
    /// size records (columns, rows); CHARSET records the payload as text.
    pub fn process_subnegotiation(&mut self, option: u8, data: &[u8]) -> (r: Result<Option<Vec<u8>>, TelnetError>)
        ensures
            final(self).option_states == old(self).option_states,
            final(self).configured_terminal_type == old(self).configured_terminal_type,
            final(self).device_name == old(self).device_name,
            final(self).device_capabilities == old(self).device_capabilities,
            match TelnetOption::spec_from_byte(option) {
                Some(TelnetOption::TerminalType) => if data@.len() > 0 && data@[0] == 1 {
                    &&& reply_view(r) == Ok::<Option<Seq<u8>>, TelnetError>(Some(
                        seq![250u8, option, 0] + encode_utf8(old(self).configured_terminal_type.spec_name()) + seq![240u8],
                    ))
                    &&& opt_text(final(self).terminal_type) == Some(old(self).configured_terminal_type.spec_name())
                    &&& final(self).environment_vars == old(self).environment_vars
                    &&& final(self).charset == old(self).charset
                    &&& final(self).window_size == old(self).window_size
                } else {
                    &&& reply_view(r) == Ok::<Option<Seq<u8>>, TelnetError>(None)
                    &&& final(self).terminal_type == old(self).terminal_type
                    &&& final(self).environment_vars == old(self).environment_vars
                    &&& final(self).charset == old(self).charset
                    &&& final(self).window_size == old(self).window_size
                },
                Some(TelnetOption::NewEnviron) => {
                    &&& final(self).terminal_type == old(self).terminal_type
                    &&& final(self).charset == old(self).charset
                    &&& final(self).window_size == old(self).window_size
                    &&& if data@.len() > 0 && data@[0] == 1 {
                        &&& reply_view(r) == Ok::<Option<Seq<u8>>, TelnetError>(None)
                        &&& final(self).environment_vars.entries() == env_parse(data@.drop_first(), 0, old(self).environment_vars.entries())
                    } else if data@.len() > 0 && data@[0] == 0 {
                        &&& reply_view(r) == Ok::<Option<Seq<u8>>, TelnetError>(Some(environment_reply(
                            opt_text(old(self).device_name),
                            old(self).device_capabilities,
                            old(self).environment_vars.entries(),
                        )))
                        &&& final(self).environment_vars == old(self).environment_vars
                    } else {
                        &&& reply_view(r) == Ok::<Option<Seq<u8>>, TelnetError>(None)
                        &&& final(self).environment_vars == old(self).environment_vars
                    }
                },
                Some(TelnetOption::WindowSize) => {
                    &&& reply_view(r) == Ok::<Option<Seq<u8>>, TelnetError>(None)
                    &&& final(self).terminal_type == old(self).terminal_type
                    &&& final(self).environment_vars == old(self).environment_vars
                    &&& final(self).charset == old(self).charset
                    &&& final(self).window_size == if data@.len() >= 4 {
                        Some(((data@[0] as int * 256 + data@[1]) as u16, (data@[2] as int * 256 + data@[3]) as u16))
                    } else {
                        old(self).window_size
                    }
                },
                Some(TelnetOption::Charset) => {
                    &&& reply_view(r) == Ok::<Option<Seq<u8>>, TelnetError>(None)
                    &&& final(self).terminal_type == old(self).terminal_type
                    &&& final(self).environment_vars == old(self).environment_vars
                    &&& final(self).window_size == old(self).window_size
                    &&& opt_text(final(self).charset) == if data@.len() > 0 {
                        Some(utf8_lossy(data@))
                    } else {
                        opt_text(old(self).charset)
                    }
                },
                _ => {
                    &&& reply_view(r) == Ok::<Option<Seq<u8>>, TelnetError>(None)
                    &&& final(self).terminal_type == old(self).terminal_type
                    &&& final(self).environment_vars == old(self).environment_vars
                    &&& final(self).charset == old(self).charset
                    &&& final(self).window_size == old(self).window_size
                },
            },
    {
        let telnet_option = match TelnetOption::from_u8(option) {
            Some(o) => o,
            None => {
                return Ok(None);
            },
        };
        match telnet_option {
            TelnetOption::TerminalType => {
                if data.len() == 0 {
                    return Ok(None);
                }
                if data[0] == 1 {
                    let mut response = vec![TelnetCommand::Subnegotiation.to_u8(), option, 0];
                    let ghost head = response@;
                    push_utf8(&mut response, self.configured_terminal_type.as_str());
                    response.push(TelnetCommand::SubnegotiationEnd.to_u8());
                    assert(head == seq![250u8, option, 0]);
                    assert(response@ =~= seq![250u8, option, 0] + encode_utf8(old(self).configured_terminal_type.spec_name()) + seq![240u8]);
                    self.terminal_type = Some(str_to_string(self.configured_terminal_type.as_str()));
                    Ok(Some(response))
                } else {
                    Ok(None)
                }
            },
            TelnetOption::NewEnviron => {
                if data.len() == 0 {
                    return Ok(None);
                }
                if data[0] == 1 {
                    let rest = vstd::slice::slice_subrange(data, 1, data.len());
                    assert(rest@ =~= data@.drop_first());
                    self.parse_environment_vars(rest);
                    Ok(None)
                } else if data[0] == 0 {
                    self.create_environment_response()
                } else {
                    Ok(None)
                }
            },
            TelnetOption::WindowSize => {
                if data.len() >= 4 {
                    let cols = (data[0] as u16) * 256 + (data[1] as u16);
                    let rows = (data[2] as u16) * 256 + (data[3] as u16);
                    self.window_size = Some((cols, rows));
                    Ok(None)
                } else {
                    Ok(None)
                }
            },
            TelnetOption::Charset => {
                if data.len() > 0 {
                    let charset = string_from_utf8_lossy(data);
                    self.charset = Some(charset);
                }
                Ok(None)
            },
            _ => Ok(None),
        }
    }

    /// The NEW-ENVIRON IS reply carrying the device name, type and size and
    /// the user variables (see `environment_reply`).
    #[verifier::rlimit(40)]
    pub fn create_environment_response(&self) -> (r: Result<Option<Vec<u8>>, TelnetError>)
        ensures
            reply_view(r) == Ok::<Option<Seq<u8>>, TelnetError>(Some(environment_reply(
                opt_text(self.device_name),
                self.device_capabilities,
                self.environment_vars.entries(),
            ))),
    {
        let mut response = vec![TelnetCommand::Subnegotiation.to_u8(), TelnetOption::NewEnviron.to_u8(), 1];
        let ghost head = response@;
        if let Some(device_name) = &self.device_name {
            response.push(0);
            push_utf8(&mut response, "DEVNAME");
            response.push(1);
            push_utf8(&mut response, device_name.as_str());
            assert(response@ =~= head + var_bytes(encode_utf8("DEVNAME"@), encode_utf8(device_name@)));
        }
        let ghost before = response@;
        response.push(0);
        push_utf8(&mut response, "DEVTYPE");
        response.push(1);
        let devtype = hex4_string(self.device_capabilities.device_type);
        push_utf8(&mut response, devtype.as_str());
        assert(response@ =~= before + var_bytes(encode_utf8("DEVTYPE"@), encode_utf8(hex4_seq(self.device_capabilities.device_type))));
        let ghost before = response@;
        response.push(0);
        push_utf8(&mut response, "COLUMNS");
        response.push(1);
        let columns = decimal_string(self.device_capabilities.screen_size.1 as u64);
        push_utf8(&mut response, columns.as_str());
        assert(response@ =~= before + var_bytes(encode_utf8("COLUMNS"@), encode_utf8(decimal_seq(self.device_capabilities.screen_size.1 as nat))));
        let ghost before = response@;
        response.push(0);
        push_utf8(&mut response, "ROWS");
        response.push(1);
        let rows = decimal_string(self.device_capabilities.screen_size.0 as u64);
        push_utf8(&mut response, rows.as_str());
        assert(response@ =~= before + var_bytes(encode_utf8("ROWS"@), encode_utf8(decimal_seq(self.device_capabilities.screen_size.0 as nat))));
        let ghost fixed = response@;
        let ghost vars = self.environment_vars.entries();
        let mut i: usize = 0;
        while i < self.environment_vars.entries.len()
            invariant
                vars == text_pairs(self.environment_vars.entries@),
                i <= vars.len(),
                response@ == fixed + user_vars_bytes(vars.take(i as int)),
            decreases vars.len() - i,
        {
            let ghost prev = response@;
            let entry = &self.environment_vars.entries[i];
            response.push(0);
            push_utf8(&mut response, entry.0.as_str());
            response.push(1);
            push_utf8(&mut response, entry.1.as_str());
            proof {
                assert(vars.take(i + 1).drop_last() =~= vars.take(i as int));
                assert(vars.take(i + 1).last() == vars[i as int]);
                assert(response@ =~= prev + var_bytes(encode_utf8(vars[i as int].0), encode_utf8(vars[i as int].1)));
            }
            i = i + 1;
        }
        assert(vars.take(vars.len() as int) =~= vars);
        response.push(TelnetCommand::SubnegotiationEnd.to_u8());
        assert(response@ =~= environment_reply(opt_text(self.device_name), self.device_capabilities, vars));
        Ok(Some(response))
    }

    /// Whether Binary, End of Record and Suppress Go Ahead are all enabled.
    pub fn is_negotiation_complete(&self) -> (r: bool)
        ensures
            r == (lookup(self.option_states.entries(), TelnetOption::Binary) == Some(NegotiationState::Enabled)
                && lookup(self.option_states.entries(), TelnetOption::EndOfRecord) == Some(NegotiationState::Enabled)
                && lookup(self.option_states.entries(), TelnetOption::SuppressGoAhead) == Some(NegotiationState::Enabled)),
    {
        let binary = matches!(self.option_states.get(&TelnetOption::Binary), Some(NegotiationState::Enabled));
        let eor = matches!(self.option_states.get(&TelnetOption::EndOfRecord), Some(NegotiationState::Enabled));
        let sga = matches!(self.option_states.get(&TelnetOption::SuppressGoAhead), Some(NegotiationState::Enabled));
        binary && eor && sga
    }

    /// The enabled options, in the order they were first recorded.
    pub fn get_active_options(&self) -> (r: Vec<TelnetOption>)
        ensures
            r@ == self.option_states.entries().filter(
                |p: (TelnetOption, NegotiationState)| p.1 == NegotiationState::Enabled,
            ).map_values(|p: (TelnetOption, NegotiationState)| p.0),
    {
        let ghost pred = |p: (TelnetOption, NegotiationState)| p.1 == NegotiationState::Enabled;
        let ghost s = self.option_states.entries();
        let mut r: Vec<TelnetOption> = Vec::new();
        let mut i: usize = 0;
        while i < self.option_states.entries.len()
            invariant
                s == self.option_states.entries@,
                i <= s.len(),
                pred == (|p: (TelnetOption, NegotiationState)| p.1 == NegotiationState::Enabled),
                r@ == s.take(i as int).filter(pred).map_values(|p: (TelnetOption, NegotiationState)| p.0),
            decreases s.len() - i,
        {
            proof {
                reveal_with_fuel(Seq::<_>::filter, 1);
                assert(s.take(i + 1).drop_last() =~= s.take(i as int));
            }
            let entry = self.option_states.entries[i];
            if entry.1 == NegotiationState::Enabled {
                r.push(entry.0);
            }
            i = i + 1;
            proof {
                assert(r@ =~= s.take(i as int).filter(pred).map_values(|p: (TelnetOption, NegotiationState)| p.0));
            }
        }
        assert(s.take(s.len() as int) =~= s);
        r
    }

    /// Set an environment variable sent to the host.
    pub fn set_environment_var(&mut self, name: &str, value: &str)
        ensures
            final(self).environment_vars.entries() == insert_entry(old(self).environment_vars.entries(), name@, value@),
            final(self).option_states == old(self).option_states,
            final(self).terminal_type == old(self).terminal_type,
            final(self).configured_terminal_type == old(self).configured_terminal_type,
            final(self).device_name == old(self).device_name,
            final(self).device_capabilities == old(self).device_capabilities,
            final(self).charset == old(self).charset,
            final(self).window_size == old(self).window_size,
    {
        self.environment_vars.insert(str_to_string(name), str_to_string(value));
    }

    /// The environment variables sent to the host.
    pub fn get_environment_vars(&self) -> (r: &EnvironmentVars)
        ensures
            r == &self.environment_vars,
    {
        &self.environment_vars
    }

    /// Set the device name; names over 128 bytes are refused.
    pub fn set_device_name(&mut self, device_name: &str) -> (r: Result<(), TelnetError>)
        ensures
            encode_utf8(device_name@).len() > 128 ==> r == Err::<(), TelnetError>(TelnetError::DeviceNameTooLong)
                && final(self).device_name == old(self).device_name,
            encode_utf8(device_name@).len() <= 128 ==> r is Ok && opt_text(final(self).device_name) == Some(device_name@),
            final(self).option_states == old(self).option_states,
            final(self).terminal_type == old(self).terminal_type,
            final(self).environment_vars == old(self).environment_vars,
            final(self).configured_terminal_type == old(self).configured_terminal_type,
            final(self).device_capabilities == old(self).device_capabilities,
            final(self).charset == old(self).charset,
            final(self).window_size == old(self).window_size,
    {
        if device_name.as_bytes().len() > 128 {
            return Err(TelnetError::DeviceNameTooLong);
        }
        self.device_name = Some(str_to_string(device_name));
        Ok(())
    }

    /// The device name, if any.
    pub fn get_device_name(&self) -> (r: Option<&str>)
        ensures
            match self.device_name {
                Some(d) => r matches Some(x) && x@ == d@,
                None => r is None,
            },
    {
        match &self.device_name {
            Some(d) => Some(d.as_str()),
            None => None,
        }
    }

    /// The device capabilities.
    pub fn get_device_capabilities(&self) -> (r: &DeviceCapabilities)
        ensures
            *r == self.device_capabilities,
    {
        &self.device_capabilities
    }

    /// Set the window size announced to the host.
    pub fn set_window_size(&mut self, cols: u16, rows: u16)
        ensures
            final(self).window_size == Some((cols, rows)),
            final(self).option_states == old(self).option_states,
            final(self).terminal_type == old(self).terminal_type,
            final(self).environment_vars == old(self).environment_vars,
            final(self).configured_terminal_type == old(self).configured_terminal_type,
            final(self).device_name == old(self).device_name,
            final(self).device_capabilities == old(self).device_capabilities,
            final(self).charset == old(self).charset,
    {
        self.window_size = Some((cols, rows));
    }

    /// The window size, if set.
    pub fn get_window_size(&self) -> (r: Option<(u16, u16)>)
        ensures
            r == self.window_size,
    {
        self.window_size
    }

    /// Set the character set.
    pub fn set_charset(&mut self, charset: &str)
        ensures
            opt_text(final(self).charset) == Some(charset@),
            final(self).option_states == old(self).option_states,
            final(self).terminal_type == old(self).terminal_type,
            final(self).environment_vars == old(self).environment_vars,
            final(self).configured_terminal_type == old(self).configured_terminal_type,
            final(self).device_name == old(self).device_name,
            final(self).device_capabilities == old(self).device_capabilities,
            final(self).window_size == old(self).window_size,
    {
        self.charset = Some(str_to_string(charset));
    }

    /// The character set, if set.
    pub fn get_charset(&self) -> (r: Option<&str>)
        ensures
            match self.charset {
                Some(c) => r matches Some(x) && x@ == c@,
                None => r is None,
            },
    {
        match &self.charset {
            Some(c) => Some(c.as_str()),
            None => None,
        }
    }

    /// Record the variables of a NEW-ENVIRON IS payload (see `env_parse`).
    pub fn parse_environment_vars(&mut self, data: &[u8])
        ensures
            final(self).environment_vars.entries() == env_parse(data@, 0, old(self).environment_vars.entries()),
            final(self).option_states == old(self).option_states,
            final(self).terminal_type == old(self).terminal_type,
            final(self).configured_terminal_type == old(self).configured_terminal_type,
            final(self).device_name == old(self).device_name,
            final(self).device_capabilities == old(self).device_capabilities,
            final(self).charset == old(self).charset,
            final(self).window_size == old(self).window_size,
    {
        let mut i: usize = 0;
        while i < data.len()
            invariant
                env_parse(data@, i as int, self.environment_vars.entries()) == env_parse(data@, 0, old(self).environment_vars.entries()),
                self.option_states == old(self).option_states,
                self.terminal_type == old(self).terminal_type,
                self.configured_terminal_type == old(self).configured_terminal_type,
                self.device_name == old(self).device_name,
                self.device_capabilities == old(self).device_capabilities,
                self.charset == old(self).charset,
                self.window_size == old(self).window_size,
            decreases data@.len() - i,
        {
            let ghost i0 = i as int;
            let ghost v0 = self.environment_vars.entries();
            proof {
                lemma_env_step_advances(data@, i0, v0);
            }
            if data[i] == 0 {
                i = i + 1;
                if i < data.len() {
                    if let Some((name, new_i)) = self.extract_null_terminated_string(data, i) {
                        if new_i < data.len() && data[new_i] == 1 {
                            i = new_i + 1;
                            if i < data.len() {
                                if let Some((value, new_i2)) = self.extract_null_terminated_string(data, i) {
                                    self.environment_vars.insert(name, value);
                                    i = new_i2;
                                } else {
                                    i = new_i;
                                }
                            }
                        } else {
                            self.environment_vars.insert(name, String::new());
                            i = new_i;
                        }
                    }
                }
            } else if data[i] == 1 {
                i = i + 1;
            } else if data[i] == 2 {
                if data.len() - i <= 2 {
                    i = data.len();
                } else {
                    i = i + 2;
                }
            } else {
                i = i + 1;
            }
            assert(env_step(data@, i0, v0) == (i as int, self.environment_vars.entries()) || (env_step(data@, i0, v0).0 >= data@.len() && i as int == data@.len() && env_step(data@, i0, v0).1 == self.environment_vars.entries()));
        }
    }

    /// The NUL-terminated string at `start` and the position after its NUL,
    /// if there is a NUL; the bytes are decoded as UTF-8, invalid sequences
    /// replaced.
    fn extract_null_terminated_string(&self, data: &[u8], start: usize) -> (r: Option<(String, usize)>)
        requires
            start <= data@.len(),
        ensures
            match terminated_text(data@, start as int) {
                Some((text, next)) => r matches Some((s, n)) && s@ == text && n as int == next,
                None => r is None,
            },
    {
        proof {
            lemma_nul_from(data@, start as int);
        }
        let mut end = start;
        while end < data.len() && data[end] != 0
            invariant
                start <= end <= data@.len(),
                forall|j: int| start <= j < end ==> data@[j] != 0,
                nul_from(data@, start as int) == nul_from(data@, end as int),
            decreases data@.len() - end,
        {
            end = end + 1;
        }
        if end < data.len() {
            let bytes = vstd::slice::slice_subrange(data, start, end);
            let s = string_from_utf8_lossy(bytes);
            Some((s, end + 1))
        } else {
            None
        }
    }
}

impl Default for TelnetNegotiator {
    fn default() -> (r: Self)
        ensures
            r.option_states.entries() == seq![
                (TelnetOption::Binary, NegotiationState::NotNegotiated),
                (TelnetOption::EndOfRecord, NegotiationState::NotNegotiated),
                (TelnetOption::SuppressGoAhead, NegotiationState::NotNegotiated),
            ],
            r.terminal_type is None,
            r.environment_vars.entries() == Seq::<(Seq<char>, Seq<char>)>::empty(),
            r.configured_terminal_type == TerminalType::IBM5250,
            opt_text(r.device_name) == Some("IBM-5250"@),
            r.device_capabilities == DeviceCapabilities::spec_standard(),
            r.charset is None,
            r.window_size is None,
    {
        Self::new()
    }
}

/// The options TN5250 cannot work without.
pub open spec fn required_options() -> Seq<TelnetOption> {
    seq![TelnetOption::Binary, TelnetOption::EndOfRecord, TelnetOption::SuppressGoAhead]
}

/// Whether the given options include Binary, End of Record and Suppress Go
/// Ahead.
pub fn negotiate_options(options: &[TelnetOption]) -> (r: bool)
    ensures
        r == (options@.contains(TelnetOption::Binary) && options@.contains(TelnetOption::EndOfRecord)
            && options@.contains(TelnetOption::SuppressGoAhead)),
{
    let required = [TelnetOption::Binary, TelnetOption::EndOfRecord, TelnetOption::SuppressGoAhead];
    let mut k: usize = 0;
    while k < 3
        invariant
            k <= 3,
            required@ == required_options(),
            forall|m: int| 0 <= m < k ==> options@.contains(#[trigger] required_options()[m]),
        decreases 3 - k,
    {
        let req = required[k];
        let mut found = false;
        let mut i: usize = 0;
        while i < options.len()
            invariant
                i <= options@.len(),
                found == (exists|j: int| 0 <= j < i && options@[j] == req),
            decreases options@.len() - i,
        {
            if options[i] == req {
                found = true;
            }
            i = i + 1;
        }
        if !found {
            assert(!options@.contains(required_options()[k as int]));
            return false;
        }
        k = k + 1;
    }
    assert(options@.contains(required_options()[0]));
    assert(options@.contains(required_options()[1]));
    assert(options@.contains(required_options()[2]));
    true
}

} // verus!
