//! The decisions of a host connection: session settings, protocol modes and
//! their detection from the first data, the check and telnet filtering of
//! received data, TLS and activity bookkeeping. The sockets, TLS streams
//! and threads that carry the data are the program's.

use vstd::prelude::*;
use std::time::{Duration, Instant};
use crate::clock::{elapsed_since, instant_now, nanos_since};
use crate::text::str_to_string;

verus! {

/// Timeouts and reconnection settings of a session.
#[derive(Debug, Clone, Copy, PartialEq, Eq, Structural)]
pub struct SessionConfig {
    /// Idle timeout in seconds.
    pub idle_timeout_secs: u64,
    /// TCP keepalive interval in seconds.
    pub keepalive_interval_secs: u64,
    /// Timeout for the initial connect in seconds.
    pub connection_timeout_secs: u64,
    /// Whether a lost connection is re-established.
    pub auto_reconnect: bool,
    /// Reconnection attempts before giving up.
    pub max_reconnect_attempts: u32,
    /// Factor by which the wait between attempts grows.
    pub reconnect_backoff_multiplier: u64,
}

impl SessionConfig {
    /// 15 minutes idle, 1 minute keepalive, 30 s connect, no automatic
    /// reconnection, 3 attempts, backoff doubling.
    pub open spec fn default_spec() -> Self {
        SessionConfig {
            idle_timeout_secs: 900,
            keepalive_interval_secs: 60,
            connection_timeout_secs: 30,
            auto_reconnect: false,
            max_reconnect_attempts: 3,
            reconnect_backoff_multiplier: 2,
        }
    }
}

impl Default for SessionConfig {
    /// The default settings (see `default_spec`).
    fn default() -> (r: Self)
        ensures
            r == Self::default_spec(),
    {
        SessionConfig {
            idle_timeout_secs: 900,
            keepalive_interval_secs: 60,
            connection_timeout_secs: 30,
            auto_reconnect: false,
            max_reconnect_attempts: 3,
            reconnect_backoff_multiplier: 2,
        }
    }
}

/// How the data of a connection is interpreted.
#[derive(Debug, Clone, Copy, PartialEq, Eq, Structural)]
pub enum ProtocolMode {
    /// Decide from the first data.
    AutoDetect,
    /// Plain text.
    NVT,
    /// IBM 5250.
    TN5250,
    /// IBM 3270.
    TN3270,
}

impl Default for ProtocolMode {
    fn default() -> (r: Self)
        ensures
            r == ProtocolMode::AutoDetect,
    {
        ProtocolMode::AutoDetect
    }
}

/// Whether the data starts like a 3270 stream: a 3270 command byte
/// followed by a write control character or order (a byte up to 0x7F).
pub open spec fn starts_3270(buf: Seq<u8>) -> bool {
    &&& buf.len() >= 3
    &&& {
        let b = buf[0];
        b == 0x01 || b == 0x02 || b == 0x05 || b == 0x06 || b == 0x0D || b == 0x0E || b == 0x0F || b == 0x11
    }
    &&& buf[1] <= 0x7F
}

/// Whether an escape byte (0x04) is followed by a 5250 command byte
/// (0xF1 and up) somewhere in the data.
pub open spec fn has_5250_escape(buf: Seq<u8>) -> bool {
    exists|i: int| 0 <= i < buf.len() - 1 && #[trigger] buf[i] == 0x04 && buf[i + 1] >= 0xF1
}

/// Whether a byte is plain text: no control byte but tab, line feed and
/// carriage return, and not above 127.
pub open spec fn plain_byte(b: u8) -> bool {
    (b >= 32 || b == 9 || b == 10 || b == 13) && b <= 127
}

/// Whether the data is plain text (see `plain_byte`).
pub open spec fn plain_text(buf: Seq<u8>) -> bool {
    forall|i: int| 0 <= i < buf.len() ==> plain_byte(#[trigger] buf[i])
}

/// The protocol that collected data (at least four bytes, at most the
/// 256 looked at) show: 3270, then 5250, then plain text (NVT); with 256
/// bytes and no sign, NVT; else still undecided.
pub open spec fn mode_of_data(buf: Seq<u8>) -> ProtocolMode {
    if starts_3270(buf) {
        ProtocolMode::TN3270
    } else if has_5250_escape(buf) {
        ProtocolMode::TN5250
    } else if plain_text(buf) {
        ProtocolMode::NVT
    } else if buf.len() >= 256 {
        ProtocolMode::NVT
    } else {
        ProtocolMode::AutoDetect
    }
}

/// Whether 5250 data may start at `i` of the data: an escape byte followed
/// by a 5250 command byte.
fn escape_at(buf: &Vec<u8>, i: usize) -> (r: bool)
    requires
        i + 1 < buf.len(),
    ensures
        r == (buf@[i as int] == 0x04 && buf@[i + 1] >= 0xF1),
{
    buf[i] == 0x04 && buf[i + 1] >= 0xF1
}

/// The protocol the data show (see `mode_of_data`).
fn classify(buf: &Vec<u8>) -> (r: ProtocolMode)
    ensures
        r == mode_of_data(buf@),
{
    let n = buf.len();
    if n >= 3 {
        let b = buf[0];
        if b == 0x01 || b == 0x02 || b == 0x05 || b == 0x06 || b == 0x0D || b == 0x0E || b == 0x0F || b == 0x11 {
            if buf[1] <= 0x7F {
                return ProtocolMode::TN3270;
            }
        }
    }
    if n >= 2 {
        let mut i: usize = 0;
        while i < n - 1
            invariant
                n == buf@.len(),
                n >= 2,
                i <= n - 1,
                !starts_3270(buf@),
                forall|k: int| 0 <= k < i ==> !(#[trigger] buf@[k] == 0x04 && buf@[k + 1] >= 0xF1),
            decreases n - 1 - i,
        {
            if escape_at(buf, i) {
                return ProtocolMode::TN5250;
            }
            i = i + 1;
        }
    }
    assert(!has_5250_escape(buf@));
    let mut plain = true;
    let mut j: usize = 0;
    while j < n
        invariant
            n == buf@.len(),
            j <= n,
            plain == (forall|k: int| 0 <= k < j ==> plain_byte(#[trigger] buf@[k])),
        decreases n - j,
    {
        let b = buf[j];
        if !((b >= 32 || b == 9 || b == 10 || b == 13) && b <= 127) {
            plain = false;
        }
        j = j + 1;
    }
    if plain {
        return ProtocolMode::NVT;
    }
    if n >= 256 {
        return ProtocolMode::NVT;
    }
    ProtocolMode::AutoDetect
}

/// What detection looks at: the data collected so far.
pub struct ProtocolDetector {
    mode: ProtocolMode,
    detection_buffer: Vec<u8>,
    max_detection_bytes: usize,
    detection_start_time: Option<Instant>,
    detection_timeout: Duration,
}

/// Five seconds, in nanoseconds: how long detection may take.
pub open spec fn detection_timeout_nanos() -> u128 {
    5_000_000_000
}

/// A detection step on new data, given the time since detection started
/// (none before the first step): after the timeout NVT; without data or
/// with fewer than four bytes collected still undecided; otherwise the mode
/// the first 256 collected bytes show (see `mode_of_data`). Returns the
/// mode reported and the detector's mode and collected data afterwards.
pub open spec fn detect_step(mode: ProtocolMode, buf: Seq<u8>, since_start: Option<u128>, data: Seq<u8>) -> (ProtocolMode, ProtocolMode, Seq<u8>) {
    if mode != ProtocolMode::AutoDetect {
        (mode, mode, buf)
    } else if since_start matches Some(e) && e > detection_timeout_nanos() {
        (ProtocolMode::NVT, ProtocolMode::NVT, buf)
    } else if data.len() == 0 {
        (ProtocolMode::AutoDetect, mode, buf)
    } else {
        let all = buf + data;
        if all.len() < 4 {
            (ProtocolMode::AutoDetect, mode, all)
        } else {
            let kept = if all.len() > 256 { all.take(256) } else { all };
            let m = mode_of_data(kept);
            (m, m, kept)
        }
    }
}

impl ProtocolDetector {
    /// The detector's mode.
    pub closed spec fn spec_mode(&self) -> ProtocolMode {
        self.mode
    }

    /// The data collected.
    pub closed spec fn collected(&self) -> Seq<u8> {
        self.detection_buffer@
    }

    /// Whether detection has started (first data seen).
    pub closed spec fn started(&self) -> bool {
        self.detection_start_time is Some
    }

    /// The detector looks at up to 256 bytes, for five seconds.
    pub closed spec fn wf(&self) -> bool {
        &&& self.max_detection_bytes == 256
        &&& crate::clock::duration_nanos(self.detection_timeout) == detection_timeout_nanos()
    }

    /// A detector that starts in 5250 mode (the usual case for an AS/400);
    /// detection runs once it is reset.
    pub fn new() -> (r: Self)
        ensures
            r.wf(),
            r.spec_mode() == ProtocolMode::TN5250,
            r.collected().len() == 0,
            !r.started(),
    {
        ProtocolDetector {
            mode: ProtocolMode::TN5250,
            detection_buffer: Vec::new(),
            max_detection_bytes: 256,
            detection_start_time: None,
            detection_timeout: crate::clock::seconds(5),
        }
    }

    /// One detection step on new data (see `detect_step`): the time since
    /// detection started is read once; the first data start the clock.
    pub fn detect_protocol(&mut self, data: &[u8]) -> (r: ProtocolMode)
        requires
            old(self).wf(),
        ensures
            final(self).wf(),
            exists|e: Option<u128>| #![trigger detect_step(old(self).spec_mode(), old(self).collected(), e, data@)] {
                let o = detect_step(old(self).spec_mode(), old(self).collected(), e, data@);
                &&& (old(self).spec_mode() == ProtocolMode::AutoDetect ==> e is Some)
                &&& r == o.0
                &&& final(self).spec_mode() == o.1
                &&& final(self).collected() == o.2
            },
            old(self).spec_mode() == ProtocolMode::AutoDetect ==> final(self).started(),
            old(self).spec_mode() != ProtocolMode::AutoDetect ==> final(self).started() == old(self).started(),
    {
        if !matches!(self.mode, ProtocolMode::AutoDetect) {
            assert(detect_step(old(self).spec_mode(), old(self).collected(), None, data@).1 == self.mode);
            return self.mode;
        }
        if self.detection_start_time.is_none() {
            self.detection_start_time = Some(instant_now());
        }
        let elapsed: u128 = match &self.detection_start_time {
            Some(start) => nanos_since(start),
            None => 0,
        };
        let timeout: u128 = crate::clock::duration_as_nanos(&self.detection_timeout);
        if elapsed > timeout {
            self.mode = ProtocolMode::NVT;
            assert(detect_step(old(self).spec_mode(), old(self).collected(), Some(elapsed), data@).1 == ProtocolMode::NVT);
            return ProtocolMode::NVT;
        }
        if data.len() == 0 {
            assert(detect_step(old(self).spec_mode(), old(self).collected(), Some(elapsed), data@).2 == self.collected());
            return ProtocolMode::AutoDetect;
        }
        let ghost before = self.detection_buffer@;
        crate::text::append_bytes(&mut self.detection_buffer, data);
        if self.detection_buffer.len() < 4 {
            return ProtocolMode::AutoDetect;
        }
        if self.detection_buffer.len() > self.max_detection_bytes {
            self.detection_buffer.truncate(self.max_detection_bytes);
        }
        let m = classify(&self.detection_buffer);
        if !matches!(m, ProtocolMode::AutoDetect) {
            self.mode = m;
        }
        proof {
            let o = detect_step(old(self).spec_mode(), old(self).collected(), Some(elapsed), data@);
            assert(o.2 =~= self.detection_buffer@);
        }
        m
    }

    /// Whether a protocol is decided.
    pub fn is_detection_complete(&self) -> (r: bool)
        ensures
            r == (self.spec_mode() != ProtocolMode::AutoDetect),
    {
        !matches!(self.mode, ProtocolMode::AutoDetect)
    }

    /// Start detection again: undecided, nothing collected, clock stopped.
    pub fn reset(&mut self)
        requires
            old(self).wf(),
        ensures
            final(self).wf(),
            final(self).spec_mode() == ProtocolMode::AutoDetect,
            final(self).collected().len() == 0,
            !final(self).started(),
    {
        self.mode = ProtocolMode::AutoDetect;
        self.detection_buffer.clear();
        self.detection_start_time = None;
    }

    /// Decide the mode by hand.
    pub fn set_mode(&mut self, mode: ProtocolMode)
        ensures
            final(self).spec_mode() == mode,
            final(self).collected() == old(self).collected(),
            final(self).started() == old(self).started(),
            old(self).wf() ==> final(self).wf(),
    {
        self.mode = mode;
    }
}

/// How many times a byte occurs.
pub open spec fn count_byte(s: Seq<u8>, b: u8) -> nat
    decreases s.len(),
{
    if s.len() == 0 {
        0
    } else {
        count_byte(s.drop_last(), b) + if s.last() == b { 1nat } else { 0nat }
    }
}

/// Whether the `n` bytes from `i` all equal `b`.
pub open spec fn run_at(s: Seq<u8>, i: int, b: u8, n: int) -> bool {
    &&& 0 <= i
    &&& i + n <= s.len()
    &&& forall|k: int| i <= k < i + n ==> s[k] == b
}

/// Whether `n` bytes equal to `b` follow each other somewhere.
pub open spec fn has_run(s: Seq<u8>, b: u8, n: int) -> bool {
    exists|i: int| #[trigger] run_at(s, i, b, n)
}

/// Whether received data look sound: not empty, at most 65535 bytes, at
/// most half of them zero and at most half 0xFF, and no run of 32 zero
/// bytes or of 32 0xFF bytes.
pub open spec fn network_data_ok(s: Seq<u8>) -> bool {
    &&& 0 < s.len() <= 65535
    &&& 2 * count_byte(s, 0) <= s.len()
    &&& 2 * count_byte(s, 255) <= s.len()
    &&& !has_run(s, 0, 32)
    &&& !has_run(s, 255, 32)
}

/// How many times a byte occurs in the data.
fn count_occurrences(data: &[u8], b: u8) -> (r: usize)
    ensures
        r == count_byte(data@, b),
        r <= data@.len(),
{
    let mut n: usize = 0;
    let mut i: usize = 0;
    while i < data.len()
        invariant
            i <= data@.len(),
            n == count_byte(data@.take(i as int), b),
            n <= i,
        decreases data@.len() - i,
    {
        assert(data@.take(i + 1).drop_last() =~= data@.take(i as int));
        if data[i] == b {
            n = n + 1;
        }
        i = i + 1;
    }
    assert(data@.take(i as int) =~= data@);
    n
}

/// Whether 32 bytes equal to `b` follow each other in the data.
fn has_run_of_32(data: &[u8], b: u8) -> (r: bool)
    ensures
        r == has_run(data@, b, 32),
{
    if data.len() < 32 {
        assert forall|i: int| !#[trigger] run_at(data@, i, b, 32) by {}
        return false;
    }
    let last = data.len() - 32;
    let mut i: usize = 0;
    while i <= last
        invariant
            data@.len() >= 32,
            last == data@.len() - 32,
            last + 32 == data.len(),
            i <= last + 1,
            forall|j: int| 0 <= j < i ==> !#[trigger] run_at(data@, j, b, 32),
        decreases last + 1 - i,
    {
        let mut k: usize = 0;
        let mut all = true;
        while k < 32
            invariant
                i <= last,
                last == data@.len() - 32,
                last + 32 == data.len(),
                k <= 32,
                all == (forall|m: int| i <= m < i + k ==> data@[m] == b),
            decreases 32 - k,
        {
            if data[i + k] != b {
                all = false;
            }
            k = k + 1;
        }
        if all {
            assert(run_at(data@, i as int, b, 32));
            return true;
        }
        i = i + 1;
    }
    assert forall|j: int| !#[trigger] run_at(data@, j, b, 32) by {
        if j >= i {
            assert(j + 32 > data@.len());
        }
    }
    false
}

/// Whether received data look sound (see `network_data_ok`). At most half
/// of the bytes may be zero (or 0xFF): twice the count may not exceed the
/// length.
pub fn validate_network_data(data: &[u8]) -> (r: bool)
    ensures
        r == network_data_ok(data@),
{
    if data.len() == 0 {
        return false;
    }
    if data.len() > 65535 {
        return false;
    }
    let null_count = count_occurrences(data, 0x00);
    let ff_count = count_occurrences(data, 0xFF);
    if null_count > data.len() - null_count || ff_count > data.len() - ff_count {
        return false;
    }
    if has_run_of_32(data, 0u8) || has_run_of_32(data, 255u8) {
        return false;
    }
    true
}

/// The end of a subnegotiation searched from `j`: just past the first IAC
/// SE found within 8192 steps (`steps` taken so far), or none.
pub open spec fn se_end(data: Seq<u8>, j: int, steps: int) -> Option<int>
    decreases 8192 - steps,
{
    if steps >= 8192 || j < 0 || j + 1 >= data.len() {
        None
    } else if data[j] == 255 && data[j + 1] == 240 {
        Some(j + 2)
    } else {
        se_end(data, j + 1, steps + 1)
    }
}

/// The data from `i` without telnet commands: IAC WILL/WONT/DO/DONT and
/// their option, subnegotiations up to IAC SE, and other two-byte commands
/// are dropped; a doubled IAC stands for one 0xFF byte; an incomplete
/// command, or a subnegotiation without its end (within 8192 bytes), ends
/// the data.
pub open spec fn strip_telnet(data: Seq<u8>, i: int) -> Seq<u8>
    decreases data.len() - i, 0int,
{
    if i < 0 || i >= data.len() {
        Seq::empty()
    } else if data[i] != 255 {
        seq![data[i]] + strip_telnet(data, i + 1)
    } else if i + 1 >= data.len() {
        Seq::empty()
    } else {
        let c = data[i + 1];
        if 251 <= c && c <= 254 {
            if i + 2 < data.len() { strip_telnet(data, i + 3) } else { Seq::empty() }
        } else if c == 250 {
            match se_end(data, i + 2, 0) {
                Some(k) => if i < k <= data.len() { strip_telnet(data, k) } else { Seq::empty() },
                None => Seq::empty(),
            }
        } else if c == 255 {
            seq![255u8] + strip_telnet(data, i + 2)
        } else {
            strip_telnet(data, i + 2)
        }
    }
}

/// The 5250 data in received data: nothing when the data are empty, too
/// long or unsound (see `network_data_ok`), else the data without telnet
/// commands (see `strip_telnet`).
pub open spec fn data_5250(data: Seq<u8>) -> Seq<u8> {
    if !network_data_ok(data) {
        Seq::empty()
    } else {
        let r = strip_telnet(data, 0);
        if r.len() > 65535 { Seq::empty() } else { r }
    }
}

/// The end of a subnegotiation lies past its start, within the data.
proof fn lemma_se_end_after(data: Seq<u8>, j: int, steps: int)
    ensures
        se_end(data, j, steps) matches Some(k) ==> k >= j + 2 && k <= data.len(),
    decreases 8192 - steps,
{
    if !(steps >= 8192 || j < 0 || j + 1 >= data.len()) && !(data[j] == 255 && data[j + 1] == 240) {
        lemma_se_end_after(data, j + 1, steps + 1);
    }
}

/// Data without any 0xFF byte carry no telnet command: they pass the
/// filter unchanged.
pub proof fn lemma_strip_without_iac(data: Seq<u8>, i: int)
    requires
        0 <= i <= data.len(),
        forall|k: int| 0 <= k < data.len() ==> data[k] != 255,
    ensures
        strip_telnet(data, i) == data.subrange(i, data.len() as int),
    decreases data.len() - i,
{
    if i < data.len() {
        lemma_strip_without_iac(data, i + 1);
        assert(data.subrange(i, data.len() as int) =~= seq![data[i]] + data.subrange(i + 1, data.len() as int));
    } else {
        assert(data.subrange(i, data.len() as int) =~= Seq::<u8>::empty());
    }
}

/// Sound received data without any 0xFF byte are delivered as they are.
pub proof fn lemma_plain_data_unchanged(data: Seq<u8>)
    requires
        network_data_ok(data),
        forall|k: int| 0 <= k < data.len() ==> data[k] != 255,
    ensures
        data_5250(data) == data,
{
    lemma_strip_without_iac(data, 0);
    assert(data.subrange(0, data.len() as int) =~= data);
}

/// The 5250 data in received data (see `data_5250`).
pub fn extract_5250_data(data: &[u8]) -> (r: Vec<u8>)
    ensures
        r@ == data_5250(data@),
{
    if data.len() == 0 || data.len() > 65535 {
        return Vec::new();
    }
    if !validate_network_data(data) {
        return Vec::new();
    }
    let n = data.len();
    let mut result: Vec<u8> = Vec::new();
    let mut i: usize = 0;
    while i < n
        invariant
            n == data@.len(),
            n <= 65535,
            i <= n,
            result@ + strip_telnet(data@, i as int) == strip_telnet(data@, 0),
        decreases n - i,
    {
        if data[i] == 255 {
            if i + 1 >= n {
                assert(strip_telnet(data@, i as int) =~= Seq::<u8>::empty());
                i = n;
                continue;
            }
            let c = data[i + 1];
            if c >= 251 && c <= 254 {
                if i + 2 < n {
                    i = i + 3;
                } else {
                    assert(strip_telnet(data@, i as int) =~= Seq::<u8>::empty());
                    i = n;
                }
                continue;
            } else if c == 250 {
                let ghost start = i as int;
                let mut j = i + 2;
                let mut search_count: usize = 0;
                let mut end: Option<usize> = None;
                while end.is_none() && j + 1 < n && search_count < 8192
                    invariant
                        n == data@.len(),
                        n <= 65535,
                        start + 2 <= j <= n,
                        j == start + 2 + search_count,
                        search_count <= 8192,
                        end matches Some(k) ==> se_end(data@, start + 2, 0) == Some(k as int) && k <= n,
                        end is None ==> se_end(data@, start + 2, 0) == se_end(data@, j as int, search_count as int),
                    decreases 8192 - search_count + if end is None { 1int } else { 0int },
                {
                    if data[j] == 255 && data[j + 1] == 240 {
                        end = Some(j + 2);
                    } else {
                        j = j + 1;
                        search_count = search_count + 1;
                    }
                }
                match end {
                    Some(k) => {
                        proof {
                            lemma_se_end_after(data@, start + 2, 0);
                        }
                        assert(start < k as int);
                        i = k;
                    },
                    None => {
                        assert(strip_telnet(data@, start) =~= Seq::<u8>::empty());
                        i = n;
                    },
                }
                continue;
            } else if c == 255 {
                let ghost before = result@;
                result.push(255);
                proof {
                    assert(strip_telnet(data@, i as int) == seq![255u8] + strip_telnet(data@, i + 2));
                    assert(result@ + strip_telnet(data@, i + 2) =~= before + strip_telnet(data@, i as int));
                }
                i = i + 2;
                continue;
            } else {
                i = i + 2;
                continue;
            }
        }
        let ghost before = result@;
        result.push(data[i]);
        proof {
            assert(strip_telnet(data@, i as int) == seq![data@[i as int]] + strip_telnet(data@, i + 1));
            assert(result@ + strip_telnet(data@, i + 1) =~= before + strip_telnet(data@, i as int));
        }
        i = i + 1;
    }
    proof {
        assert(strip_telnet(data@, i as int) =~= Seq::<u8>::empty());
        assert(result@ =~= strip_telnet(data@, 0));
    }
    if result.len() > 65535 {
        Vec::new()
    } else {
        result
    }
}

/// The 3270 data in received data: telnet is filtered as for 5250.
pub fn extract_3270_data(data: &[u8]) -> (r: Vec<u8>)
    ensures
        r@ == data_5250(data@),
{
    extract_5250_data(data)
}

/// A connection as plain values: host, port, whether it runs, holds a
/// stream and its channels, whether telnet negotiation completed, TLS and
/// the CA bundle path, the protocol mode in use, the detector's mode and
/// collected data, the session settings, when it was last active, and the
/// reconnection attempts.
pub ghost struct ConnectionView {
    pub host: Seq<char>,
    pub port: u16,
    pub running: bool,
    pub linked: bool,
    pub channels: bool,
    pub negotiated: bool,
    pub tls: bool,
    pub ca_bundle: Option<Seq<char>>,
    pub mode: ProtocolMode,
    pub detector_mode: ProtocolMode,
    pub collected: Seq<u8>,
    pub config: SessionConfig,
    pub last_activity: Option<Instant>,
    pub attempts: u32,
}

/// Whether `e` nanoseconds are more whole seconds than `limit`.
pub open spec fn idle_over(e: u128, limit: u64) -> bool {
    e / 1_000_000_000 > limit
}

/// What received data give (see `data_5250`): 5250 and plain-text data
/// without telnet commands, 3270 data the same way, nothing while the
/// protocol is undecided; nothing either when no data are left.
pub open spec fn delivered(mode: ProtocolMode, data: Seq<u8>) -> Option<Seq<u8>> {
    if mode == ProtocolMode::AutoDetect || data_5250(data).len() == 0 {
        None
    } else {
        Some(data_5250(data))
    }
}

/// The connection after receiving data, apart from the activity time:
/// while the protocol is undecided a detection step runs (see
/// `detect_step`, with `e` the time since detection started) and its
/// result becomes the mode in use.
pub open spec fn received_view(v: ConnectionView, e: Option<u128>, data: Seq<u8>) -> ConnectionView {
    if v.detector_mode != ProtocolMode::AutoDetect {
        v
    } else {
        let o = detect_step(v.detector_mode, v.collected, e, data);
        ConnectionView { mode: o.0, detector_mode: o.1, collected: o.2, ..v }
    }
}

/// What polling a connection's receive channel gave.
pub enum ChannelPoll {
    /// Data from the host.
    Data(Vec<u8>),
    /// Nothing yet.
    Empty,
    /// The sending side is gone: the connection was lost.
    Disconnected,
}

/// The connection after `disconnect` (see `stopped_view`): detection
/// starts over, undecided, with no activity and no reconnection attempts.
pub open spec fn disconnected_view(v: ConnectionView) -> ConnectionView {
    ConnectionView {
        mode: ProtocolMode::AutoDetect,
        detector_mode: ProtocolMode::AutoDetect,
        collected: Seq::empty(),
        last_activity: None,
        attempts: 0,
        ..stopped_view(v)
    }
}

/// What taking a poll of the receive channel leaves, with the connection
/// idle for `idle_nanos` nanoseconds: a connection idle past its timeout is
/// disconnected and gives nothing; without a channel nothing is received;
/// otherwise data are taken in (see `accept_received`), an empty channel
/// gives nothing, and a channel that was cut off stops the connection.
pub open spec fn receive_outcome(before: AS400Connection, after: AS400Connection, polled: ChannelPoll, idle_nanos: u128, r: Option<Vec<u8>>) -> bool {
    let idle = before@.last_activity is Some && idle_over(idle_nanos, before@.config.idle_timeout_secs);
    &&& idle ==> r is None && after@ == disconnected_view(before@)
    &&& !idle && !before@.channels ==> r is None && after == before
    &&& !idle && before@.channels ==> match polled {
        ChannelPoll::Empty => r is None && after == before,
        ChannelPoll::Disconnected => r is None && after@ == (ConnectionView { running: false, ..before@ }),
        ChannelPoll::Data(d) => {
            &&& after@.last_activity is Some
            &&& exists|e: Option<u128>| {
                let v = #[trigger] received_view(before@, e, d@);
                &&& after@ == (ConnectionView { last_activity: after@.last_activity, ..v })
                &&& match delivered(v.mode, d@) {
                    Some(x) => r matches Some(y) && y@ == x,
                    None => r is None,
                }
            }
        },
    }
}

/// The connection after a disconnect or a cleanup of its state: stopped,
/// without stream, channels or negotiation, the host and CA bundle path
/// forgotten.
pub open spec fn stopped_view(v: ConnectionView) -> ConnectionView {
    ConnectionView {
        host: Seq::empty(),
        running: false,
        linked: false,
        channels: false,
        negotiated: false,
        ca_bundle: None,
        ..v
    }
}

/// The problem the connection state shows, if any: running without a
/// stream, running without channels, or negotiated but not running.
pub open spec fn integrity_error(v: ConnectionView) -> Option<Seq<char>> {
    if !v.linked && v.running {
        Some("Connection is running but has no stream"@)
    } else if v.running && !v.channels {
        Some("Connection is running but channels are not available"@)
    } else if v.negotiated && !v.running {
        Some("Negotiation complete but connection not running"@)
    } else {
        None
    }
}

/// Why data may not be sent, if it may not: empty data, more than 65535
/// bytes, no connection, or data that do not look sound (see
/// `network_data_ok`).
pub open spec fn send_error(v: ConnectionView, data: Seq<u8>) -> Option<Seq<char>> {
    if data.len() == 0 {
        Some("Cannot send empty data"@)
    } else if data.len() > 65535 {
        Some("Data packet too large"@)
    } else if !v.linked {
        Some("Not connected to AS/400 system"@)
    } else if !network_data_ok(data) {
        Some("Invalid data for transmission"@)
    } else {
        None
    }
}

/// The state of a connection to an AS/400 host. The program holds the
/// socket, TLS stream, receiving thread and telnet negotiator, and reports
/// here what happens to them.
pub struct AS400Connection {
    host: String,
    port: u16,
    running: bool,
    linked: bool,
    channels: bool,
    negotiation_complete: bool,
    use_tls: bool,
    tls_ca_bundle_path: Option<String>,
    protocol_detector: ProtocolDetector,
    detected_mode: ProtocolMode,
    session_config: SessionConfig,
    last_activity: Option<Instant>,
    reconnect_attempts: u32,
}

impl AS400Connection {
    /// The connection as plain values.
    pub closed spec fn view(&self) -> ConnectionView {
        ConnectionView {
            host: self.host@,
            port: self.port,
            running: self.running,
            linked: self.linked,
            channels: self.channels,
            negotiated: self.negotiation_complete,
            tls: self.use_tls,
            ca_bundle: match self.tls_ca_bundle_path {
                Some(p) => Some(p@),
                None => None,
            },
            mode: self.detected_mode,
            detector_mode: self.protocol_detector.spec_mode(),
            collected: self.protocol_detector.collected(),
            config: self.session_config,
            last_activity: self.last_activity,
            attempts: self.reconnect_attempts,
        }
    }

    /// The detector is well formed.
    pub closed spec fn wf(&self) -> bool {
        self.protocol_detector.wf()
    }

    /// A connection to `host` on `port`, not yet connected: TLS on exactly
    /// for port 992, 5250 mode, default session settings.
    pub fn new(host: String, port: u16) -> (r: Self)
        ensures
            r.wf(),
            r@ == (ConnectionView {
                host: host@,
                port,
                running: false,
                linked: false,
                channels: false,
                negotiated: false,
                tls: port == 992,
                ca_bundle: None,
                mode: ProtocolMode::TN5250,
                detector_mode: ProtocolMode::TN5250,
                collected: Seq::empty(),
                config: SessionConfig::default_spec(),
                last_activity: None,
                attempts: 0,
            }),
    {
        let r = AS400Connection {
            host,
            port,
            running: false,
            linked: false,
            channels: false,
            negotiation_complete: false,
            use_tls: port == 992,
            tls_ca_bundle_path: None,
            protocol_detector: ProtocolDetector::new(),
            detected_mode: ProtocolMode::TN5250,
            session_config: SessionConfig::default(),
            last_activity: None,
            reconnect_attempts: 0,
        };
        assert(r@.collected =~= Seq::<u8>::empty());
        r
    }

    /// Use other session settings.
    pub fn set_session_config(&mut self, config: SessionConfig)
        ensures
            final(self)@ == (ConnectionView { config, ..old(self)@ }),
            old(self).wf() ==> final(self).wf(),
    {
        self.session_config = config;
    }

    /// The session settings.
    pub fn session_config(&self) -> (r: &SessionConfig)
        ensures
            *r == self@.config,
    {
        &self.session_config
    }

    /// Whether the connection has been idle longer than the idle timeout
    /// (whole seconds since the last activity; never before any activity).
    pub fn is_session_idle_timeout(&self) -> (r: bool)
        ensures
            self@.last_activity is None ==> !r,
            self@.last_activity is Some ==> exists|e: u128| r == #[trigger] idle_over(e, self@.config.idle_timeout_secs),
    {
        match &self.last_activity {
            Some(t) => {
                let elapsed = nanos_since(t);
                let r = elapsed / 1_000_000_000 > self.session_config.idle_timeout_secs as u128;
                assert(r == idle_over(elapsed, self@.config.idle_timeout_secs));
                r
            },
            None => false,
        }
    }

    /// Note activity now.
    pub fn update_last_activity(&mut self)
        ensures
            final(self)@.last_activity is Some,
            final(self)@ == (ConnectionView { last_activity: final(self)@.last_activity, ..old(self)@ }),
            old(self).wf() ==> final(self).wf(),
    {
        self.last_activity = Some(instant_now());
    }

    /// The time since the last activity, if any.
    pub fn time_since_last_activity(&self) -> (r: Option<Duration>)
        ensures
            r is Some <==> self@.last_activity is Some,
    {
        match &self.last_activity {
            Some(t) => Some(elapsed_since(t)),
            None => None,
        }
    }

    /// Turn TLS on or off, whatever the port.
    pub fn set_tls(&mut self, enabled: bool)
        ensures
            final(self)@ == (ConnectionView { tls: enabled, ..old(self)@ }),
            old(self).wf() ==> final(self).wf(),
    {
        self.use_tls = enabled;
    }

    /// Whether TLS is on.
    pub fn is_tls_enabled(&self) -> (r: bool)
        ensures
            r == self@.tls,
    {
        self.use_tls
    }

    /// Trust the CA certificates of a bundle file; an empty path means the
    /// system's certificates.
    pub fn set_tls_ca_bundle_path(&mut self, path: String)
        ensures
            final(self)@ == (ConnectionView { ca_bundle: if path@.len() == 0 { None } else { Some(path@) }, ..old(self)@ }),
            old(self).wf() ==> final(self).wf(),
    {
        if path.as_str().unicode_len() == 0 {
            self.tls_ca_bundle_path = None;
        } else {
            self.tls_ca_bundle_path = Some(path);
        }
    }

    /// The CA bundle path, if any.
    pub fn tls_ca_bundle_path(&self) -> (r: Option<&String>)
        ensures
            match r {
                Some(p) => self@.ca_bundle == Some(p@),
                None => self@.ca_bundle is None,
            },
    {
        match &self.tls_ca_bundle_path {
            Some(p) => Some(p),
            None => None,
        }
    }

    /// The stream is up and negotiated: the connection runs with its stream
    /// and channels, active now, with no reconnection attempts pending.
    pub fn mark_established(&mut self)
        ensures
            final(self)@.last_activity is Some,
            final(self)@ == (ConnectionView {
                running: true,
                linked: true,
                channels: true,
                negotiated: true,
                attempts: 0,
                last_activity: final(self)@.last_activity,
                ..old(self)@
            }),
            old(self).wf() ==> final(self).wf(),
    {
        self.linked = true;
        self.channels = true;
        self.running = true;
        self.negotiation_complete = true;
        self.update_last_activity();
        self.reconnect_attempts = 0;
    }

    /// The receiving channel was lost: the connection stops running.
    pub fn mark_channel_lost(&mut self)
        ensures
            final(self)@ == (ConnectionView { running: false, ..old(self)@ }),
            old(self).wf() ==> final(self).wf(),
    {
        self.running = false;
    }

    /// Whether the connection runs with a stream.
    pub fn is_connected(&self) -> (r: bool)
        ensures
            r == (self@.linked && self@.running),
    {
        self.linked && self.running
    }

    /// Whether telnet negotiation completed.
    pub fn is_negotiation_complete(&self) -> (r: bool)
        ensures
            r == self@.negotiated,
    {
        self.negotiation_complete
    }

    /// The protocol mode in use.
    pub fn get_detected_protocol_mode(&self) -> (r: ProtocolMode)
        ensures
            r == self@.mode,
    {
        self.detected_mode
    }

    /// Whether the protocol is decided.
    pub fn is_protocol_detection_complete(&self) -> (r: bool)
        ensures
            r == (self@.detector_mode != ProtocolMode::AutoDetect),
    {
        self.protocol_detector.is_detection_complete()
    }

    /// Decide the protocol by hand.
    pub fn set_protocol_mode(&mut self, mode: ProtocolMode)
        ensures
            final(self)@ == (ConnectionView { mode, detector_mode: mode, ..old(self)@ }),
            old(self).wf() ==> final(self).wf(),
    {
        self.detected_mode = mode;
        self.protocol_detector.set_mode(mode);
    }

    /// The host.
    pub fn get_host(&self) -> (r: &str)
        ensures
            r@ == self@.host,
    {
        self.host.as_str()
    }

    /// The port.
    pub fn get_port(&self) -> (r: u16)
        ensures
            r == self@.port,
    {
        self.port
    }

    /// Whether the state hangs together (see `integrity_error`).
    pub fn validate_connection_integrity(&self) -> (r: Result<(), String>)
        ensures
            match integrity_error(self@) {
                Some(m) => r matches Err(e) && e@ == m,
                None => r is Ok,
            },
    {
        if !self.linked && self.running {
            return Err(str_to_string("Connection is running but has no stream"));
        }
        if self.running && !self.channels {
            return Err(str_to_string("Connection is running but channels are not available"));
        }
        if self.negotiation_complete && !self.running {
            return Err(str_to_string("Negotiation complete but connection not running"));
        }
        Ok(())
    }

    /// Drop the connection's state (see `stopped_view`).
    pub fn safe_cleanup(&mut self)
        ensures
            final(self)@ == stopped_view(old(self)@),
            old(self).wf() ==> final(self).wf(),
    {
        self.running = false;
        self.linked = false;
        self.channels = false;
        self.negotiation_complete = false;
        self.host = String::new();
        self.tls_ca_bundle_path = None;
    }

    /// Disconnect (see `stopped_view`): detection starts over, undecided,
    /// with no activity and no reconnection attempts.
    pub fn disconnect(&mut self)
        requires
            old(self).wf(),
        ensures
            final(self).wf(),
            final(self)@ == (ConnectionView {
                mode: ProtocolMode::AutoDetect,
                detector_mode: ProtocolMode::AutoDetect,
                collected: Seq::empty(),
                last_activity: None,
                attempts: 0,
                ..stopped_view(old(self)@)
            }),
    {
        self.running = false;
        self.negotiation_complete = false;
        self.linked = false;
        self.channels = false;
        self.protocol_detector.reset();
        self.detected_mode = ProtocolMode::AutoDetect;
        self.last_activity = None;
        self.reconnect_attempts = 0;
        self.host = String::new();
        self.tls_ca_bundle_path = None;
        assert(self@.collected =~= Seq::<u8>::empty());
        assert(self@.host =~= Seq::<char>::empty());
    }

    /// Whether data may be sent (see `send_error`).
    pub fn check_send(&self, data: &[u8]) -> (r: Result<(), String>)
        ensures
            match send_error(self@, data@) {
                Some(m) => r matches Err(e) && e@ == m,
                None => r is Ok,
            },
    {
        if data.len() == 0 {
            return Err(str_to_string("Cannot send empty data"));
        }
        if data.len() > 65535 {
            return Err(str_to_string("Data packet too large"));
        }
        if !self.linked {
            return Err(str_to_string("Not connected to AS/400 system"));
        }
        if !validate_network_data(data) {
            return Err(str_to_string("Invalid data for transmission"));
        }
        Ok(())
    }

    /// Take in data the host sent: the connection is active now, the
    /// protocol is detected while undecided (see `received_view`), and the
    /// data the mode in use delivers are returned (see `delivered`).
    pub fn accept_received(&mut self, data: &[u8]) -> (r: Option<Vec<u8>>)
        requires
            old(self).wf(),
        ensures
            final(self).wf(),
            final(self)@.last_activity is Some,
            exists|e: Option<u128>| {
                let v = #[trigger] received_view(old(self)@, e, data@);
                &&& final(self)@ == (ConnectionView { last_activity: final(self)@.last_activity, ..v })
                &&& match delivered(v.mode, data@) {
                    Some(d) => r matches Some(x) && x@ == d,
                    None => r is None,
                }
            },
    {
        self.update_last_activity();
        let ghost mid = self@;
        let ghost mut e: Option<u128> = None;
        if !self.protocol_detector.is_detection_complete() {
            let ghost d0 = self.protocol_detector;
            let mode = self.protocol_detector.detect_protocol(data);
            proof {
                e = choose|e: Option<u128>| #![trigger detect_step(d0.spec_mode(), d0.collected(), e, data@)] {
                    let o = detect_step(d0.spec_mode(), d0.collected(), e, data@);
                    &&& (d0.spec_mode() == ProtocolMode::AutoDetect ==> e is Some)
                    &&& mode == o.0
                    &&& self.protocol_detector.spec_mode() == o.1
                    &&& self.protocol_detector.collected() == o.2
                };
            }
            self.detected_mode = mode;
        }
        assert(self@ == (ConnectionView { last_activity: self@.last_activity, ..received_view(old(self)@, e, data@) }));
        let r = match self.detected_mode {
            ProtocolMode::TN5250 | ProtocolMode::NVT => {
                let clean = extract_5250_data(data);
                if clean.len() > 0 { Some(clean) } else { None }
            },
            ProtocolMode::TN3270 => {
                let clean = extract_3270_data(data);
                if clean.len() > 0 { Some(clean) } else { None }
            },
            ProtocolMode::AutoDetect => None,
        };
        r
    }

    /// Take what polling the receive channel gave (see `receive_outcome`).
    pub fn receive_data_channel(&mut self, polled: ChannelPoll) -> (r: Option<Vec<u8>>)
        requires
            old(self).wf(),
        ensures
            final(self).wf(),
            exists|idle_nanos: u128| #[trigger] receive_outcome(*old(self), *final(self), polled, idle_nanos, r),
    {
        let ghost mut idle_nanos: u128 = 0;
        let ghost pv = polled;
        match &self.last_activity {
            Some(t) => {
                let elapsed = nanos_since(t);
                proof {
                    idle_nanos = elapsed;
                }
                if elapsed / 1_000_000_000 > self.session_config.idle_timeout_secs as u128 {
                    self.disconnect();
                    assert(receive_outcome(*old(self), *self, pv, idle_nanos, None));
                    return None;
                }
            },
            None => {},
        }
        assert(!(old(self)@.last_activity is Some && idle_over(idle_nanos, old(self)@.config.idle_timeout_secs)));
        if !self.channels {
            assert(receive_outcome(*old(self), *self, pv, idle_nanos, None));
            return None;
        }
        match polled {
            ChannelPoll::Data(d) => {
                let r = self.accept_received(d.as_slice());
                assert(receive_outcome(*old(self), *self, pv, idle_nanos, r));
                r
            },
            ChannelPoll::Empty => {
                assert(receive_outcome(*old(self), *self, pv, idle_nanos, None));
                None
            },
            ChannelPoll::Disconnected => {
                self.mark_channel_lost();
                assert(receive_outcome(*old(self), *self, pv, idle_nanos, None));
                None
            },
        }
    }
}

} // verus!
