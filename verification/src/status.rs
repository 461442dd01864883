//! Status reports sent to the server.
//!
//! `StatusData` holds the fields of a STAT frame, `StatusCode` names the
//! event that a report announces.

use vstd::prelude::*;
use crate::messages::ClientMessage;
use crate::wire::{be16, be16_at, be32, be32_at, be64, lemma_big_endian, put_u16, put_u32, put_u64};

verus! {

#[verifier::external_type_specification]
#[verifier::external_body]
pub struct ExInstant(std::time::Instant);

/// The current instant.
///
/// Calls std's `Instant::now`; nothing is claimed of the result.
#[verifier::external_body]
fn now() -> std::time::Instant {
    std::time::Instant::now()
}

/// The time elapsed since `start`.
///
/// Calls std's `Instant::elapsed`. The result depends on the clock, so
/// nothing is claimed of it.
#[verifier::external_body]
fn elapsed_since(start: &std::time::Instant) -> std::time::Duration {
    start.elapsed()
}

/// The whole milliseconds of `d`.
///
/// Calls std's `Duration::as_millis`. A `Duration` is opaque here, so
/// nothing is claimed of the result.
#[verifier::external_body]
fn whole_millis(d: std::time::Duration) -> u128 {
    d.as_millis()
}

/// The fields of a status report. Durations are whole milliseconds.
pub struct StatusView {
    pub crlf: u8,
    pub buffer_size: u32,
    pub fullness: u32,
    pub bytes_received: u64,
    pub sig_strength: u16,
    pub jiffies: u64,
    pub output_buffer_size: u32,
    pub output_buffer_fullness: u32,
    pub elapsed_seconds: u32,
    pub voltage: u16,
    pub elapsed_milliseconds: u32,
    pub timestamp: u64,
    pub error_code: u16,
}

/// The report of a client that has not received or played anything.
pub open spec fn initial_status() -> StatusView {
    StatusView {
        crlf: 0,
        buffer_size: 0,
        fullness: 0,
        bytes_received: 0,
        sig_strength: 0,
        jiffies: 0,
        output_buffer_size: 0,
        output_buffer_fullness: 0,
        elapsed_seconds: 0,
        voltage: 0,
        elapsed_milliseconds: 0,
        timestamp: 0,
        error_code: 0,
    }
}

/// A millisecond count as the 32-bit field of a STAT frame: 0 where it does
/// not fit.
pub open spec fn millis_field(ms: u64) -> u32 {
    if ms <= u32::MAX {
        ms as u32
    } else {
        0
    }
}

/// `v` after `ms` milliseconds of playback of the current track were
/// recorded, as milliseconds and as whole seconds, each cut to 32 bits.
pub open spec fn with_play_time(v: StatusView, ms: u64) -> StatusView {
    StatusView { elapsed_milliseconds: ms as u32, elapsed_seconds: (ms / 1000) as u32, ..v }
}

/// `v` with the playback of the current track forgotten: no time played and
/// an empty output buffer.
pub open spec fn without_playback(v: StatusView) -> StatusView {
    StatusView {
        elapsed_milliseconds: 0,
        elapsed_seconds: 0,
        output_buffer_size: 0,
        output_buffer_fullness: 0,
        ..v
    }
}

/// The bytes of a STAT frame that follow the event code.
pub open spec fn status_fields(v: StatusView) -> Seq<u8> {
    seq![v.crlf] + be16(0) + be32(v.buffer_size) + be32(v.fullness) + be64(v.bytes_received)
        + be16(v.sig_strength) + be32(millis_field(v.jiffies)) + be32(v.output_buffer_size)
        + be32(v.output_buffer_fullness) + be32(v.elapsed_seconds) + be16(v.voltage) + be32(
        v.elapsed_milliseconds,
    ) + be32(millis_field(v.timestamp)) + be16(v.error_code)
}

/// Structured status information sent to LMS in a STAT frame.
#[derive(Debug)]
pub struct StatusData {
    crlf: u8,
    buffer_size: u32,
    fullness: u32,
    bytes_received: u64,
    sig_strength: u16,
    jiffies: u64,
    output_buffer_size: u32,
    output_buffer_fullness: u32,
    elapsed_seconds: u32,
    voltage: u16,
    elapsed_milliseconds: u32,
    timestamp: u64,
    error_code: u16,
    // Not sent to the server.
    start: std::time::Instant,
}

impl StatusData {
    /// The instant the report's clock started from; jiffies count from it.
    pub closed spec fn clock_start(&self) -> std::time::Instant {
        self.start
    }
}

impl View for StatusData {
    type V = StatusView;

    closed spec fn view(&self) -> StatusView {
        StatusView {
            crlf: self.crlf,
            buffer_size: self.buffer_size,
            fullness: self.fullness,
            bytes_received: self.bytes_received,
            sig_strength: self.sig_strength,
            jiffies: self.jiffies,
            output_buffer_size: self.output_buffer_size,
            output_buffer_fullness: self.output_buffer_fullness,
            elapsed_seconds: self.elapsed_seconds,
            voltage: self.voltage,
            elapsed_milliseconds: self.elapsed_milliseconds,
            timestamp: self.timestamp,
            error_code: self.error_code,
        }
    }
}

impl Clone for StatusData {
    /// A copy of every field, the clock's start included.
    fn clone(&self) -> (r: Self)
        ensures
            r@ == self@,
            r.clock_start() == self.clock_start(),
    {
        self.snapshot()
    }
}

impl Default for StatusData {
    /// A zeroed report whose clock starts now.
    fn default() -> (r: Self)
        ensures
            r@ == initial_status(),
    {
        StatusData {
            crlf: 0,
            buffer_size: 0,
            fullness: 0,
            bytes_received: 0,
            sig_strength: 0,
            jiffies: 0,
            output_buffer_size: 0,
            output_buffer_fullness: 0,
            elapsed_seconds: 0,
            voltage: 0,
            elapsed_milliseconds: 0,
            timestamp: 0,
            error_code: 0,
            start: now(),
        }
    }
}

impl StatusData {
    /// Counts `num_crlf` more header line ends, wrapping at 256.
    pub fn add_crlf(&mut self, num_crlf: u8)
        ensures
            final(self).clock_start() == old(self).clock_start(),
            final(self)@ == (StatusView {
                crlf: ((old(self)@.crlf + num_crlf) % 256) as u8,
                ..old(self)@
            }),
    {
        self.crlf = self.crlf.wrapping_add(num_crlf);
    }

    pub fn set_fullness(&mut self, fullness: u32)
        ensures
            final(self).clock_start() == old(self).clock_start(),
            final(self)@ == (StatusView { fullness, ..old(self)@ }),
    {
        self.fullness = fullness;
    }

    /// Counts `bytes_received` more received bytes, wrapping at 2^64.
    pub fn add_bytes_received(&mut self, bytes_received: u64)
        ensures
            final(self).clock_start() == old(self).clock_start(),
            final(self)@ == (StatusView {
                bytes_received: ((old(self)@.bytes_received + bytes_received) % 0x1_0000_0000_0000_0000) as u64,
                ..old(self)@
            }),
    {
        self.bytes_received = self.bytes_received.wrapping_add(bytes_received);
    }

    /// Sets the time since the client started, in milliseconds.
    pub fn set_jiffies(&mut self, jiffies: u64)
        ensures
            final(self).clock_start() == old(self).clock_start(),
            final(self)@ == (StatusView { jiffies, ..old(self)@ }),
    {
        self.jiffies = jiffies;
    }

    pub fn set_output_buffer_size(&mut self, output_buffer_size: u32)
        ensures
            final(self).clock_start() == old(self).clock_start(),
            final(self)@ == (StatusView { output_buffer_size, ..old(self)@ }),
    {
        self.output_buffer_size = output_buffer_size;
    }

    pub fn set_output_buffer_fullness(&mut self, output_buffer_fullness: u32)
        ensures
            final(self).clock_start() == old(self).clock_start(),
            final(self)@ == (StatusView { output_buffer_fullness, ..old(self)@ }),
    {
        self.output_buffer_fullness = output_buffer_fullness;
    }

    pub fn set_elapsed_seconds(&mut self, elapsed_seconds: u32)
        ensures
            final(self).clock_start() == old(self).clock_start(),
            final(self)@ == (StatusView { elapsed_seconds, ..old(self)@ }),
    {
        self.elapsed_seconds = elapsed_seconds;
    }

    pub fn set_elapsed_milli_seconds(&mut self, elapsed_milli_seconds: u32)
        ensures
            final(self).clock_start() == old(self).clock_start(),
            final(self)@ == (StatusView { elapsed_milliseconds: elapsed_milli_seconds, ..old(self)@ }),
    {
        self.elapsed_milliseconds = elapsed_milli_seconds;
    }

    pub fn set_buffer_size(&mut self, size: u32)
        ensures
            final(self).clock_start() == old(self).clock_start(),
            final(self)@ == (StatusView { buffer_size: size, ..old(self)@ }),
    {
        self.buffer_size = size;
    }

    /// Counts one read of `n` bytes from the stream: the bytes are added to
    /// those received (wrapping at 2^64), the fill of the last read is `n`
    /// cut to 32 bits, and the buffer size is `buffer_size`.
    pub fn count_read(&mut self, n: usize, buffer_size: u32)
        ensures
            final(self).clock_start() == old(self).clock_start(),
            final(self)@ == (StatusView {
                bytes_received: ((old(self)@.bytes_received + n) % 0x1_0000_0000_0000_0000) as u64,
                buffer_size,
                fullness: n as u32,
                ..old(self)@
            }),
    {
        self.add_bytes_received(n as u64);
        self.set_buffer_size(buffer_size);
        self.set_fullness(n as u32);
    }

    /// Sets the server timestamp echoed back in reports, in milliseconds.
    pub fn set_timestamp(&mut self, timestamp: u64)
        ensures
            final(self).clock_start() == old(self).clock_start(),
            final(self)@ == (StatusView { timestamp, ..old(self)@ }),
    {
        self.timestamp = timestamp;
    }

    /// Records `play_time` milliseconds of playback of the current track, as
    /// milliseconds and as whole seconds, each cut to its low 32 bits.
    pub fn set_play_time(&mut self, play_time: u64)
        ensures
            final(self).clock_start() == old(self).clock_start(),
            final(self)@ == (StatusView {
                elapsed_milliseconds: play_time as u32,
                elapsed_seconds: (play_time / 1000) as u32,
                ..old(self)@
            }),
    {
        self.set_elapsed_milli_seconds(play_time as u32);
        self.set_elapsed_seconds((play_time / 1000) as u32);
    }

    /// Forgets the playback of the current track: no time played and an
    /// empty output buffer.
    pub fn clear_playback(&mut self)
        ensures
            final(self).clock_start() == old(self).clock_start(),
            final(self)@ == (StatusView {
                elapsed_milliseconds: 0,
                elapsed_seconds: 0,
                output_buffer_size: 0,
                output_buffer_fullness: 0,
                ..old(self)@
            }),
    {
        self.set_elapsed_milli_seconds(0);
        self.set_elapsed_seconds(0);
        self.set_output_buffer_size(0);
        self.set_output_buffer_fullness(0);
    }

    pub fn bytes_received(&self) -> (r: u64)
        ensures
            r == self@.bytes_received,
    {
        self.bytes_received
    }

    /// The time since the client started, in milliseconds, as last set.
    pub fn jiffies(&self) -> (r: u64)
        ensures
            r == self@.jiffies,
    {
        self.jiffies
    }

    /// Create a status message for sending to the server, with the time
    /// since the client started taken from the clock.
    pub fn make_status_message(&mut self, msgtype: StatusCode) -> (m: ClientMessage)
        ensures
            final(self).clock_start() == old(self).clock_start(),
            final(self)@ == (StatusView { jiffies: final(self)@.jiffies, ..old(self)@ }),
            m matches ClientMessage::Stat { event_code, stat_data } && event_code@
                == status_code_text(msgtype) && stat_data@ == final(self)@
                && stat_data.clock_start() == final(self).clock_start(),
    {
        let elapsed = whole_millis(elapsed_since(&self.start));
        let jiffies: u64 = if elapsed > u64::MAX as u128 {
            u64::MAX
        } else {
            elapsed as u64
        };
        self.make_status_message_at(msgtype, jiffies)
    }

    /// Create a status message for sending to the server, `jiffies` being
    /// the time since the client started, in milliseconds.
    pub fn make_status_message_at(&mut self, msgtype: StatusCode, jiffies: u64) -> (m:
        ClientMessage)
        ensures
            final(self).clock_start() == old(self).clock_start(),
            final(self)@ == (StatusView { jiffies, ..old(self)@ }),
            m matches ClientMessage::Stat { event_code, stat_data } && event_code@
                == status_code_text(msgtype) && stat_data@ == final(self)@
                && stat_data.clock_start() == final(self).clock_start(),
    {
        self.set_jiffies(jiffies);
        ClientMessage::Stat { event_code: msgtype.to_string(), stat_data: self.snapshot() }
    }

    fn snapshot(&self) -> (r: StatusData)
        ensures
            r@ == self@,
            r.clock_start() == self.clock_start(),
    {
        StatusData {
            crlf: self.crlf,
            buffer_size: self.buffer_size,
            fullness: self.fullness,
            bytes_received: self.bytes_received,
            sig_strength: self.sig_strength,
            jiffies: self.jiffies,
            output_buffer_size: self.output_buffer_size,
            output_buffer_fullness: self.output_buffer_fullness,
            elapsed_seconds: self.elapsed_seconds,
            voltage: self.voltage,
            elapsed_milliseconds: self.elapsed_milliseconds,
            timestamp: self.timestamp,
            error_code: self.error_code,
            start: self.start,
        }
    }

    /// Appends the fields of a STAT frame that follow the event code.
    pub fn put_fields(&self, frame: &mut Vec<u8>)
        ensures
            final(frame)@ == old(frame)@ + status_fields(self@),
    {
        frame.push(self.crlf);
        put_u16(frame, 0);
        put_u32(frame, self.buffer_size);
        put_u32(frame, self.fullness);
        put_u64(frame, self.bytes_received);
        put_u16(frame, self.sig_strength);
        put_u32(frame, millis_as_field(self.jiffies));
        put_u32(frame, self.output_buffer_size);
        put_u32(frame, self.output_buffer_fullness);
        put_u32(frame, self.elapsed_seconds);
        put_u16(frame, self.voltage);
        put_u32(frame, self.elapsed_milliseconds);
        put_u32(frame, millis_as_field(self.timestamp));
        put_u16(frame, self.error_code);
        assert(final(frame)@ =~= old(frame)@ + status_fields(self@));
    }
}

fn millis_as_field(ms: u64) -> (r: u32)
    ensures
        r == millis_field(ms),
{
    if ms <= u32::MAX as u64 {
        ms as u32
    } else {
        0
    }
}

/// Codes used to identify the status event being sent.
#[derive(Clone, Copy, Debug, PartialEq, Eq, Structural)]
pub enum StatusCode {
    Connect,
    DecoderReady,
    StreamEstablished,
    Flushed,
    HeadersReceived,
    BufferThreshold,
    NotSupported,
    OutputUnderrun,
    Pause,
    Resume,
    TrackStarted,
    Timer,
    Underrun,
}

/// The letter that follows `STM` in the event code of `c`.
pub open spec fn status_letter(c: StatusCode) -> char {
    match c {
        StatusCode::Connect => 'c',
        StatusCode::DecoderReady => 'd',
        StatusCode::StreamEstablished => 'e',
        StatusCode::Flushed => 'f',
        StatusCode::HeadersReceived => 'h',
        StatusCode::BufferThreshold => 'l',
        StatusCode::NotSupported => 'n',
        StatusCode::OutputUnderrun => 'o',
        StatusCode::Pause => 'p',
        StatusCode::Resume => 'r',
        StatusCode::TrackStarted => 's',
        StatusCode::Timer => 't',
        StatusCode::Underrun => 'u',
    }
}

/// The event code of `c` as sent in a STAT frame.
pub open spec fn status_code_text(c: StatusCode) -> Seq<char> {
    seq!['S', 'T', 'M', status_letter(c)]
}

impl StatusCode {
    /// The event code sent in a STAT frame.
    pub fn to_string(&self) -> (r: String)
        ensures
            r@ == status_code_text(*self),
    {
        match self {
            StatusCode::Connect => {
                proof { reveal_strlit("STMc"); }
                String::from_str("STMc")
            },
            StatusCode::DecoderReady => {
                proof { reveal_strlit("STMd"); }
                String::from_str("STMd")
            },
            StatusCode::StreamEstablished => {
                proof { reveal_strlit("STMe"); }
                String::from_str("STMe")
            },
            StatusCode::Flushed => {
                proof { reveal_strlit("STMf"); }
                String::from_str("STMf")
            },
            StatusCode::HeadersReceived => {
                proof { reveal_strlit("STMh"); }
                String::from_str("STMh")
            },
            StatusCode::BufferThreshold => {
                proof { reveal_strlit("STMl"); }
                String::from_str("STMl")
            },
            StatusCode::NotSupported => {
                proof { reveal_strlit("STMn"); }
                String::from_str("STMn")
            },
            StatusCode::OutputUnderrun => {
                proof { reveal_strlit("STMo"); }
                String::from_str("STMo")
            },
            StatusCode::Pause => {
                proof { reveal_strlit("STMp"); }
                String::from_str("STMp")
            },
            StatusCode::Resume => {
                proof { reveal_strlit("STMr"); }
                String::from_str("STMr")
            },
            StatusCode::TrackStarted => {
                proof { reveal_strlit("STMs"); }
                String::from_str("STMs")
            },
            StatusCode::Timer => {
                proof { reveal_strlit("STMt"); }
                String::from_str("STMt")
            },
            StatusCode::Underrun => {
                proof { reveal_strlit("STMu"); }
                String::from_str("STMu")
            },
        }
    }
}


/// Distinct events have distinct event codes.
pub proof fn lemma_status_codes_distinct(a: StatusCode, b: StatusCode)
    ensures
        (status_code_text(a) == status_code_text(b)) == (a == b),
{
    if status_code_text(a) == status_code_text(b) {
        assert(status_code_text(a)[3] == status_code_text(b)[3]);
    }
}

/// The stream buffer size reported for a stream command's threshold of
/// `threshold_kib` KiB, in bytes, saturating at the largest 32-bit value.
pub fn stream_buffer_size(threshold_kib: u32) -> (r: u32)
    ensures
        r == if threshold_kib * 1024 <= u32::MAX {
            threshold_kib * 1024
        } else {
            u32::MAX as int
        },
{
    if threshold_kib <= u32::MAX / 1024 {
        threshold_kib * 1024
    } else {
        u32::MAX
    }
}

/// The event codes, as the Slim Protocol names them.
pub proof fn lemma_status_code_texts(c: StatusCode)
    ensures
        status_code_text(c) == match c {
            StatusCode::Connect => "STMc"@,
            StatusCode::DecoderReady => "STMd"@,
            StatusCode::StreamEstablished => "STMe"@,
            StatusCode::Flushed => "STMf"@,
            StatusCode::HeadersReceived => "STMh"@,
            StatusCode::BufferThreshold => "STMl"@,
            StatusCode::NotSupported => "STMn"@,
            StatusCode::OutputUnderrun => "STMo"@,
            StatusCode::Pause => "STMp"@,
            StatusCode::Resume => "STMr"@,
            StatusCode::TrackStarted => "STMs"@,
            StatusCode::Timer => "STMt"@,
            StatusCode::Underrun => "STMu"@,
        },
{
    reveal_strlit("STMc");
    reveal_strlit("STMd");
    reveal_strlit("STMe");
    reveal_strlit("STMf");
    reveal_strlit("STMh");
    reveal_strlit("STMl");
    reveal_strlit("STMn");
    reveal_strlit("STMo");
    reveal_strlit("STMp");
    reveal_strlit("STMr");
    reveal_strlit("STMs");
    reveal_strlit("STMt");
    reveal_strlit("STMu");
    assert(status_code_text(c) =~= match c {
        StatusCode::Connect => "STMc"@,
        StatusCode::DecoderReady => "STMd"@,
        StatusCode::StreamEstablished => "STMe"@,
        StatusCode::Flushed => "STMf"@,
        StatusCode::HeadersReceived => "STMh"@,
        StatusCode::BufferThreshold => "STMl"@,
        StatusCode::NotSupported => "STMn"@,
        StatusCode::OutputUnderrun => "STMo"@,
        StatusCode::Pause => "STMp"@,
        StatusCode::Resume => "STMr"@,
        StatusCode::TrackStarted => "STMs"@,
        StatusCode::Timer => "STMt"@,
        StatusCode::Underrun => "STMu"@,
    });
}

/// The layout of a status report after its event code, 49 bytes, numbers
/// most significant byte first: the header line ends (1 byte), 2 zero
/// bytes, the buffer size and fullness (4 each), the bytes received (8),
/// the signal strength (2), the jiffies (4), the output buffer size and
/// fullness and the elapsed seconds (4 each), the voltage (2), the elapsed
/// milliseconds (4), the server timestamp (4) and the error code (2). The
/// jiffies and the timestamp are sent as 0 when they do not fit in 32 bits.
pub proof fn lemma_status_layout(v: StatusView)
    ensures
        ({
            let f = status_fields(v);
            &&& f.len() == 49
            &&& f[0] == v.crlf
            &&& be16_at(f, 1) == 0
            &&& be32_at(f, 3) == v.buffer_size
            &&& be32_at(f, 7) == v.fullness
            &&& be32_at(f, 11) * 0x1_0000_0000 + be32_at(f, 15) == v.bytes_received
            &&& be16_at(f, 19) == v.sig_strength
            &&& be32_at(f, 21) == if v.jiffies < 0x1_0000_0000 {
                v.jiffies as int
            } else {
                0
            }
            &&& be32_at(f, 25) == v.output_buffer_size
            &&& be32_at(f, 29) == v.output_buffer_fullness
            &&& be32_at(f, 33) == v.elapsed_seconds
            &&& be16_at(f, 37) == v.voltage
            &&& be32_at(f, 39) == v.elapsed_milliseconds
            &&& be32_at(f, 43) == if v.timestamp < 0x1_0000_0000 {
                v.timestamp as int
            } else {
                0
            }
            &&& be16_at(f, 47) == v.error_code
        }),
{
    let f = status_fields(v);
    lemma_big_endian(0, v.buffer_size, v.bytes_received);
    lemma_big_endian(v.sig_strength, v.fullness, 0);
    lemma_big_endian(v.voltage, millis_field(v.jiffies), 0);
    lemma_big_endian(v.error_code, v.output_buffer_size, 0);
    lemma_big_endian(0, v.output_buffer_fullness, 0);
    lemma_big_endian(0, v.elapsed_seconds, 0);
    lemma_big_endian(0, v.elapsed_milliseconds, 0);
    lemma_big_endian(0, millis_field(v.timestamp), 0);
    assert(f.subrange(1, 3) =~= be16(0));
    assert(f.subrange(3, 7) =~= be32(v.buffer_size));
    assert(f.subrange(7, 11) =~= be32(v.fullness));
    assert(f.subrange(11, 19) =~= be64(v.bytes_received));
    assert(f.subrange(19, 21) =~= be16(v.sig_strength));
    assert(f.subrange(21, 25) =~= be32(millis_field(v.jiffies)));
    assert(f.subrange(25, 29) =~= be32(v.output_buffer_size));
    assert(f.subrange(29, 33) =~= be32(v.output_buffer_fullness));
    assert(f.subrange(33, 37) =~= be32(v.elapsed_seconds));
    assert(f.subrange(37, 39) =~= be16(v.voltage));
    assert(f.subrange(39, 43) =~= be32(v.elapsed_milliseconds));
    assert(f.subrange(43, 47) =~= be32(millis_field(v.timestamp)));
    assert(f.subrange(47, 49) =~= be16(v.error_code));
    let b = be64(v.bytes_received);
    assert(be32_at(f, 11) == be32_at(b, 0) && be32_at(f, 15) == be32_at(b, 4));
}

} // verus!
