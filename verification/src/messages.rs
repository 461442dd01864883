//! Messages exchanged with the server and their frame layouts.

use vstd::prelude::*;
use vstd::utf8::{decode_utf8, encode_utf8, is_ascii_chars, is_ascii_chars_encode_utf8, valid_utf8};
use crate::status::{StatusCode, StatusData, status_code_text, status_fields};
use crate::text::{
    decimal, decimal_string, latin1, latin1_string, push_char, utf8_lossy, utf8_lossy_string,
    utf8_to_string,
};
use crate::wire::{
    be16, be16_at, be32, be32_at, be64, get_u16, get_u32, lemma_big_endian, put_u16, put_u32, put_u64,
};

verus! {

/// Messages sent from the client to the server.
#[derive(Debug)]
pub enum ClientMessage {
    Helo {
        device_id: u8,
        revision: u8,
        mac: [u8; 6],
        uuid: [u8; 16],
        wlan_channel_list: u16,
        bytes_received: u64,
        language: [char; 2],
        capabilities: String,
    },
    Stat { event_code: String, stat_data: StatusData },
    Bye(u8),
    Name(String),
}

/// The four-byte operation code that starts the frame of `m`.
pub open spec fn client_opcode(m: ClientMessage) -> Seq<u8> {
    match m {
        ClientMessage::Helo { .. } => seq!['H' as u8, 'E' as u8, 'L' as u8, 'O' as u8],
        ClientMessage::Stat { .. } => seq!['S' as u8, 'T' as u8, 'A' as u8, 'T' as u8],
        ClientMessage::Bye(_) => seq!['B' as u8, 'Y' as u8, 'E' as u8, '!' as u8],
        ClientMessage::Name(_) => seq!['S' as u8, 'E' as u8, 'T' as u8, 'D' as u8],
    }
}

/// The payload of the frame of `m`.
pub open spec fn client_payload(m: ClientMessage) -> Seq<u8> {
    match m {
        ClientMessage::Helo {
            device_id,
            revision,
            mac,
            uuid,
            wlan_channel_list,
            bytes_received,
            language,
            capabilities,
        } => seq![device_id, revision] + mac@ + uuid@ + be16(wlan_channel_list) + be64(
            bytes_received,
        ) + seq![language@[0] as u8, language@[1] as u8] + encode_utf8(capabilities@),
        ClientMessage::Stat { event_code, stat_data } => encode_utf8(event_code@) + status_fields(
            stat_data@,
        ),
        ClientMessage::Bye(v) => seq![v],
        ClientMessage::Name(name) => seq![0u8] + encode_utf8(name@),
    }
}

/// The whole frame of `m`: operation code, payload length as a big-endian
/// 32-bit number (taken modulo 2^32), payload.
pub open spec fn client_frame(m: ClientMessage) -> Seq<u8> {
    client_opcode(m) + be32(client_payload(m).len() as u32) + client_payload(m)
}

fn put_str(buf: &mut Vec<u8>, s: &str)
    ensures
        final(buf)@ == old(buf)@ + encode_utf8(s@),
{
    let bytes = s.as_bytes();
    let mut i: usize = 0;
    while i < bytes.len()
        invariant
            i <= bytes@.len(),
            bytes@ == encode_utf8(s@),
            buf@ == old(buf)@ + bytes@.take(i as int),
        decreases bytes@.len() - i,
    {
        buf.push(bytes[i]);
        i = i + 1;
        assert(bytes@.take(i as int) =~= bytes@.take(i - 1).push(bytes@[i - 1]));
    }
    assert(bytes@.take(i as int) =~= bytes@);
}

impl ClientMessage {
    /// The frame that carries this message to the server.
    pub fn to_bytes(&self) -> (r: Vec<u8>)
        ensures
            r@ == client_frame(*self),
    {
        let mut frame: Vec<u8> = Vec::new();
        let mut msg: Vec<u8> = Vec::new();
        match self {
            ClientMessage::Helo {
                device_id,
                revision,
                mac,
                uuid,
                wlan_channel_list,
                bytes_received,
                language,
                capabilities,
            } => {
                msg.push('H' as u8);
                msg.push('E' as u8);
                msg.push('L' as u8);
                msg.push('O' as u8);
                frame.push(*device_id);
                frame.push(*revision);
                let mut i: usize = 0;
                while i < 6
                    invariant
                        i <= 6,
                        frame@ == seq![*device_id, *revision] + mac@.take(i as int),
                    decreases 6 - i,
                {
                    frame.push(mac[i]);
                    i = i + 1;
                    assert(mac@.take(i as int) =~= mac@.take(i - 1).push(mac@[i - 1]));
                }
                assert(mac@.take(6) =~= mac@);
                let ghost before_uuid = frame@;
                let mut j: usize = 0;
                while j < 16
                    invariant
                        j <= 16,
                        frame@ == before_uuid + uuid@.take(j as int),
                    decreases 16 - j,
                {
                    frame.push(uuid[j]);
                    j = j + 1;
                    assert(uuid@.take(j as int) =~= uuid@.take(j - 1).push(uuid@[j - 1]));
                }
                assert(uuid@.take(16) =~= uuid@);
                put_u16(&mut frame, *wlan_channel_list);
                put_u64(&mut frame, *bytes_received);
                frame.push(language[0] as u8);
                frame.push(language[1] as u8);
                put_str(&mut frame, capabilities.as_str());
            },
            ClientMessage::Bye(val) => {
                msg.push('B' as u8);
                msg.push('Y' as u8);
                msg.push('E' as u8);
                msg.push('!' as u8);
                frame.push(*val);
            },
            ClientMessage::Stat { event_code, stat_data } => {
                msg.push('S' as u8);
                msg.push('T' as u8);
                msg.push('A' as u8);
                msg.push('T' as u8);
                put_str(&mut frame, event_code.as_str());
                stat_data.put_fields(&mut frame);
            },
            ClientMessage::Name(name) => {
                msg.push('S' as u8);
                msg.push('E' as u8);
                msg.push('T' as u8);
                msg.push('D' as u8);
                frame.push(0);
                put_str(&mut frame, name.as_str());
            },
        }
        assert(frame@ =~= client_payload(*self));
        assert(msg@ =~= client_opcode(*self));
        put_u32(&mut msg, frame.len() as u32);
        let mut i: usize = 0;
        let ghost head = msg@;
        while i < frame.len()
            invariant
                i <= frame@.len(),
                msg@ == head + frame@.take(i as int),
            decreases frame@.len() - i,
        {
            msg.push(frame[i]);
            i = i + 1;
            assert(frame@.take(i as int) =~= frame@.take(i - 1).push(frame@[i - 1]));
        }
        assert(frame@.take(i as int) =~= frame@);
        msg
    }
}


/// When playback starts after a stream begins.
#[derive(Debug, Clone, Copy, PartialEq, Eq, Structural)]
pub enum AutoStart {
    /// Wait for the server to start playback.
    Off,
    Auto,
    Direct,
    AutoDirect,
}

#[derive(Debug, Clone, Copy, PartialEq, Eq, Structural)]
pub enum Format {
    Pcm,
    Mp3,
    Flac,
    Wma,
    Ogg,
    Aac,
    Alac,
}

#[derive(Debug, Clone, Copy, PartialEq, Eq, Structural)]
pub enum PcmSampleSize {
    Eight,
    Sixteen,
    Twenty,
    ThirtyTwo,
    SelfDescribing,
}

#[derive(Debug, Clone, Copy, PartialEq, Eq, Structural)]
pub enum PcmSampleRate {
    Rate(u32),
    SelfDescribing,
}

#[derive(Debug, Clone, Copy, PartialEq, Eq, Structural)]
pub enum PcmChannels {
    Mono,
    Stereo,
    SelfDescribing,
}

#[derive(Debug, Clone, Copy, PartialEq, Eq, Structural)]
pub enum PcmEndian {
    Big,
    Little,
    SelfDescribing,
}

#[derive(Debug, Clone, Copy, PartialEq, Eq, Structural)]
pub enum SpdifEnable {
    Auto,
    On,
    Off,
}

#[derive(Debug, Clone, Copy, PartialEq, Eq, Structural)]
pub enum TransType {
    /// No transition between tracks.
    Off,
    Crossfade,
    FadeIn,
    FadeOut,
    FadeInOut,
}

/// Flag bit: loop the stream forever.
pub const INF_LOOP: u8 = 0b1000_0000;

/// Flag bit: do not restart the decoder.
pub const NO_RESTART_DECODER: u8 = 0b0100_0000;

/// Flag bit: invert the polarity of the left channel.
pub const INVERT_POLARITY_LEFT: u8 = 0b0000_0001;

/// Flag bit: invert the polarity of the right channel.
pub const INVERT_POLARITY_RIGHT: u8 = 0b0000_0010;

/// The bits that no stream flag uses.
pub open spec fn unknown_flag_bits(b: u8) -> u8 {
    b & 0b0011_1100u8
}

/// The flags of a stream start command: a set of the four flag bits above.
#[derive(Debug, Clone, Copy, PartialEq, Eq, Structural)]
pub struct StreamFlags {
    bits: u8,
}

impl StreamFlags {
    pub closed spec fn spec_bits(self) -> u8 {
        self.bits
    }

    /// The flags whose bits are `bits`, when every set bit is a flag bit.
    pub fn from_bits(bits: u8) -> (r: Option<StreamFlags>)
        ensures
            r is Some <==> unknown_flag_bits(bits) == 0,
            r matches Some(f) ==> f.spec_bits() == bits,
    {
        if bits & 0b0011_1100u8 == 0 {
            Some(StreamFlags { bits })
        } else {
            None
        }
    }

    /// No flag set.
    pub fn empty() -> (r: StreamFlags)
        ensures
            r.spec_bits() == 0,
    {
        StreamFlags { bits: 0 }
    }

    /// The set bits.
    pub fn bits(&self) -> (r: u8)
        ensures
            r == self.spec_bits(),
    {
        self.bits
    }
}

/// The flags of `b`, none where `b` has a bit set that no flag uses.
pub open spec fn flags_or_empty(b: u8) -> u8 {
    if unknown_flag_bits(b) == 0 {
        b
    } else {
        0
    }
}

/// Messages sent from the server to the client.
///
/// Durations are whole milliseconds, addresses IPv4 addresses as 32-bit
/// numbers (first octet most significant), and gains 16.16 fixed-point
/// numbers.
#[derive(Debug)]
pub enum ServerMessage {
    Serv { ip_address: u32, sync_group_id: Option<String> },
    Status(u64),
    Stream {
        autostart: AutoStart,
        format: Format,
        pcmsamplesize: PcmSampleSize,
        pcmsamplerate: PcmSampleRate,
        pcmchannels: PcmChannels,
        pcmendian: PcmEndian,
        threshold: u32,
        spdif_enable: SpdifEnable,
        trans_period: u64,
        trans_type: TransType,
        flags: StreamFlags,
        output_threshold: u64,
        replay_gain: u32,
        server_port: u16,
        server_ip: u32,
        http_headers: Option<String>,
    },
    Gain(u32, u32),
    Enable(bool, bool),
    Flush,
    Stop,
    Pause(u64),
    Unpause(u64),
    Queryname,
    Setname(String),
    DisableDac,
    Skip(u64),
    Unrecognised(String),
    Error,
}

/// The messages of one read from the server.
pub type ServerMessages = Vec<ServerMessage>;

/// The fields of a stream start command.
pub struct StreamStart {
    pub autostart: AutoStart,
    pub format: Format,
    pub pcmsamplesize: PcmSampleSize,
    pub pcmsamplerate: PcmSampleRate,
    pub pcmchannels: PcmChannels,
    pub pcmendian: PcmEndian,
    pub threshold: u32,
    pub spdif_enable: SpdifEnable,
    pub trans_period: u64,
    pub trans_type: TransType,
    pub flags: u8,
    pub output_threshold: u64,
    pub replay_gain: u32,
    pub server_port: u16,
    pub server_ip: u32,
    pub http_headers: Option<Seq<char>>,
}

/// A server message with its strings as character sequences.
pub enum ServerMessageView {
    Serv { ip_address: u32, sync_group_id: Option<Seq<char>> },
    Status(u64),
    Stream(StreamStart),
    Gain(u32, u32),
    Enable(bool, bool),
    Flush,
    Stop,
    Pause(u64),
    Unpause(u64),
    Queryname,
    Setname(Seq<char>),
    DisableDac,
    Skip(u64),
    Unrecognised(Seq<char>),
    Error,
}

pub open spec fn opt_string_view(s: Option<String>) -> Option<Seq<char>> {
    match s {
        Some(t) => Some(t@),
        None => None,
    }
}

impl View for ServerMessage {
    type V = ServerMessageView;

    open spec fn view(&self) -> ServerMessageView {
        match *self {
            ServerMessage::Serv { ip_address, sync_group_id } => ServerMessageView::Serv {
                ip_address,
                sync_group_id: opt_string_view(sync_group_id),
            },
            ServerMessage::Status(t) => ServerMessageView::Status(t),
            ServerMessage::Stream {
                autostart,
                format,
                pcmsamplesize,
                pcmsamplerate,
                pcmchannels,
                pcmendian,
                threshold,
                spdif_enable,
                trans_period,
                trans_type,
                flags,
                output_threshold,
                replay_gain,
                server_port,
                server_ip,
                http_headers,
            } => ServerMessageView::Stream(
                StreamStart {
                    autostart,
                    format,
                    pcmsamplesize,
                    pcmsamplerate,
                    pcmchannels,
                    pcmendian,
                    threshold,
                    spdif_enable,
                    trans_period,
                    trans_type,
                    flags: flags.spec_bits(),
                    output_threshold,
                    replay_gain,
                    server_port,
                    server_ip,
                    http_headers: opt_string_view(http_headers),
                },
            ),
            ServerMessage::Gain(l, r) => ServerMessageView::Gain(l, r),
            ServerMessage::Enable(s, d) => ServerMessageView::Enable(s, d),
            ServerMessage::Flush => ServerMessageView::Flush,
            ServerMessage::Stop => ServerMessageView::Stop,
            ServerMessage::Pause(t) => ServerMessageView::Pause(t),
            ServerMessage::Unpause(t) => ServerMessageView::Unpause(t),
            ServerMessage::Queryname => ServerMessageView::Queryname,
            ServerMessage::Setname(n) => ServerMessageView::Setname(n@),
            ServerMessage::DisableDac => ServerMessageView::DisableDac,
            ServerMessage::Skip(t) => ServerMessageView::Skip(t),
            ServerMessage::Unrecognised(s) => ServerMessageView::Unrecognised(s@),
            ServerMessage::Error => ServerMessageView::Error,
        }
    }
}

/// Whether the four bytes of `f` at `at` are the characters `a`, `b`, `c`,
/// `d`.
pub open spec fn has_chars(f: Seq<u8>, at: int, a: char, b: char, c: char, d: char) -> bool {
    f[at] == a as u8 && f[at + 1] == b as u8 && f[at + 2] == c as u8 && f[at + 3] == d as u8
}

/// The characters of `b` when it is well-formed UTF-8, else none.
pub open spec fn utf8_or_empty(b: Seq<u8>) -> Seq<char> {
    if valid_utf8(b) {
        decode_utf8(b)
    } else {
        seq![]
    }
}

pub open spec fn autostart_code(c: u8) -> Option<AutoStart> {
    if c == '0' as u8 {
        Some(AutoStart::Off)
    } else if c == '1' as u8 {
        Some(AutoStart::Auto)
    } else if c == '2' as u8 {
        Some(AutoStart::Direct)
    } else if c == '3' as u8 {
        Some(AutoStart::AutoDirect)
    } else {
        None
    }
}

pub open spec fn format_code(c: u8) -> Option<Format> {
    if c == 'p' as u8 {
        Some(Format::Pcm)
    } else if c == 'm' as u8 {
        Some(Format::Mp3)
    } else if c == 'f' as u8 {
        Some(Format::Flac)
    } else if c == 'w' as u8 {
        Some(Format::Wma)
    } else if c == 'o' as u8 {
        Some(Format::Ogg)
    } else if c == 'a' as u8 {
        Some(Format::Aac)
    } else if c == 'l' as u8 {
        Some(Format::Alac)
    } else {
        None
    }
}

pub open spec fn sample_size_code(c: u8) -> Option<PcmSampleSize> {
    if c == '0' as u8 {
        Some(PcmSampleSize::Eight)
    } else if c == '1' as u8 {
        Some(PcmSampleSize::Sixteen)
    } else if c == '2' as u8 {
        Some(PcmSampleSize::Twenty)
    } else if c == '3' as u8 {
        Some(PcmSampleSize::ThirtyTwo)
    } else if c == '?' as u8 {
        Some(PcmSampleSize::SelfDescribing)
    } else {
        None
    }
}

pub open spec fn sample_rate_code(c: u8) -> Option<PcmSampleRate> {
    if c == '0' as u8 {
        Some(PcmSampleRate::Rate(11_000))
    } else if c == '1' as u8 {
        Some(PcmSampleRate::Rate(22_000))
    } else if c == '2' as u8 {
        Some(PcmSampleRate::Rate(32_000))
    } else if c == '3' as u8 {
        Some(PcmSampleRate::Rate(44_100))
    } else if c == '4' as u8 {
        Some(PcmSampleRate::Rate(48_000))
    } else if c == '5' as u8 {
        Some(PcmSampleRate::Rate(8_000))
    } else if c == '6' as u8 {
        Some(PcmSampleRate::Rate(12_000))
    } else if c == '7' as u8 {
        Some(PcmSampleRate::Rate(16_000))
    } else if c == '8' as u8 {
        Some(PcmSampleRate::Rate(24_000))
    } else if c == '9' as u8 {
        Some(PcmSampleRate::Rate(96_000))
    } else if c == '?' as u8 {
        Some(PcmSampleRate::SelfDescribing)
    } else {
        None
    }
}

pub open spec fn channels_code(c: u8) -> Option<PcmChannels> {
    if c == '1' as u8 {
        Some(PcmChannels::Mono)
    } else if c == '2' as u8 {
        Some(PcmChannels::Stereo)
    } else if c == '?' as u8 {
        Some(PcmChannels::SelfDescribing)
    } else {
        None
    }
}

pub open spec fn endian_code(c: u8) -> Option<PcmEndian> {
    if c == '0' as u8 {
        Some(PcmEndian::Big)
    } else if c == '1' as u8 {
        Some(PcmEndian::Little)
    } else if c == '?' as u8 {
        Some(PcmEndian::SelfDescribing)
    } else {
        None
    }
}

/// S/PDIF setting, sent as a number rather than a digit character.
pub open spec fn spdif_code(c: u8) -> Option<SpdifEnable> {
    if c == 0 {
        Some(SpdifEnable::Auto)
    } else if c == 1 {
        Some(SpdifEnable::On)
    } else if c == 2 {
        Some(SpdifEnable::Off)
    } else {
        None
    }
}

pub open spec fn trans_type_code(c: u8) -> Option<TransType> {
    if c == '0' as u8 {
        Some(TransType::Off)
    } else if c == '1' as u8 {
        Some(TransType::Crossfade)
    } else if c == '2' as u8 {
        Some(TransType::FadeIn)
    } else if c == '3' as u8 {
        Some(TransType::FadeOut)
    } else if c == '4' as u8 {
        Some(TransType::FadeInOut)
    } else {
        None
    }
}

/// A stream start command, `r` being its bytes after the command letter
/// (at least 23 of them).
pub open spec fn parse_stream_start(r: Seq<u8>) -> ServerMessageView {
    if autostart_code(r[0]) is None || format_code(r[1]) is None || sample_size_code(r[2]) is None
        || sample_rate_code(r[3]) is None || channels_code(r[4]) is None || endian_code(r[5]) is None
        || spdif_code(r[7]) is None || trans_type_code(r[9]) is None {
        ServerMessageView::Error
    } else {
        ServerMessageView::Stream(
            StreamStart {
                autostart: autostart_code(r[0]).unwrap(),
                format: format_code(r[1]).unwrap(),
                pcmsamplesize: sample_size_code(r[2]).unwrap(),
                pcmsamplerate: sample_rate_code(r[3]).unwrap(),
                pcmchannels: channels_code(r[4]).unwrap(),
                pcmendian: endian_code(r[5]).unwrap(),
                threshold: (r[6] * 1024) as u32,
                spdif_enable: spdif_code(r[7]).unwrap(),
                trans_period: (r[8] * 1000) as u64,
                trans_type: trans_type_code(r[9]).unwrap(),
                flags: flags_or_empty(r[10]),
                output_threshold: (r[11] * 10) as u64,
                replay_gain: be32_at(r, 13) as u32,
                server_port: be16_at(r, 17) as u16,
                server_ip: be32_at(r, 19) as u32,
                http_headers: if r.len() > 23 {
                    Some(utf8_lossy(r.skip(23)))
                } else {
                    None
                },
            },
        )
    }
}

/// A `strm` command, `b` being the bytes after the operation code.
pub open spec fn parse_strm(b: Seq<u8>) -> ServerMessageView {
    if b.len() < 24 {
        ServerMessageView::Error
    } else {
        let c = b[0];
        let r = b.skip(1);
        if c == 't' as u8 {
            ServerMessageView::Status(be32_at(r, 14) as u64)
        } else if c == 's' as u8 {
            parse_stream_start(r)
        } else if c == 'q' as u8 {
            ServerMessageView::Stop
        } else if c == 'f' as u8 {
            ServerMessageView::Flush
        } else if c == 'p' as u8 {
            ServerMessageView::Pause(be32_at(r, 13) as u64)
        } else if c == 'u' as u8 {
            ServerMessageView::Unpause(be32_at(r, 13) as u64)
        } else if c == 'a' as u8 {
            ServerMessageView::Skip(be32_at(r, 13) as u64)
        } else {
            ServerMessageView::Unrecognised(seq!['s', 't', 'r', 'm', '_', c as char])
        }
    }
}

/// A `serv` command, `b` being the bytes after the operation code.
pub open spec fn parse_serv(b: Seq<u8>) -> ServerMessageView {
    if b.len() < 4 {
        ServerMessageView::Error
    } else {
        ServerMessageView::Serv {
            ip_address: be32_at(b, 0) as u32,
            sync_group_id: if b.len() > 4 {
                Some(latin1(b.skip(4)))
            } else {
                None
            },
        }
    }
}

/// A `setd` command, `b` being the bytes after the operation code.
pub open spec fn parse_setd(b: Seq<u8>) -> ServerMessageView {
    if b.len() == 0 {
        ServerMessageView::Error
    } else if b[0] == 0 {
        if b.len() == 1 {
            ServerMessageView::Queryname
        } else {
            ServerMessageView::Setname(utf8_or_empty(b.subrange(1, b.len() - 1)))
        }
    } else if b[0] == 4 {
        ServerMessageView::DisableDac
    } else {
        ServerMessageView::Unrecognised("This SETD is unused: "@ + decimal(b[0] as nat))
    }
}

/// The message that the frame `f` (at least four bytes) carries.
pub open spec fn parse_frame(f: Seq<u8>) -> ServerMessageView {
    let b = f.skip(4);
    if has_chars(f, 0, 's', 'e', 'r', 'v') {
        parse_serv(b)
    } else if has_chars(f, 0, 's', 't', 'r', 'm') {
        parse_strm(b)
    } else if has_chars(f, 0, 'a', 'u', 'd', 'e') {
        if b.len() < 2 {
            ServerMessageView::Error
        } else {
            ServerMessageView::Enable(b[0] != 0, b[1] != 0)
        }
    } else if has_chars(f, 0, 'a', 'u', 'd', 'g') {
        if b.len() < 18 {
            ServerMessageView::Error
        } else {
            ServerMessageView::Gain(be32_at(b, 10) as u32, be32_at(b, 14) as u32)
        }
    } else if has_chars(f, 0, 's', 'e', 't', 'd') {
        parse_setd(b)
    } else {
        ServerMessageView::Unrecognised(utf8_or_empty(f.take(4)))
    }
}

fn is_chars(f: &[u8], at: usize, a: char, b: char, c: char, d: char) -> (r: bool)
    requires
        at + 4 <= f@.len(),
    ensures
        r == has_chars(f@, at as int, a, b, c, d),
{
    f[at] == a as u8 && f[at + 1] == b as u8 && f[at + 2] == c as u8 && f[at + 3] == d as u8
}

fn autostart_of(c: u8) -> (r: Option<AutoStart>)
    ensures
        r == autostart_code(c),
{
    if c == '0' as u8 {
        Some(AutoStart::Off)
    } else if c == '1' as u8 {
        Some(AutoStart::Auto)
    } else if c == '2' as u8 {
        Some(AutoStart::Direct)
    } else if c == '3' as u8 {
        Some(AutoStart::AutoDirect)
    } else {
        None
    }
}

fn format_of(c: u8) -> (r: Option<Format>)
    ensures
        r == format_code(c),
{
    if c == 'p' as u8 {
        Some(Format::Pcm)
    } else if c == 'm' as u8 {
        Some(Format::Mp3)
    } else if c == 'f' as u8 {
        Some(Format::Flac)
    } else if c == 'w' as u8 {
        Some(Format::Wma)
    } else if c == 'o' as u8 {
        Some(Format::Ogg)
    } else if c == 'a' as u8 {
        Some(Format::Aac)
    } else if c == 'l' as u8 {
        Some(Format::Alac)
    } else {
        None
    }
}

fn sample_size_of(c: u8) -> (r: Option<PcmSampleSize>)
    ensures
        r == sample_size_code(c),
{
    if c == '0' as u8 {
        Some(PcmSampleSize::Eight)
    } else if c == '1' as u8 {
        Some(PcmSampleSize::Sixteen)
    } else if c == '2' as u8 {
        Some(PcmSampleSize::Twenty)
    } else if c == '3' as u8 {
        Some(PcmSampleSize::ThirtyTwo)
    } else if c == '?' as u8 {
        Some(PcmSampleSize::SelfDescribing)
    } else {
        None
    }
}

fn sample_rate_of(c: u8) -> (r: Option<PcmSampleRate>)
    ensures
        r == sample_rate_code(c),
{
    if c == '0' as u8 {
        Some(PcmSampleRate::Rate(11_000))
    } else if c == '1' as u8 {
        Some(PcmSampleRate::Rate(22_000))
    } else if c == '2' as u8 {
        Some(PcmSampleRate::Rate(32_000))
    } else if c == '3' as u8 {
        Some(PcmSampleRate::Rate(44_100))
    } else if c == '4' as u8 {
        Some(PcmSampleRate::Rate(48_000))
    } else if c == '5' as u8 {
        Some(PcmSampleRate::Rate(8_000))
    } else if c == '6' as u8 {
        Some(PcmSampleRate::Rate(12_000))
    } else if c == '7' as u8 {
        Some(PcmSampleRate::Rate(16_000))
    } else if c == '8' as u8 {
        Some(PcmSampleRate::Rate(24_000))
    } else if c == '9' as u8 {
        Some(PcmSampleRate::Rate(96_000))
    } else if c == '?' as u8 {
        Some(PcmSampleRate::SelfDescribing)
    } else {
        None
    }
}

fn channels_of(c: u8) -> (r: Option<PcmChannels>)
    ensures
        r == channels_code(c),
{
    if c == '1' as u8 {
        Some(PcmChannels::Mono)
    } else if c == '2' as u8 {
        Some(PcmChannels::Stereo)
    } else if c == '?' as u8 {
        Some(PcmChannels::SelfDescribing)
    } else {
        None
    }
}

fn endian_of(c: u8) -> (r: Option<PcmEndian>)
    ensures
        r == endian_code(c),
{
    if c == '0' as u8 {
        Some(PcmEndian::Big)
    } else if c == '1' as u8 {
        Some(PcmEndian::Little)
    } else if c == '?' as u8 {
        Some(PcmEndian::SelfDescribing)
    } else {
        None
    }
}

fn spdif_of(c: u8) -> (r: Option<SpdifEnable>)
    ensures
        r == spdif_code(c),
{
    if c == 0 {
        Some(SpdifEnable::Auto)
    } else if c == 1 {
        Some(SpdifEnable::On)
    } else if c == 2 {
        Some(SpdifEnable::Off)
    } else {
        None
    }
}

fn trans_type_of(c: u8) -> (r: Option<TransType>)
    ensures
        r == trans_type_code(c),
{
    if c == '0' as u8 {
        Some(TransType::Off)
    } else if c == '1' as u8 {
        Some(TransType::Crossfade)
    } else if c == '2' as u8 {
        Some(TransType::FadeIn)
    } else if c == '3' as u8 {
        Some(TransType::FadeOut)
    } else if c == '4' as u8 {
        Some(TransType::FadeInOut)
    } else {
        None
    }
}

fn stream_start(r: &[u8]) -> (m: ServerMessage)
    requires
        r@.len() >= 23,
    ensures
        m@ == parse_stream_start(r@),
{
    let autostart = match autostart_of(r[0]) {
        Some(v) => v,
        None => return ServerMessage::Error,
    };
    let format = match format_of(r[1]) {
        Some(v) => v,
        None => return ServerMessage::Error,
    };
    let pcmsamplesize = match sample_size_of(r[2]) {
        Some(v) => v,
        None => return ServerMessage::Error,
    };
    let pcmsamplerate = match sample_rate_of(r[3]) {
        Some(v) => v,
        None => return ServerMessage::Error,
    };
    let pcmchannels = match channels_of(r[4]) {
        Some(v) => v,
        None => return ServerMessage::Error,
    };
    let pcmendian = match endian_of(r[5]) {
        Some(v) => v,
        None => return ServerMessage::Error,
    };
    let threshold = r[6] as u32 * 1024u32;
    let spdif_enable = match spdif_of(r[7]) {
        Some(v) => v,
        None => return ServerMessage::Error,
    };
    let trans_period = r[8] as u64 * 1000;
    let trans_type = match trans_type_of(r[9]) {
        Some(v) => v,
        None => return ServerMessage::Error,
    };
    let flags = match StreamFlags::from_bits(r[10]) {
        Some(f) => f,
        None => StreamFlags::empty(),
    };
    let output_threshold = r[11] as u64 * 10;
    let replay_gain = get_u32(r, 13);
    let server_port = get_u16(r, 17);
    let server_ip = get_u32(r, 19);
    let http_headers = if r.len() > 23 {
        let rest = &r[23..r.len()];
        Some(utf8_lossy_string(rest))
    } else {
        None
    };
    ServerMessage::Stream {
        autostart,
        format,
        pcmsamplesize,
        pcmsamplerate,
        pcmchannels,
        pcmendian,
        threshold,
        spdif_enable,
        trans_period,
        trans_type,
        flags,
        output_threshold,
        replay_gain,
        server_port,
        server_ip,
        http_headers,
    }
}

fn strm(b: &[u8]) -> (m: ServerMessage)
    ensures
        m@ == parse_strm(b@),
{
    if b.len() < 24 {
        return ServerMessage::Error;
    }
    let c = b[0];
    let r = &b[1..b.len()];
    assert(r@ =~= b@.skip(1));
    if c == 't' as u8 {
        ServerMessage::Status(get_u32(r, 14) as u64)
    } else if c == 's' as u8 {
        stream_start(r)
    } else if c == 'q' as u8 {
        ServerMessage::Stop
    } else if c == 'f' as u8 {
        ServerMessage::Flush
    } else if c == 'p' as u8 {
        ServerMessage::Pause(get_u32(r, 13) as u64)
    } else if c == 'u' as u8 {
        ServerMessage::Unpause(get_u32(r, 13) as u64)
    } else if c == 'a' as u8 {
        ServerMessage::Skip(get_u32(r, 13) as u64)
    } else {
        let mut s = String::new();
        push_char(&mut s, 's');
        push_char(&mut s, 't');
        push_char(&mut s, 'r');
        push_char(&mut s, 'm');
        push_char(&mut s, '_');
        push_char(&mut s, c as char);
        assert(s@ =~= seq!['s', 't', 'r', 'm', '_', c as char]);
        ServerMessage::Unrecognised(s)
    }
}

fn serv(b: &[u8]) -> (m: ServerMessage)
    ensures
        m@ == parse_serv(b@),
{
    if b.len() < 4 {
        return ServerMessage::Error;
    }
    let ip_address = get_u32(b, 0);
    let sync_group_id = if b.len() > 4 {
        let rest = &b[4..b.len()];
        assert(rest@ =~= b@.skip(4));
        Some(latin1_string(rest))
    } else {
        None
    };
    ServerMessage::Serv { ip_address, sync_group_id }
}

fn setd(b: &[u8]) -> (m: ServerMessage)
    ensures
        m@ == parse_setd(b@),
{
    if b.len() == 0 {
        return ServerMessage::Error;
    }
    if b[0] == 0 {
        if b.len() == 1 {
            ServerMessage::Queryname
        } else {
            let name_bytes = &b[1..b.len() - 1];
            let name = match utf8_to_string(name_bytes) {
                Some(s) => s,
                None => String::new(),
            };
            ServerMessage::Setname(name)
        }
    } else if b[0] == 4 {
        ServerMessage::DisableDac
    } else {
        let mut s = String::from_str("This SETD is unused: ");
        let digits = decimal_string(b[0] as u32);
        s.append(digits.as_str());
        ServerMessage::Unrecognised(s)
    }
}

impl ServerMessage {
    /// The message that the frame `frame` carries: a four-byte operation
    /// code and its arguments.
    pub fn parse(frame: &[u8]) -> (m: ServerMessage)
        requires
            frame@.len() >= 4,
        ensures
            m@ == parse_frame(frame@),
    {
        let b = &frame[4..frame.len()];
        assert(b@ =~= frame@.skip(4));
        if is_chars(frame, 0, 's', 'e', 'r', 'v') {
            serv(b)
        } else if is_chars(frame, 0, 's', 't', 'r', 'm') {
            strm(b)
        } else if is_chars(frame, 0, 'a', 'u', 'd', 'e') {
            if b.len() < 2 {
                ServerMessage::Error
            } else {
                ServerMessage::Enable(b[0] != 0, b[1] != 0)
            }
        } else if is_chars(frame, 0, 'a', 'u', 'd', 'g') {
            if b.len() < 18 {
                ServerMessage::Error
            } else {
                ServerMessage::Gain(get_u32(b, 10), get_u32(b, 14))
            }
        } else if is_chars(frame, 0, 's', 'e', 't', 'd') {
            setd(b)
        } else {
            let op = &frame[0..4];
            assert(op@ =~= frame@.take(4));
            let text = match utf8_to_string(op) {
                Some(s) => s,
                None => String::new(),
            };
            ServerMessage::Unrecognised(text)
        }
    }
}


/// Every client frame is its operation code, the length of its payload as a
/// big-endian 32-bit number, and the payload: a reader that takes the
/// length field at its word finds exactly the payload.
pub proof fn lemma_client_frame_layout(m: ClientMessage)
    requires
        client_payload(m).len() <= u32::MAX,
    ensures
        client_frame(m).len() == 8 + client_payload(m).len(),
        client_frame(m).take(4) == client_opcode(m),
        be32_at(client_frame(m), 4) == client_payload(m).len(),
        client_frame(m).skip(8) == client_payload(m),
{
    let f = client_frame(m);
    let n = client_payload(m).len() as u32;
    assert(f.take(4) =~= client_opcode(m));
    assert(f.skip(8) =~= client_payload(m));
    assert(f[4] == be32(n)[0] && f[5] == be32(n)[1] && f[6] == be32(n)[2] && f[7] == be32(n)[3]);
    assert(be32_at(f, 4) == n) by (nonlinear_arith)
        requires
            f[4] == (n / 0x100_0000) as u8,
            f[5] == ((n / 0x1_0000) % 0x100) as u8,
            f[6] == ((n / 0x100) % 0x100) as u8,
            f[7] == (n % 0x100) as u8,
    ;
}

/// Every STAT frame is 61 bytes long: the operation code, the length field,
/// the four-character event code and 49 bytes of fields.
pub proof fn lemma_stat_frame_len(code: StatusCode, m: ClientMessage)
    requires
        m matches ClientMessage::Stat { event_code, .. } && event_code@ == status_code_text(code),
    ensures
        client_payload(m).len() == 53,
        client_frame(m).len() == 61,
{
    let t = status_code_text(code);
    assert(is_ascii_chars(t));
    is_ascii_chars_encode_utf8(t);
}

/// A stream-start command: `strm`, the letter `s`, then one byte each for
/// autostart, format, sample size, sample rate, channels and endianness
/// (characters), the buffer threshold in KiB, S/PDIF (a number), the
/// transition period in seconds and type (a character), the flags, the
/// output threshold in tenths of a second, a reserved byte, the replay gain,
/// the port and the IPv4 address of the stream server (big-endian), and any
/// HTTP headers. It parses to a stream exactly when every code byte is one
/// of the codes listed here, and otherwise it is an error; a stream has the
/// fields that the codes and numbers give.
pub proof fn lemma_stream_start_command(f: Seq<u8>)
    requires
        f.len() >= 28,
        f[0] == 's' as u8 && f[1] == 't' as u8 && f[2] == 'r' as u8 && f[3] == 'm' as u8,
        f[4] == 's' as u8,
    ensures
        ({
            let r = f.skip(5);
            let valid = (r[0] == '0' as u8 || r[0] == '1' as u8 || r[0] == '2' as u8 || r[0]
                == '3' as u8) && (r[1] == 'p' as u8 || r[1] == 'm' as u8 || r[1] == 'f' as u8
                || r[1] == 'w' as u8 || r[1] == 'o' as u8 || r[1] == 'a' as u8 || r[1]
                == 'l' as u8) && (r[2] == '0' as u8 || r[2] == '1' as u8 || r[2] == '2' as u8
                || r[2] == '3' as u8 || r[2] == '?' as u8) && (('0' as u8 <= r[3] <= '9' as u8)
                || r[3] == '?' as u8) && (r[4] == '1' as u8 || r[4] == '2' as u8 || r[4]
                == '?' as u8) && (r[5] == '0' as u8 || r[5] == '1' as u8 || r[5] == '?' as u8)
                && r[7] <= 2 && ('0' as u8 <= r[9] <= '4' as u8);
            &&& (parse_frame(f) is Stream) == valid
            &&& !valid ==> parse_frame(f) is Error
            &&& parse_frame(f) matches ServerMessageView::Stream(st) ==> {
                &&& st.autostart == if r[0] == '0' as u8 {
                    AutoStart::Off
                } else if r[0] == '1' as u8 {
                    AutoStart::Auto
                } else if r[0] == '2' as u8 {
                    AutoStart::Direct
                } else {
                    AutoStart::AutoDirect
                }
                &&& st.format == if r[1] == 'p' as u8 {
                    Format::Pcm
                } else if r[1] == 'm' as u8 {
                    Format::Mp3
                } else if r[1] == 'f' as u8 {
                    Format::Flac
                } else if r[1] == 'w' as u8 {
                    Format::Wma
                } else if r[1] == 'o' as u8 {
                    Format::Ogg
                } else if r[1] == 'a' as u8 {
                    Format::Aac
                } else {
                    Format::Alac
                }
                &&& st.pcmsamplesize == if r[2] == '0' as u8 {
                    PcmSampleSize::Eight
                } else if r[2] == '1' as u8 {
                    PcmSampleSize::Sixteen
                } else if r[2] == '2' as u8 {
                    PcmSampleSize::Twenty
                } else if r[2] == '3' as u8 {
                    PcmSampleSize::ThirtyTwo
                } else {
                    PcmSampleSize::SelfDescribing
                }
                &&& st.pcmsamplerate == if r[3] == '0' as u8 {
                    PcmSampleRate::Rate(11_000)
                } else if r[3] == '1' as u8 {
                    PcmSampleRate::Rate(22_000)
                } else if r[3] == '2' as u8 {
                    PcmSampleRate::Rate(32_000)
                } else if r[3] == '3' as u8 {
                    PcmSampleRate::Rate(44_100)
                } else if r[3] == '4' as u8 {
                    PcmSampleRate::Rate(48_000)
                } else if r[3] == '5' as u8 {
                    PcmSampleRate::Rate(8_000)
                } else if r[3] == '6' as u8 {
                    PcmSampleRate::Rate(12_000)
                } else if r[3] == '7' as u8 {
                    PcmSampleRate::Rate(16_000)
                } else if r[3] == '8' as u8 {
                    PcmSampleRate::Rate(24_000)
                } else if r[3] == '9' as u8 {
                    PcmSampleRate::Rate(96_000)
                } else {
                    PcmSampleRate::SelfDescribing
                }
                &&& st.pcmchannels == if r[4] == '1' as u8 {
                    PcmChannels::Mono
                } else if r[4] == '2' as u8 {
                    PcmChannels::Stereo
                } else {
                    PcmChannels::SelfDescribing
                }
                &&& st.pcmendian == if r[5] == '0' as u8 {
                    PcmEndian::Big
                } else if r[5] == '1' as u8 {
                    PcmEndian::Little
                } else {
                    PcmEndian::SelfDescribing
                }
                &&& st.threshold == r[6] * 1024
                &&& st.spdif_enable == if r[7] == 0 {
                    SpdifEnable::Auto
                } else if r[7] == 1 {
                    SpdifEnable::On
                } else {
                    SpdifEnable::Off
                }
                &&& st.trans_period == r[8] * 1000
                &&& st.trans_type == if r[9] == '0' as u8 {
                    TransType::Off
                } else if r[9] == '1' as u8 {
                    TransType::Crossfade
                } else if r[9] == '2' as u8 {
                    TransType::FadeIn
                } else if r[9] == '3' as u8 {
                    TransType::FadeOut
                } else {
                    TransType::FadeInOut
                }
                &&& st.output_threshold == r[11] * 10
                &&& st.replay_gain == r[13] * 0x100_0000 + r[14] * 0x1_0000 + r[15] * 0x100 + r[16]
                &&& st.server_port == r[17] * 0x100 + r[18]
                &&& st.server_ip == r[19] * 0x100_0000 + r[20] * 0x1_0000 + r[21] * 0x100 + r[22]
                &&& (st.http_headers is Some) == (f.len() > 28)
            }
        }),
{
    assert(f.skip(4).skip(1) =~= f.skip(5));
    assert(f.skip(4)[0] == f[4]);
    let r = f.skip(5);
    assert(has_chars(f, 0, 's', 't', 'r', 'm'));
    assert(!has_chars(f, 0, 's', 'e', 'r', 'v'));
    assert(parse_frame(f) == parse_strm(f.skip(4)));
    assert(parse_frame(f) == parse_stream_start(r));
    assert(r[13] * 0x100_0000 + r[14] * 0x1_0000 + r[15] * 0x100 + r[16] <= u32::MAX);
    assert(r[19] * 0x100_0000 + r[20] * 0x1_0000 + r[21] * 0x100 + r[22] <= u32::MAX);
    assert(r[17] * 0x100 + r[18] <= u16::MAX);
}

/// The other server commands, by their four-letter operation code:
/// - `serv`: the new server's IPv4 address in four bytes, most significant
///   first, then a sync group in single-byte characters if anything follows;
/// - `aude`: whether S/PDIF and the DAC are enabled, one nonzero byte each;
/// - `audg`: ten ignored bytes, then the left and right gains, four bytes
///   each, most significant first;
/// - `setd`: `0` asks for the name, or sets the name (UTF-8 without its last
///   byte); `4` disables the DAC;
/// - `strm` with its command letter: `q` stops, `f` flushes, `p`, `u` and
///   `a` pause, resume and skip with the milliseconds at bytes 18 to 21,
///   `t` asks for status with the timestamp at bytes 19 to 22;
/// - anything shorter than a command needs is an error, and an unknown
///   operation code is unrecognised.
pub proof fn lemma_server_commands(f: Seq<u8>)
    requires
        f.len() >= 4,
    ensures
        (f[0] == 's' as u8 && f[1] == 'e' as u8 && f[2] == 'r' as u8 && f[3] == 'v' as u8) ==> parse_frame(f) == if f.len() < 8 {
            ServerMessageView::Error
        } else {
            ServerMessageView::Serv {
                ip_address: (f[4] * 0x100_0000 + f[5] * 0x1_0000 + f[6] * 0x100 + f[7]) as u32,
                sync_group_id: if f.len() > 8 {
                    Some(Seq::new((f.len() - 8) as nat, |i: int| f[8 + i] as char))
                } else {
                    None
                },
            }
        },
        (f[0] == 'a' as u8 && f[1] == 'u' as u8 && f[2] == 'd' as u8 && f[3] == 'e' as u8) ==> parse_frame(f) == if f.len() < 6 {
            ServerMessageView::Error
        } else {
            ServerMessageView::Enable(f[4] != 0, f[5] != 0)
        },
        (f[0] == 'a' as u8 && f[1] == 'u' as u8 && f[2] == 'd' as u8 && f[3] == 'g' as u8) ==> parse_frame(f) == if f.len() < 22 {
            ServerMessageView::Error
        } else {
            ServerMessageView::Gain(
                (f[14] * 0x100_0000 + f[15] * 0x1_0000 + f[16] * 0x100 + f[17]) as u32,
                (f[18] * 0x100_0000 + f[19] * 0x1_0000 + f[20] * 0x100 + f[21]) as u32,
            )
        },
        (f[0] == 's' as u8 && f[1] == 'e' as u8 && f[2] == 't' as u8 && f[3] == 'd' as u8) ==> parse_frame(f) == if f.len() == 4 {
            ServerMessageView::Error
        } else if f[4] == 0 && f.len() == 5 {
            ServerMessageView::Queryname
        } else if f[4] == 0 {
            ServerMessageView::Setname(
                if valid_utf8(f.subrange(5, f.len() - 1)) {
                    decode_utf8(f.subrange(5, f.len() - 1))
                } else {
                    seq![]
                },
            )
        } else if f[4] == 4 {
            ServerMessageView::DisableDac
        } else {
            ServerMessageView::Unrecognised("This SETD is unused: "@ + decimal(f[4] as nat))
        },
        (f[0] == 's' as u8 && f[1] == 't' as u8 && f[2] == 'r' as u8 && f[3] == 'm' as u8) ==> {
            &&& f.len() < 28 ==> parse_frame(f) == ServerMessageView::Error
            &&& f.len() >= 28 && f[4] == 'q' as u8 ==> parse_frame(f) == ServerMessageView::Stop
            &&& f.len() >= 28 && f[4] == 'f' as u8 ==> parse_frame(f) == ServerMessageView::Flush
            &&& f.len() >= 28 && f[4] == 'p' as u8 ==> parse_frame(f) == ServerMessageView::Pause(
                (f[18] * 0x100_0000 + f[19] * 0x1_0000 + f[20] * 0x100 + f[21]) as u64,
            )
            &&& f.len() >= 28 && f[4] == 'u' as u8 ==> parse_frame(f) == ServerMessageView::Unpause(
                (f[18] * 0x100_0000 + f[19] * 0x1_0000 + f[20] * 0x100 + f[21]) as u64,
            )
            &&& f.len() >= 28 && f[4] == 'a' as u8 ==> parse_frame(f) == ServerMessageView::Skip(
                (f[18] * 0x100_0000 + f[19] * 0x1_0000 + f[20] * 0x100 + f[21]) as u64,
            )
            &&& f.len() >= 28 && f[4] == 't' as u8 ==> parse_frame(f) == ServerMessageView::Status(
                (f[19] * 0x100_0000 + f[20] * 0x1_0000 + f[21] * 0x100 + f[22]) as u64,
            )
            &&& f.len() >= 28 && !(f[4] == 's' as u8 || f[4] == 'q' as u8 || f[4] == 'f' as u8
                || f[4] == 'p' as u8 || f[4] == 'u' as u8 || f[4] == 'a' as u8 || f[4]
                == 't' as u8) ==> parse_frame(f) == ServerMessageView::Unrecognised(
                seq!['s', 't', 'r', 'm', '_', f[4] as char],
            )
        },
        !((f[0] == 's' as u8 && f[1] == 'e' as u8 && f[2] == 'r' as u8 && f[3] == 'v' as u8) || (
        f[0] == 's' as u8 && f[1] == 't' as u8 && f[2] == 'r' as u8 && f[3] == 'm' as u8) || (f[0]
            == 'a' as u8 && f[1] == 'u' as u8 && f[2] == 'd' as u8 && (f[3] == 'e' as u8 || f[3]
            == 'g' as u8)) || (f[0] == 's' as u8 && f[1] == 'e' as u8 && f[2] == 't' as u8 && f[3]
            == 'd' as u8)) ==> parse_frame(f) == ServerMessageView::Unrecognised(
            if valid_utf8(f.take(4)) {
                decode_utf8(f.take(4))
            } else {
                seq![]
            },
        ),
{
    let b = f.skip(4);
    assert(b.len() == f.len() - 4);
    assert(forall|i: int| 0 <= i < b.len() ==> b[i] == f[4 + i]);
    if f.len() > 8 {
        assert(b.skip(4) =~= f.skip(8));
        assert(latin1(b.skip(4)) =~= Seq::new((f.len() - 8) as nat, |i: int| f[8 + i] as char));
    }
    if f.len() > 5 {
        assert(b.subrange(1, b.len() - 1) =~= f.subrange(5, f.len() - 1));
    }
    assert(f[4] * 0x100_0000 + f[5] * 0x1_0000 + f[6] * 0x100 + f[7] < 0x1_0000_0000) by (nonlinear_arith)
        requires f[4] < 256 && f[5] < 256 && f[6] < 256 && f[7] < 256;
    if f.len() >= 28 {
        let r = b.skip(1);
        assert(forall|i: int| 0 <= i < r.len() ==> r[i] == f[5 + i]);
    }
}

/// The frames the client sends: a four-letter operation code, the length of
/// what follows as four bytes, most significant first, then
/// - `HELO`: the device id, the revision, the MAC address (6 bytes), the
///   UUID (16), the WLAN channel list (2), the bytes received (8), the two
///   language characters as bytes, and the capabilities in UTF-8;
/// - `STAT`: the event code in UTF-8, then the status fields;
/// - `BYE!`: its one byte;
/// - `SETD`: a zero byte, then the name in UTF-8.
pub proof fn lemma_client_messages(m: ClientMessage)
    requires
        client_payload(m).len() <= u32::MAX,
    ensures
        ({
            let f = client_frame(m);
            &&& f.len() >= 8
            &&& be32_at(f, 4) == f.len() - 8
            &&& match m {
                ClientMessage::Helo {
                    device_id,
                    revision,
                    mac,
                    uuid,
                    wlan_channel_list,
                    bytes_received,
                    language,
                    capabilities,
                } => {
                    &&& f.take(4) == seq!['H' as u8, 'E' as u8, 'L' as u8, 'O' as u8]
                    &&& f.len() == 44 + encode_utf8(capabilities@).len()
                    &&& f[8] == device_id && f[9] == revision
                    &&& f.subrange(10, 16) == mac@
                    &&& f.subrange(16, 32) == uuid@
                    &&& be16_at(f, 32) == wlan_channel_list
                    &&& be32_at(f, 34) * 0x1_0000_0000 + be32_at(f, 38) == bytes_received
                    &&& f[42] == language@[0] as u8 && f[43] == language@[1] as u8
                    &&& f.skip(44) == encode_utf8(capabilities@)
                },
                ClientMessage::Stat { event_code, stat_data } => {
                    let e = encode_utf8(event_code@);
                    &&& f.take(4) == seq!['S' as u8, 'T' as u8, 'A' as u8, 'T' as u8]
                    &&& f.subrange(8, 8 + e.len() as int) == e
                    &&& f.skip(8 + e.len() as int) == status_fields(stat_data@)
                },
                ClientMessage::Bye(v) => {
                    &&& f.take(4) == seq!['B' as u8, 'Y' as u8, 'E' as u8, '!' as u8]
                    &&& f.len() == 9 && f[8] == v
                },
                ClientMessage::Name(n) => {
                    &&& f.take(4) == seq!['S' as u8, 'E' as u8, 'T' as u8, 'D' as u8]
                    &&& f[8] == 0
                    &&& f.skip(9) == encode_utf8(n@)
                },
            }
        }),
{
    lemma_client_frame_layout(m);
    let f = client_frame(m);
    let p = client_payload(m);
    assert(f.skip(8) == p);
    match m {
        ClientMessage::Helo {
            device_id,
            revision,
            mac,
            uuid,
            wlan_channel_list,
            bytes_received,
            language,
            capabilities,
        } => {
            lemma_big_endian(wlan_channel_list, 0, bytes_received);
            assert(p.subrange(2, 8) =~= mac@);
            assert(p.subrange(8, 24) =~= uuid@);
            assert(p.subrange(24, 26) =~= be16(wlan_channel_list));
            assert(p.subrange(26, 34) =~= be64(bytes_received));
            assert(p.skip(36) =~= encode_utf8(capabilities@));
            assert(f.subrange(10, 16) =~= p.subrange(2, 8));
            assert(f.subrange(16, 32) =~= p.subrange(8, 24));
            assert(f.skip(44) =~= p.skip(36));
            let b = be64(bytes_received);
            assert(be32_at(f, 34) == be32_at(b, 0) && be32_at(f, 38) == be32_at(b, 4));
            assert(be16_at(f, 32) == be16_at(be16(wlan_channel_list), 0));
        },
        ClientMessage::Stat { event_code, stat_data } => {
            let e = encode_utf8(event_code@);
            assert(f.subrange(8, 8 + e.len() as int) =~= e);
            assert(f.skip(8 + e.len() as int) =~= status_fields(stat_data@));
        },
        ClientMessage::Bye(v) => {},
        ClientMessage::Name(n) => {
            assert(f.skip(9) =~= encode_utf8(n@));
        },
    }
}

} // verus!
