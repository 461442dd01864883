//! Decisions of the Vibe player around the protocol: what it announces,
//! which server addresses it accepts, how it hands messages to the writer
//! thread, and what it reads from a stream command.

use vstd::prelude::*;
use vstd::string::StringSliceAdditionalSpecFns;
use vstd::utf8::encode_utf8;
use crate::capability::Capability;
use crate::messages::{
    AutoStart, ClientMessage, Format, PcmChannels, PcmSampleRate, PcmSampleSize,
    ServerMessage,
};
use crate::status::{with_play_time, without_playback, StatusCode, StatusData, StatusView};
use crate::SLIM_PORT;
use crate::notify::{trim_text, trimmed};

verus! {

/// Messages sent between the decoder or stream thread and the main event
/// loop; `D` is what a stream is decoded by.
pub enum PlayerMsg<D> {
    EndOfDecode,
    Drained,
    Pause,
    Unpause,
    Connected,
    BufferThreshold,
    NotSupported,
    StreamEstablished,
    TrackStarted,
    Decoder(D),
}

/// Parameters supplied by the stream command that affect playback startup;
/// the output threshold is in milliseconds.
#[derive(Debug, Clone, Copy, PartialEq, Eq, Structural)]
pub struct StreamParams {
    pub autostart: AutoStart,
    pub output_threshold: u64,
}

/// Device id of a SqueezePlay player, which Vibe reports itself as.
pub const SQUEEZEPLAY_ID: u8 = 12;

/// The capabilities Vibe announces: a squeezelite model running
/// `firmware`, the formats it decodes, and the sync group the server last
/// named, if any.
pub fn helo_capabilities(firmware: String, sync_group_id: Option<String>) -> (r: Vec<Capability>)
    ensures
        r@.len() == if sync_group_id is Some {
            15int
        } else {
            14int
        },
        r@[0] matches Capability::Model(s) && s@ == "squeezelite"@,
        r@[1] matches Capability::Modelname(s) && s@ == "SqueezeLite"@,
        r@[2] == Capability::Accurateplaypoints,
        r@[3] == Capability::Hasdigitalout,
        r@[4] == Capability::Haspreamp,
        r@[5] == Capability::Hasdisabledac,
        r@[6] matches Capability::Firmware(s) && s@ == firmware@,
        r@[7] == Capability::Maxsamplerate(192000),
        r@[8] == Capability::Pcm,
        r@[9] == Capability::Mp3,
        r@[10] == Capability::Aac,
        r@[11] == Capability::Alc,
        r@[12] == Capability::Ogg,
        r@[13] == Capability::Flc,
        sync_group_id matches Some(g) ==> (r@[14] matches Capability::Syncgroupid(s) && s@ == g@),
{
    let mut caps: Vec<Capability> = Vec::new();
    caps.push(Capability::Model(String::from_str("squeezelite")));
    caps.push(Capability::Modelname(String::from_str("SqueezeLite")));
    caps.push(Capability::Accurateplaypoints);
    caps.push(Capability::Hasdigitalout);
    caps.push(Capability::Haspreamp);
    caps.push(Capability::Hasdisabledac);
    caps.push(Capability::Firmware(firmware));
    caps.push(Capability::Maxsamplerate(192000));
    caps.push(Capability::Pcm);
    caps.push(Capability::Mp3);
    caps.push(Capability::Aac);
    caps.push(Capability::Alc);
    caps.push(Capability::Ogg);
    caps.push(Capability::Flc);
    if let Some(sgid) = sync_group_id {
        caps.push(Capability::Syncgroupid(sgid));
    }
    caps
}

/// Whether `ip` (first octet most significant) is the unspecified address
/// 0.0.0.0, the broadcast address 255.255.255.255, or a multicast address
/// (224.0.0.0/4).
pub open spec fn is_unusable_server_ip(ip: u32) -> bool {
    ip == 0 || ip == 0xFFFF_FFFF || (224 <= ip / 0x100_0000 && ip / 0x100_0000 <= 239)
}

/// Whether a server that a SERV message names may be connected to.
pub fn is_usable_server_ip(ip: u32) -> (r: bool)
    ensures
        r == !is_unusable_server_ip(ip),
{
    let first_octet = ip / 0x100_0000;
    !(ip == 0 || ip == 0xFFFF_FFFF || (224 <= first_octet && first_octet <= 239))
}

/// Whether `msg` is `Bye(1)`, with which the player asks its writer thread
/// to stop.
pub open spec fn is_stop_request(msg: ClientMessage) -> bool {
    msg matches ClientMessage::Bye(v) && v == 1
}

/// The message the writer thread sends for `msg`, and whether it stops
/// after it.
pub open spec fn outgoing(msg: ClientMessage) -> (ClientMessage, bool) {
    if is_stop_request(msg) {
        (ClientMessage::Bye(0), true)
    } else {
        (msg, false)
    }
}

/// The message the writer thread sends for `msg`, and whether it stops
/// after it: `Bye(1)` asks the thread to stop, and goes out as `Bye(0)`,
/// since the server takes `Bye(1)` for an upgrade.
pub fn outgoing_message(msg: ClientMessage) -> (r: (ClientMessage, bool))
    ensures
        r == outgoing(msg),
{
    if let ClientMessage::Bye(1) = msg {
        (ClientMessage::Bye(0), true)
    } else {
        (msg, false)
    }
}

/// What the writer thread sends on one connection when the player hands it
/// `msgs` in order: each message as `outgoing_message` gives it, up to and
/// including the first that stops the thread.
pub open spec fn written(msgs: Seq<ClientMessage>) -> Seq<ClientMessage>
    decreases msgs.len(),
{
    if msgs.len() == 0 {
        seq![]
    } else {
        let (m, stop) = outgoing(msgs[0]);
        if stop {
            seq![m]
        } else {
            seq![m] + written(msgs.skip(1))
        }
    }
}

/// The writer sends every message as it was handed over, in order, until
/// the first `Bye(1)`; that one goes out as `Bye(0)`, and nothing after it
/// is sent on the connection.
pub proof fn lemma_writer_stops_at_bye(msgs: Seq<ClientMessage>)
    ensures
        (forall|i: int| 0 <= i < msgs.len() ==> !is_stop_request(#[trigger] msgs[i]))
            ==> written(msgs) == msgs,
        forall|k: int|
            #![trigger msgs[k]]
            0 <= k < msgs.len() && is_stop_request(msgs[k]) && (forall|j: int|
                0 <= j < k ==> !is_stop_request(#[trigger] msgs[j])) ==> written(msgs)
                == msgs.take(k).push(ClientMessage::Bye(0)),
    decreases msgs.len(),
{
    if msgs.len() > 0 {
        let t = msgs.skip(1);
        lemma_writer_stops_at_bye(t);
        if forall|i: int| 0 <= i < msgs.len() ==> !is_stop_request(#[trigger] msgs[i]) {
            assert(!is_stop_request(msgs[0]));
            assert forall|i: int| 0 <= i < t.len() implies !is_stop_request(#[trigger] t[i]) by {
                assert(t[i] == msgs[i + 1]);
            }
            assert(seq![msgs[0]] + t =~= msgs);
        }
        assert forall|k: int|
            #![trigger msgs[k]]
            0 <= k < msgs.len() && is_stop_request(msgs[k]) && (forall|j: int|
                0 <= j < k ==> !is_stop_request(#[trigger] msgs[j])) implies written(msgs)
                == msgs.take(k).push(ClientMessage::Bye(0)) by {
            if k == 0 {
                assert(msgs.take(0).push(ClientMessage::Bye(0)) =~= seq![ClientMessage::Bye(0)]);
            } else {
                assert(!is_stop_request(msgs[0]));
                assert(t[k - 1] == msgs[k]);
                assert forall|j: int| 0 <= j < k - 1 implies !is_stop_request(#[trigger] t[j]) by {
                    assert(t[j] == msgs[j + 1]);
                }
                assert(seq![msgs[0]] + t.take(k - 1).push(ClientMessage::Bye(0)) =~= msgs.take(
                    k,
                ).push(ClientMessage::Bye(0)));
            }
        }
    }
}

/// The address to fetch a stream from: the one in the stream command, or
/// `default_ip` when that is unspecified (0.0.0.0).
pub fn stream_server_ip(server_ip: u32, default_ip: u32) -> (r: u32)
    ensures
        r == if server_ip == 0 {
            default_ip
        } else {
            server_ip
        },
{
    if server_ip == 0 {
        default_ip
    } else {
        server_ip
    }
}

/// The number of non-overlapping `"\r\n"` in `b`, scanning from the start.
pub open spec fn crlf_count(b: Seq<u8>) -> nat
    decreases b.len(),
{
    if b.len() < 2 {
        0
    } else if b[0] == 13 && b[1] == 10 {
        1 + crlf_count(b.skip(2))
    } else {
        crlf_count(b.skip(1))
    }
}

/// The number of line ends (`"\r\n"`) in the HTTP headers of a stream
/// command.
pub fn header_line_ends(headers: &str) -> (r: usize)
    ensures
        r == crlf_count(headers.spec_bytes()),
{
    let b = headers.as_bytes();
    let mut i: usize = 0;
    let mut n: usize = 0;
    assert(b@.skip(0) =~= b@);
    while i < b.len()
        invariant
            i <= b@.len(),
            n <= i,
            n + crlf_count(b@.skip(i as int)) == crlf_count(b@),
        decreases b@.len() - i,
    {
        let ghost rest = b@.skip(i as int);
        if i + 1 < b.len() && b[i] == 13 && b[i + 1] == 10 {
            assert(rest.skip(2) =~= b@.skip(i + 2));
            n = n + 1;
            i = i + 2;
        } else {
            proof {
                if rest.len() >= 2 {
                    assert(rest.skip(1) =~= b@.skip(i + 1));
                } else {
                    assert(crlf_count(b@.skip(i + 1)) == 0);
                }
            }
            i = i + 1;
        }
    }
    n
}

/// Seconds to wait before connecting again to a server that refused.
pub const RECONNECT_DELAY_SECS: u64 = 5;

/// Seconds to wait for a server to answer a discovery broadcast.
pub const DISCOVERY_TIMEOUT_SECS: u64 = 30;

/// The server to connect to next, as an IPv4 address and a port: the one a
/// SERV message named or a failed attempt left to retry (`pending`), else
/// the configured one; `None` when there is neither, and the server must be
/// discovered.
pub fn connect_target(pending: Option<(u32, u16)>, configured: Option<(u32, u16)>) -> (r: Option<(u32, u16)>)
    ensures
        r == if pending is Some {
            pending
        } else {
            configured
        },
{
    match pending {
        Some(t) => Some(t),
        None => configured,
    }
}

/// Where a SERV message naming `ip`, with sync group `sync_group_id`, sends
/// the player: `None` when `ip` is unusable and the message is ignored, else
/// the server at `ip` on the Slim Protocol port, and the sync group to
/// announce there.
pub fn serv_target(ip: u32, sync_group_id: Option<String>) -> (r: Option<((u32, u16), Option<String>)>)
    ensures
        r == if is_unusable_server_ip(ip) {
            None
        } else {
            Some(((ip, SLIM_PORT), sync_group_id))
        },
{
    if is_usable_server_ip(ip) {
        Some(((ip, SLIM_PORT), sync_group_id))
    } else {
        None
    }
}

/// A stream command that the player acts on: the fields it fetches and
/// decodes the stream with, and the number of line ends in its HTTP
/// headers.
#[derive(Debug)]
pub struct StreamCommand {
    pub http_headers: String,
    pub line_ends: usize,
    pub server_ip: u32,
    pub server_port: u16,
    pub threshold: u32,
    pub format: Format,
    pub pcmsamplesize: PcmSampleSize,
    pub pcmsamplerate: PcmSampleRate,
    pub pcmchannels: PcmChannels,
    pub autostart: AutoStart,
    pub output_threshold: u64,
}

/// What the player does on a message from the server.
#[derive(Debug)]
pub enum ServerAction {
    /// Take this server (IPv4 address) as the fallback for streams.
    SetDefaultServer(u32),
    /// Send the player's name.
    SendName,
    /// Rename the player.
    SetName(String),
    /// Set the volume from the left and right 16.16 fixed-point gains.
    SetVolume(u32, u32),
    /// Report the play time, echoing this server timestamp.
    ReportTime(u64),
    Stop,
    Flush,
    /// Pause now, and resume after this many milliseconds unless it is 0.
    Pause(u64),
    /// Resume now if this is 0, else once this many milliseconds have passed
    /// since the connection was made.
    Unpause(u64),
    /// Skip this many milliseconds ahead.
    Skip(u64),
    StartStream(StreamCommand),
    /// A stream command without HTTP headers, or with no line end in them.
    IgnoreStream,
    ConnectOutput,
    DisconnectOutput,
    /// A message the player has no handling for.
    Unhandled(ServerMessage),
}

/// The number of line ends in `headers`, counted in its UTF-8 bytes.
pub open spec fn header_line_count(headers: String) -> nat {
    crlf_count(encode_utf8(headers@))
}

/// The action for `msg`.
pub open spec fn server_action_for(msg: ServerMessage) -> ServerAction {
    match msg {
        ServerMessage::Serv { ip_address, .. } => ServerAction::SetDefaultServer(ip_address),
        ServerMessage::Queryname => ServerAction::SendName,
        ServerMessage::Setname(n) => ServerAction::SetName(n),
        ServerMessage::Gain(l, r) => ServerAction::SetVolume(l, r),
        ServerMessage::Status(ts) => ServerAction::ReportTime(ts),
        ServerMessage::Stop => ServerAction::Stop,
        ServerMessage::Flush => ServerAction::Flush,
        ServerMessage::Pause(t) => ServerAction::Pause(t),
        ServerMessage::Unpause(t) => ServerAction::Unpause(t),
        ServerMessage::Skip(t) => ServerAction::Skip(t),
        ServerMessage::Stream {
            http_headers,
            server_ip,
            server_port,
            threshold,
            format,
            pcmsamplesize,
            pcmsamplerate,
            pcmchannels,
            autostart,
            output_threshold,
            ..
        } => match http_headers {
            Some(h) => if header_line_count(h) == 0 {
                ServerAction::IgnoreStream
            } else {
                ServerAction::StartStream(
                    StreamCommand {
                        http_headers: h,
                        line_ends: header_line_count(h) as usize,
                        server_ip,
                        server_port,
                        threshold,
                        format,
                        pcmsamplesize,
                        pcmsamplerate,
                        pcmchannels,
                        autostart,
                        output_threshold,
                    },
                )
            },
            None => ServerAction::IgnoreStream,
        },
        ServerMessage::Enable(spdif, dac) => if spdif && dac {
            ServerAction::ConnectOutput
        } else {
            ServerAction::DisconnectOutput
        },
        ServerMessage::DisableDac => ServerAction::DisconnectOutput,
        ServerMessage::Unrecognised(_) => ServerAction::Unhandled(msg),
        ServerMessage::Error => ServerAction::Unhandled(msg),
    }
}

/// Decides what the player does on `msg`: stream commands are acted on only
/// with HTTP headers that hold a line end, and the output is connected only
/// when both S/PDIF and the DAC are enabled.
pub fn server_action(msg: ServerMessage) -> (a: ServerAction)
    ensures
        a == server_action_for(msg),
{
    match msg {
        ServerMessage::Serv { ip_address, .. } => ServerAction::SetDefaultServer(ip_address),
        ServerMessage::Queryname => ServerAction::SendName,
        ServerMessage::Setname(n) => ServerAction::SetName(n),
        ServerMessage::Gain(l, r) => ServerAction::SetVolume(l, r),
        ServerMessage::Status(ts) => ServerAction::ReportTime(ts),
        ServerMessage::Stop => ServerAction::Stop,
        ServerMessage::Flush => ServerAction::Flush,
        ServerMessage::Pause(t) => ServerAction::Pause(t),
        ServerMessage::Unpause(t) => ServerAction::Unpause(t),
        ServerMessage::Skip(t) => ServerAction::Skip(t),
        ServerMessage::Stream {
            http_headers,
            server_ip,
            server_port,
            threshold,
            format,
            pcmsamplesize,
            pcmsamplerate,
            pcmchannels,
            autostart,
            output_threshold,
            ..
        } => match http_headers {
            Some(h) => {
                let line_ends = header_line_ends(h.as_str());
                if line_ends == 0 {
                    ServerAction::IgnoreStream
                } else {
                    ServerAction::StartStream(
                        StreamCommand {
                            http_headers: h,
                            line_ends,
                            server_ip,
                            server_port,
                            threshold,
                            format,
                            pcmsamplesize,
                            pcmsamplerate,
                            pcmchannels,
                            autostart,
                            output_threshold,
                        },
                    )
                }
            },
            None => ServerAction::IgnoreStream,
        },
        ServerMessage::Enable(spdif, dac) => if spdif && dac {
            ServerAction::ConnectOutput
        } else {
            ServerAction::DisconnectOutput
        },
        ServerMessage::DisableDac => ServerAction::DisconnectOutput,
        ServerMessage::Unrecognised(t) => ServerAction::Unhandled(ServerMessage::Unrecognised(t)),
        ServerMessage::Error => ServerAction::Unhandled(ServerMessage::Error),
    }
}

/// The status after `a`, from status `v`, and the event then reported to
/// the server, if any. `accepted` says whether the output did what an
/// immediate pause or resume asked; `play_ms` is the play time of the
/// current track in milliseconds.
pub open spec fn server_report(v: StatusView, a: ServerAction, accepted: bool, play_ms: u64) -> (
    StatusView,
    Option<StatusCode>,
) {
    match a {
        ServerAction::ReportTime(ts) => (
            StatusView { timestamp: ts, ..with_play_time(v, play_ms) },
            Some(StatusCode::Timer),
        ),
        ServerAction::Stop => (without_playback(v), Some(StatusCode::Flushed)),
        ServerAction::Flush => (without_playback(v), Some(StatusCode::Flushed)),
        ServerAction::Pause(t) => if t == 0 && accepted {
            (with_play_time(v, play_ms), Some(StatusCode::Pause))
        } else {
            (v, None)
        },
        ServerAction::Unpause(t) => if t == 0 && accepted {
            (with_play_time(v, play_ms), Some(StatusCode::Resume))
        } else {
            (v, None)
        },
        ServerAction::StartStream(c) => (
            StatusView { crlf: ((v.crlf + (c.line_ends as u8)) % 256) as u8, ..v },
            None,
        ),
        _ => (v, None),
    }
}

/// Updates the status for `a` and returns the event to report, if any: a
/// timer report for a status request, a flush after stop or flush, a pause
/// or resume when the output did it at once, and the line ends of a stream
/// command's headers counted (cut to 8 bits, as the count wraps).
pub fn report_after(s: &mut StatusData, a: &ServerAction, accepted: bool, play_ms: u64) -> (c:
    Option<StatusCode>)
    ensures
        final(s).clock_start() == old(s).clock_start(),
        (final(s)@, c) == server_report(old(s)@, *a, accepted, play_ms),
{
    match a {
        ServerAction::ReportTime(ts) => {
            s.set_play_time(play_ms);
            s.set_timestamp(*ts);
            Some(StatusCode::Timer)
        },
        ServerAction::Stop | ServerAction::Flush => {
            s.clear_playback();
            Some(StatusCode::Flushed)
        },
        ServerAction::Pause(t) => {
            if *t == 0 && accepted {
                s.set_play_time(play_ms);
                Some(StatusCode::Pause)
            } else {
                None
            }
        },
        ServerAction::Unpause(t) => {
            if *t == 0 && accepted {
                s.set_play_time(play_ms);
                Some(StatusCode::Resume)
            } else {
                None
            }
        },
        ServerAction::StartStream(cmd) => {
            s.add_crlf(cmd.line_ends as u8);
            None
        },
        _ => None,
    }
}

/// The status after player message `m`, from status `v`, and the event then
/// reported to the server, if any. `accepted` says whether the output was
/// there to take a drained track, or resumed on a resume request.
pub open spec fn player_report_for<D>(v: StatusView, m: PlayerMsg<D>, accepted: bool) -> (
    StatusView,
    Option<StatusCode>,
) {
    match m {
        PlayerMsg::EndOfDecode => (v, Some(StatusCode::DecoderReady)),
        PlayerMsg::Drained => (if accepted {
            with_play_time(v, 0)
        } else {
            v
        }, None),
        PlayerMsg::Pause => (v, None),
        PlayerMsg::Unpause => (v, if accepted {
            Some(StatusCode::TrackStarted)
        } else {
            None
        }),
        PlayerMsg::Connected => (v, Some(StatusCode::Connect)),
        PlayerMsg::BufferThreshold => (v, Some(StatusCode::BufferThreshold)),
        PlayerMsg::NotSupported => (v, Some(StatusCode::NotSupported)),
        PlayerMsg::StreamEstablished => (v, Some(StatusCode::StreamEstablished)),
        PlayerMsg::TrackStarted => (with_play_time(v, 0), Some(StatusCode::TrackStarted)),
        PlayerMsg::Decoder(_) => (v, None),
    }
}

/// Updates the status for player message `m` and returns the event to
/// report, if any.
pub fn player_report<D>(s: &mut StatusData, m: &PlayerMsg<D>, accepted: bool) -> (c: Option<
    StatusCode,
>)
    ensures
        final(s).clock_start() == old(s).clock_start(),
        (final(s)@, c) == player_report_for(old(s)@, *m, accepted),
{
    match m {
        PlayerMsg::EndOfDecode => Some(StatusCode::DecoderReady),
        PlayerMsg::Drained => {
            if accepted {
                s.set_play_time(0);
            }
            None
        },
        PlayerMsg::Pause => None,
        PlayerMsg::Unpause => if accepted {
            Some(StatusCode::TrackStarted)
        } else {
            None
        },
        PlayerMsg::Connected => Some(StatusCode::Connect),
        PlayerMsg::BufferThreshold => Some(StatusCode::BufferThreshold),
        PlayerMsg::NotSupported => Some(StatusCode::NotSupported),
        PlayerMsg::StreamEstablished => Some(StatusCode::StreamEstablished),
        PlayerMsg::TrackStarted => {
            s.set_play_time(0);
            Some(StatusCode::TrackStarted)
        },
        PlayerMsg::Decoder(_) => None,
    }
}

/// What the reader loop does with a message from the server.
#[derive(Debug)]
pub enum Route {
    /// Hand the message to the player.
    Forward(ServerMessage),
    /// Ignore it: a SERV message naming an unusable address.
    Drop,
    /// Leave this server for the one at this address and port, announcing
    /// this sync group there.
    Switch((u32, u16), Option<String>),
}

/// The route of `msg`.
pub open spec fn route_of(msg: ServerMessage) -> Route {
    match msg {
        ServerMessage::Serv { ip_address, sync_group_id } => if is_unusable_server_ip(ip_address) {
            Route::Drop
        } else {
            Route::Switch((ip_address, SLIM_PORT), sync_group_id)
        },
        _ => Route::Forward(msg),
    }
}

/// Decides what the reader loop does with `msg`: SERV messages are taken by
/// the loop itself, every other message goes to the player.
pub fn route_message(msg: ServerMessage) -> (r: Route)
    ensures
        r == route_of(msg),
{
    match msg {
        ServerMessage::Serv { ip_address, sync_group_id } => match serv_target(
            ip_address,
            sync_group_id,
        ) {
            Some((t, g)) => Route::Switch(t, g),
            None => Route::Drop,
        },
        other => Route::Forward(other),
    }
}

/// What the reader loop does on one connection when the server sends
/// `msgs` in order: what it hands the player (`Some` of a message, and
/// `None` when it leaves the server), and the server and sync group it
/// leaves for, if any.
pub open spec fn reader_run(msgs: Seq<ServerMessage>) -> (
    Seq<Option<ServerMessage>>,
    Option<((u32, u16), Option<String>)>,
)
    decreases msgs.len(),
{
    if msgs.len() == 0 {
        (seq![], None)
    } else {
        match route_of(msgs[0]) {
            Route::Forward(m) => {
                let (out, next) = reader_run(msgs.skip(1));
                (seq![Some(m)] + out, next)
            },
            Route::Drop => reader_run(msgs.skip(1)),
            Route::Switch(t, g) => (seq![None], Some((t, g))),
        }
    }
}

/// Whether `msg` is a SERV message that the player follows.
pub open spec fn is_switch(msg: ServerMessage) -> bool {
    msg matches ServerMessage::Serv { ip_address, .. } && !is_unusable_server_ip(ip_address)
}

/// The messages that the player is handed out of `msgs`, in order: all but
/// the SERV messages.
pub open spec fn forwarded(msgs: Seq<ServerMessage>) -> Seq<Option<ServerMessage>> {
    msgs.filter(|m: ServerMessage| !(m is Serv)).map_values(|m: ServerMessage| Some(m))
}

/// The reader hands the player every message but SERV, in order, and drops
/// SERV messages with an unusable address. At the first SERV message with a
/// usable address it hands the player `None` and leaves for that address on
/// the Slim Protocol port, with that message's sync group.
pub proof fn lemma_reader_follows_serv(msgs: Seq<ServerMessage>)
    ensures
        (forall|i: int| 0 <= i < msgs.len() ==> !is_switch(#[trigger] msgs[i])) ==> reader_run(msgs)
            == (forwarded(msgs), None::<((u32, u16), Option<String>)>),
        forall|k: int|
            #![trigger msgs[k]]
            0 <= k < msgs.len() && is_switch(msgs[k]) && (forall|j: int|
                0 <= j < k ==> !is_switch(#[trigger] msgs[j])) ==> (msgs[k] matches ServerMessage::Serv {
                ip_address,
                sync_group_id,
            } && reader_run(msgs) == (
                forwarded(msgs.take(k)).push(None),
                Some(((ip_address, SLIM_PORT), sync_group_id)),
            )),
    decreases msgs.len(),
{
    let pred = |m: ServerMessage| !(m is Serv);
    if msgs.len() == 0 {
        reveal(Seq::filter);
        assert(forwarded(msgs) =~= seq![]);
    } else {
        let h = msgs[0];
        let t = msgs.skip(1);
        lemma_reader_follows_serv(t);
        assert(msgs =~= seq![h] + t);
        Seq::filter_distributes_over_add(seq![h], t, pred);
        reveal(Seq::filter);
        assert(seq![h].drop_last() =~= Seq::<ServerMessage>::empty());
        assert(Seq::<ServerMessage>::empty().filter(pred) =~= Seq::<ServerMessage>::empty());
        if pred(h) {
            assert(seq![h].filter(pred) =~= seq![h]);
        } else {
            assert(seq![h].filter(pred) =~= Seq::<ServerMessage>::empty());
        }
        if forall|i: int| 0 <= i < msgs.len() ==> !is_switch(#[trigger] msgs[i]) {
            assert(!is_switch(msgs[0]));
            assert forall|i: int| 0 <= i < t.len() implies !is_switch(#[trigger] t[i]) by {
                assert(t[i] == msgs[i + 1]);
            }
            if pred(h) {
                assert(forwarded(msgs) =~= seq![Some(h)] + forwarded(t));
            } else {
                assert(forwarded(msgs) =~= forwarded(t));
            }
        }
        assert forall|k: int|
            #![trigger msgs[k]]
            0 <= k < msgs.len() && is_switch(msgs[k]) && (forall|j: int|
                0 <= j < k ==> !is_switch(#[trigger] msgs[j])) implies (msgs[k] matches ServerMessage::Serv {
                ip_address,
                sync_group_id,
            } && reader_run(msgs) == (
                forwarded(msgs.take(k)).push(None),
                Some(((ip_address, SLIM_PORT), sync_group_id)),
            )) by {
            if k == 0 {
                assert(msgs.take(0) =~= Seq::<ServerMessage>::empty());
                assert(forwarded(msgs.take(0)) =~= Seq::<Option<ServerMessage>>::empty());
                assert(forwarded(msgs.take(0)).push(None) =~= seq![None::<ServerMessage>]);
            } else {
                assert(!is_switch(msgs[0]));
                assert(t[k - 1] == msgs[k]);
                assert forall|j: int| 0 <= j < k - 1 implies !is_switch(#[trigger] t[j]) by {
                    assert(t[j] == msgs[j + 1]);
                }
                assert(msgs.take(k) =~= seq![h] + t.take(k - 1));
                Seq::filter_distributes_over_add(seq![h], t.take(k - 1), pred);
                if pred(h) {
                    assert(forwarded(msgs.take(k)) =~= seq![Some(h)] + forwarded(t.take(k - 1)));
                    assert(forwarded(msgs.take(k)).push(None) =~= seq![Some(h)] + forwarded(
                        t.take(k - 1),
                    ).push(None));
                } else {
                    assert(forwarded(msgs.take(k)) =~= forwarded(t.take(k - 1)));
                }
            }
        }
    }
}

/// The request written to the stream server: the HTTP headers of the
/// stream command without surrounding white space, then three line ends.
pub fn stream_request(http_headers: &str) -> (r: String)
    ensures
        r@ == trimmed(http_headers@) + "\r\n\r\n\r\n"@,
{
    let mut r = trim_text(http_headers);
    r.append("\r\n\r\n\r\n");
    r
}

/// Whether `b` holds a line end, `"\r\n"`, anywhere.
pub open spec fn has_line_end(b: Seq<u8>) -> bool {
    exists|i: int| 0 <= i < b.len() - 1 && b[i] == 13 && #[trigger] b[i + 1] == 10
}

/// Counting line ends: none in a sequence without one, one more for a line
/// end in front, and none gained or lost by a byte in front that does not
/// start one; so the count of a concatenation is the sum of the counts when
/// the first part does not end in `'\r'`.
pub proof fn lemma_line_end_count(a: Seq<u8>, b: Seq<u8>)
    ensures
        (crlf_count(b) == 0) == !has_line_end(b),
        crlf_count(seq![13u8, 10u8] + b) == crlf_count(b) + 1,
        (a.len() == 0 || a.last() != 13) ==> crlf_count(a + b) == crlf_count(a) + crlf_count(b),
    decreases a.len() + b.len(),
{
    assert((seq![13u8, 10u8] + b).skip(2) =~= b);
    lemma_line_end_count_zero(b);
    if a.len() == 0 || a.last() != 13 {
        lemma_line_end_count_add(a, b);
    }
}

proof fn lemma_line_end_count_zero(b: Seq<u8>)
    ensures
        (crlf_count(b) == 0) == !has_line_end(b),
    decreases b.len(),
{
    if b.len() >= 2 {
        if b[0] == 13 && b[1] == 10 {
            assert(b[0int + 1] == 10);
        } else {
            lemma_line_end_count_zero(b.skip(1));
            if has_line_end(b) {
                let i = choose|i: int| 0 <= i < b.len() - 1 && b[i] == 13 && #[trigger] b[i + 1] == 10;
                assert(i > 0);
                assert(b.skip(1)[(i - 1) + 1] == 10);
            }
            if has_line_end(b.skip(1)) {
                let i = choose|i: int| 0 <= i < b.len() - 2 && b.skip(1)[i] == 13 && #[trigger] b.skip(1)[i + 1] == 10;
                assert(b[(i + 1) + 1] == 10);
            }
        }
    } else {
        if has_line_end(b) {
            let i = choose|i: int| 0 <= i < b.len() - 1 && b[i] == 13 && #[trigger] b[i + 1] == 10;
        }
    }
}

proof fn lemma_line_end_count_add(a: Seq<u8>, b: Seq<u8>)
    requires
        a.len() == 0 || a.last() != 13,
    ensures
        crlf_count(a + b) == crlf_count(a) + crlf_count(b),
    decreases a.len(),
{
    if a.len() == 0 {
        assert(a + b =~= b);
    } else if a.len() == 1 {
        assert((a + b).skip(1) =~= b);
    } else if a[0] == 13 && a[1] == 10 {
        assert((a + b).skip(2) =~= a.skip(2) + b);
        lemma_line_end_count_add(a.skip(2), b);
    } else {
        assert((a + b).skip(1) =~= a.skip(1) + b);
        lemma_line_end_count_add(a.skip(1), b);
    }
}

/// What the player does on each server message: a SERV message sets the
/// fallback stream server; a name query is answered and a new name taken;
/// gains set the volume; a status request is answered with its timestamp;
/// stop, flush, pause, resume and skip are passed on with their times; the
/// output is connected only when both S/PDIF and the DAC are enabled, and
/// disconnected otherwise; a stream command is acted on with all its fields
/// only when its HTTP headers hold a line end, and ignored otherwise;
/// anything else is left unhandled.
pub proof fn lemma_server_actions(msg: ServerMessage)
    ensures
        ({
            let a = server_action_for(msg);
            match msg {
                ServerMessage::Serv { ip_address, .. } => a == ServerAction::SetDefaultServer(ip_address),
                ServerMessage::Queryname => a is SendName,
                ServerMessage::Setname(n) => a == ServerAction::SetName(n),
                ServerMessage::Gain(l, r) => a == ServerAction::SetVolume(l, r),
                ServerMessage::Status(ts) => a == ServerAction::ReportTime(ts),
                ServerMessage::Stop => a is Stop,
                ServerMessage::Flush => a is Flush,
                ServerMessage::Pause(t) => a == ServerAction::Pause(t),
                ServerMessage::Unpause(t) => a == ServerAction::Unpause(t),
                ServerMessage::Skip(t) => a == ServerAction::Skip(t),
                ServerMessage::Enable(spdif, dac) => (a is ConnectOutput) == (spdif && dac) && (a
                    is DisconnectOutput) == !(spdif && dac),
                ServerMessage::DisableDac => a is DisconnectOutput,
                ServerMessage::Stream {
                    http_headers,
                    server_ip,
                    server_port,
                    threshold,
                    format,
                    pcmsamplesize,
                    pcmsamplerate,
                    pcmchannels,
                    autostart,
                    output_threshold,
                    ..
                } => match http_headers {
                    None => a is IgnoreStream,
                    Some(h) => if has_line_end(encode_utf8(h@)) {
                        a matches ServerAction::StartStream(c) && c.http_headers == h && c.line_ends
                            == crlf_count(encode_utf8(h@)) as usize && c.server_ip
                            == server_ip && c.server_port == server_port && c.threshold == threshold
                            && c.format == format && c.pcmsamplesize == pcmsamplesize
                            && c.pcmsamplerate == pcmsamplerate && c.pcmchannels == pcmchannels
                            && c.autostart == autostart && c.output_threshold == output_threshold
                    } else {
                        a is IgnoreStream
                    },
                },
                _ => a == ServerAction::Unhandled(msg),
            }
        }),
{
    if let ServerMessage::Stream { http_headers: Some(h), .. } = msg {
        lemma_line_end_count_zero(encode_utf8(h@));
    }
}

/// Only `Bye(1)` stops the writer.
pub proof fn lemma_stop_request(msg: ClientMessage)
    ensures
        is_stop_request(msg) == (msg == ClientMessage::Bye(1)),
        outgoing(msg) == if msg == ClientMessage::Bye(1) {
            (ClientMessage::Bye(0), true)
        } else {
            (msg, false)
        },
{
}

/// The server addresses the player will not follow: 0.0.0.0,
/// 255.255.255.255 and the multicast block 224.0.0.0 to 239.255.255.255.
pub proof fn lemma_unusable_server_ips(ip: u32)
    ensures
        is_unusable_server_ip(ip) == (ip == 0 || ip == 0xFFFF_FFFF || (0xE000_0000 <= ip
            <= 0xEFFF_FFFF)),
{
}

/// The status report after each server action: a status request records
/// the play time (milliseconds, and whole seconds, each cut to 32 bits) and
/// the server's timestamp and is answered with a timer report; stop and
/// flush clear the play time and the output buffer and report a flush; a
/// pause or resume asked for now, and done by the output, records the play
/// time and reports a pause or a resume, and otherwise changes nothing; a
/// stream command adds its header line ends to the count, modulo 256;
/// nothing else changes the status or reports anything.
pub proof fn lemma_server_reports(v: StatusView, a: ServerAction, accepted: bool, play_ms: u64)
    ensures
        ({
            let (w, c) = server_report(v, a, accepted, play_ms);
            let played = StatusView {
                elapsed_milliseconds: (play_ms % 0x1_0000_0000) as u32,
                elapsed_seconds: ((play_ms / 1000) % 0x1_0000_0000) as u32,
                ..v
            };
            match a {
                ServerAction::ReportTime(ts) => c == Some(StatusCode::Timer) && w == (StatusView {
                    timestamp: ts,
                    ..played
                }),
                ServerAction::Stop | ServerAction::Flush => c == Some(StatusCode::Flushed) && w == (
                StatusView {
                    elapsed_milliseconds: 0,
                    elapsed_seconds: 0,
                    output_buffer_size: 0,
                    output_buffer_fullness: 0,
                    ..v
                }),
                ServerAction::Pause(t) => if t == 0 && accepted {
                    c == Some(StatusCode::Pause) && w == played
                } else {
                    c is None && w == v
                },
                ServerAction::Unpause(t) => if t == 0 && accepted {
                    c == Some(StatusCode::Resume) && w == played
                } else {
                    c is None && w == v
                },
                ServerAction::StartStream(cmd) => c is None && w == (StatusView {
                    crlf: ((v.crlf + cmd.line_ends) % 256) as u8,
                    ..v
                }),
                _ => c is None && w == v,
            }
        }),
{
    assert((play_ms % 0x1_0000_0000) as u32 == play_ms as u32) by (bit_vector);
    assert(((play_ms / 1000) % 0x1_0000_0000) as u32 == (play_ms / 1000) as u32) by (bit_vector);
    if let ServerAction::StartStream(cmd) = a {
        let n = cmd.line_ends;
        let c0 = v.crlf;
        assert(((c0 + (n as u8)) % 256) as u8 == ((c0 + n) % 256) as u8) by (bit_vector);
    }
}

/// The status report after each player message: decoding ended, the stream
/// connected, the buffer threshold was reached, the format is not
/// supported, and the stream was established are each reported with their
/// own event; a started track clears the play time and is reported; a
/// drained track clears the play time when the output took it, and is not
/// reported; a resume is reported as a started track when the output did
/// it; nothing else changes the status or reports anything.
pub proof fn lemma_player_reports<D>(v: StatusView, m: PlayerMsg<D>, accepted: bool)
    ensures
        ({
            let (w, c) = player_report_for(v, m, accepted);
            let cleared = StatusView { elapsed_milliseconds: 0, elapsed_seconds: 0, ..v };
            match m {
                PlayerMsg::EndOfDecode => c == Some(StatusCode::DecoderReady) && w == v,
                PlayerMsg::Connected => c == Some(StatusCode::Connect) && w == v,
                PlayerMsg::BufferThreshold => c == Some(StatusCode::BufferThreshold) && w == v,
                PlayerMsg::NotSupported => c == Some(StatusCode::NotSupported) && w == v,
                PlayerMsg::StreamEstablished => c == Some(StatusCode::StreamEstablished) && w == v,
                PlayerMsg::TrackStarted => c == Some(StatusCode::TrackStarted) && w == cleared,
                PlayerMsg::Drained => c is None && w == if accepted {
                    cleared
                } else {
                    v
                },
                PlayerMsg::Unpause => w == v && c == if accepted {
                    Some(StatusCode::TrackStarted)
                } else {
                    None
                },
                _ => c is None && w == v,
            }
        }),
{
}

} // verus!
