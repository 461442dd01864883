# lms_player

A client for the Slim Protocol of the Lyrion Media Server, and the Vibe music
player built on it. The protocol, and the player's decisions (which server
to connect to, what each server or player message does to the status and
which event it reports), live in `src/` and are verified with Verus. `app/`
holds the program around them and carries the decisions out: sockets and
the read loop, threads and timers, the audio output and its floating-point
volume, FFmpeg decoding and the PulseAudio, PipeWire and Rodio outputs.

## Library modules (`src/`)

- `messages`: client and server messages. `ClientMessage::to_bytes` and
  `ServerMessage::parse` are proved against the frame layouts
  `client_frame` and `parse_frame`.
- `frames`: `LMSRecv` splits received bytes into length-prefixed frames
  (`decode`, with the laws that decoding in pieces equals decoding at once,
  that over any split of the bytes into reads every successful receive
  yields messages and the receives together yield those of all complete
  frames in order, and that only an incomplete frame is left over);
  `LMSSend` holds the writer.
- `status`: `StatusData`, the fields of a STAT report, and `StatusCode`.
- `capability`, `proto`: the capability list and the HELO builder `Hello`.
- `discovery`: the TLV records of a discovery reply, with dotted-decimal
  and port parsing.
- `player`, `audio`, `cli`, `startup`, `notify`: the player's decisions:
  announced capabilities, the server to connect to (`connect_target`,
  `serv_target`, `parse_server_literal`), what the reader and writer loops
  do with each message (`route_message`, `outgoing_message`, with laws over
  whole message sequences), the action for each server message
  (`server_action`) and the status update and report that follow it
  (`report_after`, `player_report`), the stream request text, sample
  arithmetic,
  command-line host/port splitting, the systemd unit text, and the
  notification text.
- `output`: the state machines of the PulseAudio and PipeWire stream
  callbacks (whether a callback decodes, which events it reports), with the
  laws that a stream reports its start and its end of decoding at most once.
- `wire`, `text`, `buffer`: the calls into the `bytes` crate and std that
  the rest relies on, each with the contract it is trusted for.
