//! The systemd user unit that starts the player at login.

use vstd::prelude::*;

verus! {

/// The unit file, with placeholders for the player's path and options.
pub const SERVICE_FILE_TEXT: &'static str = "[Unit]\nDescription=A music player for the Lyrion Music Server\nAfter=network-online.target sound.target\n\n[Service]\nType=simple\nExecStart={path}{server}{audio_sys}{device}\nRestart=on-failure\n\n[Install]\nWantedBy=default.target\n";

/// The name of the unit file.
pub const SERVICE_FILE_NAME: &'static str = "vibe.service";

/// `s` with every occurrence of `from` (not empty) replaced by `to`,
/// occurrences taken from the start and not overlapping.
pub open spec fn replaced(s: Seq<char>, from: Seq<char>, to: Seq<char>) -> Seq<char>
    decreases s.len(),
{
    if from.len() == 0 || s.len() < from.len() {
        s
    } else if s.take(from.len() as int) == from {
        to + replaced(s.skip(from.len() as int), from, to)
    } else {
        seq![s[0]] + replaced(s.skip(1), from, to)
    }
}

/// `s` with every occurrence of `from` replaced by `to`.
///
/// Calls std's `str::replace`, which replaces the non-overlapping
/// occurrences of the pattern found from the start; the contract claims
/// exactly that, for a pattern that is not empty.
#[verifier::external_body]
fn replace_all(s: &str, from: &str, to: &str) -> (r: String)
    requires
        from@.len() > 0,
    ensures
        r@ == replaced(s@, from@, to@),
{
    s.replace(from, to)
}

/// ` --<option> "<value>"`, or nothing where there is no value.
pub open spec fn option_text(option: Seq<char>, value: Option<&str>) -> Seq<char> {
    match value {
        Some(v) => " --"@ + option + " \""@ + v@ + "\""@,
        None => seq![],
    }
}

fn option_arg(option: &str, value: Option<&str>) -> (r: String)
    ensures
        r@ == option_text(option@, value),
{
    match value {
        Some(v) => {
            let mut s = String::from_str(" --");
            s.append(option);
            s.append(" \"");
            s.append(v);
            s.append("\"");
            s
        },
        None => String::new(),
    }
}

/// The unit file text, `path` being where the player is installed and
/// `audio_sys` the audio system to name when the player offers more than
/// one.
pub open spec fn unit_text(
    path: Seq<char>,
    server: Option<&str>,
    audio_sys: Option<&str>,
    device: Option<&str>,
) -> Seq<char> {
    let t = replaced(SERVICE_FILE_TEXT@, "{device}"@, option_text("device"@, device));
    let t = replaced(t, "{audio_sys}"@, option_text("system"@, audio_sys));
    let t = replaced(t, "{server}"@, option_text("server"@, server));
    replaced(t, "{path}"@, path)
}

/// The text of the systemd unit that starts the player at `path` with the
/// given options.
pub fn unit_file_text(
    path: &str,
    server: Option<&str>,
    audio_sys: Option<&str>,
    device: Option<&str>,
) -> (r: String)
    ensures
        r@ == unit_text(path@, server, audio_sys, device),
{
    proof {
        reveal_strlit("{device}");
        reveal_strlit("{audio_sys}");
        reveal_strlit("{server}");
        reveal_strlit("{path}");
    }
    let device_arg = option_arg("device", device);
    let t = replace_all(SERVICE_FILE_TEXT, "{device}", device_arg.as_str());
    let sys_arg = option_arg("system", audio_sys);
    let t = replace_all(t.as_str(), "{audio_sys}", sys_arg.as_str());
    let server_arg = option_arg("server", server);
    let t = replace_all(t.as_str(), "{server}", server_arg.as_str());
    replace_all(t.as_str(), "{path}", path)
}

} // verus!
