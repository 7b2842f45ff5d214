//! The command line of the media player, and where the player is found.
//!
//! The player is `mpv`. Nothing here starts it: this module says with which
//! arguments it is started for a channel, and which of the places where it
//! may be installed is to be used.

use crate::m3u::{optional_text, Channel, ChannelModel};
use crate::text::{ends_with, equals_str, from_chars, is_blank, to_chars, trim, trimmed};
use vstd::prelude::*;
use vstd::string::StringExecFns;

verus! {

/// The texts of a sequence of strings.
pub open spec fn strings(list: Seq<String>) -> Seq<Seq<char>> {
    list.map_values(|s: String| s@)
}

/// Whether the player is to keep the position at which it is left: it is,
/// for a file of one of the kinds `.mkv` and `.mp4`.
pub open spec fn keeps_position(url: Seq<char>) -> bool {
    ".mkv"@.is_suffix_of(url) || ".mp4"@.is_suffix_of(url)
}

/// The arguments with which the player is started for a channel: the
/// location of the channel, the request to keep the position where that
/// applies, the path of the download helper where one is given, the title
/// of the window, and the level of the messages.
pub open spec fn play_args(channel: ChannelModel, ytdl_path: Option<Seq<char>>) -> Seq<Seq<char>> {
    seq![channel.url] + (if keeps_position(channel.url) {
        seq!["--save-position-on-quit"@]
    } else {
        Seq::empty()
    }) + (match ytdl_path {
        Some(path) => seq!["--script-opts=ytdl_hook-ytdl_path="@ + path],
        None => Seq::empty(),
    }) + seq!["--title="@ + channel.name, "--msg-level=all=error"@]
}

/// The characters of an optional string slice.
pub open spec fn optional_str(text: Option<&str>) -> Option<Seq<char>> {
    match text {
        Some(s) => Some(s@),
        None => None,
    }
}

/// The arguments with which the player is started for a channel.
pub fn get_play_args(channel: &Channel, ytdl_path: Option<&str>) -> (args: Vec<String>)
    ensures
        strings(args@) == play_args(channel@, optional_str(ytdl_path)),
{
    let mut args: Vec<String> = Vec::new();
    args.push(channel.url.clone());
    let url = to_chars(channel.url.as_str());
    let mkv = to_chars(".mkv");
    let mp4 = to_chars(".mp4");
    if ends_with(url.as_slice(), mkv.as_slice()) || ends_with(url.as_slice(), mp4.as_slice()) {
        args.push(String::from_str("--save-position-on-quit"));
    }
    match ytdl_path {
        Some(path) => {
            args.push(String::from_str("--script-opts=ytdl_hook-ytdl_path=").concat(path));
        },
        None => {},
    }
    args.push(String::from_str("--title=").concat(channel.name.as_str()));
    args.push(String::from_str("--msg-level=all=error"));
    assert(strings(args@) == play_args(channel@, optional_str(ytdl_path)));
    args
}

/// Whether the player needs to be told where the download helper is: on
/// macOS, where the player is not simply `mpv`.
pub open spec fn needs_ytdl_path(os: Seq<char>, player: Seq<char>) -> bool {
    os == "macos"@ && player != "mpv"@
}

/// Decides `needs_ytdl_path`.
pub fn wants_ytdl_path(os: &str, player: &str) -> (wanted: bool)
    ensures
        wanted == needs_ytdl_path(os@, player@),
{
    let os_chars = to_chars(os);
    let player_chars = to_chars(player);
    equals_str(os_chars.as_slice(), "macos") && !equals_str(player_chars.as_slice(), "mpv")
}

/// How the player is found.
#[derive(Debug, Clone, Copy, PartialEq, Eq, Structural)]
pub enum PlayerSource {
    /// The player is started as `mpv` and found by the system.
    SearchPath,
    /// The player is looked for in the directories where macOS package
    /// managers install it.
    MacosDirectories,
    /// The player is looked for with the `where` command of Windows.
    WindowsWhere,
}

/// How the player is found on an operating system, given whether a program
/// named `mpv` is on the search path.
pub open spec fn player_source(os: Seq<char>, on_path: bool) -> PlayerSource {
    if os == "linux"@ || on_path {
        PlayerSource::SearchPath
    } else if os == "macos"@ {
        PlayerSource::MacosDirectories
    } else {
        PlayerSource::WindowsWhere
    }
}

/// Decides `player_source`.
pub fn choose_player_source(os: &str, on_path: bool) -> (source: PlayerSource)
    ensures
        source == player_source(os@, on_path),
{
    let os_chars = to_chars(os);
    if on_path || equals_str(os_chars.as_slice(), "linux") {
        PlayerSource::SearchPath
    } else if equals_str(os_chars.as_slice(), "macos") {
        PlayerSource::MacosDirectories
    } else {
        PlayerSource::WindowsWhere
    }
}

/// Asks `which::which` for a program of the given name and says whether it
/// found one. The answer depends on the search path of the process and on
/// what is on disk, so nothing is promised of it.
#[verifier::external_body]
fn is_on_path(program: &str) -> bool {
    which::which(program).is_ok()
}

/// How the player is found on an operating system.
///
/// On Linux it is started as `mpv` without a look at the search path.
/// Elsewhere the search path is asked for a program named `mpv`, and the
/// answer decides as `player_source` says.
pub fn get_mpv_path(os: &str) -> (source: PlayerSource)
    ensures
        os@ == "linux"@ ==> source == PlayerSource::SearchPath,
        source == player_source(os@, true) || source == player_source(os@, false),
{
    let os_chars = to_chars(os);
    if equals_str(os_chars.as_slice(), "linux") {
        PlayerSource::SearchPath
    } else {
        choose_player_source(os, is_on_path("mpv"))
    }
}

/// The paths at which a program may be installed on macOS: in the
/// directories of MacPorts and of Homebrew on either kind of machine.
pub open spec fn macos_candidates(bin: Seq<char>) -> Seq<Seq<char>> {
    seq!["/opt/local/bin/"@ + bin, "/opt/homebrew/bin/"@ + bin, "/usr/local/bin/"@ + bin]
}

/// The paths at which a program may be installed on macOS.
pub fn macos_bin_candidates(bin: &str) -> (paths: Vec<String>)
    ensures
        strings(paths@) == macos_candidates(bin@),
{
    let mut paths: Vec<String> = Vec::new();
    paths.push(String::from_str("/opt/local/bin/").concat(bin));
    paths.push(String::from_str("/opt/homebrew/bin/").concat(bin));
    paths.push(String::from_str("/usr/local/bin/").concat(bin));
    assert(strings(paths@) == macos_candidates(bin@));
    paths
}

/// The first of the candidates that exists, or the fallback if none does.
/// A candidate of which `exists` does not speak counts as absent.
pub open spec fn first_existing(
    candidates: Seq<Seq<char>>,
    exists: Seq<bool>,
    fallback: Seq<char>,
) -> Seq<char>
    decreases candidates.len(),
{
    if candidates.len() == 0 || exists.len() == 0 {
        fallback
    } else if exists[0] {
        candidates[0]
    } else {
        first_existing(candidates.drop_first(), exists.drop_first(), fallback)
    }
}

/// The path of a program on macOS: the first of its candidates that exists,
/// as `exists` says of each in turn, or the bare name if none does.
pub fn find_macos_bin(bin: String, exists: &Vec<bool>) -> (path: String)
    ensures
        path@ == first_existing(macos_candidates(bin@), exists@, bin@),
{
    let candidates = macos_bin_candidates(bin.as_str());
    let ghost all = strings(candidates@);
    let mut i: usize = 0;
    assert(all.skip(0) == all);
    assert(exists@.skip(0) == exists@);
    while i < candidates.len() && i < exists.len()
        invariant
            i <= candidates.len(),
            i <= exists.len(),
            all == strings(candidates@),
            all == macos_candidates(bin@),
            first_existing(all, exists@, bin@) == first_existing(
                all.skip(i as int),
                exists@.skip(i as int),
                bin@,
            ),
        decreases candidates.len() - i,
    {
        proof {
            assert(all.skip(i as int).drop_first() == all.skip(i + 1));
            assert(exists@.skip(i as int).drop_first() == exists@.skip(i + 1));
            assert(all.skip(i as int)[0] == candidates@[i as int]@);
            assert(exists@.skip(i as int)[0] == exists@[i as int]);
        }
        if exists[i] {
            return candidates[i].clone();
        }
        i += 1;
    }
    bin
}

/// The path of the player on Windows, from what the `where` command said:
/// its output without the white space around it, or `mpv` where the
/// command failed or said nothing.
pub open spec fn where_path(success: bool, output: Seq<char>) -> Seq<char> {
    if success && !is_blank(output) {
        trim(output)
    } else {
        "mpv"@
    }
}

/// The path of the player on Windows, from what the `where` command said.
pub fn find_executable_path_windows(success: bool, output: &str) -> (path: String)
    ensures
        path@ == where_path(success, output@),
{
    if !success {
        return String::from_str("mpv");
    }
    let chars = to_chars(output);
    let found = trimmed(chars.as_slice());
    if found.len() == 0 {
        String::from_str("mpv")
    } else {
        from_chars(found)
    }
}

} // verus!
