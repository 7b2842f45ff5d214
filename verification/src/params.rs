//! The command line.
//!
//! After the name of the program the command line holds the playlist as
//! `-m <path>` or `--m3u <path>`. The option may be given more than once;
//! the last one counts. Anything else is an error.

use crate::m3u::optional_text;
use crate::text::{equals_str, to_chars};
use vstd::prelude::*;
use vstd::string::StringExecFns;

verus! {

/// What the command line asks for.
#[derive(Debug)]
pub struct Params {
    /// The path of the playlist.
    pub m3u_filepath: String,
}

/// Why a command line is refused.
#[derive(Debug)]
pub enum ParamsError {
    /// The option for the playlist is the last word, with no path after it.
    MissingValue,
    /// A word that is no option of the program.
    UnknownArgument(String),
    /// No playlist is given.
    MissingPlaylist,
    /// There is no file at the path of the playlist.
    FileNotFound(String),
}

/// What a `ParamsError` holds, as mathematical values.
pub enum ParamsErrorModel {
    MissingValue,
    UnknownArgument(Seq<char>),
    MissingPlaylist,
    FileNotFound(Seq<char>),
}

impl View for ParamsError {
    type V = ParamsErrorModel;

    open spec fn view(&self) -> ParamsErrorModel {
        match self {
            ParamsError::MissingValue => ParamsErrorModel::MissingValue,
            ParamsError::UnknownArgument(word) => ParamsErrorModel::UnknownArgument(word@),
            ParamsError::MissingPlaylist => ParamsErrorModel::MissingPlaylist,
            ParamsError::FileNotFound(path) => ParamsErrorModel::FileNotFound(path@),
        }
    }
}

/// The error in words.
pub open spec fn error_text(error: ParamsErrorModel) -> Seq<char> {
    match error {
        ParamsErrorModel::MissingValue => "Missing argument for -m"@,
        ParamsErrorModel::UnknownArgument(word) => "Unknown argument: "@ + word,
        ParamsErrorModel::MissingPlaylist => "Missing argument: -m"@,
        ParamsErrorModel::FileNotFound(path) => "File not found: "@ + path,
    }
}

impl ParamsError {
    /// The error in words.
    pub fn message(&self) -> (text: String)
        ensures
            text@ == error_text(self@),
    {
        match self {
            ParamsError::MissingValue => String::from_str("Missing argument for -m"),
            ParamsError::UnknownArgument(word) => String::from_str("Unknown argument: ").concat(
                word.as_str(),
            ),
            ParamsError::MissingPlaylist => String::from_str("Missing argument: -m"),
            ParamsError::FileNotFound(path) => String::from_str("File not found: ").concat(
                path.as_str(),
            ),
        }
    }
}

/// Whether a word is the option for the playlist.
pub open spec fn is_playlist_option(word: Seq<char>) -> bool {
    word == "-m"@ || word == "--m3u"@
}

/// The playlist that the words of a command line give, the name of the
/// program left out. `found` is the playlist that words before these gave.
pub open spec fn playlist_of(words: Seq<Seq<char>>, found: Option<Seq<char>>) -> Result<
    Seq<char>,
    ParamsErrorModel,
>
    decreases words.len(),
{
    if words.len() == 0 {
        match found {
            Some(path) => Ok(path),
            None => Err(ParamsErrorModel::MissingPlaylist),
        }
    } else if !is_playlist_option(words[0]) {
        Err(ParamsErrorModel::UnknownArgument(words[0]))
    } else if words.len() == 1 {
        Err(ParamsErrorModel::MissingValue)
    } else {
        playlist_of(words.skip(2), Some(words[1]))
    }
}

/// The texts of a sequence of strings.
pub open spec fn words_of(args: Seq<String>) -> Seq<Seq<char>> {
    args.map_values(|arg: String| arg@)
}

/// What a command line asks for. The first of `args` is the name of the
/// program and is passed over, as is its absence.
pub open spec fn parsed(args: Seq<String>) -> Result<Seq<char>, ParamsErrorModel> {
    if args.len() == 0 {
        Err(ParamsErrorModel::MissingPlaylist)
    } else {
        playlist_of(words_of(args).skip(1), None)
    }
}

/// Reads the command line.
pub fn parse_args(args: &Vec<String>) -> (result: Result<Params, ParamsError>)
    ensures
        match parsed(args@) {
            Ok(path) => result matches Ok(params) && params.m3u_filepath@ == path,
            Err(error) => result matches Err(e) && e@ == error,
        },
{
    let mut m3u_filepath: Option<String> = None;
    let mut i: usize = 1;
    if args.len() == 0 {
        return Err(ParamsError::MissingPlaylist);
    }
    let ghost words = words_of(args@);
    while i < args.len()
        invariant
            1 <= i <= args.len(),
            words == words_of(args@),
            parsed(args@) == playlist_of(words.skip(i as int), optional_text(m3u_filepath)),
        decreases args.len() - i,
    {
        let ghost rest = words.skip(i as int);
        assert(rest[0] == args@[i as int]@);
        let word = to_chars(args[i].as_str());
        if !(equals_str(word.as_slice(), "-m") || equals_str(word.as_slice(), "--m3u")) {
            return Err(ParamsError::UnknownArgument(args[i].clone()));
        }
        if i + 1 >= args.len() {
            return Err(ParamsError::MissingValue);
        }
        assert(rest[1] == args@[i + 1]@);
        assert(rest.skip(2) == words.skip(i + 2));
        m3u_filepath = Some(args[i + 1].clone());
        i += 2;
    }
    assert(words.skip(i as int).len() == 0);
    match m3u_filepath {
        Some(path) => Ok(Params { m3u_filepath: path }),
        None => Err(ParamsError::MissingPlaylist),
    }
}

impl Params {
    /// Accepts the parameters if there is a file at the path of the
    /// playlist, which `exists` says, and refuses them if there is none.
    pub fn checked(self, exists: bool) -> (result: Result<Params, ParamsError>)
        ensures
            exists ==> (result matches Ok(params) && params.m3u_filepath == self.m3u_filepath),
            !exists ==> (result matches Err(e) && e@ == ParamsErrorModel::FileNotFound(
                self.m3u_filepath@,
            )),
    {
        if exists {
            Ok(self)
        } else {
            Err(ParamsError::FileNotFound(self.m3u_filepath))
        }
    }
}

} // verus!
