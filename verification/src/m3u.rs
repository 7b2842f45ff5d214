//! Channels, groups and the loading of a playlist into a catalogue.

use crate::catalog::{build, catalog};
use crate::playlist::{parse, playlist_channels};
use vstd::prelude::*;

verus! {

/// Something that is shown, searched and ranked by its display name.
pub trait Named {
    /// The display name, as a sequence of characters.
    spec fn name_spec(&self) -> Seq<char>;

    /// The display name.
    fn name(&self) -> (n: &str)
        ensures
            n@ == self.name_spec(),
    ;
}

/// One entry of a playlist: a stream or a file with what the playlist says
/// about it.
#[derive(Debug)]
pub struct Channel {
    /// The display name.
    pub name: String,
    /// Where the media is found: a URI or a path. It is never looked into.
    pub url: String,
    /// The identifier of the channel in a programme guide, if the playlist
    /// gives one.
    pub id: Option<String>,
    /// Where the logo of the channel is found, if the playlist says so.
    pub logo_url: Option<String>,
    /// The name of the group that the channel belongs to.
    pub group: String,
}

/// What a `Channel` holds, as mathematical values.
pub struct ChannelModel {
    pub name: Seq<char>,
    pub url: Seq<char>,
    pub id: Option<Seq<char>>,
    pub logo_url: Option<Seq<char>>,
    pub group: Seq<char>,
}

/// The characters of an optional string.
pub open spec fn optional_text(text: Option<String>) -> Option<Seq<char>> {
    match text {
        Some(s) => Some(s@),
        None => None,
    }
}

impl View for Channel {
    type V = ChannelModel;

    open spec fn view(&self) -> ChannelModel {
        ChannelModel {
            name: self.name@,
            url: self.url@,
            id: optional_text(self.id),
            logo_url: optional_text(self.logo_url),
            group: self.group@,
        }
    }
}

impl Channel {
    /// Whether the channel is as a playlist gives it: with a group that has
    /// a name.
    pub open spec fn well_formed(&self) -> bool {
        self.group@.len() > 0
    }
}

impl Clone for Channel {
    fn clone(&self) -> (copy: Self)
        ensures
            copy == *self,
    {
        Channel {
            name: self.name.clone(),
            url: self.url.clone(),
            id: self.id.clone(),
            logo_url: self.logo_url.clone(),
            group: self.group.clone(),
        }
    }
}

impl Named for Channel {
    open spec fn name_spec(&self) -> Seq<char> {
        self.name@
    }

    fn name(&self) -> (n: &str) {
        self.name.as_str()
    }
}

/// The models of a sequence of channels.
pub open spec fn channel_models(channels: Seq<Channel>) -> Seq<ChannelModel> {
    channels.map_values(|c: Channel| c@)
}

/// A named list of channels.
#[derive(Debug)]
pub struct Group {
    /// The name of the group, which no other group of the same catalogue has.
    pub name: String,
    /// The channels of the group, in the order of the playlist.
    pub channels: Vec<Channel>,
}

/// What a `Group` holds, as mathematical values.
pub struct GroupModel {
    pub name: Seq<char>,
    pub channels: Seq<ChannelModel>,
}

impl View for Group {
    type V = GroupModel;

    open spec fn view(&self) -> GroupModel {
        GroupModel { name: self.name@, channels: channel_models(self.channels@) }
    }
}

impl Clone for Group {
    fn clone(&self) -> (copy: Self)
        ensures
            copy.name == self.name,
            copy.channels@ == self.channels@,
            copy@ == self@,
    {
        let channels = self.channels.clone();
        assert(channels@ =~= self.channels@);
        Group { name: self.name.clone(), channels }
    }
}

impl Named for Group {
    open spec fn name_spec(&self) -> Seq<char> {
        self.name@
    }

    fn name(&self) -> (n: &str) {
        self.name.as_str()
    }
}

/// The models of a sequence of groups.
pub open spec fn group_models(groups: Seq<Group>) -> Seq<GroupModel> {
    groups.map_values(|g: Group| g@)
}

/// A copy of a list of groups.
pub fn clone_groups(groups: &Vec<Group>) -> (copy: Vec<Group>)
    ensures
        group_models(copy@) == group_models(groups@),
{
    let copy = groups.clone();
    assert(group_models(copy@) =~= group_models(groups@));
    copy
}

/// What came of the attempt to read a playlist file.
#[derive(Debug)]
pub enum Source {
    /// There is no file at the path.
    Missing,
    /// There is a file, but it could not be opened or read.
    Unreadable,
    /// The text of the file.
    Text(String),
}

/// Why a playlist could not be loaded.
#[derive(Debug, Clone, Copy, PartialEq, Eq, Structural)]
pub enum LoadError {
    /// There is no file at the path.
    FileNotFound,
    /// The file could not be opened or read.
    StreamError,
}

impl LoadError {
    /// The error in words.
    pub fn message(&self) -> (text: &'static str)
        ensures
            text@ == match self {
                LoadError::FileNotFound => "File not found"@,
                LoadError::StreamError => "The playlist could not be read"@,
            },
    {
        match self {
            LoadError::FileNotFound => "File not found",
            LoadError::StreamError => "The playlist could not be read",
        }
    }
}

/// The catalogue of a playlist file, or the reason why there is none.
pub open spec fn loaded(source: Source) -> Result<Seq<GroupModel>, LoadError> {
    match source {
        Source::Missing => Err(LoadError::FileNotFound),
        Source::Unreadable => Err(LoadError::StreamError),
        Source::Text(text) => Ok(catalog(playlist_channels(text@))),
    }
}

/// Loads the catalogue of a playlist from what was read of its file.
///
/// A file that is missing gives `FileNotFound`, one that could not be read
/// gives `StreamError`, and any text gives the catalogue of the channels
/// that it describes: a load gives a whole catalogue or none.
pub fn parse_m3u(source: &Source) -> (result: Result<Vec<Group>, LoadError>)
    ensures
        match loaded(*source) {
            Ok(groups) => result matches Ok(read) && group_models(read@) == groups,
            Err(error) => result == Err::<Vec<Group>, LoadError>(error),
        },
{
    match source {
        Source::Missing => Err(LoadError::FileNotFound),
        Source::Unreadable => Err(LoadError::StreamError),
        Source::Text(text) => Ok(build(parse(text.as_str()))),
    }
}

} // verus!
