//! The reading of a playlist text into channels.
//!
//! A playlist is read line by line, each line without the white space around
//! it. Empty lines are skipped, and so are lines that start with `#`, except
//! an information line, which starts with `#EXTINF:`. Any other line gives the
//! location of an entry. An entry is an information line and the first
//! location after it; once an information line is read, further lines that
//! start with `#` are skipped until that location comes. A location with no
//! information line before it gives no channel, nor does an entry whose
//! information line cannot be read.

use crate::extinf::{
    extinf, lemma_lookup_absent, parse_extinf, tagged, Attribute, ExtInf, ExtInfModel,
};
use crate::m3u::{channel_models, Channel, ChannelModel};
use crate::text::{
    from_chars, lemma_run_len, run_len, scan, starts_with, to_chars, trim, trimmed, CharClass,
};
use vstd::prelude::*;
use vstd::slice::slice_subrange;

verus! {

/// The lines of a text: what stands between its line feeds. A text that ends
/// with a line feed has no empty line after it.
pub open spec fn lines(text: Seq<char>) -> Seq<Seq<char>>
    decreases text.len(),
{
    let len = run_len(text, CharClass::LineText);
    if text.len() == 0 {
        Seq::empty()
    } else if len >= text.len() {
        seq![text]
    } else {
        seq![text.take(len as int)] + lines(text.skip(len as int + 1))
    }
}

/// What a line of a playlist is.
pub enum LineKind {
    /// Nothing but white space.
    Blank,
    /// A line that starts with `#` and is no information line.
    Comment,
    /// An information line, with the text after its tag.
    Info(Seq<char>),
    /// The location of an entry, without the white space around it.
    Location(Seq<char>),
}

/// The kind of a line.
pub open spec fn classify(line: Seq<char>) -> LineKind {
    let content = trim(line);
    if content.len() == 0 {
        LineKind::Blank
    } else if content[0] != '#' {
        LineKind::Location(content)
    } else if "#EXTINF:"@.is_prefix_of(content) {
        LineKind::Info(content.skip("#EXTINF:"@.len() as int))
    } else {
        LineKind::Comment
    }
}

/// The group of a channel: the title that its information line gives, or
/// `Autres` where the line gives none or an empty one.
pub open spec fn group_of(title: Option<Seq<char>>) -> Seq<char> {
    match title {
        Some(t) => if t.len() > 0 {
            t
        } else {
            "Autres"@
        },
        None => "Autres"@,
    }
}

/// The channel that an information line and a location make.
pub open spec fn channel_of(info: ExtInfModel, location: Seq<char>) -> ChannelModel {
    ChannelModel {
        name: info.name,
        url: location,
        id: info.id,
        logo_url: info.logo_url,
        group: group_of(info.group_title),
    }
}

/// The channels that a sequence of lines gives. `pending` is the text of an
/// information line that was read before these lines and still waits for its
/// location.
pub open spec fn entries(lines: Seq<Seq<char>>, pending: Option<Seq<char>>) -> Seq<ChannelModel>
    decreases lines.len(),
{
    if lines.len() == 0 {
        Seq::empty()
    } else {
        let rest = lines.drop_first();
        match classify(lines[0]) {
            LineKind::Blank => entries(rest, pending),
            LineKind::Comment => entries(rest, pending),
            LineKind::Info(info) => entries(
                rest,
                if pending is None {
                    Some(info)
                } else {
                    pending
                },
            ),
            LineKind::Location(location) => match pending {
                Some(info) => match extinf(info) {
                    Some(read) => seq![channel_of(read, location)] + entries(rest, None),
                    None => entries(rest, None),
                },
                None => entries(rest, None),
            },
        }
    }
}

/// The channels of a playlist text, in the order of the text.
pub open spec fn playlist_channels(text: Seq<char>) -> Seq<ChannelModel> {
    entries(lines(text), None)
}

/// The characters of an optional slice.
pub open spec fn optional_chars(slice: Option<&[char]>) -> Option<Seq<char>> {
    match slice {
        Some(s) => Some(s@),
        None => None,
    }
}

/// The group of a channel has a name, whatever title its information line
/// gives.
pub proof fn lemma_group_is_named(title: Option<Seq<char>>)
    ensures
        group_of(title).len() > 0,
{
    reveal_strlit("Autres");
}

/// An entry whose information line has no attribute `group-title` makes a
/// channel of the group `Autres`.
pub proof fn lemma_entry_without_group_title(
    name: Seq<char>,
    attributes: Seq<Attribute>,
    location: Seq<char>,
)
    requires
        forall|i: int|
            0 <= i < attributes.len() ==> (#[trigger] attributes[i]).key != "group-title"@,
    ensures
        channel_of(tagged(name, attributes), location).group == "Autres"@,
{
    lemma_lookup_absent(attributes, "group-title"@);
}

/// Every channel that a playlist gives has a group with a name.
pub proof fn lemma_channels_have_groups(lines: Seq<Seq<char>>, pending: Option<Seq<char>>)
    ensures
        forall|i: int|
            0 <= i < entries(lines, pending).len() ==> (#[trigger] entries(
                lines,
                pending,
            )[i]).group.len() > 0,
    decreases lines.len(),
{
    if lines.len() > 0 {
        let rest = lines.drop_first();
        match classify(lines[0]) {
            LineKind::Blank => lemma_channels_have_groups(rest, pending),
            LineKind::Comment => lemma_channels_have_groups(rest, pending),
            LineKind::Info(info) => lemma_channels_have_groups(
                rest,
                if pending is None {
                    Some(info)
                } else {
                    pending
                },
            ),
            LineKind::Location(location) => {
                lemma_channels_have_groups(rest, None);
                match pending {
                    Some(info) => match extinf(info) {
                        Some(read) => {
                            lemma_group_is_named(read.group_title);
                            let all = entries(lines, pending);
                            assert forall|i: int| 0 <= i < all.len() implies (#[trigger] all[i])
                                .group.len() > 0 by {
                                if i > 0 {
                                    assert(all[i] == entries(rest, None)[i - 1]);
                                }
                            }
                        },
                        None => {},
                    },
                    None => {},
                }
            },
        }
    }
}

/// Makes the channel of an entry from its information line and its location.
/// An entry whose information line gives no `group-title`, or an empty one,
/// is put into the group `Autres`.
pub fn make_channel(info: ExtInf, location: &[char]) -> (channel: Channel)
    ensures
        channel@ == channel_of(info@, location@),
        info.group_title is None ==> channel.group@ == "Autres"@,
        channel.well_formed(),
{
    proof {
        lemma_group_is_named(info@.group_title);
    }
    let group = match info.group_title {
        Some(title) => if title.as_str().is_empty() {
            "Autres".to_owned()
        } else {
            title
        },
        None => "Autres".to_owned(),
    };
    Channel {
        name: info.name,
        url: from_chars(location),
        id: info.id,
        logo_url: info.logo_url,
        group,
    }
}

/// Reads a playlist, given as characters, into its channels.
pub fn parse_chars(text: &[char]) -> (channels: Vec<Channel>)
    ensures
        channel_models(channels@) == playlist_channels(text@),
        forall|i: int| 0 <= i < channels.len() ==> (#[trigger] channels[i]).well_formed(),
{
    let tag = to_chars("#EXTINF:");
    let mut channels: Vec<Channel> = Vec::new();
    let mut pending: Option<&[char]> = None;
    let mut at: usize = 0;
    assert(text@.skip(0) == text@);
    assert(channel_models(channels@) + playlist_channels(text@) == playlist_channels(text@));
    while at < text.len()
        invariant
            at <= text.len(),
            tag@ == "#EXTINF:"@,
            playlist_channels(text@) == channel_models(channels@) + entries(
                lines(text@.skip(at as int)),
                optional_chars(pending),
            ),
        decreases text.len() - at,
    {
        let ghost tail = text@.skip(at as int);
        let ghost before = channel_models(channels@);
        let end = scan(text, at, CharClass::LineText);
        let next: usize = if end < text.len() {
            end + 1
        } else {
            end
        };
        let raw = slice_subrange(text, at, end);
        let ghost rest = lines(text@.skip(next as int));
        proof {
            assert(raw@ == tail.take(end - at));
            if end < text.len() {
                assert(tail.skip(end - at + 1) == text@.skip(next as int));
            } else {
                assert(raw@ == tail);
                assert(rest == Seq::<Seq<char>>::empty());
            }
            assert(lines(tail) == seq![raw@] + rest);
            assert(lines(tail)[0] == raw@);
            assert(lines(tail).drop_first() == rest);
        }
        let line = trimmed(raw);
        if line.len() == 0 {
        } else if line[0] != '#' {
            match pending {
                Some(info) => {
                    match parse_extinf(info) {
                        Some(read) => {
                            let channel = make_channel(read, line);
                            channels.push(channel);
                            proof {
                                let made = seq![channel_of(extinf(info@)->0, line@)];
                                assert(channel_models(channels@) == before + made);
                                assert(before + (made + entries(rest, None)) == (before + made)
                                    + entries(rest, None));
                            }
                        },
                        None => {},
                    }
                    pending = None;
                },
                None => {},
            }
        } else if starts_with(line, tag.as_slice()) {
            if pending.is_none() {
                pending = Some(slice_subrange(line, tag.len(), line.len()));
            }
        }
        at = next;
    }
    proof {
        assert(text@.skip(at as int) == Seq::<char>::empty());
        assert(channel_models(channels@) + Seq::<ChannelModel>::empty() == channel_models(
            channels@,
        ));
        lemma_channels_have_groups(lines(text@), None);
        assert forall|i: int| 0 <= i < channels.len() implies (#[trigger] channels[i])
            .well_formed() by {
            assert(channel_models(channels@)[i].group == channels[i].group@);
        }
    }
    channels
}

/// Reads a playlist into its channels.
///
/// Each entry of the playlist gives one channel, in the order of the
/// playlist. The channel has the display name of the entry, its location as
/// `url`, the values of `tvg-id` and `tvg-logo` as `id` and `logo_url`, and
/// the value of `group-title` as `group`, or `Autres` where that value is
/// missing or empty. Attributes with other keys are ignored, and an entry
/// whose information line cannot be read is left out.
pub fn parse(text: &str) -> (channels: Vec<Channel>)
    ensures
        channel_models(channels@) == playlist_channels(text@),
        forall|i: int| 0 <= i < channels.len() ==> (#[trigger] channels[i]).well_formed(),
{
    let chars = to_chars(text);
    parse_chars(chars.as_slice())
}

} // verus!
