//! The list of the channels of one group, with its search field.

use super::group_view::GroupView;
use super::{Outcome, OutcomeModel, Screen, ScreenModel, ViewMessage};
use crate::m3u::{
    channel_models, clone_groups, group_models, optional_text, Channel, ChannelModel, Group,
    GroupModel,
};
use crate::search::{filter_channels, search_channels};
use vstd::prelude::*;

verus! {

/// The state of the list of channels.
pub struct ChannelView {
    /// The path of the playlist that the catalogue was loaded from.
    pub m3u_filepath: Option<String>,
    /// The catalogue, kept for the way back to the list of groups.
    pub groups: Vec<Group>,
    /// The channels of the group that is shown.
    pub channels: Vec<Channel>,
    /// The channels that the search text leaves, in the order of their rank.
    pub filtered_channels: Vec<Channel>,
    /// What the user has typed into the search field.
    pub search_text: String,
}

/// A message to the list of channels.
#[derive(Debug, Clone)]
pub enum Message {
    /// The user asks for the list of groups.
    BackToGroups,
    /// The user has chosen the channel at this place of the filtered list.
    ChannelSelected(usize),
    /// The user has changed the search text to this.
    SearchTextChanged(String),
}

/// What a `ChannelView` holds, as mathematical values.
pub struct ChannelViewModel {
    pub m3u_filepath: Option<Seq<char>>,
    pub groups: Seq<GroupModel>,
    pub channels: Seq<ChannelModel>,
    pub filtered_channels: Seq<ChannelModel>,
    pub search_text: Seq<char>,
}

impl View for ChannelView {
    type V = ChannelViewModel;

    open spec fn view(&self) -> ChannelViewModel {
        ChannelViewModel {
            m3u_filepath: optional_text(self.m3u_filepath),
            groups: group_models(self.groups@),
            channels: channel_models(self.channels@),
            filtered_channels: channel_models(self.filtered_channels@),
            search_text: self.search_text@,
        }
    }
}

impl ChannelView {
    /// The list of the channels of a group as it is first shown: with an
    /// empty search text and every channel listed.
    pub open spec fn opened(
        group: GroupModel,
        groups: Seq<GroupModel>,
        m3u_filepath: Option<Seq<char>>,
    ) -> ChannelViewModel {
        ChannelViewModel {
            m3u_filepath,
            groups,
            channels: group.channels,
            filtered_channels: group.channels,
            search_text: Seq::empty(),
        }
    }

    /// Whether the filtered list is what the search text leaves of the
    /// channels.
    pub open spec fn well_formed(model: ChannelViewModel) -> bool {
        model.filtered_channels == search_channels(model.search_text, model.channels)
    }

    /// Whether the list can take a message: a channel that is chosen must be
    /// on the filtered list.
    pub open spec fn accepts(model: ChannelViewModel, message: ViewMessage) -> bool {
        message matches ViewMessage::ChannelViewMessage(Message::ChannelSelected(index))
            ==> index < model.filtered_channels.len()
    }

    /// The state after a message, and what is to happen then.
    ///
    /// The way back opens the list of groups, a chosen channel is played,
    /// and a new search text filters the channels again. Messages to other
    /// screens change nothing.
    pub open spec fn step(model: ChannelViewModel, message: ViewMessage) -> (
        ChannelViewModel,
        OutcomeModel,
    ) {
        match message {
            ViewMessage::ChannelViewMessage(Message::BackToGroups) => (
                model,
                OutcomeModel::Show(
                    ScreenModel::Groups(GroupView::opened(model.groups, model.m3u_filepath)),
                ),
            ),
            ViewMessage::ChannelViewMessage(Message::ChannelSelected(index)) => (
                model,
                OutcomeModel::Play(model.filtered_channels[index as int]),
            ),
            ViewMessage::ChannelViewMessage(Message::SearchTextChanged(text)) => (
                ChannelViewModel {
                    search_text: text@,
                    filtered_channels: search_channels(text@, model.channels),
                    ..model
                },
                OutcomeModel::Stay,
            ),
            _ => (model, OutcomeModel::Stay),
        }
    }

    /// The list of the channels of a group, as it is first shown.
    pub fn new(group: Group, groups: Vec<Group>, m3u_filepath: Option<String>) -> (view: Self)
        ensures
            view@ == Self::opened(group@, group_models(groups@), optional_text(m3u_filepath)),
    {
        let channels = group.channels.clone();
        assert(channels@ == group.channels@);
        Self {
            m3u_filepath,
            groups,
            channels,
            filtered_channels: group.channels,
            search_text: String::new(),
        }
    }

    /// The message that the button at a place of the filtered list sends.
    pub fn on_press(index: usize) -> (message: ViewMessage)
        ensures
            message == ViewMessage::ChannelViewMessage(Message::ChannelSelected(index)),
    {
        ViewMessage::ChannelViewMessage(Message::ChannelSelected(index))
    }

    /// Takes a message.
    pub fn update(&mut self, message: ViewMessage) -> (outcome: Outcome)
        requires
            Self::accepts(old(self)@, message),
        ensures
            (final(self)@, outcome@) == Self::step(old(self)@, message),
            Self::well_formed(old(self)@) ==> Self::well_formed(final(self)@),
    {
        match message {
            ViewMessage::ChannelViewMessage(msg) => match msg {
                Message::BackToGroups => Outcome::Show(
                    Screen::Groups(
                        GroupView::new(clone_groups(&self.groups), self.m3u_filepath.clone()),
                    ),
                ),
                Message::ChannelSelected(index) => Outcome::Play(
                    self.filtered_channels[index].clone(),
                ),
                Message::SearchTextChanged(text) => {
                    self.search_text = text;
                    update_filtered_list(self);
                    Outcome::Stay
                },
            },
            _ => Outcome::Stay,
        }
    }
}

/// Filters the channels by the search text again.
pub fn update_filtered_list(state: &mut ChannelView)
    ensures
        final(state)@ == (ChannelViewModel {
            filtered_channels: search_channels(old(state)@.search_text, old(state)@.channels),
            ..old(state)@
        }),
        ChannelView::well_formed(final(state)@),
{
    state.filtered_channels = filter_channels(state.search_text.as_str(), &state.channels);
}

} // verus!
