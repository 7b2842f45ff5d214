//! The list of groups, with its search field.

use super::channel_view::ChannelView;
use super::settings_view::{SettingsView, SettingsViewModel};
use super::{Outcome, OutcomeModel, Screen, ScreenModel, ViewMessage};
use crate::m3u::{clone_groups, group_models, optional_text, Group, GroupModel};
use crate::search::{filter_groups, search_groups};
use vstd::prelude::*;

verus! {

/// The state of the list of groups.
pub struct GroupView {
    /// The path of the playlist that the catalogue was loaded from.
    pub m3u_path: Option<String>,
    /// The catalogue.
    pub groups: Vec<Group>,
    /// The groups that the search text leaves, in the order of their rank.
    pub filtered_groups: Vec<Group>,
    /// What the user has typed into the search field.
    pub search_text: String,
}

/// A message to the list of groups.
#[derive(Debug, Clone)]
pub enum Message {
    /// The user has chosen the group at this place of the filtered list.
    GroupSelected(usize),
    /// The user asks for the settings.
    SettingsSelected,
    /// The user has changed the search text to this.
    SearchTextChanged(String),
}

/// What a `GroupView` holds, as mathematical values.
pub struct GroupViewModel {
    pub m3u_path: Option<Seq<char>>,
    pub groups: Seq<GroupModel>,
    pub filtered_groups: Seq<GroupModel>,
    pub search_text: Seq<char>,
}

impl View for GroupView {
    type V = GroupViewModel;

    open spec fn view(&self) -> GroupViewModel {
        GroupViewModel {
            m3u_path: optional_text(self.m3u_path),
            groups: group_models(self.groups@),
            filtered_groups: group_models(self.filtered_groups@),
            search_text: self.search_text@,
        }
    }
}

impl GroupView {
    /// The list of groups as it is first shown: with an empty search text
    /// and every group listed.
    pub open spec fn opened(
        groups: Seq<GroupModel>,
        m3u_path: Option<Seq<char>>,
    ) -> GroupViewModel {
        GroupViewModel { m3u_path, groups, filtered_groups: groups, search_text: Seq::empty() }
    }

    /// Whether the filtered list is what the search text leaves of the
    /// catalogue.
    pub open spec fn well_formed(model: GroupViewModel) -> bool {
        model.filtered_groups == search_groups(model.search_text, model.groups)
    }

    /// Whether the list can take a message: a group that is chosen must be
    /// on the filtered list.
    pub open spec fn accepts(model: GroupViewModel, message: ViewMessage) -> bool {
        message matches ViewMessage::GroupViewMessage(Message::GroupSelected(index))
            ==> index < model.filtered_groups.len()
    }

    /// The state after a message, and what is to happen then.
    ///
    /// A chosen group opens its list of channels, a request for the settings
    /// opens the settings, and a new search text filters the catalogue
    /// again. Messages to other screens change nothing.
    pub open spec fn step(model: GroupViewModel, message: ViewMessage) -> (
        GroupViewModel,
        OutcomeModel,
    ) {
        match message {
            ViewMessage::GroupViewMessage(Message::GroupSelected(index)) => (
                model,
                OutcomeModel::Show(
                    ScreenModel::Channels(
                        ChannelView::opened(
                            model.filtered_groups[index as int],
                            model.groups,
                            model.m3u_path,
                        ),
                    ),
                ),
            ),
            ViewMessage::GroupViewMessage(Message::SettingsSelected) => (
                model,
                OutcomeModel::Show(
                    ScreenModel::Settings(
                        SettingsViewModel { m3u_path: model.m3u_path, groups: model.groups },
                    ),
                ),
            ),
            ViewMessage::GroupViewMessage(Message::SearchTextChanged(text)) => (
                GroupViewModel {
                    search_text: text@,
                    filtered_groups: search_groups(text@, model.groups),
                    ..model
                },
                OutcomeModel::Stay,
            ),
            _ => (model, OutcomeModel::Stay),
        }
    }

    /// The list of the groups of a catalogue, as it is first shown.
    pub fn new(groups: Vec<Group>, m3u_path: Option<String>) -> (view: Self)
        ensures
            view@ == Self::opened(group_models(groups@), optional_text(m3u_path)),
    {
        let filtered_groups = clone_groups(&groups);
        Self { m3u_path, groups, filtered_groups, search_text: String::new() }
    }

    /// Takes a message.
    pub fn update(&mut self, message: ViewMessage) -> (outcome: Outcome)
        requires
            Self::accepts(old(self)@, message),
        ensures
            (final(self)@, outcome@) == Self::step(old(self)@, message),
            Self::well_formed(old(self)@) ==> Self::well_formed(final(self)@),
    {
        match message {
            ViewMessage::GroupViewMessage(msg) => match msg {
                Message::GroupSelected(index) => {
                    let selected = self.filtered_groups[index].clone();
                    Outcome::Show(
                        Screen::Channels(
                            ChannelView::new(
                                selected,
                                clone_groups(&self.groups),
                                self.m3u_path.clone(),
                            ),
                        ),
                    )
                },
                Message::SettingsSelected => Outcome::Show(
                    Screen::Settings(
                        SettingsView::new(clone_groups(&self.groups), self.m3u_path.clone()),
                    ),
                ),
                Message::SearchTextChanged(text) => {
                    self.search_text = text;
                    update_filtered_groups(self);
                    Outcome::Stay
                },
            },
            _ => Outcome::Stay,
        }
    }
}

/// Filters the catalogue by the search text again.
pub fn update_filtered_groups(state: &mut GroupView)
    ensures
        final(state)@ == (GroupViewModel {
            filtered_groups: search_groups(old(state)@.search_text, old(state)@.groups),
            ..old(state)@
        }),
        GroupView::well_formed(final(state)@),
{
    state.filtered_groups = filter_groups(state.search_text.as_str(), &state.groups);
}

} // verus!
