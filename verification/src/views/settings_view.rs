//! The settings, where a playlist is chosen and loaded.

use super::group_view::GroupView;
use super::{Outcome, OutcomeModel, Screen, ScreenModel, ViewMessage};
use crate::m3u::{
    clone_groups, group_models, loaded, optional_text, parse_m3u, Group, GroupModel, LoadError,
    Source,
};
use vstd::prelude::*;

verus! {

/// A message to the settings.
#[derive(Debug, Clone)]
pub enum Message {
    /// The user asks for the list of groups.
    BackToGroups,
    /// The user asks to choose a playlist file.
    SelectFile,
}

/// The state of the settings.
pub struct SettingsView {
    /// The path of the playlist that was chosen last.
    pub m3u_path: Option<String>,
    /// The catalogue.
    pub groups: Vec<Group>,
}

/// What a `SettingsView` holds, as mathematical values.
pub struct SettingsViewModel {
    pub m3u_path: Option<Seq<char>>,
    pub groups: Seq<GroupModel>,
}

impl View for SettingsView {
    type V = SettingsViewModel;

    open spec fn view(&self) -> SettingsViewModel {
        SettingsViewModel {
            m3u_path: optional_text(self.m3u_path),
            groups: group_models(self.groups@),
        }
    }
}

/// The file that the user chose, and what came of reading it.
#[derive(Debug)]
pub struct Picked {
    /// The path of the file.
    pub path: String,
    /// What was read of the file.
    pub source: Source,
}

impl SettingsView {
    /// The state after the user was asked for a playlist file.
    ///
    /// Where the user chose none, there is no path and no catalogue any
    /// more. Where the user chose one, its path is kept, and its catalogue
    /// takes the place of the one before if it could be loaded; if not, the
    /// catalogue stays as it was.
    pub open spec fn refreshed(
        model: SettingsViewModel,
        picked: Option<Picked>,
    ) -> SettingsViewModel {
        match picked {
            None => SettingsViewModel { m3u_path: None, groups: Seq::empty() },
            Some(file) => SettingsViewModel {
                m3u_path: Some(file.path@),
                groups: match loaded(file.source) {
                    Ok(groups) => groups,
                    Err(_) => model.groups,
                },
            },
        }
    }

    /// What the attempt to load says: the number of groups that were
    /// loaded, or why there are none.
    pub open spec fn load_report(picked: Option<Picked>) -> Result<nat, LoadError> {
        match picked {
            None => Ok(0),
            Some(file) => match loaded(file.source) {
                Ok(groups) => Ok(groups.len()),
                Err(error) => Err(error),
            },
        }
    }

    /// The state after a message, and what is to happen then.
    ///
    /// The way back opens the list of groups, and a request for a file is
    /// handed on. Messages to other screens change nothing.
    pub open spec fn step(model: SettingsViewModel, message: ViewMessage) -> (
        SettingsViewModel,
        OutcomeModel,
    ) {
        match message {
            ViewMessage::SettingsViewMessage(Message::SelectFile) => (
                model,
                OutcomeModel::SelectFile,
            ),
            ViewMessage::SettingsViewMessage(Message::BackToGroups) => (
                model,
                OutcomeModel::Show(
                    ScreenModel::Groups(GroupView::opened(model.groups, model.m3u_path)),
                ),
            ),
            _ => (model, OutcomeModel::Stay),
        }
    }

    /// The settings for a catalogue and the path that it came from.
    pub fn new(groups: Vec<Group>, m3u_path: Option<String>) -> (view: Self)
        ensures
            view.groups == groups,
            view.m3u_path == m3u_path,
    {
        Self { groups, m3u_path }
    }

    /// Takes what came of asking the user for a playlist file.
    ///
    /// A playlist that cannot be loaded leaves the catalogue as it was and
    /// is reported with its reason: a file that is missing with
    /// `FileNotFound`.
    pub fn refresh_playlist(&mut self, picked: Option<Picked>) -> (report: Result<usize, LoadError>)
        ensures
            final(self)@ == Self::refreshed(old(self)@, picked),
            match Self::load_report(picked) {
                Ok(count) => report matches Ok(n) && n == count,
                Err(error) => report == Err::<usize, LoadError>(error),
            },
            picked matches Some(file) && file.source is Missing ==> {
                &&& report == Err::<usize, LoadError>(LoadError::FileNotFound)
                &&& final(self).groups == old(self).groups
            },
    {
        match picked {
            None => {
                self.m3u_path = None;
                self.groups = Vec::new();
                assert(group_models(self.groups@) == Seq::<GroupModel>::empty());
                Ok(0)
            },
            Some(file) => {
                self.m3u_path = Some(file.path);
                match parse_m3u(&file.source) {
                    Ok(groups) => {
                        let count: usize = groups.len();
                        self.groups = groups;
                        Ok(count)
                    },
                    Err(error) => Err(error),
                }
            },
        }
    }

    /// Takes a message.
    pub fn update(&mut self, message: ViewMessage) -> (outcome: Outcome)
        ensures
            (final(self)@, outcome@) == Self::step(old(self)@, message),
    {
        match message {
            ViewMessage::SettingsViewMessage(msg) => match msg {
                Message::SelectFile => Outcome::SelectFile,
                Message::BackToGroups => Outcome::Show(
                    Screen::Groups(
                        GroupView::new(clone_groups(&self.groups), self.m3u_path.clone()),
                    ),
                ),
            },
            _ => Outcome::Stay,
        }
    }
}

} // verus!
