//! The screens of the application and the messages that move between them.
//!
//! There are three screens: the list of groups, the list of channels of one
//! group, and the settings. Each screen is a state with an `update` that
//! takes a message and says what is to happen next: nothing, another screen,
//! the playing of a channel, or the choice of a playlist file. What a screen
//! looks like is not decided here.

pub mod channel_view;
pub mod group_view;
pub mod settings_view;

pub use channel_view::ChannelView;
pub use group_view::GroupView;
pub use settings_view::SettingsView;

use crate::m3u::{Channel, ChannelModel};
use channel_view::ChannelViewModel;
use group_view::GroupViewModel;
use settings_view::SettingsViewModel;
use vstd::prelude::*;

verus! {

/// A message to the screen that is shown.
#[derive(Debug, Clone)]
pub enum ViewMessage {
    /// A message to the list of groups.
    GroupViewMessage(group_view::Message),
    /// A message to the list of channels.
    ChannelViewMessage(channel_view::Message),
    /// A message to the settings.
    SettingsViewMessage(settings_view::Message),
}

/// A screen with its state.
pub enum Screen {
    /// The list of groups.
    Groups(GroupView),
    /// The list of channels of one group.
    Channels(ChannelView),
    /// The settings.
    Settings(SettingsView),
}

/// What a `Screen` holds, as mathematical values.
pub enum ScreenModel {
    Groups(GroupViewModel),
    Channels(ChannelViewModel),
    Settings(SettingsViewModel),
}

impl View for Screen {
    type V = ScreenModel;

    open spec fn view(&self) -> ScreenModel {
        match self {
            Screen::Groups(view) => ScreenModel::Groups(view@),
            Screen::Channels(view) => ScreenModel::Channels(view@),
            Screen::Settings(view) => ScreenModel::Settings(view@),
        }
    }
}

/// What is to happen after a screen has taken a message.
pub enum Outcome {
    /// The screen stays.
    Stay,
    /// Another screen is shown.
    Show(Screen),
    /// The screen stays, and the channel is played.
    Play(Channel),
    /// The screen stays, and the user is asked for a playlist file.
    SelectFile,
}

/// What an `Outcome` holds, as mathematical values.
pub enum OutcomeModel {
    Stay,
    Show(ScreenModel),
    Play(ChannelModel),
    SelectFile,
}

impl View for Outcome {
    type V = OutcomeModel;

    open spec fn view(&self) -> OutcomeModel {
        match self {
            Outcome::Stay => OutcomeModel::Stay,
            Outcome::Show(screen) => OutcomeModel::Show(screen@),
            Outcome::Play(channel) => OutcomeModel::Play(channel@),
            Outcome::SelectFile => OutcomeModel::SelectFile,
        }
    }
}

impl Screen {
    /// Whether the screen can take a message.
    pub open spec fn accepts(model: ScreenModel, message: ViewMessage) -> bool {
        match model {
            ScreenModel::Groups(view) => GroupView::accepts(view, message),
            ScreenModel::Channels(view) => ChannelView::accepts(view, message),
            ScreenModel::Settings(_) => true,
        }
    }

    /// The state of the screen after a message, and what is to happen then.
    pub open spec fn step(model: ScreenModel, message: ViewMessage) -> (ScreenModel, OutcomeModel) {
        match model {
            ScreenModel::Groups(view) => {
                let (next, outcome) = GroupView::step(view, message);
                (ScreenModel::Groups(next), outcome)
            },
            ScreenModel::Channels(view) => {
                let (next, outcome) = ChannelView::step(view, message);
                (ScreenModel::Channels(next), outcome)
            },
            ScreenModel::Settings(view) => {
                let (next, outcome) = SettingsView::step(view, message);
                (ScreenModel::Settings(next), outcome)
            },
        }
    }

    /// Hands a message to the screen.
    pub fn update(&mut self, message: ViewMessage) -> (outcome: Outcome)
        requires
            Self::accepts(old(self)@, message),
        ensures
            (final(self)@, outcome@) == Self::step(old(self)@, message),
    {
        match self {
            Screen::Groups(view) => view.update(message),
            Screen::Channels(view) => view.update(message),
            Screen::Settings(view) => view.update(message),
        }
    }
}

} // verus!
