//! The application: the screen that is shown, and what a message does to it.

use crate::m3u::{group_models, Channel, ChannelModel, GroupModel, LoadError};
use crate::views::settings_view::{Picked, SettingsViewModel};
use crate::views::{Outcome, OutcomeModel, Screen, ScreenModel, SettingsView, ViewMessage};
use vstd::prelude::*;

verus! {

/// The application. It starts with the settings and no catalogue.
pub struct App {
    /// The screen that is shown.
    pub current_view: Screen,
}

impl View for App {
    type V = ScreenModel;

    open spec fn view(&self) -> ScreenModel {
        self.current_view@
    }
}

/// What the application has to do outside itself after a message.
pub enum Effect {
    /// Nothing.
    Nothing,
    /// Play the channel.
    Play(Channel),
    /// Ask the user for a playlist file, and hand what comes of it to
    /// `App::refresh_playlist`.
    SelectFile,
}

/// What an `Effect` holds, as mathematical values.
pub enum EffectModel {
    Nothing,
    Play(ChannelModel),
    SelectFile,
}

impl View for Effect {
    type V = EffectModel;

    open spec fn view(&self) -> EffectModel {
        match self {
            Effect::Nothing => EffectModel::Nothing,
            Effect::Play(channel) => EffectModel::Play(channel@),
            Effect::SelectFile => EffectModel::SelectFile,
        }
    }
}

impl App {
    /// The screen after a message, and what is to be done outside: the
    /// screen takes the message, and where it asks for another screen, that
    /// one is shown.
    pub open spec fn step(model: ScreenModel, message: ViewMessage) -> (ScreenModel, EffectModel) {
        let (stayed, outcome) = Screen::step(model, message);
        match outcome {
            OutcomeModel::Stay => (stayed, EffectModel::Nothing),
            OutcomeModel::Show(next) => (next, EffectModel::Nothing),
            OutcomeModel::Play(channel) => (stayed, EffectModel::Play(channel)),
            OutcomeModel::SelectFile => (stayed, EffectModel::SelectFile),
        }
    }

    /// The screen after the user was asked for a playlist file. Only the
    /// settings take the answer.
    pub open spec fn refreshed(model: ScreenModel, picked: Option<Picked>) -> ScreenModel {
        match model {
            ScreenModel::Settings(view) => ScreenModel::Settings(
                SettingsView::refreshed(view, picked),
            ),
            _ => model,
        }
    }

    /// The application as it starts.
    pub fn new() -> (app: Self)
        ensures
            app@ == ScreenModel::Settings(
                SettingsViewModel { m3u_path: None, groups: Seq::empty() },
            ),
    {
        let groups = Vec::new();
        assert(group_models(groups@) == Seq::<GroupModel>::empty());
        Self { current_view: Screen::Settings(SettingsView::new(groups, None)) }
    }

    /// Takes a message.
    pub fn update(&mut self, message: ViewMessage) -> (effect: Effect)
        requires
            Screen::accepts(old(self)@, message),
        ensures
            (final(self)@, effect@) == Self::step(old(self)@, message),
    {
        match self.current_view.update(message) {
            Outcome::Stay => Effect::Nothing,
            Outcome::Show(next) => {
                self.current_view = next;
                Effect::Nothing
            },
            Outcome::Play(channel) => Effect::Play(channel),
            Outcome::SelectFile => Effect::SelectFile,
        }
    }

    /// Takes what came of asking the user for a playlist file. The result is
    /// `None` where the settings are not shown, and what the settings say
    /// of the load where they are.
    pub fn refresh_playlist(&mut self, picked: Option<Picked>) -> (report: Option<
        Result<usize, LoadError>,
    >)
        ensures
            final(self)@ == Self::refreshed(old(self)@, picked),
            report is Some <==> old(self)@ is Settings,
            report matches Some(said) ==> match SettingsView::load_report(picked) {
                Ok(count) => said matches Ok(n) && n == count,
                Err(error) => said == Err::<usize, LoadError>(error),
            },
    {
        match &mut self.current_view {
            Screen::Settings(view) => Some(view.refresh_playlist(picked)),
            _ => None,
        }
    }
}

} // verus!
