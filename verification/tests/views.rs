use rustream::m3u::{Channel, Group, LoadError, Source};
use rustream::ui::{App, Effect};
use rustream::views::channel_view::{self, update_filtered_list};
use rustream::views::group_view::{self, update_filtered_groups};
use rustream::views::settings_view::{self, Picked};
use rustream::views::{ChannelView, GroupView, Outcome, Screen, SettingsView, ViewMessage};

fn channel(name: &str, group: &str) -> Channel {
    Channel {
        name: name.to_string(),
        url: format!("u:{}", name),
        id: None,
        logo_url: None,
        group: group.to_string(),
    }
}

fn catalogue() -> Vec<Group> {
    vec![
        Group {
            name: "News".to_string(),
            channels: vec![channel("BBC One", "News"), channel("Sky News", "News"), channel("CBBC", "News")],
        },
        Group { name: "Sport".to_string(), channels: vec![channel("Eurosport", "Sport")] },
        Group { name: "Autres".to_string(), channels: vec![channel("ITV", "Autres")] },
    ]
}

fn group_names(groups: &[Group]) -> Vec<String> {
    groups.iter().map(|g| g.name.clone()).collect()
}

fn channel_names(channels: &[Channel]) -> Vec<String> {
    channels.iter().map(|c| c.name.clone()).collect()
}

fn search_groups(text: &str) -> ViewMessage {
    ViewMessage::GroupViewMessage(group_view::Message::SearchTextChanged(text.to_string()))
}

fn search_channels(text: &str) -> ViewMessage {
    ViewMessage::ChannelViewMessage(channel_view::Message::SearchTextChanged(text.to_string()))
}

fn playlist() -> Picked {
    Picked {
        path: "/lists/tv.m3u".to_string(),
        source: Source::Text(
            "#EXTINF:-1 group-title=\"News\",BBC One\nu1\n#EXTINF:-1,ITV\nu2\n".to_string(),
        ),
    }
}

#[test]
fn group_view_opens_with_every_group() {
    let view = GroupView::new(catalogue(), Some("p.m3u".to_string()));
    assert_eq!(view.m3u_path, Some("p.m3u".to_string()));
    assert_eq!(group_names(&view.groups), vec!["News", "Sport", "Autres"]);
    assert_eq!(group_names(&view.filtered_groups), vec!["News", "Sport", "Autres"]);
    assert_eq!(view.filtered_groups[0].channels.len(), 3);
    assert_eq!(view.search_text, "");
}

#[test]
fn group_view_filters_on_search_text() {
    let mut view = GroupView::new(catalogue(), None);
    assert!(matches!(view.update(search_groups("s")), Outcome::Stay));
    assert_eq!(view.search_text, "s");
    assert_eq!(group_names(&view.filtered_groups), vec!["Sport", "News", "Autres"]);
    assert_eq!(group_names(&view.groups), vec!["News", "Sport", "Autres"]);
    assert!(matches!(view.update(search_groups("sp")), Outcome::Stay));
    assert_eq!(group_names(&view.filtered_groups), vec!["Sport"]);
    assert!(matches!(view.update(search_groups("")), Outcome::Stay));
    assert_eq!(group_names(&view.filtered_groups), vec!["News", "Sport", "Autres"]);
}

#[test]
fn group_view_opens_the_chosen_group() {
    let mut view = GroupView::new(catalogue(), Some("p.m3u".to_string()));
    view.update(search_groups("sp"));
    let outcome = view.update(ViewMessage::GroupViewMessage(group_view::Message::GroupSelected(0)));
    match outcome {
        Outcome::Show(Screen::Channels(channels)) => {
            assert_eq!(channel_names(&channels.channels), vec!["Eurosport"]);
            assert_eq!(channel_names(&channels.filtered_channels), vec!["Eurosport"]);
            assert_eq!(channels.search_text, "");
            assert_eq!(channels.m3u_filepath, Some("p.m3u".to_string()));
            assert_eq!(group_names(&channels.groups), vec!["News", "Sport", "Autres"]);
        }
        _ => panic!("the list of channels was expected"),
    }
    assert_eq!(view.search_text, "sp");
    assert_eq!(group_names(&view.filtered_groups), vec!["Sport"]);
}

#[test]
fn group_view_opens_the_settings() {
    let mut view = GroupView::new(catalogue(), Some("p.m3u".to_string()));
    match view.update(ViewMessage::GroupViewMessage(group_view::Message::SettingsSelected)) {
        Outcome::Show(Screen::Settings(settings)) => {
            assert_eq!(settings.m3u_path, Some("p.m3u".to_string()));
            assert_eq!(group_names(&settings.groups), vec!["News", "Sport", "Autres"]);
        }
        _ => panic!("the settings were expected"),
    }
}

#[test]
fn group_view_passes_over_messages_to_other_screens() {
    let mut view = GroupView::new(catalogue(), None);
    view.update(search_groups("sp"));
    assert!(matches!(view.update(search_channels("x")), Outcome::Stay));
    assert!(matches!(
        view.update(ViewMessage::SettingsViewMessage(settings_view::Message::SelectFile)),
        Outcome::Stay
    ));
    assert!(matches!(
        view.update(ViewMessage::ChannelViewMessage(channel_view::Message::ChannelSelected(99))),
        Outcome::Stay
    ));
    assert_eq!(view.search_text, "sp");
    assert_eq!(group_names(&view.filtered_groups), vec!["Sport"]);
}

#[test]
fn filtered_groups_follow_the_search_text() {
    let mut view = GroupView::new(catalogue(), None);
    view.search_text = "news".to_string();
    update_filtered_groups(&mut view);
    assert_eq!(group_names(&view.filtered_groups), vec!["News"]);
    assert_eq!(channel_names(&view.filtered_groups[0].channels), vec!["BBC One", "Sky News", "CBBC"]);
    view.search_text = "  ".to_string();
    update_filtered_groups(&mut view);
    assert_eq!(group_names(&view.filtered_groups), vec!["News", "Sport", "Autres"]);
}

#[test]
fn channel_view_opens_with_every_channel() {
    let groups = catalogue();
    let view = ChannelView::new(groups[0].clone(), groups, Some("p.m3u".to_string()));
    assert_eq!(channel_names(&view.channels), vec!["BBC One", "Sky News", "CBBC"]);
    assert_eq!(channel_names(&view.filtered_channels), vec!["BBC One", "Sky News", "CBBC"]);
    assert_eq!(view.search_text, "");
    assert_eq!(view.m3u_filepath, Some("p.m3u".to_string()));
    assert_eq!(group_names(&view.groups), vec!["News", "Sport", "Autres"]);
}

#[test]
fn channel_view_filters_on_search_text() {
    let groups = catalogue();
    let mut view = ChannelView::new(groups[0].clone(), groups, None);
    assert!(matches!(view.update(search_channels("bbc")), Outcome::Stay));
    assert_eq!(view.search_text, "bbc");
    assert_eq!(channel_names(&view.filtered_channels), vec!["BBC One", "CBBC"]);
    assert_eq!(channel_names(&view.channels), vec!["BBC One", "Sky News", "CBBC"]);
    assert!(matches!(view.update(search_channels("cb")), Outcome::Stay));
    assert_eq!(channel_names(&view.filtered_channels), vec!["CBBC", "BBC One"]);
    assert!(matches!(view.update(search_channels(" ")), Outcome::Stay));
    assert_eq!(channel_names(&view.filtered_channels), vec!["BBC One", "Sky News", "CBBC"]);
}

#[test]
fn channel_view_plays_the_chosen_channel() {
    let groups = catalogue();
    let mut view = ChannelView::new(groups[0].clone(), groups, None);
    view.update(search_channels("cb"));
    match view.update(ChannelView::on_press(1)) {
        Outcome::Play(channel) => {
            assert_eq!(channel.name, "BBC One");
            assert_eq!(channel.url, "u:BBC One");
        }
        _ => panic!("a channel to play was expected"),
    }
    assert_eq!(channel_names(&view.filtered_channels), vec!["CBBC", "BBC One"]);
}

#[test]
fn channel_view_goes_back_to_the_groups() {
    let groups = catalogue();
    let mut view = ChannelView::new(groups[1].clone(), groups, Some("p.m3u".to_string()));
    view.update(search_channels("zzz"));
    match view.update(ViewMessage::ChannelViewMessage(channel_view::Message::BackToGroups)) {
        Outcome::Show(Screen::Groups(list)) => {
            assert_eq!(group_names(&list.groups), vec!["News", "Sport", "Autres"]);
            assert_eq!(group_names(&list.filtered_groups), vec!["News", "Sport", "Autres"]);
            assert_eq!(list.search_text, "");
            assert_eq!(list.m3u_path, Some("p.m3u".to_string()));
        }
        _ => panic!("the list of groups was expected"),
    }
}

#[test]
fn channel_view_passes_over_messages_to_other_screens() {
    let groups = catalogue();
    let mut view = ChannelView::new(groups[0].clone(), groups, None);
    assert!(matches!(view.update(search_groups("x")), Outcome::Stay));
    assert!(matches!(
        view.update(ViewMessage::GroupViewMessage(group_view::Message::GroupSelected(99))),
        Outcome::Stay
    ));
    assert_eq!(view.search_text, "");
    assert_eq!(view.filtered_channels.len(), 3);
}

#[test]
fn button_sends_the_place_of_its_channel() {
    match ChannelView::on_press(7) {
        ViewMessage::ChannelViewMessage(channel_view::Message::ChannelSelected(7)) => {}
        other => panic!("{:?}", other),
    }
}

#[test]
fn filtered_channels_follow_the_search_text() {
    let groups = catalogue();
    let mut view = ChannelView::new(groups[0].clone(), groups, None);
    view.search_text = "sky".to_string();
    update_filtered_list(&mut view);
    assert_eq!(channel_names(&view.filtered_channels), vec!["Sky News"]);
    view.search_text = String::new();
    update_filtered_list(&mut view);
    assert_eq!(channel_names(&view.filtered_channels), vec!["BBC One", "Sky News", "CBBC"]);
}

#[test]
fn settings_hand_on_the_request_for_a_file() {
    let mut view = SettingsView::new(catalogue(), None);
    assert!(matches!(
        view.update(ViewMessage::SettingsViewMessage(settings_view::Message::SelectFile)),
        Outcome::SelectFile
    ));
    assert_eq!(view.groups.len(), 3);
    assert!(matches!(view.update(search_groups("x")), Outcome::Stay));
}

#[test]
fn settings_go_back_to_the_groups() {
    let mut view = SettingsView::new(catalogue(), Some("p.m3u".to_string()));
    match view.update(ViewMessage::SettingsViewMessage(settings_view::Message::BackToGroups)) {
        Outcome::Show(Screen::Groups(list)) => {
            assert_eq!(group_names(&list.groups), vec!["News", "Sport", "Autres"]);
            assert_eq!(list.m3u_path, Some("p.m3u".to_string()));
        }
        _ => panic!("the list of groups was expected"),
    }
}

#[test]
fn loading_a_playlist_replaces_the_catalogue() {
    let mut view = SettingsView::new(catalogue(), Some("old.m3u".to_string()));
    assert_eq!(view.refresh_playlist(Some(playlist())), Ok(2));
    assert_eq!(view.m3u_path, Some("/lists/tv.m3u".to_string()));
    assert_eq!(group_names(&view.groups), vec!["News", "Autres"]);
    assert_eq!(channel_names(&view.groups[0].channels), vec!["BBC One"]);
}

#[test]
fn missing_file_leaves_the_catalogue_intact() {
    let mut view = SettingsView::new(catalogue(), Some("old.m3u".to_string()));
    let missing = Picked { path: "/no/such.m3u".to_string(), source: Source::Missing };
    assert_eq!(view.refresh_playlist(Some(missing)), Err(LoadError::FileNotFound));
    assert_eq!(group_names(&view.groups), vec!["News", "Sport", "Autres"]);
    assert_eq!(channel_names(&view.groups[0].channels), vec!["BBC One", "Sky News", "CBBC"]);
    assert_eq!(channel_names(&view.groups[1].channels), vec!["Eurosport"]);
    assert_eq!(channel_names(&view.groups[2].channels), vec!["ITV"]);
}

#[test]
fn unreadable_file_leaves_the_catalogue_intact() {
    let mut view = SettingsView::new(catalogue(), None);
    let broken = Picked { path: "/locked.m3u".to_string(), source: Source::Unreadable };
    assert_eq!(view.refresh_playlist(Some(broken)), Err(LoadError::StreamError));
    assert_eq!(group_names(&view.groups), vec!["News", "Sport", "Autres"]);
    assert_eq!(view.m3u_path, Some("/locked.m3u".to_string()));
}

#[test]
fn no_choice_clears_the_catalogue() {
    let mut view = SettingsView::new(catalogue(), Some("old.m3u".to_string()));
    assert_eq!(view.refresh_playlist(None), Ok(0));
    assert_eq!(view.m3u_path, None);
    assert_eq!(view.groups.len(), 0);
}

#[test]
fn application_starts_with_empty_settings() {
    let app = App::new();
    match &app.current_view {
        Screen::Settings(settings) => {
            assert_eq!(settings.m3u_path, None);
            assert_eq!(settings.groups.len(), 0);
        }
        _ => panic!("the settings were expected"),
    }
}

#[test]
fn application_walks_from_settings_to_a_channel_and_back() {
    let mut app = App::new();
    assert!(matches!(
        app.update(ViewMessage::SettingsViewMessage(settings_view::Message::SelectFile)),
        Effect::SelectFile
    ));
    assert_eq!(app.refresh_playlist(Some(playlist())), Some(Ok(2)));
    assert!(matches!(
        app.update(ViewMessage::SettingsViewMessage(settings_view::Message::BackToGroups)),
        Effect::Nothing
    ));
    match &app.current_view {
        Screen::Groups(list) => assert_eq!(group_names(&list.filtered_groups), vec!["News", "Autres"]),
        _ => panic!("the list of groups was expected"),
    }
    assert_eq!(app.refresh_playlist(Some(playlist())), None);
    assert!(matches!(app.update(search_groups("aut")), Effect::Nothing));
    assert!(matches!(
        app.update(ViewMessage::GroupViewMessage(group_view::Message::GroupSelected(0))),
        Effect::Nothing
    ));
    match &app.current_view {
        Screen::Channels(list) => assert_eq!(channel_names(&list.filtered_channels), vec!["ITV"]),
        _ => panic!("the list of channels was expected"),
    }
    match app.update(ChannelView::on_press(0)) {
        Effect::Play(channel) => assert_eq!(channel.url, "u2"),
        _ => panic!("a channel to play was expected"),
    }
    assert!(matches!(
        app.update(ViewMessage::ChannelViewMessage(channel_view::Message::BackToGroups)),
        Effect::Nothing
    ));
    match &app.current_view {
        Screen::Groups(list) => {
            assert_eq!(list.search_text, "");
            assert_eq!(group_names(&list.filtered_groups), vec!["News", "Autres"]);
        }
        _ => panic!("the list of groups was expected"),
    }
    assert!(matches!(
        app.update(ViewMessage::GroupViewMessage(group_view::Message::SettingsSelected)),
        Effect::Nothing
    ));
    assert!(matches!(&app.current_view, Screen::Settings(_)));
}

#[test]
fn application_keeps_its_catalogue_when_a_load_fails() {
    let mut app = App::new();
    assert_eq!(app.refresh_playlist(Some(playlist())), Some(Ok(2)));
    let missing = Picked { path: "/no/such.m3u".to_string(), source: Source::Missing };
    assert_eq!(app.refresh_playlist(Some(missing)), Some(Err(LoadError::FileNotFound)));
    match &app.current_view {
        Screen::Settings(settings) => {
            assert_eq!(group_names(&settings.groups), vec!["News", "Autres"]);
            assert_eq!(channel_names(&settings.groups[0].channels), vec!["BBC One"]);
        }
        _ => panic!("the settings were expected"),
    }
}
