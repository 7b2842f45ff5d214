use rustream::catalog::build;
use rustream::extinf::{check_duration, find_header_end, parse_extinf};
use rustream::m3u::{parse_m3u, Channel, LoadError, Source};
use rustream::playlist::{make_channel, parse, parse_chars};

fn chars(s: &str) -> Vec<char> {
    s.chars().collect()
}

fn summary(c: &Channel) -> (String, String, Option<String>, Option<String>, String) {
    (c.name.clone(), c.url.clone(), c.id.clone(), c.logo_url.clone(), c.group.clone())
}

#[test]
fn two_entries_give_two_groups_in_order() {
    let text = "#EXTM3U\n#EXTINF:-1 group-title=\"News\",BBC One\nhttp://example.com/bbc1\n#EXTINF:-1,ITV\nhttp://example.com/itv\n";
    let groups = build(parse(text));
    assert_eq!(groups.len(), 2);
    assert_eq!(groups[0].name, "News");
    assert_eq!(groups[0].channels.len(), 1);
    assert_eq!(groups[0].channels[0].name, "BBC One");
    assert_eq!(groups[0].channels[0].url, "http://example.com/bbc1");
    assert_eq!(groups[1].name, "Autres");
    assert_eq!(groups[1].channels.len(), 1);
    assert_eq!(groups[1].channels[0].name, "ITV");
}

#[test]
fn entry_without_group_title_goes_to_autres() {
    let channels = parse("#EXTINF:-1 tvg-id=\"itv\",ITV\nhttp://example.com/itv\n");
    assert_eq!(channels.len(), 1);
    assert_eq!(channels[0].group, "Autres");
    assert_eq!(channels[0].id, Some("itv".to_string()));
}

#[test]
fn empty_group_title_goes_to_autres() {
    let channels = parse("#EXTINF:-1 group-title=\"\",ITV\nhttp://example.com/itv\n");
    assert_eq!(channels.len(), 1);
    assert_eq!(channels[0].group, "Autres");
}

#[test]
fn recognized_attributes_fill_the_channel() {
    let text = "#EXTINF:-1 tvg-id=\"bbc1\" tvg-logo=\"http://logos/bbc1.png\" group-title=\"News\",BBC One\nhttp://example.com/bbc1";
    let channels = parse(text);
    assert_eq!(channels.len(), 1);
    assert_eq!(
        summary(&channels[0]),
        (
            "BBC One".to_string(),
            "http://example.com/bbc1".to_string(),
            Some("bbc1".to_string()),
            Some("http://logos/bbc1.png".to_string()),
            "News".to_string()
        )
    );
}

#[test]
fn unknown_attributes_are_ignored() {
    let text = "#EXTINF:0 tvg-name=\"x\" catchup=\"default\" group-title=\"Sport\" radio=\"true\",Eurosport\n/media/eurosport.ts\n";
    let channels = parse(text);
    assert_eq!(channels.len(), 1);
    assert_eq!(
        summary(&channels[0]),
        (
            "Eurosport".to_string(),
            "/media/eurosport.ts".to_string(),
            None,
            None,
            "Sport".to_string()
        )
    );
}

#[test]
fn empty_attribute_value_is_kept_as_empty() {
    let channels = parse("#EXTINF:-1 tvg-id=\"\" tvg-logo=\"\",A\nu\n");
    assert_eq!(channels[0].id, Some(String::new()));
    assert_eq!(channels[0].logo_url, Some(String::new()));
}

#[test]
fn last_of_repeated_attributes_counts() {
    let channels = parse("#EXTINF:-1 group-title=\"A\" group-title=\"B\",Name\nu\n");
    assert_eq!(channels[0].group, "B");
}

#[test]
fn values_may_hold_commas_and_spaces() {
    let channels = parse("#EXTINF:-1 group-title=\"News, Sport\" tvg-id=\"a b\",One, Two\nu\n");
    assert_eq!(channels.len(), 1);
    assert_eq!(channels[0].group, "News, Sport");
    assert_eq!(channels[0].id, Some("a b".to_string()));
    assert_eq!(channels[0].name, "One, Two");
}

#[test]
fn unreadable_information_line_drops_the_entry() {
    let text = "#EXTINF:-1 group-title=\"News,Broken\nhttp://example.com/broken\n#EXTINF:-1,Good\nhttp://example.com/good\n";
    let channels = parse(text);
    assert_eq!(channels.len(), 1);
    assert_eq!(channels[0].name, "Good");
    assert_eq!(channels[0].url, "http://example.com/good");
}

#[test]
fn entry_without_duration_is_dropped() {
    assert_eq!(parse("#EXTINF:,Name\nu\n").len(), 0);
    assert_eq!(parse("#EXTINF:abc,Name\nu\n").len(), 0);
    assert_eq!(parse("#EXTINF:tvg-id=\"x\",Name\nu\n").len(), 0);
}

#[test]
fn attribute_without_quotes_drops_the_entry() {
    assert_eq!(parse("#EXTINF:-1 group-title=News,Name\nu\n").len(), 0);
    assert_eq!(parse("#EXTINF:-1 group-title,Name\nu\n").len(), 0);
    assert_eq!(parse("#EXTINF:-1 =\"x\",Name\nu\n").len(), 0);
}

#[test]
fn location_without_information_gives_no_channel() {
    let text = "http://example.com/alone\n#EXTINF:-1,Named\nhttp://example.com/named\nhttp://example.com/alone-too\n";
    let channels = parse(text);
    assert_eq!(channels.len(), 1);
    assert_eq!(channels[0].url, "http://example.com/named");
}

#[test]
fn information_without_location_gives_no_channel() {
    assert_eq!(parse("#EXTINF:-1,Name\n").len(), 0);
    assert_eq!(parse("#EXTINF:-1,Name\n\n# nothing more\n").len(), 0);
}

#[test]
fn comments_and_blank_lines_are_skipped() {
    let text = "\n\n#EXTM3U\n# a comment\n#EXTINF:-1,One\n\n#EXTVLCOPT:network-caching=1000\n   \nhttp://example.com/1\n";
    let channels = parse(text);
    assert_eq!(channels.len(), 1);
    assert_eq!(channels[0].name, "One");
    assert_eq!(channels[0].url, "http://example.com/1");
}

#[test]
fn first_information_line_waits_for_its_location() {
    let channels = parse("#EXTINF:-1,First\n#EXTINF:-1,Second\nu\n");
    assert_eq!(channels.len(), 1);
    assert_eq!(channels[0].name, "First");
}

#[test]
fn lines_are_trimmed() {
    let channels = parse("  #EXTINF:-1 group-title=\"G\" ,  Name with spaces \t\r\n\t http://example.com/x  \r\n");
    assert_eq!(channels.len(), 1);
    assert_eq!(channels[0].name, "Name with spaces");
    assert_eq!(channels[0].url, "http://example.com/x");
    assert_eq!(channels[0].group, "G");
}

#[test]
fn information_line_without_comma_has_empty_name() {
    let channels = parse("#EXTINF:-1 group-title=\"G\"\nu\n");
    assert_eq!(channels.len(), 1);
    assert_eq!(channels[0].name, "");
    assert_eq!(channels[0].group, "G");
}

#[test]
fn empty_text_has_no_channels() {
    assert_eq!(parse("").len(), 0);
    assert_eq!(parse("\n\n\n").len(), 0);
    assert_eq!(parse_chars(&[]).len(), 0);
}

#[test]
fn text_without_final_line_feed_is_read_to_the_end() {
    let channels = parse("#EXTINF:-1,Last\nhttp://example.com/last");
    assert_eq!(channels.len(), 1);
    assert_eq!(channels[0].url, "http://example.com/last");
}

#[test]
fn names_beyond_ascii_are_kept() {
    let channels = parse("#EXTINF:-1 group-title=\"Actualités\",Télé Zürich 日本\nhttp://example.com/é\n");
    assert_eq!(channels.len(), 1);
    assert_eq!(channels[0].name, "Télé Zürich 日本");
    assert_eq!(channels[0].group, "Actualités");
    assert_eq!(channels[0].url, "http://example.com/é");
}

#[test]
fn channels_come_in_the_order_of_the_text() {
    let channels = parse("#EXTINF:-1,A\n1\n#EXTINF:-1,B\n2\n#EXTINF:-1,C\n3\n");
    let names: Vec<&str> = channels.iter().map(|c| c.name.as_str()).collect();
    assert_eq!(names, vec!["A", "B", "C"]);
    let urls: Vec<&str> = channels.iter().map(|c| c.url.as_str()).collect();
    assert_eq!(urls, vec!["1", "2", "3"]);
}

#[test]
fn durations_are_decimal_numbers() {
    for good in ["0", "-1", "+5", "12.5", "5.", ".5", "-0.25"] {
        assert!(check_duration(&chars(good)), "{}", good);
    }
    for bad in ["", "-", "+", ".", "-.", "1e5", "inf", "1.2.3", "12a", "--1", "1-"] {
        assert!(!check_duration(&chars(bad)), "{}", bad);
    }
}

#[test]
fn header_ends_at_first_comma_outside_quotes() {
    assert_eq!(find_header_end(&chars("-1,Name")), 2);
    assert_eq!(find_header_end(&chars("-1 a=\"x,y\",Name, more")), 10);
    assert_eq!(find_header_end(&chars("-1 a=\"x")), 7);
    assert_eq!(find_header_end(&chars("-1 a=\"x,y")), 9);
    assert_eq!(find_header_end(&chars("")), 0);
    assert_eq!(find_header_end(&chars(",")), 0);
}

#[test]
fn information_text_is_read_into_its_parts() {
    let info = parse_extinf(&chars(" -1 tvg-id=\"i\"  tvg-logo=\"l\" other=\"o\" group-title=\"g\" , The Name ")).unwrap();
    assert_eq!(info.name, "The Name");
    assert_eq!(info.id, Some("i".to_string()));
    assert_eq!(info.logo_url, Some("l".to_string()));
    assert_eq!(info.group_title, Some("g".to_string()));
    assert!(parse_extinf(&chars("-1 tvg-id=\"i")).is_none());
    assert!(parse_extinf(&chars("")).is_none());
    let bare = parse_extinf(&chars("-1")).unwrap();
    assert_eq!(bare.name, "");
    assert_eq!(bare.id, None);
    assert_eq!(bare.logo_url, None);
    assert_eq!(bare.group_title, None);
}

#[test]
fn channel_is_made_from_information_and_location() {
    let info = parse_extinf(&chars("-1 tvg-id=\"i\",N")).unwrap();
    let channel = make_channel(info, &chars("file.ts"));
    assert_eq!(
        summary(&channel),
        ("N".to_string(), "file.ts".to_string(), Some("i".to_string()), None, "Autres".to_string())
    );
}

#[test]
fn missing_file_is_file_not_found() {
    assert_eq!(parse_m3u(&Source::Missing).unwrap_err(), LoadError::FileNotFound);
}

#[test]
fn unreadable_file_is_stream_error() {
    assert_eq!(parse_m3u(&Source::Unreadable).unwrap_err(), LoadError::StreamError);
}

#[test]
fn text_loads_into_a_catalogue() {
    let source = Source::Text("#EXTINF:-1 group-title=\"News\",BBC One\nu1\n#EXTINF:-1,ITV\nu2\n#EXTINF:-1 group-title=\"News\",Sky\nu3\n".to_string());
    let groups = parse_m3u(&source).unwrap();
    assert_eq!(groups.len(), 2);
    assert_eq!(groups[0].name, "News");
    let news: Vec<&str> = groups[0].channels.iter().map(|c| c.name.as_str()).collect();
    assert_eq!(news, vec!["BBC One", "Sky"]);
    assert_eq!(groups[1].name, "Autres");
    assert_eq!(groups[1].channels[0].name, "ITV");
}

#[test]
fn empty_text_loads_into_an_empty_catalogue() {
    assert_eq!(parse_m3u(&Source::Text(String::new())).unwrap().len(), 0);
}

#[test]
fn load_errors_have_messages() {
    assert_eq!(LoadError::FileNotFound.message(), "File not found");
    assert_eq!(LoadError::StreamError.message(), "The playlist could not be read");
}
