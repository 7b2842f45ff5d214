use rustream::catalog::{build, find_group};
use rustream::m3u::{clone_groups, Channel, Group, Named};

fn channel(name: &str, group: &str) -> Channel {
    Channel {
        name: name.to_string(),
        url: format!("http://example.com/{}", name),
        id: None,
        logo_url: None,
        group: group.to_string(),
    }
}

fn shape(groups: &[Group]) -> Vec<(String, Vec<String>)> {
    groups
        .iter()
        .map(|g| (g.name.clone(), g.channels.iter().map(|c| c.name.clone()).collect()))
        .collect()
}

#[test]
fn no_channels_no_groups() {
    assert_eq!(build(Vec::new()).len(), 0);
}

#[test]
fn groups_follow_first_appearance() {
    let channels = vec![
        channel("a", "Sport"),
        channel("b", "News"),
        channel("c", "Sport"),
        channel("d", "Kids"),
        channel("e", "News"),
        channel("f", "Sport"),
    ];
    let groups = build(channels);
    assert_eq!(
        shape(&groups),
        vec![
            ("Sport".to_string(), vec!["a".to_string(), "c".to_string(), "f".to_string()]),
            ("News".to_string(), vec!["b".to_string(), "e".to_string()]),
            ("Kids".to_string(), vec!["d".to_string()]),
        ]
    );
}

#[test]
fn every_permutation_of_three_labels_keeps_both_orders() {
    let labels = ["x", "y", "z"];
    let orders = [[0, 1, 2], [0, 2, 1], [1, 0, 2], [1, 2, 0], [2, 0, 1], [2, 1, 0]];
    for order in orders {
        let mut channels = Vec::new();
        for round in 0..3 {
            for &l in &order {
                channels.push(channel(&format!("{}{}", labels[l], round), labels[l]));
            }
        }
        let groups = build(channels);
        assert_eq!(groups.len(), 3);
        for (k, &l) in order.iter().enumerate() {
            assert_eq!(groups[k].name, labels[l]);
            let names: Vec<String> = groups[k].channels.iter().map(|c| c.name.clone()).collect();
            assert_eq!(
                names,
                vec![format!("{}0", labels[l]), format!("{}1", labels[l]), format!("{}2", labels[l])]
            );
        }
    }
}

#[test]
fn group_names_are_unique_and_channels_keep_their_group() {
    let channels = vec![
        channel("a", "A"),
        channel("b", "B"),
        channel("c", "A"),
        channel("d", "a"),
        channel("e", "B"),
    ];
    let groups = build(channels);
    assert_eq!(groups.len(), 3);
    for i in 0..groups.len() {
        for j in 0..i {
            assert_ne!(groups[i].name, groups[j].name);
        }
        for c in &groups[i].channels {
            assert_eq!(c.group, groups[i].name);
        }
    }
    let total: usize = groups.iter().map(|g| g.channels.len()).sum();
    assert_eq!(total, 5);
}

#[test]
fn same_channel_twice_is_kept_twice() {
    let groups = build(vec![channel("a", "A"), channel("a", "A")]);
    assert_eq!(shape(&groups), vec![("A".to_string(), vec!["a".to_string(), "a".to_string()])]);
}

#[test]
fn group_is_found_by_its_name() {
    let groups = build(vec![channel("a", "A"), channel("b", "B")]);
    assert_eq!(find_group(&groups, &"B".to_string()), Some(1));
    assert_eq!(find_group(&groups, &"A".to_string()), Some(0));
    assert_eq!(find_group(&groups, &"C".to_string()), None);
    assert_eq!(find_group(&Vec::new(), &"A".to_string()), None);
}

#[test]
fn channels_and_groups_are_named() {
    let c = channel("BBC One", "News");
    assert_eq!(c.name(), "BBC One");
    let groups = build(vec![c]);
    assert_eq!(groups[0].name(), "News");
}

#[test]
fn clones_are_equal_to_their_originals() {
    let c = Channel {
        name: "n".to_string(),
        url: "u".to_string(),
        id: Some("i".to_string()),
        logo_url: Some("l".to_string()),
        group: "g".to_string(),
    };
    let d = c.clone();
    assert_eq!(
        (d.name.as_str(), d.url.as_str(), d.id.as_deref(), d.logo_url.as_deref(), d.group.as_str()),
        ("n", "u", Some("i"), Some("l"), "g")
    );
    let groups = build(vec![c, channel("m", "g"), channel("o", "h")]);
    let copy = clone_groups(&groups);
    assert_eq!(shape(&copy), shape(&groups));
    let one = groups[0].clone();
    assert_eq!(one.name, "g");
    assert_eq!(one.channels.len(), 2);
}
