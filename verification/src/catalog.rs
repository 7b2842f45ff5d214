//! The grouping of channels into a catalogue.
//!
//! A catalogue is a list of groups. It holds one group for each group name
//! that occurs among the channels, in the order in which the names occur
//! first, and each group holds the channels of its name in the order in which
//! they were given.

use crate::m3u::{channel_models, group_models, Channel, ChannelModel, Group, GroupModel};
use vstd::prelude::*;

verus! {

/// The group names of a sequence of channels, each once, in the order in
/// which they occur first.
pub open spec fn group_names(channels: Seq<ChannelModel>) -> Seq<Seq<char>>
    decreases channels.len(),
{
    if channels.len() == 0 {
        Seq::empty()
    } else {
        let before = group_names(channels.drop_last());
        if before.contains(channels.last().group) {
            before
        } else {
            before.push(channels.last().group)
        }
    }
}

/// The channels of one group, in the order in which they were given.
pub open spec fn members(channels: Seq<ChannelModel>, group: Seq<char>) -> Seq<ChannelModel> {
    channels.filter(|c: ChannelModel| c.group == group)
}

/// The catalogue of a sequence of channels.
pub open spec fn catalog(channels: Seq<ChannelModel>) -> Seq<GroupModel> {
    let names = group_names(channels);
    Seq::new(
        names.len(),
        |i: int| GroupModel { name: names[i], channels: members(channels, names[i]) },
    )
}

/// Whether a list of groups is a catalogue: no two groups have the same
/// name, no group is empty, and each channel stands in the group that its
/// group name says.
pub open spec fn is_catalog(groups: Seq<GroupModel>) -> bool {
    &&& forall|k: int, l: int|
        0 <= k < l < groups.len() ==> (#[trigger] groups[k]).name != (#[trigger] groups[l]).name
    &&& forall|k: int| 0 <= k < groups.len() ==> (#[trigger] groups[k]).channels.len() > 0
    &&& forall|k: int, a: int|
        0 <= k < groups.len() && 0 <= a < groups[k].channels.len()
            ==> (#[trigger] groups[k].channels[a]).group == groups[k].name
}

/// The group name of each channel is among the group names.
pub proof fn lemma_group_is_listed(channels: Seq<ChannelModel>, i: int)
    requires
        0 <= i < channels.len(),
    ensures
        group_names(channels).contains(channels[i].group),
    decreases channels.len(),
{
    let head = channels.drop_last();
    let before = group_names(head);
    let names = group_names(channels);
    if i < head.len() {
        lemma_group_is_listed(head, i);
        let k = choose|k: int| 0 <= k < before.len() && before[k] == head[i].group;
        assert(names[k] == channels[i].group);
    } else if before.contains(channels[i].group) {
    } else {
        assert(names[names.len() - 1] == channels[i].group);
    }
}

/// Each of the group names is the group name of a channel.
pub proof fn lemma_listed_group_has_channel(channels: Seq<ChannelModel>, name: Seq<char>) -> (i:
    int)
    requires
        group_names(channels).contains(name),
    ensures
        0 <= i < channels.len(),
        channels[i].group == name,
    decreases channels.len(),
{
    let head = channels.drop_last();
    let before = group_names(head);
    if channels.len() == 0 {
        assert(false);
        0
    } else if before.contains(name) {
        lemma_listed_group_has_channel(head, name)
    } else {
        let names = group_names(channels);
        let k = choose|k: int| 0 <= k < names.len() && names[k] == name;
        if k < before.len() {
            assert(before[k] == name);
        }
        channels.len() - 1
    }
}

/// No group name is listed twice.
pub proof fn lemma_group_names_distinct(channels: Seq<ChannelModel>)
    ensures
        group_names(channels).no_duplicates(),
    decreases channels.len(),
{
    if channels.len() > 0 {
        lemma_group_names_distinct(channels.drop_last());
    }
}

/// Where no channel has a name, the group of that name is empty.
pub proof fn lemma_members_of_unseen(channels: Seq<ChannelModel>, group: Seq<char>)
    requires
        forall|i: int| 0 <= i < channels.len() ==> (#[trigger] channels[i]).group != group,
    ensures
        members(channels, group) == Seq::<ChannelModel>::empty(),
    decreases channels.len(),
{
    reveal(Seq::filter);
    if channels.len() > 0 {
        let head = channels.drop_last();
        assert forall|i: int| 0 <= i < head.len() implies (#[trigger] head[i]).group != group by {
            assert(head[i] == channels[i]);
        }
        lemma_members_of_unseen(head, group);
        assert(channels[channels.len() - 1].group != group);
    }
}

/// One more channel joins the group of its name and no other.
pub proof fn lemma_members_push(channels: Seq<ChannelModel>, added: ChannelModel, group: Seq<char>)
    ensures
        members(channels.push(added), group) == if added.group == group {
            members(channels, group).push(added)
        } else {
            members(channels, group)
        },
{
    reveal(Seq::filter);
    assert(channels.push(added).drop_last() == channels);
}

/// The positions, in increasing order, at which the channels of one group
/// stand among all channels.
pub open spec fn positions(channels: Seq<ChannelModel>, group: Seq<char>) -> Seq<int>
    decreases channels.len(),
{
    if channels.len() == 0 {
        Seq::empty()
    } else {
        let before = positions(channels.drop_last(), group);
        if channels.last().group == group {
            before.push(channels.len() - 1)
        } else {
            before
        }
    }
}

/// The positions of a group are those of the channels with its name, and no
/// others; they increase; and the members of the group are the channels at
/// these positions, one for one.
pub proof fn lemma_positions(channels: Seq<ChannelModel>, group: Seq<char>)
    ensures
        forall|a: int|
            0 <= a < positions(channels, group).len() ==> {
                &&& 0 <= (#[trigger] positions(channels, group)[a]) < channels.len()
                &&& channels[positions(channels, group)[a]].group == group
            },
        forall|a: int, b: int|
            0 <= a < b < positions(channels, group).len() ==> (#[trigger] positions(
                channels,
                group,
            )[a]) < (#[trigger] positions(channels, group)[b]),
        forall|i: int|
            0 <= i < channels.len() && (#[trigger] channels[i]).group == group ==> positions(
                channels,
                group,
            ).contains(i),
        members(channels, group).len() == positions(channels, group).len(),
        forall|a: int|
            0 <= a < positions(channels, group).len() ==> (#[trigger] members(channels, group)[a])
                == channels[positions(channels, group)[a]],
    decreases channels.len(),
{
    reveal(Seq::filter);
    let here = positions(channels, group);
    if channels.len() > 0 {
        let head = channels.drop_last();
        let before = positions(head, group);
        lemma_positions(head, group);
        assert forall|i: int|
            0 <= i < channels.len() && (#[trigger] channels[i]).group
                == group implies here.contains(i) by {
            if i < head.len() {
                assert(head[i].group == group);
                let a = choose|a: int| 0 <= a < before.len() && before[a] == i;
                assert(here[a] == i);
            } else {
                assert(here[here.len() - 1] == i);
            }
        }
        assert forall|a: int| 0 <= a < here.len() implies (#[trigger] members(channels, group)[a])
            == channels[here[a]] by {
            if a < before.len() {
                assert(members(head, group)[a] == head[before[a]]);
            }
        }
    }
}

/// The groups of a catalogue have names that differ from one another.
pub proof fn lemma_catalog_names_differ(channels: Seq<ChannelModel>, k: int, l: int)
    requires
        0 <= k < l < catalog(channels).len(),
    ensures
        catalog(channels)[k].name != catalog(channels)[l].name,
{
    lemma_group_names_distinct(channels);
}

/// Each channel belongs to exactly one group: it stands in the group that
/// has its group name, and in no other.
pub proof fn lemma_catalog_holds_each_channel_once(channels: Seq<ChannelModel>, i: int) -> (k: int)
    requires
        0 <= i < channels.len(),
    ensures
        0 <= k < catalog(channels).len(),
        catalog(channels)[k].name == channels[i].group,
        catalog(channels)[k].channels.contains(channels[i]),
        forall|l: int|
            0 <= l < catalog(channels).len() && l != k ==> !(#[trigger] catalog(
                channels,
            )[l]).channels.contains(channels[i]),
{
    let names = group_names(channels);
    let groups = catalog(channels);
    lemma_group_is_listed(channels, i);
    lemma_group_names_distinct(channels);
    let k = choose|k: int| 0 <= k < names.len() && names[k] == channels[i].group;
    lemma_positions(channels, names[k]);
    let a = choose|a: int|
        0 <= a < positions(channels, names[k]).len() && positions(channels, names[k])[a] == i;
    assert(groups[k].channels[a] == channels[i]);
    assert forall|l: int| 0 <= l < groups.len() && l != k implies !(#[trigger] groups[l])
        .channels.contains(channels[i]) by {
        lemma_positions(channels, names[l]);
        if groups[l].channels.contains(channels[i]) {
            let b = choose|b: int|
                0 <= b < groups[l].channels.len() && groups[l].channels[b] == channels[i];
            assert(members(channels, names[l])[b].group == names[l]);
        }
    }
    k
}

/// A group holds its channels in the order of the playlist: its channels are
/// those at the positions of its name, which increase.
pub proof fn lemma_catalog_keeps_channel_order(channels: Seq<ChannelModel>, k: int)
    requires
        0 <= k < catalog(channels).len(),
    ensures
        catalog(channels)[k].channels.len() == positions(
            channels,
            catalog(channels)[k].name,
        ).len(),
        forall|a: int|
            0 <= a < catalog(channels)[k].channels.len() ==> (#[trigger] catalog(
                channels,
            )[k].channels[a]) == channels[positions(channels, catalog(channels)[k].name)[a]],
        forall|a: int, b: int|
            0 <= a < b < catalog(channels)[k].channels.len() ==> (#[trigger] positions(
                channels,
                catalog(channels)[k].name,
            )[a]) < (#[trigger] positions(channels, catalog(channels)[k].name)[b]),
{
    lemma_positions(channels, group_names(channels)[k]);
}

/// What `catalog` makes of channels is a catalogue.
pub proof fn lemma_catalog_is_well_formed(channels: Seq<ChannelModel>)
    ensures
        is_catalog(catalog(channels)),
{
    let groups = catalog(channels);
    let names = group_names(channels);
    lemma_group_names_distinct(channels);
    assert forall|k: int| 0 <= k < groups.len() implies (#[trigger] groups[k]).channels.len()
        > 0 by {
        assert(names.contains(names[k]));
        let i = lemma_listed_group_has_channel(channels, names[k]);
        lemma_positions(channels, names[k]);
        assert(positions(channels, names[k]).contains(i));
    }
    assert forall|k: int, a: int|
        0 <= k < groups.len() && 0 <= a < groups[k].channels.len() implies (
        #[trigger] groups[k].channels[a]).group == groups[k].name by {
        lemma_positions(channels, names[k]);
    }
}

/// A listed group has a channel, and with more channels its first position
/// stays where it was.
proof fn lemma_first_position(channels: Seq<ChannelModel>, name: Seq<char>)
    requires
        group_names(channels).contains(name),
    ensures
        positions(channels, name).len() > 0,
        0 <= positions(channels, name)[0] < channels.len(),
        forall|more: ChannelModel| #[trigger]
            positions(channels.push(more), name)[0] == positions(channels, name)[0],
{
    let i = lemma_listed_group_has_channel(channels, name);
    lemma_positions(channels, name);
    assert forall|more: ChannelModel| #[trigger]
        positions(channels.push(more), name)[0] == positions(channels, name)[0] by {
        assert(channels.push(more).drop_last() == channels);
    }
}

/// The groups of a catalogue stand in the order in which their names occur
/// first: of two groups, the earlier one has its first channel earlier in the
/// playlist.
pub proof fn lemma_catalog_follows_first_occurrence(channels: Seq<ChannelModel>, k: int, l: int)
    requires
        0 <= k < l < catalog(channels).len(),
    ensures
        positions(channels, catalog(channels)[k].name).len() > 0,
        positions(channels, catalog(channels)[l].name).len() > 0,
        positions(channels, catalog(channels)[k].name)[0] < positions(
            channels,
            catalog(channels)[l].name,
        )[0],
    decreases channels.len(),
{
    let names = group_names(channels);
    let head = channels.drop_last();
    let before = group_names(head);
    assert(head.push(channels.last()) == channels);
    assert(before.contains(names[k])) by {
        assert(before[k] == names[k]);
    }
    lemma_first_position(head, names[k]);
    if l < before.len() {
        assert(before.contains(names[l])) by {
            assert(before[l] == names[l]);
        }
        lemma_first_position(head, names[l]);
        lemma_catalog_follows_first_occurrence(head, k, l);
    } else {
        assert forall|i: int| 0 <= i < head.len() implies (#[trigger] head[i]).group
            != names[l] by {
            lemma_group_is_listed(head, i);
        }
        lemma_positions(head, names[l]);
        assert(positions(head, names[l]).len() == 0) by {
            if positions(head, names[l]).len() > 0 {
                assert(head[positions(head, names[l])[0]].group == names[l]);
            }
        }
    }
}

/// The index of the group with the given name, if there is one.
pub fn find_group(groups: &Vec<Group>, name: &String) -> (found: Option<usize>)
    ensures
        match found {
            Some(i) => i < groups.len() && groups[i as int].name@ == name@,
            None => forall|i: int| 0 <= i < groups.len() ==> (#[trigger] groups[i]).name@ != name@,
        },
{
    let mut i: usize = 0;
    while i < groups.len()
        invariant
            i <= groups.len(),
            forall|j: int| 0 <= j < i ==> (#[trigger] groups[j]).name@ != name@,
        decreases groups.len() - i,
    {
        if groups[i].name == *name {
            return Some(i);
        }
        i += 1;
    }
    None
}

/// Adds a channel to a catalogue: to the group of its name, or to a new group
/// at the end where no group has that name yet.
fn add_channel(groups: &mut Vec<Group>, channel: Channel, Ghost(before): Ghost<Seq<ChannelModel>>)
    requires
        group_models(old(groups)@) == catalog(before),
    ensures
        group_models(final(groups)@) == catalog(before.push(channel@)),
{
    let ghost names = group_names(before);
    let ghost after = before.push(channel@);
    let ghost was = group_models(groups@);
    proof {
        lemma_group_names_distinct(before);
        assert(after.drop_last() == before);
        assert(was == catalog(before));
        assert(was.len() == names.len());
        assert forall|k: int| 0 <= k < names.len() implies groups@[k].name@ == names[k] by {
            assert(was[k].name == names[k]);
        }
    }
    match find_group(groups, &channel.group) {
        Some(i) => {
            groups[i].channels.push(channel);
            proof {
                assert(names[i as int] == channel@.group);
                assert(group_names(after) == names);
                assert forall|k: int| 0 <= k < names.len() implies #[trigger] group_models(
                    groups@,
                )[k] == catalog(after)[k] by {
                    lemma_members_push(before, channel@, names[k]);
                    assert(was[k] == catalog(before)[k]);
                    if k == i {
                        assert(channel_models(groups@[k].channels@) == members(
                            before,
                            names[k],
                        ).push(channel@));
                    } else {
                        assert(names[k] != names[i as int]);
                    }
                }
                assert(group_models(groups@) == catalog(after));
            }
        },
        None => {
            let name = channel.group.clone();
            let mut channels: Vec<Channel> = Vec::new();
            channels.push(channel);
            groups.push(Group { name, channels });
            proof {
                assert(!names.contains(channel@.group)) by {
                    if names.contains(channel@.group) {
                        let k = choose|k: int| 0 <= k < names.len() && names[k] == channel@.group;
                        assert(was[k].name == names[k]);
                    }
                }
                assert(group_names(after) == names.push(channel@.group));
                assert forall|j: int| 0 <= j < before.len() implies (#[trigger] before[j]).group
                    != channel@.group by {
                    lemma_group_is_listed(before, j);
                }
                lemma_members_of_unseen(before, channel@.group);
                assert forall|k: int| 0 <= k < names.len() + 1 implies #[trigger] group_models(
                    groups@,
                )[k] == catalog(after)[k] by {
                    lemma_members_push(before, channel@, group_names(after)[k]);
                    if k < names.len() {
                        assert(was[k] == catalog(before)[k]);
                        assert(names.contains(names[k]));
                    } else {
                        assert(channel_models(groups@[k].channels@) == seq![channel@]);
                    }
                }
                assert(group_models(groups@) == catalog(after));
            }
        },
    }
}

/// Groups channels into a catalogue.
///
/// The catalogue has one group for each group name among the channels. The
/// groups stand in the order in which their names occur first, and each holds
/// the channels of its name in the order in which they were given.
pub fn build(channels: Vec<Channel>) -> (groups: Vec<Group>)
    ensures
        group_models(groups@) == catalog(channel_models(channels@)),
        is_catalog(group_models(groups@)),
{
    let ghost all = channel_models(channels@);
    let mut groups: Vec<Group> = Vec::new();
    assert(group_models(groups@) == catalog(all.take(0)));
    for channel in it: channels
        invariant
            channel_models(it.seq()) == all,
            group_models(groups@) == catalog(all.take(it.index() as int)),
    {
        assert(all.take(it.index() + 1) == all.take(it.index() as int).push(channel@));
        add_channel(&mut groups, channel, Ghost(all.take(it.index() as int)));
    }
    proof {
        assert(all.take(all.len() as int) == all);
        lemma_catalog_is_well_formed(all);
    }
    groups
}

} // verus!
