use vstd::prelude::*;

use crate::state::{ActiveGuildScope, ChannelState, DashboardState};

verus! {

/// A `usize` as a `u32`, saturating at `u32::MAX`.
pub open spec fn saturating_u32(value: int) -> int {
    if value <= u32::MAX {
        value
    } else {
        u32::MAX as int
    }
}

/// The highest 100-member bucket the member sidebar has been scrolled into.
pub open spec fn top_bucket_of(scroll: int, view_height: int) -> int {
    let scroll = saturating_u32(scroll);
    let view = if view_height <= u32::MAX {
        view_height
    } else {
        0
    };
    let end = if scroll + view <= u32::MAX {
        scroll + view
    } else {
        u32::MAX as int
    };
    end / 100
}

/// The member sidebar's top bucket for `state`.
pub open spec fn member_top_bucket(state: &DashboardState) -> int {
    top_bucket_of(
        state.navigation.members.list.scroll as int,
        state.navigation.members.list.view_height as int,
    )
}

/// The 100-member range of bucket `b`.
pub open spec fn bucket_range(b: int) -> (u32, u32) {
    ((b * 100) as u32, (b * 100 + 99) as u32)
}

/// The ranges subscribed for top bucket `top`: every bucket up to the third, or the
/// first bucket plus the two ending at `top`.
pub open spec fn subscription_ranges_for(top: int) -> Seq<(u32, u32)> {
    if top <= 2 {
        Seq::new((top + 1) as nat, |b: int| bucket_range(b))
    } else {
        seq![bucket_range(0), bucket_range(top - 1), bucket_range(top)]
    }
}

/// A channel that can carry the member list subscription: a viewable channel that is
/// not a category, thread or voice channel.
pub open spec fn is_subscription_channel(channel: ChannelState) -> bool {
    !channel.is_category && !channel.is_thread && !channel.is_voice && channel.viewable
}

/// A subscription channel of guild `guild_id`.
pub open spec fn is_guild_subscription_channel(channel: ChannelState, guild_id: u64) -> bool {
    channel.guild_id == Some(guild_id) && is_subscription_channel(channel)
}

/// Sidebar order of channels: by position, then by id.
pub open spec fn channel_sorts_before(a: ChannelState, b: ChannelState) -> bool {
    a.position < b.position || (a.position == b.position && a.id <= b.id)
}

/// `channel` comes first among the subscription channels of guild `guild_id` in `channels`.
pub open spec fn is_first_subscription_channel(
    channels: Seq<ChannelState>,
    guild_id: u64,
    index: int,
) -> bool {
    &&& 0 <= index < channels.len()
    &&& is_guild_subscription_channel(channels[index], guild_id)
    &&& forall|j: int|
        0 <= j < channels.len() && is_guild_subscription_channel(#[trigger] channels[j], guild_id)
            ==> channel_sorts_before(channels[index], channels[j])
}

/// The first channel of `channels` with id `id`, if any.
pub open spec fn cached_channel_index(channels: Seq<ChannelState>, id: u64, index: int) -> bool {
    &&& 0 <= index < channels.len()
    &&& channels[index].id == id
    &&& forall|j: int| 0 <= j < index ==> #[trigger] channels[j].id != id
}

/// Whether the open channel can carry the subscription.
pub open spec fn active_channel_usable(state: &DashboardState, channel_id: u64) -> bool {
    exists|i: int|
        cached_channel_index(state.discord.channels@, channel_id, i) && is_subscription_channel(
            #[trigger] state.discord.channels@[i],
        )
}

/// The member sidebar's subscription ranges always start with the first bucket, hold
/// at most three ranges, and each range covers exactly one 100-member bucket.
pub proof fn law_subscription_ranges_shape(top: int)
    requires
        0 <= top,
        top * 100 + 99 <= u32::MAX,
    ensures
        subscription_ranges_for(top).len() >= 1,
        subscription_ranges_for(top).len() <= 3,
        subscription_ranges_for(top)[0] == (0u32, 99u32),
        forall|i: int|
            0 <= i < subscription_ranges_for(top).len() ==> {
                let r = #[trigger] subscription_ranges_for(top)[i];
                &&& r.0 % 100 == 0
                &&& r.1 == r.0 + 99
                &&& r.1 <= top * 100 + 99
            },
        subscription_ranges_for(top).last() == bucket_range(top),
{
    assert(subscription_ranges_for(top)[0] == bucket_range(0));
}

/// Whether `r` is the member list subscription target of `state`: the open guild with
/// its open channel when that channel can carry the subscription, else with its first
/// such channel in sidebar order; nothing outside a guild or without such a channel.
pub open spec fn subscription_target_ok(state: &DashboardState, r: Option<(u64, u64)>) -> bool {
    match state.navigation.guilds.active {
        ActiveGuildScope::Guild(g) => {
            let open_ok = state.navigation.channels.active_channel_id matches Some(c)
                && active_channel_usable(state, c);
            if open_ok {
                r == Some((g, state.navigation.channels.active_channel_id->0))
            } else {
                match r {
                    Some((rg, rc)) => rg == g && exists|i: int|
                        is_first_subscription_channel(state.discord.channels@, g, i)
                            && #[trigger] state.discord.channels@[i].id == rc,
                    None => forall|j: int|
                        0 <= j < state.discord.channels@.len()
                            ==> !is_guild_subscription_channel(
                            #[trigger] state.discord.channels@[j],
                            g,
                        ),
                }
            }
        },
        _ => r is None,
    }
}

impl DashboardState {
    /// The highest 100-member bucket the member sidebar has been scrolled into: bucket 0
    /// covers rows 0 to 99, bucket 1 rows 100 to 199, and so on.
    pub fn member_subscription_top_bucket(&self) -> (r: u32)
        ensures
            r == member_top_bucket(self),
    {
        let scroll_raw = self.navigation.members.list.scroll;
        let scroll: u32 = if scroll_raw <= 0xFFFF_FFFF {
            scroll_raw as u32
        } else {
            u32::MAX
        };
        let view_raw = self.navigation.members.list.view_height;
        let view: u32 = if view_raw <= 0xFFFF_FFFF {
            view_raw as u32
        } else {
            0
        };
        scroll.saturating_add(view) / 100
    }

    /// The member list ranges to subscribe to: the first bucket and up to two more near
    /// the visible end.
    pub fn member_subscription_ranges(&self) -> (r: Vec<(u32, u32)>)
        requires
            member_top_bucket(self) * 100 + 99 <= u32::MAX,
        ensures
            r@ == subscription_ranges_for(member_top_bucket(self)),
    {
        let top = self.member_subscription_top_bucket();
        let mut ranges: Vec<(u32, u32)> = Vec::new();
        if top <= 2 {
            let mut b: u32 = 0;
            while b <= top
                invariant
                    top <= 2,
                    b <= top + 1,
                    ranges@ =~= Seq::new(b as nat, |k: int| bucket_range(k)),
                decreases top + 1 - b,
            {
                ranges.push((b * 100, b * 100 + 99));
                b = b + 1;
            }
            return ranges;
        }
        let near_start = top - 1;
        ranges.push((0, 99));
        ranges.push((near_start * 100, near_start * 100 + 99));
        ranges.push((top * 100, top * 100 + 99));
        proof {
            assert(ranges@ =~= seq![bucket_range(0), bucket_range(top - 1), bucket_range(top as int)]);
        }
        ranges
    }

    /// Whether `channel` can carry the member list subscription.
    pub fn is_member_list_subscription_channel(&self, channel: &ChannelState) -> (r: bool)
        ensures
            r == is_subscription_channel(*channel),
    {
        !channel.is_category && !channel.is_thread && !channel.is_voice && channel.viewable
    }

    /// The channel of guild `guild_id` the member list subscription goes to: its first
    /// subscription channel in sidebar order.
    pub fn guild_member_list_channel(&self, guild_id: u64) -> (r: Option<u64>)
        ensures
            match r {
                Some(id) => exists|i: int|
                    is_first_subscription_channel(self.discord.channels@, guild_id, i)
                        && #[trigger] self.discord.channels@[i].id == id,
                None => forall|j: int|
                    0 <= j < self.discord.channels@.len() ==> !is_guild_subscription_channel(
                        #[trigger] self.discord.channels@[j],
                        guild_id,
                    ),
            },
    {
        let ghost channels = self.discord.channels@;
        let mut best: Option<usize> = None;
        let mut i: usize = 0;
        while i < self.discord.channels.len()
            invariant
                channels == self.discord.channels@,
                i <= channels.len(),
                match best {
                    Some(b) => {
                        &&& b < i
                        &&& is_guild_subscription_channel(channels[b as int], guild_id)
                        &&& forall|j: int|
                            0 <= j < i && is_guild_subscription_channel(
                                #[trigger] channels[j],
                                guild_id,
                            ) ==> channel_sorts_before(channels[b as int], channels[j])
                    },
                    None => forall|j: int|
                        0 <= j < i ==> !is_guild_subscription_channel(
                            #[trigger] channels[j],
                            guild_id,
                        ),
                },
            decreases channels.len() - i,
        {
            let channel = &self.discord.channels[i];
            if channel.guild_id == Some(guild_id) && self.is_member_list_subscription_channel(
                channel,
            ) {
                match best {
                    Some(b) => {
                        let current = &self.discord.channels[b];
                        if channel.position < current.position || (channel.position
                            == current.position && channel.id < current.id) {
                            best = Some(i);
                        }
                    },
                    None => {
                        best = Some(i);
                    },
                }
            }
            i = i + 1;
        }
        match best {
            Some(b) => {
                proof {
                    assert(is_first_subscription_channel(channels, guild_id, b as int));
                }
                Some(self.discord.channels[b].id)
            },
            None => None,
        }
    }

    fn cached_channel(&self, channel_id: u64) -> (r: Option<&ChannelState>)
        ensures
            match r {
                Some(c) => exists|i: int|
                    cached_channel_index(self.discord.channels@, channel_id, i)
                        && #[trigger] self.discord.channels@[i] == *c,
                None => forall|j: int|
                    0 <= j < self.discord.channels@.len() ==> #[trigger] self.discord.channels@[j].id
                        != channel_id,
            },
    {
        let mut i: usize = 0;
        while i < self.discord.channels.len()
            invariant
                i <= self.discord.channels@.len(),
                forall|j: int| 0 <= j < i ==> #[trigger] self.discord.channels@[j].id != channel_id,
            decreases self.discord.channels@.len() - i,
        {
            if self.discord.channels[i].id == channel_id {
                proof {
                    assert(cached_channel_index(self.discord.channels@, channel_id, i as int));
                }
                return Some(&self.discord.channels[i]);
            }
            i = i + 1;
        }
        None
    }

    /// The guild and channel the member list subscription goes to: the open guild, with
    /// the open channel where it can carry the subscription and the guild's first
    /// subscription channel otherwise; `None` outside a guild or when no channel fits.
    pub fn member_list_subscription_target(&self) -> (r: Option<(u64, u64)>)
        ensures
            subscription_target_ok(self, r),
    {
        let guild_id = match self.navigation.guilds.active {
            ActiveGuildScope::Guild(guild_id) => guild_id,
            ActiveGuildScope::DirectMessages | ActiveGuildScope::Unset => {
                return None;
            },
        };
        if let Some(channel_id) = self.navigation.channels.active_channel_id {
            if let Some(channel) = self.cached_channel(channel_id) {
                if self.is_member_list_subscription_channel(channel) {
                    return Some((guild_id, channel_id));
                }
                proof {
                    let ghost channels = self.discord.channels@;
                    assert forall|i: int|
                        cached_channel_index(channels, channel_id, i) implies !is_subscription_channel(
                        #[trigger] channels[i],
                    ) by {
                        let k = choose|k: int|
                            cached_channel_index(channels, channel_id, k) && #[trigger] channels[k]
                                == *channel;
                        if i < k {
                            assert(channels[i].id != channel_id);
                        } else if k < i {
                            assert(channels[k].id != channel_id);
                        }
                    }
                }
            }
        }
        match self.guild_member_list_channel(guild_id) {
            Some(channel_id) => Some((guild_id, channel_id)),
            None => None,
        }
    }
}

} // verus!
