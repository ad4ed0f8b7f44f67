use vstd::prelude::*;

use std::collections::{HashMap, HashSet};

use crate::state::{AppCommand, DashboardState};
use crate::subscriptions::{
    is_first_subscription_channel, is_guild_subscription_channel, member_top_bucket,
    subscription_ranges_for, subscription_target_ok,
};

verus! {

/// Whether sending a command reached the client.
#[derive(Clone, Copy, Debug, PartialEq, Eq, Structural)]
pub enum CommandSendOutcome {
    Sent,
    ChannelClosed,
}

impl CommandSendOutcome {
    /// Whether the command channel was found closed.
    pub fn is_channel_closed(self) -> (r: bool)
        ensures
            r == (self == CommandSendOutcome::ChannelClosed),
    {
        match self {
            CommandSendOutcome::ChannelClosed => true,
            CommandSendOutcome::Sent => false,
        }
    }
}

/// The error shown once the command channel to the client is closed.
pub open spec fn channel_closed_message() -> Seq<char> {
    "command channel closed"@
}

/// Records that the command channel to the client is closed, as a gateway error.
pub fn record_command_channel_closed(state: &mut DashboardState)
    ensures
        final(state).runtime.gateway_error matches Some(m) && m@ == channel_closed_message(),
        final(state).discord == old(state).discord,
        final(state).composer == old(state).composer,
        final(state).navigation == old(state).navigation,
        final(state).popups == old(state).popups,
        final(state).messages == old(state).messages,
        final(state).runtime.open_composer_in_editor_requested == old(
            state,
        ).runtime.open_composer_in_editor_requested,
        final(state).runtime.paste_clipboard_requested == old(state).runtime.paste_clipboard_requested,
        final(state).runtime.clipboard_paste_pending == old(state).runtime.clipboard_paste_pending,
{
    state.runtime.gateway_error = Some(String::from_str("command channel closed"));
}

/// What the scheduler last told the client about the user's selection.
#[derive(Debug)]
pub struct DashboardCommandScheduler {
    pub last_reported_active_guild: Option<u64>,
    pub last_reported_message_channel: Option<u64>,
}

/// The commands that report a selection of `guild` and `channel` after `last_guild`
/// and `last_channel` were reported: the guild first, then the message channel, each
/// only when it changed.
pub open spec fn selection_report(
    last_guild: Option<u64>,
    last_channel: Option<u64>,
    guild: Option<u64>,
    channel: Option<u64>,
) -> Seq<AppCommand> {
    (if guild != last_guild {
        seq![AppCommand::SetSelectedGuild { guild_id: guild }]
    } else {
        Seq::empty()
    }) + (if channel != last_channel {
        seq![AppCommand::SetSelectedMessageChannel { channel_id: channel }]
    } else {
        Seq::empty()
    })
}

/// A selection is reported once per change: reporting the selection that was just
/// reported sends nothing.
pub proof fn law_selection_reported_once(guild: Option<u64>, channel: Option<u64>)
    ensures
        selection_report(guild, channel, guild, channel) == Seq::<AppCommand>::empty(),
{
    assert(selection_report(guild, channel, guild, channel) =~= Seq::<AppCommand>::empty());
}

/// A changed guild is always reported, first and whatever the channel did; a changed
/// message channel is reported after it; an unchanged one of either is not.
pub proof fn law_selection_changes_are_reported(
    last_guild: Option<u64>,
    last_channel: Option<u64>,
    guild: Option<u64>,
    channel: Option<u64>,
)
    ensures
        ({
            let report = selection_report(last_guild, last_channel, guild, channel);
            &&& report.len() == (if guild != last_guild {
                1int
            } else {
                0int
            }) + (if channel != last_channel {
                1int
            } else {
                0int
            })
            &&& guild != last_guild ==> report[0] == AppCommand::SetSelectedGuild { guild_id: guild }
            &&& guild == last_guild ==> forall|k: int|
                0 <= k < report.len() ==> !(#[trigger] report[k] is SetSelectedGuild)
            &&& channel != last_channel ==> report[report.len() - 1]
                == AppCommand::SetSelectedMessageChannel { channel_id: channel }
            &&& channel == last_channel ==> forall|k: int|
                0 <= k < report.len() ==> !(#[trigger] report[k] is SetSelectedMessageChannel)
        }),
{
}

impl DashboardCommandScheduler {
    /// A scheduler that has reported nothing yet.
    pub fn new() -> (r: Self)
        ensures
            r.last_reported_active_guild is None,
            r.last_reported_message_channel is None,
    {
        DashboardCommandScheduler { last_reported_active_guild: None, last_reported_message_channel: None }
    }

    /// The commands that tell the client about a changed selection: the guild first,
    /// then the message channel, each only when it differs from what was last reported.
    pub fn report_active_selection(
        &mut self,
        active_guild: Option<u64>,
        active_message_channel: Option<u64>,
    ) -> (r: Vec<AppCommand>)
        ensures
            final(self).last_reported_active_guild == active_guild,
            final(self).last_reported_message_channel == active_message_channel,
            r@ == selection_report(
                old(self).last_reported_active_guild,
                old(self).last_reported_message_channel,
                active_guild,
                active_message_channel,
            ),
    {
        let mut commands: Vec<AppCommand> = Vec::new();
        if active_guild != self.last_reported_active_guild {
            self.last_reported_active_guild = active_guild;
            commands.push(AppCommand::SetSelectedGuild { guild_id: active_guild });
        }
        if active_message_channel != self.last_reported_message_channel {
            self.last_reported_message_channel = active_message_channel;
            commands.push(AppCommand::SetSelectedMessageChannel { channel_id: active_message_channel });
        }
        proof {
            assert(commands@ =~= (if active_guild != old(self).last_reported_active_guild {
                seq![AppCommand::SetSelectedGuild { guild_id: active_guild }]
            } else {
                Seq::empty()
            }) + (if active_message_channel != old(self).last_reported_message_channel {
                seq![AppCommand::SetSelectedMessageChannel { channel_id: active_message_channel }]
            } else {
                Seq::empty()
            }));
        }
        commands
    }
}

/// The history request for `channel_id`: a refresh when its loaded history went
/// stale, a first load otherwise.
pub fn message_history_command(channel_id: u64, is_stale: bool) -> (r: AppCommand)
    ensures
        r == if is_stale {
            AppCommand::RefreshMessageHistory { channel_id }
        } else {
            AppCommand::LoadMessageHistory { channel_id, before: None }
        },
{
    if is_stale {
        AppCommand::RefreshMessageHistory { channel_id }
    } else {
        AppCommand::LoadMessageHistory { channel_id, before: None }
    }
}

/// The requests for the members of `guild_id`: the member load and, because that
/// load is unreliable for user accounts in large guilds, a subscription to the
/// guild's member list channel when it has one.
pub fn member_request_commands(state: &DashboardState, guild_id: u64) -> (r: Vec<AppCommand>)
    ensures
        r@.len() >= 1,
        r@[0] == (AppCommand::LoadGuildMembers { guild_id }),
        r@.len() <= 2,
        r@.len() == 2 ==> (r@[1] matches AppCommand::SubscribeGuildChannel { guild_id: g, channel_id: c }
            && g == guild_id && exists|i: int|
            is_first_subscription_channel(state.discord.channels@, guild_id, i)
                && #[trigger] state.discord.channels@[i].id == c),
        r@.len() == 1 ==> forall|j: int|
            0 <= j < state.discord.channels@.len() ==> !is_guild_subscription_channel(
                #[trigger] state.discord.channels@[j],
                guild_id,
            ),
{
    let mut commands: Vec<AppCommand> = Vec::new();
    commands.push(AppCommand::LoadGuildMembers { guild_id });
    match state.guild_member_list_channel(guild_id) {
        Some(channel_id) => {
            commands.push(AppCommand::SubscribeGuildChannel { guild_id, channel_id });
        },
        None => {},
    }
    commands
}

/// The member list subscription the dashboard wants: the guild and channel to attach
/// it to, the highest member bucket in view and the ranges to ask for; `None` when no
/// guild with a usable channel is open.
pub fn member_list_subscription_request(state: &DashboardState) -> (r: Option<
    (u64, u64, u32, Vec<(u32, u32)>),
>)
    requires
        member_top_bucket(state) * 100 + 99 <= u32::MAX,
    ensures
        subscription_target_ok(
            state,
            match r {
                Some((g, c, _, _)) => Some((g, c)),
                None => None,
            },
        ),
        r matches Some((_, _, top, ranges)) ==> top == member_top_bucket(state) && ranges@
            == subscription_ranges_for(member_top_bucket(state)),
{
    match state.member_list_subscription_target() {
        Some((guild_id, channel_id)) => Some(
            (
                guild_id,
                channel_id,
                state.member_subscription_top_bucket(),
                state.member_subscription_ranges(),
            ),
        ),
        None => None,
    }
}

/// How long, in milliseconds, a channel may stay unviewed before its history is
/// reloaded on return.
pub const STALE_MESSAGE_HISTORY_RELOAD_AFTER_MILLIS: u64 = 1_800_000;

/// The stale channels after checking `channel` at `now`: it joins them when it was
/// left at least the reload delay before.
pub open spec fn marked_stale(viewed: Map<u64, u64>, stale: Set<u64>, channel: u64, now: int) -> Set<
    u64,
> {
    if viewed.contains_key(channel) && now - viewed[channel] >= STALE_MESSAGE_HISTORY_RELOAD_AFTER_MILLIS {
        stale.insert(channel)
    } else {
        stale
    }
}

/// A channel left at `left_at` goes stale exactly when it is checked the reload delay
/// or later; once refreshed, no check makes it stale until it is left again.
pub proof fn law_history_goes_stale_after_the_reload_delay(
    viewed: Map<u64, u64>,
    stale: Set<u64>,
    channel: u64,
    left_at: u64,
    now: int,
)
    requires
        !stale.contains(channel),
    ensures
        marked_stale(viewed.insert(channel, left_at), stale, channel, now).contains(channel) <==> now
            >= left_at + STALE_MESSAGE_HISTORY_RELOAD_AFTER_MILLIS,
        !marked_stale(viewed.remove(channel), stale, channel, now).contains(channel),
{
}

/// When each channel was last left, and which channels' histories went stale.
pub struct MessageHistoryRefreshState {
    pub last_viewed_channels: HashMap<u64, u64>,
    pub stale_channels: HashSet<u64>,
}

impl MessageHistoryRefreshState {
    /// No channel left, none stale.
    pub fn new() -> (r: Self)
        ensures
            r.last_viewed_channels@ == Map::<u64, u64>::empty(),
            r.stale_channels@ == Set::<u64>::empty(),
    {
        MessageHistoryRefreshState { last_viewed_channels: HashMap::new(), stale_channels: HashSet::new() }
    }

    /// Records that `channel_id` was left at `now_millis`.
    pub fn record_channel_left(&mut self, channel_id: u64, now_millis: u64)
        ensures
            final(self).last_viewed_channels@ == old(self).last_viewed_channels@.insert(channel_id, now_millis),
            final(self).stale_channels@ == old(self).stale_channels@,
    {
        self.last_viewed_channels.insert(channel_id, now_millis);
    }

    /// Marks `channel_id` stale when it was left at least the reload delay before
    /// `now_millis`.
    pub fn mark_stale_if_elapsed(&mut self, channel_id: u64, now_millis: u64)
        ensures
            final(self).last_viewed_channels@ == old(self).last_viewed_channels@,
            final(self).stale_channels@ == marked_stale(
                old(self).last_viewed_channels@,
                old(self).stale_channels@,
                channel_id,
                now_millis as int,
            ),
    {
        let elapsed = match self.last_viewed_channels.get(&channel_id) {
            Some(last) => now_millis.saturating_sub(*last) >= STALE_MESSAGE_HISTORY_RELOAD_AFTER_MILLIS,
            None => false,
        };
        if elapsed {
            self.stale_channels.insert(channel_id);
        }
    }

    /// Whether the history of `channel_id` went stale.
    pub fn is_stale(&self, channel_id: u64) -> (r: bool)
        ensures
            r == self.stale_channels@.contains(channel_id),
    {
        self.stale_channels.contains(&channel_id)
    }

    /// Forgets `channel_id` once its history was refreshed.
    pub fn record_refreshed(&mut self, channel_id: u64)
        ensures
            final(self).stale_channels@ == old(self).stale_channels@.remove(channel_id),
            final(self).last_viewed_channels@ == old(self).last_viewed_channels@.remove(channel_id),
    {
        self.stale_channels.remove(&channel_id);
        self.last_viewed_channels.remove(&channel_id);
    }
}

} // verus!
