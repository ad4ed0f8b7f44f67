use vstd::prelude::*;

use crate::unicode::str_eq;

verus! {

/// A user's presence as the gateway reports it.
#[derive(Clone, Copy, Debug, PartialEq, Eq, Structural)]
pub enum PresenceStatus {
    Online,
    Idle,
    DoNotDisturb,
    Offline,
    Unknown,
}

/// A member of a guild as the member list shows it.
#[derive(Debug)]
pub struct GuildMemberState {
    pub user_id: u64,
    /// Server alias, else global display name, else username.
    pub display_name: String,
    pub username: Option<String>,
    pub is_bot: bool,
    pub status: PresenceStatus,
    pub role_ids: Vec<u64>,
}

/// A recipient of a direct message channel.
#[derive(Debug)]
pub struct ChannelRecipientState {
    pub user_id: u64,
    pub display_name: String,
    pub username: Option<String>,
    pub is_bot: bool,
    pub status: PresenceStatus,
}

/// A labelled group of the member sidebar.
#[derive(Debug)]
pub struct MemberGroup<'a> {
    pub label: String,
    pub color: Option<u32>,
    pub entries: Vec<MemberEntry<'a>>,
}

/// An entry of the member sidebar: a guild member or a direct message recipient.
#[derive(Debug, Clone, Copy)]
pub enum MemberEntry<'a> {
    Guild(&'a GuildMemberState),
    Recipient(&'a ChannelRecipientState),
}


/// The display name a member gets when the client knows nothing else about them.
pub open spec fn unknown_name() -> Seq<char> {
    seq!['u', 'n', 'k', 'n', 'o', 'w', 'n']
}

impl<'a> MemberEntry<'a> {
    /// The entry's user id.
    pub fn user_id(self) -> (r: u64)
        ensures
            r == match self {
                MemberEntry::Guild(m) => m.user_id,
                MemberEntry::Recipient(m) => m.user_id,
            },
    {
        match self {
            MemberEntry::Guild(member) => member.user_id,
            MemberEntry::Recipient(recipient) => recipient.user_id,
        }
    }

    /// The entry's display name (server alias or global display name first).
    pub fn display_name(self) -> (r: String)
        ensures
            r == match self {
                MemberEntry::Guild(m) => m.display_name,
                MemberEntry::Recipient(m) => m.display_name,
            },
    {
        match self {
            MemberEntry::Guild(member) => member.display_name.clone(),
            MemberEntry::Recipient(recipient) => recipient.display_name.clone(),
        }
    }

    /// The entry's login handle, distinct from its display name.
    pub fn username(self) -> (r: Option<String>)
        ensures
            r == match self {
                MemberEntry::Guild(m) => m.username,
                MemberEntry::Recipient(m) => m.username,
            },
    {
        let name = match self {
            MemberEntry::Guild(member) => &member.username,
            MemberEntry::Recipient(recipient) => &recipient.username,
        };
        match name {
            Some(name) => Some(name.clone()),
            None => None,
        }
    }

    /// Whether the client knows neither a username nor a real display name for the entry.
    pub fn has_fallback_identity(self) -> (r: bool)
        ensures
            r == match self {
                MemberEntry::Guild(m) => m.username is None && m.display_name@ == unknown_name(),
                MemberEntry::Recipient(m) => m.username is None && m.display_name@
                    == unknown_name(),
            },
    {
        let unknown = "unknown";
        proof {
            reveal_strlit("unknown");
            assert(unknown@ =~= unknown_name());
        }
        match self {
            MemberEntry::Guild(member) => member.username.is_none() && str_eq(
                member.display_name.as_str(),
                unknown,
            ),
            MemberEntry::Recipient(recipient) => recipient.username.is_none() && str_eq(
                recipient.display_name.as_str(),
                unknown,
            ),
        }
    }

    /// Whether the entry is a bot account.
    pub fn is_bot(self) -> (r: bool)
        ensures
            r == match self {
                MemberEntry::Guild(m) => m.is_bot,
                MemberEntry::Recipient(m) => m.is_bot,
            },
    {
        match self {
            MemberEntry::Guild(member) => member.is_bot,
            MemberEntry::Recipient(recipient) => recipient.is_bot,
        }
    }

    /// The entry's presence.
    pub fn status(self) -> (r: PresenceStatus)
        ensures
            r == match self {
                MemberEntry::Guild(m) => m.status,
                MemberEntry::Recipient(m) => m.status,
            },
    {
        match self {
            MemberEntry::Guild(member) => member.status,
            MemberEntry::Recipient(recipient) => recipient.status,
        }
    }
}

/// Index, in `hoisted`, of the highest-ranked hoisted role among `role_ids`.
pub open spec fn is_primary_rank(role_ids: Seq<u64>, hoisted: Seq<u64>, rank: int) -> bool {
    &&& 0 <= rank < hoisted.len()
    &&& role_ids.contains(hoisted[rank])
    &&& forall|j: int| 0 <= j < rank ==> !role_ids.contains(#[trigger] hoisted[j])
}

/// The rank (position in `hoisted`, best first) of the member's best hoisted role.
pub fn primary_hoisted_role_rank(role_ids: &Vec<u64>, hoisted: &Vec<u64>) -> (r: Option<usize>)
    ensures
        match r {
            Some(rank) => is_primary_rank(role_ids@, hoisted@, rank as int),
            None => forall|j: int|
                0 <= j < hoisted@.len() ==> !role_ids@.contains(#[trigger] hoisted@[j]),
        },
{
    let mut rank: usize = 0;
    while rank < hoisted.len()
        invariant
            rank <= hoisted@.len(),
            forall|j: int| 0 <= j < rank ==> !role_ids@.contains(#[trigger] hoisted@[j]),
        decreases hoisted@.len() - rank,
    {
        let role = hoisted[rank];
        let mut k: usize = 0;
        while k < role_ids.len()
            invariant
                k <= role_ids@.len(),
                rank < hoisted@.len(),
                role == hoisted@[rank as int],
                forall|j: int| 0 <= j < rank ==> !role_ids@.contains(#[trigger] hoisted@[j]),
                forall|m: int| 0 <= m < k ==> #[trigger] role_ids@[m] != role,
            decreases role_ids@.len() - k,
        {
            if role_ids[k] == role {
                proof {
                    assert(role_ids@.contains(role)) by {
                        assert(role_ids@[k as int] == role);
                    }
                }
                return Some(rank);
            }
            k = k + 1;
        }
        proof {
            assert(!role_ids@.contains(role));
        }
        rank = rank + 1;
    }
    None
}

/// A hoisted role of a guild: shown as a group of its own in the member list.
#[derive(Debug)]
pub struct HoistedRole {
    pub id: u64,
    pub name: String,
    pub color: Option<u32>,
}

/// The ids of the hoisted roles, best ranked first.
pub open spec fn hoisted_ids(hoisted: Seq<HoistedRole>) -> Seq<u64> {
    hoisted.map_values(|r: HoistedRole| r.id)
}

/// The rank of the best hoisted role among `role_ids`, or -1 when it has none.
pub open spec fn primary_rank(role_ids: Seq<u64>, hoisted: Seq<u64>) -> int {
    if exists|rank: int| is_primary_rank(role_ids, hoisted, rank) {
        choose|rank: int| is_primary_rank(role_ids, hoisted, rank)
    } else {
        -1
    }
}

/// The group a member goes to, counted over `hoisted.len() + 2` groups: its best
/// hoisted role's, else Online (`hoisted.len()`) when its status counts as online,
/// else Offline (`hoisted.len() + 1`).
pub open spec fn member_bucket(
    member: GuildMemberState,
    hoisted: Seq<u64>,
    online_statuses: Seq<PresenceStatus>,
) -> int {
    let rank = primary_rank(member.role_ids@, hoisted);
    if rank >= 0 {
        rank
    } else if online_statuses.contains(member.status) {
        hoisted.len() as int
    } else {
        hoisted.len() + 1int
    }
}

/// The entries of the members in group `b`, in the order of `members`.
pub open spec fn bucket_entries<'a>(
    members: Seq<&'a GuildMemberState>,
    hoisted: Seq<u64>,
    online_statuses: Seq<PresenceStatus>,
    b: int,
) -> Seq<MemberEntry<'a>>
    decreases members.len(),
{
    if members.len() == 0 {
        Seq::empty()
    } else {
        bucket_entries(members.drop_last(), hoisted, online_statuses, b) + if member_bucket(
            *members.last(),
            hoisted,
            online_statuses,
        ) == b {
            seq![MemberEntry::Guild(members.last())]
        } else {
            Seq::empty()
        }
    }
}

/// A member group taken as plain values: label, color and entries.
pub open spec fn group_view<'a>(g: MemberGroup<'a>) -> (Seq<char>, Option<u32>, Seq<MemberEntry<'a>>) {
    (g.label@, g.color, g.entries@)
}

/// The label and color of group `b`.
pub open spec fn bucket_heading(hoisted: Seq<HoistedRole>, b: int) -> (Seq<char>, Option<u32>) {
    if b < hoisted.len() {
        (hoisted[b].name@, hoisted[b].color)
    } else if b == hoisted.len() {
        ("Online"@, None)
    } else {
        ("Offline"@, None)
    }
}

/// The first `count` groups that have members, in group order.
pub open spec fn member_groups_spec<'a>(
    members: Seq<&'a GuildMemberState>,
    hoisted: Seq<HoistedRole>,
    online_statuses: Seq<PresenceStatus>,
    count: int,
) -> Seq<(Seq<char>, Option<u32>, Seq<MemberEntry<'a>>)>
    decreases count,
{
    if count <= 0 {
        Seq::empty()
    } else {
        let b = count - 1;
        let entries = bucket_entries(members, hoisted_ids(hoisted), online_statuses, b);
        let (label, color) = bucket_heading(hoisted, b);
        member_groups_spec(members, hoisted, online_statuses, b) + if entries.len() > 0 {
            seq![(label, color, entries)]
        } else {
            Seq::empty()
        }
    }
}

proof fn lemma_primary_rank(role_ids: Seq<u64>, hoisted: Seq<u64>, rank: int)
    requires
        is_primary_rank(role_ids, hoisted, rank),
    ensures
        primary_rank(role_ids, hoisted) == rank,
{
    let c = choose|r: int| is_primary_rank(role_ids, hoisted, r);
    assert(is_primary_rank(role_ids, hoisted, c));
    if c < rank {
        assert(!role_ids.contains(hoisted[c]));
    } else if c > rank {
        assert(!role_ids.contains(hoisted[rank]));
    }
}

/// Whether `status` is one of `statuses`.
fn status_in(statuses: &Vec<PresenceStatus>, status: PresenceStatus) -> (r: bool)
    ensures
        r == statuses@.contains(status),
{
    let mut i: usize = 0;
    while i < statuses.len()
        invariant
            i <= statuses@.len(),
            forall|j: int| 0 <= j < i ==> statuses@[j] != status,
        decreases statuses@.len() - i,
    {
        if statuses[i] == status {
            proof {
                assert(statuses@[i as int] == status);
            }
            return true;
        }
        i = i + 1;
    }
    false
}

/// The group of `member` (see `member_bucket`).
fn member_bucket_of(member: &GuildMemberState, hoisted: &Vec<u64>, online_statuses: &Vec<PresenceStatus>) -> (r: usize)
    requires
        hoisted@.len() + 2 <= usize::MAX,
    ensures
        r == member_bucket(*member, hoisted@, online_statuses@),
{
    match primary_hoisted_role_rank(&member.role_ids, hoisted) {
        Some(rank) => {
            proof {
                lemma_primary_rank(member.role_ids@, hoisted@, rank as int);
            }
            rank
        },
        None => {
            proof {
                if exists|rank: int| is_primary_rank(member.role_ids@, hoisted@, rank) {
                    let c = choose|rank: int| is_primary_rank(member.role_ids@, hoisted@, rank);
                    assert(!member.role_ids@.contains(hoisted@[c]));
                }
            }
            if status_in(online_statuses, member.status) {
                hoisted.len()
            } else {
                hoisted.len() + 1
            }
        },
    }
}

/// The member list's groups of guild members: one per hoisted role that has members,
/// in rank order, then Online and Offline for the members without a hoisted role,
/// each kept only when it has members. A member goes to the group of its best
/// ranked hoisted role; `online_statuses` are the presences that count as online.
/// `members` come in the member list's order, which each group keeps, and `hoisted`
/// holds the guild's hoisted roles, best ranked first.
pub fn guild_member_groups<'a>(
    members: Vec<&'a GuildMemberState>,
    hoisted: &Vec<HoistedRole>,
    online_statuses: &Vec<PresenceStatus>,
) -> (r: Vec<MemberGroup<'a>>)
    requires
        hoisted@.len() + 2 <= usize::MAX,
    ensures
        r@.map_values(|g: MemberGroup<'a>| group_view(g)) == member_groups_spec(
            members@,
            hoisted@,
            online_statuses@,
            hoisted@.len() + 2int,
        ),
{
    let mut ids: Vec<u64> = Vec::new();
    let mut k: usize = 0;
    while k < hoisted.len()
        invariant
            k <= hoisted@.len(),
            ids@ == hoisted_ids(hoisted@).take(k as int),
        decreases hoisted@.len() - k,
    {
        ids.push(hoisted[k].id);
        proof {
            assert(hoisted_ids(hoisted@).take(k + 1) =~= hoisted_ids(hoisted@).take(k as int).push(
                hoisted@[k as int].id,
            ));
        }
        k = k + 1;
    }
    proof {
        assert(hoisted_ids(hoisted@).take(k as int) =~= hoisted_ids(hoisted@));
    }
    let ghost hs = hoisted_ids(hoisted@);
    let mut buckets: Vec<usize> = Vec::new();
    let mut i: usize = 0;
    while i < members.len()
        invariant
            ids@ == hs,
            hs.len() == hoisted@.len(),
            hoisted@.len() + 2 <= usize::MAX,
            i <= members@.len(),
            buckets@.len() == i,
            forall|j: int| 0 <= j < i ==> #[trigger] buckets@[j] == member_bucket(*members@[j], hs, online_statuses@),
        decreases members@.len() - i,
    {
        let b = member_bucket_of(members[i], &ids, online_statuses);
        buckets.push(b);
        i = i + 1;
    }
    let mut groups: Vec<MemberGroup<'a>> = Vec::new();
    let count = hoisted.len() + 2;
    let mut b: usize = 0;
    while b < count
        invariant
            count == hoisted@.len() + 2,
            hs == hoisted_ids(hoisted@),
            hs.len() == hoisted@.len(),
            b <= count,
            buckets@.len() == members@.len(),
            forall|j: int| 0 <= j < members@.len() ==> #[trigger] buckets@[j] == member_bucket(*members@[j], hs, online_statuses@),
            groups@.map_values(|g: MemberGroup<'a>| group_view(g)) == member_groups_spec(
                members@,
                hoisted@,
                online_statuses@,
                b as int,
            ),
        decreases count - b,
    {
        let mut entries: Vec<MemberEntry<'a>> = Vec::new();
        let mut j: usize = 0;
        while j < members.len()
            invariant
                j <= members@.len(),
                buckets@.len() == members@.len(),
                forall|m: int| 0 <= m < members@.len() ==> #[trigger] buckets@[m] == member_bucket(*members@[m], hs, online_statuses@),
                entries@ == bucket_entries(members@.take(j as int), hs, online_statuses@, b as int),
            decreases members@.len() - j,
        {
            proof {
                assert(members@.take(j + 1).drop_last() =~= members@.take(j as int));
                assert(members@.take(j + 1).last() == members@[j as int]);
            }
            if buckets[j] == b {
                entries.push(MemberEntry::Guild(members[j]));
            }
            proof {
                assert(entries@ =~= bucket_entries(members@.take(j + 1), hs, online_statuses@, b as int));
            }
            j = j + 1;
        }
        proof {
            assert(members@.take(j as int) =~= members@);
        }
        let ghost before = groups@;
        if entries.len() > 0 {
            let (label, color) = if b < hoisted.len() {
                (hoisted[b].name.clone(), hoisted[b].color)
            } else if b == hoisted.len() {
                (String::from_str("Online"), None)
            } else {
                (String::from_str("Offline"), None)
            };
            proof {
                reveal_strlit("Online");
                reveal_strlit("Offline");
            }
            let group = MemberGroup { label, color, entries };
            groups.push(group);
            proof {
                assert(groups@.map_values(|g: MemberGroup<'a>| group_view(g)) =~= before.map_values(
                    |g: MemberGroup<'a>| group_view(g),
                ).push(group_view(group)));
            }
        } else {
            proof {
                assert(member_groups_spec(members@, hoisted@, online_statuses@, b + 1) =~= member_groups_spec(
                    members@,
                    hoisted@,
                    online_statuses@,
                    b as int,
                ));
            }
        }
        b = b + 1;
    }
    groups
}

} // verus!
