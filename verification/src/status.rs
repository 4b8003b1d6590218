//! Status records and the interaction reducer.
//!
//! A [`StatusData`] is one social-media post: immutable fetched data plus
//! the local user's interaction flags and the public engagement counters.
//! The reducer applies one of four symmetric toggle operations to a single
//! record; three of them move a counter in lockstep with their flag, the
//! bookmark toggle flips its flag alone.

use vstd::prelude::*;

verus! {

/// The author of a status: username and avatar location, embedded by value
/// in every status record.
#[derive(Debug)]
pub struct Account {
    pub username: String,
    pub avatar: String,
}

/// Mathematical value of an [`Account`].
#[verifier::ext_equal]
pub struct SpecAccount {
    pub username: Seq<char>,
    pub avatar: Seq<char>,
}

impl View for Account {
    type V = SpecAccount;

    open spec fn view(&self) -> SpecAccount {
        SpecAccount { username: self.username@, avatar: self.avatar@ }
    }
}

impl Clone for Account {
    fn clone(&self) -> (res: Self)
        ensures
            res@ == self@,
    {
        Account { username: self.username.clone(), avatar: self.avatar.clone() }
    }
}

impl PartialEq for Account {
    fn eq(&self, other: &Self) -> (r: bool) {
        self.username == other.username && self.avatar == other.avatar
    }
}

impl vstd::std_specs::cmp::PartialEqSpecImpl for Account {
    open spec fn obeys_eq_spec() -> bool {
        true
    }

    open spec fn eq_spec(&self, other: &Self) -> bool {
        self@ == other@
    }
}

/// One social post: a stable id assigned by the origin server (the store
/// key), the fetched account and body, and the interaction state.
#[derive(Debug)]
pub struct StatusData {
    pub id: String,
    pub account: Account,
    pub content: String,
    pub favorites_count: u32,
    pub is_favorited: bool,
    pub reblogs_count: u32,
    pub is_reblogged: bool,
    pub replies_count: u32,
    pub is_replied: bool,
    pub is_bookmarked: bool,
}

/// Mathematical value of a [`StatusData`].
#[verifier::ext_equal]
pub struct SpecStatus {
    pub id: Seq<char>,
    pub account: SpecAccount,
    pub content: Seq<char>,
    pub favorites_count: nat,
    pub is_favorited: bool,
    pub reblogs_count: nat,
    pub is_reblogged: bool,
    pub replies_count: nat,
    pub is_replied: bool,
    pub is_bookmarked: bool,
}

impl View for StatusData {
    type V = SpecStatus;

    open spec fn view(&self) -> SpecStatus {
        SpecStatus {
            id: self.id@,
            account: self.account@,
            content: self.content@,
            favorites_count: self.favorites_count as nat,
            is_favorited: self.is_favorited,
            reblogs_count: self.reblogs_count as nat,
            is_reblogged: self.is_reblogged,
            replies_count: self.replies_count as nat,
            is_replied: self.is_replied,
            is_bookmarked: self.is_bookmarked,
        }
    }
}

impl Clone for StatusData {
    fn clone(&self) -> (res: Self)
        ensures
            res@ == self@,
    {
        StatusData {
            id: self.id.clone(),
            account: self.account.clone(),
            content: self.content.clone(),
            favorites_count: self.favorites_count,
            is_favorited: self.is_favorited,
            reblogs_count: self.reblogs_count,
            is_reblogged: self.is_reblogged,
            replies_count: self.replies_count,
            is_replied: self.is_replied,
            is_bookmarked: self.is_bookmarked,
        }
    }
}

impl PartialEq for StatusData {
    fn eq(&self, other: &Self) -> (r: bool) {
        self.id == other.id && self.account == other.account && self.content == other.content
            && self.favorites_count == other.favorites_count
            && self.is_favorited == other.is_favorited
            && self.reblogs_count == other.reblogs_count
            && self.is_reblogged == other.is_reblogged
            && self.replies_count == other.replies_count && self.is_replied == other.is_replied
            && self.is_bookmarked == other.is_bookmarked
    }
}

impl vstd::std_specs::cmp::PartialEqSpecImpl for StatusData {
    open spec fn obeys_eq_spec() -> bool {
        true
    }

    open spec fn eq_spec(&self, other: &Self) -> bool {
        self@ == other@
    }
}

/// One of the four user interactions a status responds to.
#[derive(Clone, Copy, Debug, PartialEq, Eq, Structural)]
pub enum Interaction {
    Favorite,
    Reply,
    Reblog,
    Bookmark,
}

/// The counter paired with a flag after that flag is toggled: toggling on
/// adds one, saturating at `u32::MAX`; toggling off subtracts one, clamping
/// at zero so the counter never goes negative.
pub open spec fn toggled_count(flag: bool, count: nat) -> nat {
    if flag {
        if count > 0 {
            (count - 1) as nat
        } else {
            0
        }
    } else {
        if count < u32::MAX as nat {
            count + 1
        } else {
            count
        }
    }
}

/// The status value produced by applying one interaction: the matching flag
/// flips, its paired counter (if any) moves one step in the same direction,
/// and every other field is untouched.
pub open spec fn spec_reduce(s: SpecStatus, interaction: Interaction) -> SpecStatus {
    match interaction {
        Interaction::Favorite => SpecStatus {
            is_favorited: !s.is_favorited,
            favorites_count: toggled_count(s.is_favorited, s.favorites_count),
            ..s
        },
        Interaction::Reply => SpecStatus {
            is_replied: !s.is_replied,
            replies_count: toggled_count(s.is_replied, s.replies_count),
            ..s
        },
        Interaction::Reblog => SpecStatus {
            is_reblogged: !s.is_reblogged,
            reblogs_count: toggled_count(s.is_reblogged, s.reblogs_count),
            ..s
        },
        Interaction::Bookmark => SpecStatus { is_bookmarked: !s.is_bookmarked, ..s },
    }
}

/// The mathematical values of a sequence of status records, in order.
pub open spec fn views_of(statuses: Seq<StatusData>) -> Seq<SpecStatus> {
    statuses.map_values(|s: StatusData| s@)
}

/// Flip `flag` and move its paired `count` one step in the same direction,
/// clamping at zero and saturating at `u32::MAX`.
pub fn toggle(flag: &mut bool, count: &mut u32)
    ensures
        *final(flag) == !*old(flag),
        *final(count) as nat == toggled_count(*old(flag), *old(count) as nat),
{
    if *flag {
        *flag = false;
        if *count > 0 {
            *count = *count - 1;
        }
    } else {
        *flag = true;
        if *count < u32::MAX {
            *count = *count + 1;
        }
    }
}

/// Apply one interaction to a status record in place.
pub fn reduce(status: &mut StatusData, interaction: Interaction)
    ensures
        final(status)@ == spec_reduce(old(status)@, interaction),
{
    match interaction {
        Interaction::Favorite => toggle(&mut status.is_favorited, &mut status.favorites_count),
        Interaction::Reply => toggle(&mut status.is_replied, &mut status.replies_count),
        Interaction::Reblog => toggle(&mut status.is_reblogged, &mut status.reblogs_count),
        Interaction::Bookmark => {
            status.is_bookmarked = !status.is_bookmarked;
        },
    }
}

/// `n` successive favorite toggles applied to `s`.
pub open spec fn iterate_favorite(s: SpecStatus, n: nat) -> SpecStatus
    decreases n,
{
    if n == 0 {
        s
    } else {
        spec_reduce(iterate_favorite(s, (n - 1) as nat), Interaction::Favorite)
    }
}

/// Law: repeated favorite toggles cycle with period two.  For a status
/// whose favorite count fits the counter, agrees with its flag, and leaves
/// room for one more favorite, an even number of toggles restores the
/// status exactly and an odd number equals a single toggle — in
/// particular, a status that started unfavorited is then favorited with
/// the count one above its original value.
pub proof fn lemma_favorite_toggle_cycle(s: SpecStatus, n: nat)
    requires
        s.favorites_count <= u32::MAX as nat,
        s.is_favorited ==> s.favorites_count >= 1,
        !s.is_favorited ==> s.favorites_count < u32::MAX as nat,
    ensures
        n % 2 == 0 ==> iterate_favorite(s, n) == s,
        n % 2 == 1 ==> iterate_favorite(s, n) == spec_reduce(s, Interaction::Favorite),
        n % 2 == 1 && !s.is_favorited ==> iterate_favorite(s, n).is_favorited && iterate_favorite(
            s,
            n,
        ).favorites_count == s.favorites_count + 1,
    decreases n,
{
    if n > 0 {
        lemma_favorite_toggle_cycle(s, (n - 1) as nat);
        if (n - 1) % 2 == 1 {
            let t = spec_reduce(s, Interaction::Favorite);
            assert(spec_reduce(t, Interaction::Favorite) =~= s);
        }
    }
}

/// Law: toggling the bookmark twice returns the very status value in place
/// before both calls; the bookmark toggle touches no counter.
pub proof fn lemma_bookmark_toggle_involution(s: SpecStatus)
    ensures
        spec_reduce(spec_reduce(s, Interaction::Bookmark), Interaction::Bookmark) == s,
{
    assert(spec_reduce(spec_reduce(s, Interaction::Bookmark), Interaction::Bookmark) =~= s);
}

} // verus!
