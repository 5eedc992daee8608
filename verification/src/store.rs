//! The relational state of the service, held in memory: users, profiles,
//! images, prompts, the interaction ledger, matches and messages, plus an id
//! counter and a monotonic clock. `Store::wf` states the row invariants that
//! every operation of the library preserves.

use crate::inputs::Preferences;
use crate::timefmt::TS_MAX_MICROS;
use vstd::prelude::*;

verus! {

/// An account: identity plus the stored preference document.
pub struct UserRec {
    pub id: u128,
    pub phone: String,
    pub email: Option<String>,
    pub preferences: Option<Preferences>,
}

/// The 1:1 biographical record of a user. `is_complete` is the persisted
/// completeness flag set by finalization.
pub struct ProfileRec {
    pub user_id: u128,
    pub name: Option<String>,
    pub bio: Option<String>,
    pub birthdate: Option<String>,
    pub pronouns: Option<String>,
    pub gender: Option<String>,
    pub sexuality: Option<String>,
    pub height: Option<i32>,
    pub location: Option<String>,
    pub job: Option<String>,
    pub company: Option<String>,
    pub school: Option<String>,
    pub ethnicity: Option<String>,
    pub politics: Option<String>,
    pub religion: Option<String>,
    pub relationship_type: Option<String>,
    pub dating_intention: Option<String>,
    pub drinks: Option<String>,
    pub smokes: Option<String>,
    pub is_complete: bool,
}

/// One profile image; per user the orders are dense `0..count-1`.
pub struct ImageRec {
    pub id: u128,
    pub user_id: u128,
    pub url: String,
    pub display_order: i32,
}

/// One prompt answer; per user at most three, orders dense in `0..=2`.
pub struct PromptRec {
    pub id: u128,
    pub user_id: u128,
    pub question: String,
    pub answer: String,
    pub display_order: i32,
}

/// One directed ledger row; at most one per ordered pair of users.
pub struct InteractionRec {
    pub from_user_id: u128,
    pub to_user_id: u128,
    pub action: String,
    pub context_type: Option<String>,
    pub context_id: Option<String>,
    pub comment: Option<String>,
}

/// A mutual-like pair, with the denormalized tail of its conversation.
pub struct MatchRec {
    pub id: u128,
    pub user1_id: u128,
    pub user2_id: u128,
    pub created_at: i64,
    pub last_message: Option<String>,
    pub last_message_at: Option<i64>,
}

/// One chat message of a match.
pub struct MessageRec {
    pub id: u128,
    pub match_id: u128,
    pub sender_id: u128,
    pub text: String,
    pub created_at: i64,
    pub is_read: bool,
}

/// Whether some user row carries the id.
pub open spec fn user_exists(users: Seq<UserRec>, id: u128) -> bool {
    exists|i: int| 0 <= i < users.len() && users[i].id == id
}

/// Whether some user row carries the phone number.
pub open spec fn phone_exists(users: Seq<UserRec>, phone: Seq<char>) -> bool {
    exists|i: int| 0 <= i < users.len() && users[i].phone@ == phone
}

/// Whether some profile row belongs to the user.
pub open spec fn profile_exists(profiles: Seq<ProfileRec>, user_id: u128) -> bool {
    exists|i: int| 0 <= i < profiles.len() && profiles[i].user_id == user_id
}

/// How many images the user owns.
pub open spec fn image_count(images: Seq<ImageRec>, user_id: u128) -> nat
    decreases images.len(),
{
    if images.len() == 0 {
        0
    } else {
        image_count(images.drop_last(), user_id) + if images.last().user_id == user_id {
            1nat
        } else {
            0nat
        }
    }
}

/// How many prompts the user owns.
pub open spec fn prompt_count(prompts: Seq<PromptRec>, user_id: u128) -> nat
    decreases prompts.len(),
{
    if prompts.len() == 0 {
        0
    } else {
        prompt_count(prompts.drop_last(), user_id) + if prompts.last().user_id == user_id {
            1nat
        } else {
            0nat
        }
    }
}

/// Whether the ledger holds a row for the ordered pair.
pub open spec fn has_interaction(ledger: Seq<InteractionRec>, from: u128, to: u128) -> bool {
    exists|i: int|
        0 <= i < ledger.len() && ledger[i].from_user_id == from && ledger[i].to_user_id == to
}

/// Whether the ledger holds a LIKE row for the ordered pair.
pub open spec fn has_like(ledger: Seq<InteractionRec>, from: u128, to: u128) -> bool {
    exists|i: int|
        0 <= i < ledger.len() && ledger[i].from_user_id == from && ledger[i].to_user_id == to
            && ledger[i].action@ == "LIKE"@
}

/// Whether the match joins the unordered pair `{a, b}`.
pub open spec fn match_joins(m: MatchRec, a: u128, b: u128) -> bool {
    (m.user1_id == a && m.user2_id == b) || (m.user1_id == b && m.user2_id == a)
}

/// How many matches join the unordered pair `{a, b}`.
pub open spec fn match_count(matches: Seq<MatchRec>, a: u128, b: u128) -> nat
    decreases matches.len(),
{
    if matches.len() == 0 {
        0
    } else {
        match_count(matches.drop_last(), a, b) + if match_joins(matches.last(), a, b) {
            1nat
        } else {
            0nat
        }
    }
}

/// Whether some match joins the unordered pair `{a, b}`.
pub open spec fn has_match(matches: Seq<MatchRec>, a: u128, b: u128) -> bool {
    exists|i: int| 0 <= i < matches.len() && match_joins(matches[i], a, b)
}

/// Whether some match row carries the id.
pub open spec fn match_exists(matches: Seq<MatchRec>, id: u128) -> bool {
    exists|i: int| 0 <= i < matches.len() && matches[i].id == id
}

/// The messages of one match, oldest first.
pub open spec fn msgs_of(messages: Seq<MessageRec>, match_id: u128) -> Seq<MessageRec>
    decreases messages.len(),
{
    if messages.len() == 0 {
        Seq::empty()
    } else if messages.last().match_id == match_id {
        msgs_of(messages.drop_last(), match_id).push(messages.last())
    } else {
        msgs_of(messages.drop_last(), match_id)
    }
}

/// The newest message of one match, if any.
pub open spec fn last_msg(messages: Seq<MessageRec>, match_id: u128) -> Option<MessageRec>
    decreases messages.len(),
{
    if messages.len() == 0 {
        None
    } else if messages.last().match_id == match_id {
        Some(messages.last())
    } else {
        last_msg(messages.drop_last(), match_id)
    }
}

/// Row invariants of the user table: ids unique and below the counter,
/// phone numbers unique.
pub open spec fn users_wf(users: Seq<UserRec>, next_id: u128) -> bool {
    &&& forall|i: int, j: int|
        0 <= i < j < users.len() ==> #[trigger] users[i].id != #[trigger] users[j].id
    &&& forall|i: int, j: int|
        0 <= i < j < users.len() ==> #[trigger] users[i].phone@ != #[trigger] users[j].phone@
    &&& forall|i: int| 0 <= i < users.len() ==> (#[trigger] users[i]).id < next_id
}

/// Row invariants of the profile table: one per user, owner exists.
pub open spec fn profiles_wf(profiles: Seq<ProfileRec>, users: Seq<UserRec>) -> bool {
    &&& forall|i: int, j: int|
        0 <= i < j < profiles.len() ==> #[trigger] profiles[i].user_id != #[trigger] profiles[j].user_id
    &&& forall|i: int|
        0 <= i < profiles.len() ==> user_exists(users, (#[trigger] profiles[i]).user_id)
}

/// Row invariants of the image table: ids unique and below the counter,
/// owners exist, at most six per user, and the i-th image of a user carries
/// display order i, which makes the orders dense `0..count-1`.
pub open spec fn images_wf(images: Seq<ImageRec>, users: Seq<UserRec>, next_id: u128) -> bool {
    &&& forall|i: int, j: int|
        0 <= i < j < images.len() ==> #[trigger] images[i].id != #[trigger] images[j].id
    &&& forall|i: int| 0 <= i < images.len() ==> (#[trigger] images[i]).id < next_id
    &&& forall|i: int|
        0 <= i < images.len() ==> user_exists(users, (#[trigger] images[i]).user_id)
    &&& forall|i: int|
        0 <= i < images.len() ==> (#[trigger] images[i]).display_order as int == image_count(
            images.take(i),
            images[i].user_id,
        )
    &&& forall|u: u128| #[trigger] image_count(images, u) <= 6
}

/// Row invariants of the prompt table: as for images, capped at three.
pub open spec fn prompts_wf(prompts: Seq<PromptRec>, users: Seq<UserRec>, next_id: u128) -> bool {
    &&& forall|i: int, j: int|
        0 <= i < j < prompts.len() ==> #[trigger] prompts[i].id != #[trigger] prompts[j].id
    &&& forall|i: int| 0 <= i < prompts.len() ==> (#[trigger] prompts[i]).id < next_id
    &&& forall|i: int|
        0 <= i < prompts.len() ==> user_exists(users, (#[trigger] prompts[i]).user_id)
    &&& forall|i: int|
        0 <= i < prompts.len() ==> (#[trigger] prompts[i]).display_order as int == prompt_count(
            prompts.take(i),
            prompts[i].user_id,
        )
    &&& forall|u: u128| #[trigger] prompt_count(prompts, u) <= 3
}

/// At most one ledger row per ordered pair of users.
pub open spec fn ledger_unique(ledger: Seq<InteractionRec>) -> bool {
    forall|i: int, j: int|
        0 <= i < j < ledger.len() ==> !(#[trigger] ledger[i].from_user_id == #[trigger] ledger[j].from_user_id
            && ledger[i].to_user_id == ledger[j].to_user_id)
}

/// Whether a single ledger row is acceptable: both endpoints exist, the
/// action is LIKE or PASS, and a context, if present, names an image or a
/// prompt.
pub open spec fn ledger_row_ok(rec: InteractionRec, users: Seq<UserRec>) -> bool {
    &&& user_exists(users, rec.from_user_id)
    &&& user_exists(users, rec.to_user_id)
    &&& (rec.action@ == "LIKE"@ || rec.action@ == "PASS"@)
    &&& (rec.context_type matches Some(t) ==> (t@ == "IMAGE"@ || t@ == "PROMPT"@))
}

/// Row invariants of the interaction ledger: at most one row per ordered
/// pair, both endpoints exist, the action is LIKE or PASS, and a context, if
/// present, names an image or a prompt.
pub open spec fn ledger_wf(ledger: Seq<InteractionRec>, users: Seq<UserRec>) -> bool {
    &&& ledger_unique(ledger)
    &&& forall|i: int| 0 <= i < ledger.len() ==> ledger_row_ok(#[trigger] ledger[i], users)
}

/// At most one match per unordered pair of users.
pub open spec fn matches_pair_unique(matches: Seq<MatchRec>) -> bool {
    forall|i: int, j: int|
        0 <= i < j < matches.len() ==> !match_joins(
            #[trigger] matches[i],
            (#[trigger] matches[j]).user1_id,
            matches[j].user2_id,
        )
}

/// Row invariants of the match table: ids unique and below the counter, the
/// two sides differ and exist, and at most one match per unordered pair.
pub open spec fn matches_wf(matches: Seq<MatchRec>, users: Seq<UserRec>, next_id: u128) -> bool {
    &&& forall|i: int, j: int|
        0 <= i < j < matches.len() ==> #[trigger] matches[i].id != #[trigger] matches[j].id
    &&& forall|i: int| 0 <= i < matches.len() ==> (#[trigger] matches[i]).id < next_id
    &&& forall|i: int|
        0 <= i < matches.len() ==> (#[trigger] matches[i]).user1_id != matches[i].user2_id
    &&& forall|i: int|
        0 <= i < matches.len() ==> user_exists(users, (#[trigger] matches[i]).user1_id)
            && user_exists(users, matches[i].user2_id)
    &&& matches_pair_unique(matches)
}

/// Whether the message sits in an existing match and was sent by one of its
/// two sides.
pub open spec fn message_has_home(msg: MessageRec, matches: Seq<MatchRec>) -> bool {
    exists|k: int|
        0 <= k < matches.len() && (#[trigger] matches[k]).id == msg.match_id && (msg.sender_id
            == matches[k].user1_id || msg.sender_id == matches[k].user2_id)
}

/// Row invariants of the message table: ids unique and below the counter,
/// each message belongs to an existing match and was sent by one of its two
/// sides, and creation instants are strictly increasing along the table and
/// bounded by the clock.
pub open spec fn messages_wf(
    messages: Seq<MessageRec>,
    matches: Seq<MatchRec>,
    next_id: u128,
    clock: i64,
) -> bool {
    &&& forall|i: int, j: int|
        0 <= i < j < messages.len() ==> #[trigger] messages[i].id != #[trigger] messages[j].id
    &&& forall|i: int| 0 <= i < messages.len() ==> (#[trigger] messages[i]).id < next_id
    &&& forall|i: int|
        0 <= i < messages.len() ==> message_has_home(#[trigger] messages[i], matches)
    &&& forall|i: int, j: int|
        0 <= i < j < messages.len() ==> #[trigger] messages[i].created_at < #[trigger] messages[j].created_at
    &&& forall|i: int|
        0 <= i < messages.len() ==> 0 <= (#[trigger] messages[i]).created_at <= clock
}

/// The denormalized conversation tail of every match agrees with the
/// message table.
pub open spec fn denorm_wf(matches: Seq<MatchRec>, messages: Seq<MessageRec>) -> bool {
    forall|k: int|
        0 <= k < matches.len() ==> match last_msg(messages, (#[trigger] matches[k]).id) {
            Some(m) => matches[k].last_message == Some(m.text) && matches[k].last_message_at
                == Some(m.created_at),
            None => matches[k].last_message matches None && matches[k].last_message_at matches None,
        }
}

/// The whole relational state.
pub struct Store {
    pub users: Vec<UserRec>,
    pub profiles: Vec<ProfileRec>,
    pub images: Vec<ImageRec>,
    pub prompts: Vec<PromptRec>,
    pub interactions: Vec<InteractionRec>,
    pub matches: Vec<MatchRec>,
    pub messages: Vec<MessageRec>,
    pub next_id: u128,
    pub clock: i64,
}

impl Store {
    /// Every table invariant at once; established by `new` and preserved by
    /// every operation of the library.
    pub open spec fn wf(self) -> bool {
        &&& users_wf(self.users@, self.next_id)
        &&& profiles_wf(self.profiles@, self.users@)
        &&& images_wf(self.images@, self.users@, self.next_id)
        &&& prompts_wf(self.prompts@, self.users@, self.next_id)
        &&& ledger_wf(self.interactions@, self.users@)
        &&& matches_wf(self.matches@, self.users@, self.next_id)
        &&& messages_wf(self.messages@, self.matches@, self.next_id, self.clock)
        &&& denorm_wf(self.matches@, self.messages@)
        &&& 0 <= self.clock <= TS_MAX_MICROS
    }

    /// An empty store.
    pub fn new() -> (s: Store)
        ensures
            s.wf(),
            s.users@.len() == 0,
            s.profiles@.len() == 0,
            s.images@.len() == 0,
            s.prompts@.len() == 0,
            s.interactions@.len() == 0,
            s.matches@.len() == 0,
            s.messages@.len() == 0,
    {
        let s = Store {
            users: Vec::new(),
            profiles: Vec::new(),
            images: Vec::new(),
            prompts: Vec::new(),
            interactions: Vec::new(),
            matches: Vec::new(),
            messages: Vec::new(),
            next_id: 1,
            clock: 0,
        };
        proof {
            assert forall|u: u128| #[trigger] image_count(s.images@, u) <= 6 by {
                assert(s.images@.len() == 0);
            }
            assert forall|u: u128| #[trigger] prompt_count(s.prompts@, u) <= 3 by {
                assert(s.prompts@.len() == 0);
            }
        }
        s
    }

    /// The position of the user row carrying `id`, if any.
    pub fn user_index(&self, id: u128) -> (r: Option<usize>)
        ensures
            match r {
                Some(i) => i < self.users@.len() && self.users@[i as int].id == id,
                None => !user_exists(self.users@, id),
            },
    {
        let mut i: usize = 0;
        while i < self.users.len()
            invariant
                0 <= i <= self.users@.len(),
                forall|k: int| 0 <= k < i ==> (#[trigger] self.users@[k]).id != id,
            decreases self.users@.len() - i,
        {
            if self.users[i].id == id {
                return Some(i);
            }
            i = i + 1;
        }
        None
    }

    /// Whether a user row carries `id`.
    pub fn has_user(&self, id: u128) -> (r: bool)
        ensures
            r == user_exists(self.users@, id),
    {
        match self.user_index(id) {
            Some(_) => true,
            None => false,
        }
    }

    /// The position of the profile row of `user_id`, if any.
    pub fn profile_index(&self, user_id: u128) -> (r: Option<usize>)
        ensures
            match r {
                Some(i) => i < self.profiles@.len() && self.profiles@[i as int].user_id == user_id,
                None => !profile_exists(self.profiles@, user_id),
            },
    {
        let mut i: usize = 0;
        while i < self.profiles.len()
            invariant
                0 <= i <= self.profiles@.len(),
                forall|k: int| 0 <= k < i ==> (#[trigger] self.profiles@[k]).user_id != user_id,
            decreases self.profiles@.len() - i,
        {
            if self.profiles[i].user_id == user_id {
                return Some(i);
            }
            i = i + 1;
        }
        None
    }

    /// The position of the ledger row for the ordered pair, if any.
    pub fn interaction_index(&self, from: u128, to: u128) -> (r: Option<usize>)
        ensures
            match r {
                Some(i) => i < self.interactions@.len() && self.interactions@[i as int].from_user_id
                    == from && self.interactions@[i as int].to_user_id == to,
                None => !has_interaction(self.interactions@, from, to),
            },
    {
        let mut i: usize = 0;
        while i < self.interactions.len()
            invariant
                0 <= i <= self.interactions@.len(),
                forall|k: int|
                    0 <= k < i ==> !((#[trigger] self.interactions@[k]).from_user_id == from
                        && self.interactions@[k].to_user_id == to),
            decreases self.interactions@.len() - i,
        {
            if self.interactions[i].from_user_id == from && self.interactions[i].to_user_id == to {
                return Some(i);
            }
            i = i + 1;
        }
        None
    }

    /// The position of the match row carrying `id`, if any.
    pub fn match_index(&self, id: u128) -> (r: Option<usize>)
        ensures
            match r {
                Some(i) => i < self.matches@.len() && self.matches@[i as int].id == id,
                None => !match_exists(self.matches@, id),
            },
    {
        let mut i: usize = 0;
        while i < self.matches.len()
            invariant
                0 <= i <= self.matches@.len(),
                forall|k: int| 0 <= k < i ==> (#[trigger] self.matches@[k]).id != id,
            decreases self.matches@.len() - i,
        {
            if self.matches[i].id == id {
                return Some(i);
            }
            i = i + 1;
        }
        None
    }

    /// The position of the match row joining the unordered pair, if any.
    pub fn match_pair_index(&self, a: u128, b: u128) -> (r: Option<usize>)
        ensures
            match r {
                Some(i) => i < self.matches@.len() && match_joins(self.matches@[i as int], a, b),
                None => !has_match(self.matches@, a, b),
            },
    {
        let mut i: usize = 0;
        while i < self.matches.len()
            invariant
                0 <= i <= self.matches@.len(),
                forall|k: int| 0 <= k < i ==> !match_joins(#[trigger] self.matches@[k], a, b),
            decreases self.matches@.len() - i,
        {
            let m = &self.matches[i];
            if (m.user1_id == a && m.user2_id == b) || (m.user1_id == b && m.user2_id == a) {
                return Some(i);
            }
            i = i + 1;
        }
        None
    }
}

/// A user visible in a table stays visible when a row is appended.
pub proof fn lemma_user_exists_push(users: Seq<UserRec>, u: UserRec, id: u128)
    requires
        user_exists(users, id),
    ensures
        user_exists(users.push(u), id),
{
    let i = choose|i: int| 0 <= i < users.len() && users[i].id == id;
    assert(users.push(u)[i].id == id);
}

/// Every user visible in a table stays visible when a row is appended.
pub proof fn lemma_all_users_still_exist_push(users: Seq<UserRec>, u: UserRec)
    ensures
        forall|id: u128| #[trigger] user_exists(users, id) ==> user_exists(users.push(u), id),
{
    assert forall|id: u128| #[trigger] user_exists(users, id) implies user_exists(
        users.push(u),
        id,
    ) by {
        lemma_user_exists_push(users, u, id);
    }
}

/// Replacing one user row without changing its id or phone number keeps
/// every identity-level fact about the table.
pub proof fn lemma_user_update_same_identity(
    old_users: Seq<UserRec>,
    new_users: Seq<UserRec>,
    i: int,
)
    requires
        0 <= i < old_users.len(),
        new_users.len() == old_users.len(),
        forall|k: int| 0 <= k < old_users.len() && k != i ==> new_users[k] == old_users[k],
        new_users[i].id == old_users[i].id,
        new_users[i].phone@ == old_users[i].phone@,
    ensures
        forall|k: int|
            0 <= k < old_users.len() ==> (#[trigger] new_users[k]).id == old_users[k].id
                && new_users[k].phone@ == old_users[k].phone@,
        forall|id: u128| #[trigger] user_exists(old_users, id) ==> user_exists(new_users, id),
        forall|id: u128| #[trigger] user_exists(new_users, id) ==> user_exists(old_users, id),
{
    assert forall|id: u128| #[trigger] user_exists(old_users, id) implies user_exists(
        new_users,
        id,
    ) by {
        let j = choose|j: int| 0 <= j < old_users.len() && old_users[j].id == id;
        assert(new_users[j].id == id);
    }
    assert forall|id: u128| #[trigger] user_exists(new_users, id) implies user_exists(
        old_users,
        id,
    ) by {
        let j = choose|j: int| 0 <= j < new_users.len() && new_users[j].id == id;
        assert(old_users[j].id == id);
    }
}

/// A match id that no message carries has no newest message.
pub proof fn lemma_last_msg_none(messages: Seq<MessageRec>, match_id: u128)
    requires
        forall|i: int| 0 <= i < messages.len() ==> (#[trigger] messages[i]).match_id != match_id,
    ensures
        last_msg(messages, match_id) is None,
    decreases messages.len(),
{
    if messages.len() > 0 {
        lemma_last_msg_none(messages.drop_last(), match_id);
    }
}

/// The message-table invariant only bounds ids from above, so a larger id
/// counter keeps it.
pub proof fn lemma_messages_wf_counter_monotone(
    messages: Seq<MessageRec>,
    matches: Seq<MatchRec>,
    next_id1: u128,
    next_id2: u128,
    clock: i64,
)
    requires
        messages_wf(messages, matches, next_id1, clock),
        next_id1 <= next_id2,
    ensures
        messages_wf(messages, matches, next_id2, clock),
{
}

/// Removing a row and inserting a replacement at the same position is a
/// pointwise update of the table.
pub proof fn lemma_seq_remove_insert<T>(s: Seq<T>, i: int, v: T)
    requires
        0 <= i < s.len(),
    ensures
        s.remove(i).insert(i, v) =~= s.update(i, v),
{
    let t = s.remove(i).insert(i, v);
    assert forall|k: int| 0 <= k < s.len() implies t[k] == s.update(i, v)[k] by {
        if k < i {
            assert(s.remove(i)[k] == s[k]);
        } else if k > i {
            assert(s.remove(i)[k - 1] == s[k]);
        }
    }
}

/// Appending an image for one user leaves every other user's count alone
/// and raises the owner's count by one.
pub proof fn lemma_image_count_push(images: Seq<ImageRec>, r: ImageRec, u: u128)
    ensures
        image_count(images.push(r), u) == image_count(images, u) + if r.user_id == u {
            1nat
        } else {
            0nat
        },
{
    assert(images.push(r).drop_last() =~= images);
}

/// Appending a prompt for one user leaves every other user's count alone
/// and raises the owner's count by one.
pub proof fn lemma_prompt_count_push(prompts: Seq<PromptRec>, r: PromptRec, u: u128)
    ensures
        prompt_count(prompts.push(r), u) == prompt_count(prompts, u) + if r.user_id == u {
            1nat
        } else {
            0nat
        },
{
    assert(prompts.push(r).drop_last() =~= prompts);
}

/// Appending a match row raises the count of exactly the pair it joins.
pub proof fn lemma_match_count_push(matches: Seq<MatchRec>, r: MatchRec, a: u128, b: u128)
    ensures
        match_count(matches.push(r), a, b) == match_count(matches, a, b) + if match_joins(r, a, b) {
            1nat
        } else {
            0nat
        },
{
    assert(matches.push(r).drop_last() =~= matches);
}

/// A pair with at least one match has a positive count, and conversely.
pub proof fn lemma_match_count_pos(matches: Seq<MatchRec>, a: u128, b: u128)
    ensures
        has_match(matches, a, b) <==> match_count(matches, a, b) > 0,
    decreases matches.len(),
{
    if matches.len() > 0 {
        lemma_match_count_pos(matches.drop_last(), a, b);
        assert(has_match(matches.drop_last(), a, b) ==> has_match(matches, a, b)) by {
            if has_match(matches.drop_last(), a, b) {
                let i = choose|i: int|
                    0 <= i < matches.drop_last().len() && match_joins(matches.drop_last()[i], a, b);
                assert(match_joins(matches[i], a, b));
            }
        }
        if has_match(matches, a, b) {
            let i = choose|i: int| 0 <= i < matches.len() && match_joins(matches[i], a, b);
            if i < matches.len() - 1 {
                assert(match_joins(matches.drop_last()[i], a, b));
            }
        }
    }
}

/// In a table whose rows join pairwise-distinct pairs, no pair is joined by
/// more than one row.
pub proof fn lemma_match_count_at_most_one(matches: Seq<MatchRec>, a: u128, b: u128)
    requires
        matches_pair_unique(matches),
    ensures
        match_count(matches, a, b) <= 1,
    decreases matches.len(),
{
    if matches.len() > 0 {
        let prefix = matches.drop_last();
        lemma_match_count_at_most_one(prefix, a, b);
        if match_joins(matches.last(), a, b) {
            // no earlier row can join the same pair, so the prefix count is zero
            assert(match_count(prefix, a, b) == 0) by {
                lemma_match_count_pos(prefix, a, b);
                if has_match(prefix, a, b) {
                    let i = choose|i: int| 0 <= i < prefix.len() && match_joins(prefix[i], a, b);
                    let j = matches.len() - 1;
                    assert(match_joins(matches[i], a, b));
                    assert(match_joins(matches[i], matches[j].user1_id, matches[j].user2_id));
                }
            }
        }
    }
}

} // verus!
