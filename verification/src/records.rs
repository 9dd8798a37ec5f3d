//! The record types stored by the service: community, content,
//! depositor, proposal and user-profile records, plus the counter
//! updates a community undergoes when a child record is appended.
//!
//! Records enter and leave the store as opaque byte values; these types
//! carry the fields the storage logic itself reads and updates.

use vstd::prelude::*;

verus! {

/// A DAO community record; the three `*_count` fields drive the
/// composite keys of its child records.
pub struct Community {
    pub admin: String,
    pub time_limit: u64,
    pub base_fee: u64,
    pub ai_moderation: bool,
    pub deposit_share: u8,
    pub last_activity_timestamp: u64,
    pub total_deposit: u64,
    pub active_proposal_count: u64,
    pub content_count: u64,
    pub depositor_count: u64,
}

/// A content record of a community.
pub struct Content {
    pub author: String,
    pub content_hash: String,
    pub content_uri: String,
    pub timestamp: u64,
    pub votes: u64,
}

/// A depositor record of a community.
pub struct Depositor {
    pub pubkey: String,
    pub amount: u64,
    pub locked_until: u64,
    pub voting_power: u64,
}

/// A proposal record of a community.
pub struct Proposal {
    pub id: u64,
    pub proposal_type: u8,
    pub new_value: u64,
    pub voting_end_time: u64,
    pub yes_votes: u64,
    pub no_votes: u64,
    pub is_executed: bool,
}

/// The registration record of a DAO: its address alone.
pub struct Daopda {
    pub address: String,
}

/// A user profile record, keyed by the user's address.
pub struct UserProfile {
    pub user_id: String,
    pub user_name: String,
    pub user_address: String,
    pub github_account: String,
    pub x_account: String,
    pub tg_account: String,
    pub user_bio: String,
    pub user_avatar: Option<Vec<u8>>,
    pub avatar_content_type: Option<String>,
}

impl Community {
    /// Counts one more content record and stamps the activity time;
    /// every other field is kept.
    pub fn add_content(&mut self, now: u64)
        requires
            old(self).content_count < u64::MAX,
        ensures
            final(self).content_count == old(self).content_count + 1,
            final(self).last_activity_timestamp == now,
            final(self).admin == old(self).admin,
            final(self).time_limit == old(self).time_limit,
            final(self).base_fee == old(self).base_fee,
            final(self).ai_moderation == old(self).ai_moderation,
            final(self).deposit_share == old(self).deposit_share,
            final(self).total_deposit == old(self).total_deposit,
            final(self).active_proposal_count == old(self).active_proposal_count,
            final(self).depositor_count == old(self).depositor_count,
    {
        self.content_count = self.content_count + 1;
        self.last_activity_timestamp = now;
    }

    /// Counts one more depositor record and stamps the activity time;
    /// every other field is kept.
    pub fn add_depositor(&mut self, now: u64)
        requires
            old(self).depositor_count < u64::MAX,
        ensures
            final(self).depositor_count == old(self).depositor_count + 1,
            final(self).last_activity_timestamp == now,
            final(self).admin == old(self).admin,
            final(self).time_limit == old(self).time_limit,
            final(self).base_fee == old(self).base_fee,
            final(self).ai_moderation == old(self).ai_moderation,
            final(self).deposit_share == old(self).deposit_share,
            final(self).total_deposit == old(self).total_deposit,
            final(self).active_proposal_count == old(self).active_proposal_count,
            final(self).content_count == old(self).content_count,
    {
        self.depositor_count = self.depositor_count + 1;
        self.last_activity_timestamp = now;
    }

    /// Counts one more active proposal and stamps the activity time;
    /// every other field is kept.
    pub fn add_proposal(&mut self, now: u64)
        requires
            old(self).active_proposal_count < u64::MAX,
        ensures
            final(self).active_proposal_count == old(self).active_proposal_count + 1,
            final(self).last_activity_timestamp == now,
            final(self).admin == old(self).admin,
            final(self).time_limit == old(self).time_limit,
            final(self).base_fee == old(self).base_fee,
            final(self).ai_moderation == old(self).ai_moderation,
            final(self).deposit_share == old(self).deposit_share,
            final(self).total_deposit == old(self).total_deposit,
            final(self).content_count == old(self).content_count,
            final(self).depositor_count == old(self).depositor_count,
    {
        self.active_proposal_count = self.active_proposal_count + 1;
        self.last_activity_timestamp = now;
    }
}

impl UserProfile {
    /// The profile served for an address no profile was stored under:
    /// every field empty but the address itself.
    pub fn default_for_address(address: &str) -> (p: UserProfile)
        ensures
            p.user_id@ == Seq::<char>::empty(),
            p.user_name@ == Seq::<char>::empty(),
            p.user_address@ == address@,
            p.github_account@ == Seq::<char>::empty(),
            p.x_account@ == Seq::<char>::empty(),
            p.tg_account@ == Seq::<char>::empty(),
            p.user_bio@ == Seq::<char>::empty(),
            p.user_avatar is None,
            p.avatar_content_type is None,
    {
        UserProfile {
            user_id: String::new(),
            user_name: String::new(),
            user_address: address.to_owned(),
            github_account: String::new(),
            x_account: String::new(),
            tg_account: String::new(),
            user_bio: String::new(),
            user_avatar: None,
            avatar_content_type: None,
        }
    }
}

} // verus!
