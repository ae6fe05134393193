//! The durable identity record and the process configuration.
//!
//! `DataJson` is the only durable entity of the engine: a couple of feature
//! counters and, for each monitored target, the identifier of the status
//! message the bot previously created there (`None` until the first
//! successful send).
use vstd::prelude::*;

verus! {

/// One independently monitored status-reporting duty.
#[derive(Clone, Copy, Debug, PartialEq, Eq)]
pub enum Target {
    /// The game-server player roster message.
    ServerStatus,
    /// The third-party platform status message.
    CfxStatus,
}

/// The persisted record: feature counters plus one optional message id per
/// monitored target.
#[derive(Clone, Copy, Debug, PartialEq, Eq)]
pub struct DataJson {
    pub suggestion_count: u16,
    pub bug_report_count: u16,
    pub status_message_id: Option<u64>,
    pub cfx_status_message_id: Option<u64>,
}

impl DataJson {
    /// The message id currently recorded for `target`, as a spec value.
    pub open spec fn spec_get(self, target: Target) -> Option<u64> {
        match target {
            Target::ServerStatus => self.status_message_id,
            Target::CfxStatus => self.cfx_status_message_id,
        }
    }

    /// A fresh default record: zero counters, no message created yet.
    pub fn new() -> (r: Self)
        ensures
            r == Self::default_spec(),
    {
        Self {
            suggestion_count: 0,
            bug_report_count: 0,
            status_message_id: None,
            cfx_status_message_id: None,
        }
    }

    /// The default record as a spec value.
    pub open spec fn default_spec() -> Self {
        DataJson {
            suggestion_count: 0,
            bug_report_count: 0,
            status_message_id: None,
            cfx_status_message_id: None,
        }
    }

    pub fn increment_suggestion_count(&mut self)
        requires
            old(self).suggestion_count < u16::MAX,
        ensures
            final(self).suggestion_count == old(self).suggestion_count + 1,
            final(self).bug_report_count == old(self).bug_report_count,
            final(self).status_message_id == old(self).status_message_id,
            final(self).cfx_status_message_id == old(self).cfx_status_message_id,
    {
        self.suggestion_count += 1;
    }

    pub fn increment_bug_report_count(&mut self)
        requires
            old(self).bug_report_count < u16::MAX,
        ensures
            final(self).bug_report_count == old(self).bug_report_count + 1,
            final(self).suggestion_count == old(self).suggestion_count,
            final(self).status_message_id == old(self).status_message_id,
            final(self).cfx_status_message_id == old(self).cfx_status_message_id,
    {
        self.bug_report_count += 1;
    }

    pub fn set_status_message_id(&mut self, id: u64)
        ensures
            *final(self) == (DataJson { status_message_id: Some(id), ..*old(self) }),
    {
        self.status_message_id = Some(id);
    }

    pub fn set_cfx_status_message_id(&mut self, id: u64)
        ensures
            *final(self) == (DataJson { cfx_status_message_id: Some(id), ..*old(self) }),
    {
        self.cfx_status_message_id = Some(id);
    }

    /// Pure read of the id recorded for one target.
    pub fn get(&self, target: Target) -> (r: Option<u64>)
        ensures
            r == self.spec_get(target),
    {
        match target {
            Target::ServerStatus => self.status_message_id,
            Target::CfxStatus => self.cfx_status_message_id,
        }
    }

    /// The record with the id of one target replaced and all else kept.
    pub open spec fn with_id(self, target: Target, id: u64) -> Self {
        match target {
            Target::ServerStatus => DataJson { status_message_id: Some(id), ..self },
            Target::CfxStatus => DataJson { cfx_status_message_id: Some(id), ..self },
        }
    }

    /// Records that a message for `target` was sent under `id`.
    ///
    /// Only the entry of `target` changes; the other target's record and the
    /// counters are untouched.
    pub fn record_sent(&mut self, target: Target, id: u64)
        ensures
            *final(self) == old(self).with_id(target, id),
            final(self).spec_get(target) == Some(id),
            forall|t: Target| t != target ==> final(self).spec_get(t) == old(self).spec_get(t),
            final(self).suggestion_count == old(self).suggestion_count,
            final(self).bug_report_count == old(self).bug_report_count,
    {
        match target {
            Target::ServerStatus => self.set_status_message_id(id),
            Target::CfxStatus => self.set_cfx_status_message_id(id),
        }
    }
}

impl Default for DataJson {
    /// Same record as `DataJson::new`.
    fn default() -> (r: Self)
        ensures
            r == Self::default_spec(),
    {
        Self::new()
    }
}

/// Process-wide configuration: the identity record plus the plain values the
/// surrounding process reads at startup.
pub struct Config {
    pub data_json: DataJson,
    pub token: String,
    pub suggestions_channel_id: u64,
    pub bug_report_channel_id: u64,
    pub bug_log_channel_id: u64,
    pub status_channel_id: u64,
    pub cfx_status_channel_id: u64,
    pub guild_id: u64,
    pub help_channel_id: u64,
    pub fivem_ip: String,
}

impl Config {
    /// Builds a configuration from already-validated plain values, starting
    /// from the given identity record.
    pub fn new(
        data_json: DataJson,
        token: String,
        suggestions_channel_id: u64,
        bug_report_channel_id: u64,
        bug_log_channel_id: u64,
        status_channel_id: u64,
        cfx_status_channel_id: u64,
        guild_id: u64,
        help_channel_id: u64,
        fivem_ip: String,
    ) -> (r: Self)
        ensures
            r.data_json == data_json,
            r.token == token,
            r.suggestions_channel_id == suggestions_channel_id,
            r.bug_report_channel_id == bug_report_channel_id,
            r.bug_log_channel_id == bug_log_channel_id,
            r.status_channel_id == status_channel_id,
            r.cfx_status_channel_id == cfx_status_channel_id,
            r.guild_id == guild_id,
            r.help_channel_id == help_channel_id,
            r.fivem_ip == fivem_ip,
    {
        Self {
            data_json,
            token,
            suggestions_channel_id,
            bug_report_channel_id,
            bug_log_channel_id,
            status_channel_id,
            cfx_status_channel_id,
            guild_id,
            help_channel_id,
            fivem_ip,
        }
    }
}

} // verus!
