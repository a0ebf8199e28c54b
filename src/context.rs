//! The collaborators that the engine is handed: the execution context that
//! answers platform lookups, and the storage hooks of a setting.
use crate::error::SettingsError;
use crate::state::State;
use crate::value::Value;
use vstd::prelude::*;

verus! {

/// What the platform tells about a channel.
#[derive(Clone, Copy, Debug, PartialEq, Eq, Structural)]
pub struct ChannelInfo {
    /// The tenant that the channel belongs to; `None` for a channel outside
    /// any tenant.
    pub guild_id: Option<u64>,
    /// The platform's code for the channel's kind.
    pub kind: u8,
}

/// Why the bot's permissions in a channel could not be worked out.
#[derive(Debug)]
pub enum BotPermissionError {
    /// Looking up the bot's membership failed.
    BotUser(String),
    /// The bot is not a member of the tenant.
    BotUserNotFound,
    /// Looking up the tenant failed.
    Guild(String),
}

/// The tenant and the caller of an operation.
#[derive(Clone, Copy, Debug, PartialEq, Eq, Structural)]
pub struct HookContext {
    pub guild_id: u64,
    pub author: u64,
}

/// The execution context: the lookups that validation needs, and the
/// conversions of binary floating point, which this crate leaves to its host.
/// Nothing is assumed of what these return.
pub trait ExecutionContext {
    /// Whether the tenant has a stored template of this name.
    fn template_exists(&self, guild_id: u64, name: &str) -> Result<bool, String>;

    /// The channel with this id, looked up within the tenant.
    fn channel(&self, guild_id: u64, channel_id: u64) -> Result<Option<ChannelInfo>, String>;

    /// The permission bits that the bot holds in the channel.
    fn bot_permissions(&self, guild_id: u64, channel_id: u64) -> Result<u64, BotPermissionError>;

    /// The binary64 bit pattern of a decimal text, if it is a number.
    fn parse_float(&self, s: &str) -> Option<u64>;

    /// The JSON number text for a binary64 bit pattern, if it has one.
    fn float_json(&self, bits: u64) -> Option<String>;
}

/// The storage hooks of a setting: each performs one operation on the
/// backing store. Nothing is assumed of what they return.
pub trait SettingHooks {
    /// The records that match the filters.
    fn view(&self, ctx: &HookContext, filters: State) -> Result<Vec<State>, SettingsError>;

    /// Stores a new record and returns it as stored.
    fn create(&self, ctx: &HookContext, state: State) -> Result<State, SettingsError>;

    /// Changes a record and returns it as stored.
    fn update(&self, ctx: &HookContext, state: State) -> Result<State, SettingsError>;

    /// Removes the record with this primary key.
    fn delete(&self, ctx: &HookContext, primary_key: Value) -> Result<(), SettingsError>;
}

} // verus!
