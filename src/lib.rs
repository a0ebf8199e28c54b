//! A schema-driven settings engine: typed columns, a parse pass and a
//! validate pass over dynamically typed values, and the four record
//! operations (view, create, update, delete) that run them before handing
//! the result to pluggable storage hooks.
mod codec;
mod context;
mod duration;
mod error;
mod laws;
mod ops;
mod parse;
mod schema;
mod state;
mod utils;
mod validate;
mod value;

pub use context::{BotPermissionError, ChannelInfo, ExecutionContext, HookContext, SettingHooks};
pub use duration::{parse_duration_string, DurationError, Unit};
pub use error::SettingsError;
pub use ops::{
    prepare_state, primary_key_value, settings_create, settings_delete, settings_operation,
    settings_update, settings_view, view_state, view_states, Selection,
};
pub use parse::{check_json_size, json_text, parse_scalar, parse_value};
pub use schema::{
    Column, ColumnType, InnerColumnType, InnerColumnTypeStringKind, OperationType, Setting,
    SettingOperations,
};
pub use state::{FlagTable, State};
pub use utils::{
    create_shop_template, create_special_allocation_from_str, text_is, SpecialAllocationError, find_char, parse_numeric_list, parse_numeric_list_to_str,
    parse_shop_template, LuaKVConstraints, NumericListError, Owner, OwnerError, PollTaskOptions,
    ShopTemplateError,
};
pub use validate::{
    channel_check, channel_column_check, check_channel, has_permissions, permission_check, template_check, validate_value,
};
pub use value::{Timestamp, Value};
