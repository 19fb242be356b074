//! Typed decoding of collectd plugin configurations, verified.
//!
//! The daemon hands a plugin its configuration as a tree of directives:
//! a key, the scalar values on the key's line, and the child directives of
//! its block, with keys free to repeat among siblings. This library turns
//! that tree into the caller's own record types: [`from_config`] groups
//! siblings into one ordered entry per distinct key, and [`from_collectd`]
//! walks the grouped tree with an explicit stack of frames, handing typed
//! scalars, sequences, nested objects and unit variants to any type that
//! implements [`Decode`].
//!
//! Every function here carries a contract checked by Verus: grouping
//! preserves the order of keys and of each key's values exactly
//! ([`lemma_group_order`]), each coercion says precisely which nodes it
//! accepts and which error every other input raises, and a successful
//! decode puts the traversal stack back as it found it. Around the
//! decoder, the crate carries the plugin API pieces that are plain values
//! and logic: capability flags, log levels, the daemon's fixed-point time
//! encoding, fixed-size text fields, error types with their rendered
//! messages, and the graphite path sanitizer.
//!
//! The daemon boundary itself — raw pointers, callbacks, floating-point
//! payloads — stays outside; it hands the library plain values and takes
//! plain values back.

mod array;
mod cdtime;
mod de;
mod de_error;
mod deconfig;
mod errors;
mod graphite;
mod level;
mod logger;
mod numfmt;
mod oconfig;
mod plugins;

pub use array::ARR_LENGTH;
pub use array::c_text_bytes;
pub use array::c_text_len;
pub use array::empty_to_none;
pub use array::from_array;
pub use array::to_array_res;
pub use cdtime::CdTime;
pub use cdtime::collectd_to_nanos;
pub use cdtime::max_encodable_nanos;
pub use cdtime::nanos_to_collectd;
pub use cdtime::spec_collectd_to_nanos;
pub use cdtime::spec_nanos_to_collectd;
pub use de::DeResult;
pub use de::Decode;
pub use de::Deserializer;
pub use de::FieldSeparated;
pub use de::Frame;
pub use de::FrameView;
pub use de::SeqSeparated;
pub use de::clamp;
pub use de::current_node;
pub use de::current_node_err;
pub use de::frame_view;
pub use de::frames_view;
pub use de::from_collectd;
pub use de::identifier_of;
pub use de::lemma_primitive_round_trip;
pub use de::lemma_single_vs_many;
pub use de::pop_effect;
pub use de::push_effect;
pub use de::push_seq_effect;
pub use de_error::DeError;
pub use de_error::Error;
pub use de_error::spec_message;
pub use deconfig::DeConfig;
pub use deconfig::DeConfigView;
pub use deconfig::EntryView;
pub use deconfig::GroupedEntry;
pub use deconfig::add_entry;
pub use deconfig::entries_view;
pub use deconfig::entry_view;
pub use deconfig::find_key;
pub use deconfig::first_contrib;
pub use deconfig::from_config;
pub use deconfig::group_upto;
pub use deconfig::group_view;
pub use deconfig::item_nodes;
pub use deconfig::key_nodes;
pub use deconfig::lemma_group_order;
pub use deconfig::node_view;
pub use deconfig::nodes_view;
pub use deconfig::scalar_node;
pub use deconfig::scalar_nodes;
pub use errors::ArrayError;
pub use errors::CacheRateError;
pub use errors::ConfigError;
pub use errors::NotImplemented;
pub use errors::ReceiveError;
pub use errors::SubmitError;
pub use graphite::graphite_char;
pub use graphite::graphite_special;
pub use graphite::graphitize;
pub use graphite::graphitize_spec;
pub use graphite::unicode_control;
pub use graphite::unicode_whitespace;
pub use level::LogLevel;
pub use level::decode_log_level;
pub use level::level_of_text;
pub use level::parse_log_level;
pub use level::upper_code;
pub use level::upper_eq;
pub use logger::CollectdLogger;
pub use logger::CollectdLoggerBuilder;
pub use logger::LevelFilter;
pub use logger::filter_rank;
pub use numfmt::dec_digits;
pub use numfmt::dec_signed;
pub use numfmt::format_i64;
pub use numfmt::format_u64;
pub use oconfig::ConfigItem;
pub use oconfig::ConfigItemView;
pub use oconfig::ConfigValue;
pub use oconfig::ConfigValueView;
pub use oconfig::Number;
pub use oconfig::item_view;
pub use oconfig::items_view;
pub use oconfig::value_view;
pub use plugins::PluginCapabilities;
pub use plugins::PluginManagerCapabilities;
