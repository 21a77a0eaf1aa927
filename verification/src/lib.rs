//! Verified core of a World of Warcraft UI simulator's client-API layer.
//!
//! The Lua-facing registration lives outside this crate; here stand the
//! data tables, state models and decisions behind the simulated client API.

pub mod text;
pub mod glue_data;
pub mod search;
pub mod glue;
pub mod glue_create;
pub mod prof_specs;
pub mod name_set;
pub mod channels;
pub mod macros;
pub mod str_map;
pub mod transmog;
pub mod account;
pub mod file_paths;
pub mod lua_sources;
pub mod auras;
pub mod casting;
pub mod reports;
pub mod chat_info;
pub mod ping;
pub mod loss_of_control;
pub mod frames;
pub mod chat_windows;
pub mod delves;
pub mod lfg;
