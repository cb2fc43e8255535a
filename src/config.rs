//! User settings, and their check into compositing parameters.

use vstd::prelude::*;
use crate::color::{Color, ColorError, parse_color, parse_hex_color};
use crate::engine::CompositeParams;

verus! {

/// The settings a user keeps between runs.
#[derive(Clone, Debug)]
pub struct Settings {
    pub history_length: i32,
    pub background_color: String,
    pub current_color: String,
    pub history_color: String,
    /// Worker threads; 0 for all execution units.
    pub threads: i32,
    /// The most frames to take from a folder; 0 for all of them.
    pub limit: i32,
}

impl Default for Settings {
    fn default() -> (r: Settings)
        ensures
            r.history_length == 5,
            r.background_color@ == "#000000"@,
            r.current_color@ == "#00ff00"@,
            r.history_color@ == "#ff7f00"@,
            r.threads == 0,
            r.limit == 0,
    {
        Settings {
            history_length: 5,
            background_color: String::from_str("#000000"),
            current_color: String::from_str("#00ff00"),
            history_color: String::from_str("#ff7f00"),
            threads: 0,
            limit: 0,
        }
    }
}

/// The settings of one run.
#[derive(Clone, Debug)]
pub struct ProcessingSettings {
    pub history_length: usize,
    pub background_color: String,
    pub current_color: String,
    pub history_color: String,
    /// Worker threads; 0 for all execution units.
    pub threads: usize,
    pub limit: Option<usize>,
}

impl ProcessingSettings {
    /// The run settings of stored settings: a negative history length or
    /// thread count reads as 0, and a limit that is not positive as none.
    pub fn from_settings(s: &Settings) -> (r: ProcessingSettings)
        ensures
            r.history_length == if s.history_length < 0 { 0 } else { s.history_length as usize },
            r.background_color@ == s.background_color@,
            r.current_color@ == s.current_color@,
            r.history_color@ == s.history_color@,
            r.threads == if s.threads < 0 { 0 } else { s.threads as usize },
            r.limit == if s.limit <= 0 { None } else { Some(s.limit as usize) },
    {
        ProcessingSettings {
            history_length: if s.history_length < 0 { 0 } else { s.history_length as usize },
            background_color: s.background_color.clone(),
            current_color: s.current_color.clone(),
            history_color: s.history_color.clone(),
            threads: if s.threads < 0 { 0 } else { s.threads as usize },
            limit: if s.limit <= 0 { None } else { Some(s.limit as usize) },
        }
    }
}

/// Why settings cannot be run.
#[derive(Clone, Copy, Debug, PartialEq, Eq, Structural)]
pub enum ConfigError {
    /// The history length is 0.
    HistoryLength,
    Background(ColorError),
    Current(ColorError),
    History(ColorError),
}

/// What checking run settings gives.
pub open spec fn checked_params(s: ProcessingSettings) -> Result<CompositeParams, ConfigError> {
    if s.history_length == 0 {
        Err(ConfigError::HistoryLength)
    } else if parse_color(s.background_color@) is Err {
        Err(ConfigError::Background(parse_color(s.background_color@)->Err_0))
    } else if parse_color(s.current_color@) is Err {
        Err(ConfigError::Current(parse_color(s.current_color@)->Err_0))
    } else if parse_color(s.history_color@) is Err {
        Err(ConfigError::History(parse_color(s.history_color@)->Err_0))
    } else {
        Ok(CompositeParams {
            history_length: s.history_length,
            background: parse_color(s.background_color@)->Ok_0,
            current_color: parse_color(s.current_color@)->Ok_0,
            history_color: parse_color(s.history_color@)->Ok_0,
        })
    }
}

impl CompositeParams {
    /// Checks run settings before any work starts: the history length must
    /// be at least 1 and each color must parse, in that order.
    pub fn from_settings(s: &ProcessingSettings) -> (r: Result<CompositeParams, ConfigError>)
        ensures
            r == checked_params(*s),
            r is Ok ==> r->Ok_0.history_length >= 1,
    {
        if s.history_length == 0 {
            return Err(ConfigError::HistoryLength);
        }
        let background: Color = match parse_hex_color(s.background_color.as_str()) {
            Ok(c) => c,
            Err(e) => return Err(ConfigError::Background(e)),
        };
        let current_color = match parse_hex_color(s.current_color.as_str()) {
            Ok(c) => c,
            Err(e) => return Err(ConfigError::Current(e)),
        };
        let history_color = match parse_hex_color(s.history_color.as_str()) {
            Ok(c) => c,
            Err(e) => return Err(ConfigError::History(e)),
        };
        Ok(CompositeParams { history_length: s.history_length, background, current_color, history_color })
    }
}

} // verus!
