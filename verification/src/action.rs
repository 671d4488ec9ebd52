//! Actions a combo can trigger, and the parse from their textual names.

use vstd::prelude::*;

use crate::strutil::{eq_folded, lower, trim_str, trimmed};

verus! {

/// What a matched combo triggers. A closed set of tags; the handlers
/// themselves (screenshot tool, OCR helper) live outside this crate.
#[derive(Clone, Copy, Debug, PartialEq, Eq, Structural)]
pub enum Action {
    CaptureRegion,
    CaptureFullscreen,
    Ocr,
}

/// Why a configuration text was rejected, carrying the offending text.
#[derive(Debug)]
pub enum ConfigError {
    /// A non-blank line without a `=`.
    InvalidLine(String),
    /// A mapping whose right-hand side names no known action.
    UnknownAction(String),
}

/// The ghost shape of a `ConfigError`: the same variants over character
/// sequences.
pub enum ConfigErrorModel {
    InvalidLine(Seq<char>),
    UnknownAction(Seq<char>),
}

impl View for ConfigError {
    type V = ConfigErrorModel;

    open spec fn view(&self) -> ConfigErrorModel {
        match self {
            ConfigError::InvalidLine(s) => ConfigErrorModel::InvalidLine(s@),
            ConfigError::UnknownAction(s) => ConfigErrorModel::UnknownAction(s@),
        }
    }
}

/// The action a name denotes: the name is whitespace-trimmed and case-folded,
/// then matched against the three known tags; anything else denotes nothing.
pub open spec fn spec_parse_action(s: Seq<char>) -> Option<Action> {
    let t = lower(trimmed(s));
    if t == "capture_region"@ {
        Some(Action::CaptureRegion)
    } else if t == "capture_fullscreen"@ {
        Some(Action::CaptureFullscreen)
    } else if t == "ocr"@ {
        Some(Action::Ocr)
    } else {
        None
    }
}

impl Action {
    /// Parses an action name. Unrecognized names are a configuration error
    /// carrying the text as given, never a silent default.
    pub fn from_str(s: &str) -> (r: Result<Action, ConfigError>)
        ensures
            match spec_parse_action(s@) {
                Some(a) => r == Ok::<Action, ConfigError>(a),
                None => r matches Err(e) && e@ == ConfigErrorModel::UnknownAction(s@),
            },
    {
        let t = trim_str(s);
        if eq_folded(t, "capture_region") {
            Ok(Action::CaptureRegion)
        } else if eq_folded(t, "capture_fullscreen") {
            Ok(Action::CaptureFullscreen)
        } else if eq_folded(t, "ocr") {
            Ok(Action::Ocr)
        } else {
            Err(ConfigError::UnknownAction(s.to_owned()))
        }
    }
}

} // verus!
