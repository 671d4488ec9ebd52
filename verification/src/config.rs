//! Configuration: a save directory and a keymap, built once before the
//! listener starts.
//!
//! The text grammar is line-oriented `key=value`: blank lines are skipped,
//! `save_dir=<path>` replaces the save directory, every other line binds a
//! combo identifier to an action name, and a malformed line (no `=`, or an
//! unknown action name) rejects the whole text. Reading the file from disk is
//! the host's job; this module parses the text it was handed.

use vstd::prelude::*;

use crate::action::{spec_parse_action, Action, ConfigError, ConfigErrorModel};
use crate::keymap::KeymapTable;
use crate::strutil::{find_ch, find_char, lemma_find_ch, str_eq, trim_str, trimmed};

verus! {

/// Where captures are saved, and what the combos are bound to. Immutable
/// from the dispatcher's perspective once the listener runs.
pub struct Config {
    /// Directory capture files are written into.
    pub save_dir: String,
    /// Combo identifier to action.
    pub keymaps: KeymapTable,
}

/// The three stock bindings used when no config file is available.
pub open spec fn spec_default_keymap() -> Map<Seq<char>, Action> {
    Map::<Seq<char>, Action>::empty().insert("cmd+ctrl+9"@, Action::CaptureRegion).insert(
        "cmd+ctrl+8"@,
        Action::Ocr,
    ).insert("cmd+ctrl+0"@, Action::CaptureFullscreen)
}

/// What one config line means: nothing, a new save directory, a binding, or
/// a configuration error.
pub enum LineParse {
    Blank,
    SaveDir(Seq<char>),
    Bind(Seq<char>, Action),
    Bad(ConfigErrorModel),
}

/// The meaning of one config line. The key is the text left of the first
/// `=`; the value the text between the first and second `=` (or the rest of
/// the line); both are whitespace-trimmed.
pub open spec fn spec_parse_line(line: Seq<char>) -> LineParse {
    if trimmed(line).len() == 0 {
        LineParse::Blank
    } else {
        let e = find_ch(line, '=');
        if e < 0 {
            LineParse::Bad(ConfigErrorModel::InvalidLine(line))
        } else {
            let key = trimmed(line.subrange(0, e));
            let rest = line.subrange(e + 1, line.len() as int);
            let e2 = find_ch(rest, '=');
            let value = trimmed(
                if e2 < 0 {
                    rest
                } else {
                    rest.subrange(0, e2)
                },
            );
            if key == "save_dir"@ {
                LineParse::SaveDir(value)
            } else {
                match spec_parse_action(value) {
                    Some(a) => LineParse::Bind(key, a),
                    None => LineParse::Bad(ConfigErrorModel::UnknownAction(value)),
                }
            }
        }
    }
}

/// The meaning of a whole config text, folded line by line over `\n`: the
/// final save directory and keymap, or the first error.
pub open spec fn spec_parse_config(
    text: Seq<char>,
    dir: Seq<char>,
    km: Map<Seq<char>, Action>,
) -> Result<(Seq<char>, Map<Seq<char>, Action>), ConfigErrorModel>
    decreases text.len(),
    via spec_parse_config_dec
{
    let e = find_ch(text, '\n');
    let line = if e < 0 {
        text
    } else {
        text.subrange(0, e)
    };
    match spec_parse_line(line) {
        LineParse::Bad(err) => Err(err),
        LineParse::Blank => if e < 0 {
            Ok((dir, km))
        } else {
            spec_parse_config(text.subrange(e + 1, text.len() as int), dir, km)
        },
        LineParse::SaveDir(d) => if e < 0 {
            Ok((d, km))
        } else {
            spec_parse_config(text.subrange(e + 1, text.len() as int), d, km)
        },
        LineParse::Bind(k, a) => if e < 0 {
            Ok((dir, km.insert(k, a)))
        } else {
            spec_parse_config(text.subrange(e + 1, text.len() as int), dir, km.insert(k, a))
        },
    }
}

#[via_fn]
proof fn spec_parse_config_dec(text: Seq<char>, dir: Seq<char>, km: Map<Seq<char>, Action>) {
    lemma_find_ch(text, '\n');
}

impl Config {
    /// The keymap is well-formed.
    pub open spec fn wf(&self) -> bool {
        self.keymaps.wf()
    }

    /// Packs a save directory and a keymap into a `Config`.
    pub fn new(save_dir: String, keymaps: KeymapTable) -> (c: Config)
        ensures
            c.save_dir == save_dir,
            c.keymaps == keymaps,
    {
        Config { save_dir, keymaps }
    }

    /// The stock configuration with the given save directory: region capture
    /// on `cmd+ctrl+9`, OCR on `cmd+ctrl+8`, fullscreen capture on
    /// `cmd+ctrl+0`.
    pub fn with_save_dir(save_dir: String) -> (c: Config)
        ensures
            c.wf(),
            c.save_dir == save_dir,
            c.keymaps@ == spec_default_keymap(),
    {
        let mut keymaps = KeymapTable::new();
        keymaps.insert("cmd+ctrl+9".to_owned(), Action::CaptureRegion);
        keymaps.insert("cmd+ctrl+8".to_owned(), Action::Ocr);
        keymaps.insert("cmd+ctrl+0".to_owned(), Action::CaptureFullscreen);
        Config { save_dir, keymaps }
    }

    /// The stock configuration, saving into the platform's pictures
    /// directory; `None` when no such directory can be resolved.
    pub fn default() -> (c: Option<Config>)
        ensures
            match c {
                Some(cfg) => cfg.wf() && cfg.keymaps@ == spec_default_keymap(),
                None => true,
            },
    {
        match picture_dir_string() {
            Some(d) => Some(Config::with_save_dir(d)),
            None => None,
        }
    }
}

/// Relies on dirs::picture_dir for the platform's pictures directory; the
/// result depends on the environment, so nothing is promised of it.
#[verifier::external_body]
fn picture_dir_string() -> (r: Option<String>) {
    dirs::picture_dir().map(|p| p.to_string_lossy().to_string())
}

/// Parses a config text against a starting save directory (the caller's
/// default). Returns the configuration the text describes, or the first
/// error: a non-blank line without `=`, or an unknown action name.
pub fn parse_config(text: &str, default_dir: String) -> (r: Result<Config, ConfigError>)
    ensures
        match r {
            Ok(c) => {
                &&& c.wf()
                &&& spec_parse_config(text@, default_dir@, Map::empty()) == Ok::<
                    _,
                    ConfigErrorModel,
                >((c.save_dir@, c.keymaps@))
            },
            Err(e) => spec_parse_config(text@, default_dir@, Map::empty()) == Err::<
                (Seq<char>, Map<Seq<char>, Action>),
                _,
            >(e@),
        },
{
    proof {
        assert(text@.subrange(0, text@.len() as int) =~= text@);
    }
    match parse_config_from(text, 0, default_dir, KeymapTable::new()) {
        Ok((dir, km)) => Ok(Config { save_dir: dir, keymaps: km }),
        Err(e) => Err(e),
    }
}

/// Parses the lines of `text` from `pos` on, folding into `dir` and `km`.
fn parse_config_from(text: &str, pos: usize, dir: String, km: KeymapTable) -> (r: Result<
    (String, KeymapTable),
    ConfigError,
>)
    requires
        pos <= text@.len(),
        km.wf(),
    ensures
        ({
            let folded = spec_parse_config(
                text@.subrange(pos as int, text@.len() as int),
                dir@,
                km@,
            );
            match r {
                Ok(p) => p.1.wf() && folded == Ok::<_, ConfigErrorModel>((p.0@, p.1@)),
                Err(e) => folded == Err::<(Seq<char>, Map<Seq<char>, Action>), _>(e@),
            }
        }),
    decreases text@.len() - pos,
{
    let ghost suffix = text@.subrange(pos as int, text@.len() as int);
    let n = text.unicode_len();
    let nl = find_char(text, pos, '\n');
    let line_end: usize = match nl {
        Some(i) => i,
        None => n,
    };
    let line = text.substring_char(pos, line_end);
    proof {
        assert(line@ =~= suffix.subrange(
            0,
            if find_ch(suffix, '\n') < 0 {
                suffix.len() as int
            } else {
                find_ch(suffix, '\n')
            },
        ));
        assert(suffix.subrange(0, suffix.len() as int) =~= suffix);
    }
    let t = trim_str(line);
    if t.is_empty() {
        match nl {
            Some(i) => {
                proof {
                    assert(suffix.subrange(find_ch(suffix, '\n') + 1, suffix.len() as int)
                        =~= text@.subrange(i + 1, text@.len() as int));
                }
                parse_config_from(text, i + 1, dir, km)
            },
            None => Ok((dir, km)),
        }
    } else {
        let line_len = line.unicode_len();
        proof {
            assert(line@.subrange(0, line@.len() as int) =~= line@);
        }
        match find_char(line, 0, '=') {
            None => Err(ConfigError::InvalidLine(line.to_owned())),
            Some(e) => {
                let key = trim_str(line.substring_char(0, e));
                let rest = line.substring_char(e + 1, line_len);
                proof {
                    assert(rest@.subrange(0, rest@.len() as int) =~= rest@);
                }
                let value_raw = match find_char(rest, 0, '=') {
                    None => rest,
                    Some(i) => rest.substring_char(0, i),
                };
                let value = trim_str(value_raw);
                let next: Result<(String, KeymapTable), ConfigError> = if str_eq(
                    key,
                    "save_dir",
                ) {
                    Ok((value.to_owned(), km))
                } else {
                    match Action::from_str(value) {
                        Ok(a) => {
                            let mut km2 = km;
                            km2.insert(key.to_owned(), a);
                            Ok((dir, km2))
                        },
                        Err(err) => Err(err),
                    }
                };
                match next {
                    Err(err) => Err(err),
                    Ok((dir2, km2)) => match nl {
                        Some(i) => {
                            proof {
                                assert(suffix.subrange(
                                    find_ch(suffix, '\n') + 1,
                                    suffix.len() as int,
                                ) =~= text@.subrange(i + 1, text@.len() as int));
                            }
                            parse_config_from(text, i + 1, dir2, km2)
                        },
                        None => Ok((dir2, km2)),
                    },
                }
            },
        }
    }
}

} // verus!
