//! The configuration-attribute parser. A configuration block is an ordered
//! list of key/value entries; the parser walks them, recognizing `comment`,
//! `table_name`, `schema_name` (string-valued) and `table_iden` (a
//! presence-only flag), and tolerantly ignoring every other key. A malformed
//! value expression under any key is an unrecoverable parse error; an absent
//! `table_name` is reported as a missing required configuration.

use vstd::prelude::*;

verus! {

/// The value attached to one configuration key, as handed over by whatever
/// surface syntax the entries were read from.
#[derive(Debug, PartialEq, Eq, Clone)]
pub enum AttrValue {
    /// The key stands alone, with no `= value` part.
    Absent,
    /// The value is a string literal with the given content.
    Str(String),
    /// The value is some other well-formed expression.
    Expr,
    /// The value could not be parsed as an expression at all.
    Malformed,
}

/// One `key = value` (or bare `key`) entry of a configuration block.
#[derive(Debug, PartialEq, Eq, Clone)]
pub struct ConfigEntry {
    pub key: String,
    pub value: AttrValue,
}

/// The parsed configuration: an optional comment, the table identifier,
/// an optional schema identifier, and the `table_iden` flag.
#[derive(Debug, PartialEq, Eq, Clone)]
pub struct ConfigSet {
    pub comment: Option<String>,
    pub table_name: String,
    pub schema_name: Option<String>,
    pub table_iden: bool,
}

/// Why parsing a configuration block failed.
#[derive(Debug, Clone, Copy, PartialEq, Eq, Structural)]
pub enum ConfigError {
    /// A recognized key carried no usable string value, or some key carried
    /// a value expression that could not be parsed.
    MalformedValue,
    /// No non-empty `table_name` was given, so no structurally valid
    /// artifact can be produced.
    MissingTableName,
}

/// Mathematical image of an `AttrValue`.
pub enum AttrValueV {
    Absent,
    Str(Seq<char>),
    Expr,
    Malformed,
}

/// Mathematical image of a `ConfigEntry`.
pub struct ConfigEntryV {
    pub key: Seq<char>,
    pub value: AttrValueV,
}

/// Mathematical image of a `ConfigSet`.
pub struct ConfigSetV {
    pub comment: Option<Seq<char>>,
    pub table_name: Seq<char>,
    pub schema_name: Option<Seq<char>>,
    pub table_iden: bool,
}

impl View for AttrValue {
    type V = AttrValueV;

    open spec fn view(&self) -> AttrValueV {
        match self {
            AttrValue::Absent => AttrValueV::Absent,
            AttrValue::Str(s) => AttrValueV::Str(s@),
            AttrValue::Expr => AttrValueV::Expr,
            AttrValue::Malformed => AttrValueV::Malformed,
        }
    }
}

impl View for ConfigEntry {
    type V = ConfigEntryV;

    open spec fn view(&self) -> ConfigEntryV {
        ConfigEntryV { key: self.key@, value: self.value@ }
    }
}

impl View for ConfigSet {
    type V = ConfigSetV;

    open spec fn view(&self) -> ConfigSetV {
        ConfigSetV {
            comment: match self.comment {
                Option::Some(ref s) => Option::Some(s@),
                Option::None => Option::None,
            },
            table_name: self.table_name@,
            schema_name: match self.schema_name {
                Option::Some(ref s) => Option::Some(s@),
                Option::None => Option::None,
            },
            table_iden: self.table_iden,
        }
    }
}

/// The view of a whole entry list.
pub open spec fn entries_view(es: Seq<ConfigEntry>) -> Seq<ConfigEntryV> {
    es.map_values(|e: ConfigEntry| e@)
}

/// The keys that take a string value.
pub open spec fn is_string_key(k: Seq<char>) -> bool {
    k == "comment"@ || k == "table_name"@ || k == "schema_name"@
}

/// The keys the parser recognizes at all.
pub open spec fn is_recognized_key(k: Seq<char>) -> bool {
    is_string_key(k) || k == "table_iden"@
}

/// The configuration before any entry has been applied: everything unset,
/// the table identifier empty.
pub open spec fn initial_config() -> ConfigSetV {
    ConfigSetV {
        comment: Option::None,
        table_name: Seq::empty(),
        schema_name: Option::None,
        table_iden: false,
    }
}

/// The effect of one entry on the configuration built so far. A recognized
/// string key demands a string literal; `table_iden` demands a bare key;
/// an unrecognized key is ignored unless its value expression is malformed.
/// A later entry for the same key overrides an earlier one.
pub open spec fn apply_entry(c: ConfigSetV, e: ConfigEntryV) -> Result<ConfigSetV, ConfigError> {
    if e.key == "comment"@ {
        match e.value {
            AttrValueV::Str(s) => Result::Ok(ConfigSetV { comment: Option::Some(s), ..c }),
            _ => Result::Err(ConfigError::MalformedValue),
        }
    } else if e.key == "table_name"@ {
        match e.value {
            AttrValueV::Str(s) => Result::Ok(ConfigSetV { table_name: s, ..c }),
            _ => Result::Err(ConfigError::MalformedValue),
        }
    } else if e.key == "schema_name"@ {
        match e.value {
            AttrValueV::Str(s) => Result::Ok(ConfigSetV { schema_name: Option::Some(s), ..c }),
            _ => Result::Err(ConfigError::MalformedValue),
        }
    } else if e.key == "table_iden"@ {
        match e.value {
            AttrValueV::Absent => Result::Ok(ConfigSetV { table_iden: true, ..c }),
            _ => Result::Err(ConfigError::MalformedValue),
        }
    } else {
        match e.value {
            AttrValueV::Malformed => Result::Err(ConfigError::MalformedValue),
            _ => Result::Ok(c),
        }
    }
}

/// Folds a list of entries over a starting configuration, stopping at the
/// first malformed value.
pub open spec fn parse_entries(c: ConfigSetV, es: Seq<ConfigEntryV>) -> Result<
    ConfigSetV,
    ConfigError,
>
    decreases es.len(),
{
    if es.len() == 0 {
        Result::Ok(c)
    } else {
        match apply_entry(c, es[0]) {
            Result::Ok(c2) => parse_entries(c2, es.skip(1)),
            Result::Err(e) => Result::Err(e),
        }
    }
}

/// What parsing a whole configuration block yields: the folded
/// configuration, or the first malformed-value error, or — when every entry
/// was consumed but no non-empty `table_name` was ever set — the
/// missing-required-configuration error.
pub open spec fn spec_parse_config(es: Seq<ConfigEntryV>) -> Result<ConfigSetV, ConfigError> {
    match parse_entries(initial_config(), es) {
        Result::Ok(c) => if c.table_name.len() == 0 {
            Result::Err(ConfigError::MissingTableName)
        } else {
            Result::Ok(c)
        },
        Result::Err(e) => Result::Err(e),
    }
}

/// The view of an exec parse result.
pub open spec fn parse_result_view(r: Result<ConfigSet, ConfigError>) -> Result<
    ConfigSetV,
    ConfigError,
> {
    match r {
        Result::Ok(c) => Result::Ok(c@),
        Result::Err(e) => Result::Err(e),
    }
}

fn key_is(k: &String, lit: &str) -> (r: bool)
    ensures
        r == (k@ == lit@),
{
    *k == lit.to_owned()
}

/// Parses a configuration block. The result is exactly what
/// `spec_parse_config` says of the entries: tolerant of unknown keys,
/// fatal on a malformed value, and explicit about a missing `table_name`.
pub fn parse_config(entries: &Vec<ConfigEntry>) -> (r: Result<ConfigSet, ConfigError>)
    ensures
        parse_result_view(r) == spec_parse_config(entries_view(entries@)),
{
    let ghost all: Seq<ConfigEntryV> = entries_view(entries@);
    let mut comment: Option<String> = Option::None;
    let mut table_name: String = String::new();
    let mut schema_name: Option<String> = Option::None;
    let mut table_iden: bool = false;
    let mut i: usize = 0;
    proof {
        assert(all.skip(0) =~= all);
    }
    while i < entries.len()
        invariant
            0 <= i <= entries.len(),
            all == entries_view(entries@),
            all.len() == entries.len(),
            parse_entries(initial_config(), all) == parse_entries(
                ConfigSetV {
                    comment: match comment {
                        Option::Some(ref s) => Option::Some(s@),
                        Option::None => Option::None,
                    },
                    table_name: table_name@,
                    schema_name: match schema_name {
                        Option::Some(ref s) => Option::Some(s@),
                        Option::None => Option::None,
                    },
                    table_iden: table_iden,
                },
                all.skip(i as int),
            ),
        decreases entries.len() - i,
    {
        let entry = &entries[i];
        proof {
            assert(all.skip(i as int)[0] == entry@);
            assert(all.skip(i as int).skip(1) =~= all.skip(i + 1));
        }
        if key_is(&entry.key, "comment") {
            match &entry.value {
                AttrValue::Str(s) => {
                    comment = Option::Some(s.clone());
                },
                _ => {
                    return Result::Err(ConfigError::MalformedValue);
                },
            }
        } else if key_is(&entry.key, "table_name") {
            match &entry.value {
                AttrValue::Str(s) => {
                    table_name = s.clone();
                },
                _ => {
                    return Result::Err(ConfigError::MalformedValue);
                },
            }
        } else if key_is(&entry.key, "schema_name") {
            match &entry.value {
                AttrValue::Str(s) => {
                    schema_name = Option::Some(s.clone());
                },
                _ => {
                    return Result::Err(ConfigError::MalformedValue);
                },
            }
        } else if key_is(&entry.key, "table_iden") {
            match &entry.value {
                AttrValue::Absent => {
                    table_iden = true;
                },
                _ => {
                    return Result::Err(ConfigError::MalformedValue);
                },
            }
        } else {
            match &entry.value {
                AttrValue::Malformed => {
                    return Result::Err(ConfigError::MalformedValue);
                },
                _ => {},
            }
        }
        i = i + 1;
    }
    proof {
        assert(all.skip(all.len() as int) =~= Seq::<ConfigEntryV>::empty());
    }
    if table_name.as_str().is_empty() {
        Result::Err(ConfigError::MissingTableName)
    } else {
        Result::Ok(ConfigSet { comment, table_name, schema_name, table_iden })
    }
}

} // verus!
