//! File formats and the parser behind them.

use crate::entries::entries_map;
use config::Value;
use vstd::prelude::*;

verus! {

/// The syntaxes a configuration file may be written in.
#[derive(Clone, Copy, Debug, PartialEq, Eq, Structural)]
pub enum FileFormat {
    Toml,
    Json,
    Yaml,
    Ini,
    Ron,
    Json5,
}

impl FileFormat {
    /// The format that an extension stands for, if it is a known one.
    pub open spec fn of_extension(ext: Seq<char>) -> Option<FileFormat> {
        if ext == "toml"@ {
            Some(FileFormat::Toml)
        } else if ext == "json"@ {
            Some(FileFormat::Json)
        } else if ext == "yaml"@ || ext == "yml"@ {
            Some(FileFormat::Yaml)
        } else if ext == "ini"@ {
            Some(FileFormat::Ini)
        } else if ext == "ron"@ {
            Some(FileFormat::Ron)
        } else if ext == "json5"@ {
            Some(FileFormat::Json5)
        } else {
            None
        }
    }

    /// The format of a drop-in file: the one its extension names, and the
    /// ini format for every other extension.
    pub open spec fn of_dropin(ext: Seq<char>) -> FileFormat {
        match FileFormat::of_extension(ext) {
            Some(f) => f,
            None => FileFormat::Ini,
        }
    }

    /// Looks an extension up among the known formats.
    pub fn from_extension(ext: &str) -> (r: Option<FileFormat>)
        ensures
            r == FileFormat::of_extension(ext@),
    {
        let e = ext.to_owned();
        if e == "toml".to_owned() {
            Some(FileFormat::Toml)
        } else if e == "json".to_owned() {
            Some(FileFormat::Json)
        } else if e == "yaml".to_owned() || e == "yml".to_owned() {
            Some(FileFormat::Yaml)
        } else if e == "ini".to_owned() {
            Some(FileFormat::Ini)
        } else if e == "ron".to_owned() {
            Some(FileFormat::Ron)
        } else if e == "json5".to_owned() {
            Some(FileFormat::Json5)
        } else {
            None
        }
    }

    /// The format a drop-in file is read in.
    pub fn for_dropin(ext: &str) -> (r: FileFormat)
        ensures
            r == FileFormat::of_dropin(ext@),
    {
        match FileFormat::from_extension(ext) {
            Some(f) => f,
            None => FileFormat::Ini,
        }
    }
}

/// What the parser makes of a text in a format: the top-level keys with
/// their values, or nothing where the text is malformed. `uri` is recorded
/// in each value as its origin.
pub uninterp spec fn parsed(format: FileFormat, uri: Seq<char>, text: Seq<char>) -> Option<Map<Seq<char>, Value>>;

/// Calls `config::Format::parse` on `config::FileFormat`.
///
/// The parser is taken to be a function of the format, the origin and the
/// text alone. It returns a table of top-level keys, each once, so the list
/// that is handed back denotes that table whatever its order. A failure is
/// handed back as the parser's message.
#[verifier::external_body]
pub(crate) fn parse_text(format: FileFormat, uri: &String, text: &str) -> (r: Result<
    Vec<(String, Value)>,
    String,
>)
    ensures
        r is Ok <==> parsed(format, uri@, text@) is Some,
        r is Ok ==> entries_map(r.unwrap()@) == parsed(format, uri@, text@).unwrap(),
{
    let outside = match format {
        FileFormat::Toml => config::FileFormat::Toml,
        FileFormat::Json => config::FileFormat::Json,
        FileFormat::Yaml => config::FileFormat::Yaml,
        FileFormat::Ini => config::FileFormat::Ini,
        FileFormat::Ron => config::FileFormat::Ron,
        FileFormat::Json5 => config::FileFormat::Json5,
    };
    match config::Format::parse(&outside, Some(uri), text) {
        Ok(table) => Ok(table.into_iter().collect()),
        Err(cause) => Err(cause.to_string()),
    }
}

} // verus!
