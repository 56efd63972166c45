//! The formats of a configuration file.
use crate::error::{Error, ErrorView};
use vstd::prelude::*;

verus! {

/// The format of a configuration file.
#[derive(Debug, Clone, Copy, PartialEq, Eq, Structural)]
pub enum FileFormat {
    Yaml,
    Json,
}

/// The format that a file extension selects: `yaml` and `yml` select YAML,
/// `json` selects JSON, and any other extension selects none.
pub open spec fn format_of(extension: Seq<char>) -> Option<FileFormat> {
    if extension == "yaml"@ || extension == "yml"@ {
        Some(FileFormat::Yaml)
    } else if extension == "json"@ {
        Some(FileFormat::Json)
    } else {
        None
    }
}

impl FileFormat {
    /// The format of the file with the given extension. A file without an
    /// extension, or with one that selects no format, is refused.
    pub fn from_extension(extension: Option<&str>) -> (r: Result<FileFormat, Error>)
        ensures
            match r {
                Ok(format) => extension matches Some(ext) && format_of(ext@) == Some(format),
                Err(e) => e@ == ErrorView::Msg("Unsupported file type"@) && (extension matches Some(
                    ext,
                ) ==> format_of(ext@) is None),
            },
    {
        match extension {
            Some(ext) => {
                if ext.eq("yaml") || ext.eq("yml") {
                    Ok(FileFormat::Yaml)
                } else if ext.eq("json") {
                    Ok(FileFormat::Json)
                } else {
                    Err(Error::Msg("Unsupported file type".to_owned()))
                }
            },
            None => Err(Error::Msg("Unsupported file type".to_owned())),
        }
    }
}

} // verus!
