//! Various utils to work with osci.
use crate::loader::{LoadError, LoadErrorModel};
use vstd::prelude::*;
use vstd::string::StringExecFns;

verus! {

/// The formats of memory images.
#[derive(Clone, Copy, Debug, PartialEq, Eq)]
pub enum Format {
    /// A sequence of big-endian words, for the `rawloader`.
    Raw,
    /// Hex text, for the `hexloader`.
    Hex,
}

/// What stands in front of the extension in the message about a file
/// extension that names no format.
pub open spec fn unknown_extension_message() -> Seq<char> {
    "Unknown file extension: "@
}

/// The format that a file extension names.
///
/// - "raw", "bin", "img" or no extension: `Format::Raw`
/// - "hex": `Format::Hex`
pub open spec fn spec_format_of(extension: Option<&str>) -> Result<Format, LoadErrorModel> {
    match extension {
        None => Ok(Format::Raw),
        Some(ext) => if ext@ == "img"@ || ext@ == "bin"@ || ext@ == "raw"@ {
            Ok(Format::Raw)
        } else if ext@ == "hex"@ {
            Ok(Format::Hex)
        } else {
            Err(LoadErrorModel::Message(unknown_extension_message() + ext@))
        },
    }
}

/// Whether two texts are the same, character by character.
fn same_text(a: &str, b: &str) -> (same: bool)
    ensures
        same == (a@ == b@),
{
    a.to_owned() == b.to_owned()
}

/// Recognizes the format of a memory image by the extension of its file name.
pub fn format_of(extension: Option<&str>) -> (format: Result<Format, LoadError>)
    ensures
        match format {
            Ok(f) => spec_format_of(extension) == Ok::<Format, LoadErrorModel>(f),
            Err(error) => spec_format_of(extension) == Err::<Format, LoadErrorModel>(error@),
        },
{
    match extension {
        None => Ok(Format::Raw),
        Some(ext) => {
            if same_text(ext, "img") || same_text(ext, "bin") || same_text(ext, "raw") {
                Ok(Format::Raw)
            } else if same_text(ext, "hex") {
                Ok(Format::Hex)
            } else {
                let mut message = String::from_str("Unknown file extension: ");
                message.append(ext);
                Err(LoadError::Message(message))
            }
        },
    }
}

/// Counts the cycles of a run: from a start upwards, up to a maximum that is
/// left out, or without end where the maximum is 0.
pub struct RangeIterator {
    pub count: usize,
    pub max: usize,
}

impl RangeIterator {
    pub fn new(start: usize, max: usize) -> (range: RangeIterator)
        ensures
            range.count == start,
            range.max == max,
    {
        RangeIterator { count: start, max }
    }

    /// Whether the count has reached the maximum.
    pub open spec fn exhausted(&self) -> bool {
        self.count == self.max && self.max != 0
    }

    /// What `next` hands out.
    pub open spec fn spec_next(&self) -> Option<usize> {
        if self.exhausted() {
            None
        } else {
            Some(self.count)
        }
    }

    /// The count once `next` was called.
    pub open spec fn count_after(&self) -> usize {
        if self.exhausted() || self.count == usize::MAX {
            self.count
        } else {
            (self.count + 1) as usize
        }
    }

    /// The next count, if the maximum is not reached. The count stops at the
    /// largest number that `usize` holds.
    pub fn next(&mut self) -> (item: Option<usize>)
        ensures
            final(self).max == old(self).max,
            item == old(self).spec_next(),
            final(self).count == old(self).count_after(),
    {
        if self.count == self.max && self.max != 0 {
            return None;
        }
        let result = Some(self.count);
        if self.count != usize::MAX {
            self.count = self.count + 1;
        }
        result
    }
}

} // verus!
