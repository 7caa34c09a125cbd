//! The version of an installation, as `mkl_version.h` states it.
//!
//! The header defines
//!
//! ```c
//! #define __INTEL_MKL__ 2020
//! #define __INTEL_MKL_MINOR__ 0
//! #define __INTEL_MKL_UPDATE__ 1
//! ```
//!
//! which is version `(2020, 0, 1)`.

use crate::library::Library;
use crate::platform::Platform;
use crate::seek::{join_path, path_under};
use crate::text::{
    chars_of, has_prefix, is_word, parse_u32, push_decimal, read_u32, split, split_chars,
    starts_with, string_of, views, words, words_of,
};
use vstd::prelude::*;

verus! {

/// The version of an installation.
#[derive(Debug, Clone, Copy, PartialEq, Eq, Structural)]
pub struct Version {
    pub year: u32,
    pub minor: u32,
    pub update: u32,
}

/// Why no version could be read.
#[derive(Debug, Clone, Copy, PartialEq, Eq, Structural)]
pub enum VersionError {
    /// There is no header.
    NotFound,
    /// A line defines one of the three macros without a value.
    MissingValue,
    /// A line defines one of the three macros as something that is no
    /// unsigned 32-bit number.
    NotANumber,
    /// The header ends without having defined all three macros.
    Incomplete,
}

/// The three numbers as far as the header has defined them.
pub struct Fields {
    pub year: Option<u32>,
    pub minor: Option<u32>,
    pub update: Option<u32>,
}

impl Fields {
    /// No macro defined yet.
    pub open spec fn none() -> Fields {
        Fields { year: None, minor: None, update: None }
    }

    /// The version, once all three numbers are there.
    pub open spec fn version(self) -> Result<Version, VersionError> {
        match (self.year, self.minor, self.update) {
            (Some(year), Some(minor), Some(update)) => Ok(Version { year, minor, update }),
            _ => Err(VersionError::Incomplete),
        }
    }
}

/// The line break.
pub open spec fn newline() -> Seq<char> {
    seq!['\n']
}

/// The fields after one more line. Only a line that begins with `#define`
/// and names one of the three macros as its second word counts; its third
/// word is the number. A later definition of a macro replaces an earlier one.
pub open spec fn read_line(fields: Fields, line: Seq<char>) -> Result<Fields, VersionError> {
    let ws = words(line);
    if !has_prefix(line, "#define"@) || ws.len() < 2 {
        Ok(fields)
    } else if ws[1] != "__INTEL_MKL__"@ && ws[1] != "__INTEL_MKL_MINOR__"@ && ws[1]
        != "__INTEL_MKL_UPDATE__"@ {
        Ok(fields)
    } else if ws.len() < 3 {
        Err(VersionError::MissingValue)
    } else {
        match parse_u32(ws[2]) {
            None => Err(VersionError::NotANumber),
            Some(n) => if ws[1] == "__INTEL_MKL__"@ {
                Ok(Fields { year: Some(n), ..fields })
            } else if ws[1] == "__INTEL_MKL_MINOR__"@ {
                Ok(Fields { minor: Some(n), ..fields })
            } else {
                Ok(Fields { update: Some(n), ..fields })
            },
        }
    }
}

/// The fields after all lines, read from the first to the last. The first
/// line that cannot be read ends the reading.
pub open spec fn read_lines(lines: Seq<Seq<char>>) -> Result<Fields, VersionError>
    decreases lines.len(),
{
    if lines.len() == 0 {
        Ok(Fields::none())
    } else {
        match read_lines(lines.drop_last()) {
            Err(e) => Err(e),
            Ok(fields) => read_line(fields, lines.last()),
        }
    }
}

/// The version that the text of a header states.
pub open spec fn parse_version(text: Seq<char>) -> Result<Version, VersionError> {
    match read_lines(split(text, newline())) {
        Err(e) => Err(e),
        Ok(fields) => fields.version(),
    }
}

/// An error among the first lines is the outcome of the whole reading.
pub proof fn lemma_read_error_stays(lines: Seq<Seq<char>>, k: int)
    requires
        0 <= k <= lines.len(),
        read_lines(lines.take(k)) is Err,
    ensures
        read_lines(lines) == read_lines(lines.take(k)),
    decreases lines.len() - k,
{
    if k == lines.len() {
        assert(lines.take(k) =~= lines);
    } else {
        assert(lines.take(k + 1).drop_last() =~= lines.take(k));
        lemma_read_error_stays(lines, k + 1);
    }
}

/// Whether a line defines the macro of this name: it begins with `#define`
/// and has the name as its second word.
pub open spec fn defines(line: Seq<char>, name: Seq<char>) -> bool {
    has_prefix(line, "#define"@) && words(line).len() >= 2 && words(line)[1] == name
}

/// A number that was read goes back to a line that defines its macro.
pub proof fn lemma_fields_are_defined(lines: Seq<Seq<char>>)
    requires
        read_lines(lines) is Ok,
    ensures
        read_lines(lines)->Ok_0.year is Some ==> exists|i: int|
            0 <= i < lines.len() && defines(#[trigger] lines[i], "__INTEL_MKL__"@),
        read_lines(lines)->Ok_0.minor is Some ==> exists|i: int|
            0 <= i < lines.len() && defines(#[trigger] lines[i], "__INTEL_MKL_MINOR__"@),
        read_lines(lines)->Ok_0.update is Some ==> exists|i: int|
            0 <= i < lines.len() && defines(#[trigger] lines[i], "__INTEL_MKL_UPDATE__"@),
    decreases lines.len(),
{
    if lines.len() > 0 {
        let rest = lines.drop_last();
        let last = lines.len() - 1;
        lemma_fields_are_defined(rest);
        let before = read_lines(rest)->Ok_0;
        let after = read_lines(lines)->Ok_0;
        reveal_strlit("__INTEL_MKL__");
        reveal_strlit("__INTEL_MKL_MINOR__");
        reveal_strlit("__INTEL_MKL_UPDATE__");
        assert("__INTEL_MKL__"@.len() != "__INTEL_MKL_MINOR__"@.len());
        assert("__INTEL_MKL__"@.len() != "__INTEL_MKL_UPDATE__"@.len());
        assert("__INTEL_MKL_MINOR__"@[12] != "__INTEL_MKL_UPDATE__"@[12]);
        if after.year is Some {
            if after.year == before.year {
                let i = choose|i: int|
                    0 <= i < rest.len() && defines(#[trigger] rest[i], "__INTEL_MKL__"@);
                assert(lines[i] == rest[i]);
            } else {
                assert(defines(lines[last], "__INTEL_MKL__"@));
            }
        }
        if after.minor is Some {
            if after.minor == before.minor {
                let i = choose|i: int|
                    0 <= i < rest.len() && defines(#[trigger] rest[i], "__INTEL_MKL_MINOR__"@);
                assert(lines[i] == rest[i]);
            } else {
                assert(defines(lines[last], "__INTEL_MKL_MINOR__"@));
            }
        }
        if after.update is Some {
            if after.update == before.update {
                let i = choose|i: int|
                    0 <= i < rest.len() && defines(#[trigger] rest[i], "__INTEL_MKL_UPDATE__"@);
                assert(lines[i] == rest[i]);
            } else {
                assert(defines(lines[last], "__INTEL_MKL_UPDATE__"@));
            }
        }
    }
}

/// A header states a version only if it defines all three macros: a header
/// that lacks the line of one of them states none.
pub proof fn lemma_version_needs_all_three(text: Seq<char>)
    requires
        parse_version(text) is Ok,
    ensures
        exists|i: int|
            0 <= i < split(text, newline()).len() && defines(
                #[trigger] split(text, newline())[i],
                "__INTEL_MKL__"@,
            ),
        exists|i: int|
            0 <= i < split(text, newline()).len() && defines(
                #[trigger] split(text, newline())[i],
                "__INTEL_MKL_MINOR__"@,
            ),
        exists|i: int|
            0 <= i < split(text, newline()).len() && defines(
                #[trigger] split(text, newline())[i],
                "__INTEL_MKL_UPDATE__"@,
            ),
{
    lemma_fields_are_defined(split(text, newline()));
}

/// The fields while a header is being read.
struct Progress {
    year: Option<u32>,
    minor: Option<u32>,
    update: Option<u32>,
}

impl View for Progress {
    type V = Fields;

    closed spec fn view(&self) -> Fields {
        Fields { year: self.year, minor: self.minor, update: self.update }
    }
}

impl Progress {
    fn read_line(self, line: &[char]) -> (r: Result<Progress, VersionError>)
        ensures
            match r {
                Ok(next) => read_line(self@, line@) == Ok::<Fields, VersionError>(next@),
                Err(e) => read_line(self@, line@) == Err::<Fields, VersionError>(e),
            },
    {
        let define = chars_of("#define");
        if !starts_with(line, define.as_slice()) {
            return Ok(self);
        }
        let ws = words_of(line);
        assert(views(ws@).len() == ws@.len());
        if ws.len() < 2 {
            return Ok(self);
        }
        assert(views(ws@)[1] == ws@[1]@);
        let is_year = is_word(ws[1].as_slice(), "__INTEL_MKL__");
        let is_minor = is_word(ws[1].as_slice(), "__INTEL_MKL_MINOR__");
        let is_update = is_word(ws[1].as_slice(), "__INTEL_MKL_UPDATE__");
        if !is_year && !is_minor && !is_update {
            return Ok(self);
        }
        if ws.len() < 3 {
            return Err(VersionError::MissingValue);
        }
        assert(views(ws@)[2] == ws@[2]@);
        match read_u32(ws[2].as_slice()) {
            None => Err(VersionError::NotANumber),
            Some(n) => if is_year {
                Ok(Progress { year: Some(n), ..self })
            } else if is_minor {
                Ok(Progress { minor: Some(n), ..self })
            } else {
                Ok(Progress { update: Some(n), ..self })
            },
        }
    }
}

impl Version {
    /// Reads the version from the text of `mkl_version.h`.
    pub fn parse(header: &str) -> (r: Result<Version, VersionError>)
        ensures
            r == parse_version(header@),
    {
        let text = chars_of(header);
        let breaks: Vec<char> = vec!['\n'];
        assert(breaks@ =~= newline());
        let lines = split_chars(text.as_slice(), breaks.as_slice());
        let ghost all = views(lines@);
        assert(all.len() == lines@.len());
        let mut fields = Progress { year: None, minor: None, update: None };
        let mut i: usize = 0;
        while i < lines.len()
            invariant
                i <= lines.len(),
                all == views(lines@),
                all.len() == lines@.len(),
                all == split(header@, newline()),
                read_lines(all.take(i as int)) == Ok::<Fields, VersionError>(fields@),
            decreases lines.len() - i,
        {
            proof {
                assert(all.take(i + 1).drop_last() =~= all.take(i as int));
                assert(all.take(i + 1).last() == lines@[i as int]@);
            }
            match fields.read_line(lines[i].as_slice()) {
                Ok(next) => {
                    fields = next;
                },
                Err(e) => {
                    proof {
                        lemma_read_error_stays(all, i + 1);
                    }
                    return Err(e);
                },
            }
            i = i + 1;
        }
        assert(all.take(i as int) =~= all);
        match (fields.year, fields.minor, fields.update) {
            (Some(year), Some(minor), Some(update)) => Ok(Version { year, minor, update }),
            _ => Err(VersionError::Incomplete),
        }
    }

    /// Reads the version from what was read of the header file, `None`
    /// standing for a file that is not there.
    pub fn read(header: Option<&str>) -> (r: Result<Version, VersionError>)
        ensures
            r == match header {
                Some(text) => parse_version(text@),
                None => Err(VersionError::NotFound),
            },
    {
        match header {
            Some(text) => Version::parse(text),
            None => Err(VersionError::NotFound),
        }
    }

    /// The version as it is usually written: the three numbers with dots
    /// between them.
    pub open spec fn dotted(self) -> Seq<char> {
        crate::text::decimal(self.year as nat) + seq!['.'] + crate::text::decimal(
            self.minor as nat,
        ) + seq!['.'] + crate::text::decimal(self.update as nat)
    }

    pub fn to_string(&self) -> (s: String)
        ensures
            s@ == self.dotted(),
    {
        let mut out: Vec<char> = Vec::new();
        push_decimal(&mut out, self.year);
        out.push('.');
        push_decimal(&mut out, self.minor);
        out.push('.');
        push_decimal(&mut out, self.update);
        assert(out@ =~= self.dotted());
        string_of(out.as_slice())
    }
}

impl Library {
    /// Where the version header of this installation lies.
    pub fn version_header(&self, platform: Platform) -> (path: String)
        ensures
            path@ == join_path(self@.include_dir, "mkl_version.h"@, platform),
    {
        path_under(self.include_dir.as_str(), "mkl_version.h", platform)
    }

    /// Found MKL version, read from what was read of `mkl_version.h`, `None`
    /// standing for a file that is not there.
    pub fn version(&self, header: Option<&str>) -> (r: Result<Version, VersionError>)
        ensures
            r == match header {
                Some(text) => parse_version(text@),
                None => Err(VersionError::NotFound),
            },
    {
        Version::read(header)
    }
}

} // verus!
