//! Classification of the lines of a network input file.
//!
//! The file is line oriented: comments open with `;`, section headers
//! stand in brackets, and everything else is a data line of the current
//! section.  The reader loop and the numeric fields live with the caller;
//! the library pins down what each line is.

use vstd::prelude::*;
use vstd::string::StrSliceExecFns;
use crate::utils::text::str_eq;

verus! {

/// The sections of a network file that the reader consumes; data lines
/// of any other section are skipped.
#[derive(Debug, PartialEq, Eq, Structural, Clone, Copy)]
pub enum InpSection {
    Junctions,
    Pipes,
    Reservoirs,
    Other,
}

/// What one line of the file is, once surrounding whitespace is trimmed.
#[derive(Debug, PartialEq, Eq, Structural, Clone, Copy)]
pub enum InpLine {
    /// Empty, or a comment opened by `;`.
    Blank,
    /// A bracketed section header.
    Section(InpSection),
    /// A data line of the current section.
    Data,
}

/// The section a bracketed header names; headers are matched whole and
/// case-sensitively.
pub open spec fn section_of(s: Seq<char>) -> InpSection {
    if s == "[JUNCTIONS]"@ {
        InpSection::Junctions
    } else if s == "[PIPES]"@ {
        InpSection::Pipes
    } else if s == "[RESERVOIRS]"@ {
        InpSection::Reservoirs
    } else {
        InpSection::Other
    }
}

/// What a trimmed line is: blank when empty or opened by `;`, a section
/// header when opened by `[`, a data line otherwise.
pub open spec fn line_class(s: Seq<char>) -> InpLine {
    if s.len() == 0 {
        InpLine::Blank
    } else if s[0] == ';' {
        InpLine::Blank
    } else if s[0] == '[' {
        InpLine::Section(section_of(s))
    } else {
        InpLine::Data
    }
}

/// Classify one trimmed line of a network file.
pub fn classify_line(line: &str) -> (r: InpLine)
    ensures
        r == line_class(line@),
{
    let n = line.unicode_len();
    if n == 0 {
        return InpLine::Blank;
    }
    let c0 = line.get_char(0);
    if c0 == ';' {
        return InpLine::Blank;
    }
    if c0 == '[' {
        if str_eq(line, "[JUNCTIONS]") {
            return InpLine::Section(InpSection::Junctions);
        }
        if str_eq(line, "[PIPES]") {
            return InpLine::Section(InpSection::Pipes);
        }
        if str_eq(line, "[RESERVOIRS]") {
            return InpLine::Section(InpSection::Reservoirs);
        }
        return InpLine::Section(InpSection::Other);
    }
    InpLine::Data
}

} // verus!
