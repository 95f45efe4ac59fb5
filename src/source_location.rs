use crate::source_file::SourceFile;
use crate::source_range::SourceRange;
use crate::text::{byte_len, decimal, decimal_text, names_character};
use vstd::prelude::*;
use vstd::string::StringExecFns;

verus! {

/// `index`, `line` and `column` address a character of `f`: the byte index lies within the
/// content, and the line and column name a character other than a line break.
pub open spec fn addresses(f: &SourceFile, index: int, line: int, column: int) -> bool {
    &&& 1 <= line
    &&& 1 <= column
    &&& 0 <= index < byte_len(f.content@)
    &&& names_character(f.content@, line, column)
}

/// A place in source text: a byte index together with a line and a column, both counted
/// from 1. A location without a file is either a scratch location (line and column at
/// least 1) or the invalid location (everything 0).
#[derive(Debug, PartialEq, Eq, Hash, Clone, Copy)]
pub struct SourceLocation<'a> {
    pub source_file: Option<&'a SourceFile>,
    pub index: usize,
    pub line: u32,
    pub column: u32,
}

impl<'a> SourceLocation<'a> {
    /// The location addresses a character of its file.
    pub open spec fn is_file_location(self) -> bool {
        &&& self.source_file is Some
        &&& addresses(self.source_file->0, self.index as int, self.line as int, self.column as int)
    }

    /// A location without a file, on a line and column of its own.
    pub open spec fn is_scratch_location(self) -> bool {
        &&& self.source_file is None
        &&& self.index == 0
        &&& self.line > 0
        &&& self.column > 0
    }

    /// The location that stands for "no location".
    pub open spec fn is_invalid_location(self) -> bool {
        &&& self.source_file is None
        &&& self.index == 0
        &&& self.line == 0
        &&& self.column == 0
    }

    /// One of the three kinds of location.
    pub open spec fn wf(self) -> bool {
        ||| self.is_file_location()
        ||| self.is_scratch_location()
        ||| self.is_invalid_location()
    }

    /// The location in `source_file` at the given byte index, line and column.
    pub fn new(source_file: &'a SourceFile, index: usize, line: u32, column: u32) -> (r: Self)
        requires
            line > 0,
            column > 0,
            names_character(source_file.content@, line as int, column as int),
            index < byte_len(source_file.content@),
        ensures
            r.source_file == Some(source_file),
            r.index == index,
            r.line == line,
            r.column == column,
            r.is_file_location(),
    {
        SourceLocation { source_file: Some(source_file), index, line, column }
    }

    /// A location without a file.
    pub fn new_scratch(line: u32, column: u32) -> (r: Self)
        requires
            line > 0,
            column > 0,
        ensures
            r.source_file is None,
            r.index == 0,
            r.line == line,
            r.column == column,
            r.is_scratch_location(),
    {
        SourceLocation { source_file: None, index: 0, line, column }
    }

    /// The location that stands for "no location".
    pub fn invalid() -> (r: Self)
        ensures
            r.is_invalid_location(),
    {
        SourceLocation { source_file: None, index: 0, line: 0, column: 0 }
    }

    /// A location is valid when its line is not 0.
    pub fn is_valid(&self) -> (r: bool)
        ensures
            r == (self.line != 0),
    {
        self.line != 0
    }

    /// The range that begins and ends here.
    pub fn to_range(&self) -> (r: SourceRange<'a>)
        ensures
            r.begin == *self,
            r.end == *self,
    {
        SourceRange { begin: *self, end: *self }
    }

    /// The range that begins and ends here, taking the location.
    pub fn as_range(self) -> (r: SourceRange<'a>)
        ensures
            r.begin == self,
            r.end == self,
    {
        SourceRange { begin: self, end: self }
    }

    /// How the location reads in a message: `path:line:column`, with `<scratch>` for the
    /// path of a location without a file, or `<invalid>`.
    pub open spec fn text_spec(self) -> Seq<char> {
        if self.line == 0 {
            seq!['<', 'i', 'n', 'v', 'a', 'l', 'i', 'd', '>']
        } else {
            let path = match self.source_file {
                Some(f) => f.path@,
                None => seq!['<', 's', 'c', 'r', 'a', 't', 'c', 'h', '>'],
            };
            path + seq![':'] + decimal(self.line as nat) + seq![':'] + decimal(self.column as nat)
        }
    }

    /// The location as it reads in a message (see `text_spec`).
    pub fn to_string(&self) -> (r: String)
        ensures
            r@ == self.text_spec(),
    {
        proof {
            reveal_strlit("<invalid>");
            reveal_strlit("<scratch>");
            reveal_strlit(":");
        }
        if self.line == 0 {
            return String::from_str("<invalid>");
        }
        let mut r = match self.source_file {
            Some(f) => f.path.clone(),
            None => String::from_str("<scratch>"),
        };
        r.append(":");
        let line = decimal_text(self.line as u64);
        r.append(line.as_str());
        r.append(":");
        let column = decimal_text(self.column as u64);
        r.append(column.as_str());
        r
    }
}

impl<'a> Default for SourceLocation<'a> {
    fn default() -> (r: Self)
        ensures
            r.is_invalid_location(),
    {
        SourceLocation::invalid()
    }
}

} // verus!
