use crate::source_location::SourceLocation;
use crate::text::{
    byte_offset, lemma_byte_offset_in_suffix, lemma_byte_offset_is_char_boundary,
    lemma_byte_offset_step, lemma_byte_offset_strictly_grows, lemma_char_boundary_is_offset,
    utf8_width,
};
use vstd::prelude::*;
use vstd::std_specs::iter::IteratorSpec;
use vstd::string::StringSliceAdditionalSpecFns;
use vstd::utf8::*;

verus! {

/// `begin` comes no later than `end` by line, then column; on the same line and column the
/// byte index is the same.
pub open spec fn is_ordered(begin: SourceLocation, end: SourceLocation) -> bool {
    &&& begin.line <= end.line
    &&& (begin.line != end.line || begin.column <= end.column)
    &&& (begin.line != end.line || begin.column != end.column || begin.index == end.index)
}

/// An inclusive span of source text from `begin` to `end`.
#[derive(Debug, PartialEq, Eq, Hash, Clone, Copy)]
pub struct SourceRange<'a> {
    pub begin: SourceLocation<'a>,
    pub end: SourceLocation<'a>,
}

impl<'a> SourceRange<'a> {
    /// Both ends lie in one file (or neither has one) and `begin` does not come after `end`.
    pub open spec fn is_well_ordered(self) -> bool {
        &&& self.begin.source_file == self.end.source_file
        &&& is_ordered(self.begin, self.end)
    }

    /// Both ends are well-formed locations and the range is well ordered.
    pub open spec fn wf(self) -> bool {
        &&& self.begin.wf()
        &&& self.end.wf()
        &&& self.is_well_ordered()
    }

    /// The bytes that `source_text` gives: from `begin.index` through the whole character
    /// that starts at `end.index`. Nothing where a byte index does not fall on a character
    /// boundary, where the end lies past the text or before the beginning, and nothing for a
    /// range without a file.
    pub open spec fn text_bytes(self) -> Option<Seq<u8>> {
        match self.begin.source_file {
            None => None,
            Some(f) => {
                let bytes = encode_utf8(f.content@);
                let a = self.begin.index as int;
                let e = self.end.index as int;
                let n = bytes.len() as int;
                if a <= e < n && is_char_boundary(bytes, a) && is_char_boundary(bytes, e) {
                    Some(bytes.subrange(a, e + length_of_first_scalar(bytes.subrange(e, n))))
                } else {
                    None
                }
            },
        }
    }

    /// The range from `begin` to `end`; they must lie in one file and be in order.
    pub fn new(begin: SourceLocation<'a>, end: SourceLocation<'a>) -> (r: Self)
        requires
            begin.source_file == end.source_file,
            is_ordered(begin, end),
        ensures
            r.begin == begin,
            r.end == end,
            r.is_well_ordered(),
    {
        SourceRange { begin, end }
    }

    /// The range that begins and ends at `location`.
    pub fn from_location(location: SourceLocation<'a>) -> (r: Self)
        ensures
            r.begin == location,
            r.end == location,
            r.is_well_ordered(),
    {
        SourceRange { begin: location, end: location }
    }

    /// The range whose ends are both the invalid location.
    pub fn invalid() -> (r: Self)
        ensures
            r.begin.is_invalid_location(),
            r.end.is_invalid_location(),
            r.wf(),
    {
        SourceRange { begin: SourceLocation::invalid(), end: SourceLocation::invalid() }
    }

    /// Both ends are valid.
    pub fn is_valid(&self) -> (r: bool)
        ensures
            r == (self.begin.line != 0 && self.end.line != 0),
    {
        self.begin.is_valid() && self.end.is_valid()
    }

    /// The text that the range spans (see `text_bytes`).
    pub fn source_text(&self) -> (r: Option<&'a str>)
        ensures
            r is Some <==> self.text_bytes() is Some,
            r is Some ==> self.text_bytes() == Some(r->0.spec_bytes()),
    {
        broadcast use vstd::string::group_string_axioms, vstd::utf8::encode_utf8_decode_utf8;

        let f = match self.begin.source_file {
            Some(f) => f,
            None => return None,
        };
        let content: &'a str = f.content.as_str();
        let ghost s = f.content@;
        let ghost bytes = encode_utf8(s);
        let n = content.as_bytes().len();
        assert(content.spec_bytes() == bytes);
        let a = self.begin.index;
        let e = self.end.index;
        if a > e || e >= n || !content.is_char_boundary(a) || !content.is_char_boundary(e) {
            return None;
        }
        proof {
            lemma_char_boundary_is_offset(s, a as int);
            lemma_char_boundary_is_offset(s, e as int);
        }
        let ghost p = choose|p: int| 0 <= p <= s.len() && #[trigger] byte_offset(s, p) == a;
        let ghost q = choose|q: int| 0 <= q <= s.len() && #[trigger] byte_offset(s, q) == e;
        proof {
            assert(s.take(s.len() as int) =~= s);
            assert(byte_offset(s, s.len() as int) == n);
            lemma_byte_offset_strictly_grows(s, p, q);
            lemma_byte_offset_strictly_grows(s, q, p);
            lemma_byte_offset_strictly_grows(s, q, s.len() as int);
            assert(p <= q < s.len());
            lemma_byte_offset_in_suffix(s, p, q);
            lemma_byte_offset_in_suffix(s, p, q + 1);
            lemma_byte_offset_in_suffix(s, q, q + 1);
            lemma_byte_offset_is_char_boundary(s.subrange(p, s.len() as int), q - p);
            lemma_byte_offset_is_char_boundary(s.subrange(p, s.len() as int), q + 1 - p);
            lemma_byte_offset_step(s, q);
        }
        let (_, rest) = content.split_at(a);
        proof {
            assert(rest.spec_bytes() == encode_utf8(s.subrange(p, s.len() as int)));
            encode_utf8_decode_utf8(rest@);
            encode_utf8_decode_utf8(s.subrange(p, s.len() as int));
            assert(rest@ == s.subrange(p, s.len() as int));
        }
        let (_, tail) = rest.split_at(e - a);
        proof {
            assert(tail.spec_bytes() =~= bytes.subrange(e as int, n as int));
            assert(tail.spec_bytes() == encode_utf8(s.subrange(q, s.len() as int)));
            encode_utf8_decode_utf8(tail@);
            encode_utf8_decode_utf8(s.subrange(q, s.len() as int));
            assert(tail@ == s.subrange(q, s.len() as int));
            encode_utf8_first_scalar(tail@);
        }
        let mut it = tail.chars();
        let c = match it.next() {
            Some(c) => c,
            None => return None,
        };
        assert(c == s[q]);
        let w = utf8_width(c);
        let (t, _) = rest.split_at(e - a + w);
        assert(t.spec_bytes() =~= bytes.subrange(a as int, e + w));
        Some(t)
    }
}

impl<'a> Default for SourceRange<'a> {
    fn default() -> (r: Self)
        ensures
            r.begin.is_invalid_location(),
            r.end.is_invalid_location(),
    {
        SourceRange::invalid()
    }
}

impl<'a> From<SourceLocation<'a>> for SourceRange<'a> {
    fn from(location: SourceLocation<'a>) -> (r: Self)
        ensures
            r.begin == location,
            r.end == location,
    {
        SourceRange::from_location(location)
    }
}

impl<'a> vstd::std_specs::convert::FromSpecImpl<SourceLocation<'a>> for SourceRange<'a> {
    open spec fn obeys_from_spec() -> bool {
        true
    }

    open spec fn from_spec(location: SourceLocation<'a>) -> Self {
        SourceRange { begin: location, end: location }
    }
}


/// `a` comes no later than `b` in the order of line, then column, then byte index.
pub open spec fn lexicographically_le(a: SourceLocation, b: SourceLocation) -> bool {
    ||| a.line < b.line
    ||| a.line == b.line && a.column < b.column
    ||| a.line == b.line && a.column == b.column && a.index <= b.index
}

/// A range that `new` accepts has both ends in one file (or neither in a file), and its
/// beginning comes no later than its end by line, column and byte index.
pub proof fn lemma_range_invariant(begin: SourceLocation, end: SourceLocation)
    requires
        begin.source_file == end.source_file,
        is_ordered(begin, end),
    ensures
        (SourceRange { begin, end }).is_well_ordered(),
        lexicographically_le(begin, end),
{
}

} // verus!
