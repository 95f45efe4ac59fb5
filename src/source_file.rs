use vstd::prelude::*;

verus! {

/// Two adjacent characters that may not appear in a path.
pub open spec fn is_forbidden_pair(a: char, b: char) -> bool {
    ||| a == '.' && b == '.'
    ||| a == '/' && b == '/'
    ||| a == '\\' && b == '\\'
    ||| a == '/' && b == '*'
    ||| a == '*' && b == '/'
}

/// A path holds no NUL, no newline, and none of `..`, `//`, `\\`, `/*`, `*/`.
pub open spec fn is_acceptable_path(p: Seq<char>) -> bool {
    &&& forall|i: int| 0 <= i < p.len() ==> p[i] != '\0' && p[i] != '\n'
    &&& forall|i: int| 0 <= i < p.len() - 1 ==> !is_forbidden_pair(#[trigger] p[i], p[i + 1])
}

/// Whether `path` may name a source file.
pub fn path_is_acceptable(path: &str) -> (r: bool)
    ensures
        r == is_acceptable_path(path@),
{
    let cs = crate::text::chars_of(path);
    let n = cs.len();
    let mut i: usize = 0;
    while i < n
        invariant
            n == cs@.len(),
            cs@ == path@,
            0 <= i <= n,
            forall|j: int| 0 <= j < i ==> cs@[j] != '\0' && cs@[j] != '\n',
            forall|j: int| 0 <= j < i && j < n - 1 ==> !is_forbidden_pair(#[trigger] cs@[j], cs@[j + 1]),
        decreases n - i,
    {
        let c = cs[i];
        if c == '\0' || c == '\n' {
            return false;
        }
        if i + 1 < n {
            let d = cs[i + 1];
            let bad = (c == '.' && d == '.') || (c == '/' && d == '/') || (c == '\\' && d == '\\')
                || (c == '/' && d == '*') || (c == '*' && d == '/');
            if bad {
                assert(is_forbidden_pair(cs@[i as int], cs@[i + 1]));
                return false;
            }
        }
        i = i + 1;
    }
    true
}

/// A file of source text, known by its path.
#[derive(Debug, Clone, Hash)]
pub struct SourceFile {
    pub path: String,
    pub content: String,
}

impl SourceFile {
    /// A file with the given path and content; the path must be acceptable.
    pub fn new(path: &str, content: &str) -> (r: SourceFile)
        requires
            is_acceptable_path(path@),
        ensures
            r.path@ == path@,
            r.content@ == content@,
    {
        SourceFile { path: path.to_owned(), content: content.to_owned() }
    }
}

impl PartialEq for SourceFile {
    fn eq(&self, other: &SourceFile) -> (r: bool)
        ensures
            r == (self.path@ == other.path@ && self.content@ == other.content@),
    {
        self.path == other.path && self.content == other.content
    }
}

impl vstd::std_specs::cmp::PartialEqSpecImpl for SourceFile {
    open spec fn obeys_eq_spec() -> bool {
        true
    }

    open spec fn eq_spec(&self, other: &SourceFile) -> bool {
        self.path@ == other.path@ && self.content@ == other.content@
    }
}

impl Eq for SourceFile {}

} // verus!
