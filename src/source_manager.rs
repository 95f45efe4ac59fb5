use crate::source_file::{is_acceptable_path, SourceFile};
use vstd::prelude::*;

verus! {

/// Supplies source files by path.
pub trait SourceManager {
    fn load_file(&self, path: &str) -> Option<&SourceFile>;
}

/// Source files held in memory, added by `add_file`; no storage is read.
pub struct VirtualSourceManager {
    source_files: Vec<SourceFile>,
    contents: Ghost<Map<Seq<char>, Seq<char>>>,
}

impl View for VirtualSourceManager {
    type V = Map<Seq<char>, Seq<char>>;

    /// The content of each file, by path.
    closed spec fn view(&self) -> Map<Seq<char>, Seq<char>> {
        self.contents@
    }
}

impl VirtualSourceManager {
    /// Each path is held once, and the map gives each file's content.
    pub closed spec fn wf(&self) -> bool {
        let files = self.source_files@;
        &&& forall|i: int, j: int|
            0 <= i < files.len() && 0 <= j < files.len() && #[trigger] files[i].path@
                == #[trigger] files[j].path@ ==> i == j
        &&& forall|p: Seq<char>|
            #[trigger] self.contents@.contains_key(p) <==> exists|i: int|
                0 <= i < files.len() && #[trigger] files[i].path@ == p
        &&& forall|i: int|
            0 <= i < files.len() ==> self.contents@[#[trigger] files[i].path@] == files[i].content@
    }

    /// A manager that holds no files.
    pub fn new() -> (r: Self)
        ensures
            r.wf(),
            r@ == Map::<Seq<char>, Seq<char>>::empty(),
    {
        VirtualSourceManager { source_files: Vec::new(), contents: Ghost(Map::empty()) }
    }

    /// Where the file of `path` is held.
    fn position_of(&self, path: &str) -> (r: Option<usize>)
        ensures
            r is Some ==> r->0 < self.source_files@.len() && self.source_files@[r->0 as int].path@
                == path@,
            r is None && self.wf() ==> !self@.contains_key(path@),
    {
        let wanted = path.to_owned();
        let mut i: usize = 0;
        while i < self.source_files.len()
            invariant
                wanted@ == path@,
                0 <= i <= self.source_files@.len(),
                forall|j: int| 0 <= j < i ==> self.source_files@[j].path@ != path@,
            decreases self.source_files@.len() - i,
        {
            if self.source_files[i].path == wanted {
                return Some(i);
            }
            i = i + 1;
        }
        None
    }

    /// Holds `content` under `path`, replacing what was held there.
    pub fn add_file(&mut self, path: &str, content: &str)
        requires
            old(self).wf(),
            is_acceptable_path(path@),
        ensures
            final(self).wf(),
            final(self)@ == old(self)@.insert(path@, content@),
    {
        let file = SourceFile::new(path, content);
        let ghost files0 = self.source_files@;
        let ghost map0 = self.contents@;
        let ghost mut at: int = 0;
        match self.position_of(path) {
            Some(i) => {
                self.source_files[i] = file;
                proof {
                    at = i as int;
                }
            },
            None => {
                self.source_files.push(file);
                proof {
                    at = files0.len() as int;
                }
            },
        }
        self.contents = Ghost(self.contents@.insert(path@, content@));
        proof {
            let files = self.source_files@;
            assert(files.len() == files0.len() || files.len() == files0.len() + 1);
            assert(files[at] == file);
            assert(forall|k: int| 0 <= k < files.len() && k != at ==> files[k] == files0[k]);
            assert forall|p: Seq<char>|
                #[trigger] self.contents@.contains_key(p) <==> exists|i: int|
                    0 <= i < files.len() && #[trigger] files[i].path@ == p by {
                if p == path@ {
                    assert(files[at].path@ == p);
                } else {
                    if map0.contains_key(p) {
                        let i = choose|i: int| 0 <= i < files0.len() && #[trigger] files0[i].path@ == p;
                        assert(files[i].path@ == p);
                    }
                    if exists|i: int| 0 <= i < files.len() && #[trigger] files[i].path@ == p {
                        let i = choose|i: int| 0 <= i < files.len() && #[trigger] files[i].path@ == p;
                        assert(files0[i].path@ == p);
                    }
                }
            }
            assert forall|i: int, j: int|
                0 <= i < files.len() && 0 <= j < files.len() && #[trigger] files[i].path@
                    == #[trigger] files[j].path@ implies i == j by {
                if i != at && j != at {
                    assert(files0[i].path@ == files0[j].path@);
                }
            }
            assert forall|i: int|
                0 <= i < files.len() implies self.contents@[#[trigger] files[i].path@]
                == files[i].content@ by {
                if i != at {
                    assert(files0[i].path@ == files[i].path@);
                }
            }
        }
    }

    /// The file held under `path`, if any.
    pub fn load_file(&self, path: &str) -> (r: Option<&SourceFile>)
        ensures
            self.wf() ==> (r is Some <==> self@.contains_key(path@)),
            self.wf() && r is Some ==> r->0.path@ == path@ && r->0.content@ == self@[path@],
    {
        match self.position_of(path) {
            Some(i) => Some(&self.source_files[i]),
            None => None,
        }
    }
}

impl SourceManager for VirtualSourceManager {
    fn load_file(&self, path: &str) -> Option<&SourceFile> {
        VirtualSourceManager::load_file(self, path)
    }
}

/// A manager that holds no files and loads none.
#[derive(Debug, Clone, Copy, Default)]
pub struct EmptySourceManager;

impl EmptySourceManager {
    /// The manager that holds no files.
    pub fn new() -> (r: Self) {
        EmptySourceManager
    }

    /// There is no file to load.
    pub fn load_file(&self, path: &str) -> (r: Option<&SourceFile>)
        ensures
            r is None,
    {
        None
    }
}

impl SourceManager for EmptySourceManager {
    fn load_file(&self, path: &str) -> Option<&SourceFile> {
        None
    }
}

} // verus!
