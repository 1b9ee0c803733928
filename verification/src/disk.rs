//! An in-memory model of the project's output tree.
//!
//! The library's whole file lifecycle runs against a [`Disk`] value: a
//! mapping from path strings to text contents, together with a log of the
//! operations performed on it.  A thin runner outside the library replays
//! the log onto the real filesystem, in order, to produce the same tree
//! there.

use vstd::prelude::*;
use vstd::string::StringExecFns;

verus! {

/// One filesystem operation that the library decided on.  A runner outside
/// the library replays these onto the real filesystem in order.
pub enum FsAction {
    /// Create this directory and any missing ancestors.
    EnsureDir(String),
    /// Create (or truncate) this file and write the given contents to it.
    WriteFile(String, String),
    /// Copy the contents of the first path to the second path.
    CopyFile(String, String),
}

/// The mapping that an entry list denotes: later entries override earlier
/// ones.
pub open spec fn entries_map(s: Seq<(String, String)>) -> Map<Seq<char>, Seq<char>>
    decreases s.len(),
{
    if s.len() == 0 {
        Map::empty()
    } else {
        entries_map(s.drop_last()).insert(s.last().0@, s.last().1@)
    }
}

/// Lookup in an entry list, later entries winning.
spec fn entries_get(s: Seq<(String, String)>, k: Seq<char>) -> Option<Seq<char>>
    decreases s.len(),
{
    if s.len() == 0 {
        None
    } else if s.last().0@ == k {
        Some(s.last().1@)
    } else {
        entries_get(s.drop_last(), k)
    }
}

proof fn lemma_entries_get(s: Seq<(String, String)>, k: Seq<char>)
    ensures
        entries_map(s).contains_key(k) <==> entries_get(s, k) is Some,
        entries_get(s, k) is Some ==> entries_map(s)[k] == entries_get(s, k).unwrap(),
    decreases s.len(),
{
    if s.len() > 0 {
        lemma_entries_get(s.drop_last(), k);
    }
}

/// In-memory model of the output tree.
///
/// Its view is the mapping from each file's path to its text contents.
/// Directories are not tracked: the model's directory creation always
/// succeeds and only leaves a log entry behind.
pub struct Disk {
    /// The files of the tree, as (path, contents) pairs; a later entry for
    /// the same path overrides an earlier one.
    pub entries: Vec<(String, String)>,
    /// The operations performed so far, oldest first.
    pub log: Vec<FsAction>,
}

impl View for Disk {
    type V = Map<Seq<char>, Seq<char>>;

    open spec fn view(&self) -> Map<Seq<char>, Seq<char>> {
        entries_map(self.entries@)
    }
}

impl Disk {
    /// An empty tree with an empty log.
    pub fn new() -> (r: Self)
        ensures
            r@ == Map::<Seq<char>, Seq<char>>::empty(),
            r.log@ == Seq::<FsAction>::empty(),
    {
        Disk { entries: Vec::new(), log: Vec::new() }
    }

    /// Records a file that already exists on the tree being modelled.
    /// Unlike the mutating operations, seeding leaves no log entry: it
    /// mirrors state, it does not create it.
    pub fn seed(&mut self, path: &str, contents: &str)
        ensures
            final(self)@ == old(self)@.insert(path@, contents@),
            final(self).log == old(self).log,
    {
        self.entries.push((path.to_owned(), contents.to_owned()));
        proof {
            assert(self.entries@.drop_last() =~= old(self).entries@);
        }
    }

    /// Whether a file exists at `path`.
    pub fn has_file(&self, path: &str) -> (r: bool)
        ensures
            r == self@.contains_key(path@),
    {
        let key = path.to_owned();
        let n = self.entries.len();
        let mut i: usize = n;
        proof {
            assert(self.entries@.take(n as int) =~= self.entries@);
        }
        while i > 0
            invariant
                i <= n,
                n == self.entries@.len(),
                key@ == path@,
                entries_get(self.entries@, path@) == entries_get(
                    self.entries@.take(i as int),
                    path@,
                ),
            decreases i,
        {
            proof {
                assert(self.entries@.take(i as int).last() == self.entries@[i - 1]);
                assert(self.entries@.take(i as int).drop_last() =~= self.entries@.take(i - 1));
            }
            if self.entries[i - 1].0 == key {
                proof {
                    lemma_entries_get(self.entries@, path@);
                }
                return true;
            }
            i = i - 1;
        }
        proof {
            assert(self.entries@.take(0) =~= Seq::<(String, String)>::empty());
            lemma_entries_get(self.entries@, path@);
        }
        false
    }

    /// The contents of the file at `path`, if one exists.
    pub fn read(&self, path: &str) -> (r: Option<String>)
        ensures
            match r {
                None => !self@.contains_key(path@),
                Some(c) => self@.contains_key(path@) && c@ == self@[path@],
            },
    {
        let key = path.to_owned();
        let n = self.entries.len();
        let mut i: usize = n;
        proof {
            assert(self.entries@.take(n as int) =~= self.entries@);
        }
        while i > 0
            invariant
                i <= n,
                n == self.entries@.len(),
                key@ == path@,
                entries_get(self.entries@, path@) == entries_get(
                    self.entries@.take(i as int),
                    path@,
                ),
            decreases i,
        {
            proof {
                assert(self.entries@.take(i as int).last() == self.entries@[i - 1]);
                assert(self.entries@.take(i as int).drop_last() =~= self.entries@.take(i - 1));
            }
            if self.entries[i - 1].0 == key {
                proof {
                    lemma_entries_get(self.entries@, path@);
                }
                return Some(self.entries[i - 1].1.clone());
            }
            i = i - 1;
        }
        proof {
            assert(self.entries@.take(0) =~= Seq::<(String, String)>::empty());
            lemma_entries_get(self.entries@, path@);
        }
        None
    }

    /// Creates the directory at `path` (and any missing ancestors).  Only
    /// the log records it: the model does not track directories.
    pub fn ensure_dir(&mut self, path: &str)
        ensures
            final(self)@ == old(self)@,
            final(self).log@.len() == old(self).log@.len() + 1,
            final(self).log@.drop_last() == old(self).log@,
            match final(self).log@.last() {
                FsAction::EnsureDir(p) => p@ == path@,
                _ => false,
            },
    {
        self.log.push(FsAction::EnsureDir(path.to_owned()));
        proof {
            assert(self.log@.drop_last() =~= old(self).log@);
        }
    }

    /// Creates (or truncates) the file at `path` and writes `contents`.
    pub fn write_file(&mut self, path: &str, contents: String)
        ensures
            final(self)@ == old(self)@.insert(path@, contents@),
            final(self).log@.len() == old(self).log@.len() + 1,
            final(self).log@.drop_last() == old(self).log@,
            match final(self).log@.last() {
                FsAction::WriteFile(p, c) => p@ == path@ && c@ == contents@,
                _ => false,
            },
    {
        let key = path.to_owned();
        self.log.push(FsAction::WriteFile(key.clone(), contents.clone()));
        self.entries.push((key, contents));
        proof {
            assert(self.entries@.drop_last() =~= old(self).entries@);
            assert(self.log@.drop_last() =~= old(self).log@);
        }
    }

    /// Copies the file at `from` to `to`, byte for byte.
    pub fn copy_file(&mut self, from: &str, to: &str)
        requires
            old(self)@.contains_key(from@),
        ensures
            final(self)@ == old(self)@.insert(to@, old(self)@[from@]),
            final(self).log@.len() == old(self).log@.len() + 1,
            final(self).log@.drop_last() == old(self).log@,
            match final(self).log@.last() {
                FsAction::CopyFile(f, t) => f@ == from@ && t@ == to@,
                _ => false,
            },
    {
        let contents = match self.read(from) {
            Some(c) => c,
            None => vstd::pervasive::unreached(),
        };
        self.log.push(FsAction::CopyFile(from.to_owned(), to.to_owned()));
        self.entries.push((to.to_owned(), contents));
        proof {
            assert(self.entries@.drop_last() =~= old(self).entries@);
            assert(self.log@.drop_last() =~= old(self).log@);
        }
    }
}

} // verus!
