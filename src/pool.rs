use vstd::prelude::*;

verus! {

/// The directory that contains the file at a path, as text; `None` where
/// the path has no parent or the parent is not valid text.
pub uninterp spec fn parent_dir_of(path: Seq<char>) -> Option<Seq<char>>;

/// Relies on std::path::Path::parent, read back through Path::to_str: the
/// containing directory of a path.
#[verifier::external_body]
fn parent_directory(file_name: &str) -> (r: Option<String>)
    ensures
        match r {
            Some(d) => parent_dir_of(file_name@) == Some(d@),
            None => parent_dir_of(file_name@) is None,
        },
{
    let parent = std::path::Path::new(file_name).parent();
    parent.and_then(std::path::Path::to_str).map(str::to_owned)
}

#[derive(Clone, Copy, Debug, PartialEq, Eq)]
pub enum ConfigError {
    /// The path names a directory, not a file.
    IsDirectory,
    /// The path has no parent directory that can serve as a key.
    NoDirectory,
}

impl ConfigError {
    pub fn message(&self) -> (r: String)
        ensures
            *self == ConfigError::IsDirectory ==> r@ == "argument file_name is not a file"@,
            *self == ConfigError::NoDirectory ==> r@ == "Could not find directory"@,
    {
        match self {
            ConfigError::IsDirectory => "argument file_name is not a file".to_owned(),
            ConfigError::NoDirectory => "Could not find directory".to_owned(),
        }
    }
}

/// Where the process for a document comes from.
#[derive(Debug, PartialEq, Eq)]
pub enum Acquire {
    /// The process registered under this handle serves the directory.
    Existing(usize),
    /// No process serves this directory yet: one must be spawned there.
    Spawn(String),
}

/// Formatter processes, one per working directory; a process is addressed
/// by the handle it was registered under.
#[derive(Debug)]
pub struct ProcessProvider<P> {
    dirs: Vec<String>,
    processes: Vec<P>,
}

impl<P> ProcessProvider<P> {
    /// The directory of each registered process, by handle.
    pub closed spec fn directories(&self) -> Seq<Seq<char>> {
        self.dirs@.map_values(|d: String| d@)
    }

    /// The registered processes, by handle.
    pub closed spec fn processes(&self) -> Seq<P> {
        self.processes@
    }

    /// One process per directory, and one directory per process.
    pub open spec fn wf(&self) -> bool {
        &&& self.directories().len() == self.processes().len()
        &&& self.directories().no_duplicates()
    }

    /// The handle of the process serving a directory, if any.
    pub open spec fn slot_of(&self, dir: Seq<char>) -> Option<int> {
        if exists|i: int| 0 <= i < self.directories().len() && self.directories()[i] == dir {
            Some(choose|i: int| 0 <= i < self.directories().len() && self.directories()[i] == dir)
        } else {
            None
        }
    }

    /// The handle of the process serving the directory of a document.
    pub open spec fn handle_for(&self, file_name: Seq<char>) -> Option<int> {
        match parent_dir_of(file_name) {
            Some(d) => self.slot_of(d),
            None => None,
        }
    }

    pub fn new() -> (r: Self)
        ensures
            r.wf(),
            r.directories().len() == 0,
    {
        ProcessProvider { dirs: Vec::new(), processes: Vec::new() }
    }

    pub fn len(&self) -> (r: usize)
        requires
            self.wf(),
        ensures
            r == self.processes().len(),
    {
        self.processes.len()
    }

    fn find(&self, dir: &String) -> (r: Option<usize>)
        requires
            self.wf(),
        ensures
            r is None ==> self.slot_of(dir@) is None,
            r matches Some(i) ==> self.slot_of(dir@) == Some(i as int),
    {
        let mut i: usize = 0;
        while i < self.dirs.len()
            invariant
                i <= self.dirs@.len(),
                self.wf(),
                forall|j: int| 0 <= j < i ==> self.directories()[j] != dir@,
            decreases self.dirs@.len() - i,
        {
            if self.dirs[i] == *dir {
                proof {
                    let k = choose|k: int|
                        0 <= k < self.directories().len() && self.directories()[k] == dir@;
                    assert(self.directories()[i as int] == dir@);
                }
                return Some(i);
            }
            i = i + 1;
        }
        None
    }

    /// Resolves the process for a document: an error when the path is a
    /// directory (`is_dir`) or has no parent directory; else the handle of the
    /// process of that directory, or the directory where one must be spawned.
    pub fn get_process(&self, file_name: &str, is_dir: bool) -> (r: Result<Acquire, ConfigError>)
        requires
            self.wf(),
        ensures
            is_dir ==> r == Err::<Acquire, _>(ConfigError::IsDirectory),
            !is_dir && parent_dir_of(file_name@) is None ==> r == Err::<Acquire, _>(
                ConfigError::NoDirectory,
            ),
            !is_dir && parent_dir_of(file_name@) is Some ==> match r {
                Ok(Acquire::Existing(i)) => self.handle_for(file_name@) == Some(i as int),
                Ok(Acquire::Spawn(d)) => parent_dir_of(file_name@) == Some(d@)
                    && self.handle_for(file_name@) is None,
                Err(_) => false,
            },
    {
        if is_dir {
            return Err(ConfigError::IsDirectory);
        }
        match parent_directory(file_name) {
            None => Err(ConfigError::NoDirectory),
            Some(dir) => match self.find(&dir) {
                Some(i) => Ok(Acquire::Existing(i)),
                None => Ok(Acquire::Spawn(dir)),
            },
        }
    }

    /// Registers the process spawned for a directory that had none; returns
    /// its handle.
    pub fn register(&mut self, dir: String, process: P) -> (r: usize)
        requires
            old(self).wf(),
            old(self).slot_of(dir@) is None,
        ensures
            final(self).wf(),
            r == old(self).processes().len(),
            final(self).directories() == old(self).directories().push(dir@),
            final(self).processes() == old(self).processes().push(process),
            final(self).slot_of(dir@) == Some(r as int),
    {
        let ghost d = dir@;
        let r = self.processes.len();
        self.dirs.push(dir);
        self.processes.push(process);
        proof {
            assert(self.directories() =~= old(self).directories().push(d));
            assert(self.directories()[r as int] == d);
            let k = choose|k: int| 0 <= k < self.directories().len() && self.directories()[k] == d;
            if k < r {
                assert(old(self).directories()[k] == d);
            }
        }
        r
    }

    /// The process registered under a handle.
    pub fn process(&self, handle: usize) -> (r: &P)
        requires
            self.wf(),
            handle < self.processes().len(),
        ensures
            *r == self.processes()[handle as int],
    {
        &self.processes[handle]
    }
}

/// Documents in one directory are served by one process: two paths with the
/// same parent directory resolve to the same handle, which belongs to that
/// directory alone.
pub proof fn lemma_siblings_share_process<P>(
    pool: ProcessProvider<P>,
    a: Seq<char>,
    b: Seq<char>,
)
    requires
        pool.wf(),
        parent_dir_of(a) is Some,
        parent_dir_of(a) == parent_dir_of(b),
    ensures
        pool.handle_for(a) == pool.handle_for(b),
        pool.handle_for(a) matches Some(i) ==> 0 <= i < pool.processes().len()
            && pool.directories()[i] == parent_dir_of(a)->0,
{
}

} // verus!
