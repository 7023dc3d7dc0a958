use vstd::prelude::*;
use crate::errors::ServiceError;
use crate::data_processor::{apply_rules, DataProcessor};
use crate::text::{byte_len, byte_size, replace_all, replace_text, to_upper, upper_of};

verus! {

/// The largest file, in bytes, that a store made by `FileProcessor::new` accepts.
pub const DEFAULT_MAX_FILE_SIZE: usize = 1048576;

/// A file name that stays inside the base directory: not empty, neither `.`
/// nor `..`, and without a path separator (`/` or `\\`) or NUL.
pub open spec fn valid_name(n: Seq<char>) -> bool {
    &&& n.len() > 0
    &&& n != seq!['.']
    &&& n != seq!['.', '.']
    &&& forall|i: int| 0 <= i < n.len() ==> n[i] != '/' && n[i] != '\\' && n[i] != '\0'
}

/// Where the file `name` lives under `base`.
pub open spec fn path_of(base: Seq<char>, name: Seq<char>) -> Seq<char> {
    base + seq!['/'] + name
}

/// The directory under `base` that holds bodies still being written.
pub open spec fn temp_dir_of(base: Seq<char>) -> Seq<char> {
    base + seq!['/', '.', 't', 'm', 'p']
}

/// Where a new body of `name` is written before it is renamed into place.
pub open spec fn temp_path_of(base: Seq<char>, name: Seq<char>) -> Seq<char> {
    temp_dir_of(base) + seq!['/'] + name
}

/// `r` is the refusal of a name that would leave the base directory.
pub open spec fn denied<T>(r: Result<T, ServiceError>, name: Seq<char>) -> bool {
    r matches Err(ServiceError::PermissionDenied { key }) && key@ == name
}

/// What a store holds, as mathematics: its directory, its cache from file
/// name to content, and its size limit in bytes.
pub struct StoreView {
    pub base: Seq<char>,
    pub cache: Map<Seq<char>, Seq<char>>,
    pub limit: nat,
}

impl StoreView {
    /// Every cached name is a valid name and every cached content fits the limit.
    pub open spec fn consistent(self) -> bool {
        forall|k: Seq<char>| #[trigger] self.cache.contains_key(k) ==> valid_name(k)
            && byte_len(self.cache[k]) <= self.limit
    }

    /// The store after `content` was written under `name`: content within the
    /// limit is cached, larger content is not kept in the cache at all.
    pub open spec fn written(self, name: Seq<char>, content: Seq<char>) -> StoreView {
        StoreView {
            cache: if byte_len(content) <= self.limit {
                self.cache.insert(name, content)
            } else {
                self.cache.remove(name)
            },
            ..self
        }
    }

    /// The store after `content` was read from disk for `name`.
    pub open spec fn loaded(self, name: Seq<char>, content: Seq<char>) -> StoreView {
        StoreView { cache: self.cache.insert(name, content), ..self }
    }

    /// The store after `name` was deleted.
    pub open spec fn forgotten(self, name: Seq<char>) -> StoreView {
        StoreView { cache: self.cache.remove(name), ..self }
    }
}

/// After a successful write of content within the limit, the cache holds
/// exactly that content under the name, so the next read of the name is
/// answered from the cache without touching the disk.
pub proof fn lemma_write_then_read(s: StoreView, name: Seq<char>, content: Seq<char>)
    requires
        byte_len(content) <= s.limit,
    ensures
        s.written(name, content).cache.contains_key(name),
        s.written(name, content).cache[name] == content,
{
}

/// After a successful write of content over the limit, the name is not in
/// the cache, so the next read goes to the disk, where the size check refuses
/// it with `TooLarge` before the body is read and without caching anything.
pub proof fn lemma_oversized_write_not_cached(s: StoreView, name: Seq<char>, content: Seq<char>)
    requires
        byte_len(content) > s.limit,
    ensures
        !s.written(name, content).cache.contains_key(name),
{
}

/// The temporary file of a write lies one directory below the files of
/// the store, so no valid name addresses it: until the rename only the old
/// content is visible under any name, and the temporary file is never read,
/// cached or listed as a file of the store.
pub proof fn lemma_temp_path_apart(base: Seq<char>, name: Seq<char>, other: Seq<char>)
    requires
        valid_name(name),
        valid_name(other),
    ensures
        temp_path_of(base, name) != path_of(base, other),
{
    let t = temp_path_of(base, name);
    let p = path_of(base, other);
    if t == p {
        let k: int = base.len() as int + 5;
        assert(t.len() == p.len());
        assert(t[k] == '/');
        assert(p[k] == other[4]);
    }
}

/// Deleting a name twice leaves the same store as deleting it once, and
/// neither leaves the name in the cache.
pub proof fn lemma_delete_twice(s: StoreView, name: Seq<char>)
    ensures
        s.forgotten(name).forgotten(name) == s.forgotten(name),
        !s.forgotten(name).cache.contains_key(name),
{
    assert(s.forgotten(name).forgotten(name).cache =~= s.forgotten(name).cache);
}

/// One cached file.
#[derive(Debug, Clone)]
pub struct CachedEntry {
    pub name: String,
    pub content: String,
    pub size: usize,
}

/// How a read goes on after the cache was asked.
#[derive(Debug, Clone, PartialEq, Eq)]
pub enum ReadPlan {
    /// The content was cached: nothing is read from disk.
    Cached(String),
    /// Not cached: open this path, check its size, then read it.
    Load(String),
}

/// Where a write puts the new body first, and where it renames it to. The
/// temporary directory is to be created when it does not exist yet.
#[derive(Debug, Clone, PartialEq, Eq)]
pub struct WritePlan {
    pub temp_dir: String,
    pub temp_path: String,
    pub final_path: String,
}

/// One result of a batch: the name asked for and what came of it.
#[derive(Debug, PartialEq, Eq)]
pub struct BatchItem {
    pub name: String,
    pub outcome: Result<String, ServiceError>,
}

/// The fixed rewrite of the store's own: upper case, spaces to underscores,
/// line breaks to a backslash and `n`.
pub open spec fn transformed(content: Seq<char>) -> Seq<char> {
    replace_all(replace_all(upper_of(content), seq![' '], seq!['_']), seq!['\n'], seq!['\\', 'n'])
}

/// What a batch reports for one name: the read's error, or the read content
/// run through the rules.
pub open spec fn batch_outcome(
    rules: Seq<(Seq<char>, Seq<char>)>,
    read: Result<String, ServiceError>,
    outcome: Result<String, ServiceError>,
) -> bool {
    match read {
        Ok(c) => outcome matches Ok(t) && t@ == apply_rules(rules, c@),
        Err(e) => outcome == Err::<String, ServiceError>(e),
    }
}

/// One entry of the base directory as the filesystem reported it: its name,
/// if that name is valid UTF-8, and whether it is a regular file.
#[derive(Debug, Clone, PartialEq, Eq)]
pub struct ListedEntry {
    pub name: Option<String>,
    pub is_file: bool,
}

/// The entries that a listing shows: regular files whose names are text and
/// valid names, in the order given.
pub open spec fn shown(entries: Seq<ListedEntry>) -> Seq<Seq<char>>
    decreases entries.len(),
{
    if entries.len() == 0 {
        Seq::empty()
    } else {
        let rest = shown(entries.drop_last());
        let e = entries.last();
        match e.name {
            Some(n) => if e.is_file && valid_name(n@) {
                rest.push(n@)
            } else {
                rest
            },
            None => rest,
        }
    }
}

/// A cache of file contents in front of a directory. The filesystem calls
/// are made by the caller, which hands their results to this type; the
/// decisions on names, sizes, and what the cache holds are made here.
pub struct FileProcessor {
    base_path: String,
    cache: Vec<CachedEntry>,
    max_file_size: usize,
    cache_map: Ghost<Map<Seq<char>, Seq<char>>>,
}

impl View for FileProcessor {
    type V = StoreView;

    closed spec fn view(&self) -> StoreView {
        StoreView { base: self.base_path@, cache: self.cache_map@, limit: self.max_file_size as nat }
    }
}

/// Returns whether `name` satisfies `valid_name`.
pub fn is_valid_name(name: &str) -> (r: bool)
    ensures
        r == valid_name(name@),
{
    let n = name.unicode_len();
    if n == 0 {
        return false;
    }
    let first = name.get_char(0);
    if n == 1 && first == '.' {
        assert(name@ =~= seq!['.']);
        return false;
    }
    if n == 2 && first == '.' && name.get_char(1) == '.' {
        assert(name@ =~= seq!['.', '.']);
        return false;
    }
    assert(name@ != seq!['.']) by {
        if name@ == seq!['.'] {
            assert(name@[0] == '.');
        }
    }
    assert(name@ != seq!['.', '.']) by {
        if name@ == seq!['.', '.'] {
            assert(name@[0] == '.' && name@[1] == '.');
        }
    }
    let mut i: usize = 0;
    while i < n
        invariant
            n == name@.len(),
            i <= n,
            forall|j: int| 0 <= j < i ==> name@[j] != '/' && name@[j] != '\\' && name@[j] != '\0',
        decreases n - i,
    {
        let c = name.get_char(i);
        if c == '/' || c == '\\' || c == '\0' {
            return false;
        }
        i = i + 1;
    }
    true
}

impl FileProcessor {
    /// Internal consistency: the entries have distinct names, agree with the
    /// cache map, and record their byte size.
    pub closed spec fn inv(&self) -> bool {
        &&& forall|i: int, j: int|
            0 <= i < j < self.cache@.len() ==> self.cache@[i].name@ != self.cache@[j].name@
        &&& forall|i: int|
            0 <= i < self.cache@.len() ==> {
                let e = #[trigger] self.cache@[i];
                &&& self.cache_map@.contains_key(e.name@)
                &&& self.cache_map@[e.name@] == e.content@
                &&& e.size as nat == byte_len(e.content@)
            }
        &&& forall|k: Seq<char>|
            #[trigger] self.cache_map@.contains_key(k) ==> exists|i: int|
                0 <= i < self.cache@.len() && (#[trigger] self.cache@[i]).name@ == k
    }

    /// Well-formedness, kept by every operation.
    pub open spec fn wf(&self) -> bool {
        self.inv() && self@.consistent()
    }

    /// An empty store over `base_path` with the default size limit.
    pub fn new(base_path: String) -> (r: Self)
        ensures
            r.wf(),
            r@.base == base_path@,
            r@.cache == Map::<Seq<char>, Seq<char>>::empty(),
            r@.limit == DEFAULT_MAX_FILE_SIZE as nat,
    {
        Self::with_limit(base_path, DEFAULT_MAX_FILE_SIZE)
    }

    /// An empty store over `base_path` that accepts files of at most
    /// `max_file_size` bytes.
    pub fn with_limit(base_path: String, max_file_size: usize) -> (r: Self)
        ensures
            r.wf(),
            r@.base == base_path@,
            r@.cache == Map::<Seq<char>, Seq<char>>::empty(),
            r@.limit == max_file_size as nat,
    {
        FileProcessor {
            base_path,
            cache: Vec::new(),
            max_file_size,
            cache_map: Ghost(Map::empty()),
        }
    }

    fn find(&self, key: &String) -> (r: Option<usize>)
        requires
            self.wf(),
        ensures
            match r {
                Some(i) => i < self.cache@.len() && self.cache@[i as int].name@ == key@,
                None => !self@.cache.contains_key(key@),
            },
    {
        let mut i: usize = 0;
        while i < self.cache.len()
            invariant
                self.wf(),
                i <= self.cache@.len(),
                forall|j: int| 0 <= j < i ==> self.cache@[j].name@ != key@,
            decreases self.cache@.len() - i,
        {
            if self.cache[i].name == *key {
                return Some(i);
            }
            i = i + 1;
        }
        proof {
            if self@.cache.contains_key(key@) {
                assert(self.cache_map@.contains_key(key@));
                let w = choose|w: int| 0 <= w < self.cache@.len() && (#[trigger] self.cache@[w]).name@ == key@;
                assert(self.cache@[w].name@ != key@);
            }
        }
        None
    }

    fn store(&mut self, key: String, content: String)
        requires
            old(self).wf(),
            valid_name(key@),
            byte_len(content@) <= old(self)@.limit,
        ensures
            final(self).wf(),
            final(self)@ == (StoreView { cache: old(self)@.cache.insert(key@, content@), ..old(self)@ }),
    {
        let size = byte_size(content.as_str());
        let ghost k = key@;
        let ghost c = content@;
        let found = self.find(&key);
        let entry = CachedEntry { name: key, content, size };
        match found {
            Some(i) => {
                self.cache.set(i, entry);
            },
            None => {
                self.cache.push(entry);
            },
        }
        proof {
            self.cache_map@ = self.cache_map@.insert(k, c);
            let n = self.cache@.len();
            assert forall|q: Seq<char>| #[trigger] self.cache_map@.contains_key(q) implies exists|j: int|
                0 <= j < n && (#[trigger] self.cache@[j]).name@ == q by {
                if q == k {
                    match found {
                        Some(i) => { assert(self.cache@[i as int].name@ == q); },
                        None => { assert(self.cache@[n - 1].name@ == q); },
                    }
                } else {
                    let w = choose|w: int| 0 <= w < old(self).cache@.len() && (#[trigger] old(self).cache@[w]).name@ == q;
                    assert(self.cache@[w].name@ == q);
                }
            }
        }
        assert(self@.cache =~= old(self)@.cache.insert(k, c));
    }

    fn evict(&mut self, key: &String)
        requires
            old(self).wf(),
        ensures
            final(self).wf(),
            final(self)@ == (StoreView { cache: old(self)@.cache.remove(key@), ..old(self)@ }),
    {
        let found = self.find(key);
        if let Some(i) = found {
            let ghost before = self.cache@;
            self.cache.swap_remove(i);
            proof {
                self.cache_map@ = self.cache_map@.remove(key@);
                let n = before.len();
                assert forall|j: int| 0 <= j < self.cache@.len() implies self.cache@[j].name@ != key@ by {
                    if j == i as int {
                        assert(self.cache@[j] == before[n - 1]);
                    } else {
                        assert(self.cache@[j] == before[j]);
                    }
                }
                assert forall|q: Seq<char>| #[trigger] self.cache_map@.contains_key(q) implies exists|j: int|
                    0 <= j < self.cache@.len() && (#[trigger] self.cache@[j]).name@ == q by {
                    let w = choose|w: int| 0 <= w < n && (#[trigger] before[w]).name@ == q;
                    if w == n - 1 {
                        assert(self.cache@[i as int].name@ == q);
                    } else {
                        assert(self.cache@[w].name@ == q);
                    }
                }
            }
        }
        assert(self@.cache =~= old(self)@.cache.remove(key@));
    }

    fn join(&self, name: &str) -> (r: String)
        ensures
            r@ == path_of(self@.base, name@),
    {
        let mut p = self.base_path.clone();
        proof { reveal_strlit("/"); }
        p.append("/");
        p.append(name);
        p
    }

    /// The path of the file `name`, or `PermissionDenied` where the name
    /// would reach outside the base directory.
    pub fn file_path(&self, name: &str) -> (r: Result<String, ServiceError>)
        ensures
            valid_name(name@) ==> (r matches Ok(p) && p@ == path_of(self@.base, name@)),
            !valid_name(name@) ==> denied(r, name@),
    {
        if is_valid_name(name) {
            Ok(self.join(name))
        } else {
            Err(ServiceError::PermissionDenied { key: String::from_str(name) })
        }
    }

    /// First step of a read: a cached name is answered from the cache without
    /// touching the disk; any other valid name is to be loaded from its path.
    pub fn begin_read(&self, name: &str) -> (r: Result<ReadPlan, ServiceError>)
        requires
            self.wf(),
        ensures
            self@.cache.contains_key(name@) ==> (r matches Ok(ReadPlan::Cached(c))
                && c@ == self@.cache[name@]),
            !self@.cache.contains_key(name@) && valid_name(name@) ==> (r matches Ok(
                ReadPlan::Load(p),
            ) && p@ == path_of(self@.base, name@)),
            !self@.cache.contains_key(name@) && !valid_name(name@) ==> denied(r, name@),
    {
        let key = String::from_str(name);
        match self.find(&key) {
            Some(i) => Ok(ReadPlan::Cached(self.cache[i].content.clone())),
            None => match self.file_path(name) {
                Ok(p) => Ok(ReadPlan::Load(p)),
                Err(e) => Err(e),
            },
        }
    }

    /// Second step of a read, before the body is read: a file of `actual`
    /// bytes is refused with `TooLarge` when it exceeds the limit.
    pub fn check_size(&self, actual: u64) -> (r: Result<(), ServiceError>)
        ensures
            actual <= self@.limit ==> r is Ok,
            actual > self@.limit ==> r == Err::<(), ServiceError>(
                ServiceError::TooLarge { actual, limit: self@.limit as u64 },
            ),
    {
        if actual > self.max_file_size as u64 {
            Err(ServiceError::TooLarge { actual, limit: self.max_file_size as u64 })
        } else {
            Ok(())
        }
    }

    /// Last step of a read: takes what was read from disk for `name`. Text
    /// that is valid and within the limit is cached and returned; a failure
    /// is passed on; in every failing case the cache is left as it was.
    pub fn finish_read(&mut self, name: &str, loaded: Result<String, ServiceError>) -> (r: Result<
        String,
        ServiceError,
    >)
        requires
            old(self).wf(),
        ensures
            final(self).wf(),
            match loaded {
                Err(e) => r == Err::<String, ServiceError>(e) && final(self)@ == old(self)@,
                Ok(c) => if !valid_name(name@) {
                    final(self)@ == old(self)@ && denied(r, name@)
                } else if byte_len(c@) > old(self)@.limit {
                    final(self)@ == old(self)@ && r == Err::<String, ServiceError>(
                        ServiceError::TooLarge {
                            actual: byte_len(c@) as u64,
                            limit: old(self)@.limit as u64,
                        },
                    )
                } else {
                    final(self)@ == old(self)@.loaded(name@, c@) && (r matches Ok(t) && t@ == c@)
                },
            },
    {
        match loaded {
            Err(e) => Err(e),
            Ok(content) => {
                if !is_valid_name(name) {
                    return Err(ServiceError::PermissionDenied { key: String::from_str(name) });
                }
                let size = byte_size(content.as_str());
                if size > self.max_file_size {
                    return Err(ServiceError::TooLarge { actual: size as u64, limit: self.max_file_size as u64 });
                }
                let result = content.clone();
                self.store(String::from_str(name), content);
                Ok(result)
            },
        }
    }

    /// First step of a write: the temporary path, in a directory of the
    /// store's own below the base directory, that the body is written to, and
    /// the path it is then renamed to, so that a failure part way never leaves
    /// a partial body under the name.
    pub fn prepare_write(&self, name: &str) -> (r: Result<WritePlan, ServiceError>)
        ensures
            valid_name(name@) ==> (r matches Ok(plan) && plan.final_path@ == path_of(self@.base, name@)
                && plan.temp_dir@ == temp_dir_of(self@.base) && plan.temp_path@ == temp_path_of(
                self@.base,
                name@,
            )),
            !valid_name(name@) ==> denied(r, name@),
    {
        if !is_valid_name(name) {
            return Err(ServiceError::PermissionDenied { key: String::from_str(name) });
        }
        let final_path = self.join(name);
        let mut temp_dir = self.base_path.clone();
        proof {
            reveal_strlit("/.tmp");
            reveal_strlit("/");
        }
        temp_dir.append("/.tmp");
        assert(temp_dir@ =~= temp_dir_of(self@.base));
        let mut temp_path = temp_dir.clone();
        temp_path.append("/");
        temp_path.append(name);
        assert(temp_path@ =~= temp_path_of(self@.base, name@));
        Ok(WritePlan { temp_dir, temp_path, final_path })
    }

    /// Last step of a write: takes the outcome of writing and renaming. On
    /// success the cache holds the new content, or, when it is over the
    /// limit, no longer holds the name; on failure nothing changes.
    pub fn commit_write(&mut self, name: &str, content: String, outcome: Result<(), ServiceError>) -> (r:
        Result<(), ServiceError>)
        requires
            old(self).wf(),
        ensures
            final(self).wf(),
            outcome is Err ==> r == outcome && final(self)@ == old(self)@,
            outcome is Ok && !valid_name(name@) ==> final(self)@ == old(self)@ && denied(r, name@),
            outcome is Ok && valid_name(name@) ==> r is Ok
                && final(self)@ == old(self)@.written(name@, content@),
    {
        match outcome {
            Err(e) => Err(e),
            Ok(()) => {
                if !is_valid_name(name) {
                    return Err(ServiceError::PermissionDenied { key: String::from_str(name) });
                }
                let key = String::from_str(name);
                if byte_size(content.as_str()) <= self.max_file_size {
                    self.store(key, content);
                } else {
                    self.evict(&key);
                }
                Ok(())
            },
        }
    }

    /// Last step of a delete: the name leaves the cache whatever the
    /// filesystem said, and its outcome is passed on.
    pub fn finish_delete(&mut self, name: &str, outcome: Result<(), ServiceError>) -> (r: Result<
        (),
        ServiceError,
    >)
        requires
            old(self).wf(),
        ensures
            final(self).wf(),
            final(self)@ == old(self)@.forgotten(name@),
            r == outcome,
    {
        let key = String::from_str(name);
        self.evict(&key);
        outcome
    }

    /// Rewrites `content` to upper case, with `_` for each space and the two
    /// characters `\n` for each line break.
    pub fn transform_content(&self, content: &str) -> (r: String)
        ensures
            r@ == transformed(content@),
    {
        let upper = to_upper(content);
        proof {
            reveal_strlit(" ");
            reveal_strlit("_");
            reveal_strlit("\n");
            reveal_strlit("\\n");
            assert(" "@ =~= seq![' ']);
            assert("_"@ =~= seq!['_']);
            assert("\n"@ =~= seq!['\n']);
            assert("\\n"@ =~= seq!['\\', 'n']);
        }
        let spaced = replace_text(upper.as_str(), " ", "_");
        replace_text(spaced.as_str(), "\n", "\\n")
    }

    /// Assembles the results of a batch from what each read gave, in the order
    /// of the input: every name gets its own outcome, a failed read does not
    /// stop the others, and each content is run through `pipeline`.
    pub fn process_batch_results(reads: &Vec<(String, Result<String, ServiceError>)>, pipeline: &DataProcessor) -> (r:
        Vec<BatchItem>)
        ensures
            r@.len() == reads@.len(),
            forall|i: int|
                0 <= i < reads@.len() ==> (#[trigger] r@[i]).name@ == reads@[i].0@ && batch_outcome(
                    pipeline@,
                    reads@[i].1,
                    r@[i].outcome,
                ),
    {
        let mut out: Vec<BatchItem> = Vec::new();
        let mut i: usize = 0;
        while i < reads.len()
            invariant
                i <= reads@.len(),
                out@.len() == i,
                forall|j: int|
                    0 <= j < i ==> (#[trigger] out@[j]).name@ == reads@[j].0@ && batch_outcome(
                        pipeline@,
                        reads@[j].1,
                        out@[j].outcome,
                    ),
            decreases reads@.len() - i,
        {
            let (name, read) = &reads[i];
            let outcome = match read {
                Ok(c) => Ok(pipeline.process(c.as_str())),
                Err(e) => Err(e.duplicate()),
            };
            out.push(BatchItem { name: name.clone(), outcome });
            i = i + 1;
        }
        out
    }

    /// The names of a directory listing that the store can address, as
    /// fresh strings: regular files with valid text names, in the order given.
    pub fn list_names(entries: &Vec<ListedEntry>) -> (r: Vec<String>)
        ensures
            r@.map_values(|n: String| n@) == shown(entries@),
    {
        let mut out: Vec<String> = Vec::new();
        let mut i: usize = 0;
        while i < entries.len()
            invariant
                i <= entries@.len(),
                out@.map_values(|n: String| n@) == shown(entries@.subrange(0, i as int)),
            decreases entries@.len() - i,
        {
            let e = &entries[i];
            let ghost pre = entries@.subrange(0, i as int + 1);
            assert(pre.drop_last() =~= entries@.subrange(0, i as int));
            let ghost before = out@;
            if let Some(n) = &e.name {
                if e.is_file && is_valid_name(n.as_str()) {
                    out.push(n.clone());
                    assert(out@.map_values(|n: String| n@) =~= before.map_values(|n: String| n@).push(n@));
                }
            }
            i = i + 1;
        }
        assert(entries@.subrange(0, i as int) =~= entries@);
        out
    }

    /// The directory the store works in.
    pub fn base_path(&self) -> (r: &str)
        ensures
            r@ == self@.base,
    {
        self.base_path.as_str()
    }

    /// The largest file, in bytes, that the store accepts.
    pub fn max_file_size(&self) -> (r: usize)
        ensures
            r == self@.limit,
    {
        self.max_file_size
    }
}

} // verus!
