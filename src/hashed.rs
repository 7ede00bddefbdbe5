//! Extraction from the hashed object store: where each indexed object is
//! stored, and where its copy goes.

use crate::error::ExtractError;
use crate::path::{join, path_join};
use vstd::prelude::*;

verus! {

/// The folder of the object store that holds an object: the first two
/// characters of its hash.
pub open spec fn bucket(hash: Seq<char>) -> Seq<char> {
    hash.take(2)
}

/// Where an object lies below the store's `objects` folder.
pub open spec fn storage_path(hash: Seq<char>) -> Seq<char> {
    bucket(hash) + seq!['/'] + hash
}

/// An ASCII hexadecimal digit.
pub open spec fn is_hex_digit(c: char) -> bool {
    ('0' <= c && c <= '9') || ('a' <= c && c <= 'f') || ('A' <= c && c <= 'F')
}

/// A hash names an object: hexadecimal digits, at least two of them.
pub open spec fn valid_hash(hash: Seq<char>) -> bool {
    hash.len() >= 2 && forall|i: int| 0 <= i < hash.len() ==> is_hex_digit(#[trigger] hash[i])
}

/// True when `c` is an ASCII hexadecimal digit.
fn hex_digit(c: char) -> (r: bool)
    ensures
        r == is_hex_digit(c),
{
    ('0' <= c && c <= '9') || ('a' <= c && c <= 'f') || ('A' <= c && c <= 'F')
}

/// An object's place in the store: for every hash of at least two
/// characters, its bucket is the hash's first two characters, and it lies
/// at `<bucket>/<hash>`.
pub proof fn lemma_storage_path(hash: Seq<char>)
    requires
        hash.len() >= 2,
    ensures
        bucket(hash).len() == 2,
        bucket(hash) == hash.subrange(0, 2),
        storage_path(hash) == bucket(hash) + seq!['/'] + hash,
        storage_path(hash).len() == hash.len() + 3,
        storage_path(hash)[2] == '/',
        storage_path(hash).subrange(3, storage_path(hash).len() as int) == hash,
{
    let s = storage_path(hash);
    assert(s.subrange(3, s.len() as int) =~= hash);
}

/// Information about a hashed file: its hash, which names it in the store,
/// and its size in bytes.
pub struct Object {
    hashed_file_name: String,
    size: u64,
}

impl View for Object {
    /// The hash and the size.
    type V = (Seq<char>, u64);

    closed spec fn view(&self) -> (Seq<char>, u64) {
        (self.hashed_file_name@, self.size)
    }
}

impl Object {
    #[verifier::type_invariant]
    spec fn hash_valid(&self) -> bool {
        valid_hash(self.hashed_file_name@)
    }

    /// The object with this hash and size; `None` where the hash is not a
    /// valid one: hexadecimal digits, at least two of them.
    pub fn new(hash: String, size: u64) -> (r: Option<Object>)
        ensures
            r is Some <==> valid_hash(hash@),
            r matches Some(o) ==> o@ == (hash@, size),
    {
        let n = hash.as_str().unicode_len();
        if n < 2 {
            return None;
        }
        let mut i: usize = 0;
        while i < n
            invariant
                i <= n,
                n == hash@.len(),
                forall|k: int| 0 <= k < i ==> is_hex_digit(#[trigger] hash@[k]),
            decreases n - i,
        {
            if !hex_digit(hash.as_str().get_char(i)) {
                return None;
            }
            i = i + 1;
        }
        Some(Object { hashed_file_name: hash, size })
    }

    /// The hash.
    pub fn hashed_file_name(&self) -> (r: &String)
        ensures
            r@ == self@.0,
    {
        &self.hashed_file_name
    }

    /// The size in bytes.
    pub fn size(&self) -> (r: u64)
        ensures
            r == self@.1,
    {
        self.size
    }

    /// The name of the folder, inside `objects`, that holds the file: the
    /// first two characters of the hash.
    pub fn parent_dir(&self) -> (r: String)
        ensures
            r@ == bucket(self@.0),
            r@ == self@.0.subrange(0, 2),
            r@.len() == 2,
            valid_hash(self@.0),
    {
        proof {
            use_type_invariant(self);
        }
        let first_two = self.hashed_file_name.as_str().substring_char(0, 2);
        assert(first_two@ =~= bucket(self@.0));
        first_two.to_owned()
    }

    /// The path to the hashed file within the `objects` folder.
    pub fn hashed_file_path(&self) -> (r: String)
        ensures
            r@ == storage_path(self@.0),
            r@ == self@.0.take(2) + seq!['/'] + self@.0,
    {
        let mut r = self.parent_dir();
        let sep = "/";
        proof {
            reveal_strlit("/");
            assert(sep@ =~= seq!['/']);
        }
        r.append(sep);
        r.append(self.hashed_file_name.as_str());
        r
    }
}

/// No two entries share a logical path.
pub open spec fn unique_paths(entries: Seq<(Seq<char>, (Seq<char>, u64))>) -> bool {
    forall|i: int, j: int|
        0 <= i < j < entries.len() ==> #[trigger] entries[i].0 != #[trigger] entries[j].0
}

/// The contents of an index file: each logical path below `assets` with
/// the object stored for it, in the order the entries were added. No two
/// entries share a path.
pub struct IndexFile {
    objects: Vec<(String, Object)>,
}

impl View for IndexFile {
    /// Logical path, then the object's hash and size, for each entry.
    type V = Seq<(Seq<char>, (Seq<char>, u64))>;

    closed spec fn view(&self) -> Seq<(Seq<char>, (Seq<char>, u64))> {
        entries_view(self.objects@)
    }
}

/// Logical path, hash and size of each entry.
spec fn entries_view(objects: Seq<(String, Object)>) -> Seq<(Seq<char>, (Seq<char>, u64))> {
    objects.map_values(|e: (String, Object)| (e.0@, e.1@))
}

impl IndexFile {
    #[verifier::type_invariant]
    spec fn paths_unique(&self) -> bool {
        unique_paths(self@)
    }

    /// An index with no entry.
    pub fn new() -> (r: IndexFile)
        ensures
            r@ == Seq::<(Seq<char>, (Seq<char>, u64))>::empty(),
    {
        let r = IndexFile { objects: Vec::new() };
        assert(r@ =~= Seq::<(Seq<char>, (Seq<char>, u64))>::empty());
        r
    }

    /// Records `object` for `path`: it replaces the object of the entry
    /// that has this path already, and is added at the end otherwise.
    pub fn insert(&mut self, path: String, object: Object)
        ensures
            forall|k: int|
                0 <= k < old(self)@.len() && #[trigger] old(self)@[k].0 == path@ ==> final(self)@
                    == old(self)@.update(k, (path@, object@)),
            (forall|k: int| 0 <= k < old(self)@.len() ==> old(self)@[k].0 != path@) ==> final(self)@
                == old(self)@.push((path@, object@)),
            unique_paths(final(self)@),
    {
        proof {
            use_type_invariant(&*self);
        }
        let ghost before = self@;
        let mut objects: Vec<(String, Object)> = Vec::new();
        std::mem::swap(&mut objects, &mut self.objects);
        assert(entries_view(objects@) == before);
        let mut i: usize = 0;
        let mut found = false;
        while i < objects.len()
            invariant_except_break
                !found,
            invariant
                i <= objects.len(),
                entries_view(objects@) == before,
                unique_paths(before),
                forall|k: int| 0 <= k < i ==> before[k].0 != path@,
            ensures
                found ==> i < objects.len() && before[i as int].0 == path@,
                !found ==> forall|k: int| 0 <= k < before.len() ==> before[k].0 != path@,
                entries_view(objects@) == before,
            decreases objects.len() - i,
        {
            if objects[i].0 == path {
                assert(before[i as int].0 == path@);
                found = true;
                break;
            }
            i = i + 1;
        }
        let ghost entry = (path@, object@);
        if found {
            objects.set(i, (path, object));
            assert(entries_view(objects@) =~= before.update(i as int, entry));
            assert forall|a: int, b: int|
                0 <= a < b < objects@.len() implies #[trigger] entries_view(objects@)[a].0
                != #[trigger] entries_view(objects@)[b].0 by {
                assert(before[a].0 != before[b].0);
            }
        } else {
            objects.push((path, object));
            assert(entries_view(objects@) =~= before.push(entry));
        }
        std::mem::swap(&mut objects, &mut self.objects);
    }

    /// The number of entries.
    pub fn len(&self) -> (r: usize)
        ensures
            r == self@.len(),
    {
        self.objects.len()
    }

    /// The logical path of the entry at `i`.
    pub fn path_at(&self, i: usize) -> (r: &String)
        requires
            i < self@.len(),
        ensures
            r@ == self@[i as int].0,
    {
        &self.objects[i].0
    }

    /// The object of the entry at `i`.
    pub fn object_at(&self, i: usize) -> (r: &Object)
        requires
            i < self@.len(),
        ensures
            r@ == self@[i as int].1,
    {
        &self.objects[i].1
    }
}

/// One copy of a hashed extraction: the object stored at `source` is
/// written to `target`, the file of `logical_path` below the output folder.
pub struct CopyJob {
    pub logical_path: String,
    pub source: String,
    pub target: String,
}

/// The copy for an index entry with this `path` and `hash`.
pub open spec fn copy_for(
    objects_dir: Seq<char>,
    output_dir: Seq<char>,
    path: Seq<char>,
    hash: Seq<char>,
) -> (Seq<char>, Seq<char>, Seq<char>) {
    (path, path_join(objects_dir, storage_path(hash)), path_join(output_dir, path))
}

impl View for CopyJob {
    /// Logical path, source and target.
    type V = (Seq<char>, Seq<char>, Seq<char>);

    open spec fn view(&self) -> (Seq<char>, Seq<char>, Seq<char>) {
        (self.logical_path@, self.source@, self.target@)
    }
}

/// The copies that extract every entry of `index`, one per entry and in the
/// index's order: each object, found below `objects_dir`, goes to its
/// logical path below `output_dir`.
pub fn plan_copies(index: &IndexFile, objects_dir: &str, output_dir: &str) -> (r: Vec<CopyJob>)
    ensures
        r@.len() == index@.len(),
        forall|i: int|
            0 <= i < r@.len() ==> #[trigger] r@[i]@ == copy_for(
                objects_dir@,
                output_dir@,
                index@[i].0,
                index@[i].1.0,
            ),
{
    let mut r: Vec<CopyJob> = Vec::new();
    let mut i: usize = 0;
    while i < index.len()
        invariant
            i <= index@.len(),
            r@.len() == i,
            forall|k: int|
                0 <= k < i ==> #[trigger] r@[k]@ == copy_for(
                    objects_dir@,
                    output_dir@,
                    index@[k].0,
                    index@[k].1.0,
                ),
        decreases index@.len() - i,
    {
        let path = index.path_at(i);
        let stored = index.object_at(i).hashed_file_path();
        let job = CopyJob {
            logical_path: path.clone(),
            source: join(objects_dir, stored.as_str()),
            target: join(output_dir, path.as_str()),
        };
        r.push(job);
        i = i + 1;
    }
    r
}

/// How the copy of one entry went.
#[derive(Clone, Copy, PartialEq, Eq, Debug, Structural)]
pub enum CopyOutcome {
    /// The object was read and its copy written.
    Copied,
    /// The object could not be read; the entry was skipped.
    ReadFailed,
    /// The object was read but its copy could not be written.
    WriteFailed,
}

/// Where a hashed extraction stands: of `total` entries, `attempted` were
/// tried so far, of which `copied` succeeded, `skipped` could not be read and
/// `failed` could not be written.
#[derive(Clone, Copy, PartialEq, Eq, Debug, Structural)]
pub struct HashedProgress {
    pub total: usize,
    pub attempted: usize,
    pub copied: usize,
    pub skipped: usize,
    pub failed: usize,
}

/// The progress after the outcomes `outcomes`, from a start with `total`
/// entries.
pub open spec fn progress_after(total: usize, outcomes: Seq<CopyOutcome>) -> HashedProgress
    decreases outcomes.len(),
{
    if outcomes.len() == 0 {
        HashedProgress { total, attempted: 0, copied: 0, skipped: 0, failed: 0 }
    } else {
        let p = progress_after(total, outcomes.drop_last());
        recorded(p, outcomes.last())
    }
}

/// `p` with one more entry tried, which ended in `outcome`.
pub open spec fn recorded(p: HashedProgress, outcome: CopyOutcome) -> HashedProgress {
    HashedProgress {
        attempted: (p.attempted + 1) as usize,
        copied: if outcome == CopyOutcome::Copied {
            (p.copied + 1) as usize
        } else {
            p.copied
        },
        skipped: if outcome == CopyOutcome::ReadFailed {
            (p.skipped + 1) as usize
        } else {
            p.skipped
        },
        failed: if outcome == CopyOutcome::WriteFailed {
            (p.failed + 1) as usize
        } else {
            p.failed
        },
        ..p
    }
}

impl HashedProgress {
    /// The counts are consistent: every attempt has one outcome, and no
    /// more entries were tried than there are.
    pub open spec fn wf(&self) -> bool {
        self.copied + self.skipped + self.failed == self.attempted && self.attempted <= self.total
    }

    /// The start of an extraction of `total` entries.
    pub fn new(total: usize) -> (r: HashedProgress)
        ensures
            r == progress_after(total, seq![]),
            r.wf(),
    {
        HashedProgress { total, attempted: 0, copied: 0, skipped: 0, failed: 0 }
    }

    /// True when every entry has been tried.
    pub fn is_done(&self) -> (r: bool)
        ensures
            r == (self.attempted == self.total),
    {
        self.attempted == self.total
    }

    /// The progress event shown before the next attempt: its number,
    /// counting from one, and the total.
    pub fn position(&self) -> (r: (usize, usize))
        requires
            self.attempted < self.total,
        ensures
            r == ((self.attempted + 1) as usize, self.total),
    {
        (self.attempted + 1, self.total)
    }

    /// Counts one more attempt, which ended in `outcome`. No outcome ends
    /// the extraction early: the next entry is tried whatever happened.
    pub fn record(&mut self, outcome: CopyOutcome)
        requires
            old(self).wf(),
            old(self).attempted < old(self).total,
        ensures
            *final(self) == recorded(*old(self), outcome),
            final(self).wf(),
    {
        self.attempted = self.attempted + 1;
        match outcome {
            CopyOutcome::Copied => self.copied = self.copied + 1,
            CopyOutcome::ReadFailed => self.skipped = self.skipped + 1,
            CopyOutcome::WriteFailed => self.failed = self.failed + 1,
        }
    }
}

/// Every entry is tried, whatever becomes of the others: after `outcomes`,
/// one per entry tried, from a start with `total` entries, exactly
/// `outcomes.len()` attempts are counted, each under one outcome, and after
/// `total` of them the extraction is done.
pub proof fn lemma_every_entry_attempted(total: usize, outcomes: Seq<CopyOutcome>)
    requires
        outcomes.len() <= total,
    ensures
        progress_after(total, outcomes).wf(),
        progress_after(total, outcomes).total == total,
        progress_after(total, outcomes).attempted == outcomes.len(),
        outcomes.len() == total ==> progress_after(total, outcomes).attempted == total,
    decreases outcomes.len(),
{
    if outcomes.len() > 0 {
        lemma_every_entry_attempted(total, outcomes.drop_last());
    }
}

/// A missing object stops only its own entry: when of the outcomes one, at
/// `missing`, is a failed read and all others are copies, every other
/// entry is copied.
pub proof fn lemma_one_missing_object(total: usize, outcomes: Seq<CopyOutcome>, missing: int)
    requires
        outcomes.len() <= total,
        0 <= missing < outcomes.len(),
        outcomes[missing] == CopyOutcome::ReadFailed,
        forall|i: int|
            0 <= i < outcomes.len() && i != missing ==> outcomes[i] == CopyOutcome::Copied,
    ensures
        progress_after(total, outcomes).copied == outcomes.len() - 1,
        progress_after(total, outcomes).skipped == 1,
        progress_after(total, outcomes).failed == 0,
    decreases outcomes.len(),
{
    lemma_every_entry_attempted(total, outcomes);
    let before = outcomes.drop_last();
    if missing < outcomes.len() - 1 {
        lemma_one_missing_object(total, before, missing);
    } else {
        lemma_all_copied(total, before);
    }
}

/// Where every outcome is a copy, every entry tried was copied.
proof fn lemma_all_copied(total: usize, outcomes: Seq<CopyOutcome>)
    requires
        outcomes.len() <= total,
        forall|i: int| 0 <= i < outcomes.len() ==> outcomes[i] == CopyOutcome::Copied,
    ensures
        progress_after(total, outcomes).copied == outcomes.len(),
        progress_after(total, outcomes).skipped == 0,
        progress_after(total, outcomes).failed == 0,
    decreases outcomes.len(),
{
    lemma_every_entry_attempted(total, outcomes);
    if outcomes.len() > 0 {
        lemma_all_copied(total, outcomes.drop_last());
    }
}

/// Where to find the index file.
pub enum IndexFileLocation {
    /// A path to the index file itself.
    File(String),
    /// The name of the index's version: `24` for `indexes/24.json`.
    Version(String),
}

impl IndexFileLocation {
    /// `input` read as a location: the path of a file where a file exists
    /// there (`is_file`), the name of a version otherwise.
    pub fn parse(input: &str, is_file: bool) -> (r: IndexFileLocation)
        ensures
            is_file ==> (r matches IndexFileLocation::File(p) && p@ == input@),
            !is_file ==> (r matches IndexFileLocation::Version(v) && v@ == input@),
    {
        if is_file {
            IndexFileLocation::File(input.to_owned())
        } else {
            IndexFileLocation::Version(input.to_owned())
        }
    }
}

/// The folder of index files below the store's root `input_dir`.
pub open spec fn indexes_dir(input_dir: Seq<char>) -> Seq<char> {
    path_join(input_dir, "indexes"@)
}

/// The folder of objects below the store's root `input_dir`.
pub open spec fn objects_dir(input_dir: Seq<char>) -> Seq<char> {
    path_join(input_dir, "objects"@)
}

/// The index file of version `label` in the folder `indexes`.
pub open spec fn index_file_for(indexes: Seq<char>, label: Seq<char>) -> Seq<char> {
    path_join(indexes, label + ".json"@)
}

/// The index file of version `label` in the folder `indexes`.
pub fn index_file_path(indexes: &str, label: &str) -> (r: String)
    ensures
        r@ == index_file_for(indexes@, label@),
{
    let mut name = label.to_owned();
    name.append(".json");
    join(indexes, name.as_str())
}

/// Where hashed assets go: the output folder itself with
/// `ignore_top_level`, its `assets` folder otherwise.
pub open spec fn hashed_output(output_dir: Seq<char>, ignore_top_level: bool) -> Seq<char> {
    if ignore_top_level {
        output_dir
    } else {
        path_join(output_dir, "assets"@)
    }
}

/// Where hashed assets go (see `hashed_output`).
pub fn hashed_output_dir(output_dir: &str, ignore_top_level: bool) -> (r: String)
    ensures
        r@ == hashed_output(output_dir@, ignore_top_level),
{
    if ignore_top_level {
        output_dir.to_owned()
    } else {
        join(output_dir, "assets")
    }
}

/// The extraction of hashed assets: from which store, with which index.
pub struct HashedSubcommand {
    /// The store's root folder; where absent, the default one is used.
    pub hashed_assets_dir: Option<String>,
    /// The index to use; where absent, the last one the index folder lists.
    pub index: Option<IndexFileLocation>,
}

/// The index file to try for `index`, with the store's root `input_dir`
/// and `listing`, the names in the index folder in the order it lists them.
pub open spec fn index_candidate(
    index: Option<IndexFileLocation>,
    input_dir: Seq<char>,
    listing: Seq<Seq<char>>,
) -> Option<Seq<char>> {
    match index {
        Some(IndexFileLocation::File(p)) => Some(p@),
        Some(IndexFileLocation::Version(v)) => Some(index_file_for(indexes_dir(input_dir), v@)),
        None => if listing.len() == 0 {
            None
        } else {
            Some(path_join(indexes_dir(input_dir), listing.last()))
        },
    }
}

impl HashedSubcommand {
    /// The store's root folder to use: the one given, else `default_dir`.
    pub fn input_dir(&self, default_dir: Option<String>) -> (r: Option<String>)
        ensures
            self.hashed_assets_dir is Some ==> r.deep_view() == self.hashed_assets_dir.deep_view(),
            self.hashed_assets_dir is None ==> r.deep_view() == default_dir.deep_view(),
    {
        match &self.hashed_assets_dir {
            Some(dir) => Some(dir.clone()),
            None => default_dir,
        }
    }

    /// The store's root folder, where `candidate_is_dir` tells whether the
    /// folder that `input_dir` picks exists; the run fails without one.
    pub fn resolve_input_dir(&self, default_dir: Option<String>, candidate_is_dir: bool) -> (r:
        Result<String, ExtractError>)
        ensures
            ({
                let c = if self.hashed_assets_dir is Some {
                    self.hashed_assets_dir.deep_view()
                } else {
                    default_dir.deep_view()
                };
                &&& c is Some && candidate_is_dir ==> (r matches Ok(d) && Some(d@) == c)
                &&& !(c is Some && candidate_is_dir) ==> (r matches Err(
                    ExtractError::MissingHashedAssetsDir,
                ))
            }),
    {
        match self.input_dir(default_dir) {
            Some(dir) => {
                if candidate_is_dir {
                    Ok(dir)
                } else {
                    Err(ExtractError::MissingHashedAssetsDir)
                }
            },
            None => Err(ExtractError::MissingHashedAssetsDir),
        }
    }

    /// The index file to try (see `index_candidate`).
    pub fn index_candidate(&self, input_dir: &str, listing: &Vec<String>) -> (r: Option<String>)
        ensures
            r.deep_view() == index_candidate(self.index, input_dir@, listing.deep_view()),
    {
        match &self.index {
            Some(IndexFileLocation::File(p)) => Some(p.clone()),
            Some(IndexFileLocation::Version(v)) => {
                let indexes = join(input_dir, "indexes");
                Some(index_file_path(indexes.as_str(), v.as_str()))
            },
            None => {
                if listing.len() == 0 {
                    None
                } else {
                    let indexes = join(input_dir, "indexes");
                    Some(join(indexes.as_str(), listing[listing.len() - 1].as_str()))
                }
            },
        }
    }

    /// The index file to read, where `candidate_is_file` tells whether a
    /// file exists at the candidate. A path given as a file is taken as it
    /// is; a version's index, or the last one listed, must exist, and where
    /// it does not the error names the path that was looked for.
    pub fn index_file(&self, input_dir: &str, listing: &Vec<String>, candidate_is_file: bool) -> (r:
        Result<String, ExtractError>)
        ensures
            ({
                let c = index_candidate(self.index, input_dir@, listing.deep_view());
                &&& (self.index matches Some(IndexFileLocation::File(_))) ==> (r matches Ok(p)
                    && Some(p@) == c)
                &&& !(self.index matches Some(IndexFileLocation::File(_))) && c is Some
                    && candidate_is_file ==> (r matches Ok(p) && Some(p@) == c)
                &&& !(self.index matches Some(IndexFileLocation::File(_))) && c is Some
                    && !candidate_is_file ==> (r matches Err(ExtractError::MissingIndexFile(p))
                    && Some(p@) == c)
                &&& c is None ==> (r matches Err(ExtractError::MissingIndexFile(p)) && p@
                    == indexes_dir(input_dir@))
            }),
    {
        let candidate = self.index_candidate(input_dir, listing);
        match candidate {
            None => Err(ExtractError::MissingIndexFile(join(input_dir, "indexes"))),
            Some(path) => {
                let given_file = match &self.index {
                    Some(IndexFileLocation::File(_)) => true,
                    _ => false,
                };
                if given_file || candidate_is_file {
                    Ok(path)
                } else {
                    Err(ExtractError::MissingIndexFile(path))
                }
            },
        }
    }

    /// The objects folder below the store's root `input_dir`.
    pub fn objects_dir(input_dir: &str) -> (r: String)
        ensures
            r@ == objects_dir(input_dir@),
    {
        join(input_dir, "objects")
    }
}

} // verus!
