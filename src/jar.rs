//! Extraction from a version archive: which entries are selected and where
//! each one lands.

use crate::error::ExtractError;
use std::io::Cursor;
use vstd::prelude::*;
use zip::result::ZipError;
use zip::ZipArchive;

verus! {

#[verifier::external_type_specification]
#[verifier::external_body]
#[verifier::reject_recursive_types(T)]
pub struct ExCursor<T>(Cursor<T>);

#[verifier::external_type_specification]
#[verifier::external_body]
#[verifier::reject_recursive_types(R)]
pub struct ExZipArchive<R>(ZipArchive<R>);

#[verifier::external_type_specification]
#[verifier::external_body]
pub struct ExZipError(ZipError);

/// What an archive read from memory.
pub type ZipBytes = ZipArchive<Cursor<Vec<u8>>>;

/// One entry of an archive, as seen by the logic: its enclosed name split
/// into components (`None` where the name is unsafe), whether it is a
/// directory, its Unix mode bits, its decompressed bytes, whether its
/// header can be opened, and whether its data decodes (and passes the
/// checksum).
pub type EntryView = (Option<Seq<Seq<char>>>, bool, Option<u32>, Seq<u8>, bool, bool);

/// True when `bytes` hold an archive whose central directory can be read.
pub uninterp spec fn zip_readable(bytes: Seq<u8>) -> bool;

/// The entries of `a`, in the order of its central directory.
pub uninterp spec fn archive_entries(a: ZipBytes) -> Seq<EntryView>;

/// The single top-level folder that holds every entry of `a`, as components,
/// where `root_dir_common_filter` finds one.
pub uninterp spec fn archive_root(a: ZipBytes) -> Option<Seq<Seq<char>>>;

/// Relies on `ZipArchive::new`: reads the central directory of an archive
/// held in memory.
#[verifier::external_body]
fn zip_open(bytes: Vec<u8>) -> (r: Result<ZipBytes, ZipError>)
    ensures
        r is Ok <==> zip_readable(bytes@),
{
    ZipArchive::new(Cursor::new(bytes))
}

/// Relies on `ZipArchive::len`: the number of entries.
#[verifier::external_body]
fn zip_len(a: &ZipBytes) -> (r: usize)
    ensures
        r == archive_entries(*a).len(),
{
    a.len()
}

/// Relies on `ZipArchive::root_dir` with `zip::read::root_dir_common_filter`:
/// the one folder that contains all other entries, if there is one. Its
/// only error, an index past the end, cannot arise.
#[verifier::external_body]
fn zip_root(a: &ZipBytes) -> (r: Result<Option<Vec<String>>, ZipError>)
    ensures
        r is Ok,
        r matches Ok(root) ==> root.deep_view() == archive_root(*a),
{
    let root = a.root_dir(zip::read::root_dir_common_filter)?;
    Ok(root.map(|p| p.components().map(|c| c.as_os_str().to_string_lossy().into_owned()).collect()))
}

/// Relies on `ZipArchive::by_index` and on `ZipFile::enclosed_name`,
/// `ZipFile::is_dir` and `ZipFile::unix_mode`: the metadata of one entry.
/// Reading it moves only the reader's position.
#[verifier::external_body]
fn zip_entry(a: &mut ZipBytes, index: usize) -> (r: Result<
    (Option<Vec<String>>, bool, Option<u32>),
    ZipError,
>)
    requires
        index < archive_entries(*old(a)).len(),
    ensures
        archive_entries(*final(a)) == archive_entries(*old(a)),
        archive_root(*final(a)) == archive_root(*old(a)),
        r is Ok <==> archive_entries(*old(a))[index as int].4,
        r matches Ok(e) ==> {
            let v = archive_entries(*old(a))[index as int];
            &&& e.0.deep_view() == v.0
            &&& e.1 == v.1
            &&& e.2 == v.2
        },
{
    let file = a.by_index(index)?;
    let name = file.enclosed_name().map(
        |p| p.components().map(|c| c.as_os_str().to_string_lossy().into_owned()).collect(),
    );
    Ok((name, file.is_dir(), file.unix_mode()))
}

/// Relies on `ZipArchive::by_index` and on reading the `ZipFile` to its end:
/// the decompressed bytes of one entry.
#[verifier::external_body]
fn zip_read(a: &mut ZipBytes, index: usize) -> (r: Result<Vec<u8>, ZipError>)
    requires
        index < archive_entries(*old(a)).len(),
    ensures
        archive_entries(*final(a)) == archive_entries(*old(a)),
        archive_root(*final(a)) == archive_root(*old(a)),
        r is Ok <==> (archive_entries(*old(a))[index as int].4 && archive_entries(
            *old(a),
        )[index as int].5),
        r matches Ok(b) ==> b@ == archive_entries(*old(a))[index as int].3,
{
    let mut file = a.by_index(index)?;
    let mut bytes = Vec::new();
    std::io::Read::read_to_end(&mut file, &mut bytes)?;
    Ok(bytes)
}

/// Which top-level folders of an archive to extract.
#[derive(Clone, Copy, PartialEq, Eq, Hash, Debug, Structural)]
pub struct ExtractedContents {
    /// Extract the `assets` folder.
    pub assets: bool,
    /// Extract the `data` folder.
    pub data: bool,
}

impl Default for ExtractedContents {
    fn default() -> (r: Self)
        ensures
            r.assets && !r.data,
    {
        ExtractedContents { assets: true, data: false }
    }
}

impl ExtractedContents {
    /// True when neither folder is selected: extraction then does nothing.
    pub fn is_empty(&self) -> (r: bool)
        ensures
            r == (!self.assets && !self.data),
    {
        !self.assets && !self.data
    }

    /// What is selected, in words.
    pub fn to_string(&self) -> (r: String)
        ensures
            r@ == selection_text(*self),
    {
        let text = if self.assets && self.data {
            "assets and data"
        } else if self.assets {
            "assets"
        } else if self.data {
            "data"
        } else {
            "nothing"
        };
        text.to_owned()
    }
}

/// The words `to_string` gives for a selection.
pub open spec fn selection_text(c: ExtractedContents) -> Seq<char> {
    if c.assets && c.data {
        "assets and data"@
    } else if c.assets {
        "assets"@
    } else if c.data {
        "data"@
    } else {
        "nothing"@
    }
}

/// The extraction of an archive: which file, and which of its folders.
pub struct JarSubcommand {
    /// The archive to extract from.
    pub jar_file: String,
    /// Which folders to extract.
    pub extracted_contents: ExtractedContents,
}

/// The name of the folder of assets.
pub open spec fn assets_folder() -> Seq<char> {
    seq!['a', 's', 's', 'e', 't', 's']
}

/// The name of the folder of data.
pub open spec fn data_folder() -> Seq<char> {
    seq!['d', 'a', 't', 'a']
}

/// True when the first component of `path` is `folder` (`Path::starts_with`
/// with a one-component prefix).
pub open spec fn starts_with_folder(path: Seq<Seq<char>>, folder: Seq<char>) -> bool {
    path.len() > 0 && path[0] == folder
}

/// `path` with the archive's root folder taken off the front, where the
/// path lies in it (`Path::strip_prefix`); otherwise `path` itself.
pub open spec fn strip_root(path: Seq<Seq<char>>, root: Option<Seq<Seq<char>>>) -> Seq<Seq<char>> {
    match root {
        Some(r) => if r.len() <= path.len() && path.take(r.len() as int) == r {
            path.skip(r.len() as int)
        } else {
            path
        },
        None => path,
    }
}

/// Where an entry at `path` lands, relative to the output folder: `None`
/// for an entry outside the selected folders. With `ignore_top_level` the
/// folder's own name is dropped.
pub open spec fn entry_output(
    path: Seq<Seq<char>>,
    root: Option<Seq<Seq<char>>>,
    selection: ExtractedContents,
    ignore_top_level: bool,
) -> Option<Seq<Seq<char>>> {
    let p = strip_root(path, root);
    if (selection.assets && starts_with_folder(p, assets_folder())) || (selection.data
        && starts_with_folder(p, data_folder())) {
        Some(
            if ignore_top_level {
                p.skip(1)
            } else {
                p
            },
        )
    } else {
        None
    }
}

/// For an entry under `assets/` with assets selected: with
/// `ignore_top_level` it lands at its path below `assets`, so it has no
/// leading `assets` component unless its own path below `assets` starts
/// with one; without it, `assets` stays its first component.
pub proof fn lemma_assets_top_level(
    path: Seq<Seq<char>>,
    root: Option<Seq<Seq<char>>>,
    selection: ExtractedContents,
    ignore_top_level: bool,
)
    requires
        selection.assets,
        starts_with_folder(strip_root(path, root), assets_folder()),
    ensures
        entry_output(path, root, selection, ignore_top_level) is Some,
        ignore_top_level ==> entry_output(path, root, selection, ignore_top_level)
            == Some(strip_root(path, root).skip(1)),
        ignore_top_level && !starts_with_folder(strip_root(path, root).skip(1), assets_folder())
            ==> !starts_with_folder(
            entry_output(path, root, selection, ignore_top_level).unwrap(),
            assets_folder(),
        ),
        !ignore_top_level ==> starts_with_folder(
            entry_output(path, root, selection, ignore_top_level).unwrap(),
            assets_folder(),
        ),
{
}

/// True when `component` reads `name`.
fn is_named(component: &String, name: &str) -> (r: bool)
    ensures
        r == (component@ == name@),
{
    let other = String::from_str(name);
    *component == other
}

/// The components of `path` from `start` on.
fn components_from(path: &Vec<String>, start: usize) -> (r: Vec<String>)
    requires
        start <= path.len(),
    ensures
        r.deep_view() == path.deep_view().skip(start as int),
{
    let mut r: Vec<String> = Vec::new();
    let mut i: usize = start;
    while i < path.len()
        invariant
            start <= i <= path.len(),
            r@.len() == i - start,
            forall|k: int| 0 <= k < r@.len() ==> #[trigger] r@[k]@ == path@[start + k]@,
        decreases path.len() - i,
    {
        r.push(path[i].clone());
        i = i + 1;
    }
    assert(r.deep_view() =~= path.deep_view().skip(start as int));
    r
}

/// How many leading components of `path` the archive's root folder covers
/// (see `strip_root`).
fn root_length(path: &Vec<String>, root: &Option<Vec<String>>) -> (r: usize)
    ensures
        r <= path.len(),
        path.deep_view().skip(r as int) == strip_root(path.deep_view(), root.deep_view()),
{
    assert(path.deep_view().skip(0) =~= path.deep_view());
    match root {
        None => 0,
        Some(prefix) => {
            if prefix.len() > path.len() {
                return 0;
            }
            let mut i: usize = 0;
            while i < prefix.len()
                invariant
                    i <= prefix.len() <= path.len(),
                    root.deep_view() == Some(prefix.deep_view()),
                    path.deep_view().skip(0) == path.deep_view(),
                    path.deep_view().take(i as int) =~= prefix.deep_view().take(i as int),
                decreases prefix.len() - i,
            {
                if path[i] != prefix[i] {
                    assert(path.deep_view().take(prefix.len() as int)[i as int]
                        != prefix.deep_view()[i as int]);
                    assert(path.deep_view().take(prefix.len() as int) != prefix.deep_view());
                    return 0;
                }
                i = i + 1;
            }
            assert(prefix.deep_view().take(prefix.len() as int) =~= prefix.deep_view());
            prefix.len()
        },
    }
}

/// True when `first`, the first component of an entry's path below the
/// root folder, names a selected folder.
fn in_selected_folder(first: &String, selection: ExtractedContents) -> (r: bool)
    ensures
        r == ((selection.assets && first@ == assets_folder()) || (selection.data && first@
            == data_folder())),
{
    proof {
        reveal_strlit("assets");
        reveal_strlit("data");
        assert("assets"@ =~= assets_folder());
        assert("data"@ =~= data_folder());
    }
    (selection.assets && is_named(first, "assets")) || (selection.data && is_named(first, "data"))
}

/// Where the entry at `path` lands, relative to the output folder, or
/// `None` where it lies outside the selected folders (see `entry_output`).
pub fn entry_output_path(
    path: &Vec<String>,
    root: &Option<Vec<String>>,
    selection: ExtractedContents,
    ignore_top_level: bool,
) -> (r: Option<Vec<String>>)
    ensures
        r.deep_view() == entry_output(path.deep_view(), root.deep_view(), selection, ignore_top_level),
{
    let skip = root_length(path, root);
    let ghost p = strip_root(path.deep_view(), root.deep_view());
    if skip >= path.len() {
        return None;
    }
    let first = &path[skip];
    assert(p[0] == first@);
    if !in_selected_folder(first, selection) {
        return None;
    }
    if ignore_top_level {
        let r = components_from(path, skip + 1);
        assert(r.deep_view() =~= p.skip(1));
        Some(r)
    } else {
        Some(components_from(path, skip))
    }
}

/// One step of an archive extraction: the entry at `index` is written to
/// `path` below the output folder, as a folder where `is_dir`, and given
/// the Unix mode bits `mode` where the archive has them.
pub struct ArchiveAction {
    pub index: usize,
    pub path: Vec<String>,
    pub is_dir: bool,
    pub mode: Option<u32>,
}

impl View for ArchiveAction {
    type V = (int, Seq<Seq<char>>, bool, Option<u32>);

    open spec fn view(&self) -> Self::V {
        (self.index as int, self.path.deep_view(), self.is_dir, self.mode)
    }
}

/// The steps that extract the selected folders of an archive with these
/// `entries`: one per entry that lies in a selected folder, in the
/// archive's order. Entries with an unsafe name are passed over.
pub open spec fn planned_actions(
    entries: Seq<EntryView>,
    root: Option<Seq<Seq<char>>>,
    selection: ExtractedContents,
    ignore_top_level: bool,
) -> Seq<(int, Seq<Seq<char>>, bool, Option<u32>)>
    decreases entries.len(),
{
    if entries.len() == 0 {
        seq![]
    } else {
        let before = planned_actions(entries.drop_last(), root, selection, ignore_top_level);
        let e = entries.last();
        match e.0 {
            Some(path) => match entry_output(path, root, selection, ignore_top_level) {
                Some(out) => before.push((entries.len() - 1, out, e.1, e.2)),
                None => before,
            },
            None => before,
        }
    }
}

/// An archive held in memory.
pub struct Archive {
    zip: ZipBytes,
}

impl Archive {
    /// The archive's entries, in order.
    pub closed spec fn entries(&self) -> Seq<EntryView> {
        archive_entries(self.zip)
    }

    /// The archive's single top-level folder, if it has one.
    pub closed spec fn root(&self) -> Option<Seq<Seq<char>>> {
        archive_root(self.zip)
    }

    /// Reads the archive whose bytes are `bytes`; fails exactly where its
    /// central directory cannot be read.
    pub fn open(bytes: Vec<u8>) -> (r: Result<Archive, ExtractError>)
        ensures
            r is Ok <==> zip_readable(bytes@),
            r matches Err(e) ==> e is Archive,
    {
        match zip_open(bytes) {
            Ok(zip) => Ok(Archive { zip }),
            Err(e) => Err(ExtractError::Archive(e)),
        }
    }

    /// The number of entries.
    pub fn len(&self) -> (r: usize)
        ensures
            r == self.entries().len(),
    {
        zip_len(&self.zip)
    }

    /// The steps that extract `selection` from the archive. With nothing
    /// selected there are none, and the archive is not read; otherwise it
    /// fails exactly where some entry cannot be opened.
    pub fn plan(&mut self, selection: ExtractedContents, ignore_top_level: bool) -> (r: Result<
        Vec<ArchiveAction>,
        ExtractError,
    >)
        ensures
            final(self).entries() == old(self).entries(),
            final(self).root() == old(self).root(),
            !selection.assets && !selection.data ==> (r matches Ok(v) && v.len() == 0),
            r matches Ok(v) ==> v@.map_values(|a: ArchiveAction| a@) == planned_actions(
                old(self).entries(),
                old(self).root(),
                selection,
                ignore_top_level,
            ),
            (selection.assets || selection.data) ==> (r is Ok <==> forall|i: int|
                0 <= i < old(self).entries().len() ==> #[trigger] old(self).entries()[i].4),
            r matches Err(e) ==> e is Archive,
    {
        let ghost entries = self.entries();
        let ghost root_view = self.root();
        if selection.is_empty() {
            proof {
                lemma_nothing_selected(entries, root_view, selection, ignore_top_level);
            }
            return Ok(Vec::new());
        }
        let root = match zip_root(&self.zip) {
            Ok(root) => root,
            Err(e) => return Err(ExtractError::Archive(e)),
        };
        let n = zip_len(&self.zip);
        let mut actions: Vec<ArchiveAction> = Vec::new();
        let mut i: usize = 0;
        assert(entries.take(0) =~= seq![]);
        while i < n
            invariant
                i <= n,
                n == entries.len(),
                self.entries() == entries,
                self.root() == root_view,
                entries == old(self).entries(),
                root_view == old(self).root(),
                selection.assets || selection.data,
                forall|k: int| 0 <= k < i ==> #[trigger] entries[k].4,
                root.deep_view() == root_view,
                actions@.map_values(|a: ArchiveAction| a@) == planned_actions(
                    entries.take(i as int),
                    root_view,
                    selection,
                    ignore_top_level,
                ),
            decreases n - i,
        {
            let entry = zip_entry(&mut self.zip, i);
            let (name, is_dir, mode) = match entry {
                Ok(e) => e,
                Err(e) => return Err(ExtractError::Archive(e)),
            };
            let ghost before = actions@.map_values(|a: ArchiveAction| a@);
            assert(entries.take(i + 1).drop_last() =~= entries.take(i as int));
            assert(entries.take(i + 1).last() == entries[i as int]);
            if let Some(path) = name {
                if let Some(out) = entry_output_path(&path, &root, selection, ignore_top_level) {
                    actions.push(ArchiveAction { index: i, path: out, is_dir, mode });
                    assert(actions@.map_values(|a: ArchiveAction| a@) =~= before.push(
                        (i as int, out.deep_view(), is_dir, mode),
                    ));
                }
            }
            i = i + 1;
        }
        assert(entries.take(n as int) =~= entries);
        Ok(actions)
    }

    /// The bytes of the entry at `index`; fails exactly where the entry
    /// cannot be opened or its data does not decode.
    pub fn contents(&mut self, index: usize) -> (r: Result<Vec<u8>, ExtractError>)
        requires
            index < old(self).entries().len(),
        ensures
            final(self).entries() == old(self).entries(),
            final(self).root() == old(self).root(),
            r is Ok <==> (old(self).entries()[index as int].4 && old(self).entries()[index as int].5),
            r matches Ok(b) ==> b@ == old(self).entries()[index as int].3,
            r matches Err(e) ==> e is Archive,
    {
        match zip_read(&mut self.zip, index) {
            Ok(b) => Ok(b),
            Err(e) => Err(ExtractError::Archive(e)),
        }
    }
}

/// With neither folder selected, extraction has no step at all: nothing is
/// created and nothing written.
pub proof fn lemma_nothing_selected(
    entries: Seq<EntryView>,
    root: Option<Seq<Seq<char>>>,
    selection: ExtractedContents,
    ignore_top_level: bool,
)
    requires
        !selection.assets,
        !selection.data,
    ensures
        planned_actions(entries, root, selection, ignore_top_level).len() == 0,
    decreases entries.len(),
{
    if entries.len() > 0 {
        lemma_nothing_selected(entries.drop_last(), root, selection, ignore_top_level);
    }
}

} // verus!
