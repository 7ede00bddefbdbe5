//! Version folders, and extraction from a version's archive together with
//! the hashed assets its manifest names.

use crate::error::ExtractError;
use crate::hashed::{index_file_for, index_file_path, indexes_dir};
use crate::jar::ExtractedContents;
use crate::path::{file_name, final_component, join, path_join};
use vstd::prelude::*;

verus! {

/// A folder that holds a version's archive and manifest, both named after
/// the folder.
#[derive(PartialEq, Eq, Hash, Debug)]
pub struct Version {
    dir: String,
}

/// The file in folder `dir` named after the folder, with `ext` appended:
/// `<dir>/<name><ext>`; `None` where the folder has no name of its own.
pub open spec fn named_after_folder(dir: Seq<char>, ext: Seq<char>) -> Option<Seq<char>> {
    match final_component(dir) {
        Some(name) => Some(path_join(dir, name + ext)),
        None => None,
    }
}

impl Version {
    /// The folder's path.
    pub closed spec fn dir(&self) -> Seq<char> {
        self.dir@
    }

    /// The version in folder `dir`.
    fn new(dir: String) -> (r: Version)
        ensures
            r.dir() == dir@,
    {
        Version { dir }
    }

    /// The path to the version's folder.
    pub fn path(&self) -> (r: &String)
        ensures
            r@ == self.dir(),
    {
        &self.dir
    }

    /// The name of the version folder, which the archive and the manifest
    /// share. The path must have a final name (`/`, or a path that ends in
    /// `..`, has none).
    pub fn name(&self) -> (r: String)
        requires
            final_component(self.dir()) is Some,
        ensures
            Some(r@) == final_component(self.dir()),
    {
        match file_name(self.dir.as_str()) {
            Some(name) => name,
            None => {
                assert(false);
                String::new()
            },
        }
    }

    /// `<dir>/<name><ext>`, where the folder has a name.
    fn file_named(&self, ext: &str) -> (r: Option<String>)
        ensures
            r.deep_view() == named_after_folder(self.dir(), ext@),
    {
        if file_name(self.dir.as_str()).is_none() {
            return None;
        }
        let mut name = self.name();
        name.append(ext);
        Some(join(self.dir.as_str(), name.as_str()))
    }

    /// The path to the version's archive: `<dir>/<name>.jar`, where the
    /// folder has a name.
    pub fn jar_file(&self) -> (r: Option<String>)
        ensures
            r.deep_view() == named_after_folder(self.dir(), ".jar"@),
    {
        self.file_named(".jar")
    }

    /// The path to the version's manifest: `<dir>/<name>.json`, where the
    /// folder has a name.
    pub fn manifest_file(&self) -> (r: Option<String>)
        ensures
            r.deep_view() == named_after_folder(self.dir(), ".json"@),
    {
        self.file_named(".json")
    }

    /// The folder to look at when `input` is not itself a folder: `input`
    /// inside the default versions folder `versions_dir`.
    pub fn candidate(input: &str, versions_dir: &Option<String>) -> (r: Option<String>)
        ensures
            r.deep_view() == match versions_dir {
                Some(v) => Some(path_join(v@, input@)),
                None => None,
            },
    {
        match versions_dir {
            Some(v) => Some(join(v.as_str(), input)),
            None => None,
        }
    }

    /// Resolves `input` to a version folder. `input_is_dir` tells whether
    /// `input` is a folder, and `candidate_is_dir` whether its candidate
    /// inside `versions_dir` is.
    pub fn parse(
        input: &str,
        input_is_dir: bool,
        versions_dir: &Option<String>,
        candidate_is_dir: bool,
    ) -> (r: Result<Version, InvalidVersion>)
        ensures
            resolves(input@, input_is_dir, versions_dir.deep_view(), candidate_is_dir) is Some
                ==> (r matches Ok(v) && Some(v.dir()) == resolves(
                input@,
                input_is_dir,
                versions_dir.deep_view(),
                candidate_is_dir,
            )),
            resolves(input@, input_is_dir, versions_dir.deep_view(), candidate_is_dir) is None
                ==> (r matches Err(e) && e.version@ == input@),
    {
        if input_is_dir {
            return Ok(Version::new(input.to_owned()));
        }
        match Version::candidate(input, versions_dir) {
            Some(dir) => {
                if candidate_is_dir {
                    Ok(Version::new(dir))
                } else {
                    Err(InvalidVersion::new(input.to_owned()))
                }
            },
            None => Err(InvalidVersion::new(input.to_owned())),
        }
    }
}

impl Clone for Version {
    fn clone(&self) -> (r: Version)
        ensures
            r.dir() == self.dir(),
    {
        Version { dir: self.dir.clone() }
    }
}

/// The folder that `input` names: `input` itself where it is a folder,
/// else `input` inside the default versions folder where that is one;
/// `None` where neither is.
pub open spec fn resolves(
    input: Seq<char>,
    input_is_dir: bool,
    versions_dir: Option<Seq<char>>,
    candidate_is_dir: bool,
) -> Option<Seq<char>> {
    if input_is_dir {
        Some(input)
    } else {
        match versions_dir {
            Some(v) => if candidate_is_dir {
                Some(path_join(v, input))
            } else {
                None
            },
            None => None,
        }
    }
}

/// How a version is resolved: a folder given by its path is that path,
/// unchanged; a name that is not a folder stands for the folder of that
/// name in the versions folder, where that is one; exactly when neither
/// holds, it is an error, which carries what was given.
pub proof fn lemma_version_resolution(
    input: Seq<char>,
    input_is_dir: bool,
    versions_dir: Option<Seq<char>>,
    candidate_is_dir: bool,
)
    ensures
        input_is_dir ==> resolves(input, input_is_dir, versions_dir, candidate_is_dir) == Some(
            input,
        ),
        !input_is_dir && versions_dir is Some && candidate_is_dir ==> resolves(
            input,
            input_is_dir,
            versions_dir,
            candidate_is_dir,
        ) == Some(path_join(versions_dir.unwrap(), input)),
        resolves(input, input_is_dir, versions_dir, candidate_is_dir) is None <==> (!input_is_dir
            && !(versions_dir is Some && candidate_is_dir)),
{
}

/// A version that names no folder.
#[derive(Debug)]
pub struct InvalidVersion {
    /// What was given as the version.
    pub version: String,
}

impl InvalidVersion {
    fn new(version: String) -> (r: InvalidVersion)
        ensures
            r.version@ == version@,
    {
        InvalidVersion { version }
    }

    /// The error in words.
    pub fn to_string(&self) -> (r: String)
        ensures
            r@ == "invalid version '"@ + self.version@
                + "': no directory exists of that path nor name within `minecraft/versions`"@,
    {
        let mut r = "invalid version '".to_owned();
        r.append(self.version.as_str());
        r.append("': no directory exists of that path nor name within `minecraft/versions`");
        r
    }
}

/// The extraction of a version: its archive, and the hashed assets that its
/// manifest names.
pub struct VersionSubcommand {
    /// The version's folder.
    pub version_dir: Version,
    /// The root of the hashed object store; where absent, the default one.
    pub hashed_assets_dir: Option<String>,
    /// Which folders to extract.
    pub extracted_contents: ExtractedContents,
}

impl VersionSubcommand {
    /// The hashed object store to use: the one given, else `default_dir`.
    pub fn hashed_assets_candidate(&self, default_dir: Option<String>) -> (r: Option<String>)
        ensures
            self.hashed_assets_dir is Some ==> r.deep_view() == self.hashed_assets_dir.deep_view(),
            self.hashed_assets_dir is None ==> r.deep_view() == default_dir.deep_view(),
    {
        match &self.hashed_assets_dir {
            Some(dir) => Some(dir.clone()),
            None => default_dir,
        }
    }
}

/// A step that the caller of a version extraction performs, then reports.
pub enum VersionAction {
    /// Read the manifest at this path, and report the index version it
    /// names.
    ReadManifest(String),
    /// Report whether a file exists at this path.
    CheckIndexFile(String),
    /// Extract the selected folders of the archive at this path.
    ExtractJar(String),
    /// Extract hashed assets from the store at `hashed_assets_dir`, with the
    /// index at `index_file`.
    ExtractHashed { hashed_assets_dir: String, index_file: String },
    /// Nothing is left to do.
    Finish,
}

/// What the caller reports after a step.
pub enum VersionEvent {
    /// The manifest names this index version.
    ManifestRead(String),
    /// Whether the index file exists.
    IndexFileChecked(bool),
    /// The archive was extracted.
    JarExtracted,
    /// The hashed assets were extracted.
    HashedExtracted,
}

/// Which step a version extraction waits on.
#[derive(Clone, Copy, PartialEq, Eq, Debug, Structural)]
pub enum VersionStage {
    ReadingManifest,
    CheckingIndex,
    ExtractingJar,
    ExtractingHashed,
    Finished,
}

/// A version extraction in progress. Its order: the manifest and the index
/// file are settled first, then the archive is extracted, and the hashed
/// assets last, so that they overwrite what the archive holds at the same
/// paths.
pub struct VersionRun {
    command: VersionSubcommand,
    jar_file: String,
    manifest_file: String,
    hashed_assets_dir: Option<String>,
    index_file: Option<String>,
    stage: VersionStage,
}

impl VersionRun {
    /// Past the manifest, a run that extracts assets knows its store and
    /// its index file.
    #[verifier::type_invariant]
    spec fn knows_index(&self) -> bool {
        (self.stage == VersionStage::CheckingIndex || self.stage == VersionStage::ExtractingHashed
            || (self.stage == VersionStage::ExtractingJar && self.command.extracted_contents.assets))
            ==> self.hashed_assets_dir is Some && self.index_file is Some
    }

    /// The step the run waits on.
    pub closed spec fn stage(&self) -> VersionStage {
        self.stage
    }

    /// What is extracted.
    pub closed spec fn selection(&self) -> ExtractedContents {
        self.command.extracted_contents
    }

    /// The version's archive.
    pub closed spec fn jar(&self) -> Seq<char> {
        self.jar_file@
    }

    /// The version's manifest.
    pub closed spec fn manifest(&self) -> Seq<char> {
        self.manifest_file@
    }

    /// The hashed object store, where one exists.
    pub closed spec fn hashed_dir(&self) -> Option<Seq<char>> {
        self.hashed_assets_dir.deep_view()
    }

    /// The index file, once the manifest has named it.
    pub closed spec fn index(&self) -> Option<Seq<char>> {
        self.index_file.deep_view()
    }

    /// True when `a` is the step that the run waits on.
    pub open spec fn is_pending(&self, a: VersionAction) -> bool {
        match self.stage() {
            VersionStage::ReadingManifest => a matches VersionAction::ReadManifest(p) && p@
                == self.manifest(),
            VersionStage::CheckingIndex => a matches VersionAction::CheckIndexFile(p) && Some(p@)
                == self.index(),
            VersionStage::ExtractingJar => a matches VersionAction::ExtractJar(p) && p@
                == self.jar(),
            VersionStage::ExtractingHashed => a matches VersionAction::ExtractHashed {
                hashed_assets_dir,
                index_file,
            } && Some(hashed_assets_dir@) == self.hashed_dir() && Some(index_file@)
                == self.index(),
            VersionStage::Finished => a is Finish,
        }
    }

    /// The step the run waits on.
    pub fn pending(&self) -> (r: VersionAction)
        ensures
            self.is_pending(r),
    {
        proof {
            use_type_invariant(self);
        }
        match self.stage {
            VersionStage::ReadingManifest => VersionAction::ReadManifest(self.manifest_file.clone()),
            VersionStage::CheckingIndex => match &self.index_file {
                Some(index) => VersionAction::CheckIndexFile(index.clone()),
                None => {
                    assert(false);
                    VersionAction::Finish
                },
            },
            VersionStage::ExtractingJar => VersionAction::ExtractJar(self.jar_file.clone()),
            VersionStage::ExtractingHashed => match (&self.hashed_assets_dir, &self.index_file) {
                (Some(h), Some(index)) => VersionAction::ExtractHashed {
                    hashed_assets_dir: h.clone(),
                    index_file: index.clone(),
                },
                _ => {
                    assert(false);
                    VersionAction::Finish
                },
            },
            VersionStage::Finished => VersionAction::Finish,
        }
    }

    /// Starts the extraction that `command` describes. `hashed_assets_dir`
    /// is the store to use, where one exists (see
    /// `VersionSubcommand::hashed_assets_candidate`). With nothing selected
    /// the run is finished at once; otherwise the version folder must have
    /// a name of its own, which names its archive and manifest, and the run
    /// reads the manifest first where assets are selected, and extracts the
    /// archive first otherwise.
    pub fn new(command: VersionSubcommand, hashed_assets_dir: Option<String>) -> (r: Result<
        (VersionRun, VersionAction),
        InvalidVersion,
    >)
        ensures
            !command.extracted_contents.assets && !command.extracted_contents.data ==> (r matches Ok(
                run,
            ) && run.0.stage() == VersionStage::Finished),
            command.extracted_contents.assets || command.extracted_contents.data ==> (r is Ok
                <==> final_component(command.version_dir.dir()) is Some),
            r matches Err(e) ==> e.version@ == command.version_dir.dir(),
            r matches Ok(run) ==> {
                &&& run.0.selection() == command.extracted_contents
                &&& run.0.hashed_dir() == hashed_assets_dir.deep_view()
                &&& run.0.index() is None
                &&& run.0.is_pending(run.1)
                &&& (command.extracted_contents.assets || command.extracted_contents.data) ==> (Some(
                    run.0.jar(),
                ) == named_after_folder(command.version_dir.dir(), ".jar"@) && Some(
                    run.0.manifest(),
                ) == named_after_folder(command.version_dir.dir(), ".json"@))
                &&& command.extracted_contents.assets ==> run.0.stage()
                    == VersionStage::ReadingManifest
                &&& !command.extracted_contents.assets && command.extracted_contents.data
                    ==> run.0.stage() == VersionStage::ExtractingJar
            },
    {
        let selection = command.extracted_contents;
        if selection.is_empty() {
            let run = VersionRun {
                command,
                jar_file: String::new(),
                manifest_file: String::new(),
                hashed_assets_dir,
                index_file: None,
                stage: VersionStage::Finished,
            };
            let action = run.pending();
            return Ok((run, action));
        }
        let (jar_file, manifest_file) = match (
            command.version_dir.jar_file(),
            command.version_dir.manifest_file(),
        ) {
            (Some(jar), Some(manifest)) => (jar, manifest),
            _ => return Err(InvalidVersion::new(command.version_dir.path().clone())),
        };
        let stage = if selection.assets {
            VersionStage::ReadingManifest
        } else {
            VersionStage::ExtractingJar
        };
        let run = VersionRun {
            command,
            jar_file,
            manifest_file,
            hashed_assets_dir,
            index_file: None,
            stage,
        };
        let action = run.pending();
        Ok((run, action))
    }

    /// Takes in what the caller reports after the last step, and gives the
    /// next step, or the error that ends the run. An event that does not
    /// answer the step the run waits on changes nothing, and that step is
    /// given again.
    pub fn step(&mut self, event: VersionEvent) -> (r: Result<VersionAction, ExtractError>)
        ensures
            final(self).selection() == old(self).selection(),
            final(self).hashed_dir() == old(self).hashed_dir(),
            final(self).jar() == old(self).jar(),
            final(self).manifest() == old(self).manifest(),
            r matches Ok(a) ==> final(self).is_pending(a),
            match (old(self).stage(), event) {
                (VersionStage::ReadingManifest, VersionEvent::ManifestRead(v)) => match old(self).hashed_dir() {
                    Some(h) => final(self).stage() == VersionStage::CheckingIndex && final(self).index() == Some(index_file_for(indexes_dir(h), v@)) && r is Ok,
                    None => final(self).stage() == VersionStage::Finished && (r matches Err(
                        ExtractError::MissingHashedAssetsDir,
                    )),
                },
                (VersionStage::CheckingIndex, VersionEvent::IndexFileChecked(exists)) => {
                    &&& final(self).index() == old(self).index()
                    &&& exists ==> final(self).stage() == VersionStage::ExtractingJar && r is Ok
                    &&& !exists ==> final(self).stage() == VersionStage::Finished && (r matches Err(
                        ExtractError::MissingIndexFile(p),
                    ) && Some(p@) == old(self).index())
                },
                (VersionStage::ExtractingJar, VersionEvent::JarExtracted) => {
                    &&& final(self).index() == old(self).index()
                    &&& old(self).selection().assets ==> final(self).stage()
                        == VersionStage::ExtractingHashed && r is Ok
                    &&& !old(self).selection().assets ==> final(self).stage()
                        == VersionStage::Finished && r is Ok
                },
                (VersionStage::ExtractingHashed, VersionEvent::HashedExtracted) => {
                    &&& final(self).stage() == VersionStage::Finished
                    &&& final(self).index() == old(self).index()
                    &&& r is Ok
                },
                _ => final(self).stage() == old(self).stage() && final(self).index() == old(self).index() && r is Ok,
            },
    {
        proof {
            use_type_invariant(&*self);
        }
        match (self.stage, event) {
            (VersionStage::ReadingManifest, VersionEvent::ManifestRead(version)) => {
                match &self.hashed_assets_dir {
                    Some(h) => {
                        let indexes = join(h.as_str(), "indexes");
                        let index = index_file_path(indexes.as_str(), version.as_str());
                        self.index_file = Some(index);
                        self.stage = VersionStage::CheckingIndex;
                    },
                    None => {
                        self.stage = VersionStage::Finished;
                        return Err(ExtractError::MissingHashedAssetsDir);
                    },
                }
            },
            (VersionStage::CheckingIndex, VersionEvent::IndexFileChecked(exists)) => {
                if exists {
                    self.stage = VersionStage::ExtractingJar;
                } else {
                    let missing = match &self.index_file {
                        Some(index) => index.clone(),
                        None => String::new(),
                    };
                    self.stage = VersionStage::Finished;
                    return Err(ExtractError::MissingIndexFile(missing));
                }
            },
            (VersionStage::ExtractingJar, VersionEvent::JarExtracted) => {
                if self.command.extracted_contents.assets {
                    self.stage = VersionStage::ExtractingHashed;
                } else {
                    self.stage = VersionStage::Finished;
                }
            },
            (VersionStage::ExtractingHashed, VersionEvent::HashedExtracted) => {
                self.stage = VersionStage::Finished;
            },
            _ => {},
        }
        Ok(self.pending())
    }
}

} // verus!
