//! The project-wide configuration and the batch initialization of output
//! files: shared root path, shared default extension, and the policy for
//! files that already exist.

use vstd::prelude::*;
use vstd::string::StringExecFns;

use crate::descriptor::disk_after_initialize;
use crate::descriptor::DescModel;
use crate::descriptor::FileManager;
use crate::disk::Disk;
use crate::text::file_name_of;
use crate::text::leaf_dir_of;
use crate::text::split_last_slash;

verus! {

/// Instructions for dealing with output files that already exist.
pub enum OverwriteType {
    /// Interrupt the batch when a target file already exists.
    Panic,
    /// Copy an existing file into the archive directory, then truncate it.
    Archive,
    /// Truncate any existing file.
    Overwrite,
    /// Leave an existing file untouched and deny writing to it.
    Ignore,
}

/// The mathematical value of a [`ProjectManager`].
pub struct ProjectModel {
    pub path: Seq<char>,
    pub extension: Seq<char>,
    pub overwrite_type: OverwriteType,
}

/// The archive directory for a colliding file: the project's `archive`
/// directory, mirroring the immediate parent directory of the original.
pub open spec fn archive_dir_of(root: Seq<char>, path: Seq<char>) -> Seq<char> {
    root + "/archive/"@ + leaf_dir_of(path)
}

/// Where a colliding file's archived copy is placed.
pub open spec fn archive_dest_of(root: Seq<char>, path: Seq<char>) -> Seq<char> {
    archive_dir_of(root, path) + "/"@ + file_name_of(path)
}

/// The error reported when the `Panic` policy meets an existing file.
pub open spec fn overwrite_denied_msg() -> Seq<char> {
    "Permission denied to overwrite existing output files."@
}

/// What applying the collision policy to one resolved descriptor does:
/// the descriptor afterwards, the files afterwards, and whether the batch
/// may continue.
pub open spec fn try_init_outcome(
    pm: ProjectModel,
    d: DescModel,
    m: Map<Seq<char>, Seq<char>>,
) -> (DescModel, Map<Seq<char>, Seq<char>>, bool) {
    match pm.overwrite_type {
        OverwriteType::Panic => if m.contains_key(d.path->0) {
            (d, m, false)
        } else {
            (d.after_initialize(), disk_after_initialize(d, m), true)
        },
        OverwriteType::Archive => if m.contains_key(d.path->0) {
            let archived = m.insert(archive_dest_of(pm.path, d.path->0), m[d.path->0]);
            (d.after_initialize(), disk_after_initialize(d, archived), true)
        } else {
            (d.after_initialize(), disk_after_initialize(d, m), true)
        },
        OverwriteType::Overwrite => (d.after_initialize(), disk_after_initialize(d, m), true),
        OverwriteType::Ignore => if m.contains_key(d.path->0) {
            (DescModel { writable: false, ..d }, m, true)
        } else {
            (d.after_initialize(), disk_after_initialize(d, m), true)
        },
    }
}

/// A descriptor after the batch injects the project-wide defaults and
/// resolves the path.  Per-descriptor values win: the setters are no-ops
/// on fields already set.
pub open spec fn injected(pm: ProjectModel, d: DescModel) -> DescModel {
    d.with_project_path(pm.path).with_extension(pm.extension).with_path_resolved()
}

/// What batch initialization does to a sequence of descriptors, processed
/// strictly in order: the descriptors afterwards, the files afterwards,
/// and whether the whole batch succeeded.  A descriptor the `Panic` policy
/// stops at ends the batch: the descriptors after it are left untouched.
pub open spec fn batch_outcome(
    pm: ProjectModel,
    ds: Seq<DescModel>,
    m: Map<Seq<char>, Seq<char>>,
) -> (Seq<DescModel>, Map<Seq<char>, Seq<char>>, bool)
    decreases ds.len(),
{
    if ds.len() == 0 {
        (ds, m, true)
    } else {
        let d = injected(pm, ds[0]);
        let (d2, m2, ok) = try_init_outcome(pm, d, m);
        if ok {
            let (rest, m3, ok3) = batch_outcome(pm, ds.skip(1), m2);
            (seq![d2] + rest, m3, ok3)
        } else {
            (seq![d2] + ds.skip(1), m2, false)
        }
    }
}

/// The plain-text description of a project configuration.
pub open spec fn summary_text(pm: ProjectModel) -> Seq<char> {
    "Project path is "@ + pm.path + "\nOutput files have extension ."@ + pm.extension
        + "\nExisting output files "@ + match pm.overwrite_type {
        OverwriteType::Panic => "will interrupt the program (overwrite_typ = Panic).\n"@,
        OverwriteType::Archive => "will be archived (overwrite_type = Archive).\n"@,
        OverwriteType::Overwrite => "will be overwritten (overwrite_type = Overwrite).\n"@,
        OverwriteType::Ignore => "will not be collected again during this run (overwirte_type = Ignore).\n"@,
    }
}

/// The setup of a project directory: where output goes, the default
/// extension, and what to do with output files that already exist.
pub struct ProjectManager {
    /// Path to the project directory.
    pub path: String,
    /// Default extension for output files.
    pub extension: String,
    /// Behaviour when output files already exist.
    pub overwrite_type: OverwriteType,
}

impl View for ProjectManager {
    type V = ProjectModel;

    open spec fn view(&self) -> ProjectModel {
        ProjectModel {
            path: self.path@,
            extension: self.extension@,
            overwrite_type: self.overwrite_type,
        }
    }
}

impl ProjectManager {
    /// The path to the project directory.
    pub fn path(&self) -> (r: &str)
        ensures
            r@ == self@.path,
    {
        self.path.as_str()
    }

    /// Replaces the path to the project directory.
    pub fn set_path(&mut self, path: String)
        ensures
            final(self)@ == (ProjectModel { path: path@, ..old(self)@ }),
    {
        self.path = path;
    }

    /// A plain-text description of the project configuration.
    pub fn summary(&self) -> (r: String)
        ensures
            r@ == summary_text(self@),
    {
        let mut text = String::from_str("Project path is ");
        text.append(self.path.as_str());
        text.append("\nOutput files have extension .");
        text.append(self.extension.as_str());
        text.append("\nExisting output files ");
        match &self.overwrite_type {
            OverwriteType::Panic => text.append(
                "will interrupt the program (overwrite_typ = Panic).\n",
            ),
            OverwriteType::Archive => text.append("will be archived (overwrite_type = Archive).\n"),
            OverwriteType::Overwrite => text.append(
                "will be overwritten (overwrite_type = Overwrite).\n",
            ),
            OverwriteType::Ignore => text.append(
                "will not be collected again during this run (overwirte_type = Ignore).\n",
            ),
        }
        proof {
            assert(text@ =~= summary_text(self@));
        }
        text
    }

    /// Injects the project-wide defaults into every descriptor, resolves
    /// each path, and applies the collision policy, strictly in the given
    /// order.  The first collision the `Panic` policy meets stops the batch
    /// and is reported as the batch's error; descriptors after it are left
    /// untouched.
    pub fn initialize_output_files(&self, files: &mut Vec<FileManager>, disk: &mut Disk) -> (r:
        Result<(), String>)
        requires
            forall|i: int|
                0 <= i < old(files)@.len() ==> {
                    &&& (#[trigger] old(files)@[i])@.wf()
                    &&& old(files)@[i]@.name is Some
                    &&& old(files)@[i]@.output_path is Some
                },
        ensures
            ({
                let (ds, m, ok) = batch_outcome(self@, old(files).deep_view(), old(disk)@);
                &&& final(files).deep_view() == ds
                &&& final(disk)@ == m
                &&& (r is Ok) == ok
            }),
            r is Err ==> r->Err_0@ == overwrite_denied_msg(),
    {
        let r = self.initialize_from(files, 0, disk);
        proof {
            assert(old(files).deep_view().skip(0) =~= old(files).deep_view());
            assert(old(files).deep_view().take(0) =~= Seq::<DescModel>::empty());
            let (ds, m, ok) = batch_outcome(self@, old(files).deep_view(), old(disk)@);
            assert(Seq::<DescModel>::empty() + ds =~= ds);
        }
        r
    }

    /// Processes the descriptors from position `from` on, as
    /// [`Self::initialize_output_files`] does for the whole collection.
    fn initialize_from(&self, files: &mut Vec<FileManager>, from: usize, disk: &mut Disk) -> (r:
        Result<(), String>)
        requires
            from <= old(files)@.len(),
            forall|i: int|
                from <= i < old(files)@.len() ==> {
                    &&& (#[trigger] old(files)@[i])@.wf()
                    &&& old(files)@[i]@.name is Some
                    &&& old(files)@[i]@.output_path is Some
                },
        ensures
            ({
                let (ds, m, ok) = batch_outcome(
                    self@,
                    old(files).deep_view().skip(from as int),
                    old(disk)@,
                );
                &&& final(files).deep_view() == old(files).deep_view().take(from as int) + ds
                &&& final(disk)@ == m
                &&& (r is Ok) == ok
            }),
            r is Err ==> r->Err_0@ == overwrite_denied_msg(),
        decreases old(files)@.len() - from,
    {
        let n = files.len();
        if from == n {
            proof {
                assert(old(files).deep_view().skip(from as int) =~= Seq::<DescModel>::empty());
                assert(old(files).deep_view().take(from as int) + Seq::<DescModel>::empty()
                    =~= old(files).deep_view());
            }
            return Ok(());
        }
        let ghost pre = old(files).deep_view();
        let file = &mut files[from];
        file.set_project_path(self.path.as_str());
        file.set_extension(self.extension.as_str());
        file.set_path();
        proof {
            assert(file@ == injected(self@, pre[from as int]));
        }
        let result = self.try_initialize_output(file, disk);
        let ghost mid = files.deep_view();
        proof {
            assert(mid =~= pre.update(from as int, mid[from as int]));
        }
        match result {
            Err(reason) => {
                proof {
                    let (ds, m, ok) = batch_outcome(self@, pre.skip(from as int), old(disk)@);
                    assert(pre.skip(from as int)[0] == pre[from as int]);
                    assert(pre.skip(from as int).skip(1) =~= pre.skip(from as int + 1));
                    assert(mid =~= pre.take(from as int) + (seq![mid[from as int]] + pre.skip(
                        from as int + 1,
                    )));
                    assert(mid =~= pre.take(from as int) + ds);
                }
                Err(reason)
            },
            Ok(()) => {
                let ghost m2 = disk@;
                let r = self.initialize_from(files, from + 1, disk);
                proof {
                    assert(pre.skip(from as int)[0] == pre[from as int]);
                    assert(pre.skip(from as int).skip(1) =~= pre.skip(from as int + 1));
                    assert(mid.skip(from as int + 1) =~= pre.skip(from as int + 1));
                    assert(mid.take(from as int + 1) =~= pre.take(from as int) + seq![
                        mid[from as int],
                    ]);
                    let (ds, m, ok) = batch_outcome(self@, pre.skip(from as int), old(disk)@);
                    let (rest, m3, ok3) = batch_outcome(
                        self@,
                        pre.skip(from as int).skip(1),
                        m2,
                    );
                    assert(ds == seq![mid[from as int]] + rest);
                    assert(final(files).deep_view() =~= pre.take(from as int) + ds);
                }
                r
            },
        }
    }

    /// Applies the collision policy to one resolved descriptor: depending
    /// on the policy and on whether a file already exists at its path, the
    /// descriptor is materialized, archived first and then materialized,
    /// denied writing, or the batch is stopped with an error.
    pub fn try_initialize_output(&self, file: &mut FileManager, disk: &mut Disk) -> (r: Result<
        (),
        String,
    >)
        requires
            old(file)@.wf(),
            old(file)@.initialized(),
        ensures
            ({
                let (d2, m2, ok) = try_init_outcome(self@, old(file)@, old(disk)@);
                &&& final(file)@ == d2
                &&& final(disk)@ == m2
                &&& (r is Ok) == ok
            }),
            r is Err ==> r->Err_0@ == overwrite_denied_msg(),
    {
        match &self.overwrite_type {
            OverwriteType::Panic => {
                if disk.has_file(file.path().as_str()) {
                    Err(String::from_str("Permission denied to overwrite existing output files."))
                } else {
                    file.initialize_output(disk);
                    Ok(())
                }
            },
            OverwriteType::Archive => {
                if disk.has_file(file.path().as_str()) {
                    // Create the archive directory.
                    let mut archive_path = self.path.clone();
                    archive_path.append("/archive");
                    disk.ensure_dir(archive_path.as_str());
                    let path = file.path_string();
                    self.move_to_archive(path.as_str(), disk);
                }
                file.initialize_output(disk);
                Ok(())
            },
            OverwriteType::Overwrite => {
                file.initialize_output(disk);
                Ok(())
            },
            OverwriteType::Ignore => {
                if disk.has_file(file.path().as_str()) {
                    file.change_write_permission(false);
                } else {
                    file.initialize_output(disk);
                }
                Ok(())
            },
        }
    }

    /// Copies a colliding file into the archive directory tree, which
    /// mirrors only the immediate parent directory of the original.  The
    /// original is left in place: its truncation happens through the normal
    /// materialization step, so a crash between copy and truncate leaves
    /// both the archived copy and the intact original.
    fn move_to_archive(&self, file_path: &str, disk: &mut Disk)
        requires
            old(disk)@.contains_key(file_path@),
        ensures
            final(disk)@ == old(disk)@.insert(
                archive_dest_of(self@.path, file_path@),
                old(disk)@[file_path@],
            ),
    {
        let (parent, filename) = split_last_slash(file_path);
        let (_grandparent, relative_path) = split_last_slash(parent.as_str());
        let mut archive_dir = self.path.clone();
        archive_dir.append("/archive/");
        archive_dir.append(relative_path.as_str());
        disk.ensure_dir(archive_dir.as_str());
        let mut dest = archive_dir;
        dest.append("/");
        dest.append(filename.as_str());
        proof {
            assert(dest@ =~= archive_dest_of(self@.path, file_path@));
        }
        disk.copy_file(file_path, dest.as_str());
    }
}

} // verus!
