//! A descriptor for one output file (or a numbered series of sibling
//! files): its identity under the project root, its resolved path, and its
//! open/writable state.

use vstd::prelude::*;
use vstd::string::StringExecFns;

use crate::disk::Disk;
use crate::text::dec_str;
use crate::text::parent_of;
use crate::text::usize_to_dec;

verus! {

/// The path that identity fields `project / output / file.ext` combine to.
pub open spec fn joined(
    project: Seq<char>,
    output: Seq<char>,
    file: Seq<char>,
    ext: Seq<char>,
) -> Seq<char> {
    project + "/"@ + output + "/"@ + file + "."@ + ext
}

/// The text a freshly created file holds: the header line, or nothing.
pub open spec fn header_line(header: Option<Seq<char>>) -> Seq<char> {
    match header {
        Some(h) => h + "\n"@,
        None => Seq::empty(),
    }
}

/// The mathematical value of a [`FileManager`]: the same fields, with all
/// text as character sequences.
pub struct DescModel {
    pub header: Option<Seq<char>>,
    pub project_path: Option<Seq<char>>,
    pub output_path: Option<Seq<char>>,
    pub name: Option<Seq<char>>,
    pub extension: Option<Seq<char>>,
    pub series: Option<(u32, usize)>,
    pub path: Option<Seq<char>>,
    pub writable: bool,
}

impl DescModel {
    /// The descriptor with nothing configured yet.
    pub open spec fn empty() -> Self {
        DescModel {
            header: None,
            project_path: None,
            output_path: None,
            name: None,
            extension: None,
            series: None,
            path: None,
            writable: false,
        }
    }

    /// A descriptor is initialized once its path has been resolved.
    pub open spec fn initialized(self) -> bool {
        self.path is Some
    }

    /// Whether all four identity fields needed for resolution are present.
    pub open spec fn fields_set(self) -> bool {
        &&& self.project_path is Some
        &&& self.output_path is Some
        &&& self.name is Some
        &&& self.extension is Some
    }

    /// The file name the descriptor resolves with: the base name, or for a
    /// series the base name with the current index appended.
    pub open spec fn effective_name(self) -> Seq<char> {
        match self.series {
            Some((_n, index)) => self.name->0 + "_"@ + dec_str(index as nat),
            None => self.name->0,
        }
    }

    /// What path resolution yields: the combined path when all four
    /// identity fields are set, and nothing otherwise.
    pub open spec fn resolve(self) -> Option<Seq<char>> {
        if self.fields_set() {
            Some(
                joined(
                    self.project_path->0,
                    self.output_path->0,
                    self.effective_name(),
                    self.extension->0,
                ),
            )
        } else {
            None
        }
    }

    /// The path the descriptor resolves to when its series index is `index`.
    pub open spec fn path_at(self, index: nat) -> Seq<char> {
        joined(
            self.project_path->0,
            self.output_path->0,
            self.name->0 + "_"@ + dec_str(index),
            self.extension->0,
        )
    }

    /// The path the identity fields combine to when the series suffix is
    /// left off: `project / output / name.ext`.
    pub open spec fn unsuffixed_path(self) -> Seq<char> {
        joined(self.project_path->0, self.output_path->0, self.name->0, self.extension->0)
    }

    /// The descriptor after recomputing its resolved path.
    pub open spec fn with_path_resolved(self) -> Self {
        DescModel { path: self.resolve(), ..self }
    }

    /// Effect of the header setter: first write wins, and an initialized
    /// descriptor is left alone.
    pub open spec fn with_header(self, header: Seq<char>) -> Self {
        if !self.initialized() && self.header is None {
            DescModel { header: Some(header), ..self }
        } else {
            self
        }
    }

    /// Effect of the project-path setter (first write wins).
    pub open spec fn with_project_path(self, project_path: Seq<char>) -> Self {
        if !self.initialized() && self.project_path is None {
            DescModel { project_path: Some(project_path), ..self }
        } else {
            self
        }
    }

    /// Effect of the output-path setter (first write wins).
    pub open spec fn with_output_path(self, output_path: Seq<char>) -> Self {
        if !self.initialized() && self.output_path is None {
            DescModel { output_path: Some(output_path), ..self }
        } else {
            self
        }
    }

    /// Effect of the file-name setter (first write wins).
    pub open spec fn with_file_name(self, name: Seq<char>) -> Self {
        if !self.initialized() && self.name is None {
            DescModel { name: Some(name), ..self }
        } else {
            self
        }
    }

    /// Effect of the extension setter (first write wins).
    pub open spec fn with_extension(self, extension: Seq<char>) -> Self {
        if !self.initialized() && self.extension is None {
            DescModel { extension: Some(extension), ..self }
        } else {
            self
        }
    }

    /// Effect of the series setter (first write wins; the index starts at 0).
    pub open spec fn with_series(self, n_files: u32) -> Self {
        if !self.initialized() && self.series is None {
            DescModel { series: Some((n_files, 0)), ..self }
        } else {
            self
        }
    }

    /// Effect of the project-path mutator: only an initialized descriptor
    /// changes, and its path is re-resolved.
    pub open spec fn with_project_path_changed(self, project_path: Seq<char>) -> Self {
        if self.initialized() {
            (DescModel { project_path: Some(project_path), ..self }).with_path_resolved()
        } else {
            self
        }
    }

    /// Effect of the output-path mutator.
    pub open spec fn with_output_path_changed(self, output_path: Seq<char>) -> Self {
        if self.initialized() {
            (DescModel { output_path: Some(output_path), ..self }).with_path_resolved()
        } else {
            self
        }
    }

    /// Effect of the file-name mutator.
    pub open spec fn with_file_name_changed(self, name: Seq<char>) -> Self {
        if self.initialized() {
            (DescModel { name: Some(name), ..self }).with_path_resolved()
        } else {
            self
        }
    }

    /// Effect of the extension mutator.
    pub open spec fn with_extension_changed(self, extension: Seq<char>) -> Self {
        if self.initialized() {
            (DescModel { extension: Some(extension), ..self }).with_path_resolved()
        } else {
            self
        }
    }

    /// Effect of the series-index mutator: only an initialized series
    /// descriptor changes, and its path is re-resolved.
    pub open spec fn with_file_index(self, index: usize) -> Self {
        if self.initialized() {
            match self.series {
                Some((n_files, _)) => (DescModel {
                    series: Some((n_files, index)),
                    ..self
                }).with_path_resolved(),
                None => self,
            }
        } else {
            self
        }
    }

    /// A descriptor built through this module's operations keeps its
    /// resolved path consistent with its identity fields.
    pub open spec fn wf(self) -> bool {
        self.initialized() ==> (self.fields_set() && self.path == self.resolve())
    }

    /// The descriptor after materialization: resolved, left at the last
    /// series index (when a non-empty series is set), and writable.
    pub open spec fn after_initialize(self) -> Self {
        let d = if self.initialized() {
            self
        } else {
            self.with_path_resolved()
        };
        let d2 = match d.series {
            Some((n_files, _)) => if n_files > 0 {
                d.with_file_index((n_files - 1) as usize)
            } else {
                d
            },
            None => d,
        };
        DescModel { writable: true, ..d2 }
    }
}

/// The files map after materializing the series indices `0..n` of `d`.
pub open spec fn series_written(
    m: Map<Seq<char>, Seq<char>>,
    d: DescModel,
    n: int,
) -> Map<Seq<char>, Seq<char>>
    decreases n,
{
    if n <= 0 {
        m
    } else {
        series_written(m, d, n - 1).insert(d.path_at((n - 1) as nat), header_line(d.header))
    }
}

/// The files map after materializing descriptor `d`: one file at its
/// resolved path, or the whole series, each holding just the header line.
pub open spec fn disk_after_initialize(
    d: DescModel,
    m: Map<Seq<char>, Seq<char>>,
) -> Map<Seq<char>, Seq<char>> {
    let d1 = if d.initialized() {
        d
    } else {
        d.with_path_resolved()
    };
    match d1.series {
        None => m.insert(d1.path->0, header_line(d1.header)),
        Some((n_files, _)) => series_written(m, d1, n_files as int),
    }
}

/// A descriptor for one output file: identity fields, all optional until
/// resolved, the resolved path, and the write permission.
#[derive(Debug, PartialEq)]
pub struct FileManager {
    /// Column descriptions written as the file's first line.
    pub header: Option<String>,
    /// Path to the project's root directory.
    pub project_path: Option<String>,
    /// Output directory path, relative to the project root.
    pub output_path: Option<String>,
    /// Base name of the output file.
    pub name: Option<String>,
    /// Extension of the output file.
    pub extension: Option<String>,
    /// For a series of related files: the number of files and the index
    /// most recently materialized into the path.
    pub series: Option<(u32, usize)>,
    /// The resolved path of the output file.
    pub path: Option<String>,
    /// Whether writes to the file are currently permitted.
    pub writable: bool,
}

impl View for FileManager {
    type V = DescModel;

    open spec fn view(&self) -> DescModel {
        DescModel {
            header: self.header.deep_view(),
            project_path: self.project_path.deep_view(),
            output_path: self.output_path.deep_view(),
            name: self.name.deep_view(),
            extension: self.extension.deep_view(),
            series: self.series,
            path: self.path.deep_view(),
            writable: self.writable,
        }
    }
}

impl DeepView for FileManager {
    type V = DescModel;

    open spec fn deep_view(&self) -> DescModel {
        self.view()
    }
}

impl Clone for FileManager {
    fn clone(&self) -> (r: Self)
        ensures
            r@ == self@,
    {
        FileManager {
            header: match &self.header {
                Some(h) => Some(h.clone()),
                None => None,
            },
            project_path: match &self.project_path {
                Some(p) => Some(p.clone()),
                None => None,
            },
            output_path: match &self.output_path {
                Some(o) => Some(o.clone()),
                None => None,
            },
            name: match &self.name {
                Some(n) => Some(n.clone()),
                None => None,
            },
            extension: match &self.extension {
                Some(e) => Some(e.clone()),
                None => None,
            },
            series: self.series,
            path: match &self.path {
                Some(p) => Some(p.clone()),
                None => None,
            },
            writable: self.writable,
        }
    }
}

impl Default for FileManager {
    /// The descriptor with nothing configured yet.
    fn default() -> (r: Self)
        ensures
            r@ == DescModel::empty(),
    {
        FileManager {
            header: None,
            project_path: None,
            output_path: None,
            name: None,
            extension: None,
            series: None,
            path: None,
            writable: false,
        }
    }
}

impl FileManager {
    /// Whether the path has been resolved.
    pub fn initialized(&self) -> (r: bool)
        ensures
            r == self@.initialized(),
    {
        self.path.is_some()
    }

    /// Sets the header; a no-op once the header is set or the descriptor is
    /// initialized.
    pub fn set_header(&mut self, header: &str) -> (r: &mut Self)
        ensures
            (*r)@ == old(self)@.with_header(header@),
            *final(self) == *final(r),
    {
        if !self.initialized() && self.header.is_none() {
            self.header = Some(header.to_owned());
        }
        self
    }

    /// Sets the path to the root project directory; a no-op once set or
    /// initialized.
    pub fn set_project_path(&mut self, project_path: &str) -> (r: &mut Self)
        ensures
            (*r)@ == old(self)@.with_project_path(project_path@),
            *final(self) == *final(r),
    {
        if !self.initialized() && self.project_path.is_none() {
            self.project_path = Some(project_path.to_owned());
        }
        self
    }

    /// Sets the output directory path, relative to the project directory;
    /// a no-op once set or initialized.
    pub fn set_output_path(&mut self, output_path: &str) -> (r: &mut Self)
        ensures
            (*r)@ == old(self)@.with_output_path(output_path@),
            *final(self) == *final(r),
    {
        if !self.initialized() && self.output_path.is_none() {
            self.output_path = Some(output_path.to_owned());
        }
        self
    }

    /// Sets the name of the output file; a no-op once set or initialized.
    pub fn set_file_name(&mut self, name: &str) -> (r: &mut Self)
        ensures
            (*r)@ == old(self)@.with_file_name(name@),
            *final(self) == *final(r),
    {
        if !self.initialized() && self.name.is_none() {
            self.name = Some(name.to_owned());
        }
        self
    }

    /// Sets the extension of the output file; a no-op once set or
    /// initialized.
    pub fn set_extension(&mut self, extension: &str) -> (r: &mut Self)
        ensures
            (*r)@ == old(self)@.with_extension(extension@),
            *final(self) == *final(r),
    {
        if !self.initialized() && self.extension.is_none() {
            self.extension = Some(extension.to_owned());
        }
        self
    }

    /// Sets the number of files in the series; a no-op once set or
    /// initialized.
    pub fn set_series(&mut self, n_files: u32) -> (r: &mut Self)
        ensures
            (*r)@ == old(self)@.with_series(n_files),
            *final(self) == *final(r),
    {
        if !self.initialized() && self.series.is_none() {
            self.series = Some((n_files, 0));
        }
        self
    }

    /// Recomputes the resolved path from the identity fields.
    pub(crate) fn set_path(&mut self) -> (r: &mut Self)
        ensures
            (*r)@ == old(self)@.with_path_resolved(),
            *final(self) == *final(r),
    {
        let path = self.calculate_path();
        self.path = path;
        self
    }

    /// Combines the identity fields into the output path, appending the
    /// series index to the name when a series is set.  Yields nothing while
    /// any of the four required fields is missing.
    fn calculate_path(&self) -> (r: Option<String>)
        ensures
            r.deep_view() == self@.resolve(),
    {
        if self.project_path.is_some() && self.output_path.is_some() && self.name.is_some()
            && self.extension.is_some() {
            let mut path = self.project_path.as_ref().unwrap().clone();
            path.append("/");
            path.append(self.output_path.as_ref().unwrap().as_str());
            path.append("/");
            path.append(self.name.as_ref().unwrap().as_str());
            if let Some((_n_files, index)) = self.series {
                path.append("_");
                let digits = usize_to_dec(index);
                path.append(digits.as_str());
            }
            path.append(".");
            path.append(self.extension.as_ref().unwrap().as_str());
            proof {
                assert(path@ =~= self@.resolve()->0);
            }
            Some(path)
        } else {
            None
        }
    }

    /// Resolves the path and hands back the finished descriptor.
    pub fn build(&mut self) -> (r: Self)
        ensures
            final(self)@ == old(self)@.with_path_resolved(),
            r@ == final(self)@,
    {
        self.set_path().clone()
    }

    /// Changes the path to the root project directory; permitted only once
    /// initialized, and re-resolves the path.
    pub fn change_project_path(&mut self, project_path: &str)
        ensures
            final(self)@ == old(self)@.with_project_path_changed(project_path@),
    {
        if self.initialized() {
            self.project_path = Some(project_path.to_owned());
            self.set_path();
        }
    }

    /// Changes the output directory path; permitted only once initialized.
    pub fn change_output_path(&mut self, output_path: &str)
        ensures
            final(self)@ == old(self)@.with_output_path_changed(output_path@),
    {
        if self.initialized() {
            self.output_path = Some(output_path.to_owned());
            self.set_path();
        }
    }

    /// Changes the name of the output file; permitted only once initialized.
    pub fn change_file_name(&mut self, name: &str)
        ensures
            final(self)@ == old(self)@.with_file_name_changed(name@),
    {
        if self.initialized() {
            self.name = Some(name.to_owned());
            self.set_path();
        }
    }

    /// Changes the extension of the output file; permitted only once
    /// initialized.
    pub fn change_extension(&mut self, extension: &str)
        ensures
            final(self)@ == old(self)@.with_extension_changed(extension@),
    {
        if self.initialized() {
            self.extension = Some(extension.to_owned());
            self.set_path();
        }
    }

    /// Changes the index of a series descriptor; permitted only once
    /// initialized, and a no-op unless a series is set.
    pub fn change_file_index(&mut self, index: usize)
        ensures
            final(self)@ == old(self)@.with_file_index(index),
    {
        if self.initialized() {
            if let Some((n_files, _)) = self.series {
                self.series = Some((n_files, index));
                self.set_path();
            }
        }
    }

    /// Grants or revokes write permission.
    pub fn change_write_permission(&mut self, writable: bool)
        ensures
            final(self)@ == (DescModel { writable, ..old(self)@ }),
    {
        self.writable = writable;
    }

    /// The resolved path of the output file.  Callers must resolve the
    /// descriptor first.
    pub fn path(&self) -> (r: &String)
        requires
            self@.initialized(),
        ensures
            Some(r@) == self@.path,
    {
        match &self.path {
            Some(path) => path,
            None => vstd::pervasive::unreached(),
        }
    }

    /// The resolved path of the output file, as an owned string.
    pub fn path_string(&self) -> (r: String)
        requires
            self@.initialized(),
        ensures
            Some(r@) == self@.path,
    {
        self.path().clone()
    }

    /// Creates the output file — or, for a series of `n` files, all `n` of
    /// them — under the descriptor's resolved path, truncating whatever was
    /// there, writing the header line when one is set, and granting write
    /// permission.
    pub fn initialize_output(&mut self, disk: &mut Disk)
        requires
            old(self)@.wf(),
            old(self)@.fields_set() || old(self)@.initialized(),
        ensures
            final(self)@ == old(self)@.after_initialize(),
            final(disk)@ == disk_after_initialize(old(self)@, old(disk)@),
    {
        if !self.initialized() {
            self.set_path();
        }
        let ghost d1 = self@;
        // Create the output directory.
        let (parent, _file) = crate::text::split_last_slash(self.path().as_str());
        proof {
            assert(parent@ == parent_of(d1.path->0));
        }
        disk.ensure_dir(parent.as_str());
        // Create the file, or every file of the series.
        match self.series {
            None => {
                let path = self.path_string();
                Self::initialize_file(path.as_str(), &self.header, disk);
            },
            Some((n_files, _)) => {
                let count = n_files as usize;
                for i in 0..count
                    invariant
                        self@ == if i == 0 {
                            d1
                        } else {
                            d1.with_file_index((i - 1) as usize)
                        },
                        disk@ == series_written(old(disk)@, d1, i as int),
                        d1.wf(),
                        d1.initialized(),
                        d1.fields_set(),
                        d1.series is Some,
                        count == (d1.series->0).0,
                        d1.header == old(self)@.header,
                {
                    self.change_file_index(i);
                    proof {
                        lemma_with_file_index_again(d1, i);
                        assert(self@.path == Some(d1.path_at(i as nat)));
                    }
                    let path = self.path_string();
                    Self::initialize_file(path.as_str(), &self.header, disk);
                }
            },
        }
        self.writable = true;
    }

    /// Creates one file, truncating whatever was there, and writes the
    /// header line when one is set.
    fn initialize_file(path: &str, header: &Option<String>, disk: &mut Disk)
        ensures
            final(disk)@ == old(disk)@.insert(path@, header_line(header.deep_view())),
    {
        let contents = match header {
            Some(header_str) => {
                let mut line = header_str.clone();
                line.append("\n");
                line
            },
            None => String::new(),
        };
        disk.write_file(path, contents);
    }

    /// The current write permission.
    pub fn writable(&self) -> (r: bool)
        ensures
            r == self@.writable,
    {
        self.writable
    }
}

/// Re-indexing an already re-indexed descriptor lands where re-indexing the
/// original would.
proof fn lemma_with_file_index_again(d: DescModel, index: usize)
    requires
        d.wf(),
        d.initialized(),
        d.series is Some,
    ensures
        forall|j: usize| #[trigger] d.with_file_index(j).with_file_index(index) == d.with_file_index(
            index,
        ),
        d.with_file_index(index).path == Some(d.path_at(index as nat)),
{
    assert forall|j: usize| #[trigger]
        d.with_file_index(j).with_file_index(index) == d.with_file_index(index) by {
        assert(d.with_file_index(j).with_file_index(index) =~= d.with_file_index(index));
    }
}

} // verus!
