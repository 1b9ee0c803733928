//! Laws of the file lifecycle, stated over the models and proved for all
//! inputs: setter order does not matter, resolution is gated on the four
//! identity fields, series materialization writes exactly the indexed
//! files, the collision-policy matrix, and re-running a batch under the
//! Overwrite policy changes nothing.

use vstd::prelude::*;

use crate::descriptor::disk_after_initialize;
use crate::descriptor::header_line;
use crate::descriptor::joined;
use crate::descriptor::series_written;
use crate::descriptor::DescModel;
use crate::project::archive_dest_of;
use crate::project::batch_outcome;
use crate::project::injected;
use crate::project::try_init_outcome;
use crate::project::OverwriteType;
use crate::project::ProjectModel;
use crate::text::lemma_dec_str_len;

verus! {

/// One call of an identity setter during the builder phase.
pub enum SetterStep {
    Header(Seq<char>),
    ProjectPath(Seq<char>),
    OutputPath(Seq<char>),
    FileName(Seq<char>),
    Extension(Seq<char>),
    SeriesCount(u32),
}

/// A tag for the identity field a setter call touches.
pub open spec fn setter_field(s: SetterStep) -> int {
    match s {
        SetterStep::Header(_) => 0,
        SetterStep::ProjectPath(_) => 1,
        SetterStep::OutputPath(_) => 2,
        SetterStep::FileName(_) => 3,
        SetterStep::Extension(_) => 4,
        SetterStep::SeriesCount(_) => 5,
    }
}

/// What one setter call does to a descriptor.
pub open spec fn apply_setter(d: DescModel, s: SetterStep) -> DescModel {
    match s {
        SetterStep::Header(h) => d.with_header(h),
        SetterStep::ProjectPath(p) => d.with_project_path(p),
        SetterStep::OutputPath(o) => d.with_output_path(o),
        SetterStep::FileName(n) => d.with_file_name(n),
        SetterStep::Extension(e) => d.with_extension(e),
        SetterStep::SeriesCount(n) => d.with_series(n),
    }
}

/// Path determinism, order-invariance half: two setter calls that touch
/// distinct identity fields may be made in either order; the descriptor
/// comes out the same.  Together with [`lemma_path_determinism`], the
/// resolved path depends only on the final identity fields, not on the
/// order the setters were called in.
pub proof fn lemma_setter_order_irrelevant(d: DescModel, a: SetterStep, b: SetterStep)
    requires
        setter_field(a) != setter_field(b),
    ensures
        apply_setter(apply_setter(d, a), b) == apply_setter(apply_setter(d, b), a),
{
}

/// Path determinism, formula half: a descriptor whose four identity fields
/// are set resolves to `project_path / output_path / name.extension`, with
/// the series index appended to the name when a series is set.
pub proof fn lemma_path_determinism(d: DescModel)
    requires
        d.fields_set(),
    ensures
        d.resolve() == Some(
            joined(d.project_path->0, d.output_path->0, d.effective_name(), d.extension->0),
        ),
        d.series is None ==> d.resolve() == Some(d.unsuffixed_path()),
{
}

/// Resolution gating: resolving yields a path exactly when all four of
/// project path, output path, name and extension are set, whichever
/// subset of the fields is set.
pub proof fn lemma_resolution_gating(d: DescModel)
    ensures
        d.with_path_resolved().initialized() <==> d.fields_set(),
        d.with_path_resolved().path is None <==> (d.project_path is None || d.output_path is None
            || d.name is None || d.extension is None),
{
}

/// A series path differs from the unsuffixed path: the suffix makes it
/// strictly longer.
proof fn lemma_path_at_ne_unsuffixed(d: DescModel, i: nat)
    ensures
        d.path_at(i) != d.unsuffixed_path(),
{
    lemma_dec_str_len(i);
    assert(d.path_at(i).len() > d.unsuffixed_path().len());
}

/// Every indexed file of a materialized series exists and holds just the
/// header line.
proof fn lemma_series_written_contains(m: Map<Seq<char>, Seq<char>>, d: DescModel, n: int)
    ensures
        forall|i: int|
            0 <= i < n ==> series_written(m, d, n).contains_key(#[trigger] d.path_at(i as nat))
                && series_written(m, d, n)[d.path_at(i as nat)] == header_line(d.header),
    decreases n,
{
    if n > 0 {
        lemma_series_written_contains(m, d, n - 1);
    }
}

/// A key that is no indexed path of the series is untouched by
/// materializing it.
proof fn lemma_series_written_other(
    m: Map<Seq<char>, Seq<char>>,
    d: DescModel,
    n: int,
    k: Seq<char>,
)
    requires
        forall|i: int| 0 <= i < n ==> k != #[trigger] d.path_at(i as nat),
    ensures
        series_written(m, d, n).contains_key(k) == m.contains_key(k),
        m.contains_key(k) ==> series_written(m, d, n)[k] == m[k],
    decreases n,
{
    if n > 0 {
        lemma_series_written_other(m, d, n - 1, k);
    }
}

/// Series materialization: initializing a descriptor with a series of `n`
/// files creates exactly the files `name_0.ext` … `name_{n-1}.ext`, each
/// holding just the header line, and never the unsuffixed `name.ext`.
pub proof fn lemma_series_materialization(d: DescModel, m: Map<Seq<char>, Seq<char>>)
    requires
        d.wf(),
        d.fields_set(),
        d.series is Some,
    ensures
        ({
            let n = (d.series->0).0 as int;
            let files = disk_after_initialize(d, m);
            &&& forall|i: int|
                0 <= i < n ==> files.contains_key(#[trigger] d.path_at(i as nat))
                    && files[d.path_at(i as nat)] == header_line(d.header)
            &&& !m.contains_key(d.unsuffixed_path()) ==> !files.contains_key(d.unsuffixed_path())
        }),
{
    let d1 = if d.initialized() {
        d
    } else {
        d.with_path_resolved()
    };
    let n = (d.series->0).0 as int;
    assert(forall|i: nat| d1.path_at(i) == d.path_at(i));
    assert(d1.header == d.header);
    lemma_series_written_contains(m, d1, n);
    assert forall|i: int| 0 <= i < n implies d.unsuffixed_path() != #[trigger] d1.path_at(
        i as nat,
    ) by {
        lemma_path_at_ne_unsuffixed(d, i as nat);
    }
    lemma_series_written_other(m, d1, n, d.unsuffixed_path());
}

/// The collision-policy matrix for a resolved single-file descriptor whose
/// target path already holds a file: Panic stops the batch and touches
/// nothing; Archive copies the old contents aside and then truncates the
/// original; Overwrite truncates without keeping a copy; Ignore leaves the
/// file alone and revokes the descriptor's write permission.
pub proof fn lemma_policy_matrix(pm: ProjectModel, d: DescModel, m: Map<Seq<char>, Seq<char>>)
    requires
        d.wf(),
        d.initialized(),
        d.series is None,
        m.contains_key(d.path->0),
    ensures
        ({
            let (d2, m2, ok) = try_init_outcome(pm, d, m);
            let target = d.path->0;
            let dest = archive_dest_of(pm.path, target);
            match pm.overwrite_type {
                OverwriteType::Panic => {
                    &&& !ok
                    &&& d2 == d
                    &&& m2 == m
                },
                OverwriteType::Archive => {
                    &&& ok
                    &&& m2 == m.insert(dest, m[target]).insert(target, header_line(d.header))
                    &&& m2[target] == header_line(d.header)
                    &&& dest != target ==> m2[dest] == m[target]
                },
                OverwriteType::Overwrite => {
                    &&& ok
                    &&& m2 == m.insert(target, header_line(d.header))
                    &&& (dest != target && !m.contains_key(dest)) ==> !m2.contains_key(dest)
                },
                OverwriteType::Ignore => {
                    &&& ok
                    &&& m2 == m
                    &&& d2 == (DescModel { writable: false, ..d })
                    &&& !d2.writable
                },
            }
        }),
{
}

/// The policy matrix's other column: when no file exists at the target
/// path, every policy materializes the descriptor normally.
pub proof fn lemma_policy_no_collision(pm: ProjectModel, d: DescModel, m: Map<Seq<char>, Seq<char>>)
    requires
        d.wf(),
        d.initialized(),
        !m.contains_key(d.path->0),
    ensures
        try_init_outcome(pm, d, m) == (d.after_initialize(), disk_after_initialize(d, m), true),
{
}

/// Whether the series indices `0..n` of `d` include one whose path is `k`.
spec fn series_writes_key(d: DescModel, n: int, k: Seq<char>) -> bool
    decreases n,
{
    if n <= 0 {
        false
    } else {
        k == d.path_at((n - 1) as nat) || series_writes_key(d, n - 1, k)
    }
}

/// Whether materializing descriptor `d` writes the file at `k`.
spec fn writes_key(d: DescModel, k: Seq<char>) -> bool {
    let d1 = if d.initialized() {
        d
    } else {
        d.with_path_resolved()
    };
    match d1.series {
        None => k == d1.path->0,
        Some((n_files, _)) => series_writes_key(d1, n_files as int, k),
    }
}

/// How materializing one descriptor's series changes the file at one path.
proof fn lemma_series_written_key(m: Map<Seq<char>, Seq<char>>, d: DescModel, n: int, k: Seq<char>)
    ensures
        series_written(m, d, n).contains_key(k) == (m.contains_key(k) || series_writes_key(
            d,
            n,
            k,
        )),
        series_writes_key(d, n, k) ==> series_written(m, d, n)[k] == header_line(d.header),
        !series_writes_key(d, n, k) && m.contains_key(k) ==> series_written(m, d, n)[k] == m[k],
    decreases n,
{
    if n > 0 {
        lemma_series_written_key(m, d, n - 1, k);
    }
}

/// Pointwise effect of materializing one descriptor.
proof fn lemma_disk_after_key(d: DescModel, m: Map<Seq<char>, Seq<char>>, k: Seq<char>)
    ensures
        disk_after_initialize(d, m).contains_key(k) == (m.contains_key(k) || writes_key(d, k)),
        writes_key(d, k) ==> disk_after_initialize(d, m)[k] == header_line(d.header),
        !writes_key(d, k) && m.contains_key(k) ==> disk_after_initialize(d, m)[k] == m[k],
{
    let d1 = if d.initialized() {
        d
    } else {
        d.with_path_resolved()
    };
    match d1.series {
        None => {
            assert(d1.header == d.header);
            assert(disk_after_initialize(d, m) == m.insert(d1.path->0, header_line(d1.header)));
            assert(writes_key(d, k) == (k == d1.path->0));
        },
        Some((n_files, _)) => {
            assert(d1.header == d.header);
            assert(disk_after_initialize(d, m) == series_written(m, d1, n_files as int));
            lemma_series_written_key(m, d1, n_files as int, k);
            assert(writes_key(d, k) == series_writes_key(d1, n_files as int, k));
        },
    }
}

/// A descriptor the batch leaves exactly as it is: injecting the defaults
/// and materializing are both no-ops on it.
spec fn batch_fixed_point(pm: ProjectModel, d: DescModel) -> bool {
    injected(pm, d) == d && d.after_initialize() == d
}

/// The files after materializing each descriptor in order, never looking at
/// what is already there: what a batch under the Overwrite policy does to
/// the tree.
spec fn overwrite_fold(ds: Seq<DescModel>, m: Map<Seq<char>, Seq<char>>) -> Map<
    Seq<char>,
    Seq<char>,
>
    decreases ds.len(),
{
    if ds.len() == 0 {
        m
    } else {
        overwrite_fold(ds.skip(1), disk_after_initialize(ds[0], m))
    }
}

/// Whether any descriptor of the batch writes the file at `k`.
spec fn seq_writes_key(ds: Seq<DescModel>, k: Seq<char>) -> bool {
    exists|i: int| 0 <= i < ds.len() && writes_key(#[trigger] ds[i], k)
}

/// The contents the last descriptor that writes `k` gives it.
spec fn last_write_val(ds: Seq<DescModel>, k: Seq<char>) -> Seq<char>
    decreases ds.len(),
{
    if ds.len() == 0 {
        Seq::empty()
    } else if seq_writes_key(ds.skip(1), k) {
        last_write_val(ds.skip(1), k)
    } else {
        header_line(ds[0].header)
    }
}

/// `seq_writes_key` splits into the first descriptor and the rest.
proof fn lemma_seq_writes_key_split(ds: Seq<DescModel>, k: Seq<char>)
    requires
        ds.len() > 0,
    ensures
        seq_writes_key(ds, k) == (writes_key(ds[0], k) || seq_writes_key(ds.skip(1), k)),
{
    if seq_writes_key(ds, k) {
        let i = choose|i: int| 0 <= i < ds.len() && writes_key(#[trigger] ds[i], k);
        if i > 0 {
            assert(ds.skip(1)[i - 1] == ds[i]);
            assert(writes_key(ds.skip(1)[i - 1], k));
        }
    }
    if writes_key(ds[0], k) {
        assert(0 <= 0 < ds.len() && writes_key(ds[0], k));
    }
    if seq_writes_key(ds.skip(1), k) {
        let j = choose|j: int| 0 <= j < ds.skip(1).len() && writes_key(#[trigger] ds.skip(1)[j], k);
        assert(ds[j + 1] == ds.skip(1)[j]);
        assert(writes_key(ds[j + 1], k));
    }
}

/// Pointwise effect of materializing a whole batch: a written path holds
/// what its last writer gave it, and every other path is untouched.
proof fn lemma_fold_key(ds: Seq<DescModel>, m: Map<Seq<char>, Seq<char>>, k: Seq<char>)
    ensures
        overwrite_fold(ds, m).contains_key(k) == (m.contains_key(k) || seq_writes_key(ds, k)),
        seq_writes_key(ds, k) ==> overwrite_fold(ds, m)[k] == last_write_val(ds, k),
        !seq_writes_key(ds, k) && m.contains_key(k) ==> overwrite_fold(ds, m)[k] == m[k],
    decreases ds.len(),
{
    if ds.len() > 0 {
        let m1 = disk_after_initialize(ds[0], m);
        lemma_disk_after_key(ds[0], m, k);
        lemma_fold_key(ds.skip(1), m1, k);
        lemma_seq_writes_key_split(ds, k);
    } else {
        assert(!seq_writes_key(ds, k));
    }
}

/// Materializing a descriptor writes the same files before and after the
/// descriptor itself was materialized: the series index it is left at does
/// not matter.
proof fn lemma_disk_after_of_initialized(d: DescModel, x: Map<Seq<char>, Seq<char>>)
    requires
        d.wf(),
        d.initialized(),
    ensures
        disk_after_initialize(d.after_initialize(), x) == disk_after_initialize(d, x),
{
    let d2 = d.after_initialize();
    assert(d2.initialized());
    match d.series {
        None => {
            assert(d2.path == d.path);
        },
        Some((n_files, _)) => {
            assert(forall|i: nat| d2.path_at(i) == d.path_at(i));
            lemma_series_written_congruent(x, d2, d, n_files as int);
        },
    }
}

/// Two descriptors with the same identity fields materialize a series the
/// same way.
proof fn lemma_series_written_congruent(
    m: Map<Seq<char>, Seq<char>>,
    a: DescModel,
    b: DescModel,
    n: int,
)
    requires
        a.header == b.header,
        forall|i: nat| a.path_at(i) == b.path_at(i),
    ensures
        series_written(m, a, n) == series_written(m, b, n),
    decreases n,
{
    if n > 0 {
        lemma_series_written_congruent(m, a, b, n - 1);
    }
}

/// Injecting the project defaults into a usable descriptor and
/// materializing it yields a fixed point of the batch: a second pass
/// changes it no further.
proof fn lemma_injected_fixed_point(pm: ProjectModel, d: DescModel)
    requires
        d.wf(),
        d.name is Some,
        d.output_path is Some,
    ensures
        ({
            let d1 = injected(pm, d);
            let d2 = d1.after_initialize();
            &&& d1.wf()
            &&& d1.initialized()
            &&& d2.wf()
            &&& d2.initialized()
            &&& d2.writable
            &&& batch_fixed_point(pm, d2)
        }),
{
    let d1 = injected(pm, d);
    let d2 = d1.after_initialize();
    assert(d1.fields_set());
    assert(d1.initialized() && d1.wf());
    match d1.series {
        None => {
            assert(d2 == (DescModel { writable: true, ..d1 }));
        },
        Some((n_files, _)) => {
            if n_files > 0 {
                let d3 = d1.with_file_index((n_files - 1) as usize);
                assert(d3.path == d3.resolve());
                assert(d2 == (DescModel { writable: true, ..d3 }));
            }
        },
    }
    assert(d2.wf() && d2.initialized() && d2.writable);
    assert(injected(pm, d2) == d2);
    match d2.series {
        None => {
            assert(d2.after_initialize() == d2);
        },
        Some((n_files, _)) => {
            if n_files > 0 {
                assert(d2.series == Some((n_files, (n_files - 1) as usize)));
                assert(d2.with_file_index((n_files - 1) as usize) == d2);
            }
            assert(d2.after_initialize() == d2);
        },
    }
}

/// A batch over fixed-point descriptors succeeds, changes none of them,
/// and rewrites exactly their files.
proof fn lemma_batch_fixed_points(pm: ProjectModel, ds: Seq<DescModel>, m: Map<Seq<char>, Seq<char>>)
    requires
        pm.overwrite_type is Overwrite,
        forall|i: int|
            0 <= i < ds.len() ==> batch_fixed_point(pm, #[trigger] ds[i]) && ds[i].wf()
                && ds[i].initialized(),
    ensures
        batch_outcome(pm, ds, m) == (ds, overwrite_fold(ds, m), true),
    decreases ds.len(),
{
    if ds.len() > 0 {
        let m1 = disk_after_initialize(ds[0], m);
        assert forall|i: int|
            0 <= i < ds.skip(1).len() implies batch_fixed_point(pm, #[trigger] ds.skip(1)[i])
            && ds.skip(1)[i].wf() && ds.skip(1)[i].initialized() by {
            assert(ds.skip(1)[i] == ds[i + 1]);
        }
        lemma_batch_fixed_points(pm, ds.skip(1), m1);
        assert(seq![ds[0]] + ds.skip(1) =~= ds);
    }
}

/// A batch under the Overwrite policy succeeds, leaves every descriptor a
/// writable fixed point, and rewrites exactly the descriptors' files.
proof fn lemma_overwrite_run(pm: ProjectModel, ds: Seq<DescModel>, m: Map<Seq<char>, Seq<char>>)
    requires
        pm.overwrite_type is Overwrite,
        forall|i: int|
            0 <= i < ds.len() ==> {
                &&& (#[trigger] ds[i]).wf()
                &&& ds[i].name is Some
                &&& ds[i].output_path is Some
            },
    ensures
        ({
            let (ds1, m1, ok1) = batch_outcome(pm, ds, m);
            &&& ok1
            &&& ds1.len() == ds.len()
            &&& forall|i: int|
                0 <= i < ds1.len() ==> {
                    &&& batch_fixed_point(pm, #[trigger] ds1[i])
                    &&& ds1[i].wf()
                    &&& ds1[i].initialized()
                    &&& ds1[i].writable
                }
            &&& m1 == overwrite_fold(ds1, m)
        }),
    decreases ds.len(),
{
    if ds.len() > 0 {
        let d1 = injected(pm, ds[0]);
        let d2 = d1.after_initialize();
        lemma_injected_fixed_point(pm, ds[0]);
        let m_a = disk_after_initialize(d1, m);
        assert forall|i: int|
            0 <= i < ds.skip(1).len() implies {
            &&& (#[trigger] ds.skip(1)[i]).wf()
            &&& ds.skip(1)[i].name is Some
            &&& ds.skip(1)[i].output_path is Some
        } by {
            assert(ds.skip(1)[i] == ds[i + 1]);
        }
        lemma_overwrite_run(pm, ds.skip(1), m_a);
        let (rest1, m1, ok1) = batch_outcome(pm, ds.skip(1), m_a);
        let ds1 = seq![d2] + rest1;
        assert(batch_outcome(pm, ds, m) == (ds1, m1, ok1));
        assert forall|i: int|
            0 <= i < ds1.len() implies {
            &&& batch_fixed_point(pm, #[trigger] ds1[i])
            &&& ds1[i].wf()
            &&& ds1[i].initialized()
            &&& ds1[i].writable
        } by {
            if i > 0 {
                assert(ds1[i] == rest1[i - 1]);
            }
        }
        // m1 == fold(ds1, m): the first write is the same whether made by
        // the injected descriptor or by its materialized fixed point.
        lemma_disk_after_of_initialized(d1, m);
        assert(disk_after_initialize(d2, m) == m_a);
        assert(overwrite_fold(ds1, m) == overwrite_fold(ds1.skip(1), disk_after_initialize(
            ds1[0],
            m,
        )));
        assert(ds1.skip(1) =~= rest1);
        assert(m1 == overwrite_fold(rest1, m_a));
    }
}

/// Idempotent re-run: running batch initialization twice under the
/// Overwrite policy gives the second run nothing to change — the
/// descriptors (and so their resolved paths) and the files come out of the
/// second run exactly as they came out of the first, every descriptor
/// writable.
pub proof fn lemma_overwrite_rerun_idempotent(
    pm: ProjectModel,
    ds: Seq<DescModel>,
    m: Map<Seq<char>, Seq<char>>,
)
    requires
        pm.overwrite_type is Overwrite,
        forall|i: int|
            0 <= i < ds.len() ==> {
                &&& (#[trigger] ds[i]).wf()
                &&& ds[i].name is Some
                &&& ds[i].output_path is Some
            },
    ensures
        ({
            let (ds1, m1, ok1) = batch_outcome(pm, ds, m);
            let (ds2, m2, ok2) = batch_outcome(pm, ds1, m1);
            &&& ok1
            &&& ok2
            &&& ds2 == ds1
            &&& m2 == m1
            &&& forall|i: int|
                0 <= i < ds1.len() ==> (#[trigger] ds1[i]).writable && ds1[i].initialized()
        }),
{
    lemma_overwrite_run(pm, ds, m);
    let (ds1, m1, ok1) = batch_outcome(pm, ds, m);
    lemma_batch_fixed_points(pm, ds1, m1);
    assert(overwrite_fold(ds1, m1) =~= m1) by {
        assert forall|k: Seq<char>|
            #[trigger] overwrite_fold(ds1, m1).contains_key(k) == m1.contains_key(k) && (
            m1.contains_key(k) ==> overwrite_fold(ds1, m1)[k] == m1[k]) by {
            lemma_fold_key(ds1, m1, k);
            lemma_fold_key(ds1, m, k);
        }
    }
}

/// Header contract: materializing a single-file descriptor writes the
/// header followed by a newline as the file's whole contents, and leaves
/// the file empty when no header is set.
pub proof fn lemma_header_contract(d: DescModel, m: Map<Seq<char>, Seq<char>>)
    requires
        d.wf(),
        d.fields_set(),
        d.series is None,
    ensures
        ({
            let files = disk_after_initialize(d, m);
            &&& files.contains_key(d.unsuffixed_path())
            &&& d.header is Some ==> files[d.unsuffixed_path()] == d.header->0 + "\n"@
            &&& d.header is None ==> files[d.unsuffixed_path()] == Seq::<char>::empty()
        }),
{
}

} // verus!
