//! The batch orchestrator: turns the current selection and a configuration
//! snapshot into one job per file, plans the output directories so that
//! each unique directory is created exactly once per run, and keeps the
//! per-item progress state and the run-scoped totals consistent.
use vstd::prelude::*;

use crate::utils::{Dimensions, Resize};
use crate::{SelectedFile, Settings};

verus! {

/// The transform-relevant part of [`Settings`], captured once when a run
/// starts so that in-flight jobs are unaffected by later edits.
#[derive(Clone, Copy, PartialEq, Eq, Structural, Debug)]
pub struct ConfigSnapshot {
    pub resize_method: Resize,
    pub dimensions: Dimensions,
    pub dimensions_relative: u32,
    pub compression_quality: usize,
}

/// The snapshot that a run takes of `s`.
pub open spec fn spec_snapshot(s: Settings) -> ConfigSnapshot {
    ConfigSnapshot {
        resize_method: s.resize_method,
        dimensions: s.dimensions,
        dimensions_relative: s.dimensions_relative,
        compression_quality: s.compression_quality,
    }
}

pub fn snapshot_of(settings: &Settings) -> (r: ConfigSnapshot)
    ensures
        r == spec_snapshot(*settings),
{
    ConfigSnapshot {
        resize_method: settings.resize_method,
        dimensions: settings.dimensions,
        dimensions_relative: settings.dimensions_relative,
        compression_quality: settings.compression_quality,
    }
}

/// One self-contained unit of work: transform `input_path` into
/// `output_path` under the captured configuration. Immutable once created;
/// consumed exactly once by exactly one worker.
pub struct Job {
    pub input_path: String,
    pub output_path: String,
    pub config: ConfigSnapshot,
}

/// `a` and `b` joined with a `/`; an empty left side yields `b` alone.
pub open spec fn spec_path_join(a: Seq<char>, b: Seq<char>) -> Seq<char> {
    if a.len() == 0 {
        b
    } else {
        a + seq!['/'] + b
    }
}

pub fn path_join(a: &str, b: &str) -> (r: String)
    ensures
        r@ == spec_path_join(a@, b@),
{
    if a.unicode_len() == 0 {
        String::from_str(b)
    } else {
        let mut s = String::from_str(a);
        s.append("/");
        s.append(b);
        proof {
            reveal_strlit("/");
            assert(s@ =~= a@ + seq!['/'] + b@);
        }
        s
    }
}

/// The directory a file's result is written to: the configured output
/// folder name under either the configured parent override or the file's
/// own parent folder.
pub open spec fn spec_out_dir(f: SelectedFile, s: Settings) -> Seq<char> {
    match s.output_folder_parent_dir_path {
        Some(p) => spec_path_join(p@, s.output_folder_name@),
        None => spec_path_join(f.parent_folder@, s.output_folder_name@),
    }
}

pub fn out_dir_of(f: &SelectedFile, settings: &Settings) -> (r: String)
    ensures
        r@ == spec_out_dir(*f, *settings),
{
    match &settings.output_folder_parent_dir_path {
        Some(p) => path_join(p.as_str(), settings.output_folder_name.as_str()),
        None => path_join(f.parent_folder.as_str(), settings.output_folder_name.as_str()),
    }
}

/// The result's file name: when the output directory coincides with the
/// file's own parent folder, the name takes a `min-` prefix so the source
/// is not overwritten; otherwise the name is kept.
pub open spec fn spec_out_name(f: SelectedFile, s: Settings) -> Seq<char> {
    if spec_out_dir(f, s) == f.parent_folder@ {
        "min-"@ + f.name@
    } else {
        f.name@
    }
}

/// The full path the file's result is written to.
pub open spec fn spec_output_path(f: SelectedFile, s: Settings) -> Seq<char> {
    spec_path_join(spec_out_dir(f, s), spec_out_name(f, s))
}

/// Whether `j` is the job that a run under `s` builds for `f`.
pub open spec fn is_job_for(j: Job, f: SelectedFile, s: Settings) -> bool {
    &&& j.input_path@ == f.path@
    &&& j.output_path@ == spec_output_path(f, s)
    &&& j.config == spec_snapshot(s)
}

/// Builds the job for one file: the input path, the resolved output path,
/// and the configuration snapshot.
pub fn build_job(f: &SelectedFile, settings: &Settings) -> (r: Job)
    ensures
        is_job_for(r, *f, *settings),
{
    let out_dir = out_dir_of(f, settings);
    let out_name = if out_dir == f.parent_folder {
        let mut s = String::from_str("min-");
        s.append(f.name.as_str());
        proof {
            reveal_strlit("min-");
            assert(s@ =~= "min-"@ + f.name@);
        }
        s
    } else {
        String::from_str(f.name.as_str())
    };
    let output_path = path_join(out_dir.as_str(), out_name.as_str());
    Job {
        input_path: String::from_str(f.path.as_str()),
        output_path,
        config: snapshot_of(settings),
    }
}

/// The views of a sequence of owned strings.
pub open spec fn dir_views(dirs: Seq<String>) -> Seq<Seq<char>> {
    Seq::new(dirs.len(), |k: int| dirs[k]@)
}

/// What a run must create and submit: the unique output directories, in
/// the order first needed, and one job per selected file, in selection
/// order. Directories are created by the submitting thread before the jobs
/// targeting them are submitted, so no worker ever races on creation.
pub struct RunPlan {
    pub dirs_to_create: Vec<String>,
    pub jobs: Vec<Job>,
}

/// Whether `d` is the output directory of one of the first `hi` files.
pub open spec fn dir_is_needed(d: Seq<char>, files: Seq<SelectedFile>, s: Settings, hi: int) -> bool {
    exists|j: int| 0 <= j < hi && d == spec_out_dir(#[trigger] files[j], s)
}

/// Whether `plan` is the correct plan for `files` under `settings`: one
/// job per file with the resolved paths and the captured snapshot, and a
/// directory list that holds each needed output directory exactly once —
/// no duplicates, nothing missing, nothing extraneous — whatever order the
/// files come in.
pub open spec fn is_run_plan_for(plan: RunPlan, files: Seq<SelectedFile>, s: Settings) -> bool {
    &&& plan.jobs@.len() == files.len()
    &&& forall|i: int| 0 <= i < files.len() ==> is_job_for(#[trigger] plan.jobs@[i], files[i], s)
    &&& dir_views(plan.dirs_to_create@).no_duplicates()
    &&& forall|i: int|
        0 <= i < files.len() ==> dir_views(plan.dirs_to_create@).contains(
            #[trigger] spec_out_dir(files[i], s),
        )
    &&& forall|k: int|
        0 <= k < plan.dirs_to_create@.len() ==> dir_is_needed(
            #[trigger] dir_views(plan.dirs_to_create@)[k],
            files,
            s,
            files.len() as int,
        )
}

/// Whether one of `dirs` reads as `d`.
fn contains_dir(dirs: &Vec<String>, d: &String) -> (r: bool)
    ensures
        r <==> dir_views(dirs@).contains(d@),
{
    let n = dirs.len();
    let mut k: usize = 0;
    while k < n
        invariant
            0 <= k <= n,
            n == dirs@.len(),
            forall|j: int| 0 <= j < k ==> #[trigger] dirs@[j]@ != d@,
        decreases n - k,
    {
        if dirs[k] == *d {
            proof {
                assert(dir_views(dirs@)[k as int] == d@);
            }
            return true;
        }
        k = k + 1;
    }
    proof {
        assert forall|j: int| 0 <= j < dir_views(dirs@).len() implies dir_views(dirs@)[j]
            != d@ by {}
    }
    false
}

/// Plans a run over the current selection: builds one job per file, in
/// order, and collects each needed output directory exactly once, by a
/// membership check over the whole run rather than a comparison with the
/// previous job's directory, so interleaved folders still deduplicate.
pub fn plan_run(files: &Vec<SelectedFile>, settings: &Settings) -> (r: RunPlan)
    ensures
        is_run_plan_for(r, files@, *settings),
{
    let n = files.len();
    let mut dirs_to_create: Vec<String> = Vec::new();
    let mut jobs: Vec<Job> = Vec::new();
    let mut i: usize = 0;
    while i < n
        invariant
            0 <= i <= n,
            n == files@.len(),
            jobs@.len() == i,
            forall|j: int|
                0 <= j < i ==> is_job_for(#[trigger] jobs@[j], files@[j], *settings),
            dir_views(dirs_to_create@).no_duplicates(),
            forall|j: int|
                0 <= j < i ==> dir_views(dirs_to_create@).contains(
                    #[trigger] spec_out_dir(files@[j], *settings),
                ),
            forall|k: int|
                0 <= k < dirs_to_create@.len() ==> dir_is_needed(
                    #[trigger] dir_views(dirs_to_create@)[k],
                    files@,
                    *settings,
                    i as int,
                ),
        decreases n - i,
    {
        let file = &files[i];
        let out_dir = out_dir_of(file, settings);
        if !contains_dir(&dirs_to_create, &out_dir) {
            let ghost old_dirs = dirs_to_create@;
            dirs_to_create.push(out_dir);
            proof {
                let dv_old = dir_views(old_dirs);
                let dv_new = dir_views(dirs_to_create@);
                let x = spec_out_dir(files@[i as int], *settings);
                assert(dv_new =~= dv_old.push(x));
                assert(dv_new[dv_old.len() as int] == x);
                assert forall|j: int| 0 <= j <= i as int implies dv_new.contains(
                    #[trigger] spec_out_dir(files@[j], *settings),
                ) by {
                    if j < i as int {
                        let k = choose|k: int|
                            0 <= k < dv_old.len() && dv_old[k] == spec_out_dir(
                                files@[j],
                                *settings,
                            );
                        assert(dv_new[k] == spec_out_dir(files@[j], *settings));
                    }
                }
                assert forall|k1: int, k2: int|
                    0 <= k1 < k2 < dv_new.len() implies dv_new[k1] != dv_new[k2] by {
                    if k2 == dv_new.len() - 1 {
                        assert(dv_new[k1] == dv_old[k1]);
                        if dv_new[k1] == x {
                            assert(dv_old.contains(x));
                        }
                    }
                }
                assert forall|k: int| 0 <= k < dv_new.len() implies dir_is_needed(
                    #[trigger] dv_new[k],
                    files@,
                    *settings,
                    i as int + 1,
                ) by {
                    if k < dv_old.len() {
                        assert(dir_is_needed(dv_old[k], files@, *settings, i as int));
                        let j = choose|j: int|
                            0 <= j < i as int && dv_old[k] == spec_out_dir(
                                #[trigger] files@[j],
                                *settings,
                            );
                        assert(dv_new[k] == spec_out_dir(files@[j], *settings));
                    } else {
                        assert(dv_new[k] == spec_out_dir(files@[i as int], *settings));
                    }
                }
            }
        }
        let job = build_job(file, settings);
        jobs.push(job);
        i = i + 1;
    }
    RunPlan { dirs_to_create, jobs }
}

/// The run-scoped totals: the sum of the selection's original sizes, and
/// the new bytes reported by the workers that have completed so far.
pub struct Aggregator {
    pub total_original: u64,
    pub total_new: u64,
}

/// The sum of the items' original sizes.
pub open spec fn sum_original(files: Seq<SelectedFile>) -> int
    decreases files.len(),
{
    if files.len() == 0 {
        0
    } else {
        sum_original(files.drop_last()) + files.last().size.original
    }
}

/// The sum of the items' last known new sizes.
pub open spec fn sum_new(files: Seq<SelectedFile>) -> int
    decreases files.len(),
{
    if files.len() == 0 {
        0
    } else {
        sum_new(files.drop_last()) + files.last().size.new
    }
}

/// What one item contributes to the aggregate new total: its new size once
/// its job has completed successfully, nothing before that and nothing on
/// failure.
pub open spec fn new_size_contribution(f: SelectedFile) -> int {
    if f.done && !f.failed {
        f.size.new as int
    } else {
        0
    }
}

/// The new bytes contributed by the successfully completed items.
pub open spec fn sum_completed_new(files: Seq<SelectedFile>) -> int
    decreases files.len(),
{
    if files.len() == 0 {
        0
    } else {
        sum_completed_new(files.drop_last()) + new_size_contribution(files.last())
    }
}

/// The run-wide consistency tie between the items and the aggregate: the
/// aggregate new total is exactly what the completed successful items have
/// reported. Established by [`start_run`] and preserved by every
/// [`complete_job`].
pub open spec fn totals_consistent(files: Seq<SelectedFile>, agg: Aggregator) -> bool {
    agg.total_new == sum_completed_new(files)
}

/// A prefix never sums to more than the whole.
proof fn lemma_sum_original_prefix_le(files: Seq<SelectedFile>, i: int)
    requires
        0 <= i <= files.len(),
    ensures
        sum_original(files.subrange(0, i)) <= sum_original(files),
    decreases files.len() - i,
{
    if i < files.len() {
        assert(files.subrange(0, i + 1).drop_last() =~= files.subrange(0, i));
        assert(files.subrange(0, i + 1).last() == files[i]);
        lemma_sum_original_prefix_le(files, i + 1);
    } else {
        assert(files.subrange(0, i) =~= files);
    }
}

/// Recomputes the displayed original total deterministically as the sum of
/// the selection's original sizes; `None` when that sum does not fit in a
/// `u64`.
pub fn compute_total_original(files: &Vec<SelectedFile>) -> (r: Option<u64>)
    ensures
        r is Some <==> sum_original(files@) <= u64::MAX,
        r matches Some(t) ==> t == sum_original(files@),
{
    let n = files.len();
    let mut acc: u64 = 0;
    let mut i: usize = 0;
    while i < n
        invariant
            0 <= i <= n,
            n == files@.len(),
            acc == sum_original(files@.subrange(0, i as int)),
        decreases n - i,
    {
        proof {
            assert(files@.subrange(0, i as int + 1).drop_last() =~= files@.subrange(0, i as int));
            assert(files@.subrange(0, i as int + 1).last() == files@[i as int]);
        }
        acc = match acc.checked_add(files[i].size.original) {
            Some(v) => v,
            None => {
                proof {
                    lemma_sum_original_prefix_le(files@, i as int + 1);
                }
                return None;
            },
        };
        i = i + 1;
    }
    proof {
        assert(files@.subrange(0, n as int) =~= files@);
    }
    Some(acc)
}

/// Changing one item changes `sum_completed_new` by the difference of that
/// item's contribution.
proof fn lemma_sum_completed_new_update(files: Seq<SelectedFile>, i: int, f: SelectedFile)
    requires
        0 <= i < files.len(),
    ensures
        sum_completed_new(files.update(i, f)) == sum_completed_new(files) - new_size_contribution(
            files[i],
        ) + new_size_contribution(f),
    decreases files.len(),
{
    let updated = files.update(i, f);
    if i == files.len() - 1 {
        assert(updated.drop_last() =~= files.drop_last());
        assert(updated.last() == f);
    } else {
        assert(updated.drop_last() =~= files.drop_last().update(i, f));
        assert(updated.last() == files.last());
        lemma_sum_completed_new_update(files.drop_last(), i, f);
    }
}

/// While no item is marked done, nothing has been contributed.
proof fn lemma_sum_completed_new_zero(files: Seq<SelectedFile>)
    requires
        forall|i: int| 0 <= i < files.len() ==> !(#[trigger] files[i]).done,
    ensures
        sum_completed_new(files) == 0,
    decreases files.len(),
{
    if files.len() > 0 {
        assert(files.last() == files[files.len() - 1]);
        lemma_sum_completed_new_zero(files.drop_last());
    }
}

/// Once every item is done and none failed, the completed contributions
/// are the full new sizes.
proof fn lemma_sum_completed_new_all_success(files: Seq<SelectedFile>)
    requires
        forall|i: int| 0 <= i < files.len() ==> (#[trigger] files[i]).done && !files[i].failed,
    ensures
        sum_completed_new(files) == sum_new(files),
    decreases files.len(),
{
    if files.len() > 0 {
        assert(files.last() == files[files.len() - 1]);
        lemma_sum_completed_new_all_success(files.drop_last());
    }
}

/// After a run in which every job completed successfully, the aggregate
/// new total equals the sum of every item's individual new size.
pub proof fn lemma_total_new_after_successful_run(files: Seq<SelectedFile>, agg: Aggregator)
    requires
        totals_consistent(files, agg),
        forall|i: int| 0 <= i < files.len() ==> (#[trigger] files[i]).done && !files[i].failed,
    ensures
        agg.total_new == sum_new(files),
{
    lemma_sum_completed_new_all_success(files);
}

/// When every file in a batch shares one source folder and no parent
/// override is configured, the plan creates exactly one output directory
/// over the whole run.
pub proof fn lemma_shared_folder_one_dir(plan: RunPlan, files: Seq<SelectedFile>, s: Settings)
    requires
        is_run_plan_for(plan, files, s),
        files.len() > 0,
        forall|i: int|
            0 <= i < files.len() ==> (#[trigger] files[i]).parent_folder@
                == files[0].parent_folder@,
    ensures
        plan.dirs_to_create@.len() == 1,
{
    let dv = dir_views(plan.dirs_to_create@);
    let d0 = spec_out_dir(files[0], s);
    assert forall|i: int| 0 <= i < files.len() implies spec_out_dir(#[trigger] files[i], s)
        == d0 by {
        assert(files[i].parent_folder@ == files[0].parent_folder@);
    }
    assert(dv.contains(d0));
    let k0 = choose|k: int| 0 <= k < dv.len() && dv[k] == d0;
    if plan.dirs_to_create@.len() > 1 {
        let other: int = if k0 == 0 {
            1
        } else {
            0
        };
        assert(dir_is_needed(dv[other], files, s, files.len() as int));
        let j = choose|j: int|
            0 <= j < files.len() && dv[other] == spec_out_dir(#[trigger] files[j], s);
        assert(dv[other] == d0);
        assert(dv[k0] == dv[other]);
    }
}

/// When a batch draws from exactly two distinct output directories —
/// however the items are interleaved, since nothing here speaks of order —
/// the plan creates each of the two exactly once.
pub proof fn lemma_two_folders_two_dirs(
    plan: RunPlan,
    files: Seq<SelectedFile>,
    s: Settings,
    d1: Seq<char>,
    d2: Seq<char>,
)
    requires
        is_run_plan_for(plan, files, s),
        d1 != d2,
        forall|i: int|
            0 <= i < files.len() ==> spec_out_dir(#[trigger] files[i], s) == d1 || spec_out_dir(
                files[i],
                s,
            ) == d2,
        exists|i: int| 0 <= i < files.len() && spec_out_dir(#[trigger] files[i], s) == d1,
        exists|i: int| 0 <= i < files.len() && spec_out_dir(#[trigger] files[i], s) == d2,
    ensures
        plan.dirs_to_create@.len() == 2,
{
    let dv = dir_views(plan.dirs_to_create@);
    let i1 = choose|i: int| 0 <= i < files.len() && spec_out_dir(#[trigger] files[i], s) == d1;
    let i2 = choose|i: int| 0 <= i < files.len() && spec_out_dir(#[trigger] files[i], s) == d2;
    assert(dv.contains(spec_out_dir(files[i1], s)));
    assert(dv.contains(spec_out_dir(files[i2], s)));
    let k1 = choose|k: int| 0 <= k < dv.len() && dv[k] == d1;
    let k2 = choose|k: int| 0 <= k < dv.len() && dv[k] == d2;
    assert(k1 != k2);
    // every listed directory is needed, so it is d1 or d2
    assert forall|k: int| 0 <= k < dv.len() implies dv[k] == d1 || dv[k] == d2 by {
        assert(dir_is_needed(dv[k], files, s, files.len() as int));
        let j = choose|j: int|
            0 <= j < files.len() && dv[k] == spec_out_dir(#[trigger] files[j], s);
        assert(spec_out_dir(files[j], s) == d1 || spec_out_dir(files[j], s) == d2);
    }
    // with no duplicates, three entries cannot share two values
    if dv.len() > 2 {
        assert(dv[0] != dv[1] && dv[0] != dv[2] && dv[1] != dv[2]);
        assert(false);
    }
}

/// Marks the start of a run: clears every item's completion state and
/// resets the aggregate new total to zero — exactly once, before any job
/// of the run is submitted, never between submissions.
pub fn start_run(files: &mut Vec<SelectedFile>, agg: &mut Aggregator)
    ensures
        final(files)@.len() == old(files)@.len(),
        forall|i: int|
            0 <= i < old(files)@.len() ==> {
                let f = #[trigger] final(files)@[i];
                let o = old(files)@[i];
                f.path == o.path && f.parent_folder == o.parent_folder && f.name == o.name
                    && f.size == o.size && !f.done && !f.failed
            },
        final(agg).total_original == old(agg).total_original,
        final(agg).total_new == 0,
        totals_consistent(final(files)@, *final(agg)),
{
    let n = files.len();
    let mut i: usize = 0;
    while i < n
        invariant
            0 <= i <= n,
            n == files@.len(),
            files@.len() == old(files)@.len(),
            forall|j: int|
                i <= j < n ==> #[trigger] files@[j] == old(files)@[j],
            forall|j: int|
                0 <= j < i ==> {
                    let f = #[trigger] files@[j];
                    let o = old(files)@[j];
                    f.path == o.path && f.parent_folder == o.parent_folder && f.name == o.name
                        && f.size == o.size && !f.done && !f.failed
                },
        decreases n - i,
    {
        let file = &mut files[i];
        file.done = false;
        file.failed = false;
        i = i + 1;
    }
    agg.total_new = 0;
    proof {
        lemma_sum_completed_new_zero(files@);
    }
}

/// What a worker reports for one finished job: the written file's size in
/// bytes on success, or that the transform (or the stat of its output)
/// failed.
#[derive(Clone, Copy, PartialEq, Eq, Structural, Debug)]
pub enum JobOutcome {
    Success(u64),
    Failure,
}

/// Records one job's outcome on its item and in the aggregate. On success
/// the item's new size is stored and added to the aggregate total; on
/// failure both are left alone and the item is marked failed. Either way
/// the item ends done — last, so a poller that observes `done` also
/// observes the matching size — and a failure never escapes to disturb
/// any other job.
pub fn complete_job(
    files: &mut Vec<SelectedFile>,
    idx: usize,
    outcome: JobOutcome,
    agg: &mut Aggregator,
)
    requires
        idx < old(files)@.len(),
        !old(files)@[idx as int].done,
        outcome matches JobOutcome::Success(sz) ==> old(agg).total_new + sz <= u64::MAX,
    ensures
        final(files)@.len() == old(files)@.len(),
        forall|j: int|
            0 <= j < old(files)@.len() && j != idx ==> #[trigger] final(files)@[j] == old(
                files,
            )@[j],
        final(agg).total_original == old(agg).total_original,
        ({
            let f = final(files)@[idx as int];
            let o = old(files)@[idx as int];
            f.path == o.path && f.parent_folder == o.parent_folder && f.name == o.name
                && f.size.original == o.size.original && f.done && match outcome {
                JobOutcome::Success(sz) => !f.failed && f.size.new == sz && final(agg).total_new
                    == old(agg).total_new + sz,
                JobOutcome::Failure => f.failed && f.size.new == o.size.new
                    && final(agg).total_new == old(agg).total_new,
            }
        }),
        totals_consistent(old(files)@, *old(agg)) ==> totals_consistent(
            final(files)@,
            *final(agg),
        ),
{
    let file = &mut files[idx];
    match outcome {
        JobOutcome::Success(sz) => {
            file.size.new = sz;
            file.failed = false;
            file.done = true;
            agg.total_new = agg.total_new + sz;
        },
        JobOutcome::Failure => {
            file.failed = true;
            file.done = true;
        },
    }
    proof {
        assert(files@ =~= old(files)@.update(idx as int, files@[idx as int]));
        lemma_sum_completed_new_update(old(files)@, idx as int, files@[idx as int]);
    }
}

/// Whether the run is finished: the poller derives completion by checking
/// every item's `done` flag; no worker pushes a notification.
pub fn all_done(files: &Vec<SelectedFile>) -> (r: bool)
    ensures
        r <==> forall|i: int| 0 <= i < files@.len() ==> (#[trigger] files@[i]).done,
{
    let n = files.len();
    let mut i: usize = 0;
    while i < n
        invariant
            0 <= i <= n,
            n == files@.len(),
            forall|j: int| 0 <= j < i ==> (#[trigger] files@[j]).done,
        decreases n - i,
    {
        if !files[i].done {
            return false;
        }
        i = i + 1;
    }
    true
}

/// Taking one item out subtracts exactly its original size from the sum.
proof fn lemma_sum_original_remove(files: Seq<SelectedFile>, i: int)
    requires
        0 <= i < files.len(),
    ensures
        sum_original(files.remove(i)) == sum_original(files) - files[i].size.original,
    decreases files.len(),
{
    let shorter = files.remove(i);
    if i == files.len() - 1 {
        assert(shorter =~= files.drop_last());
    } else {
        assert(shorter.drop_last() =~= files.drop_last().remove(i));
        assert(shorter.last() == files.last());
        lemma_sum_original_remove(files.drop_last(), i);
    }
}

/// Taking one item out subtracts exactly its new size from the sum.
proof fn lemma_sum_new_remove(files: Seq<SelectedFile>, i: int)
    requires
        0 <= i < files.len(),
    ensures
        sum_new(files.remove(i)) == sum_new(files) - files[i].size.new,
    decreases files.len(),
{
    let shorter = files.remove(i);
    if i == files.len() - 1 {
        assert(shorter =~= files.drop_last());
    } else {
        assert(shorter.drop_last() =~= files.drop_last().remove(i));
        assert(shorter.last() == files.last());
        lemma_sum_new_remove(files.drop_last(), i);
    }
}

/// Removes one item from an idle selection and keeps the displayed sums
/// consistent with what remains: the item's original size leaves the
/// original total and its last known new size leaves the new total, so a
/// total that was the sum over the selection is the sum over the remaining
/// selection afterwards.
pub fn remove_item(files: &mut Vec<SelectedFile>, idx: usize, agg: &mut Aggregator)
    requires
        idx < old(files)@.len(),
        old(agg).total_original >= old(files)@[idx as int].size.original,
        old(agg).total_new >= old(files)@[idx as int].size.new,
    ensures
        final(files)@ == old(files)@.remove(idx as int),
        final(agg).total_original == old(agg).total_original - old(
            files,
        )@[idx as int].size.original,
        final(agg).total_new == old(agg).total_new - old(files)@[idx as int].size.new,
        old(agg).total_original == sum_original(old(files)@) ==> final(agg).total_original
            == sum_original(final(files)@),
        old(agg).total_new == sum_new(old(files)@) ==> final(agg).total_new == sum_new(
            final(files)@,
        ),
{
    proof {
        lemma_sum_original_remove(old(files)@, idx as int);
        lemma_sum_new_remove(old(files)@, idx as int);
    }
    let removed = files.remove(idx);
    agg.total_original = agg.total_original - removed.size.original;
    agg.total_new = agg.total_new - removed.size.new;
}

} // verus!
