use rshrink::batch::{
    Aggregator, JobOutcome, all_done, complete_job, compute_total_original, path_join, plan_run,
    remove_item, start_run,
};
use rshrink::{SelectedFile, Settings};

fn file(path: &str, size: u64) -> SelectedFile {
    SelectedFile::new(path.to_string(), size).unwrap()
}

#[test]
fn selected_file_splits_path_at_last_slash() {
    let f = file("/pics/holiday/beach.jpg", 42);
    assert_eq!(f.parent_folder, "/pics/holiday");
    assert_eq!(f.name, "beach.jpg");
    assert_eq!(f.path, "/pics/holiday/beach.jpg");
    assert_eq!(f.size.original, 42);
    assert_eq!(f.size.new, 42);
    assert!(!f.done);
    assert!(!f.failed);
}

#[test]
fn selected_file_without_slash_has_empty_parent() {
    let f = file("beach.jpg", 1);
    assert_eq!(f.parent_folder, "");
    assert_eq!(f.name, "beach.jpg");
}

#[test]
fn selected_file_rejects_empty_name() {
    assert!(SelectedFile::new(String::new(), 1).is_none());
    assert!(SelectedFile::new("/pics/".to_string(), 1).is_none());
}

#[test]
fn path_join_inserts_separator() {
    assert_eq!(path_join("/a", "b"), "/a/b");
    assert_eq!(path_join("", "b"), "b");
}

#[test]
fn one_shared_folder_creates_one_directory() {
    let files = vec![
        file("/pics/a.jpg", 10),
        file("/pics/b.jpg", 20),
        file("/pics/c.jpg", 30),
    ];
    let settings = Settings::default();
    let plan = plan_run(&files, &settings);
    assert_eq!(plan.dirs_to_create, vec!["/pics/_rshrinked".to_string()]);
    assert_eq!(plan.jobs.len(), 3);
    assert_eq!(plan.jobs[0].output_path, "/pics/_rshrinked/a.jpg");
}

#[test]
fn interleaved_folders_still_deduplicate() {
    // items from two folders in interleaved order: an adjacency check
    // against only the previous job's directory would create /a's
    // directory twice; the set check must not
    let files = vec![
        file("/a/1.jpg", 1),
        file("/b/2.jpg", 1),
        file("/a/3.jpg", 1),
        file("/b/4.jpg", 1),
    ];
    let settings = Settings::default();
    let plan = plan_run(&files, &settings);
    assert_eq!(
        plan.dirs_to_create,
        vec!["/a/_rshrinked".to_string(), "/b/_rshrinked".to_string()]
    );
}

#[test]
fn parent_override_routes_all_output_to_one_directory() {
    let files = vec![file("/a/1.jpg", 1), file("/b/2.jpg", 1)];
    let mut settings = Settings::default();
    settings.output_folder_parent_dir_path = Some("/out".to_string());
    let plan = plan_run(&files, &settings);
    assert_eq!(plan.dirs_to_create, vec!["/out/_rshrinked".to_string()]);
    assert_eq!(plan.jobs[0].output_path, "/out/_rshrinked/1.jpg");
    assert_eq!(plan.jobs[1].output_path, "/out/_rshrinked/2.jpg");
}

#[test]
fn same_directory_output_gets_min_prefix() {
    // the resolved output directory coincides with the file's own parent,
    // so the result must not overwrite the source
    let files = vec![file("/pics/out/x.jpg", 1)];
    let mut settings = Settings::default();
    settings.output_folder_parent_dir_path = Some("/pics".to_string());
    settings.output_folder_name = "out".to_string();
    let plan = plan_run(&files, &settings);
    assert_eq!(plan.jobs[0].output_path, "/pics/out/min-x.jpg");
}

#[test]
fn job_captures_config_snapshot() {
    let files = vec![file("/a/1.jpg", 1)];
    let mut settings = Settings::default();
    settings.compression_quality = 42;
    let plan = plan_run(&files, &settings);
    assert_eq!(plan.jobs[0].config.compression_quality, 42);
    assert_eq!(plan.jobs[0].config.dimensions_relative, 50);
    assert_eq!(plan.jobs[0].input_path, "/a/1.jpg");
}

#[test]
fn total_original_is_the_sum() {
    let files = vec![file("/a/1.jpg", 10), file("/a/2.jpg", 20), file("/a/3.jpg", 30)];
    assert_eq!(compute_total_original(&files), Some(60));
    assert_eq!(compute_total_original(&Vec::new()), Some(0));
}

#[test]
fn total_original_overflow_is_reported() {
    let files = vec![file("/a/1.jpg", u64::MAX), file("/a/2.jpg", 1)];
    assert_eq!(compute_total_original(&files), None);
}

#[test]
fn start_run_resets_state_and_total() {
    let mut files = vec![file("/a/1.jpg", 10)];
    let mut agg = Aggregator { total_original: 10, total_new: 0 };
    complete_job(&mut files, 0, JobOutcome::Success(4), &mut agg);
    assert!(files[0].done);
    assert_eq!(agg.total_new, 4);
    start_run(&mut files, &mut agg);
    assert!(!files[0].done);
    assert!(!files[0].failed);
    assert_eq!(agg.total_new, 0);
    assert_eq!(agg.total_original, 10);
}

#[test]
fn successful_total_equals_sum_of_new_sizes() {
    let mut files = vec![file("/a/1.jpg", 10), file("/a/2.jpg", 20), file("/a/3.jpg", 30)];
    let mut agg = Aggregator { total_original: 60, total_new: 0 };
    start_run(&mut files, &mut agg);
    complete_job(&mut files, 2, JobOutcome::Success(15), &mut agg);
    complete_job(&mut files, 0, JobOutcome::Success(5), &mut agg);
    complete_job(&mut files, 1, JobOutcome::Success(10), &mut agg);
    assert_eq!(agg.total_new, 30);
    assert_eq!(
        agg.total_new,
        files.iter().map(|f| f.size.new).sum::<u64>()
    );
    assert!(all_done(&files));
}

#[test]
fn failed_job_is_done_but_excluded_from_totals() {
    let mut files = vec![file("/a/1.jpg", 10), file("/a/2.jpg", 20)];
    let mut agg = Aggregator { total_original: 30, total_new: 0 };
    start_run(&mut files, &mut agg);
    complete_job(&mut files, 0, JobOutcome::Success(5), &mut agg);
    complete_job(&mut files, 1, JobOutcome::Failure, &mut agg);
    assert!(files[1].done);
    assert!(files[1].failed);
    assert_eq!(files[1].size.new, 20);
    assert_eq!(agg.total_new, 5);
    assert!(all_done(&files));
}

#[test]
fn all_done_is_false_while_work_remains() {
    let mut files = vec![file("/a/1.jpg", 10), file("/a/2.jpg", 20)];
    let mut agg = Aggregator { total_original: 30, total_new: 0 };
    start_run(&mut files, &mut agg);
    assert!(!all_done(&files));
    complete_job(&mut files, 0, JobOutcome::Success(5), &mut agg);
    assert!(!all_done(&files));
    complete_job(&mut files, 1, JobOutcome::Success(8), &mut agg);
    assert!(all_done(&files));
}

#[test]
fn removing_an_item_keeps_displayed_sums_consistent() {
    let mut files = vec![file("/a/1.jpg", 10), file("/a/2.jpg", 20)];
    let mut agg = Aggregator { total_original: 30, total_new: 0 };
    start_run(&mut files, &mut agg);
    complete_job(&mut files, 0, JobOutcome::Success(4), &mut agg);
    complete_job(&mut files, 1, JobOutcome::Success(6), &mut agg);
    remove_item(&mut files, 0, &mut agg);
    assert_eq!(files.len(), 1);
    assert_eq!(files[0].name, "2.jpg");
    assert_eq!(agg.total_original, 20);
    assert_eq!(agg.total_new, 6);
}
