use bkt::batch::{
    destination_key, merge_tallies, oversubscribed, oversubscription_warning, partition,
    plan_tasks, tally_outcomes, UploadTask, WorkerTally,
};

fn task(path: &str) -> UploadTask {
    UploadTask {
        source_path: String::from(path),
        destination_key: String::from(path),
        content_type: None,
    }
}

fn numbered_tasks(n: usize) -> Vec<UploadTask> {
    (0..n).map(|i| task(&format!("/src/f{}.txt", i))).collect()
}

#[test]
fn destination_key_rebases_root() {
    let key = destination_key("/a/b/c/d.txt", "/a/b", "s3://x/y");
    assert_eq!(key, "s3://x/y/c/d.txt");
}

#[test]
fn destination_key_without_occurrence_keeps_path() {
    let key = destination_key("/elsewhere/d.txt", "/a/b", "s3://x/y");
    assert_eq!(key, "/elsewhere/d.txt");
}

#[test]
fn destination_key_replaces_first_occurrence_only() {
    let key = destination_key("/a/b/a/b/d.txt", "/a/b", "Z");
    assert_eq!(key, "Z/a/b/d.txt");
}

#[test]
fn plan_tasks_rewrites_every_file() {
    let files = vec![
        String::from("/root/one.txt"),
        String::from("/root/sub/two.txt"),
    ];
    let tasks = plan_tasks(&files, "/root", "s3://bkt/base");
    assert_eq!(tasks.len(), 2);
    assert_eq!(tasks[0].source_path, "/root/one.txt");
    assert_eq!(tasks[0].destination_key, "s3://bkt/base/one.txt");
    assert_eq!(tasks[1].source_path, "/root/sub/two.txt");
    assert_eq!(tasks[1].destination_key, "s3://bkt/base/sub/two.txt");
    assert!(tasks[0].content_type.is_none());
    assert!(tasks[1].content_type.is_none());
}

#[test]
fn partition_ten_files_three_workers() {
    let chunks = partition(&numbered_tasks(10), 3);
    let sizes: Vec<usize> = chunks.iter().map(|c| c.len()).collect();
    assert_eq!(sizes, vec![4, 4, 2]);
}

#[test]
fn partition_more_workers_than_files() {
    let chunks = partition(&numbered_tasks(2), 5);
    let sizes: Vec<usize> = chunks.iter().map(|c| c.len()).collect();
    assert_eq!(sizes, vec![1, 1, 0, 0, 0]);
}

#[test]
fn partition_never_drops_or_duplicates() {
    for n in 0..=10usize {
        let tasks = numbered_tasks(n);
        let top = if n == 0 { 1 } else { n };
        for w in 1..=top {
            let chunks = partition(&tasks, w);
            assert_eq!(chunks.len(), w);
            let rejoined: Vec<String> = chunks
                .iter()
                .flat_map(|c| c.iter().map(|t| t.source_path.clone()))
                .collect();
            let original: Vec<String> =
                tasks.iter().map(|t| t.source_path.clone()).collect();
            assert_eq!(rejoined, original);
        }
    }
}

#[test]
fn tally_outcomes_counts_successes_and_failures() {
    let t = tally_outcomes(&vec![true, false, true]);
    assert_eq!(t.succeeded, 2);
    assert_eq!(t.failed, 1);
}

#[test]
fn worker_tally_records_each_outcome() {
    let mut t = WorkerTally::new();
    t.record(true);
    t.record(false);
    t.record(true);
    t.record(true);
    assert_eq!(t.succeeded, 3);
    assert_eq!(t.failed, 1);
}

#[test]
fn merge_of_no_tallies_is_empty() {
    let r = merge_tallies(&Vec::new());
    assert_eq!(r.succeeded, 0);
    assert_eq!(r.failed, 0);
    assert_eq!(r.total, 0);
}

#[test]
fn faulty_uploads_are_counted_not_fatal() {
    // A fault-injected upload outcome: files whose name holds a '3' fail.
    let n = 10usize;
    let tasks = numbered_tasks(n);
    let failing = |t: &UploadTask| t.source_path.contains('3');
    let expected_failures = tasks.iter().filter(|t| failing(t)).count() as i64;
    assert_eq!(expected_failures, 1);

    for w in 1..=n {
        let chunks = partition(&tasks, w);
        let tallies: Vec<WorkerTally> = chunks
            .iter()
            .map(|chunk| {
                let outcomes: Vec<bool> = chunk.iter().map(|t| !failing(t)).collect();
                tally_outcomes(&outcomes)
            })
            .collect();
        let result = merge_tallies(&tallies);
        assert_eq!(result.total, n as i64);
        assert_eq!(result.failed, expected_failures);
        assert_eq!(result.succeeded, n as i64 - expected_failures);
    }
}

#[test]
fn batch_of_ten_files_three_workers_totals_ten() {
    let chunks = partition(&numbered_tasks(10), 3);
    let tallies: Vec<WorkerTally> = chunks
        .iter()
        .map(|chunk| tally_outcomes(&vec![true; chunk.len()]))
        .collect();
    let result = merge_tallies(&tallies);
    assert_eq!(result.total, 10);
    assert_eq!(result.succeeded, 10);
    assert_eq!(result.failed, 0);
}

#[test]
fn oversubscription_heuristic() {
    assert!(oversubscribed(500, 1));
    assert!(!oversubscribed(100, 1));
    assert!(!oversubscribed(500, 8));
    assert!(!oversubscription_warning(100));
    assert!(!oversubscription_warning(0));
}
