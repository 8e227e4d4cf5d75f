use parallel_uploader::dispatcher::{
    BatchReport, DispatchAction, Dispatcher, ReportEntry, TaskResult,
};
use parallel_uploader::outcome::{UploadError, UploadOutcome};
use parallel_uploader::task::UploadTask;
use parallel_uploader::uploader::{Upload, UploadAction, UploadEvent};

const URL: &str = "https://httpbin.org/post";

fn paths(names: &[&str]) -> Vec<String> {
    names.iter().map(|name| name.to_string()).collect()
}

fn success(name: &str) -> UploadOutcome {
    UploadOutcome::Success { name: name.to_string() }
}

fn completed(outcome: UploadOutcome) -> TaskResult {
    TaskResult::Completed { outcome }
}

fn entry(path: &str, outcome: UploadOutcome) -> ReportEntry {
    ReportEntry { path: path.to_string(), outcome }
}

/// Runs the upload of `task` against a driver that reports `events`.
fn upload(task: UploadTask, events: Vec<UploadEvent>) -> TaskResult {
    let (mut upload, mut action) = Upload::begin(task);
    let mut events = events.into_iter();
    loop {
        if let UploadAction::Finish { outcome } = action {
            return TaskResult::Completed { outcome };
        }
        let Some(event) = events.next() else {
            return TaskResult::Aborted;
        };
        match upload.step(event) {
            Some((next, told)) => {
                upload = next;
                action = told;
            }
            None => return TaskResult::Aborted,
        }
    }
}

fn launched(action: DispatchAction) -> Vec<UploadTask> {
    match action {
        DispatchAction::Launch { tasks } => tasks,
        DispatchAction::NothingToDo => panic!("expected tasks to launch"),
    }
}

#[test]
fn test_parallel_uploads() {
    let num_files = 3;
    let mut contents = Vec::new();
    let mut file_paths = Vec::new();
    for i in 0..num_files {
        contents.push(format!("This is test file {}.", i));
        file_paths.push(format!("/tmp/parallel_upload_{}.txt", i));
    }

    let (dispatcher, action) = Dispatcher::new(file_paths.clone(), URL);
    let tasks = launched(action);
    assert_eq!(tasks.len(), num_files);

    let mut results = Vec::new();
    for (task, content) in tasks.into_iter().zip(contents.iter()) {
        results.push(upload(
            task,
            vec![
                UploadEvent::FileOpened { size: content.len() as u64 },
                UploadEvent::ResponseReceived { status: 200 },
            ],
        ));
    }
    for result in &results {
        assert!(matches!(result, TaskResult::Completed { .. }));
        assert!(matches!(
            result,
            TaskResult::Completed { outcome: UploadOutcome::Success { .. } }
        ));
    }

    let report = dispatcher.collect(results).unwrap();
    assert_eq!(report.entries.len(), num_files);
    for (i, entry) in report.entries.iter().enumerate() {
        assert_eq!(entry.path, file_paths[i]);
        assert_eq!(entry.outcome, success(&format!("parallel_upload_{}.txt", i)));
    }
}

#[test]
fn empty_input_is_nothing_to_do() {
    let (dispatcher, action) = Dispatcher::new(Vec::new(), URL);
    assert_eq!(action, DispatchAction::NothingToDo);
    assert_eq!(dispatcher.len(), 0);
    assert!(dispatcher.is_complete());
    assert_eq!(dispatcher.finish().unwrap(), BatchReport { entries: Vec::new() });
}

#[test]
fn empty_input_collects_to_an_empty_report() {
    let (dispatcher, _) = Dispatcher::new(Vec::new(), URL);
    let report = dispatcher.collect(Vec::new()).unwrap();
    assert!(report.entries.is_empty());
}

#[test]
fn one_task_per_path_in_input_order() {
    let input = paths(&["a/one.txt", "two.txt", "/", "b/c/three.txt"]);
    let (dispatcher, action) = Dispatcher::new(input.clone(), URL);
    let tasks = launched(action);
    assert_eq!(dispatcher.len(), 4);
    assert_eq!(tasks.len(), 4);
    for (task, path) in tasks.iter().zip(input.iter()) {
        assert_eq!(task, &UploadTask::new(path.clone(), URL.to_string()));
        assert_eq!(task.url, URL);
    }
    assert_eq!(tasks[0].display_name(), "one.txt");
    assert_eq!(tasks[2].display_name(), "unknown");
}

#[test]
fn new_batch_is_incomplete_until_every_task_is_recorded() {
    let (mut dispatcher, _) = Dispatcher::new(paths(&["a", "b"]), URL);
    assert!(!dispatcher.is_complete());
    assert!(dispatcher.record(1, completed(success("b"))));
    assert!(!dispatcher.is_complete());
    assert!(dispatcher.record(0, completed(success("a"))));
    assert!(dispatcher.is_complete());
}

#[test]
fn no_partial_report() {
    let (mut dispatcher, _) = Dispatcher::new(paths(&["a", "b", "c"]), URL);
    assert!(dispatcher.record(0, completed(success("a"))));
    assert!(dispatcher.record(2, completed(success("c"))));
    let mut dispatcher = dispatcher.finish().unwrap_err();
    assert_eq!(dispatcher.len(), 3);
    assert!(!dispatcher.record(0, TaskResult::Aborted));
    assert!(dispatcher.record(1, TaskResult::Aborted));
    assert_eq!(
        dispatcher.finish().unwrap().entries,
        vec![
            entry("a", success("a")),
            entry("b", UploadOutcome::TaskAborted),
            entry("c", success("c")),
        ]
    );
}

#[test]
fn report_follows_input_order_not_completion_order() {
    let (mut dispatcher, _) = Dispatcher::new(paths(&["x/a", "x/b", "x/c"]), URL);
    assert!(dispatcher.record(2, completed(success("c"))));
    assert!(dispatcher.record(0, completed(success("a"))));
    assert!(dispatcher.record(1, completed(success("b"))));
    assert_eq!(
        dispatcher.finish().unwrap().entries,
        vec![entry("x/a", success("a")), entry("x/b", success("b")), entry("x/c", success("c"))]
    );
}

#[test]
fn first_report_for_a_task_is_the_one_that_counts() {
    let (mut dispatcher, _) = Dispatcher::new(paths(&["a"]), URL);
    assert!(dispatcher.record(0, completed(success("a"))));
    assert!(!dispatcher.record(0, TaskResult::Aborted));
    assert!(!dispatcher.record(0, completed(success("other"))));
    assert_eq!(dispatcher.finish().unwrap().entries, vec![entry("a", success("a"))]);
}

#[test]
fn report_for_a_task_outside_the_batch_is_dropped() {
    let (mut dispatcher, _) = Dispatcher::new(paths(&["a", "b"]), URL);
    assert!(!dispatcher.record(2, completed(success("c"))));
    assert!(!dispatcher.record(usize::MAX, TaskResult::Aborted));
    assert!(!dispatcher.is_complete());
    assert_eq!(dispatcher.len(), 2);
}

#[test]
fn aborted_task_is_reported_and_siblings_keep_their_outcomes() {
    let (dispatcher, _) = Dispatcher::new(paths(&["a", "b", "c"]), URL);
    let report = dispatcher
        .collect(vec![completed(success("a")), TaskResult::Aborted, completed(success("c"))])
        .unwrap();
    assert_eq!(
        report.entries,
        vec![
            entry("a", success("a")),
            entry("b", UploadOutcome::TaskAborted),
            entry("c", success("c")),
        ]
    );
}

#[test]
fn every_task_aborted() {
    let (dispatcher, _) = Dispatcher::new(paths(&["a", "b"]), URL);
    let report = dispatcher.collect(vec![TaskResult::Aborted, TaskResult::Aborted]).unwrap();
    assert_eq!(report.entries.len(), 2);
    assert!(report.entries.iter().all(|entry| entry.outcome == UploadOutcome::TaskAborted));
}

#[test]
fn too_few_results_give_no_report() {
    let (dispatcher, _) = Dispatcher::new(paths(&["a", "b"]), URL);
    let dispatcher = dispatcher.collect(vec![completed(success("a"))]).unwrap_err();
    assert!(!dispatcher.is_complete());
    assert_eq!(dispatcher.len(), 2);
}

#[test]
fn results_beyond_the_batch_are_dropped() {
    let (dispatcher, _) = Dispatcher::new(paths(&["a"]), URL);
    let report = dispatcher
        .collect(vec![completed(success("a")), completed(success("stray"))])
        .unwrap();
    assert_eq!(report.entries, vec![entry("a", success("a"))]);
}

#[test]
fn missing_file_does_not_touch_the_other_files() {
    let input = paths(&["data/valid_a.txt", "data/missing_b.txt", "data/valid_c.txt"]);
    let (dispatcher, action) = Dispatcher::new(input, URL);
    let mut results = Vec::new();
    for (i, task) in launched(action).into_iter().enumerate() {
        let events = if i == 1 {
            vec![UploadEvent::FileUnavailable { detail: "No such file or directory".to_string() }]
        } else {
            vec![
                UploadEvent::FileOpened { size: 64 },
                UploadEvent::ResponseReceived { status: 200 },
            ]
        };
        results.push(upload(task, events));
    }
    let report = dispatcher.collect(results).unwrap();
    assert_eq!(report.entries.len(), 3);
    assert_eq!(
        report.entries,
        vec![
            entry("data/valid_a.txt", success("valid_a.txt")),
            entry(
                "data/missing_b.txt",
                UploadOutcome::Failure {
                    name: "missing_b.txt".to_string(),
                    error: UploadError::FileAccess {
                        detail: "No such file or directory".to_string()
                    },
                }
            ),
            entry("data/valid_c.txt", success("valid_c.txt")),
        ]
    );
}

#[test]
fn server_error_for_every_file_is_reported_for_every_file() {
    let input = paths(&["one.bin", "two.bin", "three.bin", "four.bin"]);
    let (dispatcher, action) = Dispatcher::new(input.clone(), URL);
    let mut requests = 0;
    let mut results = Vec::new();
    for task in launched(action) {
        let (upload, _) = Upload::begin(task);
        let (upload, action) = upload.step(UploadEvent::FileOpened { size: 9 }).unwrap();
        if matches!(action, UploadAction::Send { .. }) {
            requests += 1;
        }
        let (upload, action) = upload.step(UploadEvent::ResponseReceived { status: 500 }).unwrap();
        assert_eq!(action, UploadAction::ReadBody);
        let (_, action) =
            upload.step(UploadEvent::BodyRead { text: "server error".to_string() }).unwrap();
        match action {
            UploadAction::Finish { outcome } => results.push(completed(outcome)),
            other => panic!("expected an outcome, got {:?}", other),
        }
    }
    assert_eq!(requests, input.len());
    let report = dispatcher.collect(results).unwrap();
    assert_eq!(report.entries.len(), input.len());
    for (entry, path) in report.entries.iter().zip(input.iter()) {
        assert_eq!(&entry.path, path);
        assert_eq!(
            entry.outcome,
            UploadOutcome::Failure {
                name: path.clone(),
                error: UploadError::HttpStatus { status: 500, body: "server error".to_string() },
            }
        );
    }
}

#[test]
fn all_valid_files_succeed_whatever_their_number_and_size() {
    for count in [1usize, 2, 7, 50] {
        let input: Vec<String> = (0..count).map(|i| format!("dir/file_{}.dat", i)).collect();
        let (dispatcher, action) = Dispatcher::new(input.clone(), URL);
        let mut results = Vec::new();
        for (i, task) in launched(action).into_iter().enumerate() {
            let size = if i % 2 == 0 { 0 } else { 700 * 1024 * 1024 + i as u64 };
            let status = 200 + (i as u16 % 100);
            results.push(upload(
                task,
                vec![UploadEvent::FileOpened { size }, UploadEvent::ResponseReceived { status }],
            ));
        }
        let report = dispatcher.collect(results).unwrap();
        assert_eq!(report.entries.len(), count);
        for (i, entry) in report.entries.iter().enumerate() {
            assert_eq!(entry.path, input[i]);
            assert_eq!(entry.outcome, success(&format!("file_{}.dat", i)));
        }
    }
}

#[test]
fn driver_that_goes_wrong_counts_as_aborted() {
    let (dispatcher, action) = Dispatcher::new(paths(&["a.txt", "b.txt"]), URL);
    let mut tasks = launched(action).into_iter();
    let first = upload(tasks.next().unwrap(), vec![UploadEvent::BodyUnreadable]);
    let second = upload(
        tasks.next().unwrap(),
        vec![UploadEvent::FileOpened { size: 2 }, UploadEvent::ResponseReceived { status: 204 }],
    );
    assert_eq!(first, TaskResult::Aborted);
    let report = dispatcher.collect(vec![first, second]).unwrap();
    assert_eq!(
        report.entries,
        vec![entry("a.txt", UploadOutcome::TaskAborted), entry("b.txt", success("b.txt"))]
    );
}

#[test]
fn task_result_gives_its_outcome() {
    assert_eq!(completed(success("a")).into_outcome(), success("a"));
    assert_eq!(TaskResult::Aborted.into_outcome(), UploadOutcome::TaskAborted);
    let failed = UploadOutcome::Failure {
        name: "unknown".to_string(),
        error: UploadError::InvalidFileName,
    };
    assert_eq!(completed(failed.clone()).into_outcome(), failed);
}
