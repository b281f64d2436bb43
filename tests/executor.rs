use wado::executor::{chunk_ranges, runnable_in, ChunkFailure, ChunkedRun};
use wado::progress::{collapse_newlines, command_status, CommandStatus, ProcessResult};
use wado::summary::{failures, summary};
use wado::wildfly::{AdminContainer, VersionRef};

fn version(identifier: u16, development: bool) -> VersionRef {
    VersionRef {
        identifier,
        short_version: format!("{}", identifier),
        image_tag: "t".to_string(),
        core_version: "1.0.0".to_string(),
        http_port: 8080,
        management_port: 9990,
        multi_platform: false,
        development,
    }
}

fn containers(n: u16, dev: &[u16]) -> Vec<AdminContainer> {
    (0..n)
        .map(|i| AdminContainer::standalone(version(i, dev.contains(&i))))
        .collect()
}

#[test]
fn five_specs_in_chunks_of_two() {
    assert_eq!(chunk_ranges(5, 2), vec![(0, 2), (2, 4), (4, 5)]);
    let items = containers(5, &[]);
    let mut run = ChunkedRun::new(&items, 2);
    let mut sizes = vec![];
    while let Some((start, end)) = run.next_chunk() {
        sizes.push(end - start);
        let outcomes = (start..end).map(|i| CommandStatus::success(&format!("{}", i))).collect();
        run.record(Ok(outcomes));
    }
    assert_eq!(sizes, vec![2, 2, 1]);
    assert_eq!(run.outcomes.len(), 5);
    assert_eq!(run.outcomes[4].identifier, "4");
    assert!(run.is_done());
}

#[test]
fn chunk_count_edges() {
    assert_eq!(chunk_ranges(5, 0), vec![(0, 5)]);
    assert_eq!(chunk_ranges(0, 0), vec![(0, 0)]);
    assert_eq!(chunk_ranges(0, 3), vec![]);
    assert_eq!(chunk_ranges(4, 2), vec![(0, 2), (2, 4)]);
    assert_eq!(chunk_ranges(3, 7), vec![(0, 3)]);
    assert_eq!(ChunkedRun::new(&containers(7, &[]), 3).ranges.len(), 3);
    assert_eq!(ChunkedRun::new(&containers(7, &[]), 0).ranges.len(), 1);
}

#[test]
fn failed_chunk_is_dropped() {
    let items = containers(5, &[]);
    let mut run = ChunkedRun::new(&items, 2);
    run.record(Ok(vec![CommandStatus::success("a"), CommandStatus::error("b", "x")]));
    run.record(Err(ChunkFailure));
    run.record(Ok(vec![CommandStatus::success("e")]));
    assert!(run.is_done());
    assert_eq!(run.next_chunk(), None);
    assert_eq!(run.outcomes.len(), 3);
    assert_eq!(run.dropped, 1);
    assert_eq!(run.outcomes[2].identifier, "e");
}

#[test]
fn development_builds_are_skipped() {
    let items = vec![
        AdminContainer::standalone(version(1, false)),
        AdminContainer::standalone(version(2, true)),
        AdminContainer::standalone(version(3, false)),
    ];
    assert_eq!(runnable_in(&items, 0, 3), vec![0, 2]);
    assert_eq!(runnable_in(&items, 1, 2), Vec::<usize>::new());
}

#[test]
fn development_builds_give_fewer_outcomes() {
    let items = containers(5, &[3]);
    let mut run = ChunkedRun::new(&items, 2);
    while let Some((start, end)) = run.next_chunk() {
        let outcomes = runnable_in(&items, start, end)
            .iter()
            .map(|i| CommandStatus::success(&format!("{}", i)))
            .collect();
        run.record(Ok(outcomes));
    }
    assert_eq!(run.outcomes.len(), 4);
    assert_eq!(run.total, 5);
}

#[test]
fn process_results_become_outcomes() {
    let ok = command_status("img", &ProcessResult::Exited { success: true, stderr: "w\n".to_string() });
    assert!(ok.success);
    assert_eq!(ok.identifier, "img");
    assert_eq!(ok.error_message, "");
    let bad = command_status(
        "img",
        &ProcessResult::Exited { success: false, stderr: "line one\nline two\n".to_string() },
    );
    assert!(!bad.success);
    assert_eq!(bad.error_message, "line one line two ");
    let failed = command_status("img", &ProcessResult::Failed { error: "not found".to_string() });
    assert!(!failed.success);
    assert_eq!(failed.error_message, "not found");
    assert_eq!(collapse_newlines("a\n\nb"), "a  b");
}

#[test]
fn summary_counts() {
    let status = vec![
        CommandStatus::success("a"),
        CommandStatus::error("b", "boom"),
        CommandStatus::success("c"),
        CommandStatus::error("d", "bang"),
    ];
    let s = summary(6, &status);
    assert_eq!(s.requested, 6);
    assert_eq!(s.successful, 2);
    assert_eq!(s.failed, 2);
    assert_eq!(s.successful + s.failed, status.len());
    assert!(s.lists_failures());
    assert_eq!(failures(&status), vec![1, 3]);
    let all_ok = summary(1, &vec![CommandStatus::success("a")]);
    assert!(!all_ok.lists_failures());
    let empty = summary(0, &vec![]);
    assert_eq!(empty.successful + empty.failed, 0);
}
