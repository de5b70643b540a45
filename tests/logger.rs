use std::collections::BTreeMap;
use website_monitor::logger::{file_name, FileOp, LogCounter, MAX_FILES, MAX_LINES};

#[test]
fn default_limits() {
    let c = LogCounter::new(17);
    assert_eq!(c.current_lines, 17);
    assert_eq!(c.max_lines, 20000);
    assert_eq!(c.max_files, 4);
    assert_eq!(MAX_LINES, 20000);
    assert_eq!(MAX_FILES, 4);
}

#[test]
fn rotation_after_max_lines() {
    let mut c = LogCounter::with_limits(0, 3, 4);
    let mut rotations = Vec::new();
    for _ in 0..4 {
        let rotate = c.begin_write();
        if rotate {
            c.finish_rotation(true);
        }
        rotations.push(rotate);
        c.end_write(true);
    }
    assert_eq!(rotations, vec![false, false, false, true]);
    assert_eq!(c.current_lines, 1);
}

#[test]
fn default_counter_rotates_at_twenty_thousand() {
    let mut c = LogCounter::new(19999);
    assert!(!c.begin_write());
    c.end_write(true);
    assert_eq!(c.current_lines, 20000);
    assert!(c.begin_write());
    assert_eq!(c.current_lines, 20000);
    c.finish_rotation(true);
    assert_eq!(c.current_lines, 0);
}

#[test]
fn failed_rotation_keeps_the_count() {
    let mut c = LogCounter::with_limits(10, 10, 4);
    assert!(c.begin_write());
    c.finish_rotation(false);
    assert_eq!(c.current_lines, 10);
    c.end_write(true);
    assert_eq!(c.current_lines, 11);
    assert!(c.begin_write());
}

#[test]
fn failed_write_is_not_counted() {
    let mut c = LogCounter::with_limits(5, 10, 4);
    assert!(!c.begin_write());
    c.end_write(false);
    assert_eq!(c.current_lines, 5);
}

#[test]
fn seeded_count_above_limit_rotates_first() {
    let mut c = LogCounter::with_limits(50, 10, 4);
    assert!(c.begin_write());
    c.finish_rotation(true);
    c.end_write(true);
    assert_eq!(c.current_lines, 1);
}

#[test]
fn rotation_plan_with_four_files() {
    let c = LogCounter::new(0);
    assert_eq!(
        c.rotation_plan(),
        vec![
            FileOp::Remove(3),
            FileOp::Rename(2, 3),
            FileOp::Rename(1, 2),
            FileOp::Rename(0, 1),
            FileOp::CreateActive,
        ]
    );
}

#[test]
fn rotation_plan_with_two_files() {
    let c = LogCounter::with_limits(0, 10, 2);
    assert_eq!(
        c.rotation_plan(),
        vec![FileOp::Remove(1), FileOp::Rename(0, 1), FileOp::CreateActive]
    );
}

#[test]
fn rotated_file_names() {
    assert_eq!(file_name("monitor.log", 0), "monitor.log");
    assert_eq!(file_name("monitor.log", 1), "monitor.log.1");
    assert_eq!(file_name("monitor.log", 3), "monitor.log.3");
    assert_eq!(file_name("logs/m.log", 12), "logs/m.log.12");
}

#[test]
fn repeated_rotations_keep_three_backups() {
    let c = LogCounter::new(0);
    // index -> generation of the file's contents
    let mut files: BTreeMap<usize, u32> = BTreeMap::new();
    files.insert(0, 0);
    for generation in 1..=6u32 {
        for op in c.rotation_plan() {
            match op {
                FileOp::Remove(i) => {
                    files.remove(&i);
                }
                FileOp::Rename(a, b) => {
                    if let Some(v) = files.remove(&a) {
                        files.insert(b, v);
                    }
                }
                FileOp::CreateActive => {
                    files.entry(0).or_insert(generation);
                }
            }
        }
        assert!(files.keys().all(|&k| k < 4));
    }
    let expected: BTreeMap<usize, u32> = [(0, 6), (1, 5), (2, 4), (3, 3)].into_iter().collect();
    assert_eq!(files, expected);
}
