use css2mp4_core::tasks::{task_not_found_message, DownloadRefusal, TaskStatus, TaskTable};

#[test]
fn created_task_is_queued() {
    let mut table = TaskTable::new();
    table.create_task("t1".to_string(), "/tmp/t1.mp4".to_string(), 180);
    let t = table.get("t1").unwrap();
    assert_eq!(t.status, TaskStatus::Queued);
    assert_eq!(t.current_frame, 0);
    assert_eq!(t.total_frames, 180);
    assert_eq!(t.output_path, "/tmp/t1.mp4");
    assert!(t.error.is_none());
    assert!(table.get("t2").is_none());
}

#[test]
fn progress_moves_task_to_rendering() {
    let mut table = TaskTable::new();
    table.create_task("a".to_string(), "a.mp4".to_string(), 10);
    let e = table.update_progress("a", 4, 10).unwrap();
    assert_eq!(e.frame, 4);
    assert_eq!(e.total_frames, 10);
    assert_eq!(e.status, TaskStatus::Rendering);
    assert!(e.error.is_none());
    let t = table.get("a").unwrap();
    assert_eq!(t.status, TaskStatus::Rendering);
    assert_eq!(t.current_frame, 4);
}

#[test]
fn completion_reports_all_frames() {
    let mut table = TaskTable::new();
    table.create_task("a".to_string(), "a.webm".to_string(), 90);
    table.update_progress("a", 30, 90);
    let e = table.complete_task("a").unwrap();
    assert_eq!(e.frame, 90);
    assert_eq!(e.total_frames, 90);
    assert_eq!(e.status, TaskStatus::Completed);
    assert_eq!(table.download_target("a").unwrap(), "a.webm");
}

#[test]
fn failure_keeps_message_and_frame() {
    let mut table = TaskTable::new();
    table.create_task("a".to_string(), "a.mp4".to_string(), 60);
    table.update_progress("a", 12, 60);
    let e = table.fail_task("a", "boom".to_string()).unwrap();
    assert_eq!(e.frame, 12);
    assert_eq!(e.total_frames, 60);
    assert_eq!(e.status, TaskStatus::Failed);
    assert_eq!(e.error.as_deref(), Some("boom"));
    let t = table.get("a").unwrap();
    assert_eq!(t.status, TaskStatus::Failed);
    assert_eq!(t.error.as_deref(), Some("boom"));
    assert_eq!(
        table.download_target("a").unwrap_err(),
        DownloadRefusal::NotCompleted(TaskStatus::Failed)
    );
}

#[test]
fn unknown_task_operations_change_nothing() {
    let mut table = TaskTable::new();
    table.create_task("a".to_string(), "a.mp4".to_string(), 5);
    assert!(table.update_progress("zz", 1, 5).is_none());
    assert!(table.complete_task("zz").is_none());
    assert!(table.fail_task("zz", "x".to_string()).is_none());
    assert!(table.get("zz").is_none());
    assert_eq!(table.get("a").unwrap().status, TaskStatus::Queued);
    assert_eq!(table.download_target("zz").unwrap_err(), DownloadRefusal::NotFound);
}

#[test]
fn operations_touch_only_their_task() {
    let mut table = TaskTable::new();
    table.create_task("a".to_string(), "a.mp4".to_string(), 5);
    table.create_task("b".to_string(), "b.mp4".to_string(), 7);
    table.update_progress("a", 3, 5);
    table.complete_task("a");
    let b = table.get("b").unwrap();
    assert_eq!(b.status, TaskStatus::Queued);
    assert_eq!(b.current_frame, 0);
    assert_eq!(b.total_frames, 7);
}

#[test]
fn recreating_a_task_replaces_it() {
    let mut table = TaskTable::new();
    table.create_task("a".to_string(), "a.mp4".to_string(), 5);
    table.complete_task("a");
    table.create_task("a".to_string(), "b.webm".to_string(), 9);
    let t = table.get("a").unwrap();
    assert_eq!(t.status, TaskStatus::Queued);
    assert_eq!(t.output_path, "b.webm");
    assert_eq!(t.total_frames, 9);
}

#[test]
fn download_refused_before_completion() {
    let mut table = TaskTable::new();
    table.create_task("a".to_string(), "a.mp4".to_string(), 5);
    let r = table.download_target("a").unwrap_err();
    assert_eq!(r, DownloadRefusal::NotCompleted(TaskStatus::Queued));
    assert_eq!(r.status_code(), 400);
    assert_eq!(r.message("a"), "タスクはまだ完了していません (現在の状態: Queued)");
    table.update_progress("a", 1, 5);
    assert_eq!(
        table.download_target("a").unwrap_err().message("a"),
        "タスクはまだ完了していません (現在の状態: Rendering)"
    );
}

#[test]
fn refusal_of_unknown_task() {
    let r = DownloadRefusal::NotFound;
    assert_eq!(r.status_code(), 404);
    assert_eq!(r.message("x9"), "タスクが見つかりません: x9");
    assert_eq!(task_not_found_message("abc"), "タスクが見つかりません: abc");
}

#[test]
fn status_names() {
    assert_eq!(TaskStatus::Queued.name(), "Queued");
    assert_eq!(TaskStatus::Rendering.name(), "Rendering");
    assert_eq!(TaskStatus::Completed.name(), "Completed");
    assert_eq!(TaskStatus::Failed.name(), "Failed");
}
