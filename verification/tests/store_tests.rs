use taskstore::coord::MutOp;
use taskstore::coord::StepOutcome;
use taskstore::coord::step;
use taskstore::default_completed;
use taskstore::store::CompleteOutcome;
use taskstore::store::RemoveOutcome;
use taskstore::store::TaskManager;
use taskstore::task::Task;

fn manager_with(tasks: Vec<Task>) -> TaskManager {
    TaskManager { tasks }
}

fn sample_task(title: &str, body: &str) -> Task {
    Task::with_creation_date(title.to_string(), body.to_string(), "2024-01-02 03:04:05".to_string())
}

#[test]
fn default_is_empty() {
    let m = TaskManager::default();
    assert_eq!(m.tasks.len(), 0);
}

#[test]
fn default_completed_is_true() {
    assert!(default_completed());
}

#[test]
fn new_task_is_pending_and_unfinished() {
    let t = Task::new("a".to_string(), "b".to_string());
    assert_eq!(t.title, "a");
    assert_eq!(t.body, "b");
    assert!(t.pending);
    assert!(t.completion_date.is_none());
    assert!(!t.creation_date.is_empty());
}

#[test]
fn encode_exact_one_task() {
    let m = manager_with(vec![sample_task("Buy milk", "2%")]);
    let encoded = m.encode_json();
    assert_eq!(
        encoded,
        "{\"tasks\":[{\"title\":\"Buy milk\",\"body\":\"2%\",\"completed\":true,\
         \"creation_date\":\"2024-01-02 03:04:05\",\"completion_date\":null}]}"
    );
}

#[test]
fn encode_exact_empty() {
    let m = TaskManager::default();
    assert_eq!(m.encode_json(), "{\"tasks\":[]}");
}

#[test]
fn round_trip_plain() {
    let m = manager_with(vec![sample_task("a", "b"), sample_task("c", "d")]);
    let decoded = TaskManager::decode_json(&m.encode_json(), "unused").expect("round trip");
    assert_eq!(decoded.tasks, m.tasks);
}

#[test]
fn round_trip_finished_task() {
    let mut m = manager_with(vec![sample_task("a", "b")]);
    let r = m.complete_task_with_timestamp(0, "2024-02-03 04:05:06".to_string());
    assert_eq!(r, CompleteOutcome::Completed);
    let decoded = TaskManager::decode_json(&m.encode_json(), "unused").expect("round trip");
    assert_eq!(decoded.tasks, m.tasks);
    assert_eq!(decoded.tasks[0].completion_date.as_deref(), Some("2024-02-03 04:05:06"));
}

#[test]
fn round_trip_escapes() {
    let wild = "quote \" backslash \\ newline \n tab \t cr \r bell \u{0007} unicode \u{00e9}\u{4e16}";
    let m = manager_with(vec![sample_task(wild, "body with \"quotes\" and \\slashes\\")]);
    let encoded = m.encode_json();
    let decoded = TaskManager::decode_json(&encoded, "unused").expect("round trip");
    assert_eq!(decoded.tasks, m.tasks);
}

#[test]
fn escaped_control_chars_are_json_style() {
    let m = manager_with(vec![sample_task("a\u{0001}b", "c")]);
    let encoded = m.encode_json();
    assert!(encoded.contains("a\\u0001b"));
}

#[test]
fn decode_missing_completed_defaults_to_pending() {
    let text = "{\"tasks\":[{\"title\":\"a\",\"body\":\"b\",\
                \"creation_date\":\"x\",\"completion_date\":null}]}";
    let m = TaskManager::decode_json(text, "fallback").expect("decodes");
    assert!(m.tasks[0].pending);
    assert_eq!(m.tasks[0].creation_date, "x");
}

#[test]
fn decode_missing_creation_uses_default() {
    let text = "{\"tasks\":[{\"title\":\"a\",\"body\":\"b\",\"completed\":false,\
                \"completion_date\":\"y\"}]}";
    let m = TaskManager::decode_json(text, "fallback").expect("decodes");
    assert_eq!(m.tasks[0].creation_date, "fallback");
    assert!(!m.tasks[0].pending);
    assert_eq!(m.tasks[0].completion_date.as_deref(), Some("y"));
}

#[test]
fn decode_minimal_task() {
    let text = "{\"tasks\":[{\"title\":\"a\",\"body\":\"b\"}]}";
    let m = TaskManager::decode_json(text, "fallback").expect("decodes");
    assert_eq!(m.tasks[0].title, "a");
    assert_eq!(m.tasks[0].body, "b");
    assert!(m.tasks[0].pending);
    assert_eq!(m.tasks[0].creation_date, "fallback");
    assert!(m.tasks[0].completion_date.is_none());
}

#[test]
fn decode_rejects_bad_input() {
    assert!(TaskManager::decode_json("", "d").is_err());
    assert!(TaskManager::decode_json("not structured at all", "d").is_err());
    assert!(TaskManager::decode_json("{\"tasks\":[", "d").is_err());
    // a task missing the required title field
    assert!(TaskManager::decode_json("{\"tasks\":[{\"body\":\"b\"}]}", "d").is_err());
    // a task missing the required body field
    assert!(TaskManager::decode_json("{\"tasks\":[{\"title\":\"a\"}]}", "d").is_err());
    // trailing data after the collection
    assert!(TaskManager::decode_json("{\"tasks\":[]} ", "d").is_err());
    // a bad escape inside a string
    assert!(TaskManager::decode_json("{\"tasks\":[{\"title\":\"\\x\",\"body\":\"b\"}]}", "d").is_err());
}

#[test]
fn format_error_message_is_descriptive() {
    let e = TaskManager::decode_json("nonsense", "d").unwrap_err();
    assert_eq!(e.message(), "the saved task data cannot be decoded");
}

#[test]
fn from_saved_nothing_is_empty_store_not_error() {
    let m = TaskManager::from_saved(None, "d").expect("first run is not an error");
    assert_eq!(m.tasks.len(), 0);
}

#[test]
fn from_saved_bad_data_is_format_error() {
    assert!(TaskManager::from_saved(Some("garbage"), "d").is_err());
}

#[test]
fn remove_out_of_bounds_is_noop_byte_for_byte() {
    let mut m = manager_with(vec![sample_task("a", "b")]);
    let before = m.encode_json();
    assert_eq!(m.remove_task(7), RemoveOutcome::OutOfBounds);
    assert_eq!(m.encode_json(), before);

    let mut empty = TaskManager::default();
    let before_empty = empty.encode_json();
    assert_eq!(empty.remove_task(0), RemoveOutcome::EmptyStore);
    assert_eq!(empty.encode_json(), before_empty);
}

#[test]
fn complete_out_of_bounds_is_noop_byte_for_byte() {
    let mut m = manager_with(vec![sample_task("a", "b")]);
    let before = m.encode_json();
    assert_eq!(m.complete_task_with_timestamp(1, "t".to_string()), CompleteOutcome::InvalidIndex);
    assert_eq!(m.encode_json(), before);
}

#[test]
fn remove_shifts_later_tasks_down() {
    let mut m = manager_with(vec![sample_task("a", "1"), sample_task("b", "2"), sample_task("c", "3")]);
    assert_eq!(m.remove_task(1), RemoveOutcome::Removed);
    assert_eq!(m.tasks.len(), 2);
    assert_eq!(m.tasks[0].title, "a");
    assert_eq!(m.tasks[1].title, "c");
}

#[test]
fn complete_twice_is_one_way() {
    let mut m = manager_with(vec![sample_task("a", "b")]);
    assert_eq!(
        m.complete_task_with_timestamp(0, "first".to_string()),
        CompleteOutcome::Completed
    );
    assert!(!m.tasks[0].pending);
    assert_eq!(m.tasks[0].completion_date.as_deref(), Some("first"));
    // the second call is a no-op: the flag stays flipped and the first
    // timestamp is not overwritten
    assert_eq!(
        m.complete_task_with_timestamp(0, "second".to_string()),
        CompleteOutcome::AlreadyFinished
    );
    assert!(!m.tasks[0].pending);
    assert_eq!(m.tasks[0].completion_date.as_deref(), Some("first"));
}

#[test]
fn add_then_fresh_load_is_durable() {
    let mut m = TaskManager::default();
    m.add_task("A".to_string(), "B".to_string());
    let image = m.encode_json();
    let loaded = TaskManager::decode_json(&image, "d").expect("loads");
    assert_eq!(loaded.tasks.len(), 1);
    assert_eq!(loaded.tasks[0].title, "A");
    assert_eq!(loaded.tasks[0].body, "B");
}

#[test]
fn serialised_adds_lose_nothing() {
    let n = 10;
    let mut m = TaskManager::default();
    let mut last_image = None;
    for k in 0..n {
        let (outcome, image) = step(
            &mut m,
            MutOp::Add { title: format!("task-{}", k), body: format!("body-{}", k) },
        );
        assert_eq!(outcome, StepOutcome::Added);
        assert!(image.is_some());
        last_image = image;
    }
    let loaded = TaskManager::decode_json(&last_image.unwrap(), "d").expect("loads");
    assert_eq!(loaded.tasks.len(), n);
    for k in 0..n {
        assert_eq!(loaded.tasks[k].title, format!("task-{}", k));
    }
}

#[test]
fn scenario_add_then_list() {
    let mut m = TaskManager::default();
    m.add_task("Buy milk".to_string(), "2%".to_string());
    let listed = m.list_from(0);
    assert_eq!(listed.len(), 1);
    assert_eq!(listed[0].title, "Buy milk");
    assert!(listed[0].pending);
    assert!(listed[0].completion_date.is_none());
}

#[test]
fn scenario_complete_then_finished() {
    let mut m = manager_with(vec![sample_task("a", "b")]);
    assert_eq!(m.complete_task(0), CompleteOutcome::Completed);
    let finished = m.finished_tasks();
    assert_eq!(finished.len(), 1);
    assert_eq!(finished[0].0, "a");
    assert!(!finished[0].1.is_empty());
}

#[test]
fn scenario_remove_from_empty_is_benign() {
    let mut m = TaskManager::default();
    let r = m.remove_task(0);
    assert_eq!(r, RemoveOutcome::EmptyStore);
    assert_eq!(m.tasks.len(), 0);
}

#[test]
fn list_bound_is_inclusive() {
    let m = manager_with(vec![sample_task("a", "1"), sample_task("b", "2"), sample_task("c", "3")]);
    assert_eq!(m.list_from(0).len(), 1);
    assert_eq!(m.list_from(1).len(), 2);
    assert_eq!(m.list_from(2).len(), 3);
    assert_eq!(m.list_from(9).len(), 3);
}

#[test]
fn finished_tasks_keeps_collection_order() {
    let mut m = manager_with(vec![sample_task("a", "1"), sample_task("b", "2"), sample_task("c", "3")]);
    m.complete_task_with_timestamp(2, "t2".to_string());
    m.complete_task_with_timestamp(0, "t0".to_string());
    let finished = m.finished_tasks();
    assert_eq!(finished, vec![("a".to_string(), "t0".to_string()), ("c".to_string(), "t2".to_string())]);
}

#[test]
fn step_remove_persists_only_on_change() {
    let mut m = manager_with(vec![sample_task("a", "b")]);
    let (outcome, image) = step(&mut m, MutOp::Remove { index: 3 });
    assert_eq!(outcome, StepOutcome::OutOfBounds);
    assert!(image.is_none());
    let (outcome, image) = step(&mut m, MutOp::Remove { index: 0 });
    assert_eq!(outcome, StepOutcome::Removed);
    assert_eq!(image.unwrap(), m.encode_json());
    let (outcome, image) = step(&mut m, MutOp::Remove { index: 0 });
    assert_eq!(outcome, StepOutcome::EmptyStore);
    assert!(image.is_none());
}

#[test]
fn step_complete_persists_only_on_change() {
    let mut m = manager_with(vec![sample_task("a", "b")]);
    let (outcome, image) = step(&mut m, MutOp::Complete { index: 9 });
    assert_eq!(outcome, StepOutcome::InvalidIndex);
    assert!(image.is_none());
    let (outcome, image) = step(&mut m, MutOp::Complete { index: 0 });
    assert_eq!(outcome, StepOutcome::Completed);
    assert_eq!(image.unwrap(), m.encode_json());
    let (outcome, image) = step(&mut m, MutOp::Complete { index: 0 });
    assert_eq!(outcome, StepOutcome::AlreadyFinished);
    assert!(image.is_none());
}

#[test]
fn step_add_image_matches_memory() {
    let mut m = TaskManager::default();
    let (outcome, image) = step(&mut m, MutOp::Add { title: "x".to_string(), body: "y".to_string() });
    assert_eq!(outcome, StepOutcome::Added);
    assert_eq!(image.unwrap(), m.encode_json());
}

#[test]
fn list_text_exact() {
    let m = manager_with(vec![sample_task("Buy milk", "2%")]);
    assert_eq!(
        m.list_tasks_text(0),
        "Task 0: Title: Buy milk, Body: 2%, Pending: true, created at: 2024-01-02 03:04:05\n"
    );
}

#[test]
fn list_text_respects_bound_and_decimal_indices() {
    let tasks: Vec<taskstore::task::Task> =
        (0..12).map(|k| sample_task(&format!("t{}", k), "b")).collect();
    let m = manager_with(tasks);
    let all = m.list_tasks_text(100);
    assert!(all.contains("Task 11: Title: t11"));
    assert_eq!(all.lines().count(), 12);
    let some = m.list_tasks_text(3);
    assert_eq!(some.lines().count(), 4);
}

#[test]
fn finished_text_keeps_collection_index() {
    let mut m = manager_with(vec![sample_task("a", "1"), sample_task("b", "2"), sample_task("c", "3")]);
    m.complete_task_with_timestamp(2, "t2".to_string());
    assert_eq!(m.finished_tasks_text(), "Task: 2, title: c, Completion Date: t2\n");
}

#[test]
fn finished_text_empty_when_nothing_finished() {
    let m = manager_with(vec![sample_task("a", "1")]);
    assert_eq!(m.finished_tasks_text(), "");
}
