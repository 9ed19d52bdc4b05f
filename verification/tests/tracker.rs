use task_tracker::store::{
    add_task, complete_task, list_lines, parse_id, run_command, tasks_from_content,
};
use task_tracker::render::render_tasks;
use task_tracker::task::Task;

#[test]
fn test_task_creation() {
    let task = Task::new(1, String::from("Buy milk"));
    assert_eq!(task.id, 1);
    assert_eq!(task.description, "Buy milk");
    assert!(!task.completed);
}

#[test]
fn test_mark_complete() {
    let mut task = Task::new(2, String::from("Do laundry"));
    task.mark_completed();
    assert!(task.completed);
}

#[test]
fn test_display() {
    let mut task = Task::new(3, String::from("Read book"));
    assert_eq!(task.display(), "[ ] Read book");

    task.mark_completed();
    assert_eq!(task.display(), "[x] Read book");
}

#[test]
fn mark_completed_twice_is_once() {
    let mut task = Task::new(0, String::from("water plants"));
    task.mark_completed();
    task.mark_completed();
    assert!(task.completed);
    assert_eq!(task.id, 0);
    assert_eq!(task.description, "water plants");
}

#[test]
fn render_one_task_exactly() {
    let tasks = vec![Task::new(0, String::from("Buy milk"))];
    let expected = "[\n  {\n    \"id\": 0,\n    \"description\": \"Buy milk\",\n    \"completed\": false\n  }\n]";
    assert_eq!(render_tasks(&tasks), expected);
}

#[test]
fn render_empty_store_exactly() {
    let tasks: Vec<Task> = Vec::new();
    assert_eq!(render_tasks(&tasks), "[]");
}

#[test]
fn render_two_tasks_exactly() {
    let mut done = Task::new(1, String::from("b"));
    done.mark_completed();
    let tasks = vec![Task::new(0, String::from("a")), done];
    let expected = "[\n  {\n    \"id\": 0,\n    \"description\": \"a\",\n    \"completed\": false\n  },\n  {\n    \"id\": 1,\n    \"description\": \"b\",\n    \"completed\": true\n  }\n]";
    assert_eq!(render_tasks(&tasks), expected);
}

fn assert_same_tasks(a: &[Task], b: &[Task]) {
    assert_eq!(a.len(), b.len());
    for (x, y) in a.iter().zip(b.iter()) {
        assert_eq!(x.id, y.id);
        assert_eq!(x.description, y.description);
        assert_eq!(x.completed, y.completed);
    }
}

#[test]
fn round_trip_empty() {
    let tasks: Vec<Task> = Vec::new();
    let doc = render_tasks(&tasks);
    let loaded = tasks_from_content(Some(&doc));
    assert!(!loaded.warned);
    assert_same_tasks(&tasks, &loaded.tasks);
}

#[test]
fn round_trip_one() {
    let tasks = vec![Task::new(0, String::from("Buy milk"))];
    let doc = render_tasks(&tasks);
    let loaded = tasks_from_content(Some(&doc));
    assert!(!loaded.warned);
    assert_same_tasks(&tasks, &loaded.tasks);
}

#[test]
fn round_trip_many_with_escapes() {
    let mut second = Task::new(1, String::from("say \"hello\" to C:\\temp"));
    second.mark_completed();
    let tasks = vec![
        Task::new(0, String::from("plain text")),
        second,
        Task::new(2, String::from("tab\there, line\nbreak")),
        Task::new(4294967295, String::from("")),
    ];
    let doc = render_tasks(&tasks);
    let loaded = tasks_from_content(Some(&doc));
    assert!(!loaded.warned);
    assert_same_tasks(&tasks, &loaded.tasks);
}

#[test]
fn load_missing_file_is_empty() {
    let loaded = tasks_from_content(None);
    assert!(!loaded.warned);
    assert!(loaded.tasks.is_empty());
}

#[test]
fn load_invalid_json_warns_and_is_empty() {
    let loaded = tasks_from_content(Some("this is not a task list"));
    assert!(loaded.warned);
    assert!(loaded.tasks.is_empty());
}

#[test]
fn load_accepts_any_field_order_and_whitespace() {
    let doc = " [ {\"completed\": true , \"id\":7,\n\t\"description\": \"x\"} ] ";
    let loaded = tasks_from_content(Some(doc));
    assert!(!loaded.warned);
    assert_eq!(loaded.tasks.len(), 1);
    assert_eq!(loaded.tasks[0].id, 7);
    assert_eq!(loaded.tasks[0].description, "x");
    assert!(loaded.tasks[0].completed);
}

#[test]
fn load_rejects_wrong_shapes() {
    let bad = [
        "",
        "[",
        "[{}]",
        "[{\"id\": 0}]",
        "[{\"id\": 0, \"description\": \"a\", \"completed\": false, \"extra\": 1}]",
        "[{\"id\": 0, \"id\": 1, \"description\": \"a\", \"completed\": false}]",
        "[{\"id\": -1, \"description\": \"a\", \"completed\": false}]",
        "[{\"id\": 4294967296, \"description\": \"a\", \"completed\": false}]",
        "[] trailing",
        "[{\"id\": 0, \"description\": \"a\", \"completed\": false},]",
    ];
    for doc in bad.iter() {
        let loaded = tasks_from_content(Some(doc));
        assert!(loaded.warned, "accepted: {}", doc);
        assert!(loaded.tasks.is_empty());
    }
}

#[test]
fn load_accepts_largest_id() {
    let doc = "[{\"id\": 4294967295, \"description\": \"a\", \"completed\": false}]";
    let loaded = tasks_from_content(Some(doc));
    assert!(!loaded.warned);
    assert_eq!(loaded.tasks[0].id, 4294967295);
}

#[test]
fn parse_id_cases() {
    assert_eq!(parse_id("0"), Some(0));
    assert_eq!(parse_id("42"), Some(42));
    assert_eq!(parse_id("+7"), Some(7));
    assert_eq!(parse_id("007"), Some(7));
    assert_eq!(parse_id("4294967295"), Some(4294967295));
    assert_eq!(parse_id("4294967296"), None);
    assert_eq!(parse_id(""), None);
    assert_eq!(parse_id("+"), None);
    assert_eq!(parse_id("-1"), None);
    assert_eq!(parse_id("1x"), None);
    assert_eq!(parse_id(" 1"), None);
}

#[test]
fn add_task_appends_with_positional_id() {
    let mut tasks = vec![Task::new(0, String::from("a"))];
    let added = add_task(&mut tasks, String::from("b"));
    assert!(added);
    assert_eq!(tasks.len(), 2);
    assert_eq!(tasks[1].id, 1);
    assert_eq!(tasks[1].description, "b");
    assert!(!tasks[1].completed);
}

#[test]
fn add_task_rejects_empty_description() {
    let mut tasks = vec![Task::new(0, String::from("a"))];
    let added = add_task(&mut tasks, String::new());
    assert!(!added);
    assert_eq!(tasks.len(), 1);
}

#[test]
fn complete_task_marks_only_matches() {
    let mut tasks = vec![
        Task::new(0, String::from("a")),
        Task::new(1, String::from("b")),
    ];
    let found = complete_task(&mut tasks, 1);
    assert!(found);
    assert!(!tasks[0].completed);
    assert!(tasks[1].completed);
}

#[test]
fn complete_task_reports_missing_id() {
    let mut tasks = vec![Task::new(0, String::from("a"))];
    let found = complete_task(&mut tasks, 9);
    assert!(!found);
    assert!(!tasks[0].completed);
}

fn args_of(words: &[&str]) -> Vec<String> {
    words.iter().map(|w| String::from(*w)).collect()
}

#[test]
fn command_add_without_text_changes_nothing() {
    let mut tasks: Vec<Task> = Vec::new();
    let r = run_command(&mut tasks, &args_of(&["prog", "add"]));
    assert!(!r.save);
    assert_eq!(r.lines, vec![String::from("Please provide a task to add.")]);
    assert!(tasks.is_empty());
}

#[test]
fn command_complete_missing_id_does_not_save() {
    let mut tasks = vec![Task::new(0, String::from("a"))];
    let r = run_command(&mut tasks, &args_of(&["prog", "complete", "5"]));
    assert!(!r.save);
    assert_eq!(r.lines, vec![String::from("Task 5 could not be found.")]);
    assert!(!tasks[0].completed);
}

#[test]
fn command_complete_rejects_non_integer() {
    let mut tasks = vec![Task::new(0, String::from("a"))];
    let r = run_command(&mut tasks, &args_of(&["prog", "complete", "abc"]));
    assert!(!r.save);
    assert_eq!(r.lines, vec![String::from("Invalid id provided.")]);
    assert!(!tasks[0].completed);
}

#[test]
fn command_unknown_prints_usage() {
    let mut tasks: Vec<Task> = Vec::new();
    let r = run_command(&mut tasks, &args_of(&["prog", "frobnicate"]));
    assert!(!r.save);
    assert_eq!(
        r.lines,
        vec![
            String::from("Invalid or missing command."),
            String::from("Usage:"),
            String::from("  add <task>     - Add a new task"),
            String::from("  list           - List all tasks"),
            String::from("  complete <id>  - Mark a task as complete"),
        ]
    );
    assert!(tasks.is_empty());
}

#[test]
fn command_add_joins_words() {
    let mut tasks: Vec<Task> = Vec::new();
    let r = run_command(&mut tasks, &args_of(&["prog", "add", "Buy", "more", "milk"]));
    assert!(r.save);
    assert_eq!(r.lines, vec![String::from("Added task: Buy more milk")]);
    assert_eq!(tasks[0].description, "Buy more milk");
}

#[test]
fn end_to_end_scenario() {
    // Start with an empty store.
    let mut tasks: Vec<Task> = Vec::new();

    // add "Buy milk": the store gains task 0 and must be saved.
    let r = run_command(&mut tasks, &args_of(&["prog", "add", "Buy milk"]));
    assert!(r.save);
    assert_eq!(r.lines, vec![String::from("Added task: Buy milk")]);
    assert_eq!(tasks.len(), 1);
    assert_eq!(tasks[0].id, 0);
    assert_eq!(tasks[0].description, "Buy milk");
    assert!(!tasks[0].completed);

    // Persist and reload, as separate invocations would.
    let doc = render_tasks(&tasks);
    let mut tasks = tasks_from_content(Some(&doc)).tasks;

    // list: one open task.
    let r = run_command(&mut tasks, &args_of(&["prog", "list"]));
    assert!(!r.save);
    assert_eq!(r.lines, vec![String::from("[ ] Buy milk")]);

    // complete 0: saved, and listed as done afterwards.
    let r = run_command(&mut tasks, &args_of(&["prog", "complete", "0"]));
    assert!(r.save);
    assert_eq!(r.lines, vec![String::from("Task 0 marked as complete.")]);
    let doc = render_tasks(&tasks);
    let mut tasks = tasks_from_content(Some(&doc)).tasks;
    let r = run_command(&mut tasks, &args_of(&["prog", "list"]));
    assert_eq!(r.lines, vec![String::from("[x] Buy milk")]);
}

#[test]
fn list_lines_renders_in_stored_order() {
    let mut done = Task::new(3, String::from("first"));
    done.mark_completed();
    let tasks = vec![done, Task::new(0, String::from("second"))];
    let lines = list_lines(&tasks);
    assert_eq!(
        lines,
        vec![String::from("[x] first"), String::from("[ ] second")]
    );
}
