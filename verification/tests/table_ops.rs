use todo_lib::date::Date;
use todo_lib::due::TodoDate;
use todo_lib::helper::IsDue;
use todo_lib::priority::TodoPriority;
use todo_lib::table::{TodoColumn, TodoTable};
use todo_lib::Todo;

fn day(year: u16, month: u8, day: u8) -> Date {
    Date { year, month, day }
}

#[test]
fn create_add_complete_move() {
    let mut todos = TodoTable::new(None);
    todos.add_col("A");
    todos.add_col("B");

    todos.add_todo(Todo::new("1", TodoDate::Never, TodoPriority::NoPriority), "A");
    todos.add_todo(Todo::new("2", TodoDate::Never, TodoPriority::NoPriority), "B");

    let todo1 = todos.get_todo("1", "A");
    assert!(todo1.is_some(), "Failed to retrieve todo 1");

    todo1.unwrap().complete();

    assert!(todos.move_todo("2", "B", "A"));

    let todo2 = todos.get_todo("2", "A");
    assert!(todo2.is_some(), "Failed to retrieve todo 2");

    todo2.unwrap().complete();
}

#[test]
fn column_operations() {
    let mut col = TodoColumn::new("Todo");
    col.add(Todo::new("Buy mangos", TodoDate::Never, TodoPriority::NoPriority));
    col.add(Todo::new("Sort stamps", TodoDate::Never, TodoPriority::NoPriority));

    col.get("Buy mangos").expect("Failed to get todo").complete();
    assert!(col.get("Buy mangos").unwrap().completed);
    assert!(col.get("Absent").is_none());

    let popped = col.pop("Sort stamps").expect("Failed to remove todo");
    assert_eq!(popped.description.text(), "Sort stamps");
    assert!(col.pop("Sort stamps").is_none());
    assert_eq!(col.todos.len(), 1);
}

#[test]
fn column_metadata_lookup() {
    let mut col = TodoColumn::new("Work");
    let mut a = Todo::new("alpha", TodoDate::Never, TodoPriority::NoPriority);
    a.set_meta("owner", "ada");
    let mut b = Todo::new("beta", TodoDate::Never, TodoPriority::NoPriority);
    b.set_meta("owner", "bob");
    col.add(a);
    col.add(b);

    let hit = col.has_meta("owner").expect("no todo with key");
    assert_eq!(hit.description.text(), "alpha");

    let hit = col.get_meta("owner", "bob").expect("no todo with pair");
    assert_eq!(hit.description.text(), "beta");

    assert!(col.has_meta("absent").is_none());
    assert!(col.get_meta("owner", "carl").is_none());
}

#[test]
fn table_metadata_lookup() {
    let mut table = TodoTable::new(Some("Board"));
    table.add_col("Work");
    let mut a = Todo::new("alpha", TodoDate::Never, TodoPriority::NoPriority);
    a.set_meta("owner", "ada");
    table.add_todo(a, "Work");

    assert!(table.has_meta("Work", "owner").is_some());
    assert!(table.has_meta("Work", "absent").is_none());
    assert!(table.get_meta("Work", "owner", "ada").is_some());
    assert!(table.get_meta("Work", "owner", "bob").is_none());
    assert!(table.col("Work").is_some());
    assert!(table.col("Play").is_none());
}

#[test]
fn move_requires_target_before_source() {
    let mut table = TodoTable::new(None);
    table.add_col("A");
    table.add_col("B");
    table.add_todo(Todo::new("1", TodoDate::Never, TodoPriority::NoPriority), "A");

    // The target column stands after the source column: nothing moves.
    assert!(!table.move_todo("1", "A", "B"));
    // A missing todo or column moves nothing either.
    assert!(!table.move_todo("2", "B", "A"));
    assert!(!table.move_todo("1", "C", "A"));
}

#[test]
fn move_clones_into_target() {
    let mut table = TodoTable::new(None);
    table.add_col("A");
    table.add_col("B");
    table.add_todo(Todo::new("1", TodoDate::Never, TodoPriority::NoPriority), "B");

    assert!(table.move_todo("1", "B", "A"));
    // The todo now stands in the target column; the source keeps its copy.
    assert!(table.get_todo("1", "A").is_some());
    assert!(table.get_todo("1", "B").is_some());
}

#[test]
fn column_and_table_due() {
    let mut col = TodoColumn::new("Now");
    assert!(!col.due());
    col.add(Todo::new("soon", TodoDate::Always, TodoPriority::NoPriority));
    assert!(col.due());

    let mut table = TodoTable::new(None);
    table.add_col("Empty");
    assert!(!table.due());
    table.add_col("Busy");
    table.add_todo(Todo::new("soon", TodoDate::Always, TodoPriority::NoPriority), "Busy");
    assert!(table.due());
}

#[test]
fn renders() {
    let mut col = TodoColumn::new("Work");
    let mut t = Todo::default();
    t.description = todo_lib::TodoDescription(vec![todo_lib::TodoSegment::Text(
        "write".to_string(),
    )]);
    col.add(t);
    assert_eq!(col.render(), "| Work |\n| write\n");

    let mut table = TodoTable::new(Some("Board"));
    table.add_col("Work");
    assert_eq!(table.render(), "=== Board ===| Work |\n\n\n");
}
