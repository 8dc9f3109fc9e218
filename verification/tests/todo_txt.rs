use todo_lib::date::{today, Date};
use todo_lib::due::TodoDate;
use todo_lib::error::TodoParseError;
use todo_lib::helper::IsDue;
use todo_lib::priority::TodoPriority;
use todo_lib::colors::{default_style, StyleScheme, BOLD, RED};
use todo_lib::{Todo, TodoSegment, TodoTag};

fn day(year: u16, month: u8, day: u8) -> Date {
    Date { year, month, day }
}

#[test]
fn todo_display() {
    let mut todo = Todo::new("Todo #1", TodoDate::Always, TodoPriority::B);

    let d = today();
    assert_eq!(
        todo.encode(),
        format!("(B) {}-{:02}-{:02} Todo #1 due:0000-00-00", d.year, d.month, d.day)
    );

    todo.complete();
    assert_eq!(
        todo.encode(),
        format!(
            "x (B) {0}-{1:02}-{2:02} {0}-{1:02}-{2:02} Todo #1 due:0000-00-00",
            d.year, d.month, d.day
        )
    );
}

#[test]
fn todo_txt_parsing() {
    let todo_text = "2023-01-07 Create a +todo @library due:2053-01-01";
    let mut todo = Todo::from_str(todo_text).unwrap();

    assert_eq!(todo.encode(), todo_text);
    assert!(!todo.due());

    todo.completed = true;

    assert_eq!(
        todo.encode(),
        "x 2023-01-07 Create a +todo @library due:2053-01-01"
    );

    assert!(todo.has_project_tag("todo"));
    assert!(todo.has_context_tag("library"));
}

#[test]
fn todo_txt_metadata() {
    let todo_text = "2023-01-16 Add metadata to the +todo @library due:2000-01-01 exam:ple";
    let mut todo = Todo::from_str(todo_text).unwrap();

    assert!(
        todo.due(),
        "Should be due, isn't; duedate: {:?}",
        todo.deadline
    );
    assert_eq!(todo.get_meta("exam"), Some(&"ple".to_string()));

    todo.delete_meta(&"exam".to_string());
    todo.set_meta("key", "val");

    assert_eq!(
        todo.encode(),
        "2023-01-16 Add metadata to the +todo @library due:2000-01-01 key:val",
    );
}

#[test]
fn round_trip_corpus() {
    let corpus = [
        "",
        "x ",
        "Water the plants",
        "(A) Pay the rent",
        "x (B) 2020-02-29 2020-02-01 File +taxes @desk due:2020-04-15 form:1040",
        "2023-01-07 Create a +todo @library due:2053-01-01",
        "x 2019-06-01 2019-05-30 Call the plumber",
        "plain k:v",
        "+tag @ctx stop",
        "(Z) last rank",
    ];
    for line in corpus {
        let todo = Todo::from_str_on(line, &day(2023, 5, 1)).unwrap();
        assert_eq!(todo.encode(), *line, "round trip of {:?}", line);
    }
}

#[test]
fn parse_priority_and_completion() {
    let t = Todo::from_str_on("x (C) do it", &day(2023, 1, 1)).unwrap();
    assert!(t.completed);
    assert_eq!(t.priority, TodoPriority::C);
    assert_eq!(t.creation, None);
    assert_eq!(t.completion_date, None);

    // A token without parentheses is not a priority; it stays text.
    let t = Todo::from_str_on("A plain start", &day(2023, 1, 1)).unwrap();
    assert_eq!(t.priority, TodoPriority::NoPriority);
    assert_eq!(t.encode(), "A plain start");
}

#[test]
fn parse_dates_swap() {
    // With two dates, the first is the completion date and the second the
    // creation date.
    let t = Todo::from_str_on("x 2020-01-05 2020-01-01 done thing", &day(2023, 1, 1)).unwrap();
    assert_eq!(t.completion_date, Some(day(2020, 1, 5)));
    assert_eq!(t.creation, Some(day(2020, 1, 1)));

    let t = Todo::from_str_on("2020-01-01 just created", &day(2023, 1, 1)).unwrap();
    assert_eq!(t.creation, Some(day(2020, 1, 1)));
    assert_eq!(t.completion_date, None);
}

#[test]
fn parse_bad_priority() {
    let r = Todo::from_str_on("(aa) task", &day(2023, 1, 1));
    assert!(matches!(r, Err(TodoParseError::BadPriority)));
    let r = Todo::from_str_on("() task", &day(2023, 1, 1));
    assert!(matches!(r, Err(TodoParseError::BadPriority)));
}

#[test]
fn parse_bad_date() {
    // A date-shaped token that is no valid calendar day.
    let r = Todo::from_str_on("2023-13-45 task", &day(2023, 1, 1));
    assert!(matches!(r, Err(TodoParseError::BadDate)));
    let r = Todo::from_str_on("2023-02-30 task", &day(2023, 1, 1));
    assert!(matches!(r, Err(TodoParseError::BadDate)));
    // A malformed relative day offset.
    let r = Todo::from_str_on("task due:xd", &day(2023, 1, 1));
    assert!(matches!(r, Err(TodoParseError::BadDate)));
    let r = Todo::from_str_on("task due:d", &day(2023, 1, 1));
    assert!(matches!(r, Err(TodoParseError::BadDate)));
    // An offset too large to resolve.
    let r = Todo::from_str_on("task due:99999999999999d", &day(2023, 1, 1));
    assert!(matches!(r, Err(TodoParseError::BadDate)));
    let r = Todo::from_str_on("2023-01-07 task due:9999999d", &day(2023, 1, 1));
    assert!(matches!(r, Err(TodoParseError::BadDate)));
}

#[test]
fn relative_due_resolution() {
    let t = Todo::from_str_on("2023-01-07 task due:3d", &day(2024, 6, 1)).unwrap();
    assert_eq!(t.deadline, TodoDate::Day(day(2023, 1, 10)));
    assert_eq!(t.encode(), "2023-01-07 task due:2023-01-10");

    // Year rollover.
    let t = Todo::from_str_on("2023-12-30 task due:5d", &day(2024, 6, 1)).unwrap();
    assert_eq!(t.deadline, TodoDate::Day(day(2024, 1, 4)));

    // Leap-day rollover.
    let t = Todo::from_str_on("2024-02-28 task due:2d", &day(2024, 6, 1)).unwrap();
    assert_eq!(t.deadline, TodoDate::Day(day(2024, 3, 1)));

    // Without a creation date, the offset counts from today.
    let t = Todo::from_str_on("task due:1d", &day(2023, 6, 15)).unwrap();
    assert_eq!(t.deadline, TodoDate::Day(day(2023, 6, 16)));
}

#[test]
fn due_today_keyword() {
    let t = Todo::from_str_on("2023-01-07 task due:today", &day(2024, 6, 1)).unwrap();
    assert_eq!(t.deadline, TodoDate::Day(day(2023, 1, 7)));

    let t = Todo::from_str_on("task due:today", &day(2024, 6, 1)).unwrap();
    assert_eq!(t.deadline, TodoDate::Day(day(2024, 6, 1)));
}

#[test]
fn unresolved_due_stays_metadata() {
    let t = Todo::from_str_on("task due:0000-00-00", &day(2023, 1, 1)).unwrap();
    assert_eq!(t.deadline, TodoDate::Never);
    assert_eq!(t.get_meta("due"), Some(&"0000-00-00".to_string()));
    assert_eq!(t.encode(), "task due:0000-00-00");

    let t = Todo::from_str_on("task due:whenever", &day(2023, 1, 1)).unwrap();
    assert_eq!(t.deadline, TodoDate::Never);
    assert_eq!(t.get_meta("due"), Some(&"whenever".to_string()));
}

#[test]
fn metadata_last_wins() {
    let t = Todo::from_str_on("a k:1 k:2", &day(2023, 1, 1)).unwrap();
    assert_eq!(t.get_meta("k"), Some(&"2".to_string()));
    assert_eq!(t.encode(), "a k:2");
}

#[test]
fn metadata_set_then_delete_round_trip() {
    let line = "2023-01-16 Keep the +record clean due:2100-01-01 keep:yes";
    let reference = Todo::from_str_on(line, &day(2023, 1, 16)).unwrap();
    let mut touched = Todo::from_str_on(line, &day(2023, 1, 16)).unwrap();

    assert_eq!(touched.get_meta("scratch"), None);
    touched.set_meta("scratch", "value");
    touched.delete_meta(&"scratch".to_string());

    assert_eq!(touched.encode(), reference.encode());
    assert_eq!(touched.encode(), line);
}

#[test]
fn colored_fallback_matches_plain() {
    let line = "x (B) 2020-02-29 2020-02-01 File +taxes @desk due:2020-04-15 form:1040";
    let todo = Todo::from_str_on(line, &day(2023, 1, 1)).unwrap();
    assert_eq!(todo.colored(StyleScheme::new()), todo.encode());

    let open_todo = Todo::from_str_on("(A) Pay +rent @home due:2030-01-01", &day(2023, 1, 1))
        .unwrap();
    assert_eq!(open_todo.colored(StyleScheme::new()), open_todo.encode());
}

#[test]
fn colored_styles_elements() {
    let todo = Todo::from_str_on("(A) Pay rent due:2030-01-01", &day(2023, 1, 1)).unwrap();
    let styled = todo.colored(StyleScheme::new().priority(Some(BOLD)).deadline(Some(RED)));
    assert!(styled.starts_with("\x1b[1m(A)\x1b[0m "));
    assert!(styled.contains("\x1b[38;5;1mdue:2030-01-01\x1b[0m"));
    assert!(styled.contains("Pay rent"));
}

#[test]
fn encode_empty_and_completed_empty() {
    let t = Todo::from_str_on("", &day(2023, 1, 1)).unwrap();
    assert_eq!(t.encode(), "");
    let t = Todo::from_str_on("x ", &day(2023, 1, 1)).unwrap();
    assert!(t.completed);
    assert_eq!(t.encode(), "x ");
}

#[test]
fn completion_mark_needs_trailing_space() {
    // A bare `x` is description text, not a completion mark.
    let t = Todo::from_str_on("x", &day(2023, 1, 1)).unwrap();
    assert!(!t.completed);
    assert_eq!(t.encode(), "x");

    let t = Todo::from_str_on("x y", &day(2023, 1, 1)).unwrap();
    assert!(t.completed);
    assert_eq!(t.encode(), "x y");
}

#[test]
fn parse_normalizes_spacing_and_order() {
    // Lines outside the canonical family are accepted but normalized:
    // doubled spaces collapse and metadata moves to the end.
    let t = Todo::from_str_on("a  b", &day(2023, 1, 1)).unwrap();
    assert_eq!(t.encode(), "a b");

    let t = Todo::from_str_on("k:v text", &day(2023, 1, 1)).unwrap();
    assert_eq!(t.encode(), "text k:v");
}

#[test]
fn set_creation_records_a_day() {
    let mut t = Todo::from_str_on("task", &day(2023, 1, 1)).unwrap();
    assert_eq!(t.creation, None);
    t.set_creation();
    assert!(t.creation.is_some());

    let mut t2 = Todo::from_str_on("task", &day(2023, 1, 1)).unwrap();
    t2.set_creation_date(&day(2022, 7, 15));
    assert_eq!(t2.creation, Some(day(2022, 7, 15)));
    assert_eq!(t2.encode(), "2022-07-15 task");
}

#[test]
fn styled_description_segments() {
    let seg = TodoSegment::Tag(TodoTag::project("sink").unwrap());
    assert_eq!(seg.to_string(StyleScheme::new(), ""), "+sink");
    let styled = seg.to_string(StyleScheme::new().project(Some(BOLD)), "\x1b[0m");
    assert_eq!(styled, "\x1b[1m+sink\x1b[0m");

    let t = Todo::from_str_on("Fix the +sink", &day(2023, 1, 1)).unwrap();
    assert_eq!(t.description.to_string(StyleScheme::new(), ""), "Fix the +sink");
}

#[test]
fn default_style_presets() {
    let todo = Todo::from_str_on("(A) Pay rent due:2030-01-01", &day(2023, 1, 1)).unwrap();
    let styled = todo.colored(default_style());
    assert!(styled.starts_with("\x1b[1m\x1b[38;5;6m(A)\x1b[0m "));
    assert!(styled.contains("\x1b[1m\x1b[38;5;1mdue:2030-01-01\x1b[0m"));

    // A completed todo is rendered whole in the faded preset.
    let mut done = Todo::from_str_on("chore", &day(2023, 1, 1)).unwrap();
    done.completed = true;
    assert_eq!(done.colored(default_style()), "\x1b[2m\x1b[38;5;7mx chore");
}
