use todo_lib::date::{today, Date};
use todo_lib::due::TodoDate;
use todo_lib::error::InvalidPriorityError;
use todo_lib::helper::{IsDue, MetaMap};
use todo_lib::priority::TodoPriority;
use todo_lib::{Todo, TodoTag};

fn day(year: u16, month: u8, day: u8) -> Date {
    Date { year, month, day }
}

#[test]
fn is_due() {
    let todo = Todo::new("", TodoDate::Day(today()), TodoPriority::NoPriority);
    assert!(
        todo.due(),
        "Should be due, isn't; deadline{}",
        todo.deadline.encode()
    );

    let todo = Todo::new("", TodoDate::Always, TodoPriority::NoPriority);
    assert!(
        todo.due(),
        "Should be due, isn't; deadline{}",
        todo.deadline.encode()
    );

    let todo = Todo::default();
    assert!(
        !todo.due(),
        "Shouldn't be due, is; deadline{}",
        todo.deadline.encode()
    );
}

#[test]
fn tag_parsing() {
    assert!(
        TodoTag::project("a ").is_none(),
        "TodoTag::project accepted space"
    );
    assert!(
        TodoTag::project("b\n").is_none(),
        "TodoTag::project accepted newline"
    );
    assert!(
        TodoTag::project("c\t").is_none(),
        "TodoTag::project accepted tab"
    );

    assert!(
        TodoTag::context("a ").is_none(),
        "TodoTag::context accepted space"
    );
    assert!(
        TodoTag::context("b\n").is_none(),
        "TodoTag::context accepted newline"
    );
    assert!(
        TodoTag::context("c\t").is_none(),
        "TodoTag::context accepted tab"
    );

    let a = Todo::new(
        "+1 @2 3+4 @a +b-c @def@ghi jk@lm",
        TodoDate::Never,
        TodoPriority::NoPriority,
    );
    let tags = a.tags();

    assert!(
        tags.contains(&TodoTag::project("1").unwrap()),
        "Couldn't find +1"
    );
    assert!(
        tags.contains(&TodoTag::context("2").unwrap()),
        "Couldn't find @2"
    );
    assert!(
        !tags.contains(&TodoTag::project("4").unwrap()),
        "Shouldn't find +4"
    );
    assert!(
        tags.contains(&TodoTag::context("a").unwrap()),
        "Couldn't find @a"
    );
    assert!(
        tags.contains(&TodoTag::project("b-c").unwrap()),
        "Couldn't find +b-c"
    );
    assert!(
        tags.contains(&TodoTag::context("def@ghi").unwrap()),
        "Couldn't find @def@ghi"
    );
    assert!(
        !tags.contains(&TodoTag::context("lm").unwrap()),
        "Shouldn't find @lm"
    );
}

#[test]
fn priority_decoding_letter_order() {
    // Every letter decodes, and earlier letters rank strictly higher.
    let mut prev_rank: Option<u8> = None;
    for b in b'A'..=b'Z' {
        let token = format!("({})", b as char);
        let p = TodoPriority::decode(&token).unwrap();
        assert_eq!(p.letter(), b as char);
        if let Some(r) = prev_rank {
            assert!(p.rank() < r, "rank order broken at {}", b as char);
        }
        prev_rank = Some(p.rank());
    }
    assert_eq!(TodoPriority::decode("(A)"), Ok(TodoPriority::A));
    assert_eq!(TodoPriority::decode("(Z)"), Ok(TodoPriority::Z));
    // The derived order agrees: more urgent compares greater.
    assert!(TodoPriority::A > TodoPriority::B);
    assert!(TodoPriority::Z > TodoPriority::NoPriority);
}

#[test]
fn priority_decoding_rejects() {
    assert_eq!(
        TodoPriority::decode("(a)"),
        Err(InvalidPriorityError::InvalidPriority)
    );
    assert_eq!(
        TodoPriority::decode("()"),
        Err(InvalidPriorityError::InvalidPriority)
    );
    assert_eq!(
        TodoPriority::decode("A"),
        Err(InvalidPriorityError::MissingParens)
    );
    assert_eq!(
        TodoPriority::decode(""),
        Err(InvalidPriorityError::MissingParens)
    );
    assert_eq!(
        TodoPriority::decode("(AB)"),
        Err(InvalidPriorityError::InvalidPriority)
    );
}

#[test]
fn priority_encode_and_steps() {
    assert_eq!(TodoPriority::A.encode(), "(A)");
    assert_eq!(TodoPriority::NoPriority.encode(), "");

    let mut p = TodoPriority::B;
    p.inc();
    assert_eq!(p, TodoPriority::A);
    p.inc();
    assert_eq!(p, TodoPriority::A);

    let mut p = TodoPriority::Z;
    p.dec();
    assert_eq!(p, TodoPriority::NoPriority);
    p.dec();
    assert_eq!(p, TodoPriority::NoPriority);

    let mut p = TodoPriority::NoPriority;
    p.inc();
    assert_eq!(p, TodoPriority::NoPriority);

    assert!(TodoPriority::A.is_some());
    assert!(!TodoPriority::A.is_none());
    assert!(TodoPriority::NoPriority.is_none());
}

#[test]
fn due_predicate_boundary() {
    let on_day = TodoDate::Day(day(2023, 5, 10));
    assert!(on_day.due_on(&day(2023, 5, 10)), "equal to today is due");
    assert!(on_day.due_on(&day(2023, 5, 11)), "one day past is due");
    assert!(!on_day.due_on(&day(2023, 5, 9)), "one day early is not due");
    assert!(on_day.due_on(&day(2024, 1, 1)));
    assert!(!on_day.due_on(&day(2022, 12, 31)));

    assert!(TodoDate::Always.due_on(&day(0, 1, 1)));
    assert!(!TodoDate::Never.due_on(&day(9999, 12, 31)));

    // A completed todo is never due, whatever its deadline.
    let mut t = Todo::new("done", TodoDate::Always, TodoPriority::NoPriority);
    assert!(t.due_on(&day(2023, 5, 10)));
    t.complete();
    assert!(!t.due_on(&day(2023, 5, 10)));

    assert!(TodoDate::Day(day(2023, 5, 10)).is_some());
    assert!(TodoDate::Never.is_none());
}

#[test]
fn date_arithmetic() {
    assert_eq!(day(2023, 1, 7).add_days(3), Some(day(2023, 1, 10)));
    assert_eq!(day(2023, 12, 31).add_days(1), Some(day(2024, 1, 1)));
    assert_eq!(day(2024, 2, 28).add_days(1), Some(day(2024, 2, 29)));
    assert_eq!(day(2023, 2, 28).add_days(1), Some(day(2023, 3, 1)));
    assert_eq!(day(1900, 2, 28).add_days(1), Some(day(1900, 3, 1)));
    assert_eq!(day(2000, 2, 28).add_days(1), Some(day(2000, 2, 29)));
    assert_eq!(day(9999, 12, 31).add_days(0), Some(day(9999, 12, 31)));
    assert_eq!(day(9999, 12, 31).add_days(1), None);
    assert_eq!(day(2023, 1, 1).add_days(365), Some(day(2024, 1, 1)));
}

#[test]
fn today_is_plausible() {
    let d = today();
    assert!((1..=12).contains(&d.month));
    assert!((1..=31).contains(&d.day));
    assert!(d.year >= 2020);
}

#[test]
fn meta_map_operations() {
    let mut m = MetaMap::new();
    assert!(m.is_empty());
    m.insert("a".to_string(), "1".to_string());
    m.insert("b".to_string(), "2".to_string());
    m.insert("a".to_string(), "3".to_string());
    assert_eq!(m.len(), 2);
    assert_eq!(m.get(&"a".to_string()), Some(&"3".to_string()));
    assert_eq!(m.get(&"b".to_string()), Some(&"2".to_string()));
    assert_eq!(m.get(&"c".to_string()), None);
    assert_eq!(m.encode(), "a:3 b:2");
    m.remove(&"a".to_string());
    assert_eq!(m.get(&"a".to_string()), None);
    assert_eq!(m.encode(), "b:2");
    m.remove(&"missing".to_string());
    assert_eq!(m.encode(), "b:2");
}

#[test]
fn description_text_and_tags() {
    let t = Todo::new("Fix the +sink @home", TodoDate::Never, TodoPriority::NoPriority);
    assert_eq!(t.description.text(), "Fix the +sink @home");
    assert!(t.has_tag(TodoTag::project("sink").unwrap()));
    assert!(t.has_tag(TodoTag::context("home").unwrap()));
    assert!(!t.has_tag(TodoTag::project("home").unwrap()));
    let tags = t.tags();
    assert_eq!(tags.len(), 2);
}

#[test]
fn tags_collapse_duplicates() {
    let t = Todo::new("+a @b +a again @b +c", TodoDate::Never, TodoPriority::NoPriority);
    let tags = t.tags();
    assert_eq!(tags.len(), 3);
    assert_eq!(tags[0], TodoTag::project("a").unwrap());
    assert_eq!(tags[1], TodoTag::context("b").unwrap());
    assert_eq!(tags[2], TodoTag::project("c").unwrap());
}
