//! Todo management with a todo.txt-style single-line text codec.
//!
//! A [`Todo`] aggregates a description (free text interleaved with
//! `+project` / `@context` tags), a priority, a deadline, creation and
//! completion dates, and `key:value` metadata. It can be parsed from and
//! formatted back to one line of text; formatting a parsed canonical line
//! reproduces it byte for byte.

use vstd::prelude::*;

pub mod codec;
pub mod colors;
pub mod date;
pub mod due;
pub mod error;
pub mod helper;
pub mod priority;
pub mod table;
pub mod text;

pub use crate::due::TodoDate;
pub use crate::priority::TodoPriority;
pub use crate::table::{TodoColumn, TodoTable};

use crate::codec::{
    format_colored, format_todo, new_segments, parse_line, spec_colored, spec_format,
    spec_new_segments, spec_parse,
};
use crate::colors::{StyleScheme, StyleSchemeView};
use crate::date::{today, Date};
use crate::error::TodoParseError;
use crate::helper::{spec_meta_get, spec_meta_insert, spec_meta_remove, IsDue, MetaMap};
use crate::text::{
    has_whitespace, push_char, spec_has_whitespace, spec_join_tokens, lemma_join_tokens_push,
};
use vstd::string::StringExecFns;

verus! {

/// The view of a tag: its kind and its name.
pub enum TodoTagView {
    Project(Seq<char>),
    Context(Seq<char>),
}

/// A description tag: a `+project` or an `@context` marker.
///
/// Build tags through [`TodoTag::project`] and [`TodoTag::context`]: they
/// refuse names that contain whitespace, which could not survive a trip
/// through the text form.
#[derive(Debug, Eq, Hash)]
pub enum TodoTag {
    Project(String),
    Context(String),
}

impl View for TodoTag {
    type V = TodoTagView;

    open spec fn view(&self) -> TodoTagView {
        match self {
            TodoTag::Project(s) => TodoTagView::Project(s@),
            TodoTag::Context(s) => TodoTagView::Context(s@),
        }
    }
}

impl DeepView for TodoTag {
    type V = TodoTagView;

    open spec fn deep_view(&self) -> TodoTagView {
        self.view()
    }
}

impl Clone for TodoTag {
    /// An exact copy.
    fn clone(&self) -> (r: Self)
        ensures
            r == *self,
    {
        match self {
            TodoTag::Project(s) => TodoTag::Project(s.clone()),
            TodoTag::Context(s) => TodoTag::Context(s.clone()),
        }
    }
}

impl PartialEq for TodoTag {
    /// Tags are equal when their kinds and names are.
    fn eq(&self, other: &TodoTag) -> (r: bool) {
        match (self, other) {
            (TodoTag::Project(a), TodoTag::Project(b)) => *a == *b,
            (TodoTag::Context(a), TodoTag::Context(b)) => *a == *b,
            _ => false,
        }
    }
}

impl vstd::std_specs::cmp::PartialEqSpecImpl for TodoTag {
    open spec fn obeys_eq_spec() -> bool {
        true
    }

    open spec fn eq_spec(&self, other: &TodoTag) -> bool {
        self@ == other@
    }
}

impl TodoTag {
    /// A `+project` tag, unless the name contains whitespace.
    pub fn project(tag: &str) -> (r: Option<TodoTag>)
        ensures
            spec_has_whitespace(tag@) ==> r is None,
            !spec_has_whitespace(tag@) ==> (r matches Some(t) && t@ == TodoTagView::Project(tag@)),
    {
        if has_whitespace(tag) {
            None
        } else {
            Some(TodoTag::Project(tag.to_owned()))
        }
    }

    /// An `@context` tag, unless the name contains whitespace.
    pub fn context(tag: &str) -> (r: Option<TodoTag>)
        ensures
            spec_has_whitespace(tag@) ==> r is None,
            !spec_has_whitespace(tag@) ==> (r matches Some(t) && t@ == TodoTagView::Context(tag@)),
    {
        if has_whitespace(tag) {
            None
        } else {
            Some(TodoTag::Context(tag.to_owned()))
        }
    }
}

/// The view of a description segment.
pub enum TodoSegmentView {
    Text(Seq<char>),
    Tag(TodoTagView),
}

/// One space-separated segment of a description: a literal text run or an
/// embedded tag.
#[derive(Debug)]
pub enum TodoSegment {
    Text(String),
    Tag(TodoTag),
}

impl View for TodoSegment {
    type V = TodoSegmentView;

    open spec fn view(&self) -> TodoSegmentView {
        match self {
            TodoSegment::Text(s) => TodoSegmentView::Text(s@),
            TodoSegment::Tag(t) => TodoSegmentView::Tag(t@),
        }
    }
}

impl DeepView for TodoSegment {
    type V = TodoSegmentView;

    open spec fn deep_view(&self) -> TodoSegmentView {
        self.view()
    }
}

impl Clone for TodoSegment {
    /// An exact copy.
    fn clone(&self) -> (r: Self)
        ensures
            r == *self,
    {
        match self {
            TodoSegment::Text(s) => TodoSegment::Text(s.clone()),
            TodoSegment::Tag(t) => TodoSegment::Tag(t.clone()),
        }
    }
}

/// The token a tag contributes to the text form: its sigil followed by its
/// name.
pub open spec fn spec_tag_token(t: TodoTagView) -> Seq<char> {
    match t {
        TodoTagView::Project(n) => seq!['+'] + n,
        TodoTagView::Context(n) => seq!['@'] + n,
    }
}

/// The token a segment contributes to the text form.
pub open spec fn spec_seg_token(s: TodoSegmentView) -> Seq<char> {
    match s {
        TodoSegmentView::Text(t) => t,
        TodoSegmentView::Tag(t) => spec_tag_token(t),
    }
}

/// The tokens of a description, in order.
pub open spec fn spec_desc_tokens(d: Seq<TodoSegmentView>) -> Seq<Seq<char>> {
    d.map_values(|s: TodoSegmentView| spec_seg_token(s))
}

/// A styled element: the content wrapped in its style prefix and the reset
/// sequence, or left bare when the style prefix is empty.
pub open spec fn spec_wrap(style: Seq<char>, content: Seq<char>, reset: Seq<char>) -> Seq<char> {
    if style.len() == 0 {
        content
    } else {
        style + content + reset
    }
}

/// The style prefix a segment is rendered with.
pub open spec fn spec_seg_style(s: TodoSegmentView, style: StyleSchemeView) -> Seq<char> {
    match s {
        TodoSegmentView::Text(_) => style.description,
        TodoSegmentView::Tag(TodoTagView::Project(_)) => style.project,
        TodoSegmentView::Tag(TodoTagView::Context(_)) => style.context,
    }
}

/// A segment rendered with a style scheme.
pub open spec fn spec_styled_seg(
    s: TodoSegmentView,
    style: StyleSchemeView,
    reset: Seq<char>,
) -> Seq<char> {
    spec_wrap(spec_seg_style(s, style), spec_seg_token(s), reset)
}

/// A description rendered with a style scheme: its styled segments joined
/// by single spaces.
pub open spec fn spec_styled_desc(
    d: Seq<TodoSegmentView>,
    style: StyleSchemeView,
    reset: Seq<char>,
) -> Seq<char> {
    spec_join_tokens(d.map_values(|s: TodoSegmentView| spec_styled_seg(s, style, reset)))
}

impl TodoSegment {
    /// The segment rendered with a style scheme: its token wrapped in its
    /// style prefix and `reset`, or bare when that prefix is empty.
    pub fn to_string(&self, style: StyleScheme<'_>, reset: &str) -> (r: String)
        ensures
            r@ == spec_styled_seg(self@, style@, reset@),
    {
        let st: &str = match self {
            TodoSegment::Text(_) => style.description,
            TodoSegment::Tag(TodoTag::Project(_)) => style.project,
            TodoSegment::Tag(TodoTag::Context(_)) => style.context,
        };
        let styled = !st.is_empty();
        let mut out = String::new();
        if styled {
            out.append(st);
        }
        match self {
            TodoSegment::Text(s) => {
                out.append(s.as_str());
            },
            TodoSegment::Tag(TodoTag::Project(n)) => {
                push_char(&mut out, '+');
                out.append(n.as_str());
            },
            TodoSegment::Tag(TodoTag::Context(n)) => {
                push_char(&mut out, '@');
                out.append(n.as_str());
            },
        }
        if styled {
            out.append(reset);
        }
        proof {
            assert(out@ =~= spec_styled_seg(self@, style@, reset@));
        }
        out
    }
}

/// An ordered sequence of description segments.
#[derive(Debug)]
pub struct TodoDescription(pub Vec<TodoSegment>);

impl View for TodoDescription {
    type V = Seq<TodoSegmentView>;

    open spec fn view(&self) -> Seq<TodoSegmentView> {
        self.0.deep_view()
    }
}

impl Clone for TodoDescription {
    /// A copy with the same segments.
    fn clone(&self) -> (r: Self)
        ensures
            r@ == self@,
    {
        let mut segs: Vec<TodoSegment> = Vec::new();
        let n = self.0.len();
        let mut i: usize = 0;
        while i < n
            invariant
                i <= n,
                n == self.0.len(),
                segs@.len() == i,
                forall|j: int| 0 <= j < i ==> segs@[j] == self.0@[j],
            decreases n - i,
        {
            segs.push(self.0[i].clone());
            i = i + 1;
        }
        proof {
            assert(segs@ =~= self.0@);
        }
        TodoDescription(segs)
    }
}

impl Default for TodoDescription {
    /// An empty description.
    fn default() -> (r: Self)
        ensures
            r@ == Seq::<TodoSegmentView>::empty(),
    {
        let r = TodoDescription(Vec::new());
        proof {
            assert(r@ =~= Seq::<TodoSegmentView>::empty());
        }
        r
    }
}

impl TodoDescription {
    /// The description rendered with a style scheme: styled segments
    /// joined by single spaces.
    pub fn to_string(&self, style: StyleScheme<'_>, reset: &str) -> (r: String)
        ensures
            r@ == spec_styled_desc(self@, style@, reset@),
    {
        let ghost toks = self@.map_values(
            |s: TodoSegmentView| spec_styled_seg(s, style@, reset@),
        );
        let mut out = String::new();
        let n = self.0.len();
        let mut i: usize = 0;
        while i < n
            invariant
                i <= n,
                n == self.0.len(),
                toks == self@.map_values(|s: TodoSegmentView| spec_styled_seg(s, style@, reset@)),
                out@ == spec_join_tokens(toks.take(i as int)),
            decreases n - i,
        {
            proof {
                lemma_join_tokens_push(toks.take(i as int), toks[i as int]);
                assert(toks.take(i as int).push(toks[i as int]) =~= toks.take(i as int + 1));
            }
            if i > 0 {
                push_char(&mut out, ' ');
            }
            let seg = self.0[i].to_string(style, reset);
            out.append(seg.as_str());
            proof {
                assert(self@[i as int] == self.0@[i as int]@);
                assert(out@ =~= spec_join_tokens(toks.take(i as int + 1)));
            }
            i = i + 1;
        }
        proof {
            assert(toks.take(n as int) =~= toks);
        }
        out
    }

    /// The plain text of the description: its tokens joined by single
    /// spaces, with no styling.
    pub fn text(&self) -> (r: String)
        ensures
            r@ == spec_join_tokens(spec_desc_tokens(self@)),
    {
        let sty = StyleScheme::new();
        let r = self.to_string(sty, "");
        proof {
            assert(self@.map_values(|s: TodoSegmentView| spec_styled_seg(s, sty@, ""@))
                =~= spec_desc_tokens(self@));
        }
        r
    }

    /// The number of segments.
    pub fn len(&self) -> (r: usize)
        ensures
            r == self@.len(),
    {
        self.0.len()
    }

    /// The description has no segments.
    pub fn is_empty(&self) -> (r: bool)
        ensures
            r == (self@.len() == 0),
    {
        self.0.len() == 0
    }
}

/// The view of a todo: its fields over mathematical values.
pub struct TodoView {
    pub description: Seq<TodoSegmentView>,
    pub completed: bool,
    pub priority: TodoPriority,
    pub metadata: Seq<(Seq<char>, Seq<char>)>,
    pub deadline: TodoDate,
    pub creation: Option<Date>,
    pub completion_date: Option<Date>,
}

impl TodoView {
    /// The dates the todo holds are valid calendar days.
    pub open spec fn dates_wf(self) -> bool {
        &&& self.deadline.wf()
        &&& match self.creation {
            Some(d) => d.wf(),
            None => true,
        }
        &&& match self.completion_date {
            Some(d) => d.wf(),
            None => true,
        }
    }

    /// Whether the todo counts as due as of `today`: it has not been
    /// completed and its deadline has been reached.
    pub open spec fn spec_is_due_on(self, today: Date) -> bool {
        !self.completed && self.deadline.spec_is_due_on(today)
    }
}

/// The distinct tags of a description, each once, in order of first
/// appearance; literal text contributes nothing.
pub open spec fn spec_tags(d: Seq<TodoSegmentView>) -> Seq<TodoTagView>
    decreases d.len(),
{
    if d.len() == 0 {
        Seq::empty()
    } else {
        let rest = spec_tags(d.drop_last());
        match d.last() {
            TodoSegmentView::Tag(t) => if rest.contains(t) {
                rest
            } else {
                rest.push(t)
            },
            TodoSegmentView::Text(_) => rest,
        }
    }
}

/// Whether a vector of tags holds the given tag value.
fn contains_tag(v: &Vec<TodoTag>, t: &TodoTag) -> (r: bool)
    ensures
        r == v.deep_view().contains(t@),
{
    let n = v.len();
    let mut i: usize = 0;
    while i < n
        invariant
            i <= n,
            n == v@.len(),
            forall|j: int| 0 <= j < i ==> v.deep_view()[j] != t@,
        decreases n - i,
    {
        proof {
            assert(v.deep_view()[i as int] == v@[i as int]@);
        }
        if v[i] == *t {
            proof {
                assert(v.deep_view()[i as int] == t@);
            }
            return true;
        }
        i = i + 1;
    }
    proof {
        assert(!v.deep_view().contains(t@)) by {
            assert(forall|j: int|
                0 <= j < v.deep_view().len() ==> (#[trigger] v.deep_view()[j]) != t@);
        }
    }
    false
}

/// The description holds the given project tag.
pub open spec fn spec_has_project_tag(d: Seq<TodoSegmentView>, name: Seq<char>) -> bool {
    exists|i: int|
        0 <= i < d.len() && d[i] == TodoSegmentView::Tag(TodoTagView::Project(name))
}

/// The description holds the given context tag.
pub open spec fn spec_has_context_tag(d: Seq<TodoSegmentView>, name: Seq<char>) -> bool {
    exists|i: int|
        0 <= i < d.len() && d[i] == TodoSegmentView::Tag(TodoTagView::Context(name))
}

/// A todo: a described task with completion state, priority, deadline,
/// creation and completion dates, and `key:value` metadata.
#[derive(Debug)]
pub struct Todo {
    pub description: TodoDescription,
    pub completed: bool,
    pub priority: TodoPriority,
    pub metadata: MetaMap,
    pub deadline: TodoDate,
    pub creation: Option<Date>,
    pub completion_date: Option<Date>,
}

impl View for Todo {
    type V = TodoView;

    open spec fn view(&self) -> TodoView {
        TodoView {
            description: self.description@,
            completed: self.completed,
            priority: self.priority,
            metadata: self.metadata@,
            deadline: self.deadline,
            creation: self.creation,
            completion_date: self.completion_date,
        }
    }
}

impl DeepView for Todo {
    type V = TodoView;

    open spec fn deep_view(&self) -> TodoView {
        self.view()
    }
}

impl Clone for Todo {
    /// A copy with the same view; duplicating a todo is how it moves
    /// between columns.
    fn clone(&self) -> (r: Self)
        ensures
            r@ == self@,
    {
        Todo {
            description: self.description.clone(),
            completed: self.completed,
            priority: self.priority,
            metadata: self.metadata.clone(),
            deadline: self.deadline,
            creation: self.creation,
            completion_date: self.completion_date,
        }
    }
}

impl Default for Todo {
    /// The empty todo: no description, no priority, no deadline, no
    /// dates, no metadata.
    fn default() -> (r: Self)
        ensures
            r@.description == Seq::<TodoSegmentView>::empty(),
            !r@.completed,
            r@.priority == TodoPriority::NoPriority,
            r@.metadata == Seq::<(Seq<char>, Seq<char>)>::empty(),
            r@.deadline == TodoDate::Never,
            r@.creation is None,
            r@.completion_date is None,
    {
        Todo {
            description: TodoDescription::default(),
            completed: false,
            priority: TodoPriority::NoPriority,
            metadata: MetaMap::new(),
            deadline: TodoDate::Never,
            creation: None,
            completion_date: None,
        }
    }
}

impl Todo {
    /// A new todo with the given title, deadline and priority. The title
    /// is split on spaces; `+`- and `@`-prefixed tokens become tags. The
    /// creation date is the current day, read from the wall clock.
    pub fn new(title: &str, deadline: TodoDate, priority: TodoPriority) -> (r: Todo)
        ensures
            r@.description == spec_new_segments(title@),
            !r@.completed,
            r@.priority == priority,
            r@.metadata == Seq::<(Seq<char>, Seq<char>)>::empty(),
            r@.deadline == deadline,
            (r@.creation matches Some(c) && c.wf()),
            r@.completion_date is None,
    {
        Todo {
            description: TodoDescription(new_segments(title)),
            completed: false,
            priority,
            metadata: MetaMap::new(),
            deadline,
            creation: Some(today()),
            completion_date: None,
        }
    }

    /// Parses one line of text, resolving relative due dates against the
    /// given day.
    pub fn from_str_on(s: &str, today: &Date) -> (r: Result<Todo, TodoParseError>)
        requires
            today.wf(),
        ensures
            match r {
                Ok(t) => spec_parse(s@, *today) == Ok::<TodoView, TodoParseError>(t@)
                    && t@.dates_wf(),
                Err(e) => spec_parse(s@, *today) == Err::<TodoView, TodoParseError>(e),
            },
    {
        parse_line(s, today)
    }

    /// Parses one line of text; relative due dates resolve against the
    /// wall clock's current day.
    pub fn from_str(s: &str) -> (r: Result<Todo, TodoParseError>)
        ensures
            exists|day: Date|
                day.wf() && (match r {
                    Ok(t) => spec_parse(s@, day) == Ok::<TodoView, TodoParseError>(t@)
                        && t@.dates_wf(),
                    Err(e) => spec_parse(s@, day) == Err::<TodoView, TodoParseError>(e),
                }),
    {
        let day = today();
        let r = parse_line(s, &day);
        proof {
            assert(day.wf() && (match r {
                Ok(t) => spec_parse(s@, day) == Ok::<TodoView, TodoParseError>(t@)
                    && t@.dates_wf(),
                Err(e) => spec_parse(s@, day) == Err::<TodoView, TodoParseError>(e),
            }));
        }
        r
    }

    /// The canonical text form of the todo, as one line.
    pub fn encode(&self) -> (r: String)
        requires
            self@.dates_wf(),
        ensures
            r@ == spec_format(self@),
    {
        format_todo(self)
    }

    /// The todo rendered with a style scheme; the all-empty scheme gives
    /// the plain text form.
    pub fn colored(&self, style: StyleScheme<'_>) -> (r: String)
        requires
            self@.dates_wf(),
        ensures
            r@ == spec_colored(self@, style@),
    {
        format_colored(self, style)
    }

    /// Sets the creation date to the current day, as read from the wall
    /// clock.
    pub fn set_creation(&mut self)
        ensures
            final(self)@.creation matches Some(c) && c.wf(),
            final(self)@ == (TodoView { creation: final(self)@.creation, ..old(self)@ }),
    {
        self.creation = Some(today());
    }

    /// Sets the creation date to the given day.
    pub fn set_creation_date(&mut self, day: &Date)
        ensures
            final(self)@ == (TodoView { creation: Some(*day), ..old(self)@ }),
    {
        self.creation = Some(*day);
    }

    /// Marks the todo as complete and records the completion date, as
    /// read from the wall clock.
    pub fn complete(&mut self)
        ensures
            final(self)@.completion_date matches Some(c) && c.wf(),
            final(self)@ == (TodoView {
                completed: true,
                completion_date: final(self)@.completion_date,
                ..old(self)@
            }),
    {
        self.completed = true;
        self.completion_date = Some(today());
    }

    /// The todo holds the given project tag.
    pub fn has_project_tag(&self, tag: &str) -> (r: bool)
        ensures
            r == spec_has_project_tag(self@.description, tag@),
    {
        let tgt = tag.to_owned();
        let n = self.description.0.len();
        let mut i: usize = 0;
        while i < n
            invariant
                i <= n,
                n == self.description.0.len(),
                tgt@ == tag@,
                forall|j: int|
                    0 <= j < i ==> self@.description[j] != TodoSegmentView::Tag(
                        TodoTagView::Project(tag@),
                    ),
            decreases n - i,
        {
            proof {
                assert(self@.description[i as int] == self.description.0@[i as int]@);
            }
            if let TodoSegment::Tag(TodoTag::Project(t)) = &self.description.0[i] {
                if *t == tgt {
                    return true;
                }
            }
            i = i + 1;
        }
        false
    }

    /// The todo holds the given context tag.
    pub fn has_context_tag(&self, tag: &str) -> (r: bool)
        ensures
            r == spec_has_context_tag(self@.description, tag@),
    {
        let tgt = tag.to_owned();
        let n = self.description.0.len();
        let mut i: usize = 0;
        while i < n
            invariant
                i <= n,
                n == self.description.0.len(),
                tgt@ == tag@,
                forall|j: int|
                    0 <= j < i ==> self@.description[j] != TodoSegmentView::Tag(
                        TodoTagView::Context(tag@),
                    ),
            decreases n - i,
        {
            proof {
                assert(self@.description[i as int] == self.description.0@[i as int]@);
            }
            if let TodoSegment::Tag(TodoTag::Context(t)) = &self.description.0[i] {
                if *t == tgt {
                    return true;
                }
            }
            i = i + 1;
        }
        false
    }

    /// The todo holds the given tag.
    pub fn has_tag(&self, tag: TodoTag) -> (r: bool)
        ensures
            tag@ matches TodoTagView::Project(n) ==> r == spec_has_project_tag(
                self@.description,
                n,
            ),
            tag@ matches TodoTagView::Context(n) ==> r == spec_has_context_tag(
                self@.description,
                n,
            ),
    {
        match tag {
            TodoTag::Project(t) => self.has_project_tag(t.as_str()),
            TodoTag::Context(t) => self.has_context_tag(t.as_str()),
        }
    }

    /// The distinct tags of the description: each tag value once, in
    /// order of first appearance.
    pub fn tags(&self) -> (r: Vec<TodoTag>)
        ensures
            r.deep_view() == spec_tags(self@.description),
    {
        let mut out: Vec<TodoTag> = Vec::new();
        let n = self.description.0.len();
        let mut i: usize = 0;
        while i < n
            invariant
                i <= n,
                n == self.description.0.len(),
                out.deep_view() == spec_tags(self@.description.take(i as int)),
            decreases n - i,
        {
            proof {
                assert(self@.description[i as int] == self.description.0@[i as int]@);
                assert(self@.description.take(i as int + 1).drop_last() =~= self@.description.take(
                    i as int,
                ));
            }
            if let TodoSegment::Tag(t) = &self.description.0[i] {
                if !contains_tag(&out, t) {
                    out.push(t.clone());
                }
            }
            proof {
                assert(out.deep_view() =~= spec_tags(self@.description.take(i as int + 1)));
            }
            i = i + 1;
        }
        proof {
            assert(self@.description.take(n as int) =~= self@.description);
        }
        out
    }

    /// The metadata mapping of the todo.
    pub fn metadata(&self) -> (r: &MetaMap)
        ensures
            r@ == self@.metadata,
    {
        &self.metadata
    }

    /// Stores a metadata value under a key. An existing entry with that
    /// key is updated in place; a fresh entry is appended at the end.
    pub fn set_meta(&mut self, key: &str, val: &str)
        ensures
            final(self)@ == (TodoView {
                metadata: spec_meta_insert(old(self)@.metadata, key@, val@),
                ..old(self)@
            }),
    {
        self.metadata.insert(key.to_owned(), val.to_owned());
    }

    /// The metadata value stored under `key`, if any.
    pub fn get_meta(&self, key: &str) -> (r: Option<&String>)
        ensures
            match r {
                Some(v) => spec_meta_get(self@.metadata, key@) == Some(v@),
                None => spec_meta_get(self@.metadata, key@) is None,
            },
    {
        let k = key.to_owned();
        self.metadata.get(&k)
    }

    /// Deletes the metadata entry under `key`, if there is one.
    pub fn delete_meta(&mut self, key: &String)
        ensures
            final(self)@ == (TodoView {
                metadata: spec_meta_remove(old(self)@.metadata, key@),
                ..old(self)@
            }),
    {
        self.metadata.remove(key);
    }

    /// Whether the todo counts as due as of `today`: it has not been
    /// completed and its deadline has been reached.
    pub fn due_on(&self, today: &Date) -> (r: bool)
        ensures
            r == self@.spec_is_due_on(*today),
    {
        !self.completed && self.deadline.due_on(today)
    }
}

impl IsDue for Todo {
    /// Whether the todo counts as due as of `today`.
    open spec fn is_due_on(&self, today: Date) -> bool {
        self@.spec_is_due_on(today)
    }

    /// Whether the todo is due right now: it has not been completed and
    /// its deadline has been reached as of the wall clock's current day.
    fn due(&self) -> (r: bool) {
        let t = today();
        let r = self.due_on(&t);
        proof {
            assert(t.wf() && r == self.is_due_on(t));
        }
        r
    }
}

} // verus!
