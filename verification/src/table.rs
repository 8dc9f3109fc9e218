//! Columns and tables of todos.

use vstd::prelude::*;
use vstd::string::StringExecFns;

use crate::codec::{format_todo, spec_format};
use crate::date::{today, Date};
use crate::helper::{spec_meta_get, IsDue};
use crate::text::{push_char, spec_join_tokens};
use crate::{spec_desc_tokens, Todo, TodoView};

verus! {

/// The plain title of a todo: its description text.
pub open spec fn spec_title_of(t: TodoView) -> Seq<char> {
    spec_join_tokens(spec_desc_tokens(t.description))
}

/// The predicate of having a given title.
pub open spec fn title_is(title: Seq<char>) -> spec_fn(TodoView) -> bool {
    |t: TodoView| spec_title_of(t) == title
}

/// The predicate of carrying a given metadata key.
pub open spec fn carries_meta_key(key: Seq<char>) -> spec_fn(TodoView) -> bool {
    |t: TodoView| spec_meta_get(t.metadata, key) is Some
}

/// The predicate of carrying a given metadata pair.
pub open spec fn carries_meta_pair(key: Seq<char>, val: Seq<char>) -> spec_fn(TodoView) -> bool {
    |t: TodoView| spec_meta_get(t.metadata, key) == Some(val)
}

/// The index of the first element of `s` satisfying `pred`, if any.
pub open spec fn spec_find_first<T>(s: Seq<T>, pred: spec_fn(T) -> bool) -> Option<int>
    decreases s.len(),
{
    if s.len() == 0 {
        None
    } else if pred(s[0]) {
        Some(0)
    } else {
        match spec_find_first(s.drop_first(), pred) {
            Some(i) => Some(i + 1),
            None => None,
        }
    }
}

/// A first match at `i` — with none before it — is what `spec_find_first`
/// finds.
pub proof fn lemma_find_first_at<T>(s: Seq<T>, pred: spec_fn(T) -> bool, i: int)
    requires
        0 <= i < s.len(),
        pred(s[i]),
        forall|j: int| 0 <= j < i ==> !pred(#[trigger] s[j]),
    ensures
        spec_find_first(s, pred) == Some(i),
    decreases s.len(),
{
    if i > 0 {
        lemma_find_first_at(s.drop_first(), pred, i - 1);
    }
}

/// With no match anywhere, `spec_find_first` finds nothing.
pub proof fn lemma_find_first_none<T>(s: Seq<T>, pred: spec_fn(T) -> bool)
    requires
        forall|j: int| 0 <= j < s.len() ==> !pred(#[trigger] s[j]),
    ensures
        spec_find_first(s, pred) is None,
    decreases s.len(),
{
    if s.len() > 0 {
        lemma_find_first_none(s.drop_first(), pred);
    }
}

/// The view of a column: its title and the views of its todos.
pub struct TodoColumnView {
    pub todos: Seq<TodoView>,
    pub title: Seq<char>,
}

/// A list of todos under a title.
#[derive(Debug)]
pub struct TodoColumn {
    pub todos: Vec<Todo>,
    pub title: String,
}

impl View for TodoColumn {
    type V = TodoColumnView;

    open spec fn view(&self) -> TodoColumnView {
        TodoColumnView { todos: self.todos.deep_view(), title: self.title@ }
    }
}

impl DeepView for TodoColumn {
    type V = TodoColumnView;

    open spec fn deep_view(&self) -> TodoColumnView {
        self.view()
    }
}

impl Clone for TodoColumn {
    /// A copy with the same view.
    fn clone(&self) -> (r: Self)
        ensures
            r@ == self@,
    {
        let mut todos: Vec<Todo> = Vec::new();
        let n = self.todos.len();
        let mut i: usize = 0;
        while i < n
            invariant
                i <= n,
                n == self.todos@.len(),
                todos@.len() == i,
                forall|j: int| 0 <= j < i ==> #[trigger] todos@[j]@ == self.todos@[j]@,
            decreases n - i,
        {
            todos.push(self.todos[i].clone());
            i = i + 1;
        }
        let r = TodoColumn { todos, title: self.title.clone() };
        proof {
            assert(r@.todos =~= self@.todos);
        }
        r
    }
}

impl TodoColumn {
    /// An empty column under the given title.
    pub fn new(title: &str) -> (r: TodoColumn)
        ensures
            r@.title == title@,
            r@.todos == Seq::<TodoView>::empty(),
    {
        let r = TodoColumn { todos: Vec::new(), title: title.to_owned() };
        proof {
            assert(r@.todos =~= Seq::<TodoView>::empty());
        }
        r
    }

    /// Appends a todo at the end of the column.
    pub fn add(&mut self, todo: Todo)
        ensures
            final(self)@.todos == old(self)@.todos.push(todo@),
            final(self)@.title == old(self)@.title,
    {
        let ghost v = todo@;
        self.todos.push(todo);
        proof {
            assert(self@.todos =~= old(self)@.todos.push(v));
        }
    }

    /// The index of the first todo whose title is `title`, if any.
    fn find_todo(&self, title: &str) -> (r: Option<usize>)
        ensures
            match r {
                Some(i) => i < self@.todos.len() && spec_find_first(self@.todos, title_is(title@))
                    == Some(i as int),
                None => spec_find_first(self@.todos, title_is(title@)) is None,
            },
    {
        let ghost pred = title_is(title@);
        let tgt = title.to_owned();
        let n = self.todos.len();
        let mut i: usize = 0;
        while i < n
            invariant
                i <= n,
                n == self.todos@.len(),
                tgt@ == title@,
                pred == title_is(title@),
                forall|j: int| 0 <= j < i ==> !pred(#[trigger] self@.todos[j]),
            decreases n - i,
        {
            proof {
                assert(self@.todos[i as int] == self.todos@[i as int]@);
            }
            let text = self.todos[i].description.text();
            proof {
                assert(pred(self@.todos[i as int]) == (spec_title_of(self@.todos[i as int])
                    == title@));
            }
            if text == tgt {
                proof {
                    assert(pred(self@.todos[i as int]));
                    lemma_find_first_at(self@.todos, pred, i as int);
                }
                return Some(i);
            }
            proof {
                assert(!pred(self@.todos[i as int]));
            }
            i = i + 1;
        }
        proof {
            lemma_find_first_none(self@.todos, pred);
        }
        None
    }

    /// Removes and returns the first todo whose title is `title`, if the
    /// column holds one.
    pub fn pop(&mut self, title: &str) -> (r: Option<Todo>)
        ensures
            match spec_find_first(old(self)@.todos, title_is(title@)) {
                Some(i) => (r matches Some(t) && t@ == old(self)@.todos[i]) && final(self)@.todos
                    == old(self)@.todos.remove(i) && final(self)@.title == old(self)@.title,
                None => r is None && *final(self) == *old(self),
            },
    {
        match self.find_todo(title) {
            Some(i) => {
                let t = self.todos.remove(i);
                proof {
                    assert(self@.todos =~= old(self)@.todos.remove(i as int));
                }
                Some(t)
            },
            None => None,
        }
    }

    /// The first todo whose title is `title`, if the column holds one.
    pub fn get(&mut self, title: &str) -> (r: Option<&mut Todo>)
        ensures
            match spec_find_first(old(self)@.todos, title_is(title@)) {
                Some(i) => (r matches Some(t) && *t == old(self).todos@[i]
                    && final(self).todos@ == old(self).todos@.update(i, *final(t))
                    && final(self).title == old(self).title),
                None => r is None && *final(self) == *old(self),
            },
    {
        match self.find_todo(title) {
            Some(i) => Some(&mut self.todos[i]),
            None => None,
        }
    }

    /// The index of the first todo carrying the given metadata key, if
    /// any.
    fn find_meta_key(&self, key: &str) -> (r: Option<usize>)
        ensures
            match r {
                Some(i) => i < self@.todos.len() && spec_find_first(
                    self@.todos,
                    carries_meta_key(key@),
                ) == Some(i as int),
                None => spec_find_first(self@.todos, carries_meta_key(key@)) is None,
            },
    {
        let ghost pred = carries_meta_key(key@);
        let n = self.todos.len();
        let mut i: usize = 0;
        while i < n
            invariant
                i <= n,
                n == self.todos@.len(),
                pred == carries_meta_key(key@),
                forall|j: int| 0 <= j < i ==> !pred(#[trigger] self@.todos[j]),
            decreases n - i,
        {
            proof {
                assert(self@.todos[i as int] == self.todos@[i as int]@);
                assert(pred(self@.todos[i as int]) == (spec_meta_get(
                    self@.todos[i as int].metadata,
                    key@,
                ) is Some));
            }
            if self.todos[i].get_meta(key).is_some() {
                proof {
                    lemma_find_first_at(self@.todos, pred, i as int);
                }
                return Some(i);
            }
            i = i + 1;
        }
        proof {
            lemma_find_first_none(self@.todos, pred);
        }
        None
    }

    /// The index of the first todo carrying the given metadata pair, if
    /// any.
    fn find_meta_pair(&self, key: &str, val: &str) -> (r: Option<usize>)
        ensures
            match r {
                Some(i) => i < self@.todos.len() && spec_find_first(
                    self@.todos,
                    carries_meta_pair(key@, val@),
                ) == Some(i as int),
                None => spec_find_first(self@.todos, carries_meta_pair(key@, val@)) is None,
            },
    {
        let ghost pred = carries_meta_pair(key@, val@);
        let tgt = val.to_owned();
        let n = self.todos.len();
        let mut i: usize = 0;
        while i < n
            invariant
                i <= n,
                n == self.todos@.len(),
                tgt@ == val@,
                pred == carries_meta_pair(key@, val@),
                forall|j: int| 0 <= j < i ==> !pred(#[trigger] self@.todos[j]),
            decreases n - i,
        {
            proof {
                assert(self@.todos[i as int] == self.todos@[i as int]@);
                assert(pred(self@.todos[i as int]) == (spec_meta_get(
                    self@.todos[i as int].metadata,
                    key@,
                ) == Some(val@)));
            }
            let mut hit: bool = false;
            match self.todos[i].get_meta(key) {
                Some(v) => {
                    if *v == tgt {
                        hit = true;
                    }
                },
                None => {},
            }
            if hit {
                proof {
                    lemma_find_first_at(self@.todos, pred, i as int);
                }
                return Some(i);
            }
            i = i + 1;
        }
        proof {
            lemma_find_first_none(self@.todos, pred);
        }
        None
    }

    /// The first todo that carries the given metadata key, if the column
    /// holds one.
    pub fn has_meta(&mut self, key: &str) -> (r: Option<&mut Todo>)
        ensures
            match spec_find_first(old(self)@.todos, carries_meta_key(key@)) {
                Some(i) => (r matches Some(t) && *t == old(self).todos@[i]
                    && final(self).todos@ == old(self).todos@.update(i, *final(t))
                    && final(self).title == old(self).title),
                None => r is None && *final(self) == *old(self),
            },
    {
        match self.find_meta_key(key) {
            Some(i) => Some(&mut self.todos[i]),
            None => None,
        }
    }

    /// The first todo that carries the given metadata pair, if the column
    /// holds one.
    pub fn get_meta(&mut self, key: &str, val: &str) -> (r: Option<&mut Todo>)
        ensures
            match spec_find_first(old(self)@.todos, carries_meta_pair(key@, val@)) {
                Some(i) => (r matches Some(t) && *t == old(self).todos@[i]
                    && final(self).todos@ == old(self).todos@.update(i, *final(t))
                    && final(self).title == old(self).title),
                None => r is None && *final(self) == *old(self),
            },
    {
        match self.find_meta_pair(key, val) {
            Some(i) => Some(&mut self.todos[i]),
            None => None,
        }
    }
}

impl TodoColumnView {
    /// Some todo of the column counts as due as of `today`.
    pub open spec fn spec_is_due_on(self, today: Date) -> bool {
        exists|i: int| 0 <= i < self.todos.len() && self.todos[i].spec_is_due_on(today)
    }

    /// Every todo of the column holds valid dates.
    pub open spec fn wf(self) -> bool {
        forall|i: int| 0 <= i < self.todos.len() ==> (#[trigger] self.todos[i]).dates_wf()
    }
}

/// The rendered lines of a list of todos: each on a line of its own
/// behind `| `.
pub open spec fn spec_render_todos(ts: Seq<TodoView>) -> Seq<char>
    decreases ts.len(),
{
    if ts.len() == 0 {
        Seq::<char>::empty()
    } else {
        spec_render_todos(ts.drop_last()) + seq!['|', ' '] + spec_format(ts.last()) + seq!['\n']
    }
}

/// The rendered form of a column: its title between bars, then its todos
/// line by line.
pub open spec fn spec_render_col(c: TodoColumnView) -> Seq<char> {
    seq!['|', ' '] + c.title + seq![' ', '|', '\n'] + spec_render_todos(c.todos)
}

impl TodoColumn {
    /// The column rendered as text: its title between bars, then its
    /// todos line by line.
    pub fn render(&self) -> (r: String)
        requires
            self@.wf(),
        ensures
            r@ == spec_render_col(self@),
    {
        let mut s = String::new();
        push_char(&mut s, '|');
        push_char(&mut s, ' ');
        s.append(self.title.as_str());
        push_char(&mut s, ' ');
        push_char(&mut s, '|');
        push_char(&mut s, '\n');
        let ghost head = seq!['|', ' '] + self@.title + seq![' ', '|', '\n'];
        proof {
            assert(s@ =~= head);
        }
        let n = self.todos.len();
        let mut i: usize = 0;
        proof {
            assert(self@.todos.take(0) =~= Seq::<TodoView>::empty());
            assert(s@ =~= head + spec_render_todos(self@.todos.take(0)));
        }
        while i < n
            invariant
                i <= n,
                n == self.todos@.len(),
                self@.wf(),
                head == seq!['|', ' '] + self@.title + seq![' ', '|', '\n'],
                s@ == head + spec_render_todos(self@.todos.take(i as int)),
            decreases n - i,
        {
            proof {
                assert(self@.todos[i as int] == self.todos@[i as int]@);
                assert(self@.todos.take(i as int + 1).drop_last() =~= self@.todos.take(i as int));
                assert(self@.todos.take(i as int + 1).last() == self@.todos[i as int]);
            }
            push_char(&mut s, '|');
            push_char(&mut s, ' ');
            let line = format_todo(&self.todos[i]);
            s.append(line.as_str());
            push_char(&mut s, '\n');
            proof {
                assert(s@ =~= head + spec_render_todos(self@.todos.take(i as int + 1)));
            }
            i = i + 1;
        }
        proof {
            assert(self@.todos.take(n as int) =~= self@.todos);
        }
        s
    }
}

impl TodoColumn {
    /// Whether any todo of the column counts as due as of `today`.
    pub fn due_on(&self, today: &Date) -> (r: bool)
        ensures
            r == self@.spec_is_due_on(*today),
    {
        let n = self.todos.len();
        let mut i: usize = 0;
        while i < n
            invariant
                i <= n,
                n == self.todos@.len(),
                forall|j: int| 0 <= j < i ==> !(#[trigger] self@.todos[j]).spec_is_due_on(*today),
            decreases n - i,
        {
            proof {
                assert(self@.todos[i as int] == self.todos@[i as int]@);
            }
            if self.todos[i].due_on(today) {
                proof {
                    assert(0 <= i < self@.todos.len() && self@.todos[i as int].spec_is_due_on(
                        *today,
                    ));
                }
                return true;
            }
            i = i + 1;
        }
        false
    }
}

impl IsDue for TodoColumn {
    /// Some todo of the column counts as due as of `today`.
    open spec fn is_due_on(&self, today: Date) -> bool {
        self@.spec_is_due_on(today)
    }

    /// Whether any todo of the column is due, as of the wall clock's
    /// current day.
    fn due(&self) -> (r: bool) {
        let day = today();
        let r = self.due_on(&day);
        proof {
            assert(day.wf() && r == self.is_due_on(day));
        }
        r
    }
}

/// The predicate of a column bearing a given title.
pub open spec fn col_title_is(title: Seq<char>) -> spec_fn(TodoColumnView) -> bool {
    |c: TodoColumnView| c.title == title
}

/// The index of the last element before `bound` satisfying `pred`, if
/// any.
pub open spec fn spec_find_last_before<T>(s: Seq<T>, pred: spec_fn(T) -> bool, bound: int) -> Option<
    int,
>
    decreases bound,
{
    if bound <= 0 || bound > s.len() {
        None
    } else if pred(s[bound - 1]) {
        Some(bound - 1)
    } else {
        spec_find_last_before(s, pred, bound - 1)
    }
}

/// A match at `i` — with none after it up to `bound` — is what
/// `spec_find_last_before` finds.
pub proof fn lemma_find_last_before_at<T>(s: Seq<T>, pred: spec_fn(T) -> bool, bound: int, i: int)
    requires
        0 <= i < bound <= s.len(),
        pred(s[i]),
        forall|j: int| i < j < bound ==> !pred(#[trigger] s[j]),
    ensures
        spec_find_last_before(s, pred, bound) == Some(i),
    decreases bound,
{
    if i < bound - 1 {
        lemma_find_last_before_at(s, pred, bound - 1, i);
    }
}

/// With no match before `bound`, `spec_find_last_before` finds nothing.
pub proof fn lemma_find_last_before_none<T>(s: Seq<T>, pred: spec_fn(T) -> bool, bound: int)
    requires
        forall|j: int| 0 <= j < bound && j < s.len() ==> !pred(#[trigger] s[j]),
    ensures
        spec_find_last_before(s, pred, bound) is None,
    decreases bound,
{
    if bound > 0 {
        lemma_find_last_before_none(s, pred, bound - 1);
    }
}

/// The view of a table: its title and the views of its columns.
pub struct TodoTableView {
    pub title: Seq<char>,
    pub columns: Seq<TodoColumnView>,
}

impl TodoTableView {
    /// Some column holds a due todo as of `today`.
    pub open spec fn spec_is_due_on(self, today: Date) -> bool {
        exists|i: int| 0 <= i < self.columns.len() && self.columns[i].spec_is_due_on(today)
    }

    /// Every todo of the table holds valid dates.
    pub open spec fn wf(self) -> bool {
        forall|i: int| 0 <= i < self.columns.len() ==> (#[trigger] self.columns[i]).wf()
    }
}

/// The rendered columns of a table, each followed by a blank line.
pub open spec fn spec_render_cols(cs: Seq<TodoColumnView>) -> Seq<char>
    decreases cs.len(),
{
    if cs.len() == 0 {
        Seq::<char>::empty()
    } else {
        spec_render_cols(cs.drop_last()) + spec_render_col(cs.last()) + seq!['\n', '\n']
    }
}

/// The rendered form of a table: its heading, then its columns.
pub open spec fn spec_render_table(t: TodoTableView) -> Seq<char> {
    seq!['=', '=', '=', ' '] + t.title + seq![' ', '=', '=', '='] + spec_render_cols(t.columns)
}

/// A table of todos: columns under one heading.
#[derive(Debug)]
pub struct TodoTable {
    pub title: String,
    pub columns: Vec<TodoColumn>,
}

impl View for TodoTable {
    type V = TodoTableView;

    open spec fn view(&self) -> TodoTableView {
        TodoTableView { title: self.title@, columns: self.columns.deep_view() }
    }
}

impl Clone for TodoTable {
    /// A copy with the same view.
    fn clone(&self) -> (r: Self)
        ensures
            r@ == self@,
    {
        let mut columns: Vec<TodoColumn> = Vec::new();
        let n = self.columns.len();
        let mut i: usize = 0;
        while i < n
            invariant
                i <= n,
                n == self.columns@.len(),
                columns@.len() == i,
                forall|j: int| 0 <= j < i ==> #[trigger] columns@[j]@ == self.columns@[j]@,
            decreases n - i,
        {
            columns.push(self.columns[i].clone());
            i = i + 1;
        }
        let r = TodoTable { title: self.title.clone(), columns };
        proof {
            assert(r@.columns =~= self@.columns);
        }
        r
    }
}

impl TodoTable {
    /// An empty table; without a title of its own it is headed `Todos`.
    pub fn new(title: Option<&str>) -> (r: TodoTable)
        ensures
            r@.columns == Seq::<TodoColumnView>::empty(),
            match title {
                Some(t) => r@.title == t@,
                None => r@.title == "Todos"@,
            },
    {
        let t: String = match title {
            Some(t) => t.to_owned(),
            None => "Todos".to_owned(),
        };
        let r = TodoTable { title: t, columns: Vec::new() };
        proof {
            assert(r@.columns =~= Seq::<TodoColumnView>::empty());
        }
        r
    }

    /// Appends an empty column under the given title.
    pub fn add_col(&mut self, title: &str)
        ensures
            final(self)@.title == old(self)@.title,
            final(self)@.columns == old(self)@.columns.push(
                TodoColumnView { todos: Seq::<TodoView>::empty(), title: title@ },
            ),
    {
        let col = TodoColumn::new(title);
        let ghost cv = col@;
        self.columns.push(col);
        proof {
            assert(self@.columns =~= old(self)@.columns.push(cv));
        }
    }

    /// The index of the first column under `title`, if any.
    fn find_col(&self, title: &str) -> (r: Option<usize>)
        ensures
            match r {
                Some(i) => i < self@.columns.len() && spec_find_first(
                    self@.columns,
                    col_title_is(title@),
                ) == Some(i as int),
                None => spec_find_first(self@.columns, col_title_is(title@)) is None,
            },
    {
        let ghost pred = col_title_is(title@);
        let tgt = title.to_owned();
        let n = self.columns.len();
        let mut i: usize = 0;
        while i < n
            invariant
                i <= n,
                n == self.columns@.len(),
                tgt@ == title@,
                pred == col_title_is(title@),
                forall|j: int| 0 <= j < i ==> !pred(#[trigger] self@.columns[j]),
            decreases n - i,
        {
            proof {
                assert(self@.columns[i as int] == self.columns@[i as int]@);
                assert(pred(self@.columns[i as int]) == (self@.columns[i as int].title == title@));
            }
            if self.columns[i].title == tgt {
                proof {
                    lemma_find_first_at(self@.columns, pred, i as int);
                }
                return Some(i);
            }
            i = i + 1;
        }
        proof {
            lemma_find_first_none(self@.columns, pred);
        }
        None
    }

    /// The first column under `title`, if the table holds one.
    pub fn col(&mut self, title: &str) -> (r: Option<&mut TodoColumn>)
        ensures
            match spec_find_first(old(self)@.columns, col_title_is(title@)) {
                Some(i) => (r matches Some(c) && *c == old(self).columns@[i]
                    && final(self).columns@ == old(self).columns@.update(i, *final(c))
                    && final(self).title == old(self).title),
                None => r is None && *final(self) == *old(self),
            },
    {
        match self.find_col(title) {
            Some(i) => Some(&mut self.columns[i]),
            None => None,
        }
    }

    /// The first todo under `title` in the first column under
    /// `col_title`, if there is one.
    pub fn get_todo(&mut self, title: &str, col_title: &str) -> (r: Option<&mut Todo>)
        ensures
            ({
                let cols = old(self)@.columns;
                match spec_find_first(cols, col_title_is(col_title@)) {
                    None => r is None && *final(self) == *old(self),
                    Some(ci) => match spec_find_first(cols[ci].todos, title_is(title@)) {
                        None => r is None && *final(self) == *old(self),
                        Some(ti) => (r matches Some(t) && (*t)@ == cols[ci].todos[ti] && final(self)@.title == old(self)@.title && final(self)@.columns.len() == cols.len()
                            && (forall|k: int|
                            0 <= k < cols.len() && k != ci ==> final(self)@.columns[k] == cols[k])
                            && final(self)@.columns[ci].title == cols[ci].title && final(self)@.columns[ci].todos.len() == cols[ci].todos.len() && (forall|j: int|
                            0 <= j < cols[ci].todos.len() && j != ti ==> final(self)@.columns[ci].todos[j] == cols[ci].todos[j]) && final(self)@.columns[ci].todos[ti] == (*final(t))@),
                    },
                }
            }),
    {
        let ci = match self.find_col(col_title) {
            Some(c) => c,
            None => {
                return None;
            },
        };
        let ti = match self.columns[ci].find_todo(title) {
            Some(x) => x,
            None => {
                return None;
            },
        };
        proof {
            assert(self@.columns[ci as int] == self.columns@[ci as int]@);
        }
        let col = &mut self.columns[ci];
        Some(&mut col.todos[ti])
    }

    /// Appends a todo to the first column under `col_title`; without such
    /// a column the todo is dropped.
    pub fn add_todo(&mut self, todo: Todo, col_title: &str)
        ensures
            ({
                let cols = old(self)@.columns;
                match spec_find_first(cols, col_title_is(col_title@)) {
                    None => *final(self) == *old(self),
                    Some(ci) => final(self)@.title == old(self)@.title && final(self)@.columns.len() == cols.len() && (forall|k: int|
                        0 <= k < cols.len() && k != ci ==> final(self)@.columns[k] == cols[k])
                        && final(self)@.columns[ci].title == cols[ci].title && final(self)@.columns[ci].todos == cols[ci].todos.push(todo@),
                }
            }),
    {
        let ghost v = todo@;
        match self.find_col(col_title) {
            Some(ci) => {
                proof {
                    assert(self@.columns[ci as int] == self.columns@[ci as int]@);
                }
                let col = &mut self.columns[ci];
                col.add(todo);
                proof {
                    assert(self@.columns =~= old(self)@.columns.update(
                        ci as int,
                        self@.columns[ci as int],
                    ));
                    assert(self@.columns[ci as int].todos =~= old(self)@.columns[ci as int].todos.push(
                        v,
                    ));
                }
            },
            None => {},
        }
    }

    /// Moves a todo between columns by duplication, as the original
    /// record keeps its place: the first todo under `title` in the first
    /// column under `from` is cloned into the last column under `to`
    /// standing before that column. Returns whether that happened.
    pub fn move_todo(&mut self, title: &str, from: &str, to: &str) -> (r: bool)
        ensures
            ({
                let cols = old(self)@.columns;
                match spec_find_first(cols, col_title_is(from@)) {
                    None => !r && *final(self) == *old(self),
                    Some(fi) => match spec_find_first(cols[fi].todos, title_is(title@)) {
                        None => !r && *final(self) == *old(self),
                        Some(ti) => match spec_find_last_before(cols, col_title_is(to@), fi) {
                            None => !r && *final(self) == *old(self),
                            Some(ki) => r && final(self)@.title == old(self)@.title && final(self)@.columns.len() == cols.len() && (forall|k: int|
                                0 <= k < cols.len() && k != ki ==> final(self)@.columns[k]
                                    == cols[k]) && final(self)@.columns[ki].title == cols[ki].title
                                && final(self)@.columns[ki].todos == cols[ki].todos.push(
                                cols[fi].todos[ti],
                            ),
                        },
                    },
                }
            }),
    {
        let ghost cols = self@.columns;
        let fi = match self.find_col(from) {
            Some(c) => c,
            None => {
                return false;
            },
        };
        let ti = match self.columns[fi].find_todo(title) {
            Some(x) => x,
            None => {
                proof {
                    assert(self@.columns[fi as int] == self.columns@[fi as int]@);
                }
                return false;
            },
        };
        proof {
            assert(self@.columns[fi as int] == self.columns@[fi as int]@);
        }
        // The target column must stand before the source column, as the
        // search for both walks the columns once from the front.
        let ghost pred = col_title_is(to@);
        let tgt = to.to_owned();
        let mut ki_found: Option<usize> = None;
        let mut k: usize = fi;
        while k > 0 && ki_found.is_none()
            invariant
                k <= fi < self.columns@.len(),
                tgt@ == to@,
                pred == col_title_is(to@),
                match ki_found {
                    Some(x) => x < self.columns@.len() && spec_find_last_before(
                        self@.columns,
                        pred,
                        fi as int,
                    ) == Some(x as int),
                    None => forall|j: int| k <= j < fi ==> !pred(#[trigger] self@.columns[j]),
                },
            decreases k,
        {
            k = k - 1;
            proof {
                assert(self@.columns[k as int] == self.columns@[k as int]@);
                assert(pred(self@.columns[k as int]) == (self@.columns[k as int].title == to@));
            }
            if self.columns[k].title == tgt {
                ki_found = Some(k);
                proof {
                    lemma_find_last_before_at(self@.columns, pred, fi as int, k as int);
                }
            }
        }
        let ki = match ki_found {
            Some(x) => x,
            None => {
                proof {
                    lemma_find_last_before_none(self@.columns, pred, fi as int);
                }
                return false;
            },
        };
        let cloned = self.columns[fi].todos[ti].clone();
        let ghost v = cloned@;
        proof {
            assert(v == cols[fi as int].todos[ti as int]);
        }
        let col = &mut self.columns[ki];
        col.add(cloned);
        proof {
            assert(self@.columns =~= old(self)@.columns.update(ki as int, self@.columns[ki as int]));
            assert(self@.columns[ki as int].todos =~= old(self)@.columns[ki as int].todos.push(v));
        }
        true
    }

    /// The first todo carrying the given metadata key in the first
    /// column under `title`, if there is one.
    pub fn has_meta(&mut self, title: &str, key: &str) -> (r: Option<&mut Todo>)
        ensures
            ({
                let cols = old(self)@.columns;
                match spec_find_first(cols, col_title_is(title@)) {
                    None => r is None && *final(self) == *old(self),
                    Some(ci) => match spec_find_first(cols[ci].todos, carries_meta_key(key@)) {
                        None => r is None && *final(self) == *old(self),
                        Some(ti) => (r matches Some(t) && (*t)@ == cols[ci].todos[ti] && final(self)@.title == old(self)@.title && final(self)@.columns.len() == cols.len()
                            && (forall|k: int|
                            0 <= k < cols.len() && k != ci ==> final(self)@.columns[k] == cols[k])
                            && final(self)@.columns[ci].title == cols[ci].title && final(self)@.columns[ci].todos.len() == cols[ci].todos.len() && (forall|j: int|
                            0 <= j < cols[ci].todos.len() && j != ti ==> final(self)@.columns[ci].todos[j] == cols[ci].todos[j]) && final(self)@.columns[ci].todos[ti] == (*final(t))@),
                    },
                }
            }),
    {
        let ci = match self.find_col(title) {
            Some(c) => c,
            None => {
                return None;
            },
        };
        proof {
            assert(self@.columns[ci as int] == self.columns@[ci as int]@);
        }
        let ti = match self.columns[ci].find_meta_key(key) {
            Some(x) => x,
            None => {
                return None;
            },
        };
        let col = &mut self.columns[ci];
        Some(&mut col.todos[ti])
    }

    /// The first todo carrying the given metadata pair in the first
    /// column under `title`, if there is one.
    pub fn get_meta(&mut self, title: &str, key: &str, val: &str) -> (r: Option<&mut Todo>)
        ensures
            ({
                let cols = old(self)@.columns;
                match spec_find_first(cols, col_title_is(title@)) {
                    None => r is None && *final(self) == *old(self),
                    Some(ci) => match spec_find_first(
                        cols[ci].todos,
                        carries_meta_pair(key@, val@),
                    ) {
                        None => r is None && *final(self) == *old(self),
                        Some(ti) => (r matches Some(t) && (*t)@ == cols[ci].todos[ti] && final(self)@.title == old(self)@.title && final(self)@.columns.len() == cols.len()
                            && (forall|k: int|
                            0 <= k < cols.len() && k != ci ==> final(self)@.columns[k] == cols[k])
                            && final(self)@.columns[ci].title == cols[ci].title && final(self)@.columns[ci].todos.len() == cols[ci].todos.len() && (forall|j: int|
                            0 <= j < cols[ci].todos.len() && j != ti ==> final(self)@.columns[ci].todos[j] == cols[ci].todos[j]) && final(self)@.columns[ci].todos[ti] == (*final(t))@),
                    },
                }
            }),
    {
        let ci = match self.find_col(title) {
            Some(c) => c,
            None => {
                return None;
            },
        };
        proof {
            assert(self@.columns[ci as int] == self.columns@[ci as int]@);
        }
        let ti = match self.columns[ci].find_meta_pair(key, val) {
            Some(x) => x,
            None => {
                return None;
            },
        };
        let col = &mut self.columns[ci];
        Some(&mut col.todos[ti])
    }
}

impl TodoTable {
    /// The table rendered as text: its heading, then its columns.
    pub fn render(&self) -> (r: String)
        requires
            self@.wf(),
        ensures
            r@ == spec_render_table(self@),
    {
        let mut s = String::new();
        push_char(&mut s, '=');
        push_char(&mut s, '=');
        push_char(&mut s, '=');
        push_char(&mut s, ' ');
        s.append(self.title.as_str());
        push_char(&mut s, ' ');
        push_char(&mut s, '=');
        push_char(&mut s, '=');
        push_char(&mut s, '=');
        let ghost head = seq!['=', '=', '=', ' '] + self@.title + seq![' ', '=', '=', '='];
        proof {
            assert(s@ =~= head);
        }
        let n = self.columns.len();
        let mut i: usize = 0;
        proof {
            assert(self@.columns.take(0) =~= Seq::<TodoColumnView>::empty());
            assert(s@ =~= head + spec_render_cols(self@.columns.take(0)));
        }
        while i < n
            invariant
                i <= n,
                n == self.columns@.len(),
                self@.wf(),
                head == seq!['=', '=', '=', ' '] + self@.title + seq![' ', '=', '=', '='],
                s@ == head + spec_render_cols(self@.columns.take(i as int)),
            decreases n - i,
        {
            proof {
                assert(self@.columns[i as int] == self.columns@[i as int]@);
                assert(self@.columns.take(i as int + 1).drop_last() =~= self@.columns.take(
                    i as int,
                ));
                assert(self@.columns.take(i as int + 1).last() == self@.columns[i as int]);
            }
            let block = self.columns[i].render();
            s.append(block.as_str());
            push_char(&mut s, '\n');
            push_char(&mut s, '\n');
            proof {
                assert(s@ =~= head + spec_render_cols(self@.columns.take(i as int + 1)));
            }
            i = i + 1;
        }
        proof {
            assert(self@.columns.take(n as int) =~= self@.columns);
        }
        s
    }
}

impl IsDue for TodoTable {
    /// Some column of the table holds a due todo as of `today`.
    open spec fn is_due_on(&self, today: Date) -> bool {
        self@.spec_is_due_on(today)
    }

    /// Whether any todo of the table is due, as of the wall clock's
    /// current day.
    fn due(&self) -> (r: bool) {
        let day = today();
        let n = self.columns.len();
        let mut i: usize = 0;
        let mut found: bool = false;
        while i < n && !found
            invariant
                i <= n,
                n == self.columns@.len(),
                day.wf(),
                !found ==> forall|j: int|
                    0 <= j < i ==> !(#[trigger] self@.columns[j]).spec_is_due_on(day),
                found ==> self@.spec_is_due_on(day),
            decreases n - i,
        {
            proof {
                assert(self@.columns[i as int] == self.columns@[i as int]@);
            }
            if self.columns[i].due_on(&day) {
                found = true;
                proof {
                    assert(0 <= i < self@.columns.len() && self@.columns[i as int].spec_is_due_on(
                        day,
                    ));
                }
            }
            i = i + 1;
        }
        proof {
            assert(day.wf() && found == self.is_due_on(day));
        }
        found
    }
}

} // verus!
