//! Deadlines: when a todo counts as due.

use vstd::prelude::*;

use crate::date::{spec_date_chars, today, push_date, Date};
use crate::helper::IsDue;
use crate::text::push_char;

verus! {

/// A deadline for a todo.
///
/// `Day` deadlines are calendar days; a todo is due on that day and on
/// every later day. `Always` encodes as the sentinel `due:0000-00-00`;
/// `Never` encodes as the empty string.
#[derive(Clone, Copy, Debug, PartialEq, Eq, Structural)]
pub enum TodoDate {
    /// Never due.
    Never,
    /// Always due.
    Always,
    /// Due on a specific day and thereafter.
    Day(Date),
}

impl Default for TodoDate {
    /// A fresh todo has no deadline.
    fn default() -> (r: Self)
        ensures
            r == TodoDate::Never,
    {
        TodoDate::Never
    }
}

/// The characters `due:`, the prefix of every encoded deadline.
pub open spec fn spec_due_prefix() -> Seq<char> {
    seq!['d', 'u', 'e', ':']
}

impl TodoDate {
    /// Whether the deadline has been reached when `today` is the current
    /// calendar day.
    pub open spec fn spec_is_due_on(self, today: Date) -> bool {
        match self {
            TodoDate::Never => false,
            TodoDate::Always => true,
            TodoDate::Day(d) => d.spec_le(today),
        }
    }

    /// The deadline is structurally valid: a `Day` holds a valid date.
    pub open spec fn wf(self) -> bool {
        match self {
            TodoDate::Day(d) => d.wf(),
            _ => true,
        }
    }

    /// The canonical text form: empty for `Never`, `due:0000-00-00` for
    /// `Always`, and `due:YYYY-MM-DD` for a `Day`.
    pub open spec fn spec_encode(self) -> Seq<char> {
        match self {
            TodoDate::Never => Seq::empty(),
            TodoDate::Always => spec_due_prefix() + spec_date_chars(
                Date { year: 0, month: 0, day: 0 },
            ),
            TodoDate::Day(d) => spec_due_prefix() + spec_date_chars(d),
        }
    }

    /// Whether the deadline has been reached as of `today`.
    pub fn due_on(&self, today: &Date) -> (r: bool)
        ensures
            r == self.spec_is_due_on(*today),
    {
        match self {
            TodoDate::Never => false,
            TodoDate::Always => true,
            TodoDate::Day(d) => d.le(today),
        }
    }

    /// The canonical text form of the deadline.
    pub fn encode(&self) -> (r: String)
        requires
            self.wf(),
        ensures
            r@ == self.spec_encode(),
    {
        let mut s = String::new();
        match self {
            TodoDate::Never => {},
            TodoDate::Always => {
                push_char(&mut s, 'd');
                push_char(&mut s, 'u');
                push_char(&mut s, 'e');
                push_char(&mut s, ':');
                push_date(&mut s, &Date { year: 0, month: 0, day: 0 });
                proof {
                    assert(s@ =~= self.spec_encode());
                }
            },
            TodoDate::Day(d) => {
                push_char(&mut s, 'd');
                push_char(&mut s, 'u');
                push_char(&mut s, 'e');
                push_char(&mut s, ':');
                push_date(&mut s, d);
                proof {
                    assert(s@ =~= self.spec_encode());
                }
            },
        }
        s
    }

    /// There is a deadline: the converse of being `Never`.
    #[inline]
    pub fn is_some(&self) -> (r: bool)
        ensures
            r == (*self != TodoDate::Never),
    {
        !matches!(self, TodoDate::Never)
    }

    /// There is no deadline.
    #[inline]
    pub fn is_none(&self) -> (r: bool)
        ensures
            r == (*self == TodoDate::Never),
    {
        !self.is_some()
    }
}

impl IsDue for TodoDate {
    /// Whether the deadline has been reached as of `today`.
    open spec fn is_due_on(&self, today: Date) -> bool {
        self.spec_is_due_on(today)
    }

    /// Whether the deadline has been reached, as of the wall clock's
    /// current day.
    fn due(&self) -> (r: bool) {
        let t = today();
        let r = self.due_on(&t);
        proof {
            assert(t.wf() && r == self.is_due_on(t));
        }
        r
    }
}

} // verus!
