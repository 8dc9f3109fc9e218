//! Todo priorities: an urgency rank from `A` (highest) down to `Z`, or none.

use vstd::prelude::*;
use vstd::string::StrSliceExecFns;

use crate::error::InvalidPriorityError;
use crate::text::push_char;

verus! {

/// An urgency rank from `A` (highest) down to `Z`, or `NoPriority`.
///
/// Encodes as `(X)` for rank `X`; `NoPriority` encodes as the empty string.
/// The variants are declared in ascending urgency so that the derived order
/// places `NoPriority` lowest and `A` highest.
#[derive(Clone, Copy, Debug, PartialEq, Eq, PartialOrd, Ord, Structural)]
pub enum TodoPriority {
    NoPriority,
    Z,
    Y,
    X,
    W,
    V,
    U,
    T,
    S,
    R,
    Q,
    P,
    O,
    N,
    M,
    L,
    K,
    J,
    I,
    H,
    G,
    F,
    E,
    D,
    C,
    B,
    A,
}

impl Default for TodoPriority {
    /// A fresh todo has no priority.
    fn default() -> (r: Self)
        ensures
            r == TodoPriority::NoPriority,
    {
        TodoPriority::NoPriority
    }
}

/// The priority whose letter is `c`, for `'A' <= c <= 'Z'`.
pub open spec fn spec_letter_to_priority(c: char) -> TodoPriority {
    if c == 'A' {
        TodoPriority::A
    } else if c == 'B' {
        TodoPriority::B
    } else if c == 'C' {
        TodoPriority::C
    } else if c == 'D' {
        TodoPriority::D
    } else if c == 'E' {
        TodoPriority::E
    } else if c == 'F' {
        TodoPriority::F
    } else if c == 'G' {
        TodoPriority::G
    } else if c == 'H' {
        TodoPriority::H
    } else if c == 'I' {
        TodoPriority::I
    } else if c == 'J' {
        TodoPriority::J
    } else if c == 'K' {
        TodoPriority::K
    } else if c == 'L' {
        TodoPriority::L
    } else if c == 'M' {
        TodoPriority::M
    } else if c == 'N' {
        TodoPriority::N
    } else if c == 'O' {
        TodoPriority::O
    } else if c == 'P' {
        TodoPriority::P
    } else if c == 'Q' {
        TodoPriority::Q
    } else if c == 'R' {
        TodoPriority::R
    } else if c == 'S' {
        TodoPriority::S
    } else if c == 'T' {
        TodoPriority::T
    } else if c == 'U' {
        TodoPriority::U
    } else if c == 'V' {
        TodoPriority::V
    } else if c == 'W' {
        TodoPriority::W
    } else if c == 'X' {
        TodoPriority::X
    } else if c == 'Y' {
        TodoPriority::Y
    } else {
        TodoPriority::Z
    }
}

/// `c` is an uppercase ASCII letter.
pub open spec fn spec_is_upper(c: char) -> bool {
    65 <= c as int <= 90
}

/// How a token decodes as a priority: it must be wrapped in `(` and `)`,
/// and the single enclosed character must be an uppercase letter.
pub open spec fn spec_decode_priority(t: Seq<char>) -> Result<TodoPriority, InvalidPriorityError> {
    if !(t.len() >= 1 && t[0] == '(' && t[t.len() - 1] == ')') {
        Err(InvalidPriorityError::MissingParens)
    } else if t.len() == 3 && spec_is_upper(t[1]) {
        Ok(spec_letter_to_priority(t[1]))
    } else {
        Err(InvalidPriorityError::InvalidPriority)
    }
}

impl TodoPriority {
    /// The rank of the priority: 0 for `NoPriority`, then 1 for `Z` up to
    /// 26 for `A`, so that a higher rank means more urgent.
    pub open spec fn spec_rank(self) -> int {
        match self {
            TodoPriority::NoPriority => 0,
            TodoPriority::Z => 1,
            TodoPriority::Y => 2,
            TodoPriority::X => 3,
            TodoPriority::W => 4,
            TodoPriority::V => 5,
            TodoPriority::U => 6,
            TodoPriority::T => 7,
            TodoPriority::S => 8,
            TodoPriority::R => 9,
            TodoPriority::Q => 10,
            TodoPriority::P => 11,
            TodoPriority::O => 12,
            TodoPriority::N => 13,
            TodoPriority::M => 14,
            TodoPriority::L => 15,
            TodoPriority::K => 16,
            TodoPriority::J => 17,
            TodoPriority::I => 18,
            TodoPriority::H => 19,
            TodoPriority::G => 20,
            TodoPriority::F => 21,
            TodoPriority::E => 22,
            TodoPriority::D => 23,
            TodoPriority::C => 24,
            TodoPriority::B => 25,
            TodoPriority::A => 26,
        }
    }

    /// The letter of the priority, for every rank except `NoPriority`.
    pub open spec fn spec_letter(self) -> char {
        match self {
            TodoPriority::NoPriority => ' ',
            TodoPriority::Z => 'Z',
            TodoPriority::Y => 'Y',
            TodoPriority::X => 'X',
            TodoPriority::W => 'W',
            TodoPriority::V => 'V',
            TodoPriority::U => 'U',
            TodoPriority::T => 'T',
            TodoPriority::S => 'S',
            TodoPriority::R => 'R',
            TodoPriority::Q => 'Q',
            TodoPriority::P => 'P',
            TodoPriority::O => 'O',
            TodoPriority::N => 'N',
            TodoPriority::M => 'M',
            TodoPriority::L => 'L',
            TodoPriority::K => 'K',
            TodoPriority::J => 'J',
            TodoPriority::I => 'I',
            TodoPriority::H => 'H',
            TodoPriority::G => 'G',
            TodoPriority::F => 'F',
            TodoPriority::E => 'E',
            TodoPriority::D => 'D',
            TodoPriority::C => 'C',
            TodoPriority::B => 'B',
            TodoPriority::A => 'A',
        }
    }

    /// The canonical text form: `(X)` for rank `X`, empty for `NoPriority`.
    pub open spec fn spec_encode(self) -> Seq<char> {
        if self == TodoPriority::NoPriority {
            Seq::empty()
        } else {
            seq!['(', self.spec_letter(), ')']
        }
    }

    /// The letter of the priority, or a space for `NoPriority`.
    pub fn letter(&self) -> (r: char)
        ensures
            r == self.spec_letter(),
    {
        match self {
            TodoPriority::NoPriority => ' ',
            TodoPriority::Z => 'Z',
            TodoPriority::Y => 'Y',
            TodoPriority::X => 'X',
            TodoPriority::W => 'W',
            TodoPriority::V => 'V',
            TodoPriority::U => 'U',
            TodoPriority::T => 'T',
            TodoPriority::S => 'S',
            TodoPriority::R => 'R',
            TodoPriority::Q => 'Q',
            TodoPriority::P => 'P',
            TodoPriority::O => 'O',
            TodoPriority::N => 'N',
            TodoPriority::M => 'M',
            TodoPriority::L => 'L',
            TodoPriority::K => 'K',
            TodoPriority::J => 'J',
            TodoPriority::I => 'I',
            TodoPriority::H => 'H',
            TodoPriority::G => 'G',
            TodoPriority::F => 'F',
            TodoPriority::E => 'E',
            TodoPriority::D => 'D',
            TodoPriority::C => 'C',
            TodoPriority::B => 'B',
            TodoPriority::A => 'A',
        }
    }

    /// The rank of the priority: 0 for `NoPriority`, up to 26 for `A`.
    pub fn rank(&self) -> (r: u8)
        ensures
            r == self.spec_rank(),
    {
        match self {
            TodoPriority::NoPriority => 0,
            TodoPriority::Z => 1,
            TodoPriority::Y => 2,
            TodoPriority::X => 3,
            TodoPriority::W => 4,
            TodoPriority::V => 5,
            TodoPriority::U => 6,
            TodoPriority::T => 7,
            TodoPriority::S => 8,
            TodoPriority::R => 9,
            TodoPriority::Q => 10,
            TodoPriority::P => 11,
            TodoPriority::O => 12,
            TodoPriority::N => 13,
            TodoPriority::M => 14,
            TodoPriority::L => 15,
            TodoPriority::K => 16,
            TodoPriority::J => 17,
            TodoPriority::I => 18,
            TodoPriority::H => 19,
            TodoPriority::G => 20,
            TodoPriority::F => 21,
            TodoPriority::E => 22,
            TodoPriority::D => 23,
            TodoPriority::C => 24,
            TodoPriority::B => 25,
            TodoPriority::A => 26,
        }
    }

    /// Decodes a token as a priority.
    ///
    /// Fails with `MissingParens` when the token is not wrapped in `(` and
    /// `)`, and with `InvalidPriority` when it is wrapped but the enclosed
    /// content is not a single uppercase letter.
    pub fn decode(token: &str) -> (r: Result<TodoPriority, InvalidPriorityError>)
        ensures
            r == spec_decode_priority(token@),
    {
        let n = token.unicode_len();
        if n == 0 {
            return Err(InvalidPriorityError::MissingParens);
        }
        let first = token.get_char(0);
        let last = token.get_char(n - 1);
        if !(first == '(' && last == ')') {
            return Err(InvalidPriorityError::MissingParens);
        }
        if n != 3 {
            return Err(InvalidPriorityError::InvalidPriority);
        }
        let c = token.get_char(1);
        let u = c as u32;
        if !(65 <= u && u <= 90) {
            return Err(InvalidPriorityError::InvalidPriority);
        }
        match c {
            'A' => Ok(TodoPriority::A),
            'B' => Ok(TodoPriority::B),
            'C' => Ok(TodoPriority::C),
            'D' => Ok(TodoPriority::D),
            'E' => Ok(TodoPriority::E),
            'F' => Ok(TodoPriority::F),
            'G' => Ok(TodoPriority::G),
            'H' => Ok(TodoPriority::H),
            'I' => Ok(TodoPriority::I),
            'J' => Ok(TodoPriority::J),
            'K' => Ok(TodoPriority::K),
            'L' => Ok(TodoPriority::L),
            'M' => Ok(TodoPriority::M),
            'N' => Ok(TodoPriority::N),
            'O' => Ok(TodoPriority::O),
            'P' => Ok(TodoPriority::P),
            'Q' => Ok(TodoPriority::Q),
            'R' => Ok(TodoPriority::R),
            'S' => Ok(TodoPriority::S),
            'T' => Ok(TodoPriority::T),
            'U' => Ok(TodoPriority::U),
            'V' => Ok(TodoPriority::V),
            'W' => Ok(TodoPriority::W),
            'X' => Ok(TodoPriority::X),
            'Y' => Ok(TodoPriority::Y),
            _ => Ok(TodoPriority::Z),
        }
    }

    /// The canonical text form: `(X)` for rank `X`, empty for `NoPriority`.
    pub fn encode(&self) -> (r: String)
        ensures
            r@ == self.spec_encode(),
    {
        let mut s = String::new();
        if self.is_some() {
            push_char(&mut s, '(');
            push_char(&mut s, self.letter());
            push_char(&mut s, ')');
            proof {
                assert(s@ =~= self.spec_encode());
            }
        }
        s
    }

    /// Steps the priority one rank toward `A`. `NoPriority` and `A` are
    /// left unchanged.
    pub fn inc(&mut self) -> (r: &mut Self)
        ensures
            (*r).spec_rank() == (if 1 <= old(self).spec_rank() < 26 {
                old(self).spec_rank() + 1
            } else {
                old(self).spec_rank()
            }),
            *final(self) == *final(r),
    {
        match *self {
            TodoPriority::NoPriority => {},
            TodoPriority::Z => {
                *self = TodoPriority::Y;
            },
            TodoPriority::Y => {
                *self = TodoPriority::X;
            },
            TodoPriority::X => {
                *self = TodoPriority::W;
            },
            TodoPriority::W => {
                *self = TodoPriority::V;
            },
            TodoPriority::V => {
                *self = TodoPriority::U;
            },
            TodoPriority::U => {
                *self = TodoPriority::T;
            },
            TodoPriority::T => {
                *self = TodoPriority::S;
            },
            TodoPriority::S => {
                *self = TodoPriority::R;
            },
            TodoPriority::R => {
                *self = TodoPriority::Q;
            },
            TodoPriority::Q => {
                *self = TodoPriority::P;
            },
            TodoPriority::P => {
                *self = TodoPriority::O;
            },
            TodoPriority::O => {
                *self = TodoPriority::N;
            },
            TodoPriority::N => {
                *self = TodoPriority::M;
            },
            TodoPriority::M => {
                *self = TodoPriority::L;
            },
            TodoPriority::L => {
                *self = TodoPriority::K;
            },
            TodoPriority::K => {
                *self = TodoPriority::J;
            },
            TodoPriority::J => {
                *self = TodoPriority::I;
            },
            TodoPriority::I => {
                *self = TodoPriority::H;
            },
            TodoPriority::H => {
                *self = TodoPriority::G;
            },
            TodoPriority::G => {
                *self = TodoPriority::F;
            },
            TodoPriority::F => {
                *self = TodoPriority::E;
            },
            TodoPriority::E => {
                *self = TodoPriority::D;
            },
            TodoPriority::D => {
                *self = TodoPriority::C;
            },
            TodoPriority::C => {
                *self = TodoPriority::B;
            },
            TodoPriority::B => {
                *self = TodoPriority::A;
            },
            TodoPriority::A => {},
        }
        self
    }

    /// Steps the priority one rank away from `A`. `Z` steps down to
    /// `NoPriority`; `NoPriority` is left unchanged.
    pub fn dec(&mut self) -> (r: &mut Self)
        ensures
            (*r).spec_rank() == (if old(self).spec_rank() >= 1 {
                old(self).spec_rank() - 1
            } else {
                0
            }),
            *final(self) == *final(r),
    {
        match *self {
            TodoPriority::NoPriority => {},
            TodoPriority::Z => {
                *self = TodoPriority::NoPriority;
            },
            TodoPriority::Y => {
                *self = TodoPriority::Z;
            },
            TodoPriority::X => {
                *self = TodoPriority::Y;
            },
            TodoPriority::W => {
                *self = TodoPriority::X;
            },
            TodoPriority::V => {
                *self = TodoPriority::W;
            },
            TodoPriority::U => {
                *self = TodoPriority::V;
            },
            TodoPriority::T => {
                *self = TodoPriority::U;
            },
            TodoPriority::S => {
                *self = TodoPriority::T;
            },
            TodoPriority::R => {
                *self = TodoPriority::S;
            },
            TodoPriority::Q => {
                *self = TodoPriority::R;
            },
            TodoPriority::P => {
                *self = TodoPriority::Q;
            },
            TodoPriority::O => {
                *self = TodoPriority::P;
            },
            TodoPriority::N => {
                *self = TodoPriority::O;
            },
            TodoPriority::M => {
                *self = TodoPriority::N;
            },
            TodoPriority::L => {
                *self = TodoPriority::M;
            },
            TodoPriority::K => {
                *self = TodoPriority::L;
            },
            TodoPriority::J => {
                *self = TodoPriority::K;
            },
            TodoPriority::I => {
                *self = TodoPriority::J;
            },
            TodoPriority::H => {
                *self = TodoPriority::I;
            },
            TodoPriority::G => {
                *self = TodoPriority::H;
            },
            TodoPriority::F => {
                *self = TodoPriority::G;
            },
            TodoPriority::E => {
                *self = TodoPriority::F;
            },
            TodoPriority::D => {
                *self = TodoPriority::E;
            },
            TodoPriority::C => {
                *self = TodoPriority::D;
            },
            TodoPriority::B => {
                *self = TodoPriority::C;
            },
            TodoPriority::A => {
                *self = TodoPriority::B;
            },
        }
        self
    }

    /// The todo has a priority.
    pub fn is_some(&self) -> (r: bool)
        ensures
            r == (*self != TodoPriority::NoPriority),
    {
        !matches!(*self, TodoPriority::NoPriority)
    }

    /// The todo has no priority.
    pub fn is_none(&self) -> (r: bool)
        ensures
            r == (*self == TodoPriority::NoPriority),
    {
        matches!(*self, TodoPriority::NoPriority)
    }
}

/// The rank of a lettered priority is determined by its letter: rank and
/// letter run in opposite directions, `A` being the most urgent.
pub proof fn lemma_rank_of_letter(p: TodoPriority)
    requires
        p != TodoPriority::NoPriority,
    ensures
        p.spec_rank() == 91 - (p.spec_letter() as int),
        65 <= p.spec_letter() as int <= 90,
{
}

/// Decoded priorities compare in letter order: of two lettered priorities,
/// the one with the earlier letter has the strictly higher rank.
pub proof fn lemma_priority_letter_order(p: TodoPriority, q: TodoPriority)
    requires
        p != TodoPriority::NoPriority,
        q != TodoPriority::NoPriority,
    ensures
        ((p.spec_letter() as int) < (q.spec_letter() as int)) <==> p.spec_rank() > q.spec_rank(),
{
    lemma_rank_of_letter(p);
    lemma_rank_of_letter(q);
}

} // verus!
