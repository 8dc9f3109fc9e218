//! ANSI style schemes for rendering todos in a terminal.

use vstd::prelude::*;

verus! {

pub const RED: &'static str = "\x1b[38;5;1m";

pub const GREEN: &'static str = "\x1b[38;5;2m";

pub const YELLOW: &'static str = "\x1b[38;5;3m";

pub const DBLUE: &'static str = "\x1b[38;5;4m";

pub const PURPLE: &'static str = "\x1b[38;5;5m";

pub const LBLUE: &'static str = "\x1b[38;5;6m";

pub const GRAY: &'static str = "\x1b[38;5;7m";

pub const BOLD: &'static str = "\x1b[1m";

pub const ITALIC: &'static str = "\x1b[3m";

pub const UNDER: &'static str = "\x1b[4m";

pub const FADE: &'static str = "\x1b[2m";

pub(crate) const RESET: &'static str = "\x1b[0m";

/// The preset style scheme: faded gray for completed todos, bold light
/// blue priorities, underlined purple completion and yellow creation
/// dates, italic green contexts and yellow projects, bold red deadlines
/// and italic dark blue metadata. (A constant of struct type is not
/// accepted here, so the preset is a function.)
pub fn default_style() -> (r: StyleScheme<'static>)
    ensures
        r@.faded == "\x1b[2m\x1b[38;5;7m"@,
        r@.tick == ""@,
        r@.priority == "\x1b[1m\x1b[38;5;6m"@,
        r@.completion == "\x1b[4m\x1b[38;5;5m"@,
        r@.creation == "\x1b[4m\x1b[38;5;3m"@,
        r@.description == ""@,
        r@.context == "\x1b[3m\x1b[38;5;2m"@,
        r@.project == "\x1b[3m\x1b[38;5;3m"@,
        r@.deadline == "\x1b[1m\x1b[38;5;1m"@,
        r@.metadata == "\x1b[3m\x1b[38;5;4m"@,
{
    StyleScheme {
        faded: "\x1b[2m\x1b[38;5;7m",
        tick: "",
        priority: "\x1b[1m\x1b[38;5;6m",
        completion: "\x1b[4m\x1b[38;5;5m",
        creation: "\x1b[4m\x1b[38;5;3m",
        description: "",
        context: "\x1b[3m\x1b[38;5;2m",
        project: "\x1b[3m\x1b[38;5;3m",
        deadline: "\x1b[1m\x1b[38;5;1m",
        metadata: "\x1b[3m\x1b[38;5;4m",
    }
}

/// The characters of the ANSI reset sequence.
pub open spec fn spec_reset() -> Seq<char> {
    "\x1b[0m"@
}

/// The view of the empty string is the empty character sequence.
pub proof fn lemma_empty_str_view()
    ensures
        ""@ == Seq::<char>::empty(),
{
    reveal_strlit("");
    assert(""@ =~= Seq::<char>::empty());
}

/// The view of a style scheme: one ANSI prefix per rendered element.
pub struct StyleSchemeView {
    pub faded: Seq<char>,
    pub tick: Seq<char>,
    pub priority: Seq<char>,
    pub completion: Seq<char>,
    pub creation: Seq<char>,
    pub description: Seq<char>,
    pub context: Seq<char>,
    pub project: Seq<char>,
    pub deadline: Seq<char>,
    pub metadata: Seq<char>,
}

impl StyleSchemeView {
    /// Every element is rendered bare.
    pub open spec fn all_empty(self) -> bool {
        &&& self.faded == Seq::<char>::empty()
        &&& self.tick == Seq::<char>::empty()
        &&& self.priority == Seq::<char>::empty()
        &&& self.completion == Seq::<char>::empty()
        &&& self.creation == Seq::<char>::empty()
        &&& self.description == Seq::<char>::empty()
        &&& self.context == Seq::<char>::empty()
        &&& self.project == Seq::<char>::empty()
        &&& self.deadline == Seq::<char>::empty()
        &&& self.metadata == Seq::<char>::empty()
    }
}

/// The scheme a completed todo is rendered with: only the faded style,
/// applied to the whole line.
pub open spec fn spec_faded_only(sv: StyleSchemeView) -> StyleSchemeView {
    StyleSchemeView {
        faded: sv.faded,
        tick: Seq::<char>::empty(),
        priority: Seq::<char>::empty(),
        completion: Seq::<char>::empty(),
        creation: Seq::<char>::empty(),
        description: Seq::<char>::empty(),
        context: Seq::<char>::empty(),
        project: Seq::<char>::empty(),
        deadline: Seq::<char>::empty(),
        metadata: Seq::<char>::empty(),
    }
}

/// The scheme an open todo is rendered with: its own styles, with no
/// fading.
pub open spec fn spec_defaded(sv: StyleSchemeView) -> StyleSchemeView {
    StyleSchemeView { faded: Seq::<char>::empty(), ..sv }
}

/// A style scheme: one ANSI prefix per rendered element of a todo.
///
/// An empty prefix leaves that element bare, so the all-empty scheme
/// renders a todo byte-identically to the plain text form.
#[derive(Clone, Copy, Debug, PartialEq, Eq)]
pub struct StyleScheme<'a> {
    pub faded: &'a str,
    pub tick: &'a str,
    pub priority: &'a str,
    pub completion: &'a str,
    pub creation: &'a str,
    pub description: &'a str,
    pub context: &'a str,
    pub project: &'a str,
    pub deadline: &'a str,
    pub metadata: &'a str,
}

impl<'a> View for StyleScheme<'a> {
    type V = StyleSchemeView;

    open spec fn view(&self) -> StyleSchemeView {
        StyleSchemeView {
            faded: self.faded@,
            tick: self.tick@,
            priority: self.priority@,
            completion: self.completion@,
            creation: self.creation@,
            description: self.description@,
            context: self.context@,
            project: self.project@,
            deadline: self.deadline@,
            metadata: self.metadata@,
        }
    }
}

impl<'a> Default for StyleScheme<'a> {
    /// The scheme that styles nothing.
    fn default() -> (r: Self)
        ensures
            r@.all_empty(),
    {
        StyleScheme::new()
    }
}

impl<'a> StyleScheme<'a> {
    /// The scheme that styles nothing.
    pub fn new() -> (r: Self)
        ensures
            r@.all_empty(),
    {
        proof {
            lemma_empty_str_view();
        }
        StyleScheme {
            faded: "",
            tick: "",
            priority: "",
            completion: "",
            creation: "",
            description: "",
            context: "",
            project: "",
            deadline: "",
            metadata: "",
        }
    }

    /// Replaces the style of completed todos.
    pub fn faded(self, style: Option<&'a str>) -> (r: Self)
        ensures
            r@ == (StyleSchemeView {
                faded: match style {
                    Some(s) => s@,
                    None => Seq::<char>::empty(),
                },
                ..self@
            }),
    {
        proof {
            lemma_empty_str_view();
        }
        let mut s = self;
        s.faded = match style {
            Some(st) => st,
            None => "",
        };
        s
    }

    /// Replaces the style of the completion mark.
    pub fn tick(self, style: Option<&'a str>) -> (r: Self)
        ensures
            r@ == (StyleSchemeView {
                tick: match style {
                    Some(s) => s@,
                    None => Seq::<char>::empty(),
                },
                ..self@
            }),
    {
        proof {
            lemma_empty_str_view();
        }
        let mut s = self;
        s.tick = match style {
            Some(st) => st,
            None => "",
        };
        s
    }

    /// Replaces the style of the priority.
    pub fn priority(self, style: Option<&'a str>) -> (r: Self)
        ensures
            r@ == (StyleSchemeView {
                priority: match style {
                    Some(s) => s@,
                    None => Seq::<char>::empty(),
                },
                ..self@
            }),
    {
        proof {
            lemma_empty_str_view();
        }
        let mut s = self;
        s.priority = match style {
            Some(st) => st,
            None => "",
        };
        s
    }

    /// Replaces the style of the completion date.
    pub fn completion(self, style: Option<&'a str>) -> (r: Self)
        ensures
            r@ == (StyleSchemeView {
                completion: match style {
                    Some(s) => s@,
                    None => Seq::<char>::empty(),
                },
                ..self@
            }),
    {
        proof {
            lemma_empty_str_view();
        }
        let mut s = self;
        s.completion = match style {
            Some(st) => st,
            None => "",
        };
        s
    }

    /// Replaces the style of the creation date.
    pub fn creation(self, style: Option<&'a str>) -> (r: Self)
        ensures
            r@ == (StyleSchemeView {
                creation: match style {
                    Some(s) => s@,
                    None => Seq::<char>::empty(),
                },
                ..self@
            }),
    {
        proof {
            lemma_empty_str_view();
        }
        let mut s = self;
        s.creation = match style {
            Some(st) => st,
            None => "",
        };
        s
    }

    /// Replaces the style of literal description text.
    pub fn description(self, style: Option<&'a str>) -> (r: Self)
        ensures
            r@ == (StyleSchemeView {
                description: match style {
                    Some(s) => s@,
                    None => Seq::<char>::empty(),
                },
                ..self@
            }),
    {
        proof {
            lemma_empty_str_view();
        }
        let mut s = self;
        s.description = match style {
            Some(st) => st,
            None => "",
        };
        s
    }

    /// Replaces the style of context tags.
    pub fn context(self, style: Option<&'a str>) -> (r: Self)
        ensures
            r@ == (StyleSchemeView {
                context: match style {
                    Some(s) => s@,
                    None => Seq::<char>::empty(),
                },
                ..self@
            }),
    {
        proof {
            lemma_empty_str_view();
        }
        let mut s = self;
        s.context = match style {
            Some(st) => st,
            None => "",
        };
        s
    }

    /// Replaces the style of project tags.
    pub fn project(self, style: Option<&'a str>) -> (r: Self)
        ensures
            r@ == (StyleSchemeView {
                project: match style {
                    Some(s) => s@,
                    None => Seq::<char>::empty(),
                },
                ..self@
            }),
    {
        proof {
            lemma_empty_str_view();
        }
        let mut s = self;
        s.project = match style {
            Some(st) => st,
            None => "",
        };
        s
    }

    /// Replaces the style of the deadline.
    pub fn deadline(self, style: Option<&'a str>) -> (r: Self)
        ensures
            r@ == (StyleSchemeView {
                deadline: match style {
                    Some(s) => s@,
                    None => Seq::<char>::empty(),
                },
                ..self@
            }),
    {
        proof {
            lemma_empty_str_view();
        }
        let mut s = self;
        s.deadline = match style {
            Some(st) => st,
            None => "",
        };
        s
    }

    /// Replaces the style of the metadata.
    pub fn metadata(self, style: Option<&'a str>) -> (r: Self)
        ensures
            r@ == (StyleSchemeView {
                metadata: match style {
                    Some(s) => s@,
                    None => Seq::<char>::empty(),
                },
                ..self@
            }),
    {
        proof {
            lemma_empty_str_view();
        }
        let mut s = self;
        s.metadata = match style {
            Some(st) => st,
            None => "",
        };
        s
    }

    /// The reset sequence and the scheme to render with: a completed todo
    /// is rendered entirely in the faded style with no resets, any other
    /// todo in its own styles with the ANSI reset after each styled
    /// element.
    pub fn get_colors(&self, fade: bool) -> (r: (&'static str, Self))
        ensures
            fade ==> r.0@ == Seq::<char>::empty() && r.1@ == spec_faded_only(self@),
            !fade ==> r.0@ == spec_reset() && r.1@ == spec_defaded(self@),
    {
        proof {
            lemma_empty_str_view();
        }
        if fade {
            ("", StyleScheme::new().faded(Some(self.faded)))
        } else {
            (RESET, self.faded(None))
        }
    }
}

} // verus!
