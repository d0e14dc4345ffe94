//! Line endings, indents and the optional decoration of a line.
use crate::chars::{chars_of, is_indent_text, str_is_indent, string_from};
use crate::error::{Error, ErrorView, Result};
use vstd::prelude::*;

verus! {

/// The indent given to new lines when nothing can be inferred: one tab.
pub const DEFAULT_LINE_INDENT: &'static str = "\t";

/// How a line is terminated.
#[derive(Debug, Clone, Copy, PartialEq, Eq, Structural)]
pub enum LineEnding {
    Lf,
    Crlf,
}

impl LineEnding {
    /// The characters of this line ending.
    pub open spec fn text(self) -> Seq<char> {
        match self {
            LineEnding::Lf => seq!['\n'],
            LineEnding::Crlf => seq!['\r', '\n'],
        }
    }

    /// The line ending as text.
    pub fn as_str(&self) -> (s: &'static str)
        ensures
            s@ == self.text(),
    {
        match self {
            LineEnding::Lf => {
                proof {
                    reveal_strlit("\n");
                }
                "\n"
            },
            LineEnding::Crlf => {
                proof {
                    reveal_strlit("\r\n");
                }
                "\r\n"
            },
        }
    }

    /// The line ending as an owned string.
    pub fn to_string(&self) -> (s: String)
        ensures
            s@ == self.text(),
    {
        string_from(self.as_str())
    }

    /// The line ending whose text is `s`, if any.
    pub fn from_text(s: &str) -> (r: Option<LineEnding>)
        ensures
            r matches Some(e) ==> e.text() == s@,
            r is None <==> (s@ != LineEnding::Lf.text() && s@ != LineEnding::Crlf.text()),
    {
        let v = chars_of(s);
        if v.len() == 1 && v[0] == '\n' {
            assert(v@ =~= LineEnding::Lf.text());
            Some(LineEnding::Lf)
        } else if v.len() == 2 && v[0] == '\r' && v[1] == '\n' {
            assert(v@ =~= LineEnding::Crlf.text());
            Some(LineEnding::Crlf)
        } else {
            None
        }
    }
}

impl Default for LineEnding {
    /// A line feed, on every platform: the default ending does not depend on
    /// the target the library is built for.
    fn default() -> (r: LineEnding)
        ensures
            r == LineEnding::Lf,
    {
        LineEnding::Lf
    }
}

/// The text placed before a line's content: non-empty inline whitespace.
pub struct Indent(String);

impl Indent {
    #[verifier::type_invariant]
    spec fn inv(self) -> bool {
        is_indent_text(self.0@)
    }

    /// The characters of the indent.
    pub closed spec fn view(self) -> Seq<char> {
        self.0@
    }

    /// # Errors
    /// Returns [`Error::InvalidIndent`] unless `indent` is non-empty and contains
    /// only inline whitespace.
    pub fn new(indent: &str) -> (r: Result<Self>)
        ensures
            is_indent_text(indent@) <==> r is Ok,
            r matches Ok(i) ==> i.view() == indent@,
            r matches Err(e) ==> e@ == ErrorView::InvalidIndent(indent@),
    {
        if !str_is_indent(indent) {
            return Err(Error::InvalidIndent(string_from(indent)));
        }
        Ok(Indent(string_from(indent)))
    }

    /// Wraps text already known to be a valid indent.
    pub(crate) fn from_lexer(indent: String) -> (r: Self)
        requires
            is_indent_text(indent@),
        ensures
            r.view() == indent@,
    {
        Indent(indent)
    }

    /// The indent as text.
    pub fn as_str(&self) -> (s: &str)
        ensures
            s@ == self.view(),
    {
        self.0.as_str()
    }

    /// The indent as an owned string.
    pub fn to_string(&self) -> (s: String)
        ensures
            s@ == self.view(),
    {
        self.0.clone()
    }

    /// Another indent with the same text.
    pub fn duplicate(&self) -> (r: Self)
        ensures
            r.view() == self.view(),
    {
        proof {
            use_type_invariant(self);
        }
        Indent(self.0.clone())
    }

    /// The text of [`DEFAULT_LINE_INDENT`].
    pub open spec fn default_text() -> Seq<char> {
        seq!['\t']
    }
}

impl Default for Indent {
    /// [`DEFAULT_LINE_INDENT`], a single tab.
    fn default() -> (r: Indent)
        ensures
            r.view() == Indent::default_text(),
    {
        proof {
            reveal_strlit("\t");
        }
        let s = string_from(DEFAULT_LINE_INDENT);
        assert(s@ =~= seq!['\t']);
        Indent(s)
    }
}

/// The optional indent and line ending around a line.
pub(crate) struct Decor {
    pub(crate) indent: Option<Indent>,
    pub(crate) ending: Option<LineEnding>,
}

/// The view of an optional indent.
pub open spec fn indent_view(i: Option<Indent>) -> Option<Seq<char>> {
    match i {
        Some(i) => Some(i.view()),
        None => None,
    }
}

/// The characters written for an optional indent.
pub open spec fn indent_text(i: Option<Seq<char>>) -> Seq<char> {
    match i {
        Some(t) => t,
        None => Seq::empty(),
    }
}

/// The characters written for an optional line ending.
pub open spec fn ending_text(e: Option<LineEnding>) -> Seq<char> {
    match e {
        Some(e) => e.text(),
        None => Seq::empty(),
    }
}

impl Decor {
    /// The indent's text, if any.
    pub(crate) open spec fn indent_view(self) -> Option<Seq<char>> {
        indent_view(self.indent)
    }

    /// No indent and no ending.
    pub(crate) fn new() -> (d: Self)
        ensures
            d.indent_view() is None,
            d.ending is None,
    {
        Decor { indent: None, ending: None }
    }

    pub(crate) fn indent(&self) -> (r: Option<&Indent>)
        ensures
            r matches Some(i) ==> self.indent == Some(*i),
            r is None <==> self.indent is None,
    {
        self.indent.as_ref()
    }

    pub(crate) fn set_indent(&mut self, indent: Indent)
        ensures
            final(self).indent_view() == Some(indent.view()),
            final(self).ending == old(self).ending,
    {
        self.indent = Some(indent);
    }

    pub(crate) fn set_indent_if_absent(&mut self, indent: Indent)
        ensures
            final(self).indent_view() == (if old(self).indent is None {
                Some(indent.view())
            } else {
                old(self).indent_view()
            }),
            final(self).ending == old(self).ending,
    {
        if self.indent.is_none() {
            self.set_indent(indent);
        }
    }

    pub(crate) fn with_indent(self, indent: Indent) -> (d: Self)
        ensures
            d.indent_view() == Some(indent.view()),
            d.ending == self.ending,
    {
        let mut d = self;
        d.set_indent(indent);
        d
    }

    /// Appends the indent, if any, to `out`.
    pub(crate) fn write_indent(&self, out: &mut String)
        ensures
            final(out)@ == old(out)@ + indent_text(self.indent_view()),
    {
        if let Some(indent) = self.indent() {
            out.append(indent.as_str());
        } else {
            assert(old(out)@ + Seq::<char>::empty() =~= old(out)@);
        }
    }

    pub(crate) fn ending(&self) -> (r: Option<LineEnding>)
        ensures
            r == self.ending,
    {
        self.ending
    }

    pub(crate) fn set_ending(&mut self, ending: LineEnding)
        ensures
            final(self).ending == Some(ending),
            final(self).indent_view() == old(self).indent_view(),
    {
        self.ending = Some(ending);
    }

    pub(crate) fn set_ending_if_absent(&mut self, ending: LineEnding)
        ensures
            final(self).ending == (if old(self).ending is None {
                Some(ending)
            } else {
                old(self).ending
            }),
            final(self).indent_view() == old(self).indent_view(),
    {
        if self.ending.is_none() {
            self.set_ending(ending);
        }
    }

    pub(crate) fn with_ending(self, ending: LineEnding) -> (d: Self)
        ensures
            d.ending == Some(ending),
            d.indent_view() == self.indent_view(),
    {
        let mut d = self;
        d.set_ending(ending);
        d
    }

    /// Appends the line ending, if any, to `out`.
    pub(crate) fn write_ending(&self, out: &mut String)
        ensures
            final(out)@ == old(out)@ + ending_text(self.ending),
    {
        if let Some(ending) = self.ending() {
            out.append(ending.as_str());
        } else {
            assert(old(out)@ + Seq::<char>::empty() =~= old(out)@);
        }
    }
}

} // verus!
