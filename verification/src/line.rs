//! Lines of a document: directives, selectors, comments and blank lines, each
//! with its own indent and line ending.
use crate::chars::{
    chars_of, equal_count, is_blank, is_indent_text, is_inline_ws, is_single_line, push_char,
    spec_is_inline_ws, str_is_blank, str_is_single_line, string_from,
};
use crate::decor::{ending_text, indent_text, Decor, Indent, LineEnding};
use crate::error::{Error, ErrorView, Result};
use crate::field_keys::{
    key_is_cumulative, key_is_selector, key_name, lemma_keywords_read_back, parse_key, FieldKey, KeyView,
    SelectorKind,
};
use crate::lexer::{lexed_wf, tokens_text, tokens_view, SpecToken, Token, TokenKind};
use vstd::prelude::*;

verus! {

/// A valid separator: non-empty inline whitespace with at most one `'='`.
pub open spec fn sep_ok(s: Seq<char>) -> bool {
    &&& s.len() > 0
    &&& forall|i: int| 0 <= i < s.len() ==> spec_is_inline_ws(#[trigger] s[i]) || s[i] == '='
    &&& equal_count(s) <= 1
}

/// # Errors
/// Returns [`Error::InvalidSeparator`] unless `sep` is non-empty inline
/// whitespace with at most one `'='`.
fn validate_sep(sep: &str) -> (r: Result<()>)
    ensures
        r is Ok <==> sep_ok(sep@),
        r matches Err(e) ==> e@ == ErrorView::InvalidSeparator(sep@),
{
    let v = chars_of(sep);
    let mut equals: usize = 0;
    let mut i: usize = 0;
    while i < v.len()
        invariant
            i <= v.len(),
            v@ == sep@,
            equals == equal_count(v@.subrange(0, i as int)),
            equals <= i,
            forall|j: int| 0 <= j < i ==> spec_is_inline_ws(#[trigger] v@[j]) || v@[j] == '=',
        decreases v.len() - i,
    {
        assert(v@.subrange(0, i + 1).drop_last() =~= v@.subrange(0, i as int));
        if !is_inline_ws(v[i]) && v[i] != '=' {
            return Err(Error::InvalidSeparator(string_from(sep)));
        }
        if v[i] == '=' {
            equals = equals + 1;
        }
        i = i + 1;
    }
    assert(v@.subrange(0, v.len() as int) =~= v@);
    if equals > 1 || v.len() == 0 {
        return Err(Error::InvalidSeparator(string_from(sep)));
    }
    Ok(())
}

/// # Errors
/// Returns [`Error::EmptyValue`] if `value` is empty or only whitespace.
fn validate_value(value: &str) -> (r: Result<()>)
    ensures
        r is Ok <==> !is_blank(value@),
        r matches Err(e) ==> e@ == ErrorView::EmptyValue,
{
    if str_is_blank(value) {
        return Err(Error::EmptyValue);
    }
    Ok(())
}

/// A single space is a valid separator.
pub proof fn lemma_space_sep_ok()
    ensures
        sep_ok(seq![' ']),
{
    let s = seq![' '];
    assert(s.drop_last() =~= Seq::<char>::empty());
    assert(equal_count(Seq::<char>::empty()) == 0);
    assert(equal_count(s.drop_last()) == 0);
    assert(equal_count(s) == 0);
}

/// The mathematical value of a [`Directive`].
pub struct DirectiveView {
    pub key: Seq<char>,
    pub sep: Seq<char>,
    pub value: Seq<char>,
}

impl DirectiveView {
    /// What the directive writes: key, separator, value.
    pub open spec fn text(self) -> Seq<char> {
        self.key + self.sep + self.value
    }

    /// The key the directive sets.
    pub open spec fn field_key(self) -> KeyView {
        parse_key(self.key)
    }

    /// The parts of a well-formed directive.
    pub open spec fn wf(self) -> bool {
        &&& self.key.len() > 0
        &&& !is_blank(self.value)
        &&& sep_ok(self.sep)
    }
}

/// The directive built from a key, separator and value, or why there is none.
pub open spec fn make_directive(key: Seq<char>, sep: Seq<char>, value: Seq<char>) -> core::result::Result<
    DirectiveView,
    ErrorView,
> {
    if key.len() == 0 {
        Err(ErrorView::EmptyKey)
    } else if is_blank(value) {
        Err(ErrorView::EmptyValue)
    } else if !sep_ok(sep) {
        Err(ErrorView::InvalidSeparator(sep))
    } else {
        Ok(DirectiveView { key, sep, value })
    }
}

/// A `key separator value` setting.
pub struct Directive {
    key: String,
    sep: String,
    value: String,
}

impl View for Directive {
    type V = DirectiveView;

    closed spec fn view(&self) -> DirectiveView {
        DirectiveView { key: self.key@, sep: self.sep@, value: self.value@ }
    }
}

impl Directive {
    #[verifier::type_invariant]
    spec fn inv(self) -> bool {
        self@.wf()
    }

    /// A directive `key value`, separated by one space.
    ///
    /// # Errors
    /// Returns [`Error::EmptyKey`] if `key` is empty, then
    /// [`Error::EmptyValue`] if `value` is empty or only whitespace.
    pub fn new(key: &str, value: &str) -> (r: Result<Self>)
        ensures
            match make_directive(key@, seq![' '], value@) {
                Ok(d) => r matches Ok(x) && x@ == d,
                Err(e) => r matches Err(x) && x@ == e,
            },
    {
        if chars_of(key).len() == 0 {
            return Err(Error::EmptyKey);
        }
        validate_value(value)?;
        let mut sep = String::new();
        push_char(&mut sep, ' ');
        proof {
            assert(sep@ =~= seq![' ']);
            assert(sep@.drop_last() =~= Seq::<char>::empty());
            assert(equal_count(Seq::<char>::empty()) == 0);
            assert(equal_count(sep@.drop_last()) == 0);
            assert(sep@.last() == ' ');
            assert(equal_count(sep@) == 0);
        }
        Ok(Self { key: string_from(key), sep, value: string_from(value) })
    }

    /// Every directive is well formed.
    pub fn check_wf(&self)
        ensures
            self@.wf(),
    {
        proof {
            use_type_invariant(self);
        }
    }

    /// The key as written.
    pub fn key(&self) -> (s: &str)
        ensures
            s@ == self@.key,
    {
        self.key.as_str()
    }

    /// The key, parsed.
    pub fn field_key(&self) -> (k: FieldKey)
        ensures
            k@ == self@.field_key(),
    {
        FieldKey::parse(&self.key)
    }

    /// The value.
    pub fn value(&self) -> (s: &str)
        ensures
            s@ == self@.value,
    {
        self.value.as_str()
    }

    /// Replaces the value, keeping key and separator.
    ///
    /// # Errors
    /// Returns [`Error::EmptyValue`] if `value` is empty or only whitespace;
    /// the directive is then unchanged.
    pub fn set_value(&mut self, value: &str) -> (r: Result<()>)
        ensures
            r is Ok <==> !is_blank(value@),
            r matches Err(e) ==> e@ == ErrorView::EmptyValue,
            final(self)@ == (if r is Ok {
                DirectiveView { value: value@, ..old(self)@ }
            } else {
                old(self)@
            }),
    {
        proof {
            use_type_invariant(&*self);
        }
        validate_value(value)?;
        self.value = string_from(value);
        Ok(())
    }

    /// The separator between key and value.
    pub fn separator(&self) -> (s: &str)
        ensures
            s@ == self@.sep,
    {
        self.sep.as_str()
    }

    /// The same directive with separator `sep`.
    ///
    /// # Errors
    /// Returns [`Error::InvalidSeparator`] unless `sep` is non-empty inline
    /// whitespace with at most one `'='`.
    pub fn with_separator(self, sep: &str) -> (r: Result<Self>)
        ensures
            r is Ok <==> sep_ok(sep@),
            r matches Ok(d) ==> d@ == (DirectiveView { sep: sep@, ..self@ }),
            r matches Err(e) ==> e@ == ErrorView::InvalidSeparator(sep@),
    {
        proof {
            use_type_invariant(&self);
        }
        validate_sep(sep)?;
        let mut d = self;
        d.sep = string_from(sep);
        Ok(d)
    }

    /// Whether the key is cumulative.
    pub fn is_cumulative(&self) -> (b: bool)
        ensures
            b == key_is_cumulative(self@.field_key()),
    {
        FieldKey::parse(&self.key).is_cumulative()
    }

    /// Whether the key is a selector.
    pub fn is_selector(&self) -> (b: bool)
        ensures
            b == key_is_selector(self@.field_key()),
    {
        FieldKey::parse(&self.key).is_selector()
    }

    /// Appends the directive's text to `out`.
    pub fn write_to(&self, out: &mut String)
        ensures
            final(out)@ == old(out)@ + self@.text(),
    {
        out.append(self.key.as_str());
        out.append(self.sep.as_str());
        out.append(self.value.as_str());
        assert(old(out)@ + self.key@ + self.sep@ + self.value@ =~= old(out)@ + self@.text());
    }

    /// The directive's text: key, separator, value.
    pub fn to_string(&self) -> (s: String)
        ensures
            s@ == self@.text(),
    {
        let mut s = String::new();
        self.write_to(&mut s);
        assert(Seq::<char>::empty() + self@.text() =~= self@.text());
        s
    }
}


/// The mathematical value of a [`Selector`].
pub struct SelectorView {
    pub indent: Option<Seq<char>>,
    pub ending: Option<LineEnding>,
    pub key: Seq<char>,
    pub sep: Seq<char>,
    pub value: Seq<char>,
}

impl SelectorView {
    /// What the selector writes: indent, key, separator, value, ending.
    pub open spec fn text(self) -> Seq<char> {
        indent_text(self.indent) + self.key + self.sep + self.value + ending_text(self.ending)
    }

    /// The selector's key, parsed.
    pub open spec fn field_key(self) -> KeyView {
        parse_key(self.key)
    }

    /// The selector as a directive line.
    pub open spec fn as_line(self) -> LineView {
        LineView {
            indent: self.indent,
            ending: self.ending,
            kind: LineKindView::Directive(
                DirectiveView { key: self.key, sep: self.sep, value: self.value },
            ),
        }
    }
}

/// The line ending written as `s`, if any.
pub open spec fn ending_of_text(s: Seq<char>) -> Option<LineEnding> {
    if s == LineEnding::Lf.text() {
        Some(LineEnding::Lf)
    } else if s == LineEnding::Crlf.text() {
        Some(LineEnding::Crlf)
    } else {
        None
    }
}

/// The `Host` or `Match` line that opens a section.
pub struct Selector {
    decor: Decor,
    key: String,
    sep: String,
    value: String,
}

impl View for Selector {
    type V = SelectorView;

    closed spec fn view(&self) -> SelectorView {
        SelectorView {
            indent: self.decor.indent_view(),
            ending: self.decor.ending,
            key: self.key@,
            sep: self.sep@,
            value: self.value@,
        }
    }
}

impl Selector {
    #[verifier::type_invariant]
    spec fn inv(self) -> bool {
        &&& key_is_selector(parse_key(self.key@))
        &&& (DirectiveView { key: self.key@, sep: self.sep@, value: self.value@ }).wf()
    }

    /// A selector `key value` without indent or ending; `key` is written in
    /// its canonical spelling.
    ///
    /// # Errors
    /// Returns [`Error::NotASelector`] unless `key` is `Host` or `Match`, then
    /// [`Error::EmptyValue`] if `value` is empty or only whitespace.
    pub fn new(key: FieldKey, value: &str) -> (r: Result<Self>)
        ensures
            !key_is_selector(key@) ==> (r matches Err(e) && e@ == ErrorView::NotASelector(
                key_name(key@),
            )),
            key_is_selector(key@) && is_blank(value@) ==> (r matches Err(e) && e@
                == ErrorView::EmptyValue),
            key_is_selector(key@) && !is_blank(value@) ==> (r matches Ok(x) && x@ == (SelectorView {
                indent: None,
                ending: None,
                key: key_name(key@),
                sep: seq![' '],
                value: value@,
            })),
    {
        if !key.is_selector() {
            return Err(Error::NotASelector(key.to_string()));
        }
        validate_value(value)?;
        let mut sep = String::new();
        push_char(&mut sep, ' ');
        proof {
            assert(sep@ =~= seq![' ']);
            assert(sep@.drop_last() =~= Seq::<char>::empty());
            assert(equal_count(Seq::<char>::empty()) == 0);
            assert(equal_count(sep@.drop_last()) == 0);
            assert(sep@.last() == ' ');
            assert(equal_count(sep@) == 0);
            assert(key_name(key@).len() > 0);
            assert(parse_key(key_name(key@)) == key@) by {
                lemma_keywords_read_back(key@);
            }
        }
        let name = key.to_string();
        Ok(Self { decor: Decor::new(), key: name, sep, value: string_from(value) })
    }

    /// The indent, if any.
    pub fn indent(&self) -> (r: Option<&str>)
        ensures
            r matches Some(s) ==> self@.indent == Some(s@),
            r is None <==> self@.indent is None,
    {
        match self.decor.indent() {
            Some(i) => Some(i.as_str()),
            None => None,
        }
    }

    /// The indent, if any, as an [`Indent`].
    pub(crate) fn indent_typed(&self) -> (r: Option<&Indent>)
        ensures
            r matches Some(i) ==> self@.indent == Some(i.view()),
            r is None <==> self@.indent is None,
    {
        self.decor.indent()
    }

    /// Sets the indent.
    ///
    /// # Errors
    /// Returns [`Error::InvalidIndent`] unless `indent` is non-empty inline
    /// whitespace; the selector is then unchanged.
    pub fn set_indent(&mut self, indent: &str) -> (r: Result<()>)
        ensures
            r is Ok <==> is_indent_text(indent@),
            r matches Err(e) ==> e@ == ErrorView::InvalidIndent(indent@),
            final(self)@ == (if r is Ok {
                SelectorView { indent: Some(indent@), ..old(self)@ }
            } else {
                old(self)@
            }),
    {
        proof {
            use_type_invariant(&*self);
        }
        let i = Indent::new(indent)?;
        self.decor.indent = Some(i);
        Ok(())
    }

    /// Sets the indent unless there is one already.
    ///
    /// # Errors
    /// Returns [`Error::InvalidIndent`] when there is no indent yet and
    /// `indent` is not non-empty inline whitespace.
    pub fn set_indent_if_absent(&mut self, indent: &str) -> (r: Result<()>)
        ensures
            old(self)@.indent is Some ==> r is Ok && final(self)@ == old(self)@,
            old(self)@.indent is None ==> (r is Ok <==> is_indent_text(indent@)),
            r matches Err(e) ==> e@ == ErrorView::InvalidIndent(indent@) && final(self)@ == old(
                self,
            )@,
            old(self)@.indent is None && r is Ok ==> final(self)@ == (SelectorView {
                indent: Some(indent@),
                ..old(self)@
            }),
    {
        if self.decor.indent.is_none() {
            self.set_indent(indent)?;
        }
        Ok(())
    }

    /// The same selector with indent `indent`.
    ///
    /// # Errors
    /// Returns [`Error::InvalidIndent`] unless `indent` is non-empty inline
    /// whitespace.
    pub fn with_indent(self, indent: &str) -> (r: Result<Self>)
        ensures
            r is Ok <==> is_indent_text(indent@),
            r matches Err(e) ==> e@ == ErrorView::InvalidIndent(indent@),
            r matches Ok(x) ==> x@ == (SelectorView { indent: Some(indent@), ..self@ }),
    {
        let mut x = self;
        x.set_indent(indent)?;
        Ok(x)
    }

    /// The line ending, if any, as text.
    pub fn ending(&self) -> (r: Option<&str>)
        ensures
            r matches Some(s) ==> self@.ending matches Some(e) && s@ == e.text(),
            r is None <==> self@.ending is None,
    {
        match self.decor.ending() {
            Some(e) => Some(e.as_str()),
            None => None,
        }
    }

    /// The line ending, if any.
    pub(crate) fn ending_typed(&self) -> (r: Option<LineEnding>)
        ensures
            r == self@.ending,
    {
        self.decor.ending()
    }

    /// Sets the line ending.
    ///
    /// # Errors
    /// Returns [`Error::InvalidLineEnding`] unless `ending` is `"\n"` or
    /// `"\r\n"`; the selector is then unchanged.
    pub fn set_ending(&mut self, ending: &str) -> (r: Result<()>)
        ensures
            r is Ok <==> ending_of_text(ending@) is Some,
            r matches Err(e) ==> e@ == ErrorView::InvalidLineEnding(ending@),
            final(self)@ == (if r is Ok {
                SelectorView { ending: ending_of_text(ending@), ..old(self)@ }
            } else {
                old(self)@
            }),
    {
        match LineEnding::from_text(ending) {
            Some(e) => {
                self.set_ending_typed(e);
                Ok(())
            },
            None => Err(Error::InvalidLineEnding(string_from(ending))),
        }
    }

    /// Sets the line ending.
    pub(crate) fn set_ending_typed(&mut self, ending: LineEnding)
        ensures
            final(self)@ == (SelectorView { ending: Some(ending), ..old(self)@ }),
    {
        proof {
            use_type_invariant(&*self);
        }
        self.decor.ending = Some(ending);
    }

    /// Sets the line ending unless there is one already.
    ///
    /// # Errors
    /// Returns [`Error::InvalidLineEnding`] when there is no ending yet and
    /// `ending` is neither `"\n"` nor `"\r\n"`.
    pub fn set_ending_if_absent(&mut self, ending: &str) -> (r: Result<()>)
        ensures
            old(self)@.ending is Some ==> r is Ok && final(self)@ == old(self)@,
            old(self)@.ending is None ==> (r is Ok <==> ending_of_text(ending@) is Some),
            r matches Err(e) ==> e@ == ErrorView::InvalidLineEnding(ending@) && final(self)@
                == old(self)@,
            old(self)@.ending is None && r is Ok ==> final(self)@ == (SelectorView {
                ending: ending_of_text(ending@),
                ..old(self)@
            }),
    {
        if self.decor.ending.is_none() {
            self.set_ending(ending)?;
        }
        Ok(())
    }

    /// Sets the line ending unless there is one already.
    pub(crate) fn set_ending_if_absent_typed(&mut self, ending: LineEnding)
        ensures
            final(self)@ == (if old(self)@.ending is None {
                SelectorView { ending: Some(ending), ..old(self)@ }
            } else {
                old(self)@
            }),
    {
        if self.decor.ending.is_none() {
            self.set_ending_typed(ending);
        }
    }

    /// The same selector with line ending `ending`.
    ///
    /// # Errors
    /// Returns [`Error::InvalidLineEnding`] unless `ending` is `"\n"` or
    /// `"\r\n"`.
    pub fn with_ending(self, ending: &str) -> (r: Result<Self>)
        ensures
            r is Ok <==> ending_of_text(ending@) is Some,
            r matches Err(e) ==> e@ == ErrorView::InvalidLineEnding(ending@),
            r matches Ok(x) ==> x@ == (SelectorView { ending: ending_of_text(ending@), ..self@ }),
    {
        let mut x = self;
        x.set_ending(ending)?;
        Ok(x)
    }

    /// The same selector with line ending `ending`.
    pub(crate) fn with_ending_typed(self, ending: LineEnding) -> (x: Self)
        ensures
            x@ == (SelectorView { ending: Some(ending), ..self@ }),
    {
        let mut x = self;
        x.set_ending_typed(ending);
        x
    }

    /// The key as written.
    pub fn key(&self) -> (s: &str)
        ensures
            s@ == self@.key,
    {
        self.key.as_str()
    }

    /// The key, parsed.
    pub fn field_key(&self) -> (k: FieldKey)
        ensures
            k@ == self@.field_key(),
            key_is_selector(k@),
    {
        proof {
            use_type_invariant(self);
        }
        FieldKey::parse(&self.key)
    }

    /// Whether this is a `Host` or a `Match` selector.
    pub fn kind(&self) -> (k: SelectorKind)
        ensures
            k == SelectorKind::Host <==> self@.field_key().ordinal == 0,
    {
        match self.field_key().as_selector_kind() {
            Some(k) => k,
            None => SelectorKind::Match,
        }
    }

    /// The value: the patterns or criteria of the section.
    pub fn value(&self) -> (s: &str)
        ensures
            s@ == self@.value,
    {
        self.value.as_str()
    }

    /// Replaces the value.
    ///
    /// # Errors
    /// Returns [`Error::EmptyValue`] if `value` is empty or only whitespace;
    /// the selector is then unchanged.
    pub fn set_value(&mut self, value: &str) -> (r: Result<()>)
        ensures
            r is Ok <==> !is_blank(value@),
            r matches Err(e) ==> e@ == ErrorView::EmptyValue,
            final(self)@ == (if r is Ok {
                SelectorView { value: value@, ..old(self)@ }
            } else {
                old(self)@
            }),
    {
        proof {
            use_type_invariant(&*self);
        }
        validate_value(value)?;
        self.value = string_from(value);
        Ok(())
    }

    /// The separator between key and value.
    pub fn separator(&self) -> (s: &str)
        ensures
            s@ == self@.sep,
    {
        self.sep.as_str()
    }

    /// The same selector with separator `sep`.
    ///
    /// # Errors
    /// Returns [`Error::InvalidSeparator`] unless `sep` is non-empty inline
    /// whitespace with at most one `'='`.
    pub fn with_separator(self, sep: &str) -> (r: Result<Self>)
        ensures
            r is Ok <==> sep_ok(sep@),
            r matches Ok(d) ==> d@ == (SelectorView { sep: sep@, ..self@ }),
            r matches Err(e) ==> e@ == ErrorView::InvalidSeparator(sep@),
    {
        proof {
            use_type_invariant(&self);
        }
        validate_sep(sep)?;
        let mut d = self;
        d.sep = string_from(sep);
        Ok(d)
    }

    /// Appends the selector's text to `out`.
    pub fn write_to(&self, out: &mut String)
        ensures
            final(out)@ == old(out)@ + self@.text(),
    {
        self.decor.write_indent(out);
        out.append(self.key.as_str());
        out.append(self.sep.as_str());
        out.append(self.value.as_str());
        self.decor.write_ending(out);
        assert(old(out)@ + indent_text(self@.indent) + self.key@ + self.sep@ + self.value@
            + ending_text(self@.ending) =~= old(out)@ + self@.text());
    }

    /// The selector's text.
    pub fn to_string(&self) -> (s: String)
        ensures
            s@ == self@.text(),
    {
        let mut s = String::new();
        self.write_to(&mut s);
        assert(Seq::<char>::empty() + self@.text() =~= self@.text());
        s
    }

    /// The selector a directive line holds.
    ///
    /// # Errors
    /// Returns [`Error::NotASelector`], with the line's text, unless the line
    /// is a directive whose key is `Host` or `Match`.
    pub fn try_from_line(line: Line) -> (r: Result<Self>)
        ensures
            line@.is_selector() ==> (r matches Ok(x) && x@.as_line() == line@),
            !line@.is_selector() ==> (r matches Err(e) && e@ == ErrorView::NotASelector(
                line@.text(),
            )),
    {
        if !line.is_selector_line() {
            return Err(Error::NotASelector(line.to_string()));
        }
        let Line { decor, kind } = line;
        match kind {
            LineKind::Directive(d) => {
                proof {
                    use_type_invariant(&d);
                }
                let Directive { key, sep, value } = d;
                Ok(Selector { decor, key, sep, value })
            },
            _ => Err(Error::NotASelector(String::new())),
        }
    }
}

/// The mathematical value of a [`LineKind`].
pub enum LineKindView {
    Directive(DirectiveView),
    Comment(Seq<char>),
    Blank,
}

impl LineKindView {
    /// What the line writes between its indent and its ending.
    pub open spec fn text(self) -> Seq<char> {
        match self {
            LineKindView::Directive(d) => d.text(),
            LineKindView::Comment(c) => c,
            LineKindView::Blank => Seq::empty(),
        }
    }
}

/// The mathematical value of a [`Line`].
pub struct LineView {
    pub indent: Option<Seq<char>>,
    pub ending: Option<LineEnding>,
    pub kind: LineKindView,
}

impl LineView {
    /// What the line writes: indent, content, ending.
    pub open spec fn text(self) -> Seq<char> {
        indent_text(self.indent) + self.kind.text() + ending_text(self.ending)
    }

    /// A directive whose key is `Host` or `Match`.
    pub open spec fn is_selector(self) -> bool {
        self.kind matches LineKindView::Directive(d) && key_is_selector(d.field_key())
    }
}

/// What a line holds.
pub enum LineKind {
    Directive(Directive),
    Comment(String),
    Blank,
}

impl View for LineKind {
    type V = LineKindView;

    open spec fn view(&self) -> LineKindView {
        match self {
            LineKind::Directive(d) => LineKindView::Directive(d@),
            LineKind::Comment(c) => LineKindView::Comment(c@),
            LineKind::Blank => LineKindView::Blank,
        }
    }
}

/// A line of a document.
pub struct Line {
    decor: Decor,
    kind: LineKind,
}

impl View for Line {
    type V = LineView;

    closed spec fn view(&self) -> LineView {
        LineView { indent: self.decor.indent_view(), ending: self.decor.ending, kind: self.kind@ }
    }
}


impl Line {
    /// A line holding `directive`, without indent or ending.
    pub fn from_directive(directive: Directive) -> (l: Line)
        ensures
            l@ == (LineView {
                indent: None,
                ending: None,
                kind: LineKindView::Directive(directive@),
            }),
    {
        Line { decor: Decor::new(), kind: LineKind::Directive(directive) }
    }

    /// A directive line `key value`, with the key in its canonical spelling.
    ///
    /// # Errors
    /// Returns [`Error::EmptyKey`] if the key's text is empty, then
    /// [`Error::EmptyValue`] if `value` is empty or only whitespace.
    pub fn directive(key: FieldKey, value: &str) -> (r: Result<Line>)
        ensures
            match make_directive(key_name(key@), seq![' '], value@) {
                Ok(d) => r matches Ok(l) && l@ == (LineView {
                    indent: None,
                    ending: None,
                    kind: LineKindView::Directive(d),
                }),
                Err(e) => r matches Err(x) && x@ == e,
            },
    {
        let d = Directive::new(key.as_canonical_str(), value)?;
        Ok(Line::from_directive(d))
    }

    /// A comment line `# text`, without indent or ending.
    ///
    /// # Errors
    /// Returns [`Error::InvalidComment`] if `text` holds a line break.
    pub fn comment(text: &str) -> (r: Result<Line>)
        ensures
            r is Ok <==> is_single_line(text@),
            r matches Err(e) ==> e@ == ErrorView::InvalidComment(text@),
            r matches Ok(l) ==> l@ == (LineView {
                indent: None,
                ending: None,
                kind: LineKindView::Comment(seq!['#', ' '] + text@),
            }),
    {
        if !str_is_single_line(text) {
            return Err(Error::InvalidComment(string_from(text)));
        }
        let mut c = String::new();
        push_char(&mut c, '#');
        push_char(&mut c, ' ');
        c.append(text);
        assert(c@ =~= seq!['#', ' '] + text@);
        Ok(Line { decor: Decor::new(), kind: LineKind::Comment(c) })
    }

    /// An empty line, without indent or ending.
    pub fn blank() -> (l: Line)
        ensures
            l@ == (LineView { indent: None, ending: None, kind: LineKindView::Blank }),
    {
        Line { decor: Decor::new(), kind: LineKind::Blank }
    }

    /// What the line holds.
    pub fn kind(&self) -> (k: &LineKind)
        ensures
            k@ == self@.kind,
    {
        &self.kind
    }

    /// Whether the line holds nothing but, maybe, an indent and an ending.
    pub fn is_blank(&self) -> (b: bool)
        ensures
            b <==> self@.kind is Blank,
    {
        match self.kind {
            LineKind::Blank => true,
            _ => false,
        }
    }

    /// Whether the line is a `Host` or `Match` directive.
    pub fn is_selector_line(&self) -> (b: bool)
        ensures
            b == self@.is_selector(),
    {
        match &self.kind {
            LineKind::Directive(d) => d.is_selector(),
            _ => false,
        }
    }

    /// The indent, if any.
    pub fn indent(&self) -> (r: Option<&str>)
        ensures
            r matches Some(s) ==> self@.indent == Some(s@),
            r is None <==> self@.indent is None,
    {
        match self.decor.indent() {
            Some(i) => Some(i.as_str()),
            None => None,
        }
    }

    /// The indent, if any, as an [`Indent`].
    pub(crate) fn indent_typed(&self) -> (r: Option<&Indent>)
        ensures
            r matches Some(i) ==> self@.indent == Some(i.view()),
            r is None <==> self@.indent is None,
    {
        self.decor.indent()
    }

    /// Sets the indent.
    ///
    /// # Errors
    /// Returns [`Error::InvalidIndent`] unless `indent` is non-empty inline
    /// whitespace; the line is then unchanged.
    pub fn set_indent(&mut self, indent: &str) -> (r: Result<()>)
        ensures
            r is Ok <==> is_indent_text(indent@),
            r matches Err(e) ==> e@ == ErrorView::InvalidIndent(indent@),
            final(self)@ == (if r is Ok {
                LineView { indent: Some(indent@), ..old(self)@ }
            } else {
                old(self)@
            }),
    {
        let i = Indent::new(indent)?;
        self.decor.set_indent(i);
        Ok(())
    }

    /// Sets the indent unless there is one already.
    ///
    /// # Errors
    /// Returns [`Error::InvalidIndent`] when there is no indent yet and
    /// `indent` is not non-empty inline whitespace.
    pub fn set_indent_if_absent(&mut self, indent: &str) -> (r: Result<()>)
        ensures
            old(self)@.indent is Some ==> r is Ok && final(self)@ == old(self)@,
            old(self)@.indent is None ==> (r is Ok <==> is_indent_text(indent@)),
            r matches Err(e) ==> e@ == ErrorView::InvalidIndent(indent@) && final(self)@ == old(
                self,
            )@,
            old(self)@.indent is None && r is Ok ==> final(self)@ == (LineView {
                indent: Some(indent@),
                ..old(self)@
            }),
    {
        if self.decor.indent.is_none() {
            self.set_indent(indent)?;
        }
        Ok(())
    }

    /// Sets the indent unless there is one already.
    pub(crate) fn set_indent_if_absent_typed(&mut self, indent: Indent)
        ensures
            final(self)@ == (if old(self)@.indent is None {
                LineView { indent: Some(indent.view()), ..old(self)@ }
            } else {
                old(self)@
            }),
    {
        self.decor.set_indent_if_absent(indent);
    }

    /// The same line with indent `indent`.
    ///
    /// # Errors
    /// Returns [`Error::InvalidIndent`] unless `indent` is non-empty inline
    /// whitespace.
    pub fn with_indent(self, indent: &str) -> (r: Result<Self>)
        ensures
            r is Ok <==> is_indent_text(indent@),
            r matches Err(e) ==> e@ == ErrorView::InvalidIndent(indent@),
            r matches Ok(x) ==> x@ == (LineView { indent: Some(indent@), ..self@ }),
    {
        let mut x = self;
        x.set_indent(indent)?;
        Ok(x)
    }

    /// The line ending, if any, as text.
    pub fn ending(&self) -> (r: Option<&str>)
        ensures
            r matches Some(s) ==> self@.ending matches Some(e) && s@ == e.text(),
            r is None <==> self@.ending is None,
    {
        match self.decor.ending() {
            Some(e) => Some(e.as_str()),
            None => None,
        }
    }

    /// The line ending, if any.
    pub(crate) fn ending_typed(&self) -> (r: Option<LineEnding>)
        ensures
            r == self@.ending,
    {
        self.decor.ending()
    }

    /// Sets the line ending.
    ///
    /// # Errors
    /// Returns [`Error::InvalidLineEnding`] unless `ending` is `"\n"` or
    /// `"\r\n"`; the line is then unchanged.
    pub fn set_ending(&mut self, ending: &str) -> (r: Result<()>)
        ensures
            r is Ok <==> ending_of_text(ending@) is Some,
            r matches Err(e) ==> e@ == ErrorView::InvalidLineEnding(ending@),
            final(self)@ == (if r is Ok {
                LineView { ending: ending_of_text(ending@), ..old(self)@ }
            } else {
                old(self)@
            }),
    {
        match LineEnding::from_text(ending) {
            Some(e) => {
                self.decor.set_ending(e);
                Ok(())
            },
            None => Err(Error::InvalidLineEnding(string_from(ending))),
        }
    }

    /// Sets the line ending unless there is one already.
    ///
    /// # Errors
    /// Returns [`Error::InvalidLineEnding`] when there is no ending yet and
    /// `ending` is neither `"\n"` nor `"\r\n"`.
    pub fn set_ending_if_absent(&mut self, ending: &str) -> (r: Result<()>)
        ensures
            old(self)@.ending is Some ==> r is Ok && final(self)@ == old(self)@,
            old(self)@.ending is None ==> (r is Ok <==> ending_of_text(ending@) is Some),
            r matches Err(e) ==> e@ == ErrorView::InvalidLineEnding(ending@) && final(self)@
                == old(self)@,
            old(self)@.ending is None && r is Ok ==> final(self)@ == (LineView {
                ending: ending_of_text(ending@),
                ..old(self)@
            }),
    {
        if self.decor.ending.is_none() {
            self.set_ending(ending)?;
        }
        Ok(())
    }

    /// Sets the line ending unless there is one already.
    pub(crate) fn set_ending_if_absent_typed(&mut self, ending: LineEnding)
        ensures
            final(self)@ == (if old(self)@.ending is None {
                LineView { ending: Some(ending), ..old(self)@ }
            } else {
                old(self)@
            }),
    {
        self.decor.set_ending_if_absent(ending);
    }

    /// The same line with line ending `ending`.
    ///
    /// # Errors
    /// Returns [`Error::InvalidLineEnding`] unless `ending` is `"\n"` or
    /// `"\r\n"`.
    pub fn with_ending(self, ending: &str) -> (r: Result<Self>)
        ensures
            r is Ok <==> ending_of_text(ending@) is Some,
            r matches Err(e) ==> e@ == ErrorView::InvalidLineEnding(ending@),
            r matches Ok(x) ==> x@ == (LineView { ending: ending_of_text(ending@), ..self@ }),
    {
        let mut x = self;
        x.set_ending(ending)?;
        Ok(x)
    }

    /// The comment text, for a comment line.
    pub fn as_comment(&self) -> (r: Option<&str>)
        ensures
            r matches Some(s) ==> self@.kind == LineKindView::Comment(s@),
            r is None <==> !(self@.kind is Comment),
    {
        match &self.kind {
            LineKind::Comment(s) => Some(s.as_str()),
            _ => None,
        }
    }

    /// The directive, for a directive line.
    pub fn as_directive(&self) -> (r: Option<&Directive>)
        ensures
            r matches Some(d) ==> self@.kind == LineKindView::Directive(d@),
            r is None <==> !(self@.kind is Directive),
    {
        match &self.kind {
            LineKind::Directive(d) => Some(d),
            _ => None,
        }
    }

    /// The directive, for a directive line, with mutability.
    pub fn as_directive_mut(&mut self) -> (r: Option<&mut Directive>)
        ensures
            (old(self)@.kind is Directive) == (r is Some),
            r matches Some(d) ==> old(self)@.kind == LineKindView::Directive(d@),
            r matches Some(d) ==> final(self)@ == (LineView {
                kind: LineKindView::Directive(final(d)@),
                ..old(self)@
            }),
            r is None ==> final(self)@ == old(self)@,
    {
        match &mut self.kind {
            LineKind::Directive(d) => Some(d),
            _ => None,
        }
    }

    /// Appends the line's text to `out`.
    pub fn write_to(&self, out: &mut String)
        ensures
            final(out)@ == old(out)@ + self@.text(),
    {
        let ghost before = out@;
        self.decor.write_indent(out);
        let ghost mid = out@;
        match &self.kind {
            LineKind::Directive(d) => d.write_to(out),
            LineKind::Comment(text) => out.append(text.as_str()),
            LineKind::Blank => {
                assert(out@ + Seq::<char>::empty() =~= out@);
            },
        }
        assert(out@ == mid + self@.kind.text());
        self.decor.write_ending(out);
        assert(before + indent_text(self@.indent) + self@.kind.text() + ending_text(self@.ending)
            =~= before + self@.text());
    }

    /// The line's text: indent, content, ending.
    pub fn to_string(&self) -> (s: String)
        ensures
            s@ == self@.text(),
    {
        let mut s = String::new();
        self.write_to(&mut s);
        assert(Seq::<char>::empty() + self@.text() =~= self@.text());
        s
    }
}


/// The line holding `directive`, without indent or ending.
pub closed spec fn line_of(directive: Directive) -> Line {
    Line { decor: Decor { indent: None, ending: None }, kind: LineKind::Directive(directive) }
}

/// The line [`line_of`] a directive has that directive's view, without
/// indent or ending.
proof fn lemma_line_of(directive: Directive)
    ensures
        line_of(directive)@ == (LineView {
            indent: None,
            ending: None,
            kind: LineKindView::Directive(directive@),
        }),
{
}

impl From<Directive> for Line {
    fn from(directive: Directive) -> (l: Line) {
        Line { decor: Decor { indent: None, ending: None }, kind: LineKind::Directive(directive) }
    }
}

impl vstd::std_specs::convert::FromSpecImpl<Directive> for Line {
    open spec fn obeys_from_spec() -> bool {
        true
    }

    open spec fn from_spec(directive: Directive) -> Line {
        line_of(directive)
    }
}

/// The line ending a line-ending token stands for.
pub open spec fn ending_of_token(d: Seq<char>) -> LineEnding {
    if d == LineEnding::Crlf.text() {
        LineEnding::Crlf
    } else {
        LineEnding::Lf
    }
}

/// Whether the token at `i` is a comment.
pub open spec fn comment_at(t: Seq<SpecToken>, i: nat) -> bool {
    i < t.len() && t[i as int].kind == TokenKind::Comment
}

/// Whether a key, a separator and a value start at `i`.
pub open spec fn field_at(t: Seq<SpecToken>, i: nat) -> bool {
    i + 3 <= t.len() && t[i as int].kind == TokenKind::FieldKey
}

/// The first line of `t` and how many tokens it takes: an optional
/// whitespace token (the indent), then a comment or a key, separator and
/// value (or nothing), then an optional line ending.
pub open spec fn line_at(t: Seq<SpecToken>) -> core::result::Result<(LineView, nat), ErrorView> {
    let has_indent = t.len() > 0 && t[0].kind == TokenKind::WhiteSpace;
    let i: nat = if has_indent {
        1
    } else {
        0
    };
    let indent = if has_indent {
        Some(t[0].data)
    } else {
        None
    };
    if has_indent && !is_indent_text(t[0].data) {
        Err(ErrorView::InvalidIndent(t[0].data))
    } else {
        let kind_res: core::result::Result<LineKindView, ErrorView> = if comment_at(t, i) {
            Ok(LineKindView::Comment(t[i as int].data))
        } else if field_at(t, i) {
            match make_directive(t[i as int].data, t[(i + 1) as int].data, t[(i + 2) as int].data) {
                Ok(d) => Ok(LineKindView::Directive(d)),
                Err(e) => Err(e),
            }
        } else {
            Ok(LineKindView::Blank)
        };
        let j: nat = if comment_at(t, i) {
            i + 1
        } else if field_at(t, i) {
            i + 3
        } else {
            i
        };
        match kind_res {
            Err(e) => Err(e),
            Ok(kind) => {
                let has_end = j < t.len() && t[j as int].kind == TokenKind::LineEnding;
                let ending = if has_end {
                    Some(ending_of_token(t[j as int].data))
                } else {
                    None
                };
                let n: nat = if has_end {
                    j + 1
                } else {
                    j
                };
                Ok((LineView { indent, ending, kind }, if n == 0 {
                    1
                } else {
                    n
                }))
            },
        }
    }
}

/// The lines of a token sequence.
pub open spec fn group_lines(t: Seq<SpecToken>) -> core::result::Result<Seq<LineView>, ErrorView>
    decreases t.len(),
{
    if t.len() == 0 {
        Ok(Seq::empty())
    } else {
        match line_at(t) {
            Err(e) => Err(e),
            Ok((l, n)) => {
                if 0 < n <= t.len() {
                    match group_lines(t.skip(n as int)) {
                        Ok(ls) => Ok(seq![l] + ls),
                        Err(e) => Err(e),
                    }
                } else {
                    Err(ErrorView::EmptyKey)
                }
            },
        }
    }
}

/// The views of a sequence of lines.
pub open spec fn lines_view(v: Seq<Line>) -> Seq<LineView> {
    v.map_values(|l: Line| l@)
}

/// `p` followed by the lines of `r`, or the error of `r`.
pub open spec fn prepend_lines(p: Seq<LineView>, r: core::result::Result<Seq<LineView>, ErrorView>) -> core::result::Result<
    Seq<LineView>,
    ErrorView,
> {
    match r {
        Ok(ls) => Ok(p + ls),
        Err(e) => Err(e),
    }
}

proof fn lemma_line_at_len(t: Seq<SpecToken>)
    requires
        t.len() > 0,
    ensures
        line_at(t) matches Ok((_, n)) ==> 0 < n <= t.len(),
{
}

impl Line {
    /// Parses the line that starts at token `start`; returns it with the
    /// position of the next line's first token.
    fn parse_line(tokens: &Vec<Token>, start: usize) -> (r: Result<(Line, usize)>)
        requires
            start < tokens.len(),
        ensures
            match line_at(tokens_view(tokens@).skip(start as int)) {
                Ok((l, n)) => r matches Ok((x, next)) && x@ == l && next == start + n,
                Err(e) => r matches Err(x) && x@ == e,
            },
    {
        let ghost t = tokens_view(tokens@).skip(start as int);
        let len = tokens.len();
        assert(forall|k: int| 0 <= k < len - start ==> #[trigger] t[k] == tokens@[start + k]@);
        let mut i = start;
        let mut decor = Decor::new();
        if tokens[i].kind == TokenKind::WhiteSpace {
            let indent = Indent::new(tokens[i].data.as_str())?;
            decor.set_indent(indent);
            i = i + 1;
        }
        let kind = if i < len && tokens[i].kind == TokenKind::Comment {
            let c = tokens[i].data.clone();
            i = i + 1;
            LineKind::Comment(c)
        } else if len - i >= 3 && tokens[i].kind == TokenKind::FieldKey {
            let ghost (k, sp, v) = (tokens@[i as int].data@, tokens@[i + 1].data@, tokens@[i + 2].data@);
            let d = match Directive::new(tokens[i].data.as_str(), tokens[i + 2].data.as_str()) {
                Ok(d) => d,
                Err(e) => {
                    proof {
                        lemma_space_sep_ok();
                    }
                    assert(make_directive(k, sp, v) == make_directive(k, seq![' '], v));
                    return Err(e);
                },
            };
            let d = d.with_separator(tokens[i + 1].data.as_str())?;
            i = i + 3;
            LineKind::Directive(d)
        } else {
            LineKind::Blank
        };
        if i < len && tokens[i].kind == TokenKind::LineEnding {
            let e = match LineEnding::from_text(tokens[i].data.as_str()) {
                Some(LineEnding::Crlf) => LineEnding::Crlf,
                _ => LineEnding::Lf,
            };
            proof {
                if tokens@[i as int].data@ == LineEnding::Crlf.text() {
                    assert(e == LineEnding::Crlf);
                }
            }
            decor.set_ending(e);
            i = i + 1;
        }
        if i == start {
            i = i + 1;
        }
        Ok((Line { decor, kind }, i))
    }

    /// Parses a token sequence into lines.
    pub fn parse_lines(items: Vec<Token>) -> (r: Result<Vec<Self>>)
        ensures
            match group_lines(tokens_view(items@)) {
                Ok(ls) => r matches Ok(v) && lines_view(v@) == ls,
                Err(e) => r matches Err(x) && x@ == e,
            },
    {
        let mut lines: Vec<Line> = Vec::new();
        let mut i: usize = 0;
        let ghost all = tokens_view(items@);
        assert(all.skip(0) =~= all);
        assert(prepend_lines(Seq::empty(), group_lines(all)) == group_lines(all)) by {
            if let Ok(ls) = group_lines(all) {
                assert(Seq::<LineView>::empty() + ls =~= ls);
            }
        }
        while i < items.len()
            invariant
                i <= items.len(),
                all == tokens_view(items@),
                group_lines(all) == prepend_lines(lines_view(lines@), group_lines(all.skip(i as int))),
            decreases items.len() - i,
        {
            let ghost t = all.skip(i as int);
            proof {
                lemma_line_at_len(t);
            }
            let (line, next) = match Line::parse_line(&items, i) {
                Ok(p) => p,
                Err(e) => {
                    return Err(e);
                },
            };
            proof {
                let n = (next - i) as nat;
                assert(t.skip(n as int) =~= all.skip(next as int));
                match group_lines(t.skip(n as int)) {
                    Ok(ls) => {
                        assert(lines_view(lines@) + (seq![line@] + ls) =~= lines_view(lines@.push(line)) + ls);
                    },
                    Err(_) => {},
                }
            }
            lines.push(line);
            i = next;
        }
        proof {
            assert(all.skip(i as int).len() == 0);
            if let Ok(ls) = group_lines(all) {
                assert(lines_view(lines@) + Seq::<LineView>::empty() =~= lines_view(lines@));
            }
        }
        Ok(lines)
    }
}

/// The text of a sequence of lines, one after the other.
pub open spec fn lines_text(ls: Seq<LineView>) -> Seq<char>
    decreases ls.len(),
{
    if ls.len() == 0 {
        Seq::empty()
    } else {
        lines_text(ls.drop_last()) + ls.last().text()
    }
}

/// Putting a line first puts its text first.
proof fn lemma_lines_text_prepend(l: LineView, ls: Seq<LineView>)
    ensures
        lines_text(seq![l] + ls) == l.text() + lines_text(ls),
    decreases ls.len(),
{
    if ls.len() == 0 {
        assert(seq![l] + ls =~= seq![l]);
        assert(seq![l].drop_last() =~= Seq::<LineView>::empty());
        assert(lines_text(Seq::<LineView>::empty()) == Seq::<char>::empty());
        assert(lines_text(seq![l]) == lines_text(seq![l].drop_last()) + l.text());
        assert(Seq::<char>::empty() + l.text() =~= l.text() + Seq::<char>::empty());
    } else {
        lemma_lines_text_prepend(l, ls.drop_last());
        assert((seq![l] + ls).drop_last() =~= seq![l] + ls.drop_last());
        assert(l.text() + lines_text(ls.drop_last()) + ls.last().text() =~= l.text() + (lines_text(
            ls.drop_last(),
        ) + ls.last().text()));
    }
}

/// The text of two runs of lines, one after the other.
proof fn lemma_lines_text_append(a: Seq<LineView>, b: Seq<LineView>)
    ensures
        lines_text(a + b) == lines_text(a) + lines_text(b),
    decreases b.len(),
{
    if b.len() == 0 {
        assert(a + b =~= a);
        assert(lines_text(a) + lines_text(b) =~= lines_text(a));
    } else {
        lemma_lines_text_append(a, b.drop_last());
        assert((a + b).drop_last() =~= a + b.drop_last());
        assert(lines_text(a) + (lines_text(b.drop_last()) + b.last().text()) =~= (lines_text(a)
            + lines_text(b.drop_last())) + b.last().text());
    }
}

/// Editing one line moves only that line's bytes: the text before it and
/// the text after it stay as they were.
pub proof fn lemma_edit_one_line(ls: Seq<LineView>, i: int, l: LineView)
    requires
        0 <= i < ls.len(),
    ensures
        lines_text(ls) == lines_text(ls.take(i)) + ls[i].text() + lines_text(ls.skip(i + 1)),
        lines_text(ls.update(i, l)) == lines_text(ls.take(i)) + l.text() + lines_text(
            ls.skip(i + 1),
        ),
{
    let u = ls.update(i, l);
    assert(ls =~= ls.take(i) + seq![ls[i]] + ls.skip(i + 1));
    assert(u =~= ls.take(i) + seq![l] + ls.skip(i + 1));
    lemma_lines_text_append(ls.take(i) + seq![ls[i]], ls.skip(i + 1));
    lemma_lines_text_append(ls.take(i), seq![ls[i]]);
    lemma_lines_text_append(ls.take(i) + seq![l], ls.skip(i + 1));
    lemma_lines_text_append(ls.take(i), seq![l]);
    lemma_lines_text_prepend(ls[i], Seq::<LineView>::empty());
    lemma_lines_text_prepend(l, Seq::<LineView>::empty());
    assert(seq![ls[i]] + Seq::<LineView>::empty() =~= seq![ls[i]]);
    assert(seq![l] + Seq::<LineView>::empty() =~= seq![l]);
    assert(ls[i].text() + lines_text(Seq::<LineView>::empty()) =~= ls[i].text());
    assert(l.text() + lines_text(Seq::<LineView>::empty()) =~= l.text());
}

/// Skipping twice is skipping the sum.
proof fn lemma_skip_skip<A>(t: Seq<A>, a: int, b: int)
    requires
        0 <= a,
        0 <= b,
        a + b <= t.len(),
    ensures
        t.skip(a).skip(b) == t.skip(a + b),
{
    assert(t.skip(a).skip(b) =~= t.skip(a + b));
}

/// A token and the text after it.
proof fn lemma_tokens_text_first(t: Seq<SpecToken>, a: int)
    requires
        0 <= a < t.len(),
    ensures
        tokens_text(t.skip(a)) == t[a].data + tokens_text(t.skip(a + 1)),
{
    lemma_skip_skip(t, a, 1);
    assert(t.skip(a)[0] == t[a]);
}

/// The first line of the lexer's output writes exactly the text of the
/// tokens it takes, and leaves the lexer's shape behind.
#[verifier::spinoff_prover]
#[verifier::rlimit(40)]
proof fn lemma_line_at_text(t: Seq<SpecToken>)
    requires
        lexed_wf(t),
        t.len() > 0,
    ensures
        line_at(t) matches Ok((l, n)) ==> 0 < n <= t.len() && l.text() + tokens_text(t.skip(n as int))
            == tokens_text(t) && lexed_wf(t.skip(n as int)),
{
    if let Ok((l, n)) = line_at(t) {
        let has_indent = t[0].kind == TokenKind::WhiteSpace;
        let i: int = if has_indent {
            1
        } else {
            0
        };
        assert(t.skip(0) =~= t);
        lemma_tokens_text_first(t, 0);
        assert(tokens_text(t) == indent_text(l.indent) + tokens_text(t.skip(i)));
        assert(lexed_wf(t.skip(i)));
        let j: int = if comment_at(t, i as nat) {
            i + 1
        } else if field_at(t, i as nat) {
            i + 3
        } else {
            i
        };
        if comment_at(t, i as nat) {
            lemma_tokens_text_first(t, i);
            let u = t.skip(i);
            assert(u[0] == t[i]);
            lemma_skip_skip(t, i, 1);
        } else if field_at(t, i as nat) {
            lemma_tokens_text_first(t, i);
            lemma_tokens_text_first(t, i + 1);
            lemma_tokens_text_first(t, i + 2);
            let u = t.skip(i);
            assert(u[0] == t[i]);
            lemma_skip_skip(t, i, 3);
            assert(t[i].data + (t[i + 1].data + (t[i + 2].data + tokens_text(t.skip(i + 3))))
                =~= l.kind.text() + tokens_text(t.skip(i + 3)));
        } else {
            let u = t.skip(i);
            if u.len() > 0 {
                assert(u[0] == t[i]);
            }
        }
        assert(tokens_text(t.skip(i)) == l.kind.text() + tokens_text(t.skip(j)));
        assert(lexed_wf(t.skip(j)));
        let has_end = j < t.len() && t[j].kind == TokenKind::LineEnding;
        if has_end {
            lemma_tokens_text_first(t, j);
            let w = t.skip(j);
            assert(w[0] == t[j]);
            lemma_skip_skip(t, j, 1);
            assert(ending_text(l.ending) == t[j].data);
        } else {
            assert(ending_text(l.ending) =~= Seq::<char>::empty());
            if j == 0 {
                assert(t[0].kind != TokenKind::FieldKey);
                assert(false);
            }
        }
        let n2: int = if has_end {
            j + 1
        } else {
            j
        };
        assert(n == n2);
        assert(tokens_text(t.skip(j)) == ending_text(l.ending) + tokens_text(t.skip(n as int)));
        assert(indent_text(l.indent) + (l.kind.text() + (ending_text(l.ending) + tokens_text(
            t.skip(n as int),
        ))) =~= l.text() + tokens_text(t.skip(n as int)));
    }
}

/// Grouping the lexer's output into lines keeps every character: the lines
/// write back the tokens' text.
pub proof fn lemma_group_lines_text(t: Seq<SpecToken>)
    requires
        lexed_wf(t),
    ensures
        group_lines(t) matches Ok(ls) ==> lines_text(ls) == tokens_text(t),
    decreases t.len(),
{
    if t.len() > 0 {
        lemma_line_at_text(t);
        if let Ok((l, n)) = line_at(t) {
            lemma_group_lines_text(t.skip(n as int));
            if let Ok(rest) = group_lines(t.skip(n as int)) {
                lemma_lines_text_prepend(l, rest);
            }
        }
    }
}

} // verus!
