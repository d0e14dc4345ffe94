//! Sections: a selector line (`Host` or `Match`) and the lines below it.
use crate::decor::{Decor, Indent, LineEnding};
use crate::error::{Error, ErrorView, Result};
use crate::field_keys::{FieldKey, KeyView};
use crate::line::{
    lines_text, lines_view, Directive, DirectiveView, Line, LineKindView, LineView, Selector, SelectorView,
};
use vstd::prelude::*;

verus! {

/// The indent of the first line of `ls` that has one.
pub open spec fn first_indent(ls: Seq<LineView>) -> Option<Seq<char>>
    decreases ls.len(),
{
    if ls.len() == 0 {
        None
    } else if ls[0].indent is Some {
        ls[0].indent
    } else {
        first_indent(ls.skip(1))
    }
}

/// The ending of the first line of `ls` that has one.
pub open spec fn first_ending(ls: Seq<LineView>) -> Option<LineEnding>
    decreases ls.len(),
{
    if ls.len() == 0 {
        None
    } else if ls[0].ending is Some {
        ls[0].ending
    } else {
        first_ending(ls.skip(1))
    }
}

/// The directives among `ls`, in order.
pub open spec fn directives_of(ls: Seq<LineView>) -> Seq<DirectiveView>
    decreases ls.len(),
{
    if ls.len() == 0 {
        Seq::empty()
    } else {
        let rest = directives_of(ls.drop_last());
        match ls.last().kind {
            LineKindView::Directive(d) => rest.push(d),
            _ => rest,
        }
    }
}

/// A directive line whose key is `k`.
pub open spec fn line_has_key(l: LineView, k: KeyView) -> bool {
    l.kind matches LineKindView::Directive(d) && d.field_key() == k
}

/// The position of the first directive line of `ls`, from `i` on, whose key
/// is `k`.
pub open spec fn find_key_from(ls: Seq<LineView>, k: KeyView, i: int) -> Option<int>
    decreases ls.len() - i,
{
    if i < 0 || i >= ls.len() {
        None
    } else if line_has_key(ls[i], k) {
        Some(i)
    } else {
        find_key_from(ls, k, i + 1)
    }
}

/// What [`find_key_from`] finds is a line of key `k`, at or after `i`, with no
/// line of key `k` between `i` and it.
pub proof fn lemma_find_key_from(ls: Seq<LineView>, k: KeyView, i: int)
    requires
        0 <= i,
    ensures
        find_key_from(ls, k, i) matches Some(p) ==> i <= p < ls.len() && line_has_key(ls[p], k)
            && forall|q: int| i <= q < p ==> !line_has_key(#[trigger] ls[q], k),
        find_key_from(ls, k, i) is None ==> forall|q: int|
            i <= q < ls.len() ==> !line_has_key(#[trigger] ls[q], k),
    decreases ls.len() - i,
{
    if i < ls.len() && !line_has_key(ls[i], k) {
        lemma_find_key_from(ls, k, i + 1);
    }
}

/// The directives among `ls` whose key is `k`, in order.
pub open spec fn directives_with_key(ls: Seq<LineView>, k: KeyView) -> Seq<DirectiveView>
    decreases ls.len(),
{
    if ls.len() == 0 {
        Seq::empty()
    } else {
        let rest = directives_with_key(ls.drop_last(), k);
        if line_has_key(ls.last(), k) {
            rest.push(ls.last().kind->Directive_0)
        } else {
            rest
        }
    }
}

/// The lines of `ls` that `m` marks to keep, in order; a line past the end
/// of `m` is kept.
pub open spec fn keep_marked(ls: Seq<LineView>, m: Seq<bool>) -> Seq<LineView>
    decreases ls.len(),
{
    if ls.len() == 0 {
        Seq::empty()
    } else {
        let rest = keep_marked(ls.drop_last(), m);
        if ls.len() - 1 >= m.len() || m[ls.len() - 1] {
            rest.push(ls.last())
        } else {
            rest
        }
    }
}

/// The views of a sequence of directive references.
pub open spec fn directive_refs_view(v: Seq<&Directive>) -> Seq<DirectiveView> {
    v.map_values(|d: &Directive| d@)
}

/// Replacing a line replaces its view.
pub proof fn lemma_lines_view_update()
    ensures
        forall|v: Seq<Line>, i: int, x: Line|
            0 <= i < v.len() ==> #[trigger] lines_view(v.update(i, x)) == lines_view(v).update(i, x@),
{
    assert forall|v: Seq<Line>, i: int, x: Line| 0 <= i < v.len() implies #[trigger] lines_view(
        v.update(i, x),
    ) == lines_view(v).update(i, x@) by {
        assert(lines_view(v.update(i, x)) =~= lines_view(v).update(i, x@));
    }
}

/// How many directives stand before line `i` of `ls`.
pub open spec fn directive_rank(ls: Seq<LineView>, i: int) -> int {
    directives_of(ls.take(i)).len() as int
}

/// How many directives of key `k` stand before line `i` of `ls`.
pub open spec fn key_rank(ls: Seq<LineView>, k: KeyView, i: int) -> int {
    directives_with_key(ls.take(i), k).len() as int
}

/// A prefix holds no more directives than the whole, and fewer when the
/// line after it is a directive.
proof fn lemma_directives_prefix(ls: Seq<LineView>, i: int)
    requires
        0 <= i <= ls.len(),
    ensures
        directives_of(ls.take(i)).len() <= directives_of(ls).len(),
        i < ls.len() && ls[i].kind is Directive ==> directives_of(ls.take(i)).len() < directives_of(
            ls,
        ).len(),
    decreases ls.len() - i,
{
    if i < ls.len() {
        lemma_directives_prefix(ls, i + 1);
        assert(ls.take(i + 1).drop_last() =~= ls.take(i));
    } else {
        assert(ls.take(i) =~= ls);
    }
}

/// The directives among `ds` whose key is `k`, in order.
pub open spec fn keyed(ds: Seq<DirectiveView>, k: KeyView) -> Seq<DirectiveView>
    decreases ds.len(),
{
    if ds.len() == 0 {
        Seq::empty()
    } else if ds.last().field_key() == k {
        keyed(ds.drop_last(), k).push(ds.last())
    } else {
        keyed(ds.drop_last(), k)
    }
}

/// The directives of a prefix of the lines are a prefix of the directives.
proof fn lemma_directives_take(ls: Seq<LineView>, i: int)
    requires
        0 <= i <= ls.len(),
    ensures
        directives_of(ls).take(directive_rank(ls, i)) == directives_of(ls.take(i)),
    decreases ls.len() - i,
{
    if i == ls.len() {
        assert(ls.take(i) =~= ls);
        assert(directives_of(ls).take(directives_of(ls).len() as int) =~= directives_of(ls));
    } else {
        lemma_directives_take(ls.drop_last(), i);
        assert(ls.drop_last().take(i) =~= ls.take(i));
        lemma_directives_prefix(ls.drop_last(), i);
        let p = directives_of(ls.drop_last());
        let q = directives_of(ls);
        let n = directive_rank(ls, i);
        assert(q.take(n) =~= p.take(n));
    }
}

/// The directives of key `k` among lines are those among their directives.
proof fn lemma_keyed(ls: Seq<LineView>, k: KeyView)
    ensures
        directives_with_key(ls, k) == keyed(directives_of(ls), k),
    decreases ls.len(),
{
    if ls.len() > 0 {
        lemma_keyed(ls.drop_last(), k);
        let p = directives_of(ls.drop_last());
        if let LineKindView::Directive(d) = ls.last().kind {
            assert(directives_of(ls).drop_last() =~= p);
        }
    }
}

/// The directive of line `i` stands at its rank among the directives.
proof fn lemma_directive_at_rank(ls: Seq<LineView>, i: int)
    requires
        0 <= i < ls.len(),
        ls[i].kind is Directive,
    ensures
        directive_rank(ls, i) < directives_of(ls).len(),
        directives_of(ls)[directive_rank(ls, i)] == ls[i].kind->Directive_0,
{
    lemma_directives_take(ls, i + 1);
    lemma_directives_prefix(ls, i);
    assert(ls.take(i + 1).drop_last() =~= ls.take(i));
    assert(ls.take(i + 1).last() == ls[i]);
    let q = directives_of(ls);
    let n = directive_rank(ls, i);
    assert(q.take(n + 1)[n] == q[n]);
}

/// A longer prefix holds at least as many directives of key `k`, and one
/// more past a directive of key `k`.
proof fn lemma_keyed_prefix(ds: Seq<DirectiveView>, k: KeyView, t: int, m: int)
    requires
        0 <= t < m <= ds.len(),
    ensures
        keyed(ds.take(t), k).len() <= keyed(ds.take(m), k).len(),
        ds[t].field_key() == k ==> keyed(ds.take(t), k).len() < keyed(ds.take(m), k).len(),
    decreases m - t,
{
    assert(ds.take(t + 1).drop_last() =~= ds.take(t));
    if t + 1 < m {
        lemma_keyed_prefix(ds, k, t + 1, m);
    }
}

/// The directives of `ls`, each with mutability, in order.
fn directives_in<'a>(ls: &'a mut [Line]) -> (r: Vec<&'a mut Directive>)
    ensures
        r@.len() == directives_of(lines_view(old(ls)@)).len(),
        forall|j: int| 0 <= j < r@.len() ==> (*r@[j])@ == directives_of(lines_view(old(ls)@))[j],
        final(ls)@.len() == old(ls)@.len(),
        forall|i: int|
            0 <= i < old(ls)@.len() ==> (#[trigger] final(ls)@[i])@ == match old(ls)@[i]@.kind {
                LineKindView::Directive(_) => LineView {
                    kind: LineKindView::Directive(
                        (*final(r@[directive_rank(lines_view(old(ls)@), i)]))@,
                    ),
                    ..old(ls)@[i]@
                },
                _ => old(ls)@[i]@,
            },
    decreases old(ls)@.len(),
{
    let n = ls.len();
    if n == 0 {
        return Vec::new();
    }
    let ghost o = lines_view(ls@);
    let (init, last) = ls.split_at_mut(n - 1);
    proof {
        let iv = lines_view(init@);
        assert(o.drop_last() =~= iv);
        assert(o.last() == last@[0]@);
        assert forall|i: int| 0 <= i < n - 1 implies directive_rank(o, i) == directive_rank(iv, i) by {
            assert(o.take(i) =~= iv.take(i));
        }
        assert(o.take(n - 1) =~= iv);
        assert forall|i: int| 0 <= i < n - 1 implies (iv[i].kind is Directive ==> directive_rank(iv, i)
            < directives_of(iv).len()) by {
            lemma_directives_prefix(iv, i);
        }
    }
    let mut r = directives_in(init);
    let l = last.first_mut().unwrap();
    match l.as_directive_mut() {
        Some(d) => {
            r.push(d);
        },
        None => {},
    }
    r
}

/// The mathematical value of a [`Section`].
pub struct SectionView {
    pub header: SelectorView,
    pub body: Seq<LineView>,
    pub default_indent: Option<Seq<char>>,
    pub default_ending: Option<LineEnding>,
}

impl SectionView {
    /// What the section writes: its header, then its lines.
    pub open spec fn text(self) -> Seq<char> {
        self.header.text() + lines_text(self.body)
    }

    /// The indent of the header, or else of the first line that has one.
    pub open spec fn indent(self) -> Option<Seq<char>> {
        if self.header.indent is Some {
            self.header.indent
        } else {
            first_indent(self.body)
        }
    }

    /// The ending of the header, or else of the first line that has one.
    pub open spec fn ending(self) -> Option<LineEnding> {
        if self.header.ending is Some {
            self.header.ending
        } else {
            first_ending(self.body)
        }
    }

    /// The ending given to new lines: the section's own, else the default
    /// ending, else a line feed.
    pub open spec fn inferred_ending(self) -> LineEnding {
        match self.ending() {
            Some(e) => e,
            None => match self.default_ending {
                Some(e) => e,
                None => LineEnding::Lf,
            },
        }
    }

    /// The indent given to new lines: the section's own, else the default
    /// indent, else a tab.
    pub open spec fn inferred_indent(self) -> Seq<char> {
        match self.indent() {
            Some(i) => i,
            None => match self.default_indent {
                Some(i) => i,
                None => Indent::default_text(),
            },
        }
    }

    /// The section with `ending` given to its header and last line where they
    /// have none.
    pub open spec fn terminated(self, ending: LineEnding) -> SectionView {
        SectionView {
            header: if self.header.ending is None {
                SelectorView { ending: Some(ending), ..self.header }
            } else {
                self.header
            },
            body: if self.body.len() > 0 && self.body.last().ending is None {
                self.body.update(
                    self.body.len() - 1,
                    LineView { ending: Some(ending), ..self.body.last() },
                )
            } else {
                self.body
            },
            ..self
        }
    }

    /// `l` as [`Section::insert`] places it: with the inferred indent unless
    /// it is blank or has one, and the inferred ending unless it has one.
    pub open spec fn decorate(self, l: LineView) -> LineView {
        LineView {
            indent: if l.kind is Blank || l.indent is Some {
                l.indent
            } else {
                Some(self.inferred_indent())
            },
            ending: if l.ending is Some {
                l.ending
            } else {
                Some(self.inferred_ending())
            },
            kind: l.kind,
        }
    }

    /// The section with `ending` given to the line before position `index`
    /// of the body where it has none: the header for `index == 0`, else the
    /// line at `index - 1`.
    pub open spec fn terminated_before(self, index: int, ending: LineEnding) -> SectionView {
        if index == 0 {
            SectionView {
                header: if self.header.ending is None {
                    SelectorView { ending: Some(ending), ..self.header }
                } else {
                    self.header
                },
                ..self
            }
        } else if self.body[index - 1].ending is None {
            SectionView {
                body: self.body.update(
                    index - 1,
                    LineView { ending: Some(ending), ..self.body[index - 1] },
                ),
                ..self
            }
        } else {
            self
        }
    }

    /// The section after [`Section::insert`] of `l` at `index`.
    pub open spec fn inserted(self, index: int, l: LineView) -> SectionView {
        let t = self.terminated_before(index, self.inferred_ending());
        SectionView { body: t.body.insert(index, self.decorate(l)), ..t }
    }

    /// The directives of the section's body.
    pub open spec fn directives(self) -> Seq<DirectiveView> {
        directives_of(self.body)
    }
}

/// The section a selector line opens, with no lines yet.
pub open spec fn section_of(l: LineView) -> SectionView {
    SectionView {
        header: SelectorView {
            indent: l.indent,
            ending: l.ending,
            key: l.kind->Directive_0.key,
            sep: l.kind->Directive_0.sep,
            value: l.kind->Directive_0.value,
        },
        body: Seq::empty(),
        default_indent: None,
        default_ending: None,
    }
}

/// One step of splitting a document into preamble and sections: a selector
/// line opens a section; any other line joins the last section, or the
/// preamble before the first selector.
pub open spec fn split_step(acc: (Seq<LineView>, Seq<SectionView>), l: LineView) -> (
    Seq<LineView>,
    Seq<SectionView>,
) {
    if l.is_selector() {
        (acc.0, acc.1.push(section_of(l)))
    } else if acc.1.len() == 0 {
        (acc.0.push(l), acc.1)
    } else {
        (
            acc.0,
            acc.1.update(
                acc.1.len() - 1,
                SectionView { body: acc.1.last().body.push(l), ..acc.1.last() },
            ),
        )
    }
}

/// The preamble and the sections of a sequence of lines.
pub open spec fn split_lines(ls: Seq<LineView>) -> (Seq<LineView>, Seq<SectionView>)
    decreases ls.len(),
{
    if ls.len() == 0 {
        (Seq::empty(), Seq::empty())
    } else {
        split_step(split_lines(ls.drop_last()), ls.last())
    }
}

/// A freshly read section, given as defaults the indent and ending it infers.
pub open spec fn with_defaults(s: SectionView) -> SectionView {
    SectionView {
        default_indent: Some(s.inferred_indent()),
        default_ending: Some(s.inferred_ending()),
        ..s
    }
}

/// The views of a sequence of sections.
pub open spec fn sections_view(v: Seq<Section>) -> Seq<SectionView> {
    v.map_values(|s: Section| s@)
}

/// The preamble and the sections that [`Section::parse_sections`] makes of
/// `ls`.
pub open spec fn parsed_sections(ls: Seq<LineView>) -> (Seq<LineView>, Seq<SectionView>) {
    let (p, ss) = split_lines(ls);
    (p, ss.map_values(|s: SectionView| with_defaults(s)))
}

/// A selector and the lines below it, up to the next selector.
pub struct Section {
    header: Selector,
    body: Vec<Line>,
    default_decor: Decor,
}

impl View for Section {
    type V = SectionView;

    closed spec fn view(&self) -> SectionView {
        SectionView {
            header: self.header@,
            body: lines_view(self.body@),
            default_indent: self.default_decor.indent_view(),
            default_ending: self.default_decor.ending,
        }
    }
}

/// # Errors
/// Returns [`Error::UnexpectedSelector`], with the line's text, if `line` is
/// a `Host` or `Match` directive.
fn valid_newline(line: &Line) -> (r: Result<()>)
    ensures
        r is Ok <==> !line@.is_selector(),
        r matches Err(e) ==> e@ == ErrorView::UnexpectedSelector(line@.text()),
{
    if line.is_selector_line() {
        return Err(Error::UnexpectedSelector(line.to_string()));
    }
    Ok(())
}

impl Section {
    /// A section holding only `header`.
    pub fn new(header: Selector) -> (s: Self)
        ensures
            s@ == (SectionView {
                header: header@,
                body: Seq::empty(),
                default_indent: None,
                default_ending: None,
            }),
    {
        let s = Self { header, body: Vec::new(), default_decor: Decor::new() };
        assert(lines_view(s.body@) =~= Seq::<LineView>::empty());
        s
    }

    /// Set default indent.
    ///
    /// The default is a fallback used only when the section has
    /// no line to infer from, it never rewrites existing lines.
    pub fn set_default_indent(&mut self, indent: Indent)
        ensures
            final(self)@ == (SectionView { default_indent: Some(indent.view()), ..old(self)@ }),
    {
        self.default_decor.set_indent(indent)
    }

    /// Returns `Self` with the default indent set to `indent`.
    pub fn with_indent(self, indent: Indent) -> (s: Self)
        ensures
            s@ == (SectionView { default_indent: Some(indent.view()), ..self@ }),
    {
        let mut s = self;
        s.set_default_indent(indent);
        s
    }

    /// Set default ending.
    ///
    /// The default is a fallback used only when the section has
    /// no line to infer from, it never rewrites existing lines.
    pub fn set_default_ending(&mut self, ending: LineEnding)
        ensures
            final(self)@ == (SectionView { default_ending: Some(ending), ..old(self)@ }),
    {
        self.default_decor.set_ending(ending)
    }

    /// Returns `Self` with the default ending set to `ending`.
    pub fn with_ending(self, ending: LineEnding) -> (s: Self)
        ensures
            s@ == (SectionView { default_ending: Some(ending), ..self@ }),
    {
        let mut s = self;
        s.set_default_ending(ending);
        s
    }

    /// Returns the current header as a [`Selector`].
    pub fn header(&self) -> (h: &Selector)
        ensures
            h@ == self@.header,
    {
        &self.header
    }

    /// Returns all [`Line`]s in order.
    pub fn lines(&self) -> (r: &[Line])
        ensures
            lines_view(r@) == self@.body,
    {
        self.body.as_slice()
    }

    /// Returns the [`Line`] count.
    pub fn line_count(&self) -> (n: usize)
        ensures
            n == self@.body.len(),
    {
        self.body.len()
    }

    /// Returns the [`Line`] at `index`.
    pub fn line(&self, index: usize) -> (l: &Line)
        requires
            index < self@.body.len(),
        ensures
            l@ == self@.body[index as int],
    {
        &self.body[index]
    }

    /// The indent of the header, or else of the first line that has one.
    pub fn indent(&self) -> (r: Option<&Indent>)
        ensures
            r matches Some(i) ==> self@.indent() == Some(i.view()),
            r is None <==> self@.indent() is None,
    {
        if let Some(i) = self.header.indent_typed() {
            return Some(i);
        }
        let mut k: usize = 0;
        assert(lines_view(self.body@).skip(0) =~= lines_view(self.body@));
        while k < self.body.len()
            invariant
                k <= self.body.len(),
                self@.header.indent is None,
                first_indent(lines_view(self.body@)) == first_indent(
                    lines_view(self.body@).skip(k as int),
                ),
            decreases self.body.len() - k,
        {
            let ghost rest = lines_view(self.body@).skip(k as int);
            assert(rest[0] == self.body@[k as int]@);
            if let Some(i) = self.body[k].indent_typed() {
                return Some(i);
            }
            assert(rest.skip(1) =~= lines_view(self.body@).skip(k + 1));
            k = k + 1;
        }
        None
    }

    /// The ending of the header, or else of the first line that has one.
    pub fn ending(&self) -> (r: Option<LineEnding>)
        ensures
            r == self@.ending(),
    {
        if let Some(e) = self.header.ending_typed() {
            return Some(e);
        }
        let mut k: usize = 0;
        assert(lines_view(self.body@).skip(0) =~= lines_view(self.body@));
        while k < self.body.len()
            invariant
                k <= self.body.len(),
                self@.header.ending is None,
                first_ending(lines_view(self.body@)) == first_ending(
                    lines_view(self.body@).skip(k as int),
                ),
            decreases self.body.len() - k,
        {
            let ghost rest = lines_view(self.body@).skip(k as int);
            assert(rest[0] == self.body@[k as int]@);
            if let Some(e) = self.body[k].ending_typed() {
                return Some(e);
            }
            assert(rest.skip(1) =~= lines_view(self.body@).skip(k + 1));
            k = k + 1;
        }
        None
    }

    /// The ending given to new lines.
    pub(crate) fn infer_line_ending(&self) -> (e: LineEnding)
        ensures
            e == self@.inferred_ending(),
    {
        match self.ending() {
            Some(e) => e,
            None => match self.default_decor.ending() {
                Some(e) => e,
                None => LineEnding::default(),
            },
        }
    }

    /// The indent given to new lines.
    pub(crate) fn infer_line_indent(&self) -> (i: Indent)
        ensures
            i.view() == self@.inferred_indent(),
    {
        match self.indent() {
            Some(i) => i.duplicate(),
            None => match self.default_decor.indent() {
                Some(i) => i.duplicate(),
                None => Indent::default(),
            },
        }
    }

    /// Gives `ending` to the header and the last line where they have none.
    pub(crate) fn terminate(&mut self, ending: LineEnding)
        ensures
            final(self)@ == old(self)@.terminated(ending),
    {
        self.header.set_ending_if_absent_typed(ending);
        let n = self.body.len();
        if n > 0 {
            let mut last = self.body.remove(n - 1);
            last.set_ending_if_absent_typed(ending);
            self.body.push(last);
        }
        assert(lines_view(self.body@) =~= old(self)@.terminated(ending).body);
    }

    /// Insert `line` at `index` and add a line terminator to the previous header/line if none is set.
    ///
    /// # Errors
    /// Returns [`Error::UnexpectedSelector`] if `line` is a `Host` or `Match`
    /// directive; the section is then unchanged.
    pub fn insert(&mut self, index: usize, line: Line) -> (r: Result<()>)
        requires
            index <= old(self)@.body.len(),
        ensures
            r is Ok <==> !line@.is_selector(),
            r matches Err(e) ==> e@ == ErrorView::UnexpectedSelector(line@.text()),
            final(self)@ == (if r is Ok {
                old(self)@.inserted(index as int, line@)
            } else {
                old(self)@
            }),
    {
        let ghost l0 = line@;
        valid_newline(&line)?;
        let line_ending = self.infer_line_ending();
        let line_indent = self.infer_line_indent();

        if index == 0 {
            self.header.set_ending_if_absent_typed(line_ending);
        } else {
            proof {
                lemma_lines_view_update();
            }
            self.body[index - 1].set_ending_if_absent_typed(line_ending);
        }
        let ghost tb = lines_view(self.body@);
        assert(tb =~= old(self)@.terminated_before(index as int, line_ending).body);

        let mut line = line;
        // avoid useless indent on newly created blank lines
        if !line.is_blank() {
            line.set_indent_if_absent_typed(line_indent);
        }
        line.set_ending_if_absent_typed(line_ending);
        assert(line@ == old(self)@.decorate(l0));

        self.body.insert(index, line);
        assert(lines_view(self.body@) =~= tb.insert(index as int, line@));
        Ok(())
    }

    /// Returns the current header as a mutable [`Selector`].
    pub fn header_mut(&mut self) -> (h: &mut Selector)
        ensures
            h@ == old(self)@.header,
            final(self)@ == (SectionView { header: final(h)@, ..old(self)@ }),
    {
        &mut self.header
    }

    /// Returns the [`Line`] at `index` with mutability.
    pub fn line_mut(&mut self, index: usize) -> (l: &mut Line)
        requires
            index < old(self)@.body.len(),
        ensures
            l@ == old(self)@.body[index as int],
            final(self)@ == (SectionView {
                body: old(self)@.body.update(index as int, final(l)@),
                ..old(self)@
            }),
    {
        proof {
            lemma_lines_view_update();
        }
        let l = &mut self.body[index];
        l
    }

    /// Returns all [`Line`]s, in order, with mutability.
    pub fn lines_mut(&mut self) -> (r: &mut [Line])
        ensures
            lines_view(r@) == old(self)@.body,
            final(self)@ == (SectionView { body: lines_view(final(r)@), ..old(self)@ }),
    {
        self.body.as_mut_slice()
    }

    /// Returns all [`Directive`]s, in order.
    pub fn directives(&self) -> (r: Vec<&Directive>)
        ensures
            directive_refs_view(r@) == self@.directives(),
    {
        let mut r: Vec<&Directive> = Vec::new();
        let mut k: usize = 0;
        while k < self.body.len()
            invariant
                k <= self.body.len(),
                directive_refs_view(r@) == directives_of(lines_view(self.body@).take(k as int)),
            decreases self.body.len() - k,
        {
            let ghost ls = lines_view(self.body@);
            assert(ls.take(k + 1).drop_last() =~= ls.take(k as int));
            if let Some(d) = self.body[k].as_directive() {
                r.push(d);
            }
            assert(directive_refs_view(r@) =~= directives_of(ls.take(k + 1)));
            k = k + 1;
        }
        assert(lines_view(self.body@).take(k as int) =~= lines_view(self.body@));
        r
    }

    /// Returns all [`Directive`]s, in order, with mutability.
    pub fn directives_mut(&mut self) -> (r: Vec<&mut Directive>)
        ensures
            r@.len() == old(self)@.directives().len(),
            forall|j: int| 0 <= j < r@.len() ==> (*r@[j])@ == old(self)@.directives()[j],
            final(self)@.header == old(self)@.header,
            final(self)@.default_indent == old(self)@.default_indent,
            final(self)@.default_ending == old(self)@.default_ending,
            final(self)@.body.len() == old(self)@.body.len(),
            forall|i: int|
                0 <= i < old(self)@.body.len() ==> #[trigger] final(self)@.body[i] == match old(
                    self,
                )@.body[i].kind {
                    LineKindView::Directive(_) => LineView {
                        kind: LineKindView::Directive(
                            (*final(r@[directive_rank(old(self)@.body, i)]))@,
                        ),
                        ..old(self)@.body[i]
                    },
                    _ => old(self)@.body[i],
                },
    {
        directives_in(self.body.as_mut_slice())
    }

    /// Returns all [`Directive`]s matching `key`, in order, with mutability.
    pub fn get_all_mut(&mut self, key: &FieldKey) -> (r: Vec<&mut Directive>)
        ensures
            r@.len() == directives_with_key(old(self)@.body, key@).len(),
            forall|j: int|
                0 <= j < r@.len() ==> (*r@[j])@ == directives_with_key(old(self)@.body, key@)[j],
            final(self)@.header == old(self)@.header,
            final(self)@.default_indent == old(self)@.default_indent,
            final(self)@.default_ending == old(self)@.default_ending,
            final(self)@.body.len() == old(self)@.body.len(),
            forall|i: int|
                0 <= i < old(self)@.body.len() ==> #[trigger] final(self)@.body[i] == if line_has_key(
                    old(self)@.body[i],
                    key@,
                ) {
                    LineView {
                        kind: LineKindView::Directive(
                            (*final(r@[key_rank(old(self)@.body, key@, i)]))@,
                        ),
                        ..old(self)@.body[i]
                    }
                } else {
                    old(self)@.body[i]
                },
    {
        let ghost b = self@.body;
        let ghost ds = directives_of(b);
        let all = self.directives_mut();
        let ghost av = all@;
        let mut r: Vec<&mut Directive> = Vec::new();
        let mut m: usize = 0;
        assert(keyed(ds.take(0), key@) =~= Seq::<DirectiveView>::empty());
        assert(av.len() == all.len());
        for d in it: all.into_iter()
            invariant
                it.seq() == av,
                m == it.index(),
                m <= av.len() <= usize::MAX,
                av.len() == ds.len(),
                forall|j: int| 0 <= j < av.len() ==> (*av[j])@ == ds[j],
                r@.len() == keyed(ds.take(m as int), key@).len(),
                forall|j: int| 0 <= j < r@.len() ==> (*r@[j])@ == keyed(ds.take(m as int), key@)[j],
                forall|t: int|
                    0 <= t < m && ds[t].field_key() == key@ ==> *final(r@[keyed(ds.take(t), key@).len() as int])
                        == *final(#[trigger] av[t]),
                forall|t: int|
                    0 <= t < m && ds[t].field_key() != key@ ==> *final(#[trigger] av[t]) == *av[t],
        {
            assert(ds.take(m + 1).drop_last() =~= ds.take(m as int));
            assert(ds.take(m + 1).last() == ds[m as int]);
            proof {
                assert forall|t: int| 0 <= t < m && ds[t].field_key() == key@ implies keyed(
                    ds.take(t),
                    key@,
                ).len() < keyed(ds.take(m as int), key@).len() by {
                    lemma_keyed_prefix(ds, key@, t, m as int);
                }
            }
            assert(d == av[m as int]);
            let ghost r0 = r@;
            if d.field_key().same_key(key) {
                r.push(d);
                assert(*final(r@[r0.len() as int]) == *final(av[m as int]));
                assert forall|t: int| 0 <= t < m && ds[t].field_key() == key@ implies *final(r@[keyed(ds.take(t), key@).len() as int])
                    == *final(#[trigger] av[t]) by {
                    lemma_keyed_prefix(ds, key@, t, m as int);
                    assert(r@[keyed(ds.take(t), key@).len() as int] == r0[keyed(ds.take(t), key@).len() as int]);
                }
            }
            m = m + 1;
        }
        proof {
            lemma_keyed(b, key@);
            assert(ds.take(ds.len() as int) =~= ds);
            assert forall|i: int| 0 <= i < b.len() && b[i].kind is Directive implies {
                &&& directive_rank(b, i) < ds.len()
                &&& ds[directive_rank(b, i)] == b[i].kind->Directive_0
                &&& keyed(ds.take(directive_rank(b, i)), key@).len() == key_rank(b, key@, i)
            } by {
                lemma_directive_at_rank(b, i);
                lemma_directives_take(b, i);
                lemma_keyed(b.take(i), key@);
            }
        }
        r
    }

    /// The position of the first directive line whose key is `key`.
    fn position_of(&self, key: &FieldKey) -> (r: Option<usize>)
        ensures
            r matches Some(i) ==> find_key_from(self@.body, key@, 0) == Some(i as int) && i
                < self@.body.len() && line_has_key(self@.body[i as int], key@),
            r is None ==> find_key_from(self@.body, key@, 0) is None,
    {
        let mut k: usize = 0;
        while k < self.body.len()
            invariant
                k <= self.body.len(),
                find_key_from(self@.body, key@, 0) == find_key_from(self@.body, key@, k as int),
            decreases self.body.len() - k,
        {
            assert(self@.body[k as int] == self.body@[k as int]@);
            if let Some(d) = self.body[k].as_directive() {
                if d.field_key().same_key(key) {
                    return Some(k);
                }
            }
            k = k + 1;
        }
        None
    }

    /// Returns the first [`Directive`] matching `key`.
    pub fn get_one(&self, key: &FieldKey) -> (r: Option<&Directive>)
        ensures
            match find_key_from(self@.body, key@, 0) {
                Some(i) => r matches Some(d) && self@.body[i].kind == LineKindView::Directive(d@),
                None => r is None,
            },
    {
        match self.position_of(key) {
            Some(i) => {
                assert(self@.body[i as int] == self.body@[i as int]@);
                self.body[i].as_directive()
            },
            None => None,
        }
    }

    /// Returns the first [`Directive`] matching `key` with mutability.
    pub fn get_one_mut(&mut self, key: &FieldKey) -> (r: Option<&mut Directive>)
        ensures
            match find_key_from(old(self)@.body, key@, 0) {
                Some(i) => r matches Some(d) && old(self)@.body[i].kind == LineKindView::Directive(
                    d@,
                ) && final(self)@ == (SectionView {
                    body: old(self)@.body.update(
                        i,
                        LineView { kind: LineKindView::Directive(final(d)@), ..old(self)@.body[i] },
                    ),
                    ..old(self)@
                }),
                None => r is None && final(self)@ == old(self)@,
            },
    {
        match self.position_of(key) {
            Some(i) => {
                proof {
                    lemma_lines_view_update();
                }
                assert(old(self)@.body[i as int] == self.body@[i as int]@);
                self.body[i].as_directive_mut()
            },
            None => None,
        }
    }

    /// Returns all [`Directive`]s matching `key`, in order.
    pub fn get_all(&self, key: &FieldKey) -> (r: Vec<&Directive>)
        ensures
            directive_refs_view(r@) == directives_with_key(self@.body, key@),
    {
        let r = self.get_all_before(self.body.len(), key);
        assert(self@.body.take(self@.body.len() as int) =~= self@.body);
        r
    }

    /// The [`Directive`]s matching `key` among the first `n` lines, in order.
    pub(crate) fn get_all_before(&self, n: usize, key: &FieldKey) -> (r: Vec<&Directive>)
        requires
            n <= self@.body.len(),
        ensures
            directive_refs_view(r@) == directives_with_key(self@.body.take(n as int), key@),
    {
        let mut r: Vec<&Directive> = Vec::new();
        let mut k: usize = 0;
        while k < n
            invariant
                k <= n,
                n <= self.body.len(),
                directive_refs_view(r@) == directives_with_key(
                    lines_view(self.body@).take(k as int),
                    key@,
                ),
            decreases self.body.len() - k,
        {
            let ghost ls = lines_view(self.body@);
            assert(ls.take(k + 1).drop_last() =~= ls.take(k as int));
            assert(ls.take(k + 1).last() == self.body@[k as int]@);
            if let Some(d) = self.body[k].as_directive() {
                if d.field_key().same_key(key) {
                    r.push(d);
                }
            }
            assert(directive_refs_view(r@) =~= directives_with_key(ls.take(k + 1), key@));
            k = k + 1;
        }
        r
    }

    /// Append `line` and add a line terminator to the previous header/line if none is set.
    ///
    /// # Errors
    /// Returns [`Error::UnexpectedSelector`] if `line` is a `Host` or `Match`
    /// directive; the section is then unchanged.
    pub fn push(&mut self, line: Line) -> (r: Result<()>)
        ensures
            r is Ok <==> !line@.is_selector(),
            r matches Err(e) ==> e@ == ErrorView::UnexpectedSelector(line@.text()),
            final(self)@ == (if r is Ok {
                old(self)@.inserted(old(self)@.body.len() as int, line@)
            } else {
                old(self)@
            }),
    {
        let n = self.line_count();
        self.insert(n, line)
    }

    /// Remove the [`Line`] at `index`.
    pub fn remove(&mut self, index: usize) -> (l: Line)
        requires
            index < old(self)@.body.len(),
        ensures
            l@ == old(self)@.body[index as int],
            final(self)@ == (SectionView { body: old(self)@.body.remove(index as int), ..old(self)@ }),
    {
        let l = self.body.remove(index);
        assert(lines_view(self.body@) =~= old(self)@.body.remove(index as int));
        l
    }

    /// Keeps the lines that `mask` marks, in order; a line past the end of
    /// `mask` is kept.
    pub(crate) fn keep_lines(&mut self, mask: &Vec<bool>)
        ensures
            final(self)@ == (SectionView { body: keep_marked(old(self)@.body, mask@), ..old(self)@ }),
    {
        let mut all: Vec<Line> = Vec::new();
        std::mem::swap(&mut all, &mut self.body);
        let ghost ls = lines_view(all@);
        assert(ls.len() == all.len());
        let mut kept: Vec<Line> = Vec::new();
        let mut i: usize = 0;
        for l in it: all.into_iter()
            invariant
                ls == lines_view(it.seq()),
                i == it.index(),
                i <= ls.len() <= usize::MAX,
                lines_view(kept@) == keep_marked(ls.take(i as int), mask@),
        {
            assert(ls.take(i + 1).drop_last() =~= ls.take(i as int));
            assert(ls.take(i + 1).last() == l@);
            if i >= mask.len() || mask[i] {
                kept.push(l);
            }
            assert(lines_view(kept@) =~= keep_marked(ls.take(i + 1), mask@));
            i = i + 1;
        }
        assert(ls.take(ls.len() as int) =~= ls);
        self.body = kept;
    }

    /// The lines, as they are held.
    pub closed spec fn line_values(&self) -> Seq<Line> {
        self.body@
    }

    /// The lines as held are the lines of the section's view.
    pub proof fn lemma_line_values(&self)
        ensures
            lines_view(self.line_values()) == self@.body,
    {
    }

    /// Retains only the elements specified by the predicate.
    ///
    /// In other words, remove all elements `e` for which `f(&e)` returns false.
    /// This method operates in place, visiting each element exactly once, in
    /// order, and keeps the order of the retained elements.
    pub fn retain<F: Fn(&Line) -> bool>(&mut self, f: F)
        requires
            forall|l: &Line| #[trigger] f.requires((l,)),
        ensures
            exists|m: Seq<bool>|
                {
                    &&& m.len() == old(self).line_values().len()
                    &&& forall|i: int|
                        0 <= i < m.len() ==> f.ensures((&old(self).line_values()[i],), #[trigger] m[i])
                    &&& final(self)@ == (SectionView {
                        body: #[trigger] keep_marked(old(self)@.body, m),
                        ..old(self)@
                    })
                },
    {
        let mut mask: Vec<bool> = Vec::new();
        let mut i: usize = 0;
        while i < self.body.len()
            invariant
                i <= self.body.len(),
                self.body@ == old(self).line_values(),
                mask@.len() == i,
                forall|l: &Line| #[trigger] f.requires((l,)),
                forall|j: int| 0 <= j < i ==> f.ensures((&self.body@[j],), #[trigger] mask@[j]),
            decreases self.body.len() - i,
        {
            let keep = f(&self.body[i]);
            mask.push(keep);
            i = i + 1;
        }
        let ghost m = mask@;
        self.keep_lines(&mask);
        assert(m.len() == old(self).line_values().len());
    }

    /// Appends the section's text to `out`.
    pub fn write_to(&self, out: &mut String)
        ensures
            final(out)@ == old(out)@ + self@.text(),
    {
        let ghost start = out@;
        self.header.write_to(out);
        let mut k: usize = 0;
        while k < self.body.len()
            invariant
                k <= self.body.len(),
                out@ == start + self@.header.text() + lines_text(lines_view(self.body@).take(k as int)),
            decreases self.body.len() - k,
        {
            let ghost ls = lines_view(self.body@);
            assert(ls.take(k + 1).drop_last() =~= ls.take(k as int));
            self.body[k].write_to(out);
            k = k + 1;
        }
        assert(lines_view(self.body@).take(k as int) =~= lines_view(self.body@));
        assert(start + self@.header.text() + lines_text(self@.body) =~= start + self@.text());
    }

    /// The section's text: its header, then its lines.
    pub fn to_string(&self) -> (s: String)
        ensures
            s@ == self@.text(),
    {
        let mut s = String::new();
        self.write_to(&mut s);
        assert(Seq::<char>::empty() + self@.text() =~= self@.text());
        s
    }

    /// Sets the defaults of a freshly read section to what it infers.
    fn finish(self) -> (s: Section)
        ensures
            s@ == with_defaults(self@),
    {
        let mut s = self;
        let indent = s.infer_line_indent();
        s.set_default_indent(indent);
        let ending = s.infer_line_ending();
        s.set_default_ending(ending);
        s
    }

    /// Splits lines into the preamble (the lines before the first selector)
    /// and the sections.
    pub fn parse_sections(lines: Vec<Line>) -> (r: Result<(Vec<Line>, Vec<Section>)>)
        ensures
            r matches Ok((p, ss)) && (lines_view(p@), sections_view(ss@)) == parsed_sections(
                lines_view(lines@),
            ),
    {
        let ghost all = lines_view(lines@);
        let mut preamble: Vec<Line> = Vec::new();
        let mut sections: Vec<Section> = Vec::new();
        let mut cur: Option<Section> = None;
        for line in it: lines.into_iter()
            invariant
                all == lines_view(it.seq()),
                ({
                    let sp = split_lines(all.take(it.index() as int));
                    &&& lines_view(preamble@) == sp.0
                    &&& (cur is None <==> sp.1.len() == 0)
                    &&& sp.1.len() == sections.len() + if cur is Some { 1int } else { 0 }
                    &&& forall|j: int|
                        0 <= j < sections.len() ==> (#[trigger] sections@[j])@ == with_defaults(
                            sp.1[j],
                        )
                    &&& cur matches Some(c) ==> c@ == sp.1.last()
                }),
        {
            let ghost k = it.index() as int;
            let ghost before = split_lines(all.take(k));
            assert(all.take(k + 1).drop_last() =~= all.take(k));
            assert(all.take(k + 1).last() == line@);
            if line.is_selector_line() {
                let sel = match Selector::try_from_line(line) {
                    Ok(s) => s,
                    Err(_) => {
                        assert(false);
                        return Ok((preamble, sections));
                    },
                };
                if let Some(c) = cur {
                    sections.push(c.finish());
                }
                cur = Some(Section::new(sel));
            } else {
                match &mut cur {
                    Some(c) => {
                        let ghost old_c = c@;
                        let ghost old_body = c.body@;
                        let ghost lv = line@;
                        c.body.push(line);
                        assert(lines_view(c.body@) =~= lines_view(old_body).push(lv));
                        assert(c@ == (SectionView { body: old_c.body.push(lv), ..old_c }));
                    },
                    None => {
                        preamble.push(line);
                        assert(lines_view(preamble@) =~= before.0.push(line@));
                    },
                }
            }
        }
        if let Some(c) = cur {
            sections.push(c.finish());
        }
        let ghost sp = split_lines(all);
        assert(all.take(all.len() as int) =~= all);
        assert(sections_view(sections@) =~= sp.1.map_values(|s: SectionView| with_defaults(s)));
        Ok((preamble, sections))
    }
}


/// The text of a sequence of sections, one after the other.
pub open spec fn sections_text(ss: Seq<SectionView>) -> Seq<char>
    decreases ss.len(),
{
    if ss.len() == 0 {
        Seq::empty()
    } else {
        sections_text(ss.drop_last()) + ss.last().text()
    }
}

/// Giving sections their defaults does not change what they write.
proof fn lemma_defaults_text(ss: Seq<SectionView>)
    ensures
        sections_text(ss.map_values(|s: SectionView| with_defaults(s))) == sections_text(ss),
    decreases ss.len(),
{
    if ss.len() > 0 {
        lemma_defaults_text(ss.drop_last());
        assert(ss.map_values(|s: SectionView| with_defaults(s)).drop_last() =~= ss.drop_last().map_values(
            |s: SectionView| with_defaults(s),
        ));
    }
}

/// Splitting lines into preamble and sections keeps every character.
proof fn lemma_split_text(ls: Seq<LineView>)
    ensures
        lines_text(split_lines(ls).0) + sections_text(split_lines(ls).1) == lines_text(ls),
    decreases ls.len(),
{
    if ls.len() == 0 {
        assert(Seq::<char>::empty() + Seq::<char>::empty() =~= Seq::<char>::empty());
    } else {
        lemma_split_text(ls.drop_last());
        let (p, ss) = split_lines(ls.drop_last());
        let l = ls.last();
        if l.is_selector() {
            assert(ss.push(section_of(l)).drop_last() =~= ss);
            assert(lines_text(Seq::<LineView>::empty()) == Seq::<char>::empty());
            assert(section_of(l).text() =~= l.text());
            assert(lines_text(p) + (sections_text(ss) + l.text()) =~= lines_text(p) + sections_text(ss)
                + l.text());
        } else if ss.len() == 0 {
            assert(p.push(l).drop_last() =~= p);
            assert(lines_text(p.push(l)) + Seq::<char>::empty() =~= lines_text(p) + Seq::<char>::empty()
                + l.text());
        } else {
            let last = ss.last();
            let x = SectionView { body: last.body.push(l), ..last };
            let ss2 = ss.update(ss.len() - 1, x);
            assert(ss2.drop_last() =~= ss.drop_last());
            assert(last.body.push(l).drop_last() =~= last.body);
            assert(x.text() =~= last.text() + l.text());
            assert(lines_text(p) + (sections_text(ss.drop_last()) + (last.text() + l.text())) =~= (
            lines_text(p) + (sections_text(ss.drop_last()) + last.text())) + l.text());
        }
    }
}

/// Turning lines into a preamble and sections keeps every character.
pub proof fn lemma_parsed_sections_text(ls: Seq<LineView>)
    ensures
        lines_text(parsed_sections(ls).0) + sections_text(parsed_sections(ls).1) == lines_text(ls),
{
    lemma_split_text(ls);
    lemma_defaults_text(split_lines(ls).1);
}

} // verus!
