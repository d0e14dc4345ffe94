//! The whole document: the lines before the first selector (the preamble)
//! and the sections.
use crate::chars::is_blank;
use crate::decor::LineEnding;
use crate::error::{ErrorView, Result};
use crate::lexer::{lemma_lex_from_text, lex, Lexer};
use crate::line::{
    group_lines, lemma_group_lines_text, lines_text, lines_view, DirectiveView, Line, LineView,
};
use crate::reconcile::{
    all_writable, build_section, built_section, lemma_built_section_ok, lemma_reconciled_section_ok,
    reconcile_section, reconciled_section,
};
use crate::section::{
    directive_refs_view, first_ending, lemma_lines_view_update, lemma_parsed_sections_text, parsed_sections, sections_text,
    sections_view, Section, SectionView,
};
use crate::field_keys::KeyView;
use crate::readback::{lemma_read_back_after_set, reads_back};
use crate::settings::{
    dedup_push, unique_settings, values_of, FieldView, HostSettings, HostSettingsView,
};
use vstd::prelude::*;

verus! {

/// The mathematical value of an [`SSHConfig`].
pub struct ConfigView {
    pub preamble: Seq<LineView>,
    pub sections: Seq<SectionView>,
}

impl ConfigView {
    /// What the document writes: the preamble, then each section.
    pub open spec fn text(self) -> Seq<char> {
        lines_text(self.preamble) + sections_text(self.sections)
    }

    /// The ending given to new lines: the first in document order, among the
    /// preamble's lines and each section's own, else a line feed.
    pub open spec fn inferred_ending(self) -> LineEnding {
        match first_ending(self.preamble) {
            Some(e) => e,
            None => match first_section_ending(self.sections) {
                Some(e) => e,
                None => LineEnding::Lf,
            },
        }
    }
}

/// The ending of the first section, in order, that has one.
pub open spec fn first_section_ending(ss: Seq<SectionView>) -> Option<LineEnding>
    decreases ss.len(),
{
    if ss.len() == 0 {
        None
    } else if ss[0].ending() is Some {
        ss[0].ending()
    } else {
        first_section_ending(ss.skip(1))
    }
}

/// The position of the first section, from `i` on, whose header value is
/// `pattern`.
pub open spec fn find_section_from(ss: Seq<SectionView>, pattern: Seq<char>, i: int) -> Option<int>
    decreases ss.len() - i,
{
    if i < 0 || i >= ss.len() {
        None
    } else if ss[i].header.value == pattern {
        Some(i)
    } else {
        find_section_from(ss, pattern, i + 1)
    }
}

/// What [`find_section_from`] finds is a section whose header value is
/// `pattern`, at or after `i`.
pub proof fn lemma_find_section_from(ss: Seq<SectionView>, pattern: Seq<char>, i: int)
    requires
        0 <= i,
    ensures
        find_section_from(ss, pattern, i) matches Some(p) ==> i <= p < ss.len()
            && ss[p].header.value == pattern,
    decreases ss.len() - i,
{
    if i < ss.len() && ss[i].header.value != pattern {
        lemma_find_section_from(ss, pattern, i + 1);
    }
}

/// The settings that directives give, read as `ssh -G` reads a file: a
/// repeated key that is not cumulative keeps its first value.
pub open spec fn settings_of(ds: Seq<DirectiveView>) -> Seq<FieldView>
    decreases ds.len(),
{
    if ds.len() == 0 {
        Seq::empty()
    } else {
        dedup_push(settings_of(ds.drop_last()), ds.last().field_key(), ds.last().value)
    }
}

/// The settings declared under the first section whose header value is
/// exactly `host`; none if there is no such section.
pub open spec fn exact_settings(c: ConfigView, host: Seq<char>) -> HostSettingsView {
    HostSettingsView {
        host,
        fields: match find_section_from(c.sections, host, 0) {
            Some(i) => settings_of(c.sections[i].directives()),
            None => Seq::empty(),
        },
    }
}

/// The document after [`SSHConfig::set_host_settings`] of `h`; or, on
/// failure, the document as far as the edit went, and why it stopped.
///
/// The first section whose header value is the host is brought in line with
/// the fields (see [`reconciled_section`]). Without one, a new section for
/// the host, ended by the document's inferred ending and holding a line for
/// each field, is inserted before every other; on failure the document is
/// unchanged.
pub open spec fn reconciled(c: ConfigView, h: HostSettingsView) -> (ConfigView, Option<ErrorView>) {
    match find_section_from(c.sections, h.host, 0) {
        Some(i) => {
            let r = reconciled_section(c.sections[i], h.fields);
            (ConfigView { sections: c.sections.update(i, r.0), ..c }, r.1)
        },
        None => match built_section(h.host, h.fields, c.inferred_ending()) {
            Ok(s) => (c.section_inserted(0, s), None),
            Err(e) => (c, Some(e)),
        },
    }
}

/// Writable fields for a host that is not blank are always reconciled.
pub proof fn lemma_reconciled_ok(c: ConfigView, h: HostSettingsView)
    requires
        all_writable(h.fields),
        !is_blank(h.host),
    ensures
        reconciled(c, h).1 is None,
{
    if let Some(i) = find_section_from(c.sections, h.host, 0) {
        lemma_reconciled_section_ok(c.sections[i], h.fields);
    } else {
        lemma_built_section_ok(h.host, h.fields, c.inferred_ending());
    }
}

/// The document that `data` holds, or why it holds none: the lexer's tokens
/// grouped into lines, the lines split into a preamble and sections.
pub open spec fn parse_config(data: Seq<char>) -> core::result::Result<ConfigView, ErrorView> {
    match lex(data) {
        Err(pe) => Err(pe.to_error()),
        Ok(ts) => match group_lines(ts) {
            Err(e) => Err(e),
            Ok(ls) => Ok(
                ConfigView { preamble: parsed_sections(ls).0, sections: parsed_sections(ls).1 },
            ),
        },
    }
}

/// Reading then writing a document gives back the same text, byte for byte.
pub proof fn lemma_parse_then_write(data: Seq<char>)
    ensures
        parse_config(data) matches Ok(c) ==> c.text() == data,
{
    lemma_lex_from_text(data, 1, 1);
    if let Ok(ts) = lex(data) {
        lemma_group_lines_text(ts);
        if let Ok(ls) = group_lines(ts) {
            lemma_parsed_sections_text(ls);
        }
    }
}

/// An ssh_config document that can be edited without losing its formatting.
pub struct SSHConfig {
    preamble: Vec<Line>,
    sections: Vec<Section>,
}

impl View for SSHConfig {
    type V = ConfigView;

    closed spec fn view(&self) -> ConfigView {
        ConfigView { preamble: lines_view(self.preamble@), sections: sections_view(self.sections@) }
    }
}

impl SSHConfig {
    /// Parse `data` into an editable document.
    ///
    /// The result round-trips byte for byte: `parse(data).to_string() == data`.
    ///
    /// # Errors
    /// Returns [`Error::Parse`](crate::Error::Parse) if `data` is not valid
    /// `ssh_config(5)` carrying the line and column of the offending character.
    pub fn parse(data: &str) -> (r: Result<SSHConfig>)
        requires
            data@.len() < usize::MAX,
        ensures
            match parse_config(data@) {
                Ok(c) => r matches Ok(x) && x@ == c,
                Err(e) => r matches Err(x) && x@ == e,
            },
            r matches Ok(x) ==> x@.text() == data@,
    {
        proof {
            lemma_parse_then_write(data@);
        }
        let lexer = Lexer::new(data);
        let tokens = lexer.tokenize()?;
        let lines = Line::parse_lines(tokens)?;
        let (preamble, sections) = Section::parse_sections(lines)?;
        Ok(SSHConfig { preamble, sections })
    }

    /// Returns every [`Section`] in document order.
    pub fn sections(&self) -> (r: &[Section])
        ensures
            sections_view(r@) == self@.sections,
    {
        self.sections.as_slice()
    }

    /// Returns every [`Section`] in document order, with mutability.
    pub fn sections_mut(&mut self) -> (r: &mut [Section])
        ensures
            sections_view(r@) == old(self)@.sections,
            final(self)@ == (ConfigView { sections: sections_view(final(r)@), ..old(self)@ }),
    {
        self.sections.as_mut_slice()
    }

    /// Returns the preamble, the [`Line`]s appearing before the first selector.
    pub fn preamble(&self) -> (r: &[Line])
        ensures
            lines_view(r@) == self@.preamble,
    {
        self.preamble.as_slice()
    }

    /// Returns the preamble, the [`Line`]s appearing before the first
    /// selector, with mutability.
    pub fn preamble_mut(&mut self) -> (r: &mut [Line])
        ensures
            lines_view(r@) == old(self)@.preamble,
            final(self)@ == (ConfigView { preamble: lines_view(final(r)@), ..old(self)@ }),
    {
        self.preamble.as_mut_slice()
    }

    /// The position of the first section whose header value is `pattern`.
    fn position_of(&self, pattern: &str) -> (r: Option<usize>)
        ensures
            r matches Some(i) ==> find_section_from(self@.sections, pattern@, 0) == Some(i as int)
                && i < self@.sections.len(),
            r is None ==> find_section_from(self@.sections, pattern@, 0) is None,
    {
        let mut k: usize = 0;
        while k < self.sections.len()
            invariant
                k <= self.sections.len(),
                find_section_from(self@.sections, pattern@, 0) == find_section_from(
                    self@.sections,
                    pattern@,
                    k as int,
                ),
            decreases self.sections.len() - k,
        {
            assert(self@.sections[k as int] == self.sections@[k as int]@);
            if crate::chars::str_eq(self.sections[k].header().value(), pattern) {
                return Some(k);
            }
            k = k + 1;
        }
        None
    }

    /// Returns the first [`Section`] whose header value is exactly `pattern`.
    ///
    /// The match is on the selector's raw text and is kind-agnostic, so
    /// `section("dev prod")` finds `Host dev prod` and `section("user git")`
    /// finds `Match user git`. No glob expansion happens here.
    pub fn section(&self, pattern: &str) -> (r: Option<&Section>)
        ensures
            match find_section_from(self@.sections, pattern@, 0) {
                Some(i) => r matches Some(s) && s@ == self@.sections[i],
                None => r is None,
            },
    {
        match self.position_of(pattern) {
            Some(i) => {
                assert(self@.sections[i as int] == self.sections@[i as int]@);
                Some(&self.sections[i])
            },
            None => None,
        }
    }

    /// Returns the first [`Section`] whose header value is exactly `pattern`
    /// with mutability. See [`Self::section`] for the matching rules.
    pub fn section_mut(&mut self, pattern: &str) -> (r: Option<&mut Section>)
        ensures
            match find_section_from(old(self)@.sections, pattern@, 0) {
                Some(i) => r matches Some(s) && s@ == old(self)@.sections[i] && final(self)@ == (
                ConfigView { sections: old(self)@.sections.update(i, final(s)@), ..old(self)@ }),
                None => r is None && final(self)@ == old(self)@,
            },
    {
        match self.position_of(pattern) {
            Some(i) => {
                proof {
                    lemma_sections_view_update();
                }
                assert(old(self)@.sections[i as int] == self.sections@[i as int]@);
                Some(&mut self.sections[i])
            },
            None => None,
        }
    }

    /// The ending given to new lines: the first one in the preamble or in a
    /// section, else a line feed.
    pub fn infer_line_ending(&self) -> (e: LineEnding)
        ensures
            e == self@.inferred_ending(),
    {
        let mut k: usize = 0;
        let ghost pre = lines_view(self.preamble@);
        assert(pre.skip(0) =~= pre);
        while k < self.preamble.len()
            invariant
                k <= self.preamble.len(),
                pre == lines_view(self.preamble@),
                first_ending(pre) == first_ending(pre.skip(k as int)),
            decreases self.preamble.len() - k,
        {
            assert(pre.skip(k as int)[0] == self.preamble@[k as int]@);
            if let Some(e) = self.preamble[k].ending_typed() {
                return e;
            }
            assert(pre.skip(k as int).skip(1) =~= pre.skip(k + 1));
            k = k + 1;
        }
        let ghost ss = sections_view(self.sections@);
        assert(ss.skip(0) =~= ss);
        let mut j: usize = 0;
        while j < self.sections.len()
            invariant
                j <= self.sections.len(),
                ss == sections_view(self.sections@),
                pre == lines_view(self.preamble@),
                first_ending(pre) is None,
                first_section_ending(ss) == first_section_ending(ss.skip(j as int)),
            decreases self.sections.len() - j,
        {
            assert(ss.skip(j as int)[0] == self.sections@[j as int]@);
            if let Some(e) = self.sections[j].ending() {
                assert(first_section_ending(ss.skip(j as int)) == Some(e));
                assert(first_section_ending(ss) == Some(e));
                return e;
            }
            assert(ss.skip(j as int).skip(1) =~= ss.skip(j + 1));
            j = j + 1;
        }
        LineEnding::default()
    }

    /// Insert `section` at `index`, terminating the preceding section or
    /// preamble line when it has no line ending of its own.
    ///
    /// `index == self.sections().len()` appends.
    pub fn insert_section(&mut self, index: usize, section: Section)
        requires
            index <= old(self)@.sections.len(),
        ensures
            final(self)@ == old(self)@.section_inserted(index as int, section@),
    {
        let ending = self.infer_line_ending();
        if index > 0 {
            proof {
                lemma_sections_view_update();
            }
            self.sections[index - 1].terminate(ending);
        } else if self.preamble.len() > 0 {
            proof {
                lemma_lines_view_update();
            }
            let m = self.preamble.len();
            self.preamble[m - 1].set_ending_if_absent_typed(ending);
        }
        assert(lines_view(self.preamble@) =~= old(self)@.terminated_before(index as int).preamble);
        assert(sections_view(self.sections@) =~= old(self)@.terminated_before(index as int).sections);
        self.sections.insert(index, section);
        assert(sections_view(self.sections@) =~= old(self)@.section_inserted(index as int, section@).sections);
    }

    /// Remove and return the [`Section`] at `index`.
    pub fn remove_section(&mut self, index: usize) -> (s: Section)
        requires
            index < old(self)@.sections.len(),
        ensures
            s@ == old(self)@.sections[index as int],
            final(self)@ == (ConfigView {
                sections: old(self)@.sections.remove(index as int),
                ..old(self)@
            }),
    {
        let s = self.sections.remove(index);
        assert(sections_view(self.sections@) =~= old(self)@.sections.remove(index as int));
        s
    }

    /// Append `section` to the end of the document.
    ///
    /// Terminates the preceding section or preamble line when it has no line
    /// ending of its own.
    pub fn push_section(&mut self, section: Section)
        ensures
            final(self)@ == old(self)@.section_inserted(old(self)@.sections.len() as int, section@),
    {
        let n = self.sections.len();
        self.insert_section(n, section);
    }

    /// Remove and return the first [`Section`] whose header value is exactly
    /// `pattern`, or `None` if no section matches.
    ///
    /// See [`Self::section`] for the matching rules.
    pub fn remove_selector(&mut self, pattern: &str) -> (r: Option<Section>)
        ensures
            match find_section_from(old(self)@.sections, pattern@, 0) {
                Some(i) => r matches Some(s) && s@ == old(self)@.sections[i] && final(self)@ == (
                ConfigView { sections: old(self)@.sections.remove(i), ..old(self)@ }),
                None => r is None && final(self)@ == old(self)@,
            },
    {
        let index = self.position_of(pattern)?;
        Some(self.remove_section(index))
    }

    /// Reconcile `host_settings` back into the document.
    ///
    /// If a section already matches [`HostSettings::host`] it is edited in
    /// place, otherwise a new one is inserted at the top. Editing is
    /// non-destructive: existing directives keep their separator and indent,
    /// comments and blank lines are preserved, and only the bytes of changed
    /// keys move.
    ///
    /// Directives whose key is absent from `host_settings` are removed.
    /// Cumulative keys keep the leading run of values that already match, then
    /// diverging values are dropped and the new ones appended in order.
    ///
    /// # Errors
    /// Returns [`Error::UnexpectedSelector`](crate::Error::UnexpectedSelector)
    /// if `host_settings` holds a selector key, and
    /// [`Error::EmptyValue`](crate::Error::EmptyValue) if a value is blank.
    pub fn set_host_settings(&mut self, host_settings: &HostSettings) -> (r: Result<()>)
        ensures
            final(self)@ == reconciled(old(self)@, host_settings@).0,
            r is Ok <==> reconciled(old(self)@, host_settings@).1 is None,
            r matches Err(e) ==> reconciled(old(self)@, host_settings@).1 == Some(e@),
            all_writable(host_settings@.fields) && !is_blank(host_settings@.host) ==> r is Ok,
            r is Ok && unique_settings(host_settings@.fields) && (forall|i: int|
                0 <= i < host_settings@.fields.len() ==> reads_back(
                    #[trigger] host_settings@.fields[i].key,
                )) ==> forall|k: KeyView|
                #[trigger] values_of(exact_settings(final(self)@, host_settings@.host).fields, k)
                    == values_of(host_settings@.fields, k),
    {
        proof {
            if all_writable(host_settings@.fields) && !is_blank(host_settings@.host) {
                lemma_reconciled_ok(self@, host_settings@);
            }
        }
        let ending = self.infer_line_ending();
        let r = match self.position_of(host_settings.host()) {
            Some(i) => {
                proof {
                    lemma_sections_view_update();
                }
                assert(old(self)@.sections[i as int] == self.sections@[i as int]@);
                reconcile_section(&mut self.sections[i], host_settings)
            },
            None => {
                let sec = build_section(host_settings, ending)?;
                self.insert_section(0, sec);
                Ok(())
            },
        };
        proof {
            if r is Ok && unique_settings(host_settings@.fields) && (forall|i: int|
                0 <= i < host_settings@.fields.len() ==> reads_back(
                    #[trigger] host_settings@.fields[i].key,
                )) {
                assert forall|k: KeyView|
                    #[trigger] values_of(exact_settings(self@, host_settings@.host).fields, k)
                        == values_of(host_settings@.fields, k) by {
                    lemma_read_back_after_set(old(self)@, host_settings@, k);
                }
            }
        }
        r
    }

    /// Return the settings declared under the section whose header value is
    /// exactly `host`.
    ///
    /// No pattern expansion, and no walking of other matching sections. Values
    /// are deduped the way `ssh -G` reads a file: a repeated non-cumulative key
    /// keeps its first occurrence.
    ///
    /// An unknown `host` yields an empty [`HostSettings`], which is
    /// indistinguishable from a section that declares nothing.
    pub fn exact_host_settings(&self, host: &str) -> (h: HostSettings)
        ensures
            h@ == exact_settings(self@, host@),
            unique_settings(h@.fields),
    {
        let mut settings = HostSettings::new(host);
        if let Some(s) = self.section(host) {
            let ds = s.directives();
            let ghost dv = directive_refs_view(ds@);
            let mut k: usize = 0;
            assert(dv.take(0) =~= Seq::<DirectiveView>::empty());
            while k < ds.len()
                invariant
                    k <= ds.len(),
                    dv == directive_refs_view(ds@),
                    settings@ == (HostSettingsView { host: host@, fields: settings_of(dv.take(k as int)) }),
                    unique_settings(settings@.fields),
                decreases ds.len() - k,
            {
                assert(dv.take(k + 1).drop_last() =~= dv.take(k as int));
                assert(dv.take(k + 1).last() == ds@[k as int]@);
                settings.push_dedup(ds[k].field_key(), ds[k].value());
                k = k + 1;
            }
            assert(dv.take(k as int) =~= dv);
        }
        settings
    }

    /// Appends the document's text to `out`.
    pub fn write_to(&self, out: &mut String)
        ensures
            final(out)@ == old(out)@ + self@.text(),
    {
        let ghost start = out@;
        let mut k: usize = 0;
        while k < self.preamble.len()
            invariant
                k <= self.preamble.len(),
                out@ == start + lines_text(lines_view(self.preamble@).take(k as int)),
            decreases self.preamble.len() - k,
        {
            let ghost ls = lines_view(self.preamble@);
            assert(ls.take(k + 1).drop_last() =~= ls.take(k as int));
            self.preamble[k].write_to(out);
            k = k + 1;
        }
        assert(lines_view(self.preamble@).take(k as int) =~= lines_view(self.preamble@));
        let ghost mid = out@;
        let mut j: usize = 0;
        while j < self.sections.len()
            invariant
                j <= self.sections.len(),
                out@ == mid + sections_text(sections_view(self.sections@).take(j as int)),
            decreases self.sections.len() - j,
        {
            let ghost ss = sections_view(self.sections@);
            assert(ss.take(j + 1).drop_last() =~= ss.take(j as int));
            self.sections[j].write_to(out);
            j = j + 1;
        }
        assert(sections_view(self.sections@).take(j as int) =~= sections_view(self.sections@));
        assert(start + lines_text(self@.preamble) + sections_text(self@.sections) =~= start
            + self@.text());
    }

    /// The document's text.
    pub fn to_string(&self) -> (s: String)
        ensures
            s@ == self@.text(),
    {
        let mut s = String::new();
        self.write_to(&mut s);
        assert(Seq::<char>::empty() + self@.text() =~= self@.text());
        s
    }
}

impl ConfigView {
    /// The document with the inferred ending given to what stands before
    /// section `index` where it has none: the header and last line of the
    /// section at `index - 1`, or for `index == 0` the last line of the
    /// preamble.
    pub open spec fn terminated_before(self, index: int) -> ConfigView {
        let e = self.inferred_ending();
        if index > 0 {
            ConfigView {
                sections: self.sections.update(index - 1, self.sections[index - 1].terminated(e)),
                ..self
            }
        } else if self.preamble.len() > 0 && self.preamble.last().ending is None {
            ConfigView {
                preamble: self.preamble.update(
                    self.preamble.len() - 1,
                    LineView { ending: Some(e), ..self.preamble.last() },
                ),
                ..self
            }
        } else {
            self
        }
    }

    /// The document after [`SSHConfig::insert_section`] of `s` at `index`.
    pub open spec fn section_inserted(self, index: int, s: SectionView) -> ConfigView {
        let t = self.terminated_before(index);
        ConfigView { sections: t.sections.insert(index, s), ..t }
    }
}

/// Replacing a section replaces its view.
proof fn lemma_sections_view_update()
    ensures
        forall|v: Seq<Section>, i: int, x: Section|
            0 <= i < v.len() ==> #[trigger] sections_view(v.update(i, x)) == sections_view(v).update(
                i,
                x@,
            ),
{
    assert forall|v: Seq<Section>, i: int, x: Section| 0 <= i < v.len() implies #[trigger] sections_view(
        v.update(i, x),
    ) == sections_view(v).update(i, x@) by {
        assert(sections_view(v.update(i, x)) =~= sections_view(v).update(i, x@));
    }
}

} // verus!
