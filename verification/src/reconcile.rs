//! Bringing a section in line with the settings of its host.
use crate::chars::{is_blank, str_eq};
use crate::decor::LineEnding;
use crate::error::{ErrorView, Result};
use crate::field_keys::{
    key_is_cumulative, key_is_selector, key_name, known_name, parse_key, FieldKey, KeyView,
};
use crate::line::{
    lemma_space_sep_ok, make_directive, Directive, DirectiveView, Line, LineKindView, LineView,
    Selector, SelectorView,
};
use crate::section::{
    directive_refs_view, directives_with_key, find_key_from, keep_marked, lemma_find_key_from,
    line_has_key, Section, SectionView,
};
use crate::settings::{
    field_refs_view, field_values, fields_view, fields_with_key, has_key, values_of, Field, FieldView,
    HostSettings,
};
use vstd::prelude::*;

verus! {

/// A directive line without indent or ending.
pub open spec fn directive_line(d: DirectiveView) -> LineView {
    LineView { indent: None, ending: None, kind: LineKindView::Directive(d) }
}

/// The section after appending the line `key value`; or the section
/// unchanged, and why the line could not be appended.
pub open spec fn push_directive(s: SectionView, k: KeyView, v: Seq<char>) -> (
    SectionView,
    Option<ErrorView>,
) {
    match make_directive(key_name(k), seq![' '], v) {
        Err(e) => (s, Some(e)),
        Ok(d) => if directive_line(d).is_selector() {
            (s, Some(ErrorView::UnexpectedSelector(directive_line(d).text())))
        } else {
            (s.inserted(s.body.len() as int, directive_line(d)), None)
        },
    }
}

/// Appending the line `k v` for each `v` of `vs`, in order, up to the first
/// failure.
pub open spec fn push_values(s: SectionView, k: KeyView, vs: Seq<Seq<char>>) -> (
    SectionView,
    Option<ErrorView>,
)
    decreases vs.len(),
{
    if vs.len() == 0 {
        (s, None)
    } else {
        let acc = push_values(s, k, vs.drop_last());
        if acc.1 is Some {
            acc
        } else {
            push_directive(acc.0, k, vs.last())
        }
    }
}

/// Appending a line for each of the first `n` fields, in order, up to the
/// first failure.
pub open spec fn push_fields(s: SectionView, fs: Seq<FieldView>, n: int) -> (
    SectionView,
    Option<ErrorView>,
)
    decreases n,
{
    if n <= 0 {
        (s, None)
    } else {
        let acc = push_fields(s, fs, n - 1);
        if acc.1 is Some {
            acc
        } else {
            push_directive(acc.0, fs[n - 1].key, fs[n - 1].value)
        }
    }
}

/// The values of a sequence of directives, in order.
pub open spec fn directive_values(ds: Seq<DirectiveView>) -> Seq<Seq<char>> {
    ds.map_values(|d: DirectiveView| d.value)
}

/// The length of the common prefix of `a` and `b`, counting from `i`.
pub open spec fn prefix_from(a: Seq<Seq<char>>, b: Seq<Seq<char>>, i: int) -> int
    decreases a.len() - i,
{
    if i < 0 || i >= a.len() || i >= b.len() || a[i] != b[i] {
        i
    } else {
        prefix_from(a, b, i + 1)
    }
}

/// How many lines of the cumulative key `k` stay: the run of its values in
/// `b0` that already match the wanted values, from the first.
pub open spec fn kept_count(b0: Seq<LineView>, fs: Seq<FieldView>, k: KeyView) -> int {
    prefix_from(directive_values(directives_with_key(b0, k)), values_of(fs, k), 0)
}

/// The `j`-th field is the first one of a cumulative key.
pub open spec fn new_cumulative_key(fs: Seq<FieldView>, j: int) -> bool {
    key_is_cumulative(fs[j].key) && !has_key(fs.take(j), fs[j].key)
}

/// For each cumulative key among the first `n` fields, in the order of their
/// first field: appending the wanted values past those that stay, up to the
/// first failure.
pub open spec fn cumulative_pass(b0: Seq<LineView>, fs: Seq<FieldView>, s: SectionView, n: int) -> (
    SectionView,
    Option<ErrorView>,
)
    decreases n,
{
    if n <= 0 {
        (s, None)
    } else {
        let acc = cumulative_pass(b0, fs, s, n - 1);
        if acc.1 is Some || !new_cumulative_key(fs, n - 1) {
            acc
        } else {
            let k = fs[n - 1].key;
            push_values(acc.0, k, values_of(fs, k).skip(kept_count(b0, fs, k)))
        }
    }
}

/// Line `i` of `b0` is a line of a cumulative key of `scope` that does not
/// stay.
pub open spec fn stale_line(b0: Seq<LineView>, fs: Seq<FieldView>, scope: Seq<FieldView>, i: int) -> bool {
    match b0[i].kind {
        LineKindView::Directive(d) => key_is_cumulative(d.field_key()) && has_key(scope, d.field_key())
            && directives_with_key(b0.take(i), d.field_key()).len() >= kept_count(b0, fs, d.field_key()),
        _ => false,
    }
}

/// The mask that keeps the lines of `b0` that are not stale.
pub open spec fn stale_mask(b0: Seq<LineView>, fs: Seq<FieldView>, scope: Seq<FieldView>) -> Seq<bool> {
    Seq::new(b0.len(), |i: int| !stale_line(b0, fs, scope, i))
}

/// The section with the value of the directive at line `i` replaced by `v`.
pub open spec fn set_value_at(s: SectionView, i: int, v: Seq<char>) -> SectionView {
    SectionView {
        body: s.body.update(
            i,
            LineView {
                kind: LineKindView::Directive(
                    DirectiveView { value: v, ..s.body[i].kind->Directive_0 },
                ),
                ..s.body[i]
            },
        ),
        ..s
    }
}

/// For each of the first `n` fields of a key that is not cumulative, in
/// order: the value of the first line of its key replaced, or a line appended
/// where there is none; up to the first failure.
pub open spec fn setting_pass(fs: Seq<FieldView>, s: SectionView, n: int) -> (
    SectionView,
    Option<ErrorView>,
)
    decreases n,
{
    if n <= 0 {
        (s, None)
    } else {
        let acc = setting_pass(fs, s, n - 1);
        let f = fs[n - 1];
        if acc.1 is Some || key_is_cumulative(f.key) {
            acc
        } else {
            match find_key_from(acc.0.body, f.key, 0) {
                Some(i) => if is_blank(f.value) {
                    (acc.0, Some(ErrorView::EmptyValue))
                } else {
                    (set_value_at(acc.0, i, f.value), None)
                },
                None => push_directive(acc.0, f.key, f.value),
            }
        }
    }
}

/// The mask that keeps comments, blank lines, and directives of a key of
/// `fs`.
pub open spec fn wanted_mask(ls: Seq<LineView>, fs: Seq<FieldView>) -> Seq<bool> {
    Seq::new(
        ls.len(),
        |i: int|
            match ls[i].kind {
                LineKindView::Directive(d) => has_key(fs, d.field_key()),
                _ => true,
            },
    )
}

/// The section after the pass over the cumulative keys of `fs`.
pub open spec fn after_cumulative(s: SectionView, fs: Seq<FieldView>) -> (SectionView, Option<ErrorView>) {
    cumulative_pass(s.body, fs, s, fs.len() as int)
}

/// The section after the pass over the cumulative keys of `fs`, without the
/// stale lines.
pub open spec fn pruned(s: SectionView, fs: Seq<FieldView>) -> SectionView {
    let a = after_cumulative(s, fs).0;
    SectionView { body: keep_marked(a.body, stale_mask(s.body, fs, fs)), ..a }
}

/// The section brought in line with the fields `fs`; or, on failure, the
/// section as far as the edit went, and why it stopped.
///
/// Cumulative keys first: each keeps the run of its lines whose values match
/// the wanted ones from the first, its other lines go, and the remaining
/// wanted values are appended. Then each other key: the value of its first
/// line is replaced, or a line is appended. Last, the directives of keys that
/// `fs` does not hold go. Comments and blank lines stay.
pub open spec fn reconciled_section(s: SectionView, fs: Seq<FieldView>) -> (
    SectionView,
    Option<ErrorView>,
) {
    let a = after_cumulative(s, fs);
    if a.1 is Some {
        a
    } else {
        let b = setting_pass(fs, pruned(s, fs), fs.len() as int);
        if b.1 is Some {
            b
        } else {
            (SectionView { body: keep_marked(b.0.body, wanted_mask(b.0.body, fs)), ..b.0 }, None)
        }
    }
}

/// A new section `Host host`, ended by `e`, with `e` as its default ending.
pub open spec fn fresh_section(host: Seq<char>, e: LineEnding) -> SectionView {
    SectionView {
        header: SelectorView {
            indent: None,
            ending: Some(e),
            key: known_name(0),
            sep: seq![' '],
            value: host,
        },
        body: Seq::empty(),
        default_indent: None,
        default_ending: Some(e),
    }
}

/// The new section for `host` holding a line for each field, or why there is
/// none.
pub open spec fn built_section(host: Seq<char>, fs: Seq<FieldView>, e: LineEnding) -> core::result::Result<
    SectionView,
    ErrorView,
> {
    if is_blank(host) {
        Err(ErrorView::EmptyValue)
    } else {
        let p = push_fields(fresh_section(host, e), fs, fs.len() as int);
        match p.1 {
            Some(x) => Err(x),
            None => Ok(p.0),
        }
    }
}

/// Whether some field has key `x` among the first `j + 1` fields.
pub proof fn lemma_has_key_take_step(fs: Seq<FieldView>, j: int, x: KeyView)
    requires
        0 <= j < fs.len(),
    ensures
        has_key(fs.take(j + 1), x) == (has_key(fs.take(j), x) || fs[j].key == x),
{
    let t = fs.take(j + 1);
    if has_key(t, x) {
        let w = choose|w: int| 0 <= w < t.len() && #[trigger] t[w].key == x;
        if w < j {
            assert(fs.take(j)[w] == t[w]);
        }
    }
    if has_key(fs.take(j), x) {
        let w = choose|w: int| 0 <= w < j && #[trigger] fs.take(j)[w].key == x;
        assert(t[w] == fs.take(j)[w]);
    }
    if fs[j].key == x {
        assert(t[j] == fs[j]);
    }
}

/// Once appending values has failed, appending more changes nothing.
proof fn lemma_push_values_stuck(s: SectionView, k: KeyView, vs: Seq<Seq<char>>, i: int)
    requires
        0 <= i <= vs.len(),
        push_values(s, k, vs.take(i)).1 is Some,
    ensures
        push_values(s, k, vs) == push_values(s, k, vs.take(i)),
    decreases vs.len(),
{
    if i < vs.len() {
        assert(vs.drop_last().take(i) =~= vs.take(i));
        lemma_push_values_stuck(s, k, vs.drop_last(), i);
    } else {
        assert(vs.take(i) =~= vs);
    }
}

/// Once the cumulative pass has failed, further keys change nothing.
proof fn lemma_cumulative_pass_stuck(b0: Seq<LineView>, fs: Seq<FieldView>, s: SectionView, m: int, n: int)
    requires
        0 <= m <= n,
        cumulative_pass(b0, fs, s, m).1 is Some,
    ensures
        cumulative_pass(b0, fs, s, n) == cumulative_pass(b0, fs, s, m),
    decreases n - m,
{
    if m < n {
        lemma_cumulative_pass_stuck(b0, fs, s, m, n - 1);
    }
}

/// Once the pass over the other keys has failed, further fields change
/// nothing.
proof fn lemma_setting_pass_stuck(fs: Seq<FieldView>, s: SectionView, m: int, n: int)
    requires
        0 <= m <= n,
        setting_pass(fs, s, m).1 is Some,
    ensures
        setting_pass(fs, s, n) == setting_pass(fs, s, m),
    decreases n - m,
{
    if m < n {
        lemma_setting_pass_stuck(fs, s, m, n - 1);
    }
}

/// Once appending fields has failed, further fields change nothing.
proof fn lemma_push_fields_stuck(s: SectionView, fs: Seq<FieldView>, m: int, n: int)
    requires
        0 <= m <= n,
        push_fields(s, fs, m).1 is Some,
    ensures
        push_fields(s, fs, n) == push_fields(s, fs, m),
    decreases n - m,
{
    if m < n {
        lemma_push_fields_stuck(s, fs, m, n - 1);
    }
}

/// A failure while appending the values of a cumulative key ends the edit.
proof fn lemma_cumulative_failure(
    s0: SectionView,
    fs: Seq<FieldView>,
    j: int,
    m: int,
    sb: SectionView,
    sp: SectionView,
    e: ErrorView,
)
    requires
        0 <= j < fs.len(),
        new_cumulative_key(fs, j),
        cumulative_pass(s0.body, fs, s0, j) == (sb, None::<ErrorView>),
        0 <= m <= values_of(fs, fs[j].key).skip(kept_count(s0.body, fs, fs[j].key)).len(),
        push_values(sb, fs[j].key, values_of(fs, fs[j].key).skip(kept_count(s0.body, fs, fs[j].key)).take(m))
            == (sp, Some(e)),
    ensures
        reconciled_section(s0, fs) == (sp, Some(e)),
{
    let k = fs[j].key;
    let vs = values_of(fs, k).skip(kept_count(s0.body, fs, k));
    lemma_push_values_stuck(sb, k, vs, m);
    lemma_cumulative_pass_stuck(s0.body, fs, s0, j + 1, fs.len() as int);
}

/// A failure while setting the other keys ends the edit.
proof fn lemma_setting_failure(s0: SectionView, fs: Seq<FieldView>, j: int, sp: SectionView, e: ErrorView)
    requires
        0 <= j < fs.len(),
        after_cumulative(s0, fs).1 is None,
        setting_pass(fs, pruned(s0, fs), j + 1) == (sp, Some(e)),
    ensures
        reconciled_section(s0, fs) == (sp, Some(e)),
{
    lemma_setting_pass_stuck(fs, pruned(s0, fs), j + 1, fs.len() as int);
}

/// Appends the line `key value` to `s`.
fn push_setting(s: &mut Section, key: &FieldKey, value: &str) -> (r: Result<()>)
    ensures
        final(s)@ == push_directive(old(s)@, key@, value@).0,
        r is Ok <==> push_directive(old(s)@, key@, value@).1 is None,
        r matches Err(e) ==> push_directive(old(s)@, key@, value@).1 == Some(e@),
{
    let line = Line::directive(key.duplicate(), value)?;
    s.push(line)
}

/// Whether a field among the first `j` has key `key`.
fn seen_before(fields: &[Field], j: usize, key: &FieldKey) -> (b: bool)
    requires
        j <= fields@.len(),
    ensures
        b == has_key(fields_view(fields@).take(j as int), key@),
{
    let ghost fs = fields_view(fields@).take(j as int);
    let mut t: usize = 0;
    while t < j
        invariant
            t <= j <= fields@.len(),
            fs == fields_view(fields@).take(j as int),
            forall|u: int| 0 <= u < t ==> #[trigger] fs[u].key != key@,
        decreases j - t,
    {
        assert(fs[t as int] == fields@[t as int]@);
        if fields[t].key.same_key(key) {
            assert(fs[t as int].key == key@);
            return true;
        }
        t = t + 1;
    }
    false
}

/// The length of the common prefix of the values of `ents` and of `desired`.
fn common_prefix(ents: &Vec<&Directive>, desired: &Vec<&Field>) -> (v: usize)
    ensures
        v as int == prefix_from(
            directive_values(directive_refs_view(ents@)),
            field_values(field_refs_view(desired@)),
            0,
        ),
        v <= desired.len(),
{
    let ghost a = directive_values(directive_refs_view(ents@));
    let ghost b = field_values(field_refs_view(desired@));
    let mut i: usize = 0;
    while i < ents.len() && i < desired.len() && str_eq(ents[i].value(), desired[i].value.as_str())
        invariant
            i <= ents.len(),
            i <= desired.len(),
            a == directive_values(directive_refs_view(ents@)),
            b == field_values(field_refs_view(desired@)),
            prefix_from(a, b, 0) == prefix_from(a, b, i as int),
        decreases ents.len() - i,
    {
        assert(a[i as int] == ents@[i as int]@.value);
        assert(b[i as int] == desired@[i as int].value@);
        i = i + 1;
    }
    if i < ents.len() && i < desired.len() {
        assert(a[i as int] == ents@[i as int]@.value);
        assert(b[i as int] == desired@[i as int].value@);
    }
    i
}

/// For the first field of each cumulative key: how many of its lines stay;
/// and the mask that keeps every line of `s` but the stale ones.
fn plan_cumulative(s: &Section, settings: &HostSettings) -> (r: (Vec<usize>, Vec<bool>))
    ensures
        r.1@ == stale_mask(s@.body, settings@.fields, settings@.fields),
        r.0@.len() == settings@.fields.len(),
        forall|j: int|
            0 <= j < settings@.fields.len() && new_cumulative_key(settings@.fields, j) ==> {
                &&& r.0@[j] as int == kept_count(s@.body, settings@.fields, settings@.fields[j].key)
                &&& r.0@[j] <= values_of(settings@.fields, settings@.fields[j].key).len()
            },
{
    let ghost fs = settings@.fields;
    let ghost b0 = s@.body;
    let fields = settings.fields();
    let n0 = s.line_count();
    let mut mask: Vec<bool> = Vec::new();
    let mut i: usize = 0;
    while i < n0
        invariant
            i <= n0 == b0.len(),
            mask@ == Seq::new(i as nat, |x: int| true),
        decreases n0 - i,
    {
        mask.push(true);
        assert(mask@ =~= Seq::new((i + 1) as nat, |x: int| true));
        i = i + 1;
    }
    assert forall|x: int| 0 <= x < n0 implies !stale_line(b0, fs, fs.take(0), x) by {
        assert(!has_key(fs.take(0), b0[x].kind->Directive_0.field_key()));
    }
    assert(mask@ =~= stale_mask(b0, fs, fs.take(0)));
    let mut keeps: Vec<usize> = Vec::new();
    let mut j: usize = 0;
    while j < fields.len()
        invariant
            j <= fields@.len() == fs.len(),
            fields_view(fields@) == fs,
            fs == settings@.fields,
            b0 == s@.body,
            n0 == b0.len(),
            mask@ == stale_mask(b0, fs, fs.take(j as int)),
            keeps@.len() == j,
            forall|x: int|
                0 <= x < j && new_cumulative_key(fs, x) ==> {
                    &&& keeps@[x] as int == kept_count(b0, fs, fs[x].key)
                    &&& keeps@[x] <= values_of(fs, fs[x].key).len()
                },
        decreases fields.len() - j,
    {
        let f = &fields[j];
        let ghost k = fs[j as int].key;
        assert(fs[j as int] == f@);
        let mut v: usize = 0;
        proof {
            assert forall|x: int| 0 <= x < n0 && !line_has_key(b0[x], k) implies #[trigger] stale_line(
                b0,
                fs,
                fs.take(j + 1),
                x,
            ) == stale_line(b0, fs, fs.take(j as int), x) by {
                if let LineKindView::Directive(d) = b0[x].kind {
                    lemma_has_key_take_step(fs, j as int, d.field_key());
                }
            }
        }
        if f.key.is_cumulative() && !seen_before(fields, j, &f.key) {
            let desired = settings.get_all(&f.key);
            let ents = s.get_all(&f.key);
            v = common_prefix(&ents, &desired);
            let mut cnt: usize = 0;
            let mut i: usize = 0;
            while i < n0
                invariant
                    i <= n0 == b0.len(),
                    b0 == s@.body,
                    k == f.key@,
                    0 <= j < fs.len(),
                    fs[j as int].key == k,
                    new_cumulative_key(fs, j as int),
                    v as int == kept_count(b0, fs, k),
                    cnt as int == directives_with_key(b0.take(i as int), k).len(),
                    cnt <= i,
                    mask@.len() == n0,
                    forall|x: int| 0 <= x < i ==> mask@[x] == !stale_line(b0, fs, fs.take(j + 1), x),
                    forall|x: int| i <= x < n0 ==> mask@[x] == !stale_line(b0, fs, fs.take(j as int), x),
                    forall|x: int|
                        0 <= x < n0 && !line_has_key(b0[x], k) ==> #[trigger] stale_line(
                            b0,
                            fs,
                            fs.take(j + 1),
                            x,
                        ) == stale_line(b0, fs, fs.take(j as int), x),
                decreases n0 - i,
            {
                assert(b0.take(i + 1).drop_last() =~= b0.take(i as int));
                assert(b0.take(i + 1).last() == b0[i as int]);
                if let Some(d) = s.line(i).as_directive() {
                    if d.field_key().same_key(&f.key) {
                        assert(line_has_key(b0[i as int], k));
                        assert(b0[i as int].kind == LineKindView::Directive(d@));
                        assert(d@.field_key() == k);
                        assert(!has_key(fs.take(j as int), k));
                        assert(!stale_line(b0, fs, fs.take(j as int), i as int));
                        proof {
                            lemma_has_key_take_step(fs, j as int, k);
                        }
                        assert(stale_line(b0, fs, fs.take(j + 1), i as int) == (cnt >= v));
                        if cnt >= v {
                            mask.set(i, false);
                        }
                        cnt = cnt + 1;
                    }
                }
                i = i + 1;
            }
        }
        keeps.push(v);
        assert(mask@ =~= stale_mask(b0, fs, fs.take(j + 1)));
        j = j + 1;
    }
    assert(fs.take(fs.len() as int) =~= fs);
    (keeps, mask)
}

/// Brings `s` in line with `settings`: see [`reconciled_section`].
///
/// # Errors
/// Returns [`Error::EmptyValue`](crate::Error::EmptyValue) for a blank
/// value, [`Error::EmptyKey`](crate::Error::EmptyKey) for a key without
/// text, and [`Error::UnexpectedSelector`](crate::Error::UnexpectedSelector)
/// for a `Host` or `Match` setting; the section then holds the edits made
/// before the failing field.
pub(crate) fn reconcile_section(s: &mut Section, settings: &HostSettings) -> (r: Result<()>)
    ensures
        final(s)@ == reconciled_section(old(s)@, settings@.fields).0,
        r is Ok <==> reconciled_section(old(s)@, settings@.fields).1 is None,
        r matches Err(e) ==> reconciled_section(old(s)@, settings@.fields).1 == Some(e@),
{
    let ghost s0 = s@;
    let ghost fs = settings@.fields;
    let ghost b0 = s0.body;
    let ghost n = fs.len() as int;
    let fields = settings.fields();
    let (keeps, stale) = plan_cumulative(s, settings);
    let mut j: usize = 0;
    while j < fields.len()
        invariant
            j <= fields@.len() == n,
            fields_view(fields@) == fs,
            fs == settings@.fields,
            b0 == s0.body,
            s0 == old(s)@,
            keeps@.len() == n,
            forall|x: int|
                0 <= x < n && new_cumulative_key(fs, x) ==> {
                    &&& keeps@[x] as int == kept_count(b0, fs, fs[x].key)
                    &&& keeps@[x] <= values_of(fs, fs[x].key).len()
                },
            s@ == cumulative_pass(b0, fs, s0, j as int).0,
            cumulative_pass(b0, fs, s0, j as int).1 is None,
        decreases fields.len() - j,
    {
        let f = &fields[j];
        assert(fs[j as int] == f@);
        if f.key.is_cumulative() && !seen_before(fields, j, &f.key) {
            let ghost k = f.key@;
            let desired = settings.get_all(&f.key);
            let v = keeps[j];
            let ghost sb = s@;
            let ghost vals = values_of(fs, k);
            let ghost vs = vals.skip(v as int);
            assert(vals == field_values(field_refs_view(desired@)));
            assert(new_cumulative_key(fs, j as int));
            assert(vals.len() == desired@.len());
            assert(v <= vals.len());
            let mut t: usize = v;
            assert(vs.take(0) =~= Seq::<Seq<char>>::empty());
            while t < desired.len()
                invariant
                    v <= t <= desired.len() == vals.len(),
                    vals == field_values(field_refs_view(desired@)),
                    vs == vals.skip(v as int),
                    k == f.key@,
                    0 <= j < n,
                    n == fs.len(),
                    b0 == s0.body,
                    s0 == old(s)@,
                    fs == settings@.fields,
                    fs[j as int].key == k,
                    new_cumulative_key(fs, j as int),
                    v as int == kept_count(b0, fs, k),
                    vals == values_of(fs, k),
                    sb == cumulative_pass(b0, fs, s0, j as int).0,
                    cumulative_pass(b0, fs, s0, j as int).1 is None,
                    s@ == push_values(sb, k, vs.take(t - v)).0,
                    push_values(sb, k, vs.take(t - v)).1 is None,
                decreases desired.len() - t,
            {
                assert(vs.take(t - v + 1).drop_last() =~= vs.take(t - v));
                assert(vs.take(t - v + 1).last() == desired@[t as int].value@);
                let ghost sp = s@;
                let r = push_setting(s, &f.key, desired[t].value.as_str());
                if let Err(e) = r {
                    proof {
                        assert(push_values(sb, k, vs.take(t - v + 1)) == (sp, Some(e@)));
                        lemma_cumulative_failure(s0, fs, j as int, t - v + 1, sb, sp, e@);
                    }
                    return Err(e);
                }
                t = t + 1;
            }
            assert(vs.take(t - v) =~= vs);
        }
        j = j + 1;
    }
    assert(after_cumulative(s0, fs) == (s@, None::<ErrorView>));
    s.keep_lines(&stale);
    let ghost r0 = s@;
    assert(r0 == pruned(s0, fs));
    let mut j: usize = 0;
    while j < fields.len()
        invariant
            j <= fields@.len() == n,
            fields_view(fields@) == fs,
            n == fs.len(),
            fs == settings@.fields,
            s0 == old(s)@,
            r0 == pruned(s0, fs),
            after_cumulative(s0, fs).1 is None,
            s@ == setting_pass(fs, r0, j as int).0,
            setting_pass(fs, r0, j as int).1 is None,
        decreases fields.len() - j,
    {
        let f = &fields[j];
        assert(fs[j as int] == f@);
        if !f.key.is_cumulative() {
            let ghost before = s@;
            match s.get_one_mut(&f.key) {
                Some(d) => {
                    let ghost d0 = d@;
                    let r = d.set_value(f.value.as_str());
                    if let Err(e) = r {
                        assert(d@ == d0);
                        let ghost i = find_key_from(before.body, f.key@, 0)->Some_0;
                        proof {
                            lemma_find_key_from(before.body, f.key@, 0);
                        }
                        assert(before.body[i].kind == LineKindView::Directive(d0));
                        assert(s@.body == before.body.update(i, LineView { kind: LineKindView::Directive(d@), ..before.body[i] }));
                        assert(s@.body =~= before.body);
                        proof {
                            lemma_setting_failure(s0, fs, j as int, s@, e@);
                        }
                        return Err(e);
                    }
                },
                None => {
                    let r = push_setting(s, &f.key, f.value.as_str());
                    if let Err(e) = r {
                        proof {
                            lemma_setting_failure(s0, fs, j as int, s@, e@);
                        }
                        return Err(e);
                    }
                },
            }
        }
        j = j + 1;
    }
    let ghost b = s@.body;
    let mut mask: Vec<bool> = Vec::new();
    let mut i: usize = 0;
    while i < s.line_count()
        invariant
            i <= b.len(),
            b == s@.body,
            fs == settings@.fields,
            mask@ == wanted_mask(b, fs).take(i as int),
        decreases b.len() - i,
    {
        let keep = match s.line(i).as_directive() {
            Some(d) => settings.contains_key(&d.field_key()),
            None => true,
        };
        mask.push(keep);
        assert(mask@ =~= wanted_mask(b, fs).take(i + 1));
        i = i + 1;
    }
    assert(mask@ =~= wanted_mask(b, fs));
    s.keep_lines(&mask);
    Ok(())
}

/// A new section `Host host`, ended by `ending`, holding a line for each
/// field of `settings`: see [`built_section`].
pub(crate) fn build_section(settings: &HostSettings, ending: LineEnding) -> (r: Result<Section>)
    ensures
        match built_section(settings@.host, settings@.fields, ending) {
            Ok(t) => r matches Ok(x) && x@ == t,
            Err(e) => r matches Err(x) && x@ == e,
        },
{
    let header = Selector::new(FieldKey::Host, settings.host())?.with_ending_typed(ending);
    let mut sec = Section::new(header).with_ending(ending);
    let ghost fresh = sec@;
    let ghost fs = settings@.fields;
    assert(fresh == fresh_section(settings@.host, ending));
    let fields = settings.fields();
    let mut j: usize = 0;
    while j < fields.len()
        invariant
            j <= fields@.len() == fs.len(),
            fields_view(fields@) == fs,
            fs == settings@.fields,
            fresh == fresh_section(settings@.host, ending),
            !is_blank(settings@.host),
            sec@ == push_fields(fresh, fs, j as int).0,
            push_fields(fresh, fs, j as int).1 is None,
        decreases fields.len() - j,
    {
        assert(fs[j as int] == fields@[j as int]@);
        let r = push_setting(&mut sec, &fields[j].key, fields[j].value.as_str());
        if let Err(e) = r {
            proof {
                lemma_push_fields_stuck(fresh, fs, j + 1, fs.len() as int);
            }
            return Err(e);
        }
        j = j + 1;
    }
    Ok(sec)
}

/// A field that can be written as a line: a key with text that does not
/// read as `Host` or `Match`, and a value that is not blank.
pub open spec fn writable(f: FieldView) -> bool {
    &&& key_name(f.key).len() > 0
    &&& !key_is_selector(parse_key(key_name(f.key)))
    &&& !is_blank(f.value)
}

/// Every field can be written as a line.
pub open spec fn all_writable(fs: Seq<FieldView>) -> bool {
    forall|i: int| 0 <= i < fs.len() ==> writable(#[trigger] fs[i])
}

/// A writable line is appended.
proof fn lemma_push_directive_ok(s: SectionView, k: KeyView, v: Seq<char>)
    requires
        writable(FieldView { key: k, value: v }),
    ensures
        push_directive(s, k, v).1 is None,
{
    lemma_space_sep_ok();
}

/// Writable values are all appended.
proof fn lemma_push_values_ok(s: SectionView, k: KeyView, vs: Seq<Seq<char>>)
    requires
        forall|i: int| 0 <= i < vs.len() ==> writable(FieldView { key: k, value: #[trigger] vs[i] }),
    ensures
        push_values(s, k, vs).1 is None,
    decreases vs.len(),
{
    if vs.len() > 0 {
        lemma_push_values_ok(s, k, vs.drop_last());
        lemma_push_directive_ok(push_values(s, k, vs.drop_last()).0, k, vs.last());
    }
}

/// Each field with key `k` is a field of `fs`.
proof fn lemma_fields_with_key_from(fs: Seq<FieldView>, k: KeyView)
    ensures
        forall|t: int|
            0 <= t < fields_with_key(fs, k).len() ==> exists|i: int|
                0 <= i < fs.len() && fs[i] == #[trigger] fields_with_key(fs, k)[t],
    decreases fs.len(),
{
    if fs.len() > 0 {
        lemma_fields_with_key_from(fs.drop_last(), k);
        let r = fields_with_key(fs, k);
        let p = fields_with_key(fs.drop_last(), k);
        assert forall|t: int| 0 <= t < r.len() implies exists|i: int|
            0 <= i < fs.len() && fs[i] == #[trigger] r[t] by {
            if t < p.len() {
                assert(r[t] == p[t]);
                let i = choose|i: int| 0 <= i < fs.drop_last().len() && fs.drop_last()[i] == p[t];
                assert(fs[i] == fs.drop_last()[i]);
            } else {
                assert(fs[fs.len() - 1] == r[t]);
            }
        }
    }
}

/// With writable fields, the pass over the cumulative keys does not fail.
proof fn lemma_cumulative_pass_ok(b0: Seq<LineView>, fs: Seq<FieldView>, s: SectionView, n: int)
    requires
        n <= fs.len(),
        all_writable(fs),
    ensures
        cumulative_pass(b0, fs, s, n).1 is None,
    decreases n,
{
    if n > 0 {
        lemma_cumulative_pass_ok(b0, fs, s, n - 1);
        if new_cumulative_key(fs, n - 1) {
            let k = fs[n - 1].key;
            let vals = values_of(fs, k);
            let vs = vals.skip(kept_count(b0, fs, k));
            lemma_fields_with_key_from(fs, k);
            lemma_fields_with_key_only(fs, k);
            lemma_prefix_from_bounds(
                directive_values(directives_with_key(b0, k)),
                values_of(fs, k),
                0,
            );
            assert forall|i: int| 0 <= i < vs.len() implies writable(
                FieldView { key: k, value: #[trigger] vs[i] },
            ) by {
                let t = i + kept_count(b0, fs, k);
                assert(vs[i] == vals[t]);
                let w = fields_with_key(fs, k)[t];
                let x = choose|x: int| 0 <= x < fs.len() && fs[x] == w;
                assert(writable(fs[x]));
                assert(w.key == k);
            }
            lemma_push_values_ok(cumulative_pass(b0, fs, s, n - 1).0, k, vs);
        }
    }
}

/// Every field with key `k` has key `k`.
proof fn lemma_fields_with_key_only(fs: Seq<FieldView>, k: KeyView)
    ensures
        forall|t: int|
            0 <= t < fields_with_key(fs, k).len() ==> (#[trigger] fields_with_key(fs, k)[t]).key == k,
    decreases fs.len(),
{
    if fs.len() > 0 {
        lemma_fields_with_key_only(fs.drop_last(), k);
        let r = fields_with_key(fs, k);
        let p = fields_with_key(fs.drop_last(), k);
        assert forall|t: int| 0 <= t < r.len() implies (#[trigger] r[t]).key == k by {
            if t < p.len() {
                assert(r[t] == p[t]);
            }
        }
    }
}

/// A common prefix counted from `i` reaches at least `i` and at most the
/// length of `b`.
pub proof fn lemma_prefix_from_bounds(a: Seq<Seq<char>>, b: Seq<Seq<char>>, i: int)
    requires
        0 <= i <= b.len(),
        i <= a.len(),
    ensures
        i <= prefix_from(a, b, i) <= b.len(),
        prefix_from(a, b, i) <= a.len(),
        a.subrange(i, prefix_from(a, b, i)) == b.subrange(i, prefix_from(a, b, i)),
    decreases a.len() - i,
{
    if !(i < a.len() && i < b.len() && a[i] == b[i]) {
        assert(a.subrange(i, i) =~= b.subrange(i, i));
    }
    if i < a.len() && i < b.len() && a[i] == b[i] {
        lemma_prefix_from_bounds(a, b, i + 1);
        let p = prefix_from(a, b, i);
        assert(a.subrange(i, p) =~= seq![a[i]] + a.subrange(i + 1, p));
        assert(b.subrange(i, p) =~= seq![b[i]] + b.subrange(i + 1, p));
    }
}

/// With writable fields, the pass over the other keys does not fail.
proof fn lemma_setting_pass_ok(fs: Seq<FieldView>, s: SectionView, n: int)
    requires
        n <= fs.len(),
        all_writable(fs),
    ensures
        setting_pass(fs, s, n).1 is None,
    decreases n,
{
    if n > 0 {
        lemma_setting_pass_ok(fs, s, n - 1);
        assert(writable(fs[n - 1]));
        lemma_push_directive_ok(setting_pass(fs, s, n - 1).0, fs[n - 1].key, fs[n - 1].value);
    }
}

/// With writable fields, appending them does not fail.
proof fn lemma_push_fields_ok(s: SectionView, fs: Seq<FieldView>, n: int)
    requires
        n <= fs.len(),
        all_writable(fs),
    ensures
        push_fields(s, fs, n).1 is None,
    decreases n,
{
    if n > 0 {
        lemma_push_fields_ok(s, fs, n - 1);
        assert(writable(fs[n - 1]));
        lemma_push_directive_ok(push_fields(s, fs, n - 1).0, fs[n - 1].key, fs[n - 1].value);
    }
}

/// With writable fields, bringing a section in line with them succeeds.
pub proof fn lemma_reconciled_section_ok(s: SectionView, fs: Seq<FieldView>)
    requires
        all_writable(fs),
    ensures
        reconciled_section(s, fs).1 is None,
{
    lemma_cumulative_pass_ok(s.body, fs, s, fs.len() as int);
    lemma_setting_pass_ok(fs, pruned(s, fs), fs.len() as int);
}

/// With writable fields and a host that is not blank, building a section
/// succeeds.
pub proof fn lemma_built_section_ok(host: Seq<char>, fs: Seq<FieldView>, e: LineEnding)
    requires
        all_writable(fs),
        !is_blank(host),
    ensures
        built_section(host, fs, e) is Ok,
{
    lemma_push_fields_ok(fresh_section(host, e), fs, fs.len() as int);
}

} // verus!
