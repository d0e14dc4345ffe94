//! Setting the same settings twice: once
//! [`SSHConfig::set_host_settings`](crate::SSHConfig::set_host_settings) has
//! succeeded, a second call with the same settings succeeds and changes
//! nothing.
use crate::chars::is_blank;
use crate::error::ErrorView;
use crate::field_keys::{key_is_cumulative, KeyView};
use crate::line::{make_directive, DirectiveView, LineKindView, LineView};
use crate::readback::{
    first_only, kind_has_key, kind_values, kinds, lemma_built_section_values, lemma_find_section_same_headers,
    lemma_has_key_values, lemma_kind_values_append, lemma_no_key_no_values,
    lemma_reconciled_section_values, lemma_settings_values, lemma_unique_values,
    lemma_values_by_kinds, reads_back,
};
use crate::reconcile::{
    after_cumulative, built_section, cumulative_pass, directive_values, fresh_section, kept_count,
    new_cumulative_key, prefix_from, pruned, push_directive, push_fields,
    reconciled_section, set_value_at, setting_pass, stale_line, stale_mask, wanted_mask,
};
use crate::section::{
    directives_of, directives_with_key, find_key_from, keep_marked, lemma_find_key_from, line_has_key,
    SectionView,
};
use crate::settings::{fields_with_key, has_key, unique_settings, values_of, FieldView, HostSettingsView};
use crate::ssh_config::{find_section_from, lemma_find_section_from, reconciled, settings_of, ConfigView};
use vstd::prelude::*;

verus! {

/// Reading the lines `ls` as `ssh -G` does gives, for every key, the values
/// of the fields `fs`.
pub open spec fn reads_as(ls: Seq<LineView>, fs: Seq<FieldView>) -> bool {
    forall|k: KeyView| #[trigger] values_of(settings_of(directives_of(ls)), k) == values_of(fs, k)
}

/// No field of a key that is not cumulative has a blank value.
pub open spec fn filled(fs: Seq<FieldView>) -> bool {
    forall|j: int| 0 <= j < fs.len() && !key_is_cumulative(fs[j].key) ==> !is_blank(#[trigger] fs[j].value)
}

/// A line of key `k` at `i` adds a value of `k` past those before it.
proof fn lemma_value_at(ls: Seq<LineView>, i: int, k: KeyView)
    requires
        0 <= i < ls.len(),
        line_has_key(ls[i], k),
    ensures
        kind_values(kinds(ls.take(i)), k).len() < kind_values(kinds(ls), k).len(),
        kind_values(kinds(ls), k)[kind_values(kinds(ls.take(i)), k).len() as int]
            == ls[i].kind->Directive_0.value,
{
    let a = kinds(ls.take(i + 1));
    let b = kinds(ls.skip(i + 1));
    assert(kinds(ls) =~= a + b);
    lemma_kind_values_append(a, b, k);
    assert(a.drop_last() =~= kinds(ls.take(i)));
    assert(a.last() == ls[i].kind);
}

/// The first value of key `k` is that of the first line of key `k`; with no
/// such line there is none.
proof fn lemma_first_value(ls: Seq<LineView>, k: KeyView)
    ensures
        find_key_from(ls, k, 0) matches Some(i) ==> kind_values(kinds(ls), k).len() > 0
            && kind_values(kinds(ls), k)[0] == ls[i].kind->Directive_0.value,
        find_key_from(ls, k, 0) is None ==> kind_values(kinds(ls), k).len() == 0,
{
    lemma_find_key_from(ls, k, 0);
    match find_key_from(ls, k, 0) {
        Some(i) => {
            let t = kinds(ls.take(i));
            assert forall|q: int| 0 <= q < t.len() implies !kind_has_key(#[trigger] t[q], k) by {
                assert(t[q] == ls[q].kind);
            }
            lemma_no_key_no_values(t, k);
            lemma_value_at(ls, i, k);
        },
        None => {
            let t = kinds(ls);
            assert forall|q: int| 0 <= q < t.len() implies !kind_has_key(#[trigger] t[q], k) by {
                assert(t[q] == ls[q].kind);
            }
            lemma_no_key_no_values(t, k);
        },
    }
}

/// A run of values has itself as common prefix.
proof fn lemma_prefix_self(a: Seq<Seq<char>>, i: int)
    requires
        0 <= i <= a.len(),
    ensures
        prefix_from(a, a, i) == a.len(),
    decreases a.len() - i,
{
    if i < a.len() {
        lemma_prefix_self(a, i + 1);
    }
}

/// Where every cumulative key already holds its wanted values, the pass
/// over the cumulative keys changes nothing.
proof fn lemma_cumulative_pass_stable(b0: Seq<LineView>, fs: Seq<FieldView>, s: SectionView, n: int)
    requires
        n <= fs.len(),
        forall|k: KeyView|
            key_is_cumulative(k) ==> #[trigger] directive_values(directives_with_key(b0, k))
                == values_of(fs, k),
    ensures
        cumulative_pass(b0, fs, s, n) == (s, None::<ErrorView>),
    decreases n,
{
    if n > 0 {
        lemma_cumulative_pass_stable(b0, fs, s, n - 1);
        if new_cumulative_key(fs, n - 1) {
            let k = fs[n - 1].key;
            let a = values_of(fs, k);
            assert(directive_values(directives_with_key(b0, k)) == a);
            lemma_prefix_self(a, 0);
            assert(kept_count(b0, fs, k) == a.len());
            assert(a.skip(a.len() as int) =~= Seq::<Seq<char>>::empty());
        }
    }
}

/// Keeping every line keeps the lines as they are.
proof fn lemma_keep_every(ls: Seq<LineView>, m: Seq<bool>)
    requires
        forall|i: int| 0 <= i < ls.len() ==> i >= m.len() || #[trigger] m[i],
    ensures
        keep_marked(ls, m) == ls,
    decreases ls.len(),
{
    if ls.len() > 0 {
        lemma_keep_every(ls.drop_last(), m);
        assert(ls.drop_last().push(ls.last()) =~= ls);
    }
}

/// Where every cumulative key already holds its wanted values, no line is
/// stale.
proof fn lemma_none_stale(b0: Seq<LineView>, fs: Seq<FieldView>)
    requires
        forall|k: KeyView|
            key_is_cumulative(k) ==> #[trigger] directive_values(directives_with_key(b0, k))
                == values_of(fs, k),
    ensures
        keep_marked(b0, stale_mask(b0, fs, fs)) == b0,
{
    let m = stale_mask(b0, fs, fs);
    assert forall|i: int| 0 <= i < b0.len() implies i >= m.len() || #[trigger] m[i] by {
        if let LineKindView::Directive(d) = b0[i].kind {
            let k = d.field_key();
            if key_is_cumulative(k) && has_key(fs, k) {
                lemma_value_at(b0, i, k);
                lemma_values_by_kinds(b0.take(i), k);
                lemma_values_by_kinds(b0, k);
                assert(directive_values(directives_with_key(b0, k)) == values_of(fs, k));
                let a = values_of(fs, k);
                lemma_prefix_self(a, 0);
                assert(kept_count(b0, fs, k) == a.len());
                assert(!stale_line(b0, fs, fs, i));
            }
        }
    }
    lemma_keep_every(b0, m);
}

/// Where the first line of each key that is not cumulative already holds
/// its one wanted value, the pass over those keys changes nothing.
proof fn lemma_setting_pass_stable(fs: Seq<FieldView>, s: SectionView, n: int)
    requires
        n <= fs.len(),
        unique_settings(fs),
        filled(fs),
        reads_as(s.body, fs),
    ensures
        setting_pass(fs, s, n) == (s, None::<ErrorView>),
    decreases n,
{
    if n > 0 {
        lemma_setting_pass_stable(fs, s, n - 1);
        let f = fs[n - 1];
        if !key_is_cumulative(f.key) {
            let k = f.key;
            let kv = kind_values(kinds(s.body), k);
            assert(values_of(settings_of(directives_of(s.body)), k) == values_of(fs, k));
            lemma_settings_values(s.body, k);
            lemma_unique_values(fs, k);
            assert(values_of(fs, k) == seq![f.value]);
            assert(first_only(kv) == seq![f.value]);
            lemma_first_value(s.body, k);
            assert(kv.len() > 0);
            assert(kv.take(1)[0] == kv[0]);
            let i = find_key_from(s.body, k, 0)->Some_0;
            lemma_find_key_from(s.body, k, 0);
            assert(!is_blank(fs[n - 1].value));
            let l = s.body[i];
            let d = l.kind->Directive_0;
            assert(d.value == f.value);
            let x = LineView {
                kind: LineKindView::Directive(DirectiveView { value: f.value, ..d }),
                ..l
            };
            assert(x == l);
            assert(s.body.update(i, x) =~= s.body);
            assert(set_value_at(s, i, f.value) == s);
        }
    }
}

/// Where every key already reads as the fields give it, every directive's
/// key is one of the fields'.
proof fn lemma_all_wanted(ls: Seq<LineView>, fs: Seq<FieldView>)
    requires
        reads_as(ls, fs),
    ensures
        keep_marked(ls, wanted_mask(ls, fs)) == ls,
{
    let m = wanted_mask(ls, fs);
    assert forall|i: int| 0 <= i < ls.len() implies i >= m.len() || #[trigger] m[i] by {
        if let LineKindView::Directive(d) = ls[i].kind {
            let k = d.field_key();
            lemma_value_at(ls, i, k);
            lemma_settings_values(ls, k);
            let kv = kind_values(kinds(ls), k);
            assert(values_of(settings_of(directives_of(ls)), k) == values_of(fs, k));
            if !key_is_cumulative(k) {
                assert(first_only(kv).len() > 0);
            }
            assert(values_of(fs, k).len() > 0);
            assert(values_of(fs, k).len() == fields_with_key(fs, k).len());
            lemma_has_key_values(fs, k);
        }
    }
    lemma_keep_every(ls, m);
}

/// A section whose lines already read as unique fields with values that
/// are not blank is brought in line with them without change.
pub proof fn lemma_settled_section(s: SectionView, fs: Seq<FieldView>)
    requires
        unique_settings(fs),
        filled(fs),
        reads_as(s.body, fs),
    ensures
        reconciled_section(s, fs) == (s, None::<ErrorView>),
{
    assert forall|k: KeyView| key_is_cumulative(k) implies #[trigger] directive_values(
        directives_with_key(s.body, k),
    ) == values_of(fs, k) by {
        assert(values_of(settings_of(directives_of(s.body)), k) == values_of(fs, k));
        lemma_settings_values(s.body, k);
        lemma_values_by_kinds(s.body, k);
    }
    let n = fs.len() as int;
    lemma_cumulative_pass_stable(s.body, fs, s, n);
    assert(after_cumulative(s, fs) == (s, None::<ErrorView>));
    lemma_none_stale(s.body, fs);
    assert(pruned(s, fs) == s);
    lemma_setting_pass_stable(fs, s, n);
    lemma_all_wanted(s.body, fs);
}

/// A pass over the keys that are not cumulative that went through held no
/// blank value of them.
proof fn lemma_setting_pass_filled(fs: Seq<FieldView>, s: SectionView, n: int)
    requires
        n <= fs.len(),
        setting_pass(fs, s, n).1 is None,
    ensures
        forall|j: int| 0 <= j < n && !key_is_cumulative(fs[j].key) ==> !is_blank(#[trigger] fs[j].value),
    decreases n,
{
    if n > 0 {
        let acc = setting_pass(fs, s, n - 1);
        assert(acc.1 is None);
        lemma_setting_pass_filled(fs, s, n - 1);
        let f = fs[n - 1];
        if !key_is_cumulative(f.key) {
            if is_blank(f.value) {
                assert(make_directive(crate::field_keys::key_name(f.key), seq![' '], f.value) is Err);
                assert(push_directive(acc.0, f.key, f.value).1 is Some);
            }
        }
    }
}

/// Appending lines for fields that went through held no blank value.
proof fn lemma_push_fields_filled(s: SectionView, fs: Seq<FieldView>, n: int)
    requires
        n <= fs.len(),
        push_fields(s, fs, n).1 is None,
    ensures
        forall|j: int| 0 <= j < n ==> !is_blank(#[trigger] fs[j].value),
    decreases n,
{
    if n > 0 {
        let acc = push_fields(s, fs, n - 1);
        assert(acc.1 is None);
        lemma_push_fields_filled(s, fs, n - 1);
        let f = fs[n - 1];
        if is_blank(f.value) {
            assert(make_directive(crate::field_keys::key_name(f.key), seq![' '], f.value) is Err);
        }
    }
}

/// Setting the same settings twice: once
/// [`SSHConfig::set_host_settings`](crate::SSHConfig::set_host_settings) has
/// succeeded with unique settings whose keys read back as themselves, a
/// second call with the same settings succeeds and leaves the document as
/// it is.
pub proof fn lemma_set_twice(c: ConfigView, h: HostSettingsView)
    requires
        reconciled(c, h).1 is None,
        unique_settings(h.fields),
        forall|i: int| 0 <= i < h.fields.len() ==> reads_back(#[trigger] h.fields[i].key),
    ensures
        reconciled(reconciled(c, h).0, h) == (reconciled(c, h).0, None::<ErrorView>),
{
    let fs = h.fields;
    let n = fs.len() as int;
    let c1 = reconciled(c, h).0;
    lemma_find_section_from(c.sections, h.host, 0);
    match find_section_from(c.sections, h.host, 0) {
        Some(i) => {
            let s0 = c.sections[i];
            let s1 = reconciled_section(s0, fs).0;
            assert forall|k: KeyView| #[trigger] values_of(settings_of(directives_of(s1.body)), k)
                == values_of(fs, k) by {
                lemma_reconciled_section_values(s0, fs, k);
            }
            lemma_reconciled_section_values(s0, fs, KeyView { ordinal: 0, other: Seq::empty() });
            let ss2 = c.sections.update(i, s1);
            assert forall|j: int| 0 <= j < c.sections.len() implies (#[trigger] c.sections[j]).header.value
                == ss2[j].header.value by {}
            lemma_find_section_same_headers(c.sections, ss2, h.host, 0);
            assert(after_cumulative(s0, fs).1 is None);
            lemma_setting_pass_filled(fs, pruned(s0, fs), n);
            lemma_settled_section(s1, fs);
            assert(c1.sections == ss2);
            assert(ss2.update(i, s1) =~= ss2);
        },
        None => {
            let e = c.inferred_ending();
            let t = built_section(h.host, fs, e)->Ok_0;
            assert forall|k: KeyView| #[trigger] values_of(settings_of(directives_of(t.body)), k)
                == values_of(fs, k) by {
                lemma_built_section_values(h.host, fs, e, k);
            }
            lemma_built_section_values(h.host, fs, e, KeyView { ordinal: 0, other: Seq::empty() });
            lemma_push_fields_filled(fresh_section(h.host, e), fs, n);
            assert(c1.sections[0] == t);
            assert(find_section_from(c1.sections, h.host, 0) == Some(0int));
            lemma_settled_section(t, fs);
            assert(c1.sections.update(0, t) =~= c1.sections);
        },
    }
}

} // verus!
