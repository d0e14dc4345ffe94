//! What a read gives back after a write: the values that
//! [`SSHConfig::exact_host_settings`](crate::SSHConfig::exact_host_settings)
//! finds once [`SSHConfig::set_host_settings`](crate::SSHConfig::set_host_settings)
//! has succeeded.
use crate::decor::LineEnding;
use crate::field_keys::{key_is_cumulative, key_name, parse_key, KeyView};
use crate::line::{make_directive, DirectiveView, LineKindView, LineView};
use crate::reconcile::{
    after_cumulative, built_section, cumulative_pass, directive_line, directive_values,
    fresh_section, kept_count, lemma_has_key_take_step, lemma_prefix_from_bounds,
    new_cumulative_key, pruned, push_directive, push_fields, push_values, reconciled_section,
    set_value_at, setting_pass, stale_line, stale_mask, wanted_mask,
};
use crate::section::{
    directives_of, directives_with_key, find_key_from, keep_marked, lemma_find_key_from, line_has_key,
    SectionView,
};
use crate::settings::{
    fields_with_key, has_key, unique_settings, values_of, FieldView, HostSettingsView,
};
use crate::ssh_config::{
    exact_settings, find_section_from, lemma_find_section_from, reconciled, settings_of, ConfigView,
};
use vstd::prelude::*;

verus! {

/// What each line holds, in order.
pub open spec fn kinds(ls: Seq<LineView>) -> Seq<LineKindView> {
    ls.map_values(|l: LineView| l.kind)
}

/// A directive of key `k`.
pub open spec fn kind_has_key(x: LineKindView, k: KeyView) -> bool {
    x matches LineKindView::Directive(d) && d.field_key() == k
}

/// The values of the directives of key `k` among `ks`, in order.
pub open spec fn kind_values(ks: Seq<LineKindView>, k: KeyView) -> Seq<Seq<char>>
    decreases ks.len(),
{
    if ks.len() == 0 {
        Seq::empty()
    } else {
        let r = kind_values(ks.drop_last(), k);
        if kind_has_key(ks.last(), k) {
            r.push(ks.last()->Directive_0.value)
        } else {
            r
        }
    }
}

/// The entries of `ks` that `m` marks to keep; one past the end of `m` is
/// kept.
pub open spec fn keep_kinds(ks: Seq<LineKindView>, m: Seq<bool>) -> Seq<LineKindView>
    decreases ks.len(),
{
    if ks.len() == 0 {
        Seq::empty()
    } else {
        let rest = keep_kinds(ks.drop_last(), m);
        if ks.len() - 1 >= m.len() || m[ks.len() - 1] {
            rest.push(ks.last())
        } else {
            rest
        }
    }
}

/// The values of the lines of key `k` depend on what the lines hold alone.
pub proof fn lemma_values_by_kinds(ls: Seq<LineView>, k: KeyView)
    ensures
        directive_values(directives_with_key(ls, k)) == kind_values(kinds(ls), k),
        directives_with_key(ls, k).len() == kind_values(kinds(ls), k).len(),
    decreases ls.len(),
{
    if ls.len() > 0 {
        lemma_values_by_kinds(ls.drop_last(), k);
        assert(kinds(ls).drop_last() =~= kinds(ls.drop_last()));
        assert(directive_values(directives_with_key(ls, k)) =~= kind_values(kinds(ls), k));
    }
}

/// Keeping lines keeps what they hold.
proof fn lemma_keep_kinds(ls: Seq<LineView>, m: Seq<bool>)
    ensures
        kinds(keep_marked(ls, m)) == keep_kinds(kinds(ls), m),
    decreases ls.len(),
{
    if ls.len() > 0 {
        lemma_keep_kinds(ls.drop_last(), m);
        assert(kinds(ls).drop_last() =~= kinds(ls.drop_last()));
        assert(kinds(keep_marked(ls, m)) =~= keep_kinds(kinds(ls), m));
    }
}

/// The values of key `k` in two runs of lines, one after the other.
pub proof fn lemma_kind_values_append(a: Seq<LineKindView>, b: Seq<LineKindView>, k: KeyView)
    ensures
        kind_values(a + b, k) == kind_values(a, k) + kind_values(b, k),
    decreases b.len(),
{
    if b.len() == 0 {
        assert(a + b =~= a);
        assert(kind_values(a, k) + kind_values(b, k) =~= kind_values(a, k));
    } else {
        lemma_kind_values_append(a, b.drop_last(), k);
        assert((a + b).drop_last() =~= a + b.drop_last());
        assert(kind_values(a + b, k) =~= kind_values(a, k) + kind_values(b, k));
    }
}

/// Keeping every line of key `k` keeps its values.
proof fn lemma_keep_all_of_key(ks: Seq<LineKindView>, m: Seq<bool>, k: KeyView)
    requires
        forall|i: int| 0 <= i < ks.len() && kind_has_key(#[trigger] ks[i], k) ==> i >= m.len() || m[i],
    ensures
        kind_values(keep_kinds(ks, m), k) == kind_values(ks, k),
    decreases ks.len(),
{
    if ks.len() > 0 {
        lemma_keep_all_of_key(ks.drop_last(), m, k);
        let rest = keep_kinds(ks.drop_last(), m);
        assert(rest.push(ks.last()).drop_last() =~= rest);
        assert(kind_has_key(ks[ks.len() - 1], k) ==> ks.len() - 1 >= m.len() || m[ks.len() - 1]);
    }
}

/// Dropping every line of key `k` drops its values.
proof fn lemma_drop_all_of_key(ks: Seq<LineKindView>, m: Seq<bool>, k: KeyView)
    requires
        forall|i: int| 0 <= i < ks.len() && kind_has_key(#[trigger] ks[i], k) ==> i < m.len() && !m[i],
    ensures
        kind_values(keep_kinds(ks, m), k) == Seq::<Seq<char>>::empty(),
    decreases ks.len(),
{
    if ks.len() > 0 {
        lemma_drop_all_of_key(ks.drop_last(), m, k);
        let rest = keep_kinds(ks.drop_last(), m);
        assert(rest.push(ks.last()).drop_last() =~= rest);
        assert(kind_has_key(ks[ks.len() - 1], k) ==> ks.len() - 1 < m.len() && !m[ks.len() - 1]);
    }
}

/// A line with no directive of key `k` contributes no value of it.
pub proof fn lemma_no_key_no_values(ks: Seq<LineKindView>, k: KeyView)
    requires
        forall|i: int| 0 <= i < ks.len() ==> !kind_has_key(#[trigger] ks[i], k),
    ensures
        kind_values(ks, k) == Seq::<Seq<char>>::empty(),
    decreases ks.len(),
{
    if ks.len() > 0 {
        lemma_no_key_no_values(ks.drop_last(), k);
    }
}

/// Replacing the value of the first directive of key `k0` replaces the first
/// value of `k0` and no other.
proof fn lemma_update_first(ks: Seq<LineKindView>, i: int, v: Seq<char>, k0: KeyView, k: KeyView)
    requires
        0 <= i < ks.len(),
        kind_has_key(ks[i], k0),
        forall|q: int| 0 <= q < i ==> !kind_has_key(#[trigger] ks[q], k0),
    ensures
        kind_values(
            ks.update(i, LineKindView::Directive(DirectiveView { value: v, ..ks[i]->Directive_0 })),
            k,
        ) == if k == k0 {
            kind_values(ks, k).update(0, v)
        } else {
            kind_values(ks, k)
        },
        k == k0 ==> kind_values(ks, k).len() > 0,
    decreases ks.len(),
{
    let x = LineKindView::Directive(DirectiveView { value: v, ..ks[i]->Directive_0 });
    let u = ks.update(i, x);
    if i == ks.len() - 1 {
        assert(u.drop_last() =~= ks.drop_last());
        if k == k0 {
            lemma_no_key_no_values(ks.drop_last(), k0);
            assert(kind_values(u, k) =~= kind_values(ks, k).update(0, v));
        }
    } else {
        lemma_update_first(ks.drop_last(), i, v, k0, k);
        assert(u.drop_last() =~= ks.drop_last().update(i, x));
        if k == k0 {
            assert(kind_values(u, k) =~= kind_values(ks, k).update(0, v));
        }
    }
}

/// The line `k v` that a field of key `k` and value `v` is written as.
pub open spec fn directive_kind(k: KeyView, v: Seq<char>) -> LineKindView {
    LineKindView::Directive(DirectiveView { key: key_name(k), sep: seq![' '], value: v })
}

/// A key that reads back as itself once written.
pub open spec fn reads_back(k: KeyView) -> bool {
    parse_key(key_name(k)) == k
}

/// The first value, if any.
pub open spec fn first_only(s: Seq<Seq<char>>) -> Seq<Seq<char>> {
    if s.len() == 0 {
        s
    } else {
        s.take(1)
    }
}

/// The lines `k v` for each `v` of `vs`, in order.
pub open spec fn written(k: KeyView, vs: Seq<Seq<char>>) -> Seq<LineKindView> {
    vs.map_values(|v: Seq<char>| directive_kind(k, v))
}

/// The lines written for key `k` hold the values `vs` of the key they read as.
proof fn lemma_written_values(k: KeyView, vs: Seq<Seq<char>>, k2: KeyView)
    ensures
        kind_values(written(k, vs), k2) == if parse_key(key_name(k)) == k2 {
            vs
        } else {
            Seq::<Seq<char>>::empty()
        },
    decreases vs.len(),
{
    if vs.len() > 0 {
        lemma_written_values(k, vs.drop_last(), k2);
        assert(written(k, vs).drop_last() =~= written(k, vs.drop_last()));
        if parse_key(key_name(k)) == k2 {
            assert(vs.drop_last().push(vs.last()) =~= vs);
        }
    } else {
        assert(vs =~= Seq::<Seq<char>>::empty());
    }
}

/// Appending a line adds what it holds and keeps the header's value.
proof fn lemma_inserted_at_end(s: SectionView, l: LineView)
    ensures
        kinds(s.inserted(s.body.len() as int, l).body) == kinds(s.body).push(l.kind),
        s.inserted(s.body.len() as int, l).header.value == s.header.value,
{
    let t = s.terminated_before(s.body.len() as int, s.inferred_ending());
    assert(kinds(t.body) =~= kinds(s.body));
    assert(kinds(t.body.insert(s.body.len() as int, s.decorate(l))) =~= kinds(s.body).push(l.kind));
}

/// A successful append of `k v` adds the line `k v`.
proof fn lemma_push_directive_kinds(s: SectionView, k: KeyView, v: Seq<char>)
    requires
        push_directive(s, k, v).1 is None,
    ensures
        kinds(push_directive(s, k, v).0.body) == kinds(s.body).push(directive_kind(k, v)),
        push_directive(s, k, v).0.header.value == s.header.value,
{
    if let Ok(d) = make_directive(key_name(k), seq![' '], v) {
        lemma_inserted_at_end(s, directive_line(d));
    }
}

/// A successful run of appends adds the written lines.
proof fn lemma_push_values_kinds(s: SectionView, k: KeyView, vs: Seq<Seq<char>>)
    requires
        push_values(s, k, vs).1 is None,
    ensures
        kinds(push_values(s, k, vs).0.body) == kinds(s.body) + written(k, vs),
        push_values(s, k, vs).0.header.value == s.header.value,
    decreases vs.len(),
{
    if vs.len() == 0 {
        assert(kinds(s.body) + written(k, vs) =~= kinds(s.body));
    } else {
        lemma_push_values_kinds(s, k, vs.drop_last());
        lemma_push_directive_kinds(push_values(s, k, vs.drop_last()).0, k, vs.last());
        assert(kinds(push_values(s, k, vs).0.body) =~= kinds(s.body) + written(k, vs));
    }
}

/// A successful run of appended fields adds their written lines.
proof fn lemma_push_fields_kinds(s: SectionView, fs: Seq<FieldView>, n: int, k: KeyView)
    requires
        0 <= n <= fs.len(),
        push_fields(s, fs, n).1 is None,
        forall|i: int| 0 <= i < fs.len() ==> reads_back(#[trigger] fs[i].key),
    ensures
        kind_values(kinds(push_fields(s, fs, n).0.body), k) == kind_values(kinds(s.body), k)
            + values_of(fs.take(n), k),
        push_fields(s, fs, n).0.header.value == s.header.value,
    decreases n,
{
    if n == 0 {
        assert(fields_with_key(fs.take(0), k) =~= Seq::<FieldView>::empty());
        assert(kind_values(kinds(s.body), k) + values_of(fs.take(n), k) =~= kind_values(kinds(s.body), k));
    } else {
        lemma_push_fields_kinds(s, fs, n - 1, k);
        let p = push_fields(s, fs, n - 1).0;
        lemma_push_directive_kinds(p, fs[n - 1].key, fs[n - 1].value);
        assert(fs[n - 1].key == fs[n - 1].key);
        assert(reads_back(fs[n - 1].key));
        assert(fs.take(n).drop_last() =~= fs.take(n - 1));
        assert(fs.take(n).last() == fs[n - 1]);
        let one = seq![fs[n - 1].value];
        lemma_written_values(fs[n - 1].key, one, k);
        lemma_kind_values_append(kinds(p.body), written(fs[n - 1].key, one), k);
        assert(kinds(p.body).push(directive_kind(fs[n - 1].key, fs[n - 1].value)) =~= kinds(p.body)
            + written(fs[n - 1].key, one));
        if fs[n - 1].key == k {
            assert(values_of(fs.take(n), k) =~= values_of(fs.take(n - 1), k).push(fs[n - 1].value));
        } else {
            assert(values_of(fs.take(n), k) =~= values_of(fs.take(n - 1), k));
        }
        assert(kind_values(kinds(push_fields(s, fs, n).0.body), k) =~= kind_values(kinds(s.body), k)
            + values_of(fs.take(n), k));
    }
}

/// The lines the pass over the cumulative keys among the first `n` fields
/// appends, in order.
pub open spec fn cumulative_tail(b0: Seq<LineView>, fs: Seq<FieldView>, n: int) -> Seq<LineKindView>
    decreases n,
{
    if n <= 0 {
        Seq::empty()
    } else if new_cumulative_key(fs, n - 1) {
        let k = fs[n - 1].key;
        cumulative_tail(b0, fs, n - 1) + written(k, values_of(fs, k).skip(kept_count(b0, fs, k)))
    } else {
        cumulative_tail(b0, fs, n - 1)
    }
}

/// A successful pass over the cumulative keys appends their lines.
proof fn lemma_cumulative_pass_kinds(b0: Seq<LineView>, fs: Seq<FieldView>, s: SectionView, n: int)
    requires
        0 <= n <= fs.len(),
        cumulative_pass(b0, fs, s, n).1 is None,
    ensures
        kinds(cumulative_pass(b0, fs, s, n).0.body) == kinds(s.body) + cumulative_tail(b0, fs, n),
        cumulative_pass(b0, fs, s, n).0.header.value == s.header.value,
    decreases n,
{
    if n == 0 {
        assert(kinds(s.body) + cumulative_tail(b0, fs, n) =~= kinds(s.body));
    } else {
        let acc = cumulative_pass(b0, fs, s, n - 1);
        if !new_cumulative_key(fs, n - 1) {
            lemma_cumulative_pass_kinds(b0, fs, s, n - 1);
        } else {
            lemma_cumulative_pass_kinds(b0, fs, s, n - 1);
            let k = fs[n - 1].key;
            lemma_push_values_kinds(acc.0, k, values_of(fs, k).skip(kept_count(b0, fs, k)));
            assert(kinds(cumulative_pass(b0, fs, s, n).0.body) =~= kinds(s.body) + cumulative_tail(b0, fs, n));
        }
    }
}

/// The values of key `k` among the lines the cumulative pass appends: the
/// wanted values past those that stay, for a cumulative key of the fields.
proof fn lemma_cumulative_tail_values(b0: Seq<LineView>, fs: Seq<FieldView>, n: int, k: KeyView)
    requires
        0 <= n <= fs.len(),
        forall|i: int| 0 <= i < fs.len() ==> reads_back(#[trigger] fs[i].key),
    ensures
        kind_values(cumulative_tail(b0, fs, n), k) == if key_is_cumulative(k) && has_key(fs.take(n), k) {
            values_of(fs, k).skip(kept_count(b0, fs, k))
        } else {
            Seq::<Seq<char>>::empty()
        },
    decreases n,
{
    if n == 0 {
        assert(!has_key(fs.take(0), k));
    } else {
        lemma_cumulative_tail_values(b0, fs, n - 1, k);
        lemma_has_key_take_step(fs, n - 1, k);
        if new_cumulative_key(fs, n - 1) {
            let kj = fs[n - 1].key;
            let vs = values_of(fs, kj).skip(kept_count(b0, fs, kj));
            assert(reads_back(fs[n - 1].key));
            lemma_written_values(kj, vs, k);
            lemma_kind_values_append(cumulative_tail(b0, fs, n - 1), written(kj, vs), k);
            if kj == k {
                assert(Seq::<Seq<char>>::empty() + vs =~= vs);
            } else {
                assert(kind_values(cumulative_tail(b0, fs, n - 1), k) + Seq::<Seq<char>>::empty()
                    =~= kind_values(cumulative_tail(b0, fs, n - 1), k));
            }
        }
    }
}

/// Dropping the stale lines, counted line by line: of the first `n` lines,
/// key `k` keeps the run of its values in `b0` that stay, then every
/// appended value.
proof fn lemma_stale_prefix(
    b0: Seq<LineView>,
    fs: Seq<FieldView>,
    ks: Seq<LineKindView>,
    t: Seq<LineKindView>,
    k: KeyView,
    n: int,
)
    requires
        ks == kinds(b0) + t,
        key_is_cumulative(k),
        has_key(fs, k),
        0 <= n <= ks.len(),
        0 <= kept_count(b0, fs, k) <= kind_values(kinds(b0), k).len(),
    ensures
        kind_values(keep_kinds(ks.take(n), stale_mask(b0, fs, fs)), k) == if n <= b0.len() {
            let r = kind_values(kinds(b0).take(n), k);
            if r.len() <= kept_count(b0, fs, k) {
                r
            } else {
                r.take(kept_count(b0, fs, k))
            }
        } else {
            kind_values(kinds(b0), k).take(kept_count(b0, fs, k)) + kind_values(t.take(n - b0.len()), k)
        },
    decreases n,
{
    let m = stale_mask(b0, fs, fs);
    let v = kept_count(b0, fs, k);
    if n == 0 {
        assert(ks.take(0) =~= Seq::<LineKindView>::empty());
        assert(kinds(b0).take(0) =~= Seq::<LineKindView>::empty());
    } else {
        let j = n - 1;
        lemma_stale_prefix(b0, fs, ks, t, k, j);
        let x = ks[j];
        assert(ks.take(n).drop_last() =~= ks.take(j));
        assert(ks.take(n).last() == x);
        let prev = keep_kinds(ks.take(j), m);
        assert(prev.push(x).drop_last() =~= prev);
        if j < b0.len() {
            assert(x == b0[j].kind);
            assert(kinds(b0).take(n).drop_last() =~= kinds(b0).take(j));
            assert(kinds(b0).take(n).last() == x);
            let r = kind_values(kinds(b0).take(j), k);
            if kind_has_key(x, k) {
                lemma_values_by_kinds(b0.take(j), k);
                assert(kinds(b0.take(j)) =~= kinds(b0).take(j));
                let d = x->Directive_0;
                assert(b0[j].kind == LineKindView::Directive(d));
                assert(m[j] == !stale_line(b0, fs, fs, j));
                assert(stale_line(b0, fs, fs, j) == (r.len() >= v));
                let r2 = r.push(d.value);
                assert(kind_values(kinds(b0).take(n), k) == r2);
                if r.len() >= v {
                    assert(r2.take(v) =~= r.take(v));
                } else if r.len() + 1 <= v {
                    assert(kind_values(keep_kinds(ks.take(n), m), k) == r2);
                }
            } else {
                assert(kind_values(kinds(b0).take(n), k) == r);
            }
        } else {
            assert(j >= m.len());
            if j == b0.len() {
                assert(kinds(b0).take(j) =~= kinds(b0));
                let r = kind_values(kinds(b0), k);
                assert(r.len() >= v);
                assert(t.take(0) =~= Seq::<LineKindView>::empty());
                assert(r.take(v) + Seq::<Seq<char>>::empty() =~= r.take(v));
            }
            assert(t.take(n - b0.len()).drop_last() =~= t.take(j - b0.len()));
            assert(t.take(n - b0.len()).last() == x);
            let base = kind_values(kinds(b0), k).take(v);
            let tv = kind_values(t.take(j - b0.len()), k);
            if kind_has_key(x, k) {
                assert(base + tv.push(x->Directive_0.value) =~= (base + tv).push(x->Directive_0.value));
            }
        }
    }
}

/// Dropping the stale lines keeps, of a cumulative key of the fields, the
/// run of its values that stay, then every appended value.
proof fn lemma_stale_values(
    b0: Seq<LineView>,
    fs: Seq<FieldView>,
    a: Seq<LineView>,
    t: Seq<LineKindView>,
    k: KeyView,
)
    requires
        kinds(a) == kinds(b0) + t,
        key_is_cumulative(k),
        has_key(fs, k),
    ensures
        kind_values(kinds(keep_marked(a, stale_mask(b0, fs, fs))), k) == values_of(fs, k).take(
            kept_count(b0, fs, k),
        ) + kind_values(t, k),
{
    let ks = kinds(a);
    let av = directive_values(directives_with_key(b0, k));
    lemma_values_by_kinds(b0, k);
    lemma_prefix_from_bounds(av, values_of(fs, k), 0);
    let v = kept_count(b0, fs, k);
    lemma_stale_prefix(b0, fs, ks, t, k, ks.len() as int);
    lemma_keep_kinds(a, stale_mask(b0, fs, fs));
    assert(ks.take(ks.len() as int) =~= ks);
    assert(av.subrange(0, v) =~= av.take(v));
    assert(values_of(fs, k).subrange(0, v) =~= values_of(fs, k).take(v));
    if ks.len() <= b0.len() {
        assert(t.len() == 0);
        assert(kinds(b0).take(ks.len() as int) =~= kinds(b0));
        assert(t =~= Seq::<LineKindView>::empty());
        let r = kind_values(kinds(b0), k);
        if r.len() <= v {
            assert(r =~= r.take(v));
        }
        assert(r.take(v) + kind_values(t, k) =~= r.take(v));
    } else {
        assert(t.take(ks.len() - b0.len()) =~= t);
    }
}

/// A successful pass over the other keys leaves the values of cumulative
/// keys and of keys it has not reached, and gives each key it has reached
/// its field's value first.
proof fn lemma_setting_pass_values(fs: Seq<FieldView>, r: SectionView, n: int, k: KeyView)
    requires
        0 <= n <= fs.len(),
        setting_pass(fs, r, n).1 is None,
        unique_settings(fs),
        forall|i: int| 0 <= i < fs.len() ==> reads_back(#[trigger] fs[i].key),
    ensures
        setting_pass(fs, r, n).0.header.value == r.header.value,
        key_is_cumulative(k) || !has_key(fs.take(n), k) ==> kind_values(
            kinds(setting_pass(fs, r, n).0.body),
            k,
        ) == kind_values(kinds(r.body), k),
        !key_is_cumulative(k) && has_key(fs.take(n), k) ==> {
            let kv = kind_values(kinds(setting_pass(fs, r, n).0.body), k);
            &&& kv.len() > 0
            &&& forall|p: int| 0 <= p < n && #[trigger] fs[p].key == k ==> kv[0] == fs[p].value
        },
    decreases n,
{
    if n == 0 {
        assert(!has_key(fs.take(0), k));
    } else {
        let j = n - 1;
        lemma_setting_pass_values(fs, r, j, k);
        lemma_has_key_take_step(fs, j, k);
        let acc = setting_pass(fs, r, j);
        let f = fs[j];
        assert forall|p: int| 0 <= p < j && #[trigger] fs[p].key == f.key implies key_is_cumulative(
            f.key,
        ) by {
            assert(fs[p].key == fs[j].key);
        }
        if !key_is_cumulative(f.key) {
            let ks = kinds(acc.0.body);
            lemma_find_key_from(acc.0.body, f.key, 0);
            match find_key_from(acc.0.body, f.key, 0) {
                Some(i) => {
                    assert(kind_has_key(ks[i], f.key));
                    assert forall|q: int| 0 <= q < i implies !kind_has_key(#[trigger] ks[q], f.key) by {
                        assert(!line_has_key(acc.0.body[q], f.key));
                    }
                    lemma_update_first(ks, i, f.value, f.key, k);
                    let sv = set_value_at(acc.0, i, f.value);
                    assert(kinds(sv.body) =~= ks.update(
                        i,
                        LineKindView::Directive(DirectiveView { value: f.value, ..ks[i]->Directive_0 }),
                    ));
                },
                None => {
                    assert forall|q: int| 0 <= q < ks.len() implies !kind_has_key(#[trigger] ks[q], f.key) by {
                        assert(!line_has_key(acc.0.body[q], f.key));
                    }
                    lemma_no_key_no_values(ks, f.key);
                    lemma_push_directive_kinds(acc.0, f.key, f.value);
                    let one = seq![f.value];
                    assert(reads_back(fs[j].key));
                    lemma_written_values(f.key, one, k);
                    lemma_kind_values_append(ks, written(f.key, one), k);
                    assert(ks.push(directive_kind(f.key, f.value)) =~= ks + written(f.key, one));
                    if f.key == k {
                        assert(Seq::<Seq<char>>::empty() + one =~= one);
                    } else {
                        assert(kind_values(ks, k) + Seq::<Seq<char>>::empty() =~= kind_values(ks, k));
                    }
                },
            }
        }
    }
}

/// Some field has key `k` exactly when there is a field of key `k`.
pub proof fn lemma_has_key_values(fs: Seq<FieldView>, k: KeyView)
    ensures
        has_key(fs, k) == (fields_with_key(fs, k).len() > 0),
    decreases fs.len(),
{
    if fs.len() > 0 {
        lemma_has_key_values(fs.drop_last(), k);
        let p = fs.drop_last();
        if has_key(fs, k) && fs.last().key != k {
            let w = choose|w: int| 0 <= w < fs.len() && #[trigger] fs[w].key == k;
            assert(p[w].key == k);
        }
        if has_key(p, k) {
            let w = choose|w: int| 0 <= w < p.len() && #[trigger] p[w].key == k;
            assert(fs[w].key == k);
        }
        if fs.last().key == k {
            assert(fs[fs.len() - 1].key == k);
        }
    }
}

/// The values of key `k` once a field is added.
proof fn lemma_values_of_push(fs: Seq<FieldView>, f: FieldView, k: KeyView)
    ensures
        values_of(fs.push(f), k) == if f.key == k {
            values_of(fs, k).push(f.value)
        } else {
            values_of(fs, k)
        },
{
    assert(fs.push(f).drop_last() =~= fs);
    if f.key == k {
        assert(values_of(fs.push(f), k) =~= values_of(fs, k).push(f.value));
    }
}

/// Reading directives as `ssh -G` does: a cumulative key keeps every value
/// in order, another key its first value.
pub proof fn lemma_settings_values(ls: Seq<LineView>, k: KeyView)
    ensures
        values_of(settings_of(directives_of(ls)), k) == if key_is_cumulative(k) {
            kind_values(kinds(ls), k)
        } else {
            first_only(kind_values(kinds(ls), k))
        },
    decreases ls.len(),
{
    if ls.len() == 0 {
        assert(values_of(Seq::<FieldView>::empty(), k) =~= Seq::<Seq<char>>::empty());
    } else {
        let p = ls.drop_last();
        lemma_settings_values(p, k);
        assert(kinds(ls).drop_last() =~= kinds(p));
        assert(kinds(ls).last() == ls.last().kind);
        let prev = kind_values(kinds(p), k);
        if let LineKindView::Directive(d) = ls.last().kind {
            let ds = directives_of(ls);
            assert(ds.drop_last() =~= directives_of(p));
            let fsp = settings_of(directives_of(p));
            let fv = FieldView { key: d.field_key(), value: d.value };
            lemma_values_of_push(fsp, fv, k);
            lemma_has_key_values(fsp, k);
            if d.field_key() == k && !key_is_cumulative(k) {
                if prev.len() > 0 {
                    assert(prev.push(d.value).take(1) =~= prev.take(1));
                } else {
                    assert(values_of(fsp, k) =~= Seq::<Seq<char>>::empty());
                    assert(Seq::<Seq<char>>::empty().push(d.value) =~= prev.push(d.value).take(1));
                }
            }
        }
    }
}

/// Without a cumulative key, the fields of a key number at most one.
pub proof fn lemma_unique_values(fs: Seq<FieldView>, k: KeyView)
    requires
        unique_settings(fs),
        !key_is_cumulative(k),
    ensures
        values_of(fs, k).len() <= 1,
        forall|p: int| 0 <= p < fs.len() && #[trigger] fs[p].key == k ==> values_of(fs, k) == seq![fs[p].value],
    decreases fs.len(),
{
    if fs.len() > 0 {
        let q = fs.drop_last();
        assert(unique_settings(q)) by {
            assert forall|i: int, j: int| 0 <= i < j < q.len() && #[trigger] q[i].key == #[trigger] q[j].key implies key_is_cumulative(q[i].key) by {
                assert(fs[i] == q[i] && fs[j] == q[j]);
            }
        }
        lemma_unique_values(q, k);
        lemma_values_of_push(q, fs.last(), k);
        assert(q.push(fs.last()) =~= fs);
        if fs.last().key == k {
            lemma_has_key_values(q, k);
            if has_key(q, k) {
                let w = choose|w: int| 0 <= w < q.len() && #[trigger] q[w].key == k;
                assert(fs[w].key == fs[fs.len() - 1].key);
            }
            assert(values_of(q, k) =~= Seq::<Seq<char>>::empty());
            assert forall|p: int| 0 <= p < fs.len() && #[trigger] fs[p].key == k implies values_of(fs, k)
                == seq![fs[p].value] by {
                if p < fs.len() - 1 {
                    assert(fs[p].key == fs[fs.len() - 1].key);
                }
                assert(values_of(fs, k) =~= seq![fs[p].value]);
            }
        } else {
            assert forall|p: int| 0 <= p < fs.len() && #[trigger] fs[p].key == k implies values_of(fs, k)
                == seq![fs[p].value] by {
                assert(q[p] == fs[p]);
            }
        }
    }
}

/// Sections with the same header values are found at the same place.
pub proof fn lemma_find_section_same_headers(
    ss: Seq<SectionView>,
    ss2: Seq<SectionView>,
    p: Seq<char>,
    q: int,
)
    requires
        ss.len() == ss2.len(),
        forall|j: int| 0 <= j < ss.len() ==> (#[trigger] ss[j]).header.value == ss2[j].header.value,
    ensures
        find_section_from(ss2, p, q) == find_section_from(ss, p, q),
    decreases ss.len() - q,
{
    if 0 <= q < ss.len() {
        lemma_find_section_same_headers(ss, ss2, p, q + 1);
    }
}

/// Reading a section brought in line with unique fields that read back gives
/// back, for every key, the values of the fields.
pub proof fn lemma_reconciled_section_values(s0: SectionView, fs: Seq<FieldView>, k: KeyView)
    requires
        reconciled_section(s0, fs).1 is None,
        unique_settings(fs),
        forall|i: int| 0 <= i < fs.len() ==> reads_back(#[trigger] fs[i].key),
    ensures
        values_of(settings_of(directives_of(reconciled_section(s0, fs).0.body)), k) == values_of(fs, k),
        reconciled_section(s0, fs).0.header.value == s0.header.value,
{
    let n = fs.len() as int;
    let a = after_cumulative(s0, fs).0;
    let t = cumulative_tail(s0.body, fs, n);
    lemma_cumulative_pass_kinds(s0.body, fs, s0, n);
    let r = pruned(s0, fs);
    lemma_setting_pass_values(fs, r, n, k);
    let b = setting_pass(fs, r, n).0;
    let m = wanted_mask(b.body, fs);
    let f = reconciled_section(s0, fs).0;
    assert(f.body == keep_marked(b.body, m));
    lemma_keep_kinds(b.body, m);
    lemma_settings_values(f.body, k);
    assert(fs.take(n) =~= fs);
    lemma_has_key_values(fs, k);
    if has_key(fs, k) {
        assert forall|i: int| 0 <= i < kinds(b.body).len() && kind_has_key(#[trigger] kinds(b.body)[i], k) implies i >= m.len() || m[i] by {
            assert(kinds(b.body)[i] == b.body[i].kind);
        }
        lemma_keep_all_of_key(kinds(b.body), m, k);
        if key_is_cumulative(k) {
            lemma_stale_values(s0.body, fs, a.body, t, k);
            lemma_keep_kinds(a.body, stale_mask(s0.body, fs, fs));
            lemma_cumulative_tail_values(s0.body, fs, n, k);
            let vals = values_of(fs, k);
            let v = kept_count(s0.body, fs, k);
            lemma_values_by_kinds(s0.body, k);
            lemma_prefix_from_bounds(directive_values(directives_with_key(s0.body, k)), vals, 0);
            assert(vals.take(v) + vals.skip(v) =~= vals);
        } else {
            let p = choose|p: int| 0 <= p < fs.len() && #[trigger] fs[p].key == k;
            lemma_unique_values(fs, k);
            let kv = kind_values(kinds(b.body), k);
            assert(first_only(kv) =~= seq![fs[p].value]);
        }
    } else {
        assert forall|i: int| 0 <= i < kinds(b.body).len() && kind_has_key(#[trigger] kinds(b.body)[i], k) implies i < m.len() && !m[i] by {
            assert(kinds(b.body)[i] == b.body[i].kind);
        }
        lemma_drop_all_of_key(kinds(b.body), m, k);
        assert(values_of(fs, k) =~= Seq::<Seq<char>>::empty());
    }
}

/// Reading a built section gives back, for every key, the values of unique
/// fields that read back.
pub proof fn lemma_built_section_values(host: Seq<char>, fs: Seq<FieldView>, e: LineEnding, k: KeyView)
    requires
        built_section(host, fs, e) is Ok,
        unique_settings(fs),
        forall|i: int| 0 <= i < fs.len() ==> reads_back(#[trigger] fs[i].key),
    ensures
        values_of(settings_of(directives_of(built_section(host, fs, e)->Ok_0.body)), k) == values_of(fs, k),
        built_section(host, fs, e)->Ok_0.header.value == host,
{
    let n = fs.len() as int;
    let fresh = fresh_section(host, e);
    lemma_push_fields_kinds(fresh, fs, n, k);
    let t = built_section(host, fs, e)->Ok_0;
    lemma_settings_values(t.body, k);
    assert(fs.take(n) =~= fs);
    assert(kinds(fresh.body) =~= Seq::<LineKindView>::empty());
    assert(kind_values(kinds(t.body), k) =~= values_of(fs, k));
    if !key_is_cumulative(k) {
        lemma_unique_values(fs, k);
        assert(first_only(values_of(fs, k)) =~= values_of(fs, k));
    }
}

/// What a read gives back of a write: once
/// [`SSHConfig::set_host_settings`](crate::SSHConfig::set_host_settings) has
/// succeeded with settings whose keys read back as themselves,
/// [`SSHConfig::exact_host_settings`](crate::SSHConfig::exact_host_settings)
/// for the same host gives, for every key, the values that were set, in
/// order.
pub proof fn lemma_read_back_after_set(c: ConfigView, h: HostSettingsView, k: KeyView)
    requires
        reconciled(c, h).1 is None,
        unique_settings(h.fields),
        forall|i: int| 0 <= i < h.fields.len() ==> reads_back(#[trigger] h.fields[i].key),
    ensures
        values_of(exact_settings(reconciled(c, h).0, h.host).fields, k) == values_of(h.fields, k),
{
    let c2 = reconciled(c, h).0;
    match find_section_from(c.sections, h.host, 0) {
        Some(i) => {
            lemma_find_section_from(c.sections, h.host, 0);
            lemma_reconciled_section_values(c.sections[i], h.fields, k);
            let ss2 = c.sections.update(i, reconciled_section(c.sections[i], h.fields).0);
            lemma_find_section_same_headers(c.sections, ss2, h.host, 0);
        },
        None => {
            lemma_built_section_values(h.host, h.fields, c.inferred_ending(), k);
            let t = built_section(h.host, h.fields, c.inferred_ending())->Ok_0;
            assert(c2.sections[0] == t);
        },
    }
}

/// The comments and blank lines among `ks`, in order.
pub open spec fn trivia(ks: Seq<LineKindView>) -> Seq<LineKindView>
    decreases ks.len(),
{
    if ks.len() == 0 {
        Seq::empty()
    } else if ks.last() is Directive {
        trivia(ks.drop_last())
    } else {
        trivia(ks.drop_last()).push(ks.last())
    }
}

/// The comments and blank lines of two runs of lines, one after the other.
proof fn lemma_trivia_append(a: Seq<LineKindView>, b: Seq<LineKindView>)
    ensures
        trivia(a + b) == trivia(a) + trivia(b),
    decreases b.len(),
{
    if b.len() == 0 {
        assert(a + b =~= a);
        assert(trivia(a) + trivia(b) =~= trivia(a));
    } else {
        lemma_trivia_append(a, b.drop_last());
        assert((a + b).drop_last() =~= a + b.drop_last());
        assert(trivia(a + b) =~= trivia(a) + trivia(b));
    }
}

/// Directives alone hold no comment or blank line.
proof fn lemma_trivia_directives(ks: Seq<LineKindView>)
    requires
        forall|i: int| 0 <= i < ks.len() ==> (#[trigger] ks[i]) is Directive,
    ensures
        trivia(ks) == Seq::<LineKindView>::empty(),
    decreases ks.len(),
{
    if ks.len() > 0 {
        lemma_trivia_directives(ks.drop_last());
    }
}

/// Keeping every comment and blank line keeps them all, in order.
proof fn lemma_trivia_keep(ks: Seq<LineKindView>, m: Seq<bool>)
    requires
        forall|i: int| 0 <= i < ks.len() && i < m.len() && !m[i] ==> (#[trigger] ks[i]) is Directive,
    ensures
        trivia(keep_kinds(ks, m)) == trivia(ks),
    decreases ks.len(),
{
    if ks.len() > 0 {
        lemma_trivia_keep(ks.drop_last(), m);
        let rest = keep_kinds(ks.drop_last(), m);
        assert(rest.push(ks.last()).drop_last() =~= rest);
        assert(ks[ks.len() - 1] == ks.last());
    }
}

/// Replacing a directive by a directive keeps the comments and blank lines.
proof fn lemma_trivia_update(ks: Seq<LineKindView>, i: int, x: LineKindView)
    requires
        0 <= i < ks.len(),
        ks[i] is Directive,
        x is Directive,
    ensures
        trivia(ks.update(i, x)) == trivia(ks),
    decreases ks.len(),
{
    let u = ks.update(i, x);
    if i == ks.len() - 1 {
        assert(u.drop_last() =~= ks.drop_last());
    } else {
        lemma_trivia_update(ks.drop_last(), i, x);
        assert(u.drop_last() =~= ks.drop_last().update(i, x));
    }
}

/// The lines the cumulative pass appends are directives.
proof fn lemma_cumulative_tail_directives(b0: Seq<LineView>, fs: Seq<FieldView>, n: int)
    requires
        0 <= n <= fs.len(),
    ensures
        forall|i: int| 0 <= i < cumulative_tail(b0, fs, n).len() ==> (#[trigger] cumulative_tail(b0, fs, n)[i]) is Directive,
    decreases n,
{
    if n > 0 {
        lemma_cumulative_tail_directives(b0, fs, n - 1);
        if new_cumulative_key(fs, n - 1) {
            let k = fs[n - 1].key;
            let w = written(k, values_of(fs, k).skip(kept_count(b0, fs, k)));
            let p = cumulative_tail(b0, fs, n - 1);
            assert forall|i: int| 0 <= i < (p + w).len() implies (#[trigger] (p + w)[i]) is Directive by {
                if i >= p.len() {
                    assert((p + w)[i] == w[i - p.len()]);
                }
            }
        }
    }
}

/// A successful pass over the other keys keeps the comments and blank lines.
proof fn lemma_setting_pass_trivia(fs: Seq<FieldView>, r: SectionView, n: int)
    requires
        0 <= n <= fs.len(),
        setting_pass(fs, r, n).1 is None,
    ensures
        trivia(kinds(setting_pass(fs, r, n).0.body)) == trivia(kinds(r.body)),
    decreases n,
{
    if n > 0 {
        lemma_setting_pass_trivia(fs, r, n - 1);
        let acc = setting_pass(fs, r, n - 1);
        let f = fs[n - 1];
        if !key_is_cumulative(f.key) {
            let ks = kinds(acc.0.body);
            lemma_find_key_from(acc.0.body, f.key, 0);
            match find_key_from(acc.0.body, f.key, 0) {
                Some(i) => {
                    let x = LineKindView::Directive(DirectiveView { value: f.value, ..ks[i]->Directive_0 });
                    lemma_trivia_update(ks, i, x);
                    assert(kinds(set_value_at(acc.0, i, f.value).body) =~= ks.update(i, x));
                },
                None => {
                    lemma_push_directive_kinds(acc.0, f.key, f.value);
                    let y = directive_kind(f.key, f.value);
                    assert(ks.push(y).drop_last() =~= ks);
                },
            }
        }
    }
}

/// Bringing a section in line with settings keeps its comments and blank
/// lines, in order.
pub proof fn lemma_reconcile_keeps_trivia(s0: SectionView, fs: Seq<FieldView>)
    requires
        reconciled_section(s0, fs).1 is None,
    ensures
        trivia(kinds(reconciled_section(s0, fs).0.body)) == trivia(kinds(s0.body)),
{
    let n = fs.len() as int;
    let a = after_cumulative(s0, fs).0;
    let t = cumulative_tail(s0.body, fs, n);
    lemma_cumulative_pass_kinds(s0.body, fs, s0, n);
    lemma_cumulative_tail_directives(s0.body, fs, n);
    lemma_trivia_directives(t);
    lemma_trivia_append(kinds(s0.body), t);
    assert(trivia(kinds(s0.body)) + Seq::<LineKindView>::empty() =~= trivia(kinds(s0.body)));
    let sm = stale_mask(s0.body, fs, fs);
    lemma_keep_kinds(a.body, sm);
    assert forall|i: int| 0 <= i < kinds(a.body).len() && i < sm.len() && !sm[i] implies (#[trigger] kinds(a.body)[i]) is Directive by {
        assert(kinds(a.body)[i] == (kinds(s0.body) + t)[i]);
        assert(kinds(s0.body)[i] == s0.body[i].kind);
    }
    lemma_trivia_keep(kinds(a.body), sm);
    let r = pruned(s0, fs);
    lemma_setting_pass_trivia(fs, r, n);
    let b = setting_pass(fs, r, n).0;
    let m = wanted_mask(b.body, fs);
    lemma_keep_kinds(b.body, m);
    assert forall|i: int| 0 <= i < kinds(b.body).len() && i < m.len() && !m[i] implies (#[trigger] kinds(b.body)[i]) is Directive by {
        assert(kinds(b.body)[i] == b.body[i].kind);
    }
    lemma_trivia_keep(kinds(b.body), m);
}

} // verus!
