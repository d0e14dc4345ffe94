//! The semantic view of a host: its settings as key and value pairs.
use crate::chars::string_from;
use crate::error::{Error, ErrorView, Result};
use crate::field_keys::{key_is_cumulative, key_is_selector, key_name, FieldKey, KeyView};
use vstd::prelude::*;

verus! {

/// A setting: a key and its value.
#[derive(Debug, PartialEq, Clone)]
pub struct Field {
    pub key: FieldKey,
    pub value: String,
}

/// The mathematical value of a [`Field`].
pub struct FieldView {
    pub key: KeyView,
    pub value: Seq<char>,
}

impl View for Field {
    type V = FieldView;

    open spec fn view(&self) -> FieldView {
        FieldView { key: self.key@, value: self.value@ }
    }
}

/// The views of a sequence of fields.
pub open spec fn fields_view(v: Seq<Field>) -> Seq<FieldView> {
    v.map_values(|f: Field| f@)
}

/// The views of a sequence of field references.
pub open spec fn field_refs_view(v: Seq<&Field>) -> Seq<FieldView> {
    v.map_values(|f: &Field| f@)
}

/// Whether some field has key `k`.
pub open spec fn has_key(fs: Seq<FieldView>, k: KeyView) -> bool {
    exists|i: int| 0 <= i < fs.len() && #[trigger] fs[i].key == k
}

/// The fields with key `k`, in order.
pub open spec fn fields_with_key(fs: Seq<FieldView>, k: KeyView) -> Seq<FieldView>
    decreases fs.len(),
{
    if fs.len() == 0 {
        Seq::empty()
    } else if fs.last().key == k {
        fields_with_key(fs.drop_last(), k).push(fs.last())
    } else {
        fields_with_key(fs.drop_last(), k)
    }
}

/// The values of a sequence of fields, in order.
pub open spec fn field_values(fs: Seq<FieldView>) -> Seq<Seq<char>> {
    fs.map_values(|f: FieldView| f.value)
}

/// The values of the fields with key `k`, in order.
pub open spec fn values_of(fs: Seq<FieldView>, k: KeyView) -> Seq<Seq<char>> {
    field_values(fields_with_key(fs, k))
}

/// The fields whose key is not `k`, in order.
pub open spec fn without_key(fs: Seq<FieldView>, k: KeyView) -> Seq<FieldView>
    decreases fs.len(),
{
    if fs.len() == 0 {
        Seq::empty()
    } else if fs.last().key == k {
        without_key(fs.drop_last(), k)
    } else {
        without_key(fs.drop_last(), k).push(fs.last())
    }
}

/// The position of the first field with key `k`.
pub open spec fn first_with_key(fs: Seq<FieldView>, k: KeyView, i: int) -> Option<int>
    decreases fs.len() - i,
{
    if i < 0 || i >= fs.len() {
        None
    } else if fs[i].key == k {
        Some(i)
    } else {
        first_with_key(fs, k, i + 1)
    }
}

/// Only cumulative keys occur more than once.
pub open spec fn unique_settings(fs: Seq<FieldView>) -> bool {
    forall|i: int, j: int|
        0 <= i < j < fs.len() && #[trigger] fs[i].key == #[trigger] fs[j].key ==> key_is_cumulative(
            fs[i].key,
        )
}

/// `fs` with `(k, v)` added as `ssh -G` reads a file: a repeated
/// non-cumulative key keeps its first value.
pub open spec fn dedup_push(fs: Seq<FieldView>, k: KeyView, v: Seq<char>) -> Seq<FieldView> {
    if !has_key(fs, k) || key_is_cumulative(k) {
        fs.push(FieldView { key: k, value: v })
    } else {
        fs
    }
}

/// The mathematical value of a [`HostSettings`].
pub struct HostSettingsView {
    pub host: Seq<char>,
    pub fields: Seq<FieldView>,
}

/// The settings of one host, in order.
pub struct HostSettings {
    host: String,
    fields: Vec<Field>,
}

impl View for HostSettings {
    type V = HostSettingsView;

    closed spec fn view(&self) -> HostSettingsView {
        HostSettingsView { host: self.host@, fields: fields_view(self.fields@) }
    }
}

impl HostSettings {
    /// No settings for `host`.
    pub fn new(host: &str) -> (s: Self)
        ensures
            s@ == (HostSettingsView { host: host@, fields: Seq::empty() }),
            unique_settings(s@.fields),
    {
        let s = HostSettings { host: string_from(host), fields: Vec::new() };
        assert(fields_view(s.fields@) =~= Seq::<FieldView>::empty());
        s
    }

    /// The host these settings are for.
    pub fn host(&self) -> (s: &str)
        ensures
            s@ == self@.host,
    {
        self.host.as_str()
    }

    /// Every [`Field`], in order.
    pub fn fields(&self) -> (r: &[Field])
        ensures
            fields_view(r@) == self@.fields,
    {
        self.fields.as_slice()
    }

    /// How many fields there are.
    pub fn field_count(&self) -> (n: usize)
        ensures
            n == self@.fields.len(),
    {
        self.fields.len()
    }

    /// Whether there is no field.
    pub fn is_empty(&self) -> (b: bool)
        ensures
            b == (self@.fields.len() == 0),
    {
        self.fields.len() == 0
    }

    /// Whether some field has key `key`.
    pub fn contains_key(&self, key: &FieldKey) -> (b: bool)
        ensures
            b == has_key(self@.fields, key@),
    {
        let mut k: usize = 0;
        while k < self.fields.len()
            invariant
                k <= self.fields.len(),
                forall|j: int| 0 <= j < k ==> #[trigger] self@.fields[j].key != key@,
            decreases self.fields.len() - k,
        {
            assert(self@.fields[k as int] == self.fields@[k as int]@);
            if self.fields[k].key.same_key(key) {
                assert(self@.fields[k as int].key == key@);
                return true;
            }
            k = k + 1;
        }
        false
    }

    /// The position of the first field with key `key`.
    fn position_of(&self, key: &FieldKey) -> (r: Option<usize>)
        ensures
            r matches Some(i) ==> first_with_key(self@.fields, key@, 0) == Some(i as int) && i
                < self@.fields.len() && self@.fields[i as int].key == key@,
            r is None ==> first_with_key(self@.fields, key@, 0) is None,
    {
        let mut k: usize = 0;
        while k < self.fields.len()
            invariant
                k <= self.fields.len(),
                first_with_key(self@.fields, key@, 0) == first_with_key(self@.fields, key@, k as int),
            decreases self.fields.len() - k,
        {
            assert(self@.fields[k as int] == self.fields@[k as int]@);
            if self.fields[k].key.same_key(key) {
                return Some(k);
            }
            k = k + 1;
        }
        None
    }

    /// Returns the first [`Field`] with key `key`.
    pub fn get_one(&self, key: &FieldKey) -> (r: Option<&Field>)
        ensures
            match first_with_key(self@.fields, key@, 0) {
                Some(i) => r matches Some(f) && f@ == self@.fields[i],
                None => r is None,
            },
    {
        match self.position_of(key) {
            Some(i) => {
                assert(self@.fields[i as int] == self.fields@[i as int]@);
                Some(&self.fields[i])
            },
            None => None,
        }
    }

    /// Returns the value of the first [`Field`] with key `key`, with
    /// mutability.
    pub fn get_one_mut(&mut self, key: &FieldKey) -> (r: Option<&mut String>)
        ensures
            match first_with_key(old(self)@.fields, key@, 0) {
                Some(i) => r matches Some(v) && v@ == old(self)@.fields[i].value && final(self)@ == (
                HostSettingsView {
                    fields: old(self)@.fields.update(
                        i,
                        FieldView { value: final(v)@, ..old(self)@.fields[i] },
                    ),
                    ..old(self)@
                }),
                None => r is None && final(self)@ == old(self)@,
            },
            unique_settings(old(self)@.fields) ==> unique_settings(final(self)@.fields),
    {
        proof {
            lemma_value_update_keeps_unique();
        }
        match self.position_of(key) {
            Some(i) => {
                proof {
                    lemma_fields_view_update();
                }
                assert(old(self)@.fields[i as int] == self.fields@[i as int]@);
                let f = &mut self.fields[i];
                Some(&mut f.value)
            },
            None => None,
        }
    }

    /// Returns every [`Field`] with key `key`, in order.
    pub fn get_all(&self, key: &FieldKey) -> (r: Vec<&Field>)
        ensures
            field_refs_view(r@) == fields_with_key(self@.fields, key@),
    {
        let mut r: Vec<&Field> = Vec::new();
        let mut k: usize = 0;
        while k < self.fields.len()
            invariant
                k <= self.fields.len(),
                field_refs_view(r@) == fields_with_key(fields_view(self.fields@).take(k as int), key@),
            decreases self.fields.len() - k,
        {
            let ghost fs = fields_view(self.fields@);
            assert(fs.take(k + 1).drop_last() =~= fs.take(k as int));
            assert(fs.take(k + 1).last() == self.fields@[k as int]@);
            if self.fields[k].key.same_key(key) {
                r.push(&self.fields[k]);
            }
            assert(field_refs_view(r@) =~= fields_with_key(fs.take(k + 1), key@));
            k = k + 1;
        }
        assert(fields_view(self.fields@).take(k as int) =~= fields_view(self.fields@));
        r
    }

    /// Construct and push a new `Field` to `HostSettings`.
    ///
    /// # Errors
    /// Returns [`Error::UnexpectedSelector`] if `key` is `Host` or `Match`,
    /// then [`Error::NotCumulative`] if `key` is not cumulative and already
    /// present; the settings are then unchanged.
    pub fn push(&mut self, key: FieldKey, value: &str) -> (r: Result<()>)
        ensures
            key_is_selector(key@) ==> (r matches Err(e) && e@ == ErrorView::UnexpectedSelector(
                key_name(key@),
            )),
            !key_is_selector(key@) && has_key(old(self)@.fields, key@) && !key_is_cumulative(key@)
                ==> (r matches Err(e) && e@ == ErrorView::NotCumulative(key_name(key@))),
            r is Ok <==> !key_is_selector(key@) && (!has_key(old(self)@.fields, key@)
                || key_is_cumulative(key@)),
            final(self)@ == (if r is Ok {
                HostSettingsView {
                    fields: old(self)@.fields.push(FieldView { key: key@, value: value@ }),
                    ..old(self)@
                }
            } else {
                old(self)@
            }),
            unique_settings(old(self)@.fields) ==> unique_settings(final(self)@.fields),
    {
        if key.is_selector() {
            return Err(Error::UnexpectedSelector(key.to_string()));
        }
        if self.contains_key(&key) && !key.is_cumulative() {
            return Err(Error::NotCumulative(key.to_string()));
        }
        proof {
            if unique_settings(old(self)@.fields) {
                lemma_push_keeps_unique(old(self)@.fields, FieldView { key: key@, value: value@ });
            }
        }
        self.fields.push(Field { key, value: string_from(value) });
        assert(fields_view(self.fields@) =~= old(self)@.fields.push(FieldView { key: key@, value: value@ }));
        Ok(())
    }

    /// Remove every field with key `key`; returns whether one was removed.
    pub fn remove_all(&mut self, key: &FieldKey) -> (b: bool)
        ensures
            b == has_key(old(self)@.fields, key@),
            final(self)@ == (HostSettingsView {
                fields: without_key(old(self)@.fields, key@),
                ..old(self)@
            }),
            unique_settings(old(self)@.fields) ==> unique_settings(final(self)@.fields),
    {
        proof {
            if unique_settings(old(self)@.fields) {
                lemma_without_key_keeps_unique(old(self)@.fields, key@);
            }
        }
        let mut all: Vec<Field> = Vec::new();
        std::mem::swap(&mut all, &mut self.fields);
        let ghost fs = fields_view(all@);
        let mut kept: Vec<Field> = Vec::new();
        let mut removed = false;
        for f in it: all.into_iter()
            invariant
                fs == fields_view(it.seq()),
                fields_view(kept@) == without_key(fs.take(it.index() as int), key@),
                removed == has_key(fs.take(it.index() as int), key@),
        {
            let ghost k = it.index() as int;
            assert(fs.take(k + 1).drop_last() =~= fs.take(k));
            assert(fs.take(k + 1).last() == f@);
            if !f.key.same_key(key) {
                kept.push(f);
            } else {
                removed = true;
            }
            proof {
                let t = fs.take(k + 1);
                if has_key(t, key@) && !has_key(fs.take(k), key@) {
                    let w = choose|w: int| 0 <= w < t.len() && #[trigger] t[w].key == key@;
                    if w < k {
                        assert(fs.take(k)[w] == t[w]);
                    }
                }
                if has_key(fs.take(k), key@) {
                    let w = choose|w: int| 0 <= w < k && #[trigger] fs.take(k)[w].key == key@;
                    assert(t[w] == fs.take(k)[w]);
                }
                if f@.key == key@ {
                    assert(t[k] == f@);
                }
            }
            assert(fields_view(kept@) =~= without_key(fs.take(k + 1), key@));
        }
        assert(fs.take(fs.len() as int) =~= fs);
        self.fields = kept;
        removed
    }

    /// Remove every field with key `key`, then push `(key, value)`.
    ///
    /// # Errors
    /// Returns [`Error::UnexpectedSelector`] if `key` is `Host` or `Match`;
    /// the fields with key `key` are then removed all the same.
    pub fn replace(&mut self, key: FieldKey, value: &str) -> (r: Result<()>)
        ensures
            r is Ok <==> !key_is_selector(key@),
            r matches Err(e) ==> e@ == ErrorView::UnexpectedSelector(key_name(key@)),
            final(self)@ == (HostSettingsView {
                fields: if r is Ok {
                    without_key(old(self)@.fields, key@).push(FieldView { key: key@, value: value@ })
                } else {
                    without_key(old(self)@.fields, key@)
                },
                ..old(self)@
            }),
            unique_settings(old(self)@.fields) ==> unique_settings(final(self)@.fields),
    {
        self.remove_all(&key);
        proof {
            lemma_without_key_has_no_key(old(self)@.fields, key@);
        }
        self.push(key, value)
    }

    /// Construct and push a new `Field` while ensuring fields
    /// are deduped the same way that `ssh -G` does: a repeated non-cumulative
    /// key keeps its first value.
    pub fn push_dedup(&mut self, key: FieldKey, value: &str)
        ensures
            final(self)@ == (HostSettingsView {
                fields: dedup_push(old(self)@.fields, key@, value@),
                ..old(self)@
            }),
            unique_settings(old(self)@.fields) ==> unique_settings(final(self)@.fields),
    {
        proof {
            if unique_settings(old(self)@.fields) {
                lemma_dedup_push_keeps_unique(old(self)@.fields, key@, value@);
            }
        }
        if !self.contains_key(&key) || key.is_cumulative() {
            self.fields.push(Field { key, value: string_from(value) });
            assert(fields_view(self.fields@) =~= old(self)@.fields.push(FieldView { key: key@, value: value@ }));
        }
    }
}

/// Changing the value of a field keeps keys that are not cumulative
/// unique.
pub proof fn lemma_value_update_keeps_unique()
    ensures
        forall|fs: Seq<FieldView>, i: int, v: Seq<char>|
            0 <= i < fs.len() && unique_settings(fs) ==> unique_settings(
                #[trigger] fs.update(i, FieldView { key: fs[i].key, value: v }),
            ),
{
    assert forall|fs: Seq<FieldView>, i: int, v: Seq<char>|
        0 <= i < fs.len() && unique_settings(fs) implies unique_settings(
            #[trigger] fs.update(i, FieldView { key: fs[i].key, value: v }),
        ) by {
        let r = fs.update(i, FieldView { key: fs[i].key, value: v });
        assert forall|a: int, b: int| 0 <= a < b < r.len() && #[trigger] r[a].key == #[trigger] r[b].key implies key_is_cumulative(r[a].key) by {
            assert(r[a].key == fs[a].key && r[b].key == fs[b].key);
        }
    }
}

/// After removing key `k`, no field has key `k`.
proof fn lemma_without_key_has_no_key(fs: Seq<FieldView>, k: KeyView)
    ensures
        !has_key(without_key(fs, k), k),
    decreases fs.len(),
{
    if fs.len() > 0 {
        lemma_without_key_has_no_key(fs.drop_last(), k);
        let r = without_key(fs, k);
        let p = without_key(fs.drop_last(), k);
        if has_key(r, k) {
            let w = choose|w: int| 0 <= w < r.len() && #[trigger] r[w].key == k;
            if fs.last().key != k && w < p.len() {
                assert(r[w] == p[w]);
            }
        }
    }
}

/// Replacing a field replaces its view.
proof fn lemma_fields_view_update()
    ensures
        forall|v: Seq<Field>, i: int, x: Field|
            0 <= i < v.len() ==> #[trigger] fields_view(v.update(i, x)) == fields_view(v).update(
                i,
                x@,
            ),
{
    assert forall|v: Seq<Field>, i: int, x: Field| 0 <= i < v.len() implies #[trigger] fields_view(
        v.update(i, x),
    ) == fields_view(v).update(i, x@) by {
        assert(fields_view(v.update(i, x)) =~= fields_view(v).update(i, x@));
    }
}

/// Each field left after removing key `k` is a field of `fs`, of another key.
proof fn lemma_without_key_from(fs: Seq<FieldView>, k: KeyView)
    ensures
        forall|t: int|
            0 <= t < without_key(fs, k).len() ==> exists|u: int|
                0 <= u < fs.len() && fs[u] == #[trigger] without_key(fs, k)[t],
    decreases fs.len(),
{
    if fs.len() > 0 {
        lemma_without_key_from(fs.drop_last(), k);
        let r = without_key(fs, k);
        let p = without_key(fs.drop_last(), k);
        assert forall|t: int| 0 <= t < r.len() implies exists|u: int|
            0 <= u < fs.len() && fs[u] == #[trigger] r[t] by {
            if t < p.len() {
                assert(r[t] == p[t]);
                let u = choose|u: int| 0 <= u < fs.drop_last().len() && fs.drop_last()[u] == p[t];
                assert(fs[u] == fs.drop_last()[u]);
            } else {
                assert(fs[fs.len() - 1] == r[t]);
            }
        }
    }
}

/// Adding a field keeps keys that are not cumulative unique, as long as
/// its key is new or cumulative.
pub proof fn lemma_push_keeps_unique(fs: Seq<FieldView>, f: FieldView)
    requires
        unique_settings(fs),
        !has_key(fs, f.key) || key_is_cumulative(f.key),
    ensures
        unique_settings(fs.push(f)),
{
    let r = fs.push(f);
    assert forall|i: int, j: int| 0 <= i < j < r.len() && #[trigger] r[i].key == #[trigger] r[j].key implies key_is_cumulative(r[i].key) by {
        if j == fs.len() {
            assert(r[i] == fs[i]);
        } else {
            assert(r[i] == fs[i] && r[j] == fs[j]);
        }
    }
}

/// Settings read as `ssh -G` reads a file keep keys that are not
/// cumulative unique.
pub proof fn lemma_dedup_push_keeps_unique(fs: Seq<FieldView>, k: KeyView, v: Seq<char>)
    requires
        unique_settings(fs),
    ensures
        unique_settings(dedup_push(fs, k, v)),
{
    if !has_key(fs, k) || key_is_cumulative(k) {
        lemma_push_keeps_unique(fs, FieldView { key: k, value: v });
    }
}

/// Removing a key keeps keys that are not cumulative unique.
pub proof fn lemma_without_key_keeps_unique(fs: Seq<FieldView>, k: KeyView)
    requires
        unique_settings(fs),
    ensures
        unique_settings(without_key(fs, k)),
    decreases fs.len(),
{
    if fs.len() > 0 {
        let q = fs.drop_last();
        assert(unique_settings(q)) by {
            assert forall|i: int, j: int| 0 <= i < j < q.len() && #[trigger] q[i].key == #[trigger] q[j].key implies key_is_cumulative(q[i].key) by {
                assert(fs[i] == q[i] && fs[j] == q[j]);
            }
        }
        lemma_without_key_keeps_unique(q, k);
        let p = without_key(q, k);
        if fs.last().key != k {
            lemma_without_key_from(q, k);
            let r = p.push(fs.last());
            assert forall|i: int, j: int| 0 <= i < j < r.len() && #[trigger] r[i].key == #[trigger] r[j].key implies key_is_cumulative(r[i].key) by {
                if j == p.len() {
                    assert(r[i] == p[i]);
                    let u = choose|u: int| 0 <= u < q.len() && q[u] == #[trigger] p[i];
                    assert(fs[u] == q[u]);
                    assert(fs[u].key == fs[fs.len() - 1].key);
                } else {
                    assert(r[i] == p[i] && r[j] == p[j]);
                }
            }
        }
    }
}

/// Replacing a key keeps keys that are not cumulative unique.
pub proof fn lemma_replace_keeps_unique(fs: Seq<FieldView>, k: KeyView, v: Seq<char>)
    requires
        unique_settings(fs),
    ensures
        unique_settings(without_key(fs, k).push(FieldView { key: k, value: v })),
{
    lemma_without_key_keeps_unique(fs, k);
    lemma_without_key_has_no_key(fs, k);
    lemma_push_keeps_unique(without_key(fs, k), FieldView { key: k, value: v });
}

/// After replacing key `k` by the value `v`, the values of `k` are `v` alone.
pub proof fn lemma_replace_then_read(fs: Seq<FieldView>, k: KeyView, v: Seq<char>)
    ensures
        values_of(without_key(fs, k).push(FieldView { key: k, value: v }), k) == seq![v],
{
    let w = without_key(fs, k);
    lemma_without_key_has_no_key(fs, k);
    lemma_no_key_no_fields(w, k);
    assert(w.push(FieldView { key: k, value: v }).drop_last() =~= w);
    assert(values_of(w.push(FieldView { key: k, value: v }), k) =~= seq![v]);
}

/// Without a field of key `k`, there are no values of `k`.
pub proof fn lemma_no_key_no_fields(fs: Seq<FieldView>, k: KeyView)
    requires
        !has_key(fs, k),
    ensures
        fields_with_key(fs, k) == Seq::<FieldView>::empty(),
    decreases fs.len(),
{
    if fs.len() > 0 {
        assert(!has_key(fs.drop_last(), k)) by {
            if has_key(fs.drop_last(), k) {
                let w = choose|w: int| 0 <= w < fs.drop_last().len() && #[trigger] fs.drop_last()[w].key == k;
                assert(fs[w].key == k);
            }
        }
        lemma_no_key_no_fields(fs.drop_last(), k);
        assert(fs.last().key != k) by {
            assert(fs[fs.len() - 1].key != k);
        }
    }
}

} // verus!
