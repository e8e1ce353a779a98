//! Read-side aggregation: files into artifacts, metric samples into series.
use vstd::prelude::*;

use crate::entity::{FileRow, MetricRow};
use crate::identity::artifact_id_spec;
use crate::model_helper::metrics_value_of;
use crate::wire::{Metrics, MetricsValue};

verus! {

/// The key that groups a file into an artifact: artifact id, artifact name,
/// parent id.
pub type GroupKey = (Seq<char>, Seq<char>, Seq<char>);

/// The artifact key of a file row.
pub open spec fn group_key(r: FileRow) -> GroupKey {
    (r.artifact_id@, r.artifact_name@, r.parent_id@)
}

/// The files of one artifact.
pub struct FileGroup {
    pub artifact_id: String,
    pub artifact_name: String,
    pub parent_id: String,
    pub files: Vec<FileRow>,
}

impl FileGroup {
    pub open spec fn key(self) -> GroupKey {
        (self.artifact_id@, self.artifact_name@, self.parent_id@)
    }
}

/// The rows under artifact key `k`, in order.
pub open spec fn files_under(rows: Seq<FileRow>, k: GroupKey) -> Seq<FileRow> {
    rows.filter(|r: FileRow| group_key(r) == k)
}

/// The artifact keys of `rows`, each once, in order of first appearance.
pub open spec fn distinct_keys_of(rows: Seq<FileRow>) -> Seq<GroupKey>
    decreases rows.len(),
{
    if rows.len() == 0 {
        Seq::empty()
    } else {
        let d = distinct_keys_of(rows.drop_last());
        if d.contains(group_key(rows.last())) {
            d
        } else {
            d.push(group_key(rows.last()))
        }
    }
}

/// Whether `groups` groups `rows` by artifact key: one group per key that
/// occurs, in order of first appearance, each holding exactly the rows under
/// its key in their order.
pub open spec fn grouped(rows: Seq<FileRow>, groups: Seq<FileGroup>) -> bool {
    &&& groups.len() == distinct_keys_of(rows).len()
    &&& forall|g: int| 0 <= g < groups.len() ==> (#[trigger] groups[g]).key() == distinct_keys_of(rows)[g]
    &&& forall|g: int| 0 <= g < groups.len() ==> (#[trigger] groups[g]).files@ == files_under(
        rows,
        groups[g].key(),
    )
}

proof fn lemma_filter_step<T>(rows: Seq<T>, keep: spec_fn(T) -> bool, i: int)
    requires
        0 <= i < rows.len(),
    ensures
        rows.take(i + 1).filter(keep) == if keep(rows[i]) {
            rows.take(i).filter(keep).push(rows[i])
        } else {
            rows.take(i).filter(keep)
        },
{
    reveal(Seq::filter);
    assert(rows.take(i + 1).drop_last() == rows.take(i));
    assert(rows.take(i + 1).last() == rows[i]);
}

proof fn lemma_files_under_step(rows: Seq<FileRow>, k: GroupKey, i: int)
    requires
        0 <= i < rows.len(),
    ensures
        files_under(rows.take(i + 1), k) == if group_key(rows[i]) == k {
            files_under(rows.take(i), k).push(rows[i])
        } else {
            files_under(rows.take(i), k)
        },
{
    lemma_filter_step(rows, |r: FileRow| group_key(r) == k, i);
}

/// Every row under a key is a row of the table.
pub proof fn lemma_files_under_member(rows: Seq<FileRow>, k: GroupKey, i: int)
    requires
        0 <= i < files_under(rows, k).len(),
    ensures
        exists|m: int| 0 <= m < rows.len() && rows[m] == files_under(rows, k)[i],
    decreases rows.len(),
{
    reveal(Seq::filter);
    if rows.len() > 0 {
        let d = rows.drop_last();
        if i < files_under(d, k).len() {
            lemma_files_under_member(d, k, i);
            let m = choose|m: int| 0 <= m < d.len() && d[m] == files_under(d, k)[i];
            assert(rows[m] == d[m]);
        } else {
            assert(rows[rows.len() - 1] == files_under(rows, k)[i]);
        }
    }
}

fn files_with_key(rows: &Vec<FileRow>, id: &String, name: &String, parent: &String) -> (r: Vec<FileRow>)
    ensures
        r@ == files_under(rows@, (id@, name@, parent@)),
{
    let ghost k = (id@, name@, parent@);
    let mut out: Vec<FileRow> = Vec::new();
    let mut i: usize = 0;
    proof {
        reveal(Seq::filter);
        assert(rows@.take(0) == Seq::<FileRow>::empty());
    }
    while i < rows.len()
        invariant
            i <= rows@.len(),
            k == (id@, name@, parent@),
            out@ == files_under(rows@.take(i as int), k),
        decreases rows@.len() - i,
    {
        proof {
            lemma_files_under_step(rows@, k, i as int);
        }
        let r = &rows[i];
        if r.artifact_id == *id && r.artifact_name == *name && r.parent_id == *parent {
            out.push(r.copy());
        }
        i = i + 1;
    }
    proof {
        assert(rows@.take(rows@.len() as int) == rows@);
    }
    out
}

/// The key that a triple of strings spells.
pub open spec fn key_of(t: (String, String, String)) -> GroupKey {
    (t.0@, t.1@, t.2@)
}

fn find_key(keys: &Vec<(String, String, String)>, r: &FileRow) -> (found: bool)
    ensures
        found <==> keys@.map_values(|t: (String, String, String)| key_of(t)).contains(group_key(*r)),
{
    let ghost ks = keys@.map_values(|t: (String, String, String)| key_of(t));
    let mut k: usize = 0;
    while k < keys.len()
        invariant
            k <= keys@.len(),
            ks == keys@.map_values(|t: (String, String, String)| key_of(t)),
            forall|g: int| 0 <= g < k ==> ks[g] != group_key(*r),
        decreases keys@.len() - k,
    {
        if keys[k].0 == r.artifact_id && keys[k].1 == r.artifact_name && keys[k].2 == r.parent_id {
            assert(ks[k as int] == group_key(*r));
            return true;
        }
        k = k + 1;
    }
    false
}

fn distinct_keys(rows: &Vec<FileRow>) -> (r: Vec<(String, String, String)>)
    ensures
        r@.map_values(|t: (String, String, String)| key_of(t)) == distinct_keys_of(rows@),
{
    let mut keys: Vec<(String, String, String)> = Vec::new();
    let mut i: usize = 0;
    proof {
        assert(rows@.take(0) == Seq::<FileRow>::empty());
        assert(keys@.map_values(|t: (String, String, String)| key_of(t)) =~= Seq::<GroupKey>::empty());
    }
    while i < rows.len()
        invariant
            i <= rows@.len(),
            keys@.map_values(|t: (String, String, String)| key_of(t)) == distinct_keys_of(rows@.take(i as int)),
        decreases rows@.len() - i,
    {
        let r = &rows[i];
        proof {
            assert(rows@.take(i + 1).drop_last() == rows@.take(i as int));
            assert(rows@.take(i + 1).last() == rows@[i as int]);
        }
        let found = find_key(&keys, r);
        if !found {
            let ghost before = keys@;
            keys.push((r.artifact_id.clone(), r.artifact_name.clone(), r.parent_id.clone()));
            proof {
                assert(keys@.map_values(|t: (String, String, String)| key_of(t)) =~= before.map_values(
                    |t: (String, String, String)| key_of(t)).push(group_key(rows@[i as int])));
            }
        }
        i = i + 1;
    }
    proof {
        assert(rows@.take(rows@.len() as int) == rows@);
    }
    keys
}

/// Groups file rows into artifacts by (artifact id, artifact name, parent
/// id), the groups in order of first appearance.
pub fn group_files(rows: &Vec<FileRow>) -> (r: Vec<FileGroup>)
    ensures
        grouped(rows@, r@),
{
    let keys = distinct_keys(rows);
    let ghost ks = keys@.map_values(|t: (String, String, String)| key_of(t));
    let mut groups: Vec<FileGroup> = Vec::new();
    let mut g: usize = 0;
    while g < keys.len()
        invariant
            g <= keys@.len(),
            ks == keys@.map_values(|t: (String, String, String)| key_of(t)),
            ks == distinct_keys_of(rows@),
            groups@.len() == g,
            forall|x: int| 0 <= x < g ==> (#[trigger] groups@[x]).key() == ks[x],
            forall|x: int| 0 <= x < g ==> (#[trigger] groups@[x]).files@ == files_under(
                rows@,
                groups@[x].key(),
            ),
        decreases keys@.len() - g,
    {
        let key = &keys[g];
        let files = files_with_key(rows, &key.0, &key.1, &key.2);
        assert(ks[g as int] == key_of(keys@[g as int]));
        groups.push(
            FileGroup {
                artifact_id: key.0.clone(),
                artifact_name: key.1.clone(),
                parent_id: key.2.clone(),
                files,
            },
        );
        g = g + 1;
    }
    groups
}

/// Files that all belong to one artifact `name` under one parent, and that
/// carry the artifact id derived from the two, group into exactly one
/// artifact with that id, holding all of them.
pub proof fn law_artifact_grouping(rows: Seq<FileRow>, groups: Seq<FileGroup>, parent: Seq<char>, name: Seq<char>)
    requires
        grouped(rows, groups),
        rows.len() > 0,
        forall|i: int| 0 <= i < rows.len() ==> (#[trigger] rows[i]).parent_id@ == parent
            && rows[i].artifact_name@ == name && rows[i].artifact_id@ == artifact_id_spec(parent, name),
    ensures
        groups.len() == 1,
        groups[0].artifact_id@ == artifact_id_spec(parent, name),
        groups[0].artifact_name@ == name,
        groups[0].parent_id@ == parent,
        groups[0].files@ == rows,
{
    let k = (artifact_id_spec(parent, name), name, parent);
    lemma_one_key(rows, k);
    assert(groups[0].key() == k);
    lemma_filter_all(rows, |r: FileRow| group_key(r) == k);
}

proof fn lemma_one_key(rows: Seq<FileRow>, k: GroupKey)
    requires
        rows.len() > 0,
        forall|i: int| 0 <= i < rows.len() ==> group_key(#[trigger] rows[i]) == k,
    ensures
        distinct_keys_of(rows) == seq![k],
    decreases rows.len(),
{
    let d = rows.drop_last();
    assert(group_key(rows[rows.len() - 1]) == k);
    if d.len() > 0 {
        assert forall|i: int| 0 <= i < d.len() implies group_key(#[trigger] d[i]) == k by {
            assert(d[i] == rows[i]);
        }
        lemma_one_key(d, k);
        assert(seq![k].contains(k)) by {
            assert(seq![k][0] == k);
        }
    } else {
        assert(distinct_keys_of(d) == Seq::<GroupKey>::empty());
        assert(Seq::<GroupKey>::empty().push(k) == seq![k]);
    }
}

proof fn lemma_filter_all<T>(rows: Seq<T>, keep: spec_fn(T) -> bool)
    requires
        forall|i: int| 0 <= i < rows.len() ==> keep(#[trigger] rows[i]),
    ensures
        rows.filter(keep) == rows,
    decreases rows.len(),
{
    reveal(Seq::filter);
    if rows.len() > 0 {
        let d = rows.drop_last();
        assert forall|i: int| 0 <= i < d.len() implies keep(#[trigger] d[i]) by {
            assert(d[i] == rows[i]);
        }
        lemma_filter_all(d, keep);
        assert(keep(rows[rows.len() - 1]));
        assert(d.push(rows.last()) == rows);
    }
}

/// The stored samples named `name`, in order.
pub open spec fn rows_named(rows: Seq<MetricRow>, name: Seq<char>) -> Seq<MetricRow> {
    rows.filter(|r: MetricRow| r.name@ == name)
}

/// Whether `values` is what clients see of the stored samples `rows`.
pub open spec fn values_of(values: Seq<MetricsValue>, rows: Seq<MetricRow>) -> bool {
    &&& values.len() == rows.len()
    &&& forall|j: int| 0 <= j < values.len() ==> #[trigger] values[j] == metrics_value_of(rows[j])
}

/// The metric names of `rows`, each once, in order of first appearance.
pub open spec fn distinct_names_of(rows: Seq<MetricRow>) -> Seq<Seq<char>>
    decreases rows.len(),
{
    if rows.len() == 0 {
        Seq::empty()
    } else {
        let d = distinct_names_of(rows.drop_last());
        if d.contains(rows.last().name@) {
            d
        } else {
            d.push(rows.last().name@)
        }
    }
}

/// Whether `series` buckets `rows` by metric name: one series per name that
/// occurs, in order of first appearance, each holding that name's samples in
/// order.
pub open spec fn bucketed(rows: Seq<MetricRow>, series: Seq<Metrics>) -> bool {
    &&& series.len() == distinct_names_of(rows).len()
    &&& forall|s: int| 0 <= s < series.len() ==> (#[trigger] series[s]).key@ == distinct_names_of(rows)[s]
    &&& forall|s: int| 0 <= s < series.len() ==> values_of(
        (#[trigger] series[s]).values@,
        rows_named(rows, series[s].key@),
    )
}

proof fn lemma_rows_named_step(rows: Seq<MetricRow>, name: Seq<char>, i: int)
    requires
        0 <= i < rows.len(),
    ensures
        rows_named(rows.take(i + 1), name) == if rows[i].name@ == name {
            rows_named(rows.take(i), name).push(rows[i])
        } else {
            rows_named(rows.take(i), name)
        },
{
    reveal(Seq::filter);
    let t = rows.take(i + 1);
    assert(t.drop_last() == rows.take(i));
    assert(t.last() == rows[i]);
}

fn values_named(rows: &Vec<MetricRow>, name: &String) -> (r: Vec<MetricsValue>)
    ensures
        values_of(r@, rows_named(rows@, name@)),
{
    let mut out: Vec<MetricsValue> = Vec::new();
    let mut i: usize = 0;
    proof {
        reveal(Seq::filter);
        assert(rows@.take(0) == Seq::<MetricRow>::empty());
    }
    while i < rows.len()
        invariant
            i <= rows@.len(),
            values_of(out@, rows_named(rows@.take(i as int), name@)),
        decreases rows@.len() - i,
    {
        proof {
            lemma_rows_named_step(rows@, name@, i as int);
        }
        let r = &rows[i];
        if r.name == *name {
            let v = MetricsValue::from_metrics(r.copy());
            out.push(v);
        }
        i = i + 1;
    }
    proof {
        assert(rows@.take(rows@.len() as int) == rows@);
    }
    out
}

fn find_name(names: &Vec<String>, name: &String) -> (found: bool)
    ensures
        found <==> names@.map_values(|n: String| n@).contains(name@),
{
    let ghost ns = names@.map_values(|n: String| n@);
    let mut k: usize = 0;
    while k < names.len()
        invariant
            k <= names@.len(),
            ns == names@.map_values(|n: String| n@),
            forall|s: int| 0 <= s < k ==> ns[s] != name@,
        decreases names@.len() - k,
    {
        if names[k] == *name {
            assert(ns[k as int] == name@);
            return true;
        }
        k = k + 1;
    }
    false
}

fn distinct_names(rows: &Vec<MetricRow>) -> (r: Vec<String>)
    ensures
        r@.map_values(|n: String| n@) == distinct_names_of(rows@),
{
    let mut names: Vec<String> = Vec::new();
    let mut i: usize = 0;
    proof {
        assert(rows@.take(0) == Seq::<MetricRow>::empty());
        assert(names@.map_values(|n: String| n@) =~= Seq::<Seq<char>>::empty());
    }
    while i < rows.len()
        invariant
            i <= rows@.len(),
            names@.map_values(|n: String| n@) == distinct_names_of(rows@.take(i as int)),
        decreases rows@.len() - i,
    {
        proof {
            assert(rows@.take(i + 1).drop_last() == rows@.take(i as int));
            assert(rows@.take(i + 1).last() == rows@[i as int]);
        }
        let found = find_name(&names, &rows[i].name);
        if !found {
            let ghost before = names@;
            names.push(rows[i].name.clone());
            proof {
                assert(names@.map_values(|n: String| n@) =~= before.map_values(|n: String| n@).push(
                    rows@[i as int].name@));
            }
        }
        i = i + 1;
    }
    proof {
        assert(rows@.take(rows@.len() as int) == rows@);
    }
    names
}

/// Buckets metric samples by name, the series in order of each name's first
/// sample and each series in insertion order.
pub fn bucket_metrics(rows: &Vec<MetricRow>) -> (r: Vec<Metrics>)
    ensures
        bucketed(rows@, r@),
{
    let names = distinct_names(rows);
    let ghost ns = names@.map_values(|n: String| n@);
    let mut series: Vec<Metrics> = Vec::new();
    let mut s: usize = 0;
    while s < names.len()
        invariant
            s <= names@.len(),
            ns == names@.map_values(|n: String| n@),
            ns == distinct_names_of(rows@),
            series@.len() == s,
            forall|x: int| 0 <= x < s ==> (#[trigger] series@[x]).key@ == ns[x],
            forall|x: int| 0 <= x < s ==> values_of(
                (#[trigger] series@[x]).values@,
                rows_named(rows@, series@[x].key@),
            ),
        decreases names@.len() - s,
    {
        let values = values_named(rows, &names[s]);
        assert(ns[s as int] == names@[s as int]@);
        series.push(Metrics { key: names[s].clone(), values });
        s = s + 1;
    }
    series
}

} // verus!
