use vstd::prelude::*;

use crate::instatus::Metric;
use crate::table::{string_views, NameTable};

verus! {

/// For each latency monitor, by name, the id of the remote metric its data
/// points go to.
pub type MetricMap = NameTable<String>;

/// The id of each metric whose name is in `wanted`, by name; where two
/// metrics share a name, the one listed later.
pub open spec fn metric_ids(metrics: Seq<Metric>, wanted: Seq<Seq<char>>) -> Map<
    Seq<char>,
    Seq<char>,
>
    decreases metrics.len(),
{
    if metrics.len() == 0 {
        Map::empty()
    } else {
        let earlier = metric_ids(metrics.drop_last(), wanted);
        if wanted.contains(metrics.last().name@) {
            earlier.insert(metrics.last().name@, metrics.last().id@)
        } else {
            earlier
        }
    }
}

/// The views of the ids a metric map holds.
pub open spec fn id_views(m: Map<Seq<char>, String>) -> Map<Seq<char>, Seq<char>> {
    m.map_values(|s: String| s@)
}

/// Whether `name` is one of `names`.
pub fn contains_name(names: &Vec<String>, name: &String) -> (r: bool)
    ensures
        r == string_views(names@).contains(name@),
{
    let ghost views = string_views(names@);
    let mut i: usize = 0;
    while i < names.len()
        invariant
            i <= names@.len(),
            views == string_views(names@),
            forall|k: int| 0 <= k < i ==> (#[trigger] names@[k])@ != name@,
        decreases names@.len() - i,
    {
        if names[i] == *name {
            assert(views[i as int] == name@);
            return true;
        }
        i = i + 1;
    }
    assert forall|k: int| 0 <= k < views.len() implies #[trigger] views[k] != name@ by {
        assert(names@[k]@ != name@);
    }
    false
}

/// The metric map for the monitors named in `wanted`, out of the metrics the
/// status page lists.
pub fn build_metric_map(metrics: &Vec<Metric>, wanted: &Vec<String>) -> (r: MetricMap)
    ensures
        r.wf(),
        id_views(r@) == metric_ids(metrics@, string_views(wanted@)),
{
    let ghost w = string_views(wanted@);
    let mut map: MetricMap = NameTable::new();
    let mut i: usize = 0;
    while i < metrics.len()
        invariant
            i <= metrics@.len(),
            w == string_views(wanted@),
            map.wf(),
            id_views(map@) == metric_ids(metrics@.subrange(0, i as int), w),
        decreases metrics@.len() - i,
    {
        assert(metrics@.subrange(0, i as int + 1).drop_last() =~= metrics@.subrange(0, i as int));
        if contains_name(wanted, &metrics[i].name) {
            let ghost before = map@;
            map.set(&metrics[i].name, metrics[i].id.clone());
            assert(id_views(map@) =~= id_views(before).insert(
                metrics@[i as int].name@,
                metrics@[i as int].id@,
            ));
        }
        i = i + 1;
    }
    assert(metrics@.subrange(0, metrics@.len() as int) =~= metrics@);
    map
}

} // verus!
