//! Facts about sequences of ids that the laws of the store rest on.

use vstd::prelude::*;
use vstd::seq_lib::lemma_seq_contains_after_push;
use crate::model::rising;
use crate::record::RecordView;

verus! {

/// Those of rising ids that pass a test still rise, and they are exactly the
/// ids that were there and pass the test.
pub(crate) proof fn lemma_filter_of_rising(ids: Seq<u32>, keep: spec_fn(u32) -> bool)
    requires
        rising(ids),
    ensures
        rising(ids.filter(keep)),
        forall|id: u32| #[trigger] ids.filter(keep).contains(id) ==> ids.contains(id) && keep(id),
        forall|id: u32| #[trigger] ids.contains(id) && keep(id) ==> ids.filter(keep).contains(id),
    decreases ids.len(),
{
    broadcast use lemma_seq_contains_after_push;

    reveal(Seq::filter);
    if ids.len() > 0 {
        let rest = ids.drop_last();
        let kept = rest.filter(keep);
        lemma_filter_of_rising(rest, keep);
        assert(rest.push(ids.last()) =~= ids);
        // What was kept of the rest was in the rest, and so lies below the last id.
        assert forall|i: int| 0 <= i < kept.len() implies kept[i] < ids.last() by {
            assert(kept.contains(kept[i]));
            let k = choose|k: int| 0 <= k < rest.len() && rest[k] == kept[i];
            assert(ids[k] < ids.last());
        }
    }
}

/// Where every id passes the test, the test keeps them all.
pub(crate) proof fn lemma_filter_keeps_all(ids: Seq<u32>, keep: spec_fn(u32) -> bool)
    requires
        forall|i: int| 0 <= i < ids.len() ==> keep(ids[i]),
    ensures
        ids.filter(keep) == ids,
    decreases ids.len(),
{
    reveal(Seq::filter);
    if ids.len() > 0 {
        lemma_filter_keeps_all(ids.drop_last(), keep);
        assert(ids.drop_last().push(ids.last()) =~= ids);
    }
}

/// To pick from the records of some ids those that pass a test is to pick
/// the ids whose records pass it, and then take their records.
pub(crate) proof fn lemma_filter_of_records(
    ids: Seq<u32>,
    record_of: spec_fn(u32) -> RecordView,
    keep: spec_fn(RecordView) -> bool,
)
    ensures
        ids.map_values(record_of).filter(keep) == ids.filter(
            |id: u32| keep(record_of(id)),
        ).map_values(record_of),
    decreases ids.len(),
{
    reveal(Seq::filter);
    if ids.len() > 0 {
        let rest = ids.drop_last();
        lemma_filter_of_records(rest, record_of, keep);
        assert(ids.map_values(record_of).drop_last() =~= rest.map_values(record_of));
    }
}

} // verus!
