//! What holds across several operations of the logbook.

use vstd::prelude::*;

use crate::logbook::{with_log, without_log};
use crate::model::{ids_dense, LogView};

verus! {

/// A project's entries after appending `entries`, each a timestamp and a text,
/// one after another in order.
pub open spec fn logs_after(start: Seq<LogView>, entries: Seq<(Seq<char>, Seq<char>)>) -> Seq<
    LogView,
>
    decreases entries.len(),
{
    if entries.len() == 0 {
        start
    } else {
        with_log(logs_after(start, entries.drop_last()), entries.last().0, entries.last().1)
    }
}

/// Appending entries one after another to a project whose ids are dense
/// keeps the earlier entries, gives the new ones the next ids in call order,
/// and records each one's timestamp and text as given. From an empty project
/// the ids are exactly `0..n`.
pub proof fn lemma_appended_ids(start: Seq<LogView>, entries: Seq<(Seq<char>, Seq<char>)>)
    requires
        ids_dense(start),
    ensures
        logs_after(start, entries).len() == start.len() + entries.len(),
        ids_dense(logs_after(start, entries)),
        logs_after(start, entries).subrange(0, start.len() as int) == start,
        forall|i: int|
            0 <= i < entries.len() ==> (#[trigger] logs_after(start, entries)[start.len() + i]).text
                == entries[i].1 && logs_after(start, entries)[start.len() + i].timestamp
                == entries[i].0,
    decreases entries.len(),
{
    if entries.len() > 0 {
        let prefix = entries.drop_last();
        lemma_appended_ids(start, prefix);
        let before = logs_after(start, prefix);
        let after = logs_after(start, entries);
        assert(after == with_log(before, entries.last().0, entries.last().1));
        assert(after.subrange(0, start.len() as int) =~= before.subrange(0, start.len() as int));
        assert forall|i: int| 0 <= i < entries.len() implies (#[trigger] after[start.len()
            + i]).text == entries[i].1 && after[start.len() + i].timestamp == entries[i].0 by {
            if i < prefix.len() {
                assert(after[start.len() + i] == before[start.len() + i]);
                assert(prefix[i] == entries[i]);
            }
        }
    }
}

/// Deleting entry `k` of `n` leaves `n - 1` entries with ids `0..n-1`, whose
/// timestamps and texts, in order, are those of the others.
pub proof fn lemma_delete_renumbers(logs: Seq<LogView>, k: int)
    requires
        0 <= k < logs.len(),
    ensures
        without_log(logs, k).len() == logs.len() - 1,
        ids_dense(without_log(logs, k)),
        forall|i: int|
            0 <= i < logs.len() - 1 ==> (#[trigger] without_log(logs, k)[i]).text == logs.remove(
                k,
            )[i].text && without_log(logs, k)[i].timestamp == logs.remove(k)[i].timestamp,
{
}

/// Adding a project `x` and then deleting `x` leaves the projects without `x`
/// and every other project as it was, whether or not `x` was there before.
pub proof fn lemma_add_then_delete_project(
    projects: Map<Seq<char>, Seq<LogView>>,
    x: Seq<char>,
)
    ensures
        projects.insert(x, Seq::<LogView>::empty()).remove(x) == projects.remove(x),
        !projects.remove(x).contains_key(x),
        forall|k: Seq<char>|
            k != x ==> (#[trigger] projects.remove(x).contains_key(k) == projects.contains_key(k))
                && projects.remove(x)[k] == projects[k],
{
    assert(projects.insert(x, Seq::<LogView>::empty()).remove(x) =~= projects.remove(x));
}

} // verus!
