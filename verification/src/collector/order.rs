//! The order in which sessions are listed.
use crate::model::{session_models, AgentSession, SessionModel};
use vstd::prelude::*;

verus! {

/// `sorted` with `s` behind the sessions that are not older.
pub open spec fn insert_newest(sorted: Seq<SessionModel>, s: SessionModel) -> Seq<SessionModel>
    decreases sorted.len(),
{
    if sorted.len() == 0 || sorted.last().started_at >= s.started_at {
        sorted.push(s)
    } else {
        insert_newest(sorted.drop_last(), s).push(sorted.last())
    }
}

/// The sessions with the latest start first; those that started together keep
/// their order.
pub open spec fn newest_first(list: Seq<SessionModel>) -> Seq<SessionModel>
    decreases list.len(),
{
    if list.len() == 0 {
        Seq::empty()
    } else {
        insert_newest(newest_first(list.drop_last()), list.last())
    }
}

/// Whether no session stands before one that started later.
pub open spec fn is_newest_first(list: Seq<SessionModel>) -> bool {
    forall|i: int, j: int| 0 <= i < j < list.len() ==> list[i].started_at >= list[j].started_at
}

/// The sessions that started at `t`, in their order.
pub open spec fn started_at(list: Seq<SessionModel>, t: u64) -> Seq<SessionModel> {
    list.filter(|s: SessionModel| s.started_at == t)
}

proof fn lemma_insert(sorted: Seq<SessionModel>, s: SessionModel)
    requires
        is_newest_first(sorted),
    ensures
        is_newest_first(insert_newest(sorted, s)),
        insert_newest(sorted, s).to_multiset() == sorted.push(s).to_multiset(),
        forall|i: int|
            0 <= i < insert_newest(sorted, s).len() ==> (#[trigger] insert_newest(sorted, s)[i]) == s
                || sorted.contains(insert_newest(sorted, s)[i]),
        forall|t: u64| started_at(insert_newest(sorted, s), t) == #[trigger] started_at(sorted.push(s), t),
    decreases sorted.len(),
{
    broadcast use vstd::seq_lib::group_to_multiset_ensures;

    let result = insert_newest(sorted, s);
    if sorted.len() == 0 || sorted.last().started_at >= s.started_at {
        assert forall|i: int| 0 <= i < result.len() implies (#[trigger] result[i]) == s || sorted.contains(
            result[i],
        ) by {
            if i < sorted.len() {
                assert(sorted[i] == result[i]);
            }
        }
    } else {
        let front = sorted.drop_last();
        let last = sorted.last();
        let inner = insert_newest(front, s);
        lemma_insert(front, s);
        assert(front.push(last) =~= sorted);
        assert forall|i: int| 0 <= i < result.len() implies (#[trigger] result[i]) == s || sorted.contains(
            result[i],
        ) by {
            if i < inner.len() {
                assert(result[i] == inner[i]);
                if inner[i] != s {
                    let k = front.index_of(inner[i]);
                    assert(sorted[k] == inner[i]);
                }
            } else {
                assert(sorted[sorted.len() - 1] == last);
            }
        }
        assert forall|i: int, j: int| 0 <= i < j < result.len() implies result[i].started_at
            >= result[j].started_at by {
            if j == inner.len() {
                assert(result[i] == inner[i]);
                if inner[i] != s {
                    let k = front.index_of(inner[i]);
                    assert(sorted[k] == inner[i]);
                }
            }
        }
        assert(result.to_multiset() =~= front.to_multiset().insert(s).insert(last));
        assert(sorted.push(s).to_multiset() =~= front.to_multiset().insert(last).insert(s));
        assert forall|t: u64| started_at(result, t) == #[trigger] started_at(sorted.push(s), t) by {
            assert(started_at(inner, t) == started_at(front.push(s), t));
            lemma_filter_push(inner, last, t);
            lemma_filter_push(front, s, t);
            lemma_filter_push(front, last, t);
            lemma_filter_push(sorted, s, t);
        }
    }
}

proof fn lemma_filter_push(list: Seq<SessionModel>, s: SessionModel, t: u64)
    ensures
        started_at(list.push(s), t) == if s.started_at == t {
            started_at(list, t).push(s)
        } else {
            started_at(list, t)
        },
{
    reveal(Seq::filter);
    assert(list.push(s).drop_last() =~= list);
}

/// Listing the newest first sorts the sessions, keeps each of them as often as it
/// was there, and leaves those that started together in their order.
pub proof fn law_newest_first(list: Seq<SessionModel>)
    ensures
        is_newest_first(newest_first(list)),
        forall|i: int, j: int|
            0 <= i < j < newest_first(list).len() ==> newest_first(list)[i].started_at
                >= newest_first(list)[j].started_at,
        newest_first(list).len() == list.len(),
        newest_first(list).to_multiset() == list.to_multiset(),
        forall|t: u64| #[trigger] started_at(newest_first(list), t) == started_at(list, t),
    decreases list.len(),
{
    broadcast use vstd::seq_lib::group_to_multiset_ensures;

    list.to_multiset_ensures();
    newest_first(list).to_multiset_ensures();
    if list.len() > 0 {
        let front = list.drop_last();
        let s = list.last();
        law_newest_first(front);
        let sorted = newest_first(front);
        lemma_insert(sorted, s);
        assert(front.push(s) =~= list);
        assert forall|t: u64| #[trigger] started_at(newest_first(list), t) == started_at(list, t) by {
            assert(started_at(newest_first(list), t) == started_at(sorted.push(s), t));
            assert(started_at(sorted, t) == started_at(front, t));
            lemma_filter_push(sorted, s, t);
            lemma_filter_push(front, s, t);
        }
    } else {
        assert(newest_first(list) =~= list);
    }
}

proof fn lemma_insert_at(sorted: Seq<SessionModel>, s: SessionModel, i: int)
    requires
        0 <= i <= sorted.len(),
        i > 0 ==> sorted[i - 1].started_at >= s.started_at,
        forall|k: int| i <= k < sorted.len() ==> (#[trigger] sorted[k]).started_at < s.started_at,
    ensures
        insert_newest(sorted, s) == sorted.insert(i, s),
    decreases sorted.len(),
{
    if i == sorted.len() {
        assert(sorted.insert(i, s) =~= sorted.push(s));
    } else {
        assert(sorted[sorted.len() - 1].started_at < s.started_at);
        let front = sorted.drop_last();
        lemma_insert_at(front, s, i);
        assert(front.insert(i, s).push(sorted.last()) =~= sorted.insert(i, s));
    }
}

/// Puts `s` behind the sessions that are not older.
pub fn insert_by_start(sorted: &mut Vec<AgentSession>, s: AgentSession)
    ensures
        session_models(final(sorted)@) == insert_newest(session_models(old(sorted)@), s@),
{
    let ghost before = session_models(sorted@);
    let mut i: usize = sorted.len();
    while i > 0 && sorted[i - 1].started_at < s.started_at
        invariant
            i <= sorted@.len(),
            before == session_models(sorted@),
            forall|k: int| i <= k < before.len() ==> (#[trigger] before[k]).started_at < s.started_at,
        decreases i,
    {
        i -= 1;
        assert(before[i as int] == sorted@[i as int]@);
    }
    proof {
        if i > 0 {
            assert(before[i - 1] == sorted@[i - 1]@);
        }
        lemma_insert_at(before, s@, i as int);
        assert(session_models(sorted@.insert(i as int, s)) =~= before.insert(i as int, s@));
    }
    sorted.insert(i, s);
}

/// A session is put behind those that started no earlier, and before those that started
/// earlier.
pub proof fn law_session_is_put_in_its_place(sorted: Seq<SessionModel>, s: SessionModel, i: int)
    requires
        0 <= i <= sorted.len(),
        forall|k: int| 0 <= k < i ==> (#[trigger] sorted[k]).started_at >= s.started_at,
        forall|k: int| i <= k < sorted.len() ==> (#[trigger] sorted[k]).started_at < s.started_at,
    ensures
        insert_newest(sorted, s) == sorted.take(i) + seq![s] + sorted.skip(i),
{
    lemma_insert_at(sorted, s, i);
    assert(sorted.insert(i, s) =~= sorted.take(i) + seq![s] + sorted.skip(i));
}

/// Sessions that started together are listed in the order in which they came.
pub proof fn law_equal_starts_keep_their_order(list: Seq<SessionModel>, s: SessionModel)
    requires
        forall|i: int| 0 <= i < list.len() ==> (#[trigger] list[i]).started_at == s.started_at,
    ensures
        newest_first(list) == list,
        newest_first(list.push(s)) == list.push(s),
    decreases list.len(),
{
    assert(list.push(s).drop_last() =~= list);
    if list.len() > 0 {
        let front = list.drop_last();
        let last = list.last();
        assert(list[list.len() - 1].started_at == s.started_at);
        assert forall|i: int| 0 <= i < front.len() implies (#[trigger] front[i]).started_at
            == last.started_at by {
            assert(list[i].started_at == s.started_at);
        }
        law_equal_starts_keep_their_order(front, last);
        assert(front.push(last) =~= list);
    } else {
        assert(newest_first(list) =~= list);
    }
    assert(insert_newest(list, s) == list.push(s));
}

} // verus!
