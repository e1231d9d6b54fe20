//! The laws of the keyspace and of replication, proved once and for all
//! over the mathematical model that every executable contract in this
//! crate is stated against.

use vstd::prelude::*;

use crate::commands::{is_mutating, CommandView, GenericCommandView, ResultView, StringCommandView};
use crate::model::{
    byte_len, command_post, command_result, delete_count, delete_post, exists_count,
    lemma_encode_utf8_concat,
};

verus! {

/// After `Set{k, v}`, `Get{k}` returns `Str(v)` and `Exists{[k]}`
/// returns `Int(1)`, whatever the keyspace held before.
pub proof fn lemma_set_then_get(m: Map<Seq<char>, Seq<char>>, k: Seq<char>, v: Seq<char>)
    ensures
        ({
            let m1 = command_post(m, CommandView::String(StringCommandView::Put { key: k, value: v }));
            &&& command_result(m1, CommandView::String(StringCommandView::Get { key: k }))
                == ResultView::Str(v)
            &&& command_result(
                m1,
                CommandView::Generic(GenericCommandView::Exists { keys: seq![k] }),
            ) == ResultView::Int(1)
        }),
{
    let m1 = command_post(m, CommandView::String(StringCommandView::Put { key: k, value: v }));
    assert(seq![k].drop_last() =~= Seq::<Seq<char>>::empty());
    assert(exists_count(m1, Seq::<Seq<char>>::empty()) == 0);
}

/// After `Delete{[k]}`, `Get{k}` returns `Nil` and `Exists{[k]}` returns
/// `Int(0)`, whatever the keyspace held before.
pub proof fn lemma_delete_then_get(m: Map<Seq<char>, Seq<char>>, k: Seq<char>)
    ensures
        ({
            let m1 = command_post(m, CommandView::Generic(GenericCommandView::Delete { keys: seq![k] }));
            &&& command_result(m1, CommandView::String(StringCommandView::Get { key: k }))
                == ResultView::Nil
            &&& command_result(
                m1,
                CommandView::Generic(GenericCommandView::Exists { keys: seq![k] }),
            ) == ResultView::Int(0)
        }),
{
    assert(seq![k].drop_first() =~= Seq::<Seq<char>>::empty());
    assert(delete_post(m, seq![k]) == delete_post(m.remove(k), Seq::<Seq<char>>::empty()));
    let m1 = command_post(m, CommandView::Generic(GenericCommandView::Delete { keys: seq![k] }));
    assert(m1 == m.remove(k));
    assert(seq![k].drop_last() =~= Seq::<Seq<char>>::empty());
    assert(exists_count(m1, Seq::<Seq<char>>::empty()) == 0);
}

/// `Set{k, v1}; Append{k, v2}` leaves `k` bound to `v1 ++ v2`: the
/// `Append` returns the summed byte lengths of the two values, and
/// `Get{k}` then returns `Str(v1 ++ v2)`.
pub proof fn lemma_set_append_get(
    m: Map<Seq<char>, Seq<char>>,
    k: Seq<char>,
    v1: Seq<char>,
    v2: Seq<char>,
)
    ensures
        ({
            let m1 = command_post(m, CommandView::String(StringCommandView::Put { key: k, value: v1 }));
            let m2 = command_post(
                m1,
                CommandView::String(StringCommandView::Append { key: k, value: v2 }),
            );
            &&& command_result(m1, CommandView::String(StringCommandView::Append { key: k, value: v2 }))
                == ResultView::Int(byte_len(v1) + byte_len(v2))
            &&& command_result(m2, CommandView::String(StringCommandView::Get { key: k }))
                == ResultView::Str(v1 + v2)
        }),
{
    lemma_encode_utf8_concat(v1, v2);
}

/// `Delete{keys}` reports exactly the number of distinct keys that were
/// present when the command arrived and occur somewhere in `keys`: an
/// occurrence after the key is already removed is not counted again.
pub proof fn lemma_delete_count_distinct(m: Map<Seq<char>, Seq<char>>, keys: Seq<Seq<char>>)
    requires
        m.dom().finite(),
    ensures
        delete_count(m, keys) == m.dom().intersect(keys.to_set()).len(),
    decreases keys.len(),
{
    broadcast use vstd::set::group_set_axioms;

    if keys.len() == 0 {
        assert(m.dom().intersect(keys.to_set()) =~= Set::<Seq<char>>::empty());
    } else {
        let k = keys.first();
        let rest = keys.drop_first();
        lemma_delete_count_distinct(m.remove(k), rest);
        assert(keys.to_set() =~= rest.to_set().insert(k)) by {
            assert forall|x: Seq<char>| keys.to_set().contains(x) implies rest.to_set().insert(
                k,
            ).contains(x) by {
                let i = choose|i: int| 0 <= i < keys.len() && keys[i] == x;
                if i > 0 {
                    assert(rest[i - 1] == x);
                }
            }
            assert forall|x: Seq<char>| rest.to_set().insert(k).contains(x) implies keys.to_set()
                .contains(x) by {
                if x == k {
                    assert(keys[0] == x);
                } else {
                    let i = choose|i: int| 0 <= i < rest.len() && rest[i] == x;
                    assert(keys[i + 1] == x);
                }
            }
        }
        if m.dom().contains(k) {
            assert(m.dom().intersect(keys.to_set()) =~= m.remove(k).dom().intersect(
                rest.to_set(),
            ).insert(k));
            assert(!m.remove(k).dom().intersect(rest.to_set()).contains(k));
        } else {
            assert(m.remove(k) =~= m);
            assert(m.dom().intersect(keys.to_set()) =~= m.remove(k).dom().intersect(
                rest.to_set(),
            ));
        }
    }
}

/// The keys a mutating command touches.
pub open spec fn affected_keys(c: CommandView) -> Set<Seq<char>> {
    match c {
        CommandView::String(StringCommandView::Put { key, .. }) => Set::empty().insert(key),
        CommandView::String(StringCommandView::Get { .. }) => Set::empty(),
        CommandView::String(StringCommandView::Append { key, .. }) => Set::empty().insert(key),
        CommandView::Generic(GenericCommandView::Exists { .. }) => Set::empty(),
        CommandView::Generic(GenericCommandView::Delete { keys }) => keys.to_set(),
    }
}

/// Whether two keyspaces hold the same bindings for every key in `ks`.
pub open spec fn agree_on(
    m1: Map<Seq<char>, Seq<char>>,
    m2: Map<Seq<char>, Seq<char>>,
    ks: Set<Seq<char>>,
) -> bool {
    forall|k: Seq<char>| #[trigger]
        ks.contains(k) ==> (m1.dom().contains(k) <==> m2.dom().contains(k)) && (m1.dom().contains(
            k,
        ) ==> m1[k] == m2[k])
}

/// No key a delete names survives it.
proof fn lemma_delete_post_removes(m: Map<Seq<char>, Seq<char>>, keys: Seq<Seq<char>>)
    ensures
        forall|k: Seq<char>| #[trigger]
            delete_post(m, keys).dom().contains(k) ==> m.dom().contains(k) && !keys.contains(k),
    decreases keys.len(),
{
    if keys.len() > 0 {
        let mr = m.remove(keys.first());
        let rest = keys.drop_first();
        lemma_delete_post_removes(mr, rest);
        assert forall|k: Seq<char>| #[trigger]
            delete_post(m, keys).dom().contains(k) implies m.dom().contains(k) && !keys.contains(
            k,
        ) by {
            assert(delete_post(m, keys) == delete_post(mr, rest));
            assert(delete_post(mr, rest).dom().contains(k));
            assert(mr.dom().contains(k) && !rest.contains(k));
            assert(k != keys.first());
            if keys.contains(k) {
                let i = choose|i: int| 0 <= i < keys.len() && keys[i] == k;
                assert(i > 0);
                assert(rest[i - 1] == k);
                assert(rest.contains(k));
            }
        }
    }
}

/// Replication keeps replicas aligned: when one mutating command is
/// applied to two keyspaces that agree on the keys it touches — as a
/// node and its replica do after the same history for those keys — the
/// keyspaces after it still agree on those keys. Non-mutating commands
/// cause no replication traffic at all; that is part of the event
/// handler's contract.
pub proof fn lemma_replication_agreement(
    m1: Map<Seq<char>, Seq<char>>,
    m2: Map<Seq<char>, Seq<char>>,
    c: CommandView,
)
    requires
        is_mutating(c),
        agree_on(m1, m2, affected_keys(c)),
    ensures
        agree_on(command_post(m1, c), command_post(m2, c), affected_keys(c)),
{
    match c {
        CommandView::Generic(GenericCommandView::Delete { keys }) => {
            lemma_delete_post_removes(m1, keys);
            lemma_delete_post_removes(m2, keys);
        },
        _ => {},
    }
}

} // verus!
