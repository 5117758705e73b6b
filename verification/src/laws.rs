//! Laws of the store: properties that relate several operations, stated
//! over the same views the operation contracts use, and proved once.

use vstd::prelude::*;

use crate::codec::{enc_list, lemma_list_round_trip};
use crate::data::{ClientDataV, ClientRowV, ClientV, ConfigV, TodoV};
use crate::store::{
    client_of_row, date_taken, merged_todo, replaced, seeded, todos_updated, StoreV,
};

verus! {

/// Initialization is idempotent: running it on an already seeded
/// configuration keeps the row as it is, and after it exactly one
/// configuration row exists.
pub proof fn lemma_init_idempotent(c: Option<ConfigV>)
    ensures
        seeded(seeded(c)) == seeded(c),
        seeded(c) is Some,
{
}

/// The store after one configuration update, as `update_config` ensures
/// it on success: the row replaced as one unit, the other tables kept.
pub open spec fn apply_update_config(m: StoreV, c: ConfigV) -> StoreV {
    StoreV { config: replaced(c), clients: m.clients, todos: m.todos }
}

/// A configuration update replaces the row as one unit, so updates that
/// were forced into a serial order by the exclusive borrow cannot mix
/// fields: after two updates the store holds exactly the later one's
/// whole row, the same state as if the earlier had never run.
pub proof fn lemma_config_last_write_wins(m: StoreV, a: ConfigV, b: ConfigV)
    ensures
        apply_update_config(apply_update_config(m, a), b) == apply_update_config(m, b),
        apply_update_config(apply_update_config(m, a), b).config == replaced(b),
{
}

proof fn lemma_filter_none(s: Seq<TodoV>, pred: spec_fn(TodoV) -> bool)
    requires
        forall|i: int| 0 <= i < s.len() ==> !pred(s[i]),
    ensures
        s.filter(pred) == Seq::<TodoV>::empty(),
    decreases s.len(),
{
    reveal_with_fuel(Seq::<_>::filter, 2);
    if s.len() == 0 {
        assert(s.filter(pred) =~= Seq::<TodoV>::empty());
    } else {
        assert forall|i: int| 0 <= i < s.drop_last().len() implies !pred(s.drop_last()[i]) by {
            assert(s.drop_last()[i] == s[i]);
        }
        lemma_filter_none(s.drop_last(), pred);
        assert(!pred(s.last()));
    }
}

proof fn lemma_filter_last_only(s: Seq<TodoV>, pred: spec_fn(TodoV) -> bool)
    requires
        s.len() >= 1,
        pred(s.last()),
        forall|i: int| 0 <= i < s.len() - 1 ==> !pred(s[i]),
    ensures
        s.filter(pred) == seq![s.last()],
{
    reveal_with_fuel(Seq::<_>::filter, 2);
    assert forall|i: int| 0 <= i < s.drop_last().len() implies !pred(s.drop_last()[i]) by {
        assert(s.drop_last()[i] == s[i]);
    }
    lemma_filter_none(s.drop_last(), pred);
    assert(s.filter(pred) =~= seq![s.last()]);
}

/// Adding a task under a fresh date key and then updating by that same
/// key leaves exactly one row carrying the key, and it carries the
/// update's content: the add inserted once, the update replaced in
/// place without inserting.
pub proof fn lemma_add_then_update_todo(ts: Seq<TodoV>, t: TodoV, u: TodoV)
    requires
        !date_taken(ts, t.date),
        u.date == t.date,
    ensures
        todos_updated(ts.push(t), u).filter(|x: TodoV| x.date == u.date) == seq![
            merged_todo(t, u),
        ],
        merged_todo(t, u).content == u.content,
        merged_todo(t, u).date == u.date,
{
    let s = todos_updated(ts.push(t), u);
    assert forall|i: int| 0 <= i < ts.len() implies !(s[i].date == u.date) by {
        assert(ts.push(t)[i] == ts[i]);
        assert(!(0 <= i < ts.len() && ts[i].date == t.date));
    }
    assert(ts.push(t)[ts.len() as int] == t);
    assert(s[ts.len() as int] == merged_todo(t, u));
    assert(s.last() == merged_todo(t, u));
    lemma_filter_last_only(s, |x: TodoV| x.date == u.date);
}

/// A customer added with given measurement lists is listed back with
/// exactly those records: the row `add_client` appends decodes, through
/// the lenient read `get_clients` performs, to the same lists — present
/// fields with their values, absent fields still absent.
pub proof fn lemma_added_client_round_trip(
    id: u32,
    name: Seq<char>,
    trimmer: Seq<ClientDataV>,
    fixed: Seq<ClientDataV>,
)
    ensures
        ({
            let row = ClientRowV {
                id: id,
                name: name,
                trimmer_text: Some(enc_list(trimmer)),
                fixed_text: Some(enc_list(fixed)),
            };
            client_of_row(row) == ClientV {
                id: id,
                name: name,
                trimmer_data: Some(trimmer),
                fixed_data: Some(fixed),
            }
        }),
{
    lemma_list_round_trip(trimmer);
    lemma_list_round_trip(fixed);
}

} // verus!
