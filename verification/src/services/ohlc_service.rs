//! Read operations over OHLC bars: all rows, rows of one instrument, and
//! rows of one instrument within an inclusive time range in ascending
//! timestamp order.

use vstd::multiset::Multiset;
use vstd::prelude::*;

use crate::entity::ohlc_data;
use crate::entity::symbol;
use crate::store::{
    has_symbol_code, lemma_filter_elem_in_orig, lemma_filter_pairwise, lemma_filter_push, str_eq,
    symbol_matches, symbol_survives, Store,
};
use crate::timestamp::Timestamp;

verus! {

/// The bars that a query for this instrument code sees: those whose owning
/// catalog row carries exactly this code (case-sensitive).
pub open spec fn visible_by_code(symbols: Seq<symbol::Model>, code: Seq<char>) -> spec_fn(
    ohlc_data::Model,
) -> bool {
    |b: ohlc_data::Model| symbol_matches(symbols, b.symbol_id, code)
}

/// The bars a range query sees: those of the instrument whose timestamp
/// lies in the inclusive interval [lo, hi] of timestamp keys.
pub open spec fn visible_in_range(
    symbols: Seq<symbol::Model>,
    code: Seq<char>,
    lo: int,
    hi: int,
) -> spec_fn(ohlc_data::Model) -> bool {
    |b: ohlc_data::Model| symbol_matches(symbols, b.symbol_id, code) && lo <= b.timestamp.key()
        <= hi
}

/// Every bar of the instrument with this code, in stored order.
pub open spec fn code_bars(store: Store, code: Seq<char>) -> Seq<ohlc_data::Model> {
    store.ohlc_bars@.filter(visible_by_code(store.symbols@, code))
}

/// Every bar of the instrument with this code whose timestamp key lies in
/// [lo, hi], in stored order.
pub open spec fn range_bars(store: Store, code: Seq<char>, lo: int, hi: int) -> Seq<
    ohlc_data::Model,
> {
    store.ohlc_bars@.filter(visible_in_range(store.symbols@, code, lo, hi))
}

/// True exactly when the catalog row with this id carries this code.
fn symbol_matches_exec(symbols: &Vec<symbol::Model>, id: i32, code: &str) -> (r: bool)
    ensures
        r == symbol_matches(symbols@, id, code@),
{
    let mut i: usize = 0;
    while i < symbols.len()
        invariant
            i <= symbols@.len(),
            forall|k: int|
                0 <= k < i ==> !((#[trigger] symbols@[k]).id == id && symbols@[k].symbol@
                    == code@),
        decreases symbols@.len() - i,
    {
        if symbols[i].id == id && str_eq(symbols[i].symbol.as_str(), code) {
            return true;
        }
        i += 1;
    }
    false
}

/// Returns every bar in the store, in stored order: the store's default
/// order, with no further ordering guarantee.
pub fn get_all_ohlc_data(store: &Store) -> (r: Vec<ohlc_data::Model>)
    ensures
        r@ == store.ohlc_bars@,
{
    let mut r: Vec<ohlc_data::Model> = Vec::new();
    let mut i: usize = 0;
    while i < store.ohlc_bars.len()
        invariant
            i <= store.ohlc_bars@.len(),
            r@ == store.ohlc_bars@.subrange(0, i as int),
        decreases store.ohlc_bars@.len() - i,
    {
        r.push(store.ohlc_bars[i]);
        proof {
            assert(store.ohlc_bars@.subrange(0, i + 1) =~= store.ohlc_bars@.subrange(
                0,
                i as int,
            ).push(store.ohlc_bars@[i as int]));
        }
        i += 1;
    }
    proof {
        assert(store.ohlc_bars@.subrange(0, store.ohlc_bars@.len() as int) =~= store.ohlc_bars@);
    }
    r
}

/// Returns every bar of the instrument with this code, in stored order.
/// An unknown code yields an empty result, not an error.
pub fn get_ohlc_data_by_code(store: &Store, code: &str) -> (r: Vec<ohlc_data::Model>)
    ensures
        r@ == code_bars(*store, code@),
{
    let ghost pred = visible_by_code(store.symbols@, code@);
    let mut r: Vec<ohlc_data::Model> = Vec::new();
    let mut i: usize = 0;
    while i < store.ohlc_bars.len()
        invariant
            pred == visible_by_code(store.symbols@, code@),
            i <= store.ohlc_bars@.len(),
            r@ == store.ohlc_bars@.subrange(0, i as int).filter(pred),
        decreases store.ohlc_bars@.len() - i,
    {
        let b = store.ohlc_bars[i];
        if symbol_matches_exec(&store.symbols, b.symbol_id, code) {
            r.push(b);
        }
        proof {
            assert(store.ohlc_bars@.subrange(0, i + 1) =~= store.ohlc_bars@.subrange(
                0,
                i as int,
            ).push(store.ohlc_bars@[i as int]));
            lemma_filter_push(store.ohlc_bars@.subrange(0, i as int), store.ohlc_bars@[i as int], pred);
        }
        i += 1;
    }
    proof {
        assert(store.ohlc_bars@.subrange(0, store.ohlc_bars@.len() as int) =~= store.ohlc_bars@);
    }
    r
}

/// A code that no catalog row carries sees no bars: querying an unknown
/// instrument yields an empty sequence, never an error.
pub proof fn lemma_unknown_symbol_empty(store: Store, code: Seq<char>)
    requires
        !has_symbol_code(store.symbols@, code),
    ensures
        code_bars(store, code) =~= Seq::<ohlc_data::Model>::empty(),
{
    let f = code_bars(store, code);
    if f.len() > 0 {
        Seq::lemma_filter_pred(store.ohlc_bars@, visible_by_code(store.symbols@, code), 0);
        let k = choose|k: int|
            0 <= k < store.symbols@.len() && store.symbols@[k].id == f[0].symbol_id
                && store.symbols@[k].symbol@ == code;
        assert(has_symbol_code(store.symbols@, code));
    }
}

/// Deleting a symbol empties its query: once the catalog row with this
/// code is gone, a query for the code sees no bars — an empty sequence,
/// not an error — whatever became of the bar table.
pub proof fn lemma_delete_symbol_clears_queries(
    pre: Store,
    post: Store,
    symbol_id: i32,
    code: Seq<char>,
)
    requires
        pre.wf(),
        symbol_matches(pre.symbols@, symbol_id, code),
        post.symbols@ == pre.symbols@.filter(symbol_survives(symbol_id)),
    ensures
        code_bars(post, code) =~= Seq::<ohlc_data::Model>::empty(),
{
    assert(!has_symbol_code(post.symbols@, code)) by {
        if has_symbol_code(post.symbols@, code) {
            let k = choose|k: int|
                0 <= k < post.symbols@.len() && post.symbols@[k].symbol@ == code;
            lemma_filter_elem_in_orig(pre.symbols@, symbol_survives(symbol_id), k);
            let m = choose|m: int|
                0 <= m < pre.symbols@.len() && pre.symbols@[m] == post.symbols@[k];
            Seq::lemma_filter_pred(pre.symbols@, symbol_survives(symbol_id), k);
            let w = choose|w: int|
                0 <= w < pre.symbols@.len() && pre.symbols@[w].id == symbol_id
                    && pre.symbols@[w].symbol@ == code;
            assert(m == w);
        }
    }
    lemma_unknown_symbol_empty(post, code);
}

/// Inserting a bar extends its instrument's query by exactly that bar,
/// fields untouched: a query after the insert returns what it returned
/// before, with the stored row — the given fields under the assigned id —
/// appended.
pub proof fn lemma_inserted_bar_visible(
    pre: Store,
    post: Store,
    row: ohlc_data::Model,
    id: i32,
    code: Seq<char>,
)
    requires
        symbol_matches(pre.symbols@, row.symbol_id, code),
        post.symbols@ == pre.symbols@,
        post.ohlc_bars@ == pre.ohlc_bars@.push(ohlc_data::Model { id, ..row }),
    ensures
        code_bars(post, code) == code_bars(pre, code).push(ohlc_data::Model { id, ..row }),
{
    let stored = ohlc_data::Model { id, ..row };
    lemma_filter_push(pre.ohlc_bars@, stored, visible_by_code(pre.symbols@, code));
    assert(symbol_matches(pre.symbols@, stored.symbol_id, code));
}

/// Returns every bar of the instrument with this code whose timestamp lies
/// in the inclusive interval [`start_date`, `end_date`], in ascending
/// timestamp order.
///
/// The result is exactly the visible bars (as a multiset) arranged with
/// strictly increasing timestamp keys; on a well-formed store the two
/// together determine it uniquely. A reversed interval (`start_date` after
/// `end_date`) yields an empty result, not an error, as does an unknown
/// code.
pub fn get_ohlc_data_by_date_range(
    store: &Store,
    code: &str,
    start_date: Timestamp,
    end_date: Timestamp,
) -> (r: Vec<ohlc_data::Model>)
    requires
        store.wf(),
    ensures
        r@.to_multiset() == range_bars(
            *store,
            code@,
            start_date.key(),
            end_date.key(),
        ).to_multiset(),
        forall|i: int, j: int|
            0 <= i < j < r@.len() ==> r@[i].timestamp.key() < r@[j].timestamp.key(),
        start_date.key() > end_date.key() ==> r@ =~= Seq::<ohlc_data::Model>::empty(),
{
    broadcast use vstd::seq_lib::group_to_multiset_ensures;
    broadcast use vstd::multiset::group_multiset_axioms;

    let ghost lo = start_date.key();
    let ghost hi = end_date.key();
    let ghost pred = visible_in_range(store.symbols@, code@, lo, hi);
    let mut work: Vec<ohlc_data::Model> = Vec::new();
    let mut i: usize = 0;
    while i < store.ohlc_bars.len()
        invariant
            pred == visible_in_range(store.symbols@, code@, lo, hi),
            lo == start_date.key(),
            hi == end_date.key(),
            i <= store.ohlc_bars@.len(),
            work@ == store.ohlc_bars@.subrange(0, i as int).filter(pred),
        decreases store.ohlc_bars@.len() - i,
    {
        let b = store.ohlc_bars[i];
        if symbol_matches_exec(&store.symbols, b.symbol_id, code) && start_date.le(&b.timestamp)
            && b.timestamp.le(&end_date) {
            work.push(b);
        }
        proof {
            assert(store.ohlc_bars@.subrange(0, i + 1) =~= store.ohlc_bars@.subrange(
                0,
                i as int,
            ).push(store.ohlc_bars@[i as int]));
            lemma_filter_push(
                store.ohlc_bars@.subrange(0, i as int),
                store.ohlc_bars@[i as int],
                pred,
            );
        }
        i += 1;
    }
    let ghost total = range_bars(*store, code@, lo, hi);
    proof {
        assert(store.ohlc_bars@.subrange(0, store.ohlc_bars@.len() as int) =~= store.ohlc_bars@);
        assert(work@ == total);
        // On a well-formed store, two distinct visible bars never share a
        // timestamp key: a unique code picks a unique catalog row, so all
        // visible bars carry one symbol id, and the composite unique index
        // separates their instants.
        let bars = store.ohlc_bars@;
        let syms = store.symbols@;
        let rel = |a: ohlc_data::Model, b: ohlc_data::Model|
            (pred(a) && pred(b)) ==> a.timestamp.key() != b.timestamp.key();
        assert forall|x: int, y: int| 0 <= x < y < bars.len() implies rel(
            #[trigger] bars[x],
            #[trigger] bars[y],
        ) by {
            if pred(bars[x]) && pred(bars[y]) {
                let k1 = choose|k: int|
                    0 <= k < syms.len() && syms[k].id == bars[x].symbol_id && syms[k].symbol@
                        == code@;
                let k2 = choose|k: int|
                    0 <= k < syms.len() && syms[k].id == bars[y].symbol_id && syms[k].symbol@
                        == code@;
                assert(k1 == k2);
                assert(bars[x].symbol_id == bars[y].symbol_id);
            }
        }
        lemma_filter_pairwise(bars, pred, rel);
        assert forall|x: int, y: int|
            0 <= x < y < total.len() implies (#[trigger] total[x]).timestamp.key()
            != (#[trigger] total[y]).timestamp.key() by {
            Seq::lemma_filter_pred(bars, pred, x);
            Seq::lemma_filter_pred(bars, pred, y);
            assert(rel(total[x], total[y]));
        }
        if lo > hi && total.len() > 0 {
            Seq::lemma_filter_pred(bars, pred, 0);
        }
    }
    let mut out: Vec<ohlc_data::Model> = Vec::new();
    while work.len() > 0
        invariant
            out@.to_multiset().add(work@.to_multiset()) == total.to_multiset(),
            forall|a: int, b: int|
                0 <= a < b < out@.len() ==> out@[a].timestamp.key() < out@[b].timestamp.key(),
            forall|a: int, b: int|
                0 <= a < out@.len() && 0 <= b < work@.len() ==> out@[a].timestamp.key()
                    < work@[b].timestamp.key(),
            forall|a: int, b: int|
                0 <= a < b < work@.len() ==> work@[a].timestamp.key() != work@[b].timestamp.key(),
        decreases work@.len(),
    {
        let mut m: usize = 0;
        let mut t: usize = 1;
        while t < work.len()
            invariant
                work@.len() > 0,
                (m as int) < work@.len(),
                t <= work@.len(),
                forall|k: int|
                    0 <= k < t ==> work@[m as int].timestamp.key() <= work@[k].timestamp.key(),
            decreases work@.len() - t,
        {
            if work[t].timestamp.key_u64() < work[m].timestamp.key_u64() {
                m = t;
            }
            t += 1;
        }
        let ghost workpre = work@;
        let ghost outpre = out@;
        let x = work.remove(m);
        out.push(x);
        proof {
            broadcast use vstd::seq_lib::group_to_multiset_ensures;
            broadcast use vstd::multiset::group_multiset_axioms;

            assert(work@ == workpre.remove(m as int));
            assert(out@ == outpre.push(x));
            assert(out@.to_multiset() =~= outpre.to_multiset().insert(x));
            assert(work@.to_multiset() =~= workpre.to_multiset().remove(x));
            assert(out@.to_multiset().add(work@.to_multiset()) =~= total.to_multiset());
            assert forall|a: int, b: int|
                0 <= a < out@.len() && 0 <= b < work@.len() implies out@[
                a
            ].timestamp.key() < work@[b].timestamp.key() by {
                let pb: int = if b < m as int {
                    b
                } else {
                    b + 1
                };
                assert(work@[b] == workpre[pb]);
                if a < outpre.len() {
                    assert(out@[a] == outpre[a]);
                } else {
                    assert(out@[a] == x);
                    assert(workpre[m as int].timestamp.key() <= workpre[pb].timestamp.key());
                    assert(workpre[m as int].timestamp.key() != workpre[pb].timestamp.key());
                }
            }
            assert forall|a: int, b: int|
                0 <= a < b < work@.len() implies work@[a].timestamp.key() != work@[
                b
            ].timestamp.key() by {
                let pa: int = if a < m as int {
                    a
                } else {
                    a + 1
                };
                let pb: int = if b < m as int {
                    b
                } else {
                    b + 1
                };
                assert(work@[a] == workpre[pa] && work@[b] == workpre[pb]);
            }
        }
    }
    proof {
        broadcast use vstd::multiset::lemma_multiset_empty_len;

        assert(work@ =~= Seq::<ohlc_data::Model>::empty());
        assert(work@.to_multiset().len() == 0);
        assert(work@.to_multiset() =~= Multiset::<ohlc_data::Model>::empty());
        assert(out@.to_multiset() =~= total.to_multiset());
        if lo > hi {
            assert(total.len() == 0);
            assert(out@.len() == out@.to_multiset().len());
            assert(out@ =~= Seq::<ohlc_data::Model>::empty());
        }
    }
    out
}

} // verus!
