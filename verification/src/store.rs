//! The verified model of the relational store.
//!
//! `Store` holds the six tables as in-memory rows and enforces, as proved
//! invariants, exactly what the schema promises: generated primary keys are
//! unique, instrument codes are unique within the catalog, at most one bar,
//! indicator record or signal exists per instrument per instant, at most
//! one trade per backtest per instant, and every reference points at an
//! existing owner. Deleting a symbol cascades to everything it owns;
//! deleting a backtest cascades to its trades. Inserts that would break a
//! constraint fail with the store-error kind and leave the store untouched.

use vstd::prelude::*;

use crate::api::models::ApiError;
use crate::entity::backtest_result;
use crate::entity::indicator_data;
use crate::entity::ohlc_data;
use crate::entity::symbol;
use crate::entity::trade_record;
use crate::entity::trading_signal;
use crate::timestamp::Timestamp;

verus! {

/// Relies on `str`'s `PartialEq`: two string slices compare equal exactly
/// when they consist of the same characters.
#[verifier::external_body]
pub fn str_eq(a: &str, b: &str) -> (r: bool)
    ensures
        r == (a@ == b@),
{
    a == b
}

/// Appending one element to a sequence extends its filtrate by that element
/// exactly when the element satisfies the predicate.
pub proof fn lemma_filter_push<A>(s: Seq<A>, x: A, pred: spec_fn(A) -> bool)
    ensures
        s.push(x).filter(pred) == if pred(x) {
            s.filter(pred).push(x)
        } else {
            s.filter(pred)
        },
{
    reveal(Seq::filter);
    assert(s.push(x).drop_last() =~= s);
}

/// Every element of a filtrate occurs in the original sequence.
pub proof fn lemma_filter_elem_in_orig<A>(s: Seq<A>, pred: spec_fn(A) -> bool, i: int)
    requires
        0 <= i < s.filter(pred).len(),
    ensures
        s.contains(s.filter(pred)[i]),
    decreases s.len(),
{
    reveal(Seq::filter);
    broadcast use Seq::lemma_filter_len;

    if s.len() > 0 {
        let t = s.drop_last();
        let f = s.filter(pred);
        if pred(s.last()) && i == f.len() - 1 {
            assert(f[i] == s.last());
            assert(s[s.len() - 1] == s.last());
        } else {
            lemma_filter_elem_in_orig(t, pred, i);
            let k = choose|k: int| 0 <= k < t.len() && t[k] == t.filter(pred)[i];
            assert(s[k] == t.filter(pred)[i]);
        }
    }
}

/// Filtering keeps every pairwise relation that held between the retained
/// elements: positions survive in order, so any property of ordered pairs
/// carries over to the filtrate.
pub proof fn lemma_filter_pairwise<A>(s: Seq<A>, pred: spec_fn(A) -> bool, rel: spec_fn(A, A) -> bool)
    requires
        forall|i: int, j: int| 0 <= i < j < s.len() ==> rel(#[trigger] s[i], #[trigger] s[j]),
    ensures
        forall|i: int, j: int|
            0 <= i < j < s.filter(pred).len() ==> rel(
                #[trigger] s.filter(pred)[i],
                #[trigger] s.filter(pred)[j],
            ),
    decreases s.len(),
{
    reveal(Seq::filter);
    broadcast use Seq::lemma_filter_len;

    if s.len() > 0 {
        let t = s.drop_last();
        let f = s.filter(pred);
        lemma_filter_pairwise(t, pred, rel);
        assert forall|i: int, j: int| 0 <= i < j < f.len() implies rel(
            #[trigger] f[i],
            #[trigger] f[j],
        ) by {
            if pred(s.last()) && j == f.len() - 1 {
                assert(f[j] == s.last());
                assert(f[i] == t.filter(pred)[i]);
                lemma_filter_elem_in_orig(t, pred, i);
                let k = choose|k: int| 0 <= k < t.len() && t[k] == t.filter(pred)[i];
                assert(rel(s[k], s[s.len() - 1]));
            } else {
                assert(f[i] == t.filter(pred)[i] && f[j] == t.filter(pred)[j]);
            }
        }
    }
}

/// A row added to the catalog hides no id that was present before.
pub proof fn lemma_has_symbol_id_push(s: Seq<symbol::Model>, x: symbol::Model, id: i32)
    requires
        has_symbol_id(s, id),
    ensures
        has_symbol_id(s.push(x), id),
{
    let k = choose|k: int| 0 <= k < s.len() && s[k].id == id;
    assert(s.push(x)[k].id == id);
}

/// Some row of the catalog has this generated id.
pub open spec fn has_symbol_id(symbols: Seq<symbol::Model>, id: i32) -> bool {
    exists|k: int| 0 <= k < symbols.len() && symbols[k].id == id
}

/// Some row of the catalog has this instrument code.
pub open spec fn has_symbol_code(symbols: Seq<symbol::Model>, code: Seq<char>) -> bool {
    exists|k: int| 0 <= k < symbols.len() && symbols[k].symbol@ == code
}

/// Some row of the catalog has both this id and this instrument code.
pub open spec fn symbol_matches(symbols: Seq<symbol::Model>, id: i32, code: Seq<char>) -> bool {
    exists|k: int| 0 <= k < symbols.len() && symbols[k].id == id && symbols[k].symbol@ == code
}

/// Some bar occupies the slot (symbol, instant); instants compare by key.
pub open spec fn has_bar_at(bars: Seq<ohlc_data::Model>, symbol_id: i32, ts_key: int) -> bool {
    exists|k: int|
        0 <= k < bars.len() && bars[k].symbol_id == symbol_id && bars[k].timestamp.key() == ts_key
}

/// Some indicator record occupies the slot (symbol, instant).
pub open spec fn has_indicator_at(
    rows: Seq<indicator_data::Model>,
    symbol_id: i32,
    ts_key: int,
) -> bool {
    exists|k: int|
        0 <= k < rows.len() && rows[k].symbol_id == symbol_id && rows[k].timestamp.key() == ts_key
}

/// Some signal occupies the slot (symbol, instant).
pub open spec fn has_signal_at(
    rows: Seq<trading_signal::Model>,
    symbol_id: i32,
    ts_key: int,
) -> bool {
    exists|k: int|
        0 <= k < rows.len() && rows[k].symbol_id == symbol_id && rows[k].timestamp.key() == ts_key
}

/// Some backtest row has this caller-assigned id.
pub open spec fn has_backtest_id(rows: Seq<backtest_result::Model>, id: Seq<char>) -> bool {
    exists|k: int| 0 <= k < rows.len() && rows[k].id@ == id
}

/// Some trade row has this caller-assigned id.
pub open spec fn has_trade_id(rows: Seq<trade_record::Model>, id: Seq<char>) -> bool {
    exists|k: int| 0 <= k < rows.len() && rows[k].id@ == id
}

/// Some trade occupies the slot (backtest, instant).
pub open spec fn has_trade_at(
    rows: Seq<trade_record::Model>,
    backtest_id: Seq<char>,
    ts_key: int,
) -> bool {
    exists|k: int|
        0 <= k < rows.len() && rows[k].backtest_result_id@ == backtest_id
            && rows[k].timestamp.key() == ts_key
}

/// The trade's owning backtest belongs to this symbol, so a cascade that
/// removes the symbol removes the trade too.
pub open spec fn trade_owner_of_symbol(
    backtests: Seq<backtest_result::Model>,
    trade: trade_record::Model,
    symbol_id: i32,
) -> bool {
    exists|k: int|
        0 <= k < backtests.len() && backtests[k].id@ == trade.backtest_result_id@
            && backtests[k].symbol_id == symbol_id
}

/// The in-memory model of the relational store: six tables and the
/// auto-increment counters of the integer-keyed ones.
pub struct Store {
    pub next_symbol_id: i32,
    pub next_ohlc_id: i32,
    pub next_indicator_id: i32,
    pub next_signal_id: i32,
    pub symbols: Vec<symbol::Model>,
    pub ohlc_bars: Vec<ohlc_data::Model>,
    pub indicators: Vec<indicator_data::Model>,
    pub signals: Vec<trading_signal::Model>,
    pub backtests: Vec<backtest_result::Model>,
    pub trades: Vec<trade_record::Model>,
}

impl Store {
    /// The catalog's constraints: generated ids unique and below the
    /// counter, instrument codes unique.
    pub open spec fn symbols_wf(self) -> bool {
        &&& 1 <= self.next_symbol_id
        &&& forall|i: int|
            0 <= i < self.symbols@.len() ==> 0 < (#[trigger] self.symbols@[i]).id
                < self.next_symbol_id
        &&& forall|i: int, j: int|
            0 <= i < j < self.symbols@.len() ==> (#[trigger] self.symbols@[i]).id
                != (#[trigger] self.symbols@[j]).id && self.symbols@[i].symbol@
                != self.symbols@[j].symbol@
    }

    /// The bar table's constraints: ids unique and below the counter, one
    /// bar per (symbol, instant), every bar owned by a catalog row.
    pub open spec fn bars_wf(self) -> bool {
        &&& 1 <= self.next_ohlc_id
        &&& forall|i: int|
            0 <= i < self.ohlc_bars@.len() ==> 0 < (#[trigger] self.ohlc_bars@[i]).id
                < self.next_ohlc_id
        &&& forall|i: int, j: int|
            0 <= i < j < self.ohlc_bars@.len() ==> (#[trigger] self.ohlc_bars@[i]).id
                != (#[trigger] self.ohlc_bars@[j]).id
        &&& forall|i: int, j: int|
            0 <= i < j < self.ohlc_bars@.len() ==> !((#[trigger] self.ohlc_bars@[i]).symbol_id
                == (#[trigger] self.ohlc_bars@[j]).symbol_id && self.ohlc_bars@[i].timestamp.key()
                == self.ohlc_bars@[j].timestamp.key())
        &&& forall|i: int|
            0 <= i < self.ohlc_bars@.len() ==> has_symbol_id(
                self.symbols@,
                (#[trigger] self.ohlc_bars@[i]).symbol_id,
            )
    }

    /// The indicator table's constraints, in the same shape as the bars'.
    pub open spec fn indicators_wf(self) -> bool {
        &&& 1 <= self.next_indicator_id
        &&& forall|i: int|
            0 <= i < self.indicators@.len() ==> 0 < (#[trigger] self.indicators@[i]).id
                < self.next_indicator_id
        &&& forall|i: int, j: int|
            0 <= i < j < self.indicators@.len() ==> (#[trigger] self.indicators@[i]).id
                != (#[trigger] self.indicators@[j]).id
        &&& forall|i: int, j: int|
            0 <= i < j < self.indicators@.len() ==> !((#[trigger] self.indicators@[i]).symbol_id
                == (#[trigger] self.indicators@[j]).symbol_id && self.indicators@[i].timestamp.key()
                == self.indicators@[j].timestamp.key())
        &&& forall|i: int|
            0 <= i < self.indicators@.len() ==> has_symbol_id(
                self.symbols@,
                (#[trigger] self.indicators@[i]).symbol_id,
            )
    }

    /// The signal table's constraints, in the same shape as the bars'.
    pub open spec fn signals_wf(self) -> bool {
        &&& 1 <= self.next_signal_id
        &&& forall|i: int|
            0 <= i < self.signals@.len() ==> 0 < (#[trigger] self.signals@[i]).id
                < self.next_signal_id
        &&& forall|i: int, j: int|
            0 <= i < j < self.signals@.len() ==> (#[trigger] self.signals@[i]).id
                != (#[trigger] self.signals@[j]).id
        &&& forall|i: int, j: int|
            0 <= i < j < self.signals@.len() ==> !((#[trigger] self.signals@[i]).symbol_id
                == (#[trigger] self.signals@[j]).symbol_id && self.signals@[i].timestamp.key()
                == self.signals@[j].timestamp.key())
        &&& forall|i: int|
            0 <= i < self.signals@.len() ==> has_symbol_id(
                self.symbols@,
                (#[trigger] self.signals@[i]).symbol_id,
            )
    }

    /// The backtest table's constraints: caller-assigned string ids unique,
    /// every row owned by a catalog row.
    pub open spec fn backtests_wf(self) -> bool {
        &&& forall|i: int, j: int|
            0 <= i < j < self.backtests@.len() ==> (#[trigger] self.backtests@[i]).id@
                != (#[trigger] self.backtests@[j]).id@
        &&& forall|i: int|
            0 <= i < self.backtests@.len() ==> has_symbol_id(
                self.symbols@,
                (#[trigger] self.backtests@[i]).symbol_id,
            )
    }

    /// The trade table's constraints: string ids unique, one trade per
    /// (backtest, instant), every trade owned by a backtest row.
    pub open spec fn trades_wf(self) -> bool {
        &&& forall|i: int, j: int|
            0 <= i < j < self.trades@.len() ==> (#[trigger] self.trades@[i]).id@
                != (#[trigger] self.trades@[j]).id@
        &&& forall|i: int, j: int|
            0 <= i < j < self.trades@.len() ==> !((#[trigger] self.trades@[i]).backtest_result_id@
                == (#[trigger] self.trades@[j]).backtest_result_id@
                && self.trades@[i].timestamp.key() == self.trades@[j].timestamp.key())
        &&& forall|i: int|
            0 <= i < self.trades@.len() ==> has_backtest_id(
                self.backtests@,
                (#[trigger] self.trades@[i]).backtest_result_id@,
            )
    }

    /// Every constraint the schema promises, across all six tables.
    pub open spec fn wf(self) -> bool {
        &&& self.symbols_wf()
        &&& self.bars_wf()
        &&& self.indicators_wf()
        &&& self.signals_wf()
        &&& self.backtests_wf()
        &&& self.trades_wf()
    }

    /// The catalog table and its counter agree between two stores.
    pub open spec fn same_symbols(self, other: Store) -> bool {
        self.symbols@ == other.symbols@ && self.next_symbol_id == other.next_symbol_id
    }

    /// The bar table and its counter agree between two stores.
    pub open spec fn same_bars(self, other: Store) -> bool {
        self.ohlc_bars@ == other.ohlc_bars@ && self.next_ohlc_id == other.next_ohlc_id
    }

    /// The indicator table and its counter agree between two stores.
    pub open spec fn same_indicators(self, other: Store) -> bool {
        self.indicators@ == other.indicators@ && self.next_indicator_id == other.next_indicator_id
    }

    /// The signal table and its counter agree between two stores.
    pub open spec fn same_signals(self, other: Store) -> bool {
        self.signals@ == other.signals@ && self.next_signal_id == other.next_signal_id
    }

    /// The backtest table agrees between two stores.
    pub open spec fn same_backtests(self, other: Store) -> bool {
        self.backtests@ == other.backtests@
    }

    /// The trade table agrees between two stores.
    pub open spec fn same_trades(self, other: Store) -> bool {
        self.trades@ == other.trades@
    }

    /// All six tables and all counters agree between two stores.
    pub open spec fn same_state(self, other: Store) -> bool {
        &&& self.same_symbols(other)
        &&& self.same_bars(other)
        &&& self.same_indicators(other)
        &&& self.same_signals(other)
        &&& self.same_backtests(other)
        &&& self.same_trades(other)
    }

    /// An empty, well-formed store: no rows, counters at one.
    pub fn new() -> (s: Store)
        ensures
            s.wf(),
            s.symbols@ =~= Seq::<symbol::Model>::empty(),
            s.ohlc_bars@ =~= Seq::<ohlc_data::Model>::empty(),
            s.indicators@ =~= Seq::<indicator_data::Model>::empty(),
            s.signals@ =~= Seq::<trading_signal::Model>::empty(),
            s.backtests@ =~= Seq::<backtest_result::Model>::empty(),
            s.trades@ =~= Seq::<trade_record::Model>::empty(),
            s.next_symbol_id == 1 && s.next_ohlc_id == 1 && s.next_indicator_id == 1
                && s.next_signal_id == 1,
    {
        Store {
            next_symbol_id: 1,
            next_ohlc_id: 1,
            next_indicator_id: 1,
            next_signal_id: 1,
            symbols: Vec::new(),
            ohlc_bars: Vec::new(),
            indicators: Vec::new(),
            signals: Vec::new(),
            backtests: Vec::new(),
            trades: Vec::new(),
        }
    }
}

/// True exactly when the catalog holds a row with this id.
pub fn symbol_id_exists(symbols: &Vec<symbol::Model>, id: i32) -> (r: bool)
    ensures
        r == has_symbol_id(symbols@, id),
{
    let mut i: usize = 0;
    while i < symbols.len()
        invariant
            i <= symbols@.len(),
            forall|k: int| 0 <= k < i ==> (#[trigger] symbols@[k]).id != id,
        decreases symbols@.len() - i,
    {
        if symbols[i].id == id {
            return true;
        }
        i += 1;
    }
    false
}

/// True exactly when the catalog holds a row with this instrument code.
pub fn symbol_code_exists(symbols: &Vec<symbol::Model>, code: &str) -> (r: bool)
    ensures
        r == has_symbol_code(symbols@, code@),
{
    let mut i: usize = 0;
    while i < symbols.len()
        invariant
            i <= symbols@.len(),
            forall|k: int| 0 <= k < i ==> (#[trigger] symbols@[k]).symbol@ != code@,
        decreases symbols@.len() - i,
    {
        if str_eq(symbols[i].symbol.as_str(), code) {
            return true;
        }
        i += 1;
    }
    false
}

/// True exactly when some bar occupies the slot (symbol, instant).
pub fn bar_slot_taken(bars: &Vec<ohlc_data::Model>, symbol_id: i32, ts: Timestamp) -> (r: bool)
    ensures
        r == has_bar_at(bars@, symbol_id, ts.key()),
{
    let mut i: usize = 0;
    while i < bars.len()
        invariant
            i <= bars@.len(),
            forall|k: int|
                0 <= k < i ==> !((#[trigger] bars@[k]).symbol_id == symbol_id
                    && bars@[k].timestamp.key() == ts.key()),
        decreases bars@.len() - i,
    {
        if bars[i].symbol_id == symbol_id && bars[i].timestamp.key_u64() == ts.key_u64() {
            return true;
        }
        i += 1;
    }
    false
}

/// True exactly when some indicator record occupies the slot (symbol,
/// instant).
pub fn indicator_slot_taken(
    rows: &Vec<indicator_data::Model>,
    symbol_id: i32,
    ts: Timestamp,
) -> (r: bool)
    ensures
        r == has_indicator_at(rows@, symbol_id, ts.key()),
{
    let mut i: usize = 0;
    while i < rows.len()
        invariant
            i <= rows@.len(),
            forall|k: int|
                0 <= k < i ==> !((#[trigger] rows@[k]).symbol_id == symbol_id
                    && rows@[k].timestamp.key() == ts.key()),
        decreases rows@.len() - i,
    {
        if rows[i].symbol_id == symbol_id && rows[i].timestamp.key_u64() == ts.key_u64() {
            return true;
        }
        i += 1;
    }
    false
}

/// True exactly when some signal occupies the slot (symbol, instant).
pub fn signal_slot_taken(
    rows: &Vec<trading_signal::Model>,
    symbol_id: i32,
    ts: Timestamp,
) -> (r: bool)
    ensures
        r == has_signal_at(rows@, symbol_id, ts.key()),
{
    let mut i: usize = 0;
    while i < rows.len()
        invariant
            i <= rows@.len(),
            forall|k: int|
                0 <= k < i ==> !((#[trigger] rows@[k]).symbol_id == symbol_id
                    && rows@[k].timestamp.key() == ts.key()),
        decreases rows@.len() - i,
    {
        if rows[i].symbol_id == symbol_id && rows[i].timestamp.key_u64() == ts.key_u64() {
            return true;
        }
        i += 1;
    }
    false
}

/// True exactly when some backtest row has this caller-assigned id.
pub fn backtest_id_exists(rows: &Vec<backtest_result::Model>, id: &str) -> (r: bool)
    ensures
        r == has_backtest_id(rows@, id@),
{
    let mut i: usize = 0;
    while i < rows.len()
        invariant
            i <= rows@.len(),
            forall|k: int| 0 <= k < i ==> (#[trigger] rows@[k]).id@ != id@,
        decreases rows@.len() - i,
    {
        if str_eq(rows[i].id.as_str(), id) {
            return true;
        }
        i += 1;
    }
    false
}

/// True exactly when some trade row has this caller-assigned id.
pub fn trade_id_exists(rows: &Vec<trade_record::Model>, id: &str) -> (r: bool)
    ensures
        r == has_trade_id(rows@, id@),
{
    let mut i: usize = 0;
    while i < rows.len()
        invariant
            i <= rows@.len(),
            forall|k: int| 0 <= k < i ==> (#[trigger] rows@[k]).id@ != id@,
        decreases rows@.len() - i,
    {
        if str_eq(rows[i].id.as_str(), id) {
            return true;
        }
        i += 1;
    }
    false
}

/// True exactly when some trade occupies the slot (backtest, instant).
pub fn trade_slot_taken(
    rows: &Vec<trade_record::Model>,
    backtest_id: &str,
    ts: Timestamp,
) -> (r: bool)
    ensures
        r == has_trade_at(rows@, backtest_id@, ts.key()),
{
    let mut i: usize = 0;
    while i < rows.len()
        invariant
            i <= rows@.len(),
            forall|k: int|
                0 <= k < i ==> !((#[trigger] rows@[k]).backtest_result_id@ == backtest_id@
                    && rows@[k].timestamp.key() == ts.key()),
        decreases rows@.len() - i,
    {
        if str_eq(rows[i].backtest_result_id.as_str(), backtest_id) && rows[i].timestamp.key_u64()
            == ts.key_u64() {
            return true;
        }
        i += 1;
    }
    false
}

/// The catalog rows that survive deleting this symbol.
pub open spec fn symbol_survives(symbol_id: i32) -> spec_fn(symbol::Model) -> bool {
    |s: symbol::Model| s.id != symbol_id
}

/// The bars that survive the cascade of deleting this symbol.
pub open spec fn bar_survives(symbol_id: i32) -> spec_fn(ohlc_data::Model) -> bool {
    |b: ohlc_data::Model| b.symbol_id != symbol_id
}

/// The indicator records that survive the cascade of deleting this symbol.
pub open spec fn indicator_survives(symbol_id: i32) -> spec_fn(indicator_data::Model) -> bool {
    |r: indicator_data::Model| r.symbol_id != symbol_id
}

/// The signals that survive the cascade of deleting this symbol.
pub open spec fn signal_survives(symbol_id: i32) -> spec_fn(trading_signal::Model) -> bool {
    |r: trading_signal::Model| r.symbol_id != symbol_id
}

/// The backtests that survive the cascade of deleting this symbol.
pub open spec fn backtest_survives(symbol_id: i32) -> spec_fn(backtest_result::Model) -> bool {
    |b: backtest_result::Model| b.symbol_id != symbol_id
}

/// The trades that survive the cascade of deleting this symbol: those whose
/// owning backtest, looked up in the pre-delete backtest table, does not
/// belong to it.
pub open spec fn trade_survives_symbol(
    backtests: Seq<backtest_result::Model>,
    symbol_id: i32,
) -> spec_fn(trade_record::Model) -> bool {
    |t: trade_record::Model| !trade_owner_of_symbol(backtests, t, symbol_id)
}

/// The trades that survive the cascade of deleting this backtest.
pub open spec fn trade_survives_backtest(backtest_id: Seq<char>) -> spec_fn(
    trade_record::Model,
) -> bool {
    |t: trade_record::Model| t.backtest_result_id@ != backtest_id
}

/// Removes every bar owned by the symbol, in place, keeping the rest in
/// their stored order.
fn retain_bars(v: &mut Vec<ohlc_data::Model>, symbol_id: i32)
    ensures
        final(v)@ == old(v)@.filter(bar_survives(symbol_id)),
{
    let ghost orig = v@;
    let ghost pred = bar_survives(symbol_id);
    let mut i: usize = 0;
    let ghost mut j: int = 0;
    while i < v.len()
        invariant
            pred == bar_survives(symbol_id),
            0 <= j <= orig.len(),
            i as int == orig.subrange(0, j).filter(pred).len(),
            v@ == orig.subrange(0, j).filter(pred) + orig.subrange(j, orig.len() as int),
        decreases orig.len() - j,
    {
        proof {
            broadcast use Seq::lemma_filter_len;

            assert(v@[i as int] == orig[j]);
        }
        let keep = v[i].symbol_id != symbol_id;
        if keep {
            i += 1;
        } else {
            v.remove(i);
        }
        proof {
            let front = orig.subrange(0, j).filter(pred);
            assert(keep == pred(orig[j]));
            assert(orig.subrange(0, j + 1) =~= orig.subrange(0, j).push(orig[j]));
            lemma_filter_push(orig.subrange(0, j), orig[j], pred);
            assert(orig.subrange(j, orig.len() as int) =~= seq![orig[j]] + orig.subrange(
                j + 1,
                orig.len() as int,
            ));
            if keep {
                assert(orig.subrange(0, j + 1).filter(pred) =~= front.push(orig[j]));
                assert(front.push(orig[j]) + orig.subrange(j + 1, orig.len() as int) =~= front + (
                seq![orig[j]] + orig.subrange(j + 1, orig.len() as int)));
                assert(v@ =~= orig.subrange(0, j + 1).filter(pred) + orig.subrange(
                    j + 1,
                    orig.len() as int,
                ));
            } else {
                assert(v@ =~= front + orig.subrange(j + 1, orig.len() as int));
            }
            j = j + 1;
        }
    }
    proof {
        assert(orig.subrange(0, j) =~= orig);
        assert(v@ =~= orig.filter(pred));
    }
}

/// Removes the symbol's own catalog row, in place.
fn retain_symbols(v: &mut Vec<symbol::Model>, symbol_id: i32)
    ensures
        final(v)@ == old(v)@.filter(symbol_survives(symbol_id)),
{
    let ghost orig = v@;
    let ghost pred = symbol_survives(symbol_id);
    let mut i: usize = 0;
    let ghost mut j: int = 0;
    while i < v.len()
        invariant
            pred == symbol_survives(symbol_id),
            0 <= j <= orig.len(),
            i as int == orig.subrange(0, j).filter(pred).len(),
            v@ == orig.subrange(0, j).filter(pred) + orig.subrange(j, orig.len() as int),
        decreases orig.len() - j,
    {
        proof {
            broadcast use Seq::lemma_filter_len;

            assert(v@[i as int] == orig[j]);
        }
        let keep = v[i].id != symbol_id;
        if keep {
            i += 1;
        } else {
            v.remove(i);
        }
        proof {
            let front = orig.subrange(0, j).filter(pred);
            assert(keep == pred(orig[j]));
            assert(orig.subrange(0, j + 1) =~= orig.subrange(0, j).push(orig[j]));
            lemma_filter_push(orig.subrange(0, j), orig[j], pred);
            assert(orig.subrange(j, orig.len() as int) =~= seq![orig[j]] + orig.subrange(
                j + 1,
                orig.len() as int,
            ));
            if keep {
                assert(orig.subrange(0, j + 1).filter(pred) =~= front.push(orig[j]));
                assert(front.push(orig[j]) + orig.subrange(j + 1, orig.len() as int) =~= front + (
                seq![orig[j]] + orig.subrange(j + 1, orig.len() as int)));
                assert(v@ =~= orig.subrange(0, j + 1).filter(pred) + orig.subrange(
                    j + 1,
                    orig.len() as int,
                ));
            } else {
                assert(v@ =~= front + orig.subrange(j + 1, orig.len() as int));
            }
            j = j + 1;
        }
    }
    proof {
        assert(orig.subrange(0, j) =~= orig);
        assert(v@ =~= orig.filter(pred));
    }
}

/// Removes every indicator record owned by the symbol, in place.
fn retain_indicators(v: &mut Vec<indicator_data::Model>, symbol_id: i32)
    ensures
        final(v)@ == old(v)@.filter(indicator_survives(symbol_id)),
{
    let ghost orig = v@;
    let ghost pred = indicator_survives(symbol_id);
    let mut i: usize = 0;
    let ghost mut j: int = 0;
    while i < v.len()
        invariant
            pred == indicator_survives(symbol_id),
            0 <= j <= orig.len(),
            i as int == orig.subrange(0, j).filter(pred).len(),
            v@ == orig.subrange(0, j).filter(pred) + orig.subrange(j, orig.len() as int),
        decreases orig.len() - j,
    {
        proof {
            broadcast use Seq::lemma_filter_len;

            assert(v@[i as int] == orig[j]);
        }
        let keep = v[i].symbol_id != symbol_id;
        if keep {
            i += 1;
        } else {
            v.remove(i);
        }
        proof {
            let front = orig.subrange(0, j).filter(pred);
            assert(keep == pred(orig[j]));
            assert(orig.subrange(0, j + 1) =~= orig.subrange(0, j).push(orig[j]));
            lemma_filter_push(orig.subrange(0, j), orig[j], pred);
            assert(orig.subrange(j, orig.len() as int) =~= seq![orig[j]] + orig.subrange(
                j + 1,
                orig.len() as int,
            ));
            if keep {
                assert(orig.subrange(0, j + 1).filter(pred) =~= front.push(orig[j]));
                assert(front.push(orig[j]) + orig.subrange(j + 1, orig.len() as int) =~= front + (
                seq![orig[j]] + orig.subrange(j + 1, orig.len() as int)));
                assert(v@ =~= orig.subrange(0, j + 1).filter(pred) + orig.subrange(
                    j + 1,
                    orig.len() as int,
                ));
            } else {
                assert(v@ =~= front + orig.subrange(j + 1, orig.len() as int));
            }
            j = j + 1;
        }
    }
    proof {
        assert(orig.subrange(0, j) =~= orig);
        assert(v@ =~= orig.filter(pred));
    }
}

/// Removes every signal owned by the symbol, in place.
fn retain_signals(v: &mut Vec<trading_signal::Model>, symbol_id: i32)
    ensures
        final(v)@ == old(v)@.filter(signal_survives(symbol_id)),
{
    let ghost orig = v@;
    let ghost pred = signal_survives(symbol_id);
    let mut i: usize = 0;
    let ghost mut j: int = 0;
    while i < v.len()
        invariant
            pred == signal_survives(symbol_id),
            0 <= j <= orig.len(),
            i as int == orig.subrange(0, j).filter(pred).len(),
            v@ == orig.subrange(0, j).filter(pred) + orig.subrange(j, orig.len() as int),
        decreases orig.len() - j,
    {
        proof {
            broadcast use Seq::lemma_filter_len;

            assert(v@[i as int] == orig[j]);
        }
        let keep = v[i].symbol_id != symbol_id;
        if keep {
            i += 1;
        } else {
            v.remove(i);
        }
        proof {
            let front = orig.subrange(0, j).filter(pred);
            assert(keep == pred(orig[j]));
            assert(orig.subrange(0, j + 1) =~= orig.subrange(0, j).push(orig[j]));
            lemma_filter_push(orig.subrange(0, j), orig[j], pred);
            assert(orig.subrange(j, orig.len() as int) =~= seq![orig[j]] + orig.subrange(
                j + 1,
                orig.len() as int,
            ));
            if keep {
                assert(orig.subrange(0, j + 1).filter(pred) =~= front.push(orig[j]));
                assert(front.push(orig[j]) + orig.subrange(j + 1, orig.len() as int) =~= front + (
                seq![orig[j]] + orig.subrange(j + 1, orig.len() as int)));
                assert(v@ =~= orig.subrange(0, j + 1).filter(pred) + orig.subrange(
                    j + 1,
                    orig.len() as int,
                ));
            } else {
                assert(v@ =~= front + orig.subrange(j + 1, orig.len() as int));
            }
            j = j + 1;
        }
    }
    proof {
        assert(orig.subrange(0, j) =~= orig);
        assert(v@ =~= orig.filter(pred));
    }
}

/// Removes every backtest owned by the symbol, in place.
fn retain_backtests(v: &mut Vec<backtest_result::Model>, symbol_id: i32)
    ensures
        final(v)@ == old(v)@.filter(backtest_survives(symbol_id)),
{
    let ghost orig = v@;
    let ghost pred = backtest_survives(symbol_id);
    let mut i: usize = 0;
    let ghost mut j: int = 0;
    while i < v.len()
        invariant
            pred == backtest_survives(symbol_id),
            0 <= j <= orig.len(),
            i as int == orig.subrange(0, j).filter(pred).len(),
            v@ == orig.subrange(0, j).filter(pred) + orig.subrange(j, orig.len() as int),
        decreases orig.len() - j,
    {
        proof {
            broadcast use Seq::lemma_filter_len;

            assert(v@[i as int] == orig[j]);
        }
        let keep = v[i].symbol_id != symbol_id;
        if keep {
            i += 1;
        } else {
            v.remove(i);
        }
        proof {
            let front = orig.subrange(0, j).filter(pred);
            assert(keep == pred(orig[j]));
            assert(orig.subrange(0, j + 1) =~= orig.subrange(0, j).push(orig[j]));
            lemma_filter_push(orig.subrange(0, j), orig[j], pred);
            assert(orig.subrange(j, orig.len() as int) =~= seq![orig[j]] + orig.subrange(
                j + 1,
                orig.len() as int,
            ));
            if keep {
                assert(orig.subrange(0, j + 1).filter(pred) =~= front.push(orig[j]));
                assert(front.push(orig[j]) + orig.subrange(j + 1, orig.len() as int) =~= front + (
                seq![orig[j]] + orig.subrange(j + 1, orig.len() as int)));
                assert(v@ =~= orig.subrange(0, j + 1).filter(pred) + orig.subrange(
                    j + 1,
                    orig.len() as int,
                ));
            } else {
                assert(v@ =~= front + orig.subrange(j + 1, orig.len() as int));
            }
            j = j + 1;
        }
    }
    proof {
        assert(orig.subrange(0, j) =~= orig);
        assert(v@ =~= orig.filter(pred));
    }
}

/// True exactly when the trade's owning backtest, looked up in `backtests`,
/// belongs to the symbol.
fn trade_owned_by_symbol(
    backtests: &Vec<backtest_result::Model>,
    t: &trade_record::Model,
    symbol_id: i32,
) -> (r: bool)
    ensures
        r == trade_owner_of_symbol(backtests@, *t, symbol_id),
{
    let mut i: usize = 0;
    while i < backtests.len()
        invariant
            i <= backtests@.len(),
            forall|k: int|
                0 <= k < i ==> !((#[trigger] backtests@[k]).id@ == t.backtest_result_id@
                    && backtests@[k].symbol_id == symbol_id),
        decreases backtests@.len() - i,
    {
        if str_eq(backtests[i].id.as_str(), t.backtest_result_id.as_str()) && backtests[i].symbol_id
            == symbol_id {
            return true;
        }
        i += 1;
    }
    false
}

/// Removes every trade whose owning backtest belongs to the symbol, in
/// place; `backtests` is the pre-delete backtest table.
fn retain_trades_of_symbol(
    v: &mut Vec<trade_record::Model>,
    backtests: &Vec<backtest_result::Model>,
    symbol_id: i32,
)
    ensures
        final(v)@ == old(v)@.filter(trade_survives_symbol(backtests@, symbol_id)),
{
    let ghost orig = v@;
    let ghost pred = trade_survives_symbol(backtests@, symbol_id);
    let mut i: usize = 0;
    let ghost mut j: int = 0;
    while i < v.len()
        invariant
            pred == trade_survives_symbol(backtests@, symbol_id),
            0 <= j <= orig.len(),
            i as int == orig.subrange(0, j).filter(pred).len(),
            v@ == orig.subrange(0, j).filter(pred) + orig.subrange(j, orig.len() as int),
        decreases orig.len() - j,
    {
        proof {
            broadcast use Seq::lemma_filter_len;

            assert(v@[i as int] == orig[j]);
        }
        let keep = !trade_owned_by_symbol(backtests, &v[i], symbol_id);
        if keep {
            i += 1;
        } else {
            v.remove(i);
        }
        proof {
            let front = orig.subrange(0, j).filter(pred);
            assert(keep == pred(orig[j]));
            assert(orig.subrange(0, j + 1) =~= orig.subrange(0, j).push(orig[j]));
            lemma_filter_push(orig.subrange(0, j), orig[j], pred);
            assert(orig.subrange(j, orig.len() as int) =~= seq![orig[j]] + orig.subrange(
                j + 1,
                orig.len() as int,
            ));
            if keep {
                assert(orig.subrange(0, j + 1).filter(pred) =~= front.push(orig[j]));
                assert(front.push(orig[j]) + orig.subrange(j + 1, orig.len() as int) =~= front + (
                seq![orig[j]] + orig.subrange(j + 1, orig.len() as int)));
                assert(v@ =~= orig.subrange(0, j + 1).filter(pred) + orig.subrange(
                    j + 1,
                    orig.len() as int,
                ));
            } else {
                assert(v@ =~= front + orig.subrange(j + 1, orig.len() as int));
            }
            j = j + 1;
        }
    }
    proof {
        assert(orig.subrange(0, j) =~= orig);
        assert(v@ =~= orig.filter(pred));
    }
}

/// Removes every trade owned by the backtest, in place.
fn retain_trades_of_backtest(v: &mut Vec<trade_record::Model>, backtest_id: &str)
    ensures
        final(v)@ == old(v)@.filter(trade_survives_backtest(backtest_id@)),
{
    let ghost orig = v@;
    let ghost pred = trade_survives_backtest(backtest_id@);
    let mut i: usize = 0;
    let ghost mut j: int = 0;
    while i < v.len()
        invariant
            pred == trade_survives_backtest(backtest_id@),
            0 <= j <= orig.len(),
            i as int == orig.subrange(0, j).filter(pred).len(),
            v@ == orig.subrange(0, j).filter(pred) + orig.subrange(j, orig.len() as int),
        decreases orig.len() - j,
    {
        proof {
            broadcast use Seq::lemma_filter_len;

            assert(v@[i as int] == orig[j]);
        }
        let keep = !str_eq(v[i].backtest_result_id.as_str(), backtest_id);
        if keep {
            i += 1;
        } else {
            v.remove(i);
        }
        proof {
            let front = orig.subrange(0, j).filter(pred);
            assert(keep == pred(orig[j]));
            assert(orig.subrange(0, j + 1) =~= orig.subrange(0, j).push(orig[j]));
            lemma_filter_push(orig.subrange(0, j), orig[j], pred);
            assert(orig.subrange(j, orig.len() as int) =~= seq![orig[j]] + orig.subrange(
                j + 1,
                orig.len() as int,
            ));
            if keep {
                assert(orig.subrange(0, j + 1).filter(pred) =~= front.push(orig[j]));
                assert(front.push(orig[j]) + orig.subrange(j + 1, orig.len() as int) =~= front + (
                seq![orig[j]] + orig.subrange(j + 1, orig.len() as int)));
                assert(v@ =~= orig.subrange(0, j + 1).filter(pred) + orig.subrange(
                    j + 1,
                    orig.len() as int,
                ));
            } else {
                assert(v@ =~= front + orig.subrange(j + 1, orig.len() as int));
            }
            j = j + 1;
        }
    }
    proof {
        assert(orig.subrange(0, j) =~= orig);
        assert(v@ =~= orig.filter(pred));
    }
}

impl Store {
    /// Inserts an instrument into the catalog, assigning its generated id.
    ///
    /// The given row's `id` field is ignored and replaced by the store's
    /// counter. Fails with the store-error kind — leaving the store
    /// untouched — exactly when the instrument code is already in the
    /// catalog or the id space is exhausted.
    pub fn insert_symbol(&mut self, row: symbol::Model) -> (r: Result<i32, ApiError>)
        requires
            old(self).wf(),
        ensures
            final(self).wf(),
            r is Err <==> (has_symbol_code(old(self).symbols@, row.symbol@) || old(
                self,
            ).next_symbol_id == i32::MAX),
            r is Err ==> r == Err::<i32, ApiError>(ApiError::DatabaseError)
                && final(self).same_state(*old(self)),
            r matches Ok(id) ==> id == old(self).next_symbol_id && final(self).symbols@ == old(
                self,
            ).symbols@.push(symbol::Model { id, ..row }) && final(self).next_symbol_id == old(
                self,
            ).next_symbol_id + 1,
            final(self).same_bars(*old(self)),
            final(self).same_indicators(*old(self)),
            final(self).same_signals(*old(self)),
            final(self).same_backtests(*old(self)),
            final(self).same_trades(*old(self)),
    {
        if symbol_code_exists(&self.symbols, row.symbol.as_str()) {
            return Err(ApiError::DatabaseError);
        }
        if self.next_symbol_id == i32::MAX {
            return Err(ApiError::DatabaseError);
        }
        let id = self.next_symbol_id;
        let ghost olds = self.symbols@;
        let stored = symbol::Model { id, ..row };
        let ghost srow = stored;
        self.symbols.push(stored);
        self.next_symbol_id = id + 1;
        proof {
            let news = self.symbols@;
            assert(news == olds.push(srow));
            assert forall|i: int, j: int| 0 <= i < j < news.len() implies (#[trigger] news[i]).id
                != (#[trigger] news[j]).id && news[i].symbol@ != news[j].symbol@ by {
                if j == olds.len() {
                    assert(news[i] == olds[i]);
                    assert(olds[i].symbol@ != srow.symbol@);
                }
            }
            assert forall|i: int|
                0 <= i < self.ohlc_bars@.len() implies has_symbol_id(
                news,
                (#[trigger] self.ohlc_bars@[i]).symbol_id,
            ) by {
                lemma_has_symbol_id_push(olds, srow, self.ohlc_bars@[i].symbol_id);
            }
            assert forall|i: int|
                0 <= i < self.indicators@.len() implies has_symbol_id(
                news,
                (#[trigger] self.indicators@[i]).symbol_id,
            ) by {
                lemma_has_symbol_id_push(olds, srow, self.indicators@[i].symbol_id);
            }
            assert forall|i: int|
                0 <= i < self.signals@.len() implies has_symbol_id(
                news,
                (#[trigger] self.signals@[i]).symbol_id,
            ) by {
                lemma_has_symbol_id_push(olds, srow, self.signals@[i].symbol_id);
            }
            assert forall|i: int|
                0 <= i < self.backtests@.len() implies has_symbol_id(
                news,
                (#[trigger] self.backtests@[i]).symbol_id,
            ) by {
                lemma_has_symbol_id_push(olds, srow, self.backtests@[i].symbol_id);
            }
        }
        Ok(id)
    }

    /// Inserts a price bar, assigning its generated id.
    ///
    /// The given row's `id` field is ignored and replaced by the store's
    /// counter; every other field is stored unchanged. Fails with the
    /// store-error kind — leaving the store untouched — exactly when the
    /// owning symbol does not exist (a foreign-key violation), the slot
    /// (symbol, instant) is already occupied (the composite unique index),
    /// or the id space is exhausted. A bar is never silently overwritten
    /// or duplicated. Instants compare by key; on calendar-valid
    /// timestamps the key is injective (`lemma_key_injective`), so the
    /// slot is exactly the (symbol, timestamp) pair.
    pub fn insert_ohlc_bar(&mut self, row: ohlc_data::Model) -> (r: Result<i32, ApiError>)
        requires
            old(self).wf(),
        ensures
            final(self).wf(),
            r is Err <==> (!has_symbol_id(old(self).symbols@, row.symbol_id) || has_bar_at(
                old(self).ohlc_bars@,
                row.symbol_id,
                row.timestamp.key(),
            ) || old(self).next_ohlc_id == i32::MAX),
            r is Err ==> r == Err::<i32, ApiError>(ApiError::DatabaseError)
                && final(self).same_state(*old(self)),
            r matches Ok(id) ==> id == old(self).next_ohlc_id && final(self).ohlc_bars@ == old(
                self,
            ).ohlc_bars@.push(ohlc_data::Model { id, ..row }) && final(self).next_ohlc_id == old(
                self,
            ).next_ohlc_id + 1,
            final(self).same_symbols(*old(self)),
            final(self).same_indicators(*old(self)),
            final(self).same_signals(*old(self)),
            final(self).same_backtests(*old(self)),
            final(self).same_trades(*old(self)),
    {
        if !symbol_id_exists(&self.symbols, row.symbol_id) {
            return Err(ApiError::DatabaseError);
        }
        if bar_slot_taken(&self.ohlc_bars, row.symbol_id, row.timestamp) {
            return Err(ApiError::DatabaseError);
        }
        if self.next_ohlc_id == i32::MAX {
            return Err(ApiError::DatabaseError);
        }
        let id = self.next_ohlc_id;
        let ghost olds = self.ohlc_bars@;
        let stored = ohlc_data::Model { id, ..row };
        let ghost srow = stored;
        self.ohlc_bars.push(stored);
        self.next_ohlc_id = id + 1;
        proof {
            let news = self.ohlc_bars@;
            assert(news == olds.push(srow));
            assert forall|i: int, j: int| 0 <= i < j < news.len() implies (#[trigger] news[i]).id
                != (#[trigger] news[j]).id && !(news[i].symbol_id == news[j].symbol_id
                && news[i].timestamp.key() == news[j].timestamp.key()) by {
                if j == olds.len() {
                    assert(news[i] == olds[i]);
                }
            }
        }
        Ok(id)
    }

    /// Inserts an indicator record, assigning its generated id.
    ///
    /// Fails with the store-error kind — leaving the store untouched —
    /// exactly when the owning symbol does not exist, the slot (symbol,
    /// instant) is already occupied, or the id space is exhausted.
    pub fn insert_indicator(&mut self, row: indicator_data::Model) -> (r: Result<i32, ApiError>)
        requires
            old(self).wf(),
        ensures
            final(self).wf(),
            r is Err <==> (!has_symbol_id(old(self).symbols@, row.symbol_id) || has_indicator_at(
                old(self).indicators@,
                row.symbol_id,
                row.timestamp.key(),
            ) || old(self).next_indicator_id == i32::MAX),
            r is Err ==> r == Err::<i32, ApiError>(ApiError::DatabaseError)
                && final(self).same_state(*old(self)),
            r matches Ok(id) ==> id == old(self).next_indicator_id && final(self).indicators@
                == old(self).indicators@.push(indicator_data::Model { id, ..row })
                && final(self).next_indicator_id == old(self).next_indicator_id + 1,
            final(self).same_symbols(*old(self)),
            final(self).same_bars(*old(self)),
            final(self).same_signals(*old(self)),
            final(self).same_backtests(*old(self)),
            final(self).same_trades(*old(self)),
    {
        if !symbol_id_exists(&self.symbols, row.symbol_id) {
            return Err(ApiError::DatabaseError);
        }
        if indicator_slot_taken(&self.indicators, row.symbol_id, row.timestamp) {
            return Err(ApiError::DatabaseError);
        }
        if self.next_indicator_id == i32::MAX {
            return Err(ApiError::DatabaseError);
        }
        let id = self.next_indicator_id;
        let ghost olds = self.indicators@;
        let stored = indicator_data::Model { id, ..row };
        let ghost srow = stored;
        self.indicators.push(stored);
        self.next_indicator_id = id + 1;
        proof {
            let news = self.indicators@;
            assert(news == olds.push(srow));
            assert forall|i: int, j: int| 0 <= i < j < news.len() implies (#[trigger] news[i]).id
                != (#[trigger] news[j]).id && !(news[i].symbol_id == news[j].symbol_id
                && news[i].timestamp.key() == news[j].timestamp.key()) by {
                if j == olds.len() {
                    assert(news[i] == olds[i]);
                }
            }
        }
        Ok(id)
    }

    /// Inserts a trading signal, assigning its generated id.
    ///
    /// Fails with the store-error kind — leaving the store untouched —
    /// exactly when the owning symbol does not exist, the slot (symbol,
    /// instant) is already occupied, or the id space is exhausted.
    pub fn insert_signal(&mut self, row: trading_signal::Model) -> (r: Result<i32, ApiError>)
        requires
            old(self).wf(),
        ensures
            final(self).wf(),
            r is Err <==> (!has_symbol_id(old(self).symbols@, row.symbol_id) || has_signal_at(
                old(self).signals@,
                row.symbol_id,
                row.timestamp.key(),
            ) || old(self).next_signal_id == i32::MAX),
            r is Err ==> r == Err::<i32, ApiError>(ApiError::DatabaseError)
                && final(self).same_state(*old(self)),
            r matches Ok(id) ==> id == old(self).next_signal_id && final(self).signals@ == old(
                self,
            ).signals@.push(trading_signal::Model { id, ..row }) && final(self).next_signal_id
                == old(self).next_signal_id + 1,
            final(self).same_symbols(*old(self)),
            final(self).same_bars(*old(self)),
            final(self).same_indicators(*old(self)),
            final(self).same_backtests(*old(self)),
            final(self).same_trades(*old(self)),
    {
        if !symbol_id_exists(&self.symbols, row.symbol_id) {
            return Err(ApiError::DatabaseError);
        }
        if signal_slot_taken(&self.signals, row.symbol_id, row.timestamp) {
            return Err(ApiError::DatabaseError);
        }
        if self.next_signal_id == i32::MAX {
            return Err(ApiError::DatabaseError);
        }
        let id = self.next_signal_id;
        let ghost olds = self.signals@;
        let stored = trading_signal::Model { id, ..row };
        let ghost srow = stored;
        self.signals.push(stored);
        self.next_signal_id = id + 1;
        proof {
            let news = self.signals@;
            assert(news == olds.push(srow));
            assert forall|i: int, j: int| 0 <= i < j < news.len() implies (#[trigger] news[i]).id
                != (#[trigger] news[j]).id && !(news[i].symbol_id == news[j].symbol_id
                && news[i].timestamp.key() == news[j].timestamp.key()) by {
                if j == olds.len() {
                    assert(news[i] == olds[i]);
                }
            }
        }
        Ok(id)
    }

    /// Inserts a backtest summary under its caller-assigned id.
    ///
    /// Fails with the store-error kind — leaving the store untouched —
    /// exactly when the owning symbol does not exist or a backtest with
    /// the same id is already present.
    pub fn insert_backtest(&mut self, row: backtest_result::Model) -> (r: Result<(), ApiError>)
        requires
            old(self).wf(),
        ensures
            final(self).wf(),
            r is Err <==> (!has_symbol_id(old(self).symbols@, row.symbol_id) || has_backtest_id(
                old(self).backtests@,
                row.id@,
            )),
            r is Err ==> r == Err::<(), ApiError>(ApiError::DatabaseError)
                && final(self).same_state(*old(self)),
            r is Ok ==> final(self).backtests@ == old(self).backtests@.push(row),
            final(self).same_symbols(*old(self)),
            final(self).same_bars(*old(self)),
            final(self).same_indicators(*old(self)),
            final(self).same_signals(*old(self)),
            final(self).same_trades(*old(self)),
    {
        if !symbol_id_exists(&self.symbols, row.symbol_id) {
            return Err(ApiError::DatabaseError);
        }
        if backtest_id_exists(&self.backtests, row.id.as_str()) {
            return Err(ApiError::DatabaseError);
        }
        let ghost olds = self.backtests@;
        let ghost srow = row;
        self.backtests.push(row);
        proof {
            let news = self.backtests@;
            assert(news == olds.push(srow));
            assert forall|i: int, j: int| 0 <= i < j < news.len() implies (#[trigger] news[i]).id@
                != (#[trigger] news[j]).id@ by {
                if j == olds.len() {
                    assert(news[i] == olds[i]);
                }
            }
            assert forall|i: int|
                0 <= i < self.trades@.len() implies has_backtest_id(
                news,
                (#[trigger] self.trades@[i]).backtest_result_id@,
            ) by {
                let k = choose|k: int|
                    0 <= k < olds.len() && olds[k].id@ == self.trades@[i].backtest_result_id@;
                assert(news[k].id@ == self.trades@[i].backtest_result_id@);
            }
        }
        Ok(())
    }

    /// Inserts a trade record under its caller-assigned id.
    ///
    /// Fails with the store-error kind — leaving the store untouched —
    /// exactly when the owning backtest does not exist, a trade with the
    /// same id is already present, or the slot (backtest, instant) is
    /// already occupied.
    pub fn insert_trade(&mut self, row: trade_record::Model) -> (r: Result<(), ApiError>)
        requires
            old(self).wf(),
        ensures
            final(self).wf(),
            r is Err <==> (!has_backtest_id(old(self).backtests@, row.backtest_result_id@)
                || has_trade_id(old(self).trades@, row.id@) || has_trade_at(
                old(self).trades@,
                row.backtest_result_id@,
                row.timestamp.key(),
            )),
            r is Err ==> r == Err::<(), ApiError>(ApiError::DatabaseError)
                && final(self).same_state(*old(self)),
            r is Ok ==> final(self).trades@ == old(self).trades@.push(row),
            final(self).same_symbols(*old(self)),
            final(self).same_bars(*old(self)),
            final(self).same_indicators(*old(self)),
            final(self).same_signals(*old(self)),
            final(self).same_backtests(*old(self)),
    {
        if !backtest_id_exists(&self.backtests, row.backtest_result_id.as_str()) {
            return Err(ApiError::DatabaseError);
        }
        if trade_id_exists(&self.trades, row.id.as_str()) {
            return Err(ApiError::DatabaseError);
        }
        if trade_slot_taken(&self.trades, row.backtest_result_id.as_str(), row.timestamp) {
            return Err(ApiError::DatabaseError);
        }
        let ghost olds = self.trades@;
        let ghost srow = row;
        self.trades.push(row);
        proof {
            let news = self.trades@;
            assert(news == olds.push(srow));
            assert forall|i: int, j: int| 0 <= i < j < news.len() implies (#[trigger] news[i]).id@
                != (#[trigger] news[j]).id@ && !(news[i].backtest_result_id@
                == news[j].backtest_result_id@ && news[i].timestamp.key()
                == news[j].timestamp.key()) by {
                if j == olds.len() {
                    assert(news[i] == olds[i]);
                }
            }
        }
        Ok(())
    }

    /// Deletes a symbol and cascades: all its bars, indicator records,
    /// signals and backtests go with it, and transitively the trades of
    /// those backtests. Every surviving row keeps its place in its table's
    /// stored order. Returns whether the symbol existed; deleting an
    /// unknown id is a no-op, not an error.
    pub fn delete_symbol(&mut self, symbol_id: i32) -> (found: bool)
        requires
            old(self).wf(),
        ensures
            final(self).wf(),
            found == has_symbol_id(old(self).symbols@, symbol_id),
            final(self).symbols@ == old(self).symbols@.filter(symbol_survives(symbol_id)),
            final(self).ohlc_bars@ == old(self).ohlc_bars@.filter(bar_survives(symbol_id)),
            final(self).indicators@ == old(self).indicators@.filter(
                indicator_survives(symbol_id),
            ),
            final(self).signals@ == old(self).signals@.filter(signal_survives(symbol_id)),
            final(self).backtests@ == old(self).backtests@.filter(backtest_survives(symbol_id)),
            final(self).trades@ == old(self).trades@.filter(
                trade_survives_symbol(old(self).backtests@, symbol_id),
            ),
            final(self).next_symbol_id == old(self).next_symbol_id,
            final(self).next_ohlc_id == old(self).next_ohlc_id,
            final(self).next_indicator_id == old(self).next_indicator_id,
            final(self).next_signal_id == old(self).next_signal_id,
    {
        let found = symbol_id_exists(&self.symbols, symbol_id);
        retain_trades_of_symbol(&mut self.trades, &self.backtests, symbol_id);
        retain_backtests(&mut self.backtests, symbol_id);
        retain_signals(&mut self.signals, symbol_id);
        retain_indicators(&mut self.indicators, symbol_id);
        retain_bars(&mut self.ohlc_bars, symbol_id);
        retain_symbols(&mut self.symbols, symbol_id);
        proof {
            let osyms = old(self).symbols@;
            let nsyms = self.symbols@;
            let obars = old(self).ohlc_bars@;
            let nbars = self.ohlc_bars@;
            let oind = old(self).indicators@;
            let nind = self.indicators@;
            let osig = old(self).signals@;
            let nsig = self.signals@;
            let obt = old(self).backtests@;
            let nbt = self.backtests@;
            let otr = old(self).trades@;
            let ntr = self.trades@;
            assert forall|i: int|
                0 <= i < nsyms.len() implies 0 < (#[trigger] nsyms[i]).id
                < self.next_symbol_id by {
                lemma_filter_elem_in_orig(osyms, symbol_survives(symbol_id), i);
            }
            lemma_filter_pairwise(
                osyms,
                symbol_survives(symbol_id),
                |a: symbol::Model, b: symbol::Model| a.id != b.id && a.symbol@ != b.symbol@,
            );
            assert forall|i: int|
                0 <= i < nbars.len() implies 0 < (#[trigger] nbars[i]).id < self.next_ohlc_id by {
                lemma_filter_elem_in_orig(obars, bar_survives(symbol_id), i);
            }
            lemma_filter_pairwise(
                obars,
                bar_survives(symbol_id),
                |a: ohlc_data::Model, b: ohlc_data::Model|
                    a.id != b.id && !(a.symbol_id == b.symbol_id && a.timestamp.key()
                        == b.timestamp.key()),
            );
            assert forall|i: int|
                0 <= i < nbars.len() implies has_symbol_id(
                nsyms,
                (#[trigger] nbars[i]).symbol_id,
            ) by {
                lemma_filter_elem_in_orig(obars, bar_survives(symbol_id), i);
                let k = choose|k: int| 0 <= k < obars.len() && obars[k] == nbars[i];
                Seq::lemma_filter_pred(obars, bar_survives(symbol_id), i);
                let m = choose|m: int| 0 <= m < osyms.len() && osyms[m].id == obars[k].symbol_id;
                Seq::lemma_filter_contains(osyms, symbol_survives(symbol_id), m);
                let w = choose|w: int| 0 <= w < nsyms.len() && nsyms[w] == osyms[m];
                assert(nsyms[w].id == nbars[i].symbol_id);
            }
            assert forall|i: int|
                0 <= i < nind.len() implies 0 < (#[trigger] nind[i]).id
                < self.next_indicator_id by {
                lemma_filter_elem_in_orig(oind, indicator_survives(symbol_id), i);
            }
            lemma_filter_pairwise(
                oind,
                indicator_survives(symbol_id),
                |a: indicator_data::Model, b: indicator_data::Model|
                    a.id != b.id && !(a.symbol_id == b.symbol_id && a.timestamp.key()
                        == b.timestamp.key()),
            );
            assert forall|i: int|
                0 <= i < nind.len() implies has_symbol_id(
                nsyms,
                (#[trigger] nind[i]).symbol_id,
            ) by {
                lemma_filter_elem_in_orig(oind, indicator_survives(symbol_id), i);
                let k = choose|k: int| 0 <= k < oind.len() && oind[k] == nind[i];
                Seq::lemma_filter_pred(oind, indicator_survives(symbol_id), i);
                let m = choose|m: int| 0 <= m < osyms.len() && osyms[m].id == oind[k].symbol_id;
                Seq::lemma_filter_contains(osyms, symbol_survives(symbol_id), m);
                let w = choose|w: int| 0 <= w < nsyms.len() && nsyms[w] == osyms[m];
                assert(nsyms[w].id == nind[i].symbol_id);
            }
            assert forall|i: int|
                0 <= i < nsig.len() implies 0 < (#[trigger] nsig[i]).id
                < self.next_signal_id by {
                lemma_filter_elem_in_orig(osig, signal_survives(symbol_id), i);
            }
            lemma_filter_pairwise(
                osig,
                signal_survives(symbol_id),
                |a: trading_signal::Model, b: trading_signal::Model|
                    a.id != b.id && !(a.symbol_id == b.symbol_id && a.timestamp.key()
                        == b.timestamp.key()),
            );
            assert forall|i: int|
                0 <= i < nsig.len() implies has_symbol_id(
                nsyms,
                (#[trigger] nsig[i]).symbol_id,
            ) by {
                lemma_filter_elem_in_orig(osig, signal_survives(symbol_id), i);
                let k = choose|k: int| 0 <= k < osig.len() && osig[k] == nsig[i];
                Seq::lemma_filter_pred(osig, signal_survives(symbol_id), i);
                let m = choose|m: int| 0 <= m < osyms.len() && osyms[m].id == osig[k].symbol_id;
                Seq::lemma_filter_contains(osyms, symbol_survives(symbol_id), m);
                let w = choose|w: int| 0 <= w < nsyms.len() && nsyms[w] == osyms[m];
                assert(nsyms[w].id == nsig[i].symbol_id);
            }
            lemma_filter_pairwise(
                obt,
                backtest_survives(symbol_id),
                |a: backtest_result::Model, b: backtest_result::Model| a.id@ != b.id@,
            );
            assert forall|i: int|
                0 <= i < nbt.len() implies has_symbol_id(
                nsyms,
                (#[trigger] nbt[i]).symbol_id,
            ) by {
                lemma_filter_elem_in_orig(obt, backtest_survives(symbol_id), i);
                let k = choose|k: int| 0 <= k < obt.len() && obt[k] == nbt[i];
                Seq::lemma_filter_pred(obt, backtest_survives(symbol_id), i);
                let m = choose|m: int| 0 <= m < osyms.len() && osyms[m].id == obt[k].symbol_id;
                Seq::lemma_filter_contains(osyms, symbol_survives(symbol_id), m);
                let w = choose|w: int| 0 <= w < nsyms.len() && nsyms[w] == osyms[m];
                assert(nsyms[w].id == nbt[i].symbol_id);
            }
            lemma_filter_pairwise(
                otr,
                trade_survives_symbol(obt, symbol_id),
                |a: trade_record::Model, b: trade_record::Model|
                    a.id@ != b.id@ && !(a.backtest_result_id@ == b.backtest_result_id@
                        && a.timestamp.key() == b.timestamp.key()),
            );
            assert forall|i: int|
                0 <= i < ntr.len() implies has_backtest_id(
                nbt,
                (#[trigger] ntr[i]).backtest_result_id@,
            ) by {
                lemma_filter_elem_in_orig(otr, trade_survives_symbol(obt, symbol_id), i);
                let k = choose|k: int| 0 <= k < otr.len() && otr[k] == ntr[i];
                Seq::lemma_filter_pred(otr, trade_survives_symbol(obt, symbol_id), i);
                let m = choose|m: int|
                    0 <= m < obt.len() && obt[m].id@ == otr[k].backtest_result_id@;
                assert(obt[m].symbol_id != symbol_id);
                Seq::lemma_filter_contains(obt, backtest_survives(symbol_id), m);
                let w = choose|w: int| 0 <= w < nbt.len() && nbt[w] == obt[m];
                assert(nbt[w].id@ == ntr[i].backtest_result_id@);
            }
        }
        found
    }

    /// Deletes a backtest by its caller-assigned id and cascades to its
    /// trade records. Every surviving row keeps its place in its table's
    /// stored order. Returns whether the backtest existed; deleting an
    /// unknown id is a no-op, not an error.
    pub fn delete_backtest(&mut self, backtest_id: &str) -> (found: bool)
        requires
            old(self).wf(),
        ensures
            final(self).wf(),
            found == has_backtest_id(old(self).backtests@, backtest_id@),
            final(self).backtests@ == old(self).backtests@.filter(
                backtest_survives_id(backtest_id@),
            ),
            final(self).trades@ == old(self).trades@.filter(
                trade_survives_backtest(backtest_id@),
            ),
            final(self).same_symbols(*old(self)),
            final(self).same_bars(*old(self)),
            final(self).same_indicators(*old(self)),
            final(self).same_signals(*old(self)),
    {
        let found = backtest_id_exists(&self.backtests, backtest_id);
        retain_trades_of_backtest(&mut self.trades, backtest_id);
        retain_backtests_by_id(&mut self.backtests, backtest_id);
        proof {
            let osyms = self.symbols@;
            let obt = old(self).backtests@;
            let nbt = self.backtests@;
            let otr = old(self).trades@;
            let ntr = self.trades@;
            lemma_filter_pairwise(
                obt,
                backtest_survives_id(backtest_id@),
                |a: backtest_result::Model, b: backtest_result::Model| a.id@ != b.id@,
            );
            assert forall|i: int|
                0 <= i < nbt.len() implies has_symbol_id(
                osyms,
                (#[trigger] nbt[i]).symbol_id,
            ) by {
                lemma_filter_elem_in_orig(obt, backtest_survives_id(backtest_id@), i);
                let k = choose|k: int| 0 <= k < obt.len() && obt[k] == nbt[i];
            }
            lemma_filter_pairwise(
                otr,
                trade_survives_backtest(backtest_id@),
                |a: trade_record::Model, b: trade_record::Model|
                    a.id@ != b.id@ && !(a.backtest_result_id@ == b.backtest_result_id@
                        && a.timestamp.key() == b.timestamp.key()),
            );
            assert forall|i: int|
                0 <= i < ntr.len() implies has_backtest_id(
                nbt,
                (#[trigger] ntr[i]).backtest_result_id@,
            ) by {
                lemma_filter_elem_in_orig(otr, trade_survives_backtest(backtest_id@), i);
                let k = choose|k: int| 0 <= k < otr.len() && otr[k] == ntr[i];
                Seq::lemma_filter_pred(otr, trade_survives_backtest(backtest_id@), i);
                let m = choose|m: int|
                    0 <= m < obt.len() && obt[m].id@ == otr[k].backtest_result_id@;
                assert(obt[m].id@ != backtest_id@);
                Seq::lemma_filter_contains(obt, backtest_survives_id(backtest_id@), m);
                let w = choose|w: int| 0 <= w < nbt.len() && nbt[w] == obt[m];
                assert(nbt[w].id@ == ntr[i].backtest_result_id@);
            }
        }
        found
    }
}

/// The backtests that survive deleting the backtest with this id.
pub open spec fn backtest_survives_id(backtest_id: Seq<char>) -> spec_fn(
    backtest_result::Model,
) -> bool {
    |b: backtest_result::Model| b.id@ != backtest_id
}

/// Removes the backtest row with this id, in place.
fn retain_backtests_by_id(v: &mut Vec<backtest_result::Model>, backtest_id: &str)
    ensures
        final(v)@ == old(v)@.filter(backtest_survives_id(backtest_id@)),
{
    let ghost orig = v@;
    let ghost pred = backtest_survives_id(backtest_id@);
    let mut i: usize = 0;
    let ghost mut j: int = 0;
    while i < v.len()
        invariant
            pred == backtest_survives_id(backtest_id@),
            0 <= j <= orig.len(),
            i as int == orig.subrange(0, j).filter(pred).len(),
            v@ == orig.subrange(0, j).filter(pred) + orig.subrange(j, orig.len() as int),
        decreases orig.len() - j,
    {
        proof {
            broadcast use Seq::lemma_filter_len;

            assert(v@[i as int] == orig[j]);
        }
        let keep = !str_eq(v[i].id.as_str(), backtest_id);
        if keep {
            i += 1;
        } else {
            v.remove(i);
        }
        proof {
            let front = orig.subrange(0, j).filter(pred);
            assert(keep == pred(orig[j]));
            assert(orig.subrange(0, j + 1) =~= orig.subrange(0, j).push(orig[j]));
            lemma_filter_push(orig.subrange(0, j), orig[j], pred);
            assert(orig.subrange(j, orig.len() as int) =~= seq![orig[j]] + orig.subrange(
                j + 1,
                orig.len() as int,
            ));
            if keep {
                assert(orig.subrange(0, j + 1).filter(pred) =~= front.push(orig[j]));
                assert(front.push(orig[j]) + orig.subrange(j + 1, orig.len() as int) =~= front + (
                seq![orig[j]] + orig.subrange(j + 1, orig.len() as int)));
                assert(v@ =~= orig.subrange(0, j + 1).filter(pred) + orig.subrange(
                    j + 1,
                    orig.len() as int,
                ));
            } else {
                assert(v@ =~= front + orig.subrange(j + 1, orig.len() as int));
            }
            j = j + 1;
        }
    }
    proof {
        assert(orig.subrange(0, j) =~= orig);
        assert(v@ =~= orig.filter(pred));
    }
}

} // verus!
