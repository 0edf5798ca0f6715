//! The migration engine: an ordered list of migration units, each creating
//! tables forward and dropping them in reverse.
//!
//! A schema state is the set of table definitions a store currently holds.
//! Applying a unit walks its table definitions in declaration order: a
//! table that is absent is created, one that is already present with the
//! same definition is left alone, and one that is present with a different
//! definition is a genuine incompatibility — the unit stops there, leaves
//! the state as the failed step produced it, and reports the conflict.
//! Reverting drops the unit's tables in reverse declaration order,
//! skipping absent ones. Applying a unit that already went through is
//! proved to change nothing.

use vstd::prelude::*;

pub mod create_tables;

verus! {

/// The tables of the schema.
#[derive(Clone, Copy, Debug, PartialEq, Eq, Structural)]
pub enum TableName {
    Symbol,
    OhlcData,
    IndicatorData,
    TradingSignal,
    BacktestResult,
    TradeRecord,
}

/// The column identifiers used across the schema.
#[derive(Clone, Copy, Debug, PartialEq, Eq, Structural)]
pub enum ColumnName {
    Id,
    Symbol,
    Name,
    SymbolType,
    Exchange,
    BaseCurrency,
    QuoteCurrency,
    LotSize,
    TickSize,
    CreatedAt,
    UpdatedAt,
    SymbolId,
    Timestamp,
    Open,
    High,
    Low,
    Close,
    Volume,
    MaShort,
    MaMedium,
    MaLong,
    Rsi,
    Macd,
    MacdSignal,
    MacdHistogram,
    BollingerMiddle,
    BollingerUpper,
    BollingerLower,
    SignalType,
    Source,
    Price,
    Timeframe,
    StartDate,
    EndDate,
    InitialCapital,
    FinalCapital,
    TotalReturn,
    AnnualReturn,
    MaxDrawdown,
    SharpeRatio,
    TradeCount,
    WinningTrades,
    LosingTrades,
    WinRate,
    AverageWin,
    AverageLoss,
    ProfitFactor,
    BacktestResultId,
    TradeType,
    Quantity,
    Amount,
    Fee,
    RemainingCapital,
    Position,
}

/// The column types the schema uses.
#[derive(Clone, Copy, Debug, PartialEq, Eq, Structural)]
pub enum ColumnType {
    Integer,
    Double,
    Text,
    DateTime,
}

/// One column of a table definition.
#[derive(Clone, Copy, Debug, PartialEq, Eq, Structural)]
pub struct ColumnDef {
    pub name: ColumnName,
    pub col_type: ColumnType,
    pub not_null: bool,
    pub primary_key: bool,
    pub auto_increment: bool,
    pub default_now: bool,
}

/// A foreign key of a table definition; both actions cascade where the
/// flags say so.
#[derive(Clone, Copy, Debug, PartialEq, Eq, Structural)]
pub struct ForeignKeyDef {
    pub from_col: ColumnName,
    pub to_table: TableName,
    pub to_col: ColumnName,
    pub on_delete_cascade: bool,
    pub on_update_cascade: bool,
}

/// An index of a table definition.
#[derive(Clone, Debug, PartialEq)]
pub struct IndexDef {
    pub cols: Vec<ColumnName>,
    pub unique: bool,
}

/// The mathematical value of an index definition.
#[verifier::ext_equal]
pub struct IndexView {
    pub cols: Seq<ColumnName>,
    pub unique: bool,
}

impl View for IndexDef {
    type V = IndexView;

    open spec fn view(&self) -> IndexView {
        IndexView { cols: self.cols@, unique: self.unique }
    }
}

/// One table of the schema: its columns, foreign keys and indexes.
#[derive(Clone, Debug, PartialEq)]
pub struct TableDef {
    pub name: TableName,
    pub columns: Vec<ColumnDef>,
    pub foreign_keys: Vec<ForeignKeyDef>,
    pub indexes: Vec<IndexDef>,
}

/// The mathematical value of a table definition.
#[verifier::ext_equal]
pub struct TableView {
    pub name: TableName,
    pub columns: Seq<ColumnDef>,
    pub foreign_keys: Seq<ForeignKeyDef>,
    pub indexes: Seq<IndexView>,
}

impl View for TableDef {
    type V = TableView;

    open spec fn view(&self) -> TableView {
        TableView {
            name: self.name,
            columns: self.columns@,
            foreign_keys: self.foreign_keys@,
            indexes: self.indexes@.map_values(|i: IndexDef| i@),
        }
    }
}

/// The set of table definitions a store currently holds, in creation
/// order.
#[derive(Debug)]
pub struct SchemaState {
    pub tables: Vec<TableDef>,
}

impl View for SchemaState {
    type V = Seq<TableView>;

    open spec fn view(&self) -> Seq<TableView> {
        self.tables@.map_values(|d: TableDef| d@)
    }
}

impl SchemaState {
    /// A store with no tables yet.
    pub fn new() -> (s: SchemaState)
        ensures
            s@ =~= Seq::<TableView>::empty(),
    {
        SchemaState { tables: Vec::new() }
    }
}

/// A table with this name is present.
pub open spec fn has_table(tables: Seq<TableView>, name: TableName) -> bool {
    exists|k: int| 0 <= k < tables.len() && tables[k].name == name
}

/// A table with this definition's name is present under a different
/// definition: the genuine incompatibility on which creation fails.
pub open spec fn table_conflicts(tables: Seq<TableView>, d: TableView) -> bool {
    exists|k: int| 0 <= k < tables.len() && tables[k].name == d.name && tables[k] != d
}

/// The outcome of creating the given table definitions, in order, against
/// a state: the resulting table set, and the name of the first conflicting
/// table if a conflict stopped the walk.
pub open spec fn apply_tables(tables: Seq<TableView>, defs: Seq<TableView>) -> (
    Seq<TableView>,
    Option<TableName>,
)
    decreases defs.len(),
{
    if defs.len() == 0 {
        (tables, None::<TableName>)
    } else if table_conflicts(tables, defs[0]) {
        (tables, Some(defs[0].name))
    } else {
        let grown = if has_table(tables, defs[0].name) {
            tables
        } else {
            tables.push(defs[0])
        };
        apply_tables(grown, defs.drop_first())
    }
}

/// The tables that survive dropping the table with this name.
pub open spec fn table_survives(name: TableName) -> spec_fn(TableView) -> bool {
    |t: TableView| t.name != name
}

/// The outcome of dropping the given table definitions in reverse order
/// against a state; absent tables are skipped, so a revert never fails.
pub open spec fn revert_tables(tables: Seq<TableView>, defs: Seq<TableView>) -> Seq<TableView>
    decreases defs.len(),
{
    if defs.len() == 0 {
        tables
    } else {
        revert_tables(tables.filter(table_survives(defs.last().name)), defs.drop_last())
    }
}

/// The conflict a failed migration step reports: which table was found
/// with an incompatible definition.
#[derive(Clone, Copy, Debug, PartialEq, Eq, Structural)]
pub struct MigrateError {
    pub table: TableName,
}

/// One migration unit: the ordered table definitions it creates on the way
/// forward and drops, in reverse, on the way back.
#[derive(Debug)]
pub struct Migration {
    pub tables: Vec<TableDef>,
}

impl View for Migration {
    type V = Seq<TableView>;

    open spec fn view(&self) -> Seq<TableView> {
        self.tables@.map_values(|d: TableDef| d@)
    }
}

/// True exactly when the two definitions are the same table: same name,
/// columns, foreign keys and indexes.
pub fn table_defs_equal(a: &TableDef, b: &TableDef) -> (r: bool)
    ensures
        r == (a@ == b@),
{
    if !(a.name == b.name) {
        proof {
            assert(a@.name != b@.name);
        }
        return false;
    }
    if a.columns.len() != b.columns.len() {
        return false;
    }
    let mut i: usize = 0;
    while i < a.columns.len()
        invariant
            i <= a.columns@.len(),
            a.columns@.len() == b.columns@.len(),
            forall|k: int| 0 <= k < i ==> a.columns@[k] == b.columns@[k],
        decreases a.columns@.len() - i,
    {
        if !(a.columns[i] == b.columns[i]) {
            return false;
        }
        i += 1;
    }
    if a.foreign_keys.len() != b.foreign_keys.len() {
        return false;
    }
    let mut i: usize = 0;
    while i < a.foreign_keys.len()
        invariant
            i <= a.foreign_keys@.len(),
            a.foreign_keys@.len() == b.foreign_keys@.len(),
            forall|k: int| 0 <= k < i ==> a.foreign_keys@[k] == b.foreign_keys@[k],
        decreases a.foreign_keys@.len() - i,
    {
        if !(a.foreign_keys[i] == b.foreign_keys[i]) {
            return false;
        }
        i += 1;
    }
    if a.indexes.len() != b.indexes.len() {
        proof {
            assert(a@.indexes.len() != b@.indexes.len());
        }
        return false;
    }
    let mut i: usize = 0;
    while i < a.indexes.len()
        invariant
            i <= a.indexes@.len(),
            a.indexes@.len() == b.indexes@.len(),
            forall|k: int| 0 <= k < i ==> a.indexes@[k]@ == b.indexes@[k]@,
        decreases a.indexes@.len() - i,
    {
        if a.indexes[i].unique != b.indexes[i].unique {
            proof {
                assert(a@.indexes[i as int] != b@.indexes[i as int]);
            }
            return false;
        }
        if a.indexes[i].cols.len() != b.indexes[i].cols.len() {
            proof {
                assert(a@.indexes[i as int] != b@.indexes[i as int]);
            }
            return false;
        }
        let mut c: usize = 0;
        while c < a.indexes[i].cols.len()
            invariant
                i < a.indexes@.len(),
                a.indexes@.len() == b.indexes@.len(),
                c <= a.indexes@[i as int].cols@.len(),
                a.indexes@[i as int].cols@.len() == b.indexes@[i as int].cols@.len(),
                forall|k: int|
                    0 <= k < c ==> a.indexes@[i as int].cols@[k] == b.indexes@[i as int].cols@[k],
            decreases a.indexes@[i as int].cols@.len() - c,
        {
            if !(a.indexes[i].cols[c] == b.indexes[i].cols[c]) {
                proof {
                    assert(a@.indexes[i as int] != b@.indexes[i as int]);
                }
                return false;
            }
            c += 1;
        }
        proof {
            assert(a.indexes@[i as int].cols@ =~= b.indexes@[i as int].cols@);
            assert(a.indexes@[i as int]@ =~= b.indexes@[i as int]@);
        }
        i += 1;
    }
    proof {
        assert(a.columns@ =~= b.columns@);
        assert(a.foreign_keys@ =~= b.foreign_keys@);
        assert(a@.indexes =~= b@.indexes);
        assert(a@ =~= b@);
    }
    true
}

/// True exactly when a table with this name is present.
fn has_table_exec(tables: &Vec<TableDef>, name: TableName) -> (r: bool)
    ensures
        r == has_table(tables@.map_values(|d: TableDef| d@), name),
{
    let ghost view = tables@.map_values(|d: TableDef| d@);
    let mut i: usize = 0;
    while i < tables.len()
        invariant
            view == tables@.map_values(|d: TableDef| d@),
            i <= tables@.len(),
            forall|k: int| 0 <= k < i ==> (#[trigger] view[k]).name != name,
        decreases tables@.len() - i,
    {
        if tables[i].name == name {
            proof {
                assert(view[i as int].name == name);
            }
            return true;
        }
        i += 1;
    }
    false
}

/// True exactly when some present table carries this definition's name but
/// not its definition.
fn table_conflicts_exec(tables: &Vec<TableDef>, d: &TableDef) -> (r: bool)
    ensures
        r == table_conflicts(tables@.map_values(|x: TableDef| x@), d@),
{
    let ghost view = tables@.map_values(|x: TableDef| x@);
    let mut i: usize = 0;
    while i < tables.len()
        invariant
            view == tables@.map_values(|x: TableDef| x@),
            i <= tables@.len(),
            forall|k: int|
                0 <= k < i ==> !((#[trigger] view[k]).name == d@.name && view[k] != d@),
        decreases tables@.len() - i,
    {
        if tables[i].name == d.name && !table_defs_equal(&tables[i], d) {
            proof {
                assert(view[i as int].name == d@.name && view[i as int] != d@);
            }
            return true;
        }
        i += 1;
    }
    false
}

/// A copy of an index definition, equal as a mathematical value.
fn clone_index_def(d: &IndexDef) -> (r: IndexDef)
    ensures
        r@ == d@,
{
    let mut cols: Vec<ColumnName> = Vec::new();
    let mut i: usize = 0;
    while i < d.cols.len()
        invariant
            i <= d.cols@.len(),
            cols@ == d.cols@.subrange(0, i as int),
        decreases d.cols@.len() - i,
    {
        cols.push(d.cols[i]);
        proof {
            assert(d.cols@.subrange(0, i + 1) =~= d.cols@.subrange(0, i as int).push(
                d.cols@[i as int],
            ));
        }
        i += 1;
    }
    proof {
        assert(cols@ =~= d.cols@);
    }
    let r = IndexDef { cols, unique: d.unique };
    proof {
        assert(r@ =~= d@);
    }
    r
}

/// A copy of a table definition, equal as a mathematical value.
fn clone_table_def(d: &TableDef) -> (r: TableDef)
    ensures
        r@ == d@,
{
    let mut columns: Vec<ColumnDef> = Vec::new();
    let mut i: usize = 0;
    while i < d.columns.len()
        invariant
            i <= d.columns@.len(),
            columns@ == d.columns@.subrange(0, i as int),
        decreases d.columns@.len() - i,
    {
        columns.push(d.columns[i]);
        proof {
            assert(d.columns@.subrange(0, i + 1) =~= d.columns@.subrange(0, i as int).push(
                d.columns@[i as int],
            ));
        }
        i += 1;
    }
    let mut foreign_keys: Vec<ForeignKeyDef> = Vec::new();
    let mut i: usize = 0;
    while i < d.foreign_keys.len()
        invariant
            i <= d.foreign_keys@.len(),
            foreign_keys@ == d.foreign_keys@.subrange(0, i as int),
        decreases d.foreign_keys@.len() - i,
    {
        foreign_keys.push(d.foreign_keys[i]);
        proof {
            assert(d.foreign_keys@.subrange(0, i + 1) =~= d.foreign_keys@.subrange(
                0,
                i as int,
            ).push(d.foreign_keys@[i as int]));
        }
        i += 1;
    }
    let mut indexes: Vec<IndexDef> = Vec::new();
    let mut i: usize = 0;
    while i < d.indexes.len()
        invariant
            i <= d.indexes@.len(),
            indexes@.len() == i,
            forall|k: int| 0 <= k < i ==> (#[trigger] indexes@[k])@ == d.indexes@[k]@,
        decreases d.indexes@.len() - i,
    {
        let ix = clone_index_def(&d.indexes[i]);
        indexes.push(ix);
        i += 1;
    }
    let r = TableDef { name: d.name, columns, foreign_keys, indexes };
    proof {
        assert(columns@ =~= d.columns@);
        assert(foreign_keys@ =~= d.foreign_keys@);
        assert(r@.indexes =~= d@.indexes);
        assert(r@ =~= d@);
    }
    r
}

impl Migration {
    /// Creates this unit's tables in declaration order against the state.
    ///
    /// An absent table is created; one already present with the same
    /// definition is left alone; one present with a different definition
    /// stops the walk with a conflict naming it, leaving the state as the
    /// failed step produced it — tables created before the conflict stay.
    pub fn up(&self, state: &mut SchemaState) -> (r: Result<(), MigrateError>)
        ensures
            final(state)@ == apply_tables(old(state)@, self@).0,
            r is Ok <==> apply_tables(old(state)@, self@).1 is None,
            r matches Err(e) ==> Some(e.table) == apply_tables(old(state)@, self@).1,
    {
        let ghost defs = self@;
        let ghost orig = old(state)@;
        proof {
            assert(defs.subrange(0, defs.len() as int) =~= defs);
        }
        let mut i: usize = 0;
        while i < self.tables.len()
            invariant
                defs == self@,
                orig == old(state)@,
                self.tables@.len() == defs.len(),
                i <= defs.len(),
                apply_tables(orig, defs) == apply_tables(
                    state@,
                    defs.subrange(i as int, defs.len() as int),
                ),
            decreases defs.len() - i,
        {
            let ghost sub = defs.subrange(i as int, defs.len() as int);
            let ghost pre = state@;
            let d = &self.tables[i];
            proof {
                assert(d@ == defs[i as int]);
                assert(sub[0] == defs[i as int]);
                assert(sub.drop_first() =~= defs.subrange(i + 1, defs.len() as int));
            }
            if table_conflicts_exec(&state.tables, d) {
                proof {
                    assert(apply_tables(pre, sub) == (pre, Some(d@.name)));
                }
                return Err(MigrateError { table: d.name });
            }
            if !has_table_exec(&state.tables, d.name) {
                let ghost prevtables = state.tables@;
                let cloned = clone_table_def(d);
                let ghost clonedv = cloned@;
                state.tables.push(cloned);
                proof {
                    assert(state.tables@ == prevtables.push(cloned));
                    assert forall|k: int| 0 <= k < state@.len() implies state@[k] == pre.push(
                        d@,
                    )[k] by {
                        if k < prevtables.len() {
                            assert(state.tables@[k] == prevtables[k]);
                        } else {
                            assert(state@[k] == clonedv);
                        }
                    }
                    assert(state@ =~= pre.push(d@));
                }
            }
            proof {
                assert(apply_tables(pre, sub) == apply_tables(
                    state@,
                    defs.subrange(i + 1, defs.len() as int),
                ));
            }
            i += 1;
        }
        proof {
            assert(defs.subrange(defs.len() as int, defs.len() as int) =~= Seq::<
                TableView,
            >::empty());
        }
        Ok(())
    }

    /// Drops this unit's tables in reverse declaration order against the
    /// state; an absent table is skipped, so a revert never fails.
    pub fn down(&self, state: &mut SchemaState)
        ensures
            final(state)@ == revert_tables(old(state)@, self@),
    {
        let ghost defs = self@;
        let ghost orig = old(state)@;
        proof {
            assert(defs.subrange(0, defs.len() as int) =~= defs);
        }
        let mut i: usize = self.tables.len();
        while i > 0
            invariant
                defs == self@,
                orig == old(state)@,
                self.tables@.len() == defs.len(),
                i <= defs.len(),
                revert_tables(orig, defs) == revert_tables(
                    state@,
                    defs.subrange(0, i as int),
                ),
            decreases i,
        {
            i -= 1;
            let name = self.tables[i].name;
            let ghost pre = state@;
            let ghost sub = defs.subrange(0, i + 1);
            proof {
                assert(self.tables@[i as int]@ == defs[i as int]);
                assert(name == defs[i as int].name);
                assert(sub.last() == defs[i as int]);
                assert(sub.drop_last() =~= defs.subrange(0, i as int));
            }
            retain_tables(&mut state.tables, name);
            proof {
                assert(revert_tables(pre, sub) == revert_tables(
                    state@,
                    defs.subrange(0, i as int),
                ));
            }
        }
        proof {
            assert(defs.subrange(0, 0) =~= Seq::<TableView>::empty());
        }
    }
}

/// Removes every table definition with this name, in place, keeping the
/// rest in their stored order.
fn retain_tables(v: &mut Vec<TableDef>, name: TableName)
    ensures
        final(v)@.map_values(|d: TableDef| d@) == old(v)@.map_values(|d: TableDef| d@).filter(
            table_survives(name),
        ),
{
    let ghost orig = v@.map_values(|d: TableDef| d@);
    let ghost pred = table_survives(name);
    let mut i: usize = 0;
    let ghost mut j: int = 0;
    while i < v.len()
        invariant
            pred == table_survives(name),
            0 <= j <= orig.len(),
            i as int == orig.subrange(0, j).filter(pred).len(),
            v@.map_values(|d: TableDef| d@) == orig.subrange(0, j).filter(pred) + orig.subrange(
                j,
                orig.len() as int,
            ),
        decreases orig.len() - j,
    {
        let ghost prevmap = v@.map_values(|d: TableDef| d@);
        proof {
            broadcast use Seq::lemma_filter_len;

            assert(prevmap[i as int] == orig[j]);
            assert(v@[i as int]@ == orig[j]);
        }
        let keep = v[i].name != name;
        if keep {
            i += 1;
        } else {
            v.remove(i);
        }
        proof {
            let front = orig.subrange(0, j).filter(pred);
            assert(keep == pred(orig[j]));
            assert(orig.subrange(0, j + 1) =~= orig.subrange(0, j).push(orig[j]));
            crate::store::lemma_filter_push(orig.subrange(0, j), orig[j], pred);
            assert(orig.subrange(j, orig.len() as int) =~= seq![orig[j]] + orig.subrange(
                j + 1,
                orig.len() as int,
            ));
            if keep {
                assert(orig.subrange(0, j + 1).filter(pred) =~= front.push(orig[j]));
                assert(front.push(orig[j]) + orig.subrange(j + 1, orig.len() as int) =~= front + (
                seq![orig[j]] + orig.subrange(j + 1, orig.len() as int)));
                assert(v@.map_values(|d: TableDef| d@) =~= orig.subrange(0, j + 1).filter(pred)
                    + orig.subrange(j + 1, orig.len() as int));
            } else {
                assert(v@.map_values(|d: TableDef| d@) =~= prevmap.remove(i as int));
                assert(prevmap.remove(i as int) =~= front + orig.subrange(
                    j + 1,
                    orig.len() as int,
                ));
                assert(v@.map_values(|d: TableDef| d@) =~= front + orig.subrange(
                    j + 1,
                    orig.len() as int,
                ));
            }
            j = j + 1;
        }
    }
    proof {
        assert(orig.subrange(0, j) =~= orig);
        assert(v@.map_values(|d: TableDef| d@) =~= orig.filter(pred));
    }
}

/// A table with this definition's name is present, and every present
/// table of that name carries exactly this definition.
pub open spec fn settled(tables: Seq<TableView>, d: TableView) -> bool {
    has_table(tables, d.name) && forall|k: int|
        0 <= k < tables.len() && (#[trigger] tables[k]).name == d.name ==> tables[k] == d
}

/// Creating tables only appends: the prior state is a prefix of the
/// result, and every appended table has a name the prior state lacked.
pub proof fn lemma_apply_extends(tables: Seq<TableView>, defs: Seq<TableView>)
    ensures
        apply_tables(tables, defs).0.len() >= tables.len(),
        apply_tables(tables, defs).0.subrange(0, tables.len() as int) == tables,
        forall|k: int|
            tables.len() <= k < apply_tables(tables, defs).0.len() ==> !has_table(
                tables,
                (#[trigger] apply_tables(tables, defs).0[k]).name,
            ),
    decreases defs.len(),
{
    let r = apply_tables(tables, defs).0;
    if defs.len() == 0 || table_conflicts(tables, defs[0]) {
        assert(r.subrange(0, tables.len() as int) =~= tables);
    } else {
        let grown = if has_table(tables, defs[0].name) {
            tables
        } else {
            tables.push(defs[0])
        };
        lemma_apply_extends(grown, defs.drop_first());
        assert(r == apply_tables(grown, defs.drop_first()).0);
        assert forall|k: int| 0 <= k < tables.len() implies r[k] == tables[k] by {
            assert(r.subrange(0, grown.len() as int)[k] == grown[k]);
            assert(grown[k] == tables[k]);
        }
        assert(r.subrange(0, tables.len() as int) =~= tables);
        assert forall|k: int|
            tables.len() <= k < r.len() implies !has_table(tables, (#[trigger] r[k]).name) by {
            if k < grown.len() {
                assert(r.subrange(0, grown.len() as int)[k] == grown[k]);
                assert(r[k] == defs[0]);
            } else {
                assert(!has_table(grown, r[k].name));
                if has_table(tables, r[k].name) {
                    let w = choose|w: int| 0 <= w < tables.len() && tables[w].name == r[k].name;
                    assert(grown[w].name == r[k].name);
                }
            }
        }
    }
}

/// After a creation walk that hit no conflict, every definition it
/// carried is settled in the result: present, and present only as itself.
pub proof fn lemma_apply_settles(tables: Seq<TableView>, defs: Seq<TableView>)
    requires
        apply_tables(tables, defs).1 is None,
    ensures
        forall|d: TableView|
            defs.contains(d) ==> settled(apply_tables(tables, defs).0, d),
    decreases defs.len(),
{
    if defs.len() > 0 {
        let d0 = defs[0];
        let grown = if has_table(tables, d0.name) {
            tables
        } else {
            tables.push(d0)
        };
        let r = apply_tables(tables, defs).0;
        lemma_apply_settles(grown, defs.drop_first());
        lemma_apply_extends(grown, defs.drop_first());
        assert(r == apply_tables(grown, defs.drop_first()).0);
        assert(settled(grown, d0)) by {
            if has_table(tables, d0.name) {
                let w = choose|w: int| 0 <= w < tables.len() && tables[w].name == d0.name;
                assert(grown[w].name == d0.name);
            } else {
                assert(grown[grown.len() - 1].name == d0.name);
            }
            assert forall|k: int|
                0 <= k < grown.len() && (#[trigger] grown[k]).name == d0.name implies grown[k]
                == d0 by {
                if k < tables.len() {
                    assert(!table_conflicts(tables, d0));
                    assert(!(tables[k].name == d0.name && tables[k] != d0));
                }
            }
        }
        assert(settled(r, d0)) by {
            let w = choose|w: int| 0 <= w < grown.len() && grown[w].name == d0.name;
            assert(r.subrange(0, grown.len() as int)[w] == grown[w]);
            assert(r[w].name == d0.name);
            assert forall|k: int|
                0 <= k < r.len() && (#[trigger] r[k]).name == d0.name implies r[k] == d0 by {
                if k < grown.len() {
                    assert(r.subrange(0, grown.len() as int)[k] == grown[k]);
                } else {
                    assert(!has_table(grown, r[k].name));
                    assert(grown[w].name == d0.name);
                }
            }
        }
        assert forall|d: TableView| defs.contains(d) implies settled(r, d) by {
            let ix = choose|ix: int| 0 <= ix < defs.len() && defs[ix] == d;
            if ix == 0 {
                assert(d == d0);
            } else {
                assert(defs.drop_first()[ix - 1] == d);
                assert(defs.drop_first().contains(d));
            }
        }
    }
}

/// Creating definitions that are all settled already is a no-op and
/// reports no conflict.
pub proof fn lemma_apply_settled_noop(tables: Seq<TableView>, defs: Seq<TableView>)
    requires
        forall|d: TableView| defs.contains(d) ==> settled(tables, d),
    ensures
        apply_tables(tables, defs) == (tables, None::<TableName>),
    decreases defs.len(),
{
    if defs.len() > 0 {
        let d0 = defs[0];
        assert(defs.contains(d0));
        assert(settled(tables, d0));
        assert(!table_conflicts(tables, d0));
        assert(has_table(tables, d0.name));
        assert forall|d: TableView| defs.drop_first().contains(d) implies settled(tables, d) by {
            let ix = choose|ix: int|
                0 <= ix < defs.drop_first().len() && defs.drop_first()[ix] == d;
            assert(defs[ix + 1] == d);
            assert(defs.contains(d));
        }
        lemma_apply_settled_noop(tables, defs.drop_first());
    }
}

/// Applying a migration unit is idempotent: once it has gone through
/// without conflict, applying it again changes nothing and reports no
/// conflict either.
pub proof fn lemma_apply_tables_idempotent(tables: Seq<TableView>, defs: Seq<TableView>)
    requires
        apply_tables(tables, defs).1 is None,
    ensures
        apply_tables(apply_tables(tables, defs).0, defs) == (
            apply_tables(tables, defs).0,
            None::<TableName>,
        ),
{
    lemma_apply_settles(tables, defs);
    lemma_apply_settled_noop(apply_tables(tables, defs).0, defs);
}

/// A list of creation walks only appends, like a single one.
pub proof fn lemma_apply_migrations_extends(tables: Seq<TableView>, migs: Seq<Seq<TableView>>)
    ensures
        apply_migrations(tables, migs).0.len() >= tables.len(),
        apply_migrations(tables, migs).0.subrange(0, tables.len() as int) == tables,
        forall|k: int|
            tables.len() <= k < apply_migrations(tables, migs).0.len() ==> !has_table(
                tables,
                (#[trigger] apply_migrations(tables, migs).0[k]).name,
            ),
    decreases migs.len(),
{
    let r = apply_migrations(tables, migs).0;
    if migs.len() == 0 {
        assert(r.subrange(0, tables.len() as int) =~= tables);
    } else {
        let step = apply_tables(tables, migs[0]);
        lemma_apply_extends(tables, migs[0]);
        if step.1 is Some {
            assert(r.subrange(0, tables.len() as int) =~= tables);
        } else {
            lemma_apply_migrations_extends(step.0, migs.drop_first());
            assert(r == apply_migrations(step.0, migs.drop_first()).0);
            assert forall|k: int| 0 <= k < tables.len() implies r[k] == tables[k] by {
                assert(r.subrange(0, step.0.len() as int)[k] == step.0[k]);
                assert(step.0.subrange(0, tables.len() as int)[k] == tables[k]);
            }
            assert(r.subrange(0, tables.len() as int) =~= tables);
            assert forall|k: int|
                tables.len() <= k < r.len() implies !has_table(tables, (#[trigger] r[k]).name) by {
                if k < step.0.len() {
                    assert(r.subrange(0, step.0.len() as int)[k] == step.0[k]);
                } else {
                    assert(!has_table(step.0, r[k].name));
                    if has_table(tables, r[k].name) {
                        let w = choose|w: int|
                            0 <= w < tables.len() && tables[w].name == r[k].name;
                        assert(step.0.subrange(0, tables.len() as int)[w] == tables[w]);
                        assert(step.0[w].name == r[k].name);
                    }
                }
            }
        }
    }
}

/// A settled definition stays settled through further creation walks:
/// they only append tables whose names were absent.
pub proof fn lemma_settled_preserved(
    tables: Seq<TableView>,
    migs: Seq<Seq<TableView>>,
    d: TableView,
)
    requires
        settled(tables, d),
    ensures
        settled(apply_migrations(tables, migs).0, d),
{
    let r = apply_migrations(tables, migs).0;
    lemma_apply_migrations_extends(tables, migs);
    let w = choose|w: int| 0 <= w < tables.len() && tables[w].name == d.name;
    assert(r.subrange(0, tables.len() as int)[w] == tables[w]);
    assert(r[w].name == d.name);
    assert forall|k: int| 0 <= k < r.len() && (#[trigger] r[k]).name == d.name implies r[k]
        == d by {
        if k < tables.len() {
            assert(r.subrange(0, tables.len() as int)[k] == tables[k]);
        } else {
            assert(!has_table(tables, r[k].name));
        }
    }
}

/// Applying the full migration history twice in succession produces the
/// same final schema as applying it once, and the second run reports no
/// error.
pub proof fn lemma_apply_migrations_idempotent(tables: Seq<TableView>, migs: Seq<Seq<TableView>>)
    requires
        apply_migrations(tables, migs).1 is None,
    ensures
        apply_migrations(apply_migrations(tables, migs).0, migs) == (
            apply_migrations(tables, migs).0,
            None::<TableName>,
        ),
    decreases migs.len(),
{
    if migs.len() > 0 {
        let step = apply_tables(tables, migs[0]);
        assert(step.1 is None);
        let rest = apply_migrations(step.0, migs.drop_first());
        let fin = apply_migrations(tables, migs).0;
        assert(fin == rest.0);
        lemma_apply_migrations_idempotent(step.0, migs.drop_first());
        lemma_apply_settles(tables, migs[0]);
        assert forall|d: TableView| migs[0].contains(d) implies settled(fin, d) by {
            lemma_settled_preserved(step.0, migs.drop_first(), d);
        }
        lemma_apply_settled_noop(fin, migs[0]);
        assert(apply_tables(fin, migs[0]) == (fin, None::<TableName>));
        assert(apply_migrations(fin, migs.drop_first()) == (fin, None::<TableName>));
    }
}

/// Applying the schema's own migration history twice in succession
/// produces the same final schema as applying it once, and the second run
/// reports no error.
pub proof fn lemma_migrator_idempotent(tables: Seq<TableView>)
    requires
        apply_migrations(tables, migrator_migrations()).1 is None,
    ensures
        apply_migrations(apply_migrations(tables, migrator_migrations()).0, migrator_migrations())
            == (apply_migrations(tables, migrator_migrations()).0, None::<TableName>),
{
    lemma_apply_migrations_idempotent(tables, migrator_migrations());
}

/// The outcome of applying a list of migration units in declaration
/// order: the first unit that hits a conflict aborts the rest, and the
/// state is left as the failed step produced it.
pub open spec fn apply_migrations(tables: Seq<TableView>, migs: Seq<Seq<TableView>>) -> (
    Seq<TableView>,
    Option<TableName>,
)
    decreases migs.len(),
{
    if migs.len() == 0 {
        (tables, None::<TableName>)
    } else {
        let step = apply_tables(tables, migs[0]);
        if step.1 is Some {
            step
        } else {
            apply_migrations(step.0, migs.drop_first())
        }
    }
}

/// The outcome of reverting a list of migration units in reverse
/// declaration order.
pub open spec fn revert_migrations(tables: Seq<TableView>, migs: Seq<Seq<TableView>>) -> Seq<
    TableView,
>
    decreases migs.len(),
{
    if migs.len() == 0 {
        tables
    } else {
        revert_migrations(revert_tables(tables, migs.last()), migs.drop_last())
    }
}

/// The schema's migration history: one unit, creating the six tables.
pub open spec fn migrator_migrations() -> Seq<Seq<TableView>> {
    seq![create_tables::canonical_tables()]
}

/// The ordered list of migration units, and their application forward and
/// in reverse.
#[derive(Debug)]
pub struct Migrator;

impl Migrator {
    /// The migration history in declaration order.
    pub fn migrations() -> (r: Vec<Migration>)
        ensures
            r@.map_values(|m: Migration| m@) == migrator_migrations(),
    {
        let mut v: Vec<Migration> = Vec::new();
        v.push(create_tables::migration());
        proof {
            assert(v@.map_values(|m: Migration| m@) =~= migrator_migrations());
        }
        v
    }

    /// Applies the full migration history in declaration order, stopping
    /// at the first unit whose application reports a conflict and leaving
    /// the state as that step produced it.
    pub fn up(state: &mut SchemaState) -> (r: Result<(), MigrateError>)
        ensures
            final(state)@ == apply_migrations(old(state)@, migrator_migrations()).0,
            r is Ok <==> apply_migrations(old(state)@, migrator_migrations()).1 is None,
            r matches Err(e) ==> Some(e.table) == apply_migrations(
                old(state)@,
                migrator_migrations(),
            ).1,
    {
        let migs = Self::migrations();
        let ghost views = migs@.map_values(|m: Migration| m@);
        let ghost orig = old(state)@;
        proof {
            assert(views.subrange(0, views.len() as int) =~= views);
        }
        let mut i: usize = 0;
        while i < migs.len()
            invariant
                views == migrator_migrations(),
                views == migs@.map_values(|m: Migration| m@),
                orig == old(state)@,
                migs@.len() == views.len(),
                i <= views.len(),
                apply_migrations(orig, views) == apply_migrations(
                    state@,
                    views.subrange(i as int, views.len() as int),
                ),
            decreases views.len() - i,
        {
            let ghost sub = views.subrange(i as int, views.len() as int);
            let ghost pre = state@;
            proof {
                assert(migs@[i as int]@ == views[i as int]);
                assert(sub[0] == views[i as int]);
                assert(sub.drop_first() =~= views.subrange(i + 1, views.len() as int));
            }
            match migs[i].up(state) {
                Ok(()) => {},
                Err(e) => {
                    proof {
                        assert(apply_tables(pre, views[i as int]).1 is Some);
                        assert(apply_migrations(pre, sub) == apply_tables(pre, views[i as int]));
                    }
                    return Err(e);
                },
            }
            proof {
                assert(apply_migrations(pre, sub) == apply_migrations(
                    state@,
                    views.subrange(i + 1, views.len() as int),
                ));
            }
            i += 1;
        }
        proof {
            assert(views.subrange(views.len() as int, views.len() as int) =~= Seq::<
                Seq<TableView>,
            >::empty());
        }
        Ok(())
    }

    /// Reverts the full migration history in reverse declaration order.
    pub fn down(state: &mut SchemaState)
        ensures
            final(state)@ == revert_migrations(old(state)@, migrator_migrations()),
    {
        let migs = Self::migrations();
        let ghost views = migs@.map_values(|m: Migration| m@);
        let ghost orig = old(state)@;
        proof {
            assert(views.subrange(0, views.len() as int) =~= views);
        }
        let mut i: usize = migs.len();
        while i > 0
            invariant
                views == migrator_migrations(),
                views == migs@.map_values(|m: Migration| m@),
                orig == old(state)@,
                migs@.len() == views.len(),
                i <= views.len(),
                revert_migrations(orig, views) == revert_migrations(
                    state@,
                    views.subrange(0, i as int),
                ),
            decreases i,
        {
            i -= 1;
            let ghost sub = views.subrange(0, i + 1);
            let ghost pre = state@;
            proof {
                assert(migs@[i as int]@ == views[i as int]);
                assert(sub.last() == views[i as int]);
                assert(sub.drop_last() =~= views.subrange(0, i as int));
            }
            migs[i].down(state);
            proof {
                assert(revert_migrations(pre, sub) == revert_migrations(
                    state@,
                    views.subrange(0, i as int),
                ));
            }
        }
        proof {
            assert(views.subrange(0, 0) =~= Seq::<Seq<TableView>>::empty());
        }
    }
}

} // verus!
