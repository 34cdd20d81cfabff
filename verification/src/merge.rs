//! Bringing a stored list of table jobs up to date with what the database
//! holds now: what is still there keeps its settings, what is new is added,
//! and what is gone is marked.

use crate::model::{
    ColumnConfig, ColumnConfigView, TableConfig, TableConfigView,
};
use crate::text::{same_text, texts};
use vstd::prelude::*;

verus! {

/// How an entry differs from what was stored.
#[derive(Clone, Copy, Debug, PartialEq, Eq, Structural)]
pub enum TableInfoChangeStatus {
    /// The database holds it and the stored list did not.
    Added,
    /// The stored list holds it and the database no longer does.
    Removed,
}

/// A column's settings with how it differs from what was stored.
#[derive(Clone, Debug, PartialEq, Eq)]
pub struct MergedColumn {
    pub config: ColumnConfig,
    pub status: Option<TableInfoChangeStatus>,
}

/// What contracts read of a merged column.
pub struct MergedColumnView {
    pub config: ColumnConfigView,
    pub status: Option<TableInfoChangeStatus>,
}

impl View for MergedColumn {
    type V = MergedColumnView;

    open spec fn view(&self) -> MergedColumnView {
        MergedColumnView { config: self.config@, status: self.status }
    }
}

/// A table as the database holds it now: its name and its column names.
#[derive(Clone, Debug, PartialEq, Eq)]
pub struct CatalogTable {
    pub name: String,
    pub columns: Vec<String>,
}

/// What contracts read of a catalog table.
pub struct CatalogTableView {
    pub name: Seq<char>,
    pub columns: Seq<Seq<char>>,
}

impl View for CatalogTable {
    type V = CatalogTableView;

    open spec fn view(&self) -> CatalogTableView {
        CatalogTableView { name: self.name@, columns: texts(self.columns@) }
    }
}

/// A table job with how it and its columns differ from what was stored.
#[derive(Clone, Debug, PartialEq, Eq)]
pub struct MergedTable {
    pub name: String,
    pub columns: Vec<MergedColumn>,
    pub structure_only: bool,
    pub ignore_foreign_keys: bool,
    pub ignore: bool,
    pub status: Option<TableInfoChangeStatus>,
}

/// What contracts read of a merged table.
pub struct MergedTableView {
    pub name: Seq<char>,
    pub columns: Seq<MergedColumnView>,
    pub structure_only: bool,
    pub ignore_foreign_keys: bool,
    pub ignore: bool,
    pub status: Option<TableInfoChangeStatus>,
}

impl View for MergedTable {
    type V = MergedTableView;

    open spec fn view(&self) -> MergedTableView {
        MergedTableView {
            name: self.name@,
            columns: Seq::new(self.columns@.len(), |i: int| self.columns@[i]@),
            structure_only: self.structure_only,
            ignore_foreign_keys: self.ignore_foreign_keys,
            ignore: self.ignore,
            status: self.status,
        }
    }
}

/// The greatest index at which `key` stands in `keys`, or -1 if it stands
/// nowhere: of two stored entries of one name the later one counts.
pub open spec fn last_index(keys: Seq<Seq<char>>, key: Seq<char>) -> int
    decreases keys.len(),
{
    if keys.len() == 0 {
        -1
    } else if keys.last() == key {
        keys.len() - 1
    } else {
        last_index(keys.drop_last(), key)
    }
}

/// `last_index` is an index of the key, or -1.
pub proof fn lemma_last_index(keys: Seq<Seq<char>>, key: Seq<char>)
    ensures
        -1 <= last_index(keys, key) < keys.len(),
        last_index(keys, key) >= 0 ==> keys[last_index(keys, key)] == key,
        last_index(keys, key) >= 0 <==> keys.contains(key),
    decreases keys.len(),
{
    if keys.len() > 0 {
        lemma_last_index(keys.drop_last(), key);
        if keys.last() == key {
            assert(keys[keys.len() - 1] == key);
        } else if keys.drop_last().contains(key) {
            let i = choose|i: int| 0 <= i < keys.drop_last().len() && keys.drop_last()[i] == key;
            assert(keys[i] == key);
        } else if keys.contains(key) {
            let i = choose|i: int| 0 <= i < keys.len() && keys[i] == key;
            assert(keys.drop_last()[i] == key);
        }
    }
}

/// The views of the columns, in order.
pub open spec fn column_views(columns: Seq<ColumnConfig>) -> Seq<ColumnConfigView> {
    Seq::new(columns.len(), |i: int| columns[i]@)
}

/// The names of the columns, in order.
pub open spec fn column_keys(columns: Seq<ColumnConfigView>) -> Seq<Seq<char>> {
    Seq::new(columns.len(), |i: int| columns[i].name)
}

/// The views of the table jobs, in order.
pub open spec fn table_views(tables: Seq<TableConfig>) -> Seq<TableConfigView> {
    Seq::new(tables.len(), |i: int| tables[i]@)
}

/// The names of the table jobs, in order.
pub open spec fn table_keys(tables: Seq<TableConfigView>) -> Seq<Seq<char>> {
    Seq::new(tables.len(), |i: int| tables[i].name)
}

/// The views of the catalog tables, in order.
pub open spec fn catalog_views(tables: Seq<CatalogTable>) -> Seq<CatalogTableView> {
    Seq::new(tables.len(), |i: int| tables[i]@)
}

/// The names of the catalog tables, in order.
pub open spec fn catalog_keys(tables: Seq<CatalogTableView>) -> Seq<Seq<char>> {
    Seq::new(tables.len(), |i: int| tables[i].name)
}

/// A column that the database holds: with its stored settings, or as a new
/// column without a rule that is not ignored.
pub open spec fn present_column(stored: Seq<ColumnConfigView>, name: Seq<char>) -> MergedColumnView {
    let at = last_index(column_keys(stored), name);
    if at >= 0 {
        MergedColumnView { config: stored[at], status: None }
    } else {
        MergedColumnView {
            config: ColumnConfigView { name, mask_rule: None, ignore: false },
            status: Some(TableInfoChangeStatus::Added),
        }
    }
}

/// The stored columns that the database no longer holds, marked removed.
pub open spec fn gone_columns(stored: Seq<ColumnConfigView>, current: Seq<Seq<char>>) -> Seq<
    MergedColumnView,
>
    decreases stored.len(),
{
    if stored.len() == 0 {
        Seq::empty()
    } else {
        let before = gone_columns(stored.drop_last(), current);
        if current.contains(stored.last().name) {
            before
        } else {
            before.push(
                MergedColumnView {
                    config: stored.last(),
                    status: Some(TableInfoChangeStatus::Removed),
                },
            )
        }
    }
}

/// The columns of a table brought up to date: one entry for each current
/// name, in the order given, then the stored columns that are gone.
pub open spec fn merged_columns(current: Seq<Seq<char>>, stored: Seq<ColumnConfigView>) -> Seq<
    MergedColumnView,
> {
    Seq::new(current.len(), |i: int| present_column(stored, current[i])) + gone_columns(
        stored,
        current,
    )
}

/// The stored columns as they are, none marked.
pub open spec fn unmarked(stored: Seq<ColumnConfigView>) -> Seq<MergedColumnView> {
    Seq::new(stored.len(), |i: int| MergedColumnView { config: stored[i], status: None })
}

/// A table that the database holds: with its stored settings, or as a new
/// table that is ignored until it is configured; its columns brought up to
/// date.
pub open spec fn present_table(stored: Seq<TableConfigView>, current: CatalogTableView) -> MergedTableView {
    let at = last_index(table_keys(stored), current.name);
    if at >= 0 {
        MergedTableView {
            name: stored[at].name,
            columns: merged_columns(current.columns, stored[at].columns),
            structure_only: stored[at].structure_only,
            ignore_foreign_keys: stored[at].ignore_foreign_keys,
            ignore: stored[at].ignore,
            status: None,
        }
    } else {
        MergedTableView {
            name: current.name,
            columns: merged_columns(current.columns, Seq::empty()),
            structure_only: false,
            ignore_foreign_keys: false,
            ignore: true,
            status: Some(TableInfoChangeStatus::Added),
        }
    }
}

/// The stored table jobs that the database no longer holds, marked removed.
pub open spec fn gone_tables(stored: Seq<TableConfigView>, current: Seq<Seq<char>>) -> Seq<
    MergedTableView,
>
    decreases stored.len(),
{
    if stored.len() == 0 {
        Seq::empty()
    } else {
        let before = gone_tables(stored.drop_last(), current);
        let t = stored.last();
        if current.contains(t.name) {
            before
        } else {
            before.push(
                MergedTableView {
                    name: t.name,
                    columns: unmarked(t.columns),
                    structure_only: t.structure_only,
                    ignore_foreign_keys: t.ignore_foreign_keys,
                    ignore: t.ignore,
                    status: Some(TableInfoChangeStatus::Removed),
                },
            )
        }
    }
}

/// The table jobs brought up to date: one entry for each current table, in
/// the order given, then the stored jobs whose table is gone.
pub open spec fn merged_tables(current: Seq<CatalogTableView>, stored: Seq<TableConfigView>) -> Seq<
    MergedTableView,
> {
    Seq::new(current.len(), |i: int| present_table(stored, current[i])) + gone_tables(
        stored,
        catalog_keys(current),
    )
}

/// The views of the merged columns, in order.
pub open spec fn merged_column_views(columns: Seq<MergedColumn>) -> Seq<MergedColumnView> {
    Seq::new(columns.len(), |i: int| columns[i]@)
}

/// The views of the merged tables, in order.
pub open spec fn merged_table_views(tables: Seq<MergedTable>) -> Seq<MergedTableView> {
    Seq::new(tables.len(), |i: int| tables[i]@)
}

fn holds(names: &Vec<String>, name: &str) -> (r: bool)
    ensures
        r == texts(names@).contains(name@),
{
    let mut i: usize = 0;
    while i < names.len()
        invariant
            i <= names.len(),
            forall|j: int| 0 <= j < i ==> texts(names@)[j] != name@,
        decreases names.len() - i,
    {
        if same_text(names[i].as_str(), name) {
            proof {
                assert(texts(names@)[i as int] == name@);
            }
            return true;
        }
        i += 1;
    }
    false
}

fn last_column(stored: &Vec<ColumnConfig>, name: &str) -> (at: Option<usize>)
    ensures
        at is Some <==> last_index(column_keys(column_views(stored@)), name@) >= 0,
        at is Some ==> at->Some_0 == last_index(column_keys(column_views(stored@)), name@),
        at is Some ==> at->Some_0 < stored@.len(),
{
    let ghost keys = column_keys(column_views(stored@));
    let mut at: Option<usize> = None;
    let mut i: usize = 0;
    proof {
        assert(keys.take(0) =~= Seq::empty());
    }
    while i < stored.len()
        invariant
            i <= stored.len(),
            keys == column_keys(column_views(stored@)),
            at is Some <==> last_index(keys.take(i as int), name@) >= 0,
            at is Some ==> at->Some_0 == last_index(keys.take(i as int), name@),
            at is Some ==> at->Some_0 < i,
        decreases stored.len() - i,
    {
        proof {
            let t = keys.take(i + 1);
            assert(t.drop_last() =~= keys.take(i as int));
            assert(t.last() == stored@[i as int].name@);
        }
        if same_text(stored[i].name.as_str(), name) {
            at = Some(i);
        }
        i += 1;
    }
    proof {
        assert(keys.take(stored.len() as int) =~= keys);
    }
    at
}

fn last_table(stored: &Vec<TableConfig>, name: &str) -> (at: Option<usize>)
    ensures
        at is Some <==> last_index(table_keys(table_views(stored@)), name@) >= 0,
        at is Some ==> at->Some_0 == last_index(table_keys(table_views(stored@)), name@),
        at is Some ==> at->Some_0 < stored@.len(),
{
    let ghost keys = table_keys(table_views(stored@));
    let mut at: Option<usize> = None;
    let mut i: usize = 0;
    proof {
        assert(keys.take(0) =~= Seq::empty());
    }
    while i < stored.len()
        invariant
            i <= stored.len(),
            keys == table_keys(table_views(stored@)),
            at is Some <==> last_index(keys.take(i as int), name@) >= 0,
            at is Some ==> at->Some_0 == last_index(keys.take(i as int), name@),
            at is Some ==> at->Some_0 < i,
        decreases stored.len() - i,
    {
        proof {
            let t = keys.take(i + 1);
            assert(t.drop_last() =~= keys.take(i as int));
            assert(t.last() == stored@[i as int].name@);
        }
        if same_text(stored[i].name.as_str(), name) {
            at = Some(i);
        }
        i += 1;
    }
    proof {
        assert(keys.take(stored.len() as int) =~= keys);
    }
    at
}

/// Brings the stored columns of a table up to date with the column names
/// that the database holds now.
pub fn merge_columns(current: &Vec<String>, stored: &Vec<ColumnConfig>) -> (out: Vec<MergedColumn>)
    ensures
        merged_column_views(out@) == merged_columns(texts(current@), column_views(stored@)),
{
    let ghost now = texts(current@);
    let ghost was = column_views(stored@);
    let mut out: Vec<MergedColumn> = Vec::new();
    let mut i: usize = 0;
    while i < current.len()
        invariant
            i <= current.len(),
            now == texts(current@),
            was == column_views(stored@),
            out@.len() == i,
            forall|k: int| 0 <= k < i ==> #[trigger] out@[k]@ == present_column(was, now[k]),
        decreases current.len() - i,
    {
        let name = &current[i];
        let entry = match last_column(stored, name.as_str()) {
            Some(at) => MergedColumn { config: stored[at].duplicate(), status: None },
            None => MergedColumn {
                config: ColumnConfig { name: name.clone(), mask_rule: None, ignore: false },
                status: Some(TableInfoChangeStatus::Added),
            },
        };
        out.push(entry);
        i += 1;
    }
    let mut j: usize = 0;
    proof {
        assert(was.take(0) =~= Seq::empty());
    }
    while j < stored.len()
        invariant
            j <= stored.len(),
            now == texts(current@),
            was == column_views(stored@),
            out@.len() == current@.len() + gone_columns(was.take(j as int), now).len(),
            forall|k: int|
                0 <= k < current@.len() ==> #[trigger] out@[k]@ == present_column(was, now[k]),
            forall|k: int|
                0 <= k < gone_columns(was.take(j as int), now).len() ==> #[trigger] out@[current@.len()
                    + k]@ == gone_columns(was.take(j as int), now)[k],
        decreases stored.len() - j,
    {
        proof {
            let t = was.take(j + 1);
            assert(t.drop_last() =~= was.take(j as int));
            assert(t.last() == stored@[j as int]@);
        }
        if !holds(current, stored[j].name.as_str()) {
            out.push(
                MergedColumn {
                    config: stored[j].duplicate(),
                    status: Some(TableInfoChangeStatus::Removed),
                },
            );
        }
        j += 1;
    }
    proof {
        assert(was.take(stored.len() as int) =~= was);
        let want = merged_columns(now, was);
        assert(merged_column_views(out@).len() == want.len());
        assert forall|k: int| 0 <= k < want.len() implies merged_column_views(out@)[k]
            == want[k] by {
            if k >= current@.len() {
                let m = k - current@.len();
                assert(out@[current@.len() + m]@ == gone_columns(was, now)[m]);
            }
        }
        assert(merged_column_views(out@) =~= want);
    }
    out
}

fn keep_columns(stored: &Vec<ColumnConfig>) -> (out: Vec<MergedColumn>)
    ensures
        merged_column_views(out@) == unmarked(column_views(stored@)),
{
    let mut out: Vec<MergedColumn> = Vec::new();
    let mut i: usize = 0;
    while i < stored.len()
        invariant
            i <= stored.len(),
            out@.len() == i,
            forall|k: int|
                0 <= k < i ==> #[trigger] out@[k]@ == (MergedColumnView {
                    config: stored@[k]@,
                    status: None,
                }),
        decreases stored.len() - i,
    {
        out.push(MergedColumn { config: stored[i].duplicate(), status: None });
        i += 1;
    }
    proof {
        assert(merged_column_views(out@) =~= unmarked(column_views(stored@)));
    }
    out
}

fn catalog_names(current: &Vec<CatalogTable>) -> (out: Vec<String>)
    ensures
        texts(out@) == catalog_keys(catalog_views(current@)),
{
    let mut out: Vec<String> = Vec::new();
    let mut i: usize = 0;
    while i < current.len()
        invariant
            i <= current.len(),
            out@.len() == i,
            forall|k: int| 0 <= k < i ==> #[trigger] out@[k]@ == current@[k].name@,
        decreases current.len() - i,
    {
        out.push(current[i].name.clone());
        i += 1;
    }
    proof {
        assert(texts(out@) =~= catalog_keys(catalog_views(current@)));
    }
    out
}

/// Brings the stored table jobs up to date with the tables and columns that
/// the database holds now.
pub fn merge_table_config(current: &Vec<CatalogTable>, stored: &Vec<TableConfig>) -> (out: Vec<
    MergedTable,
>)
    ensures
        merged_table_views(out@) == merged_tables(catalog_views(current@), table_views(stored@)),
{
    let ghost now = catalog_views(current@);
    let ghost was = table_views(stored@);
    let names = catalog_names(current);
    let mut out: Vec<MergedTable> = Vec::new();
    let mut i: usize = 0;
    while i < current.len()
        invariant
            i <= current.len(),
            now == catalog_views(current@),
            was == table_views(stored@),
            out@.len() == i,
            forall|k: int| 0 <= k < i ==> #[trigger] out@[k]@ == present_table(was, now[k]),
        decreases current.len() - i,
    {
        let table = &current[i];
        let entry = match last_table(stored, table.name.as_str()) {
            Some(at) => {
                let base = &stored[at];
                let columns = merge_columns(&table.columns, &base.columns);
                let entry = MergedTable {
                    name: base.name.clone(),
                    columns,
                    structure_only: base.structure_only,
                    ignore_foreign_keys: base.ignore_foreign_keys,
                    ignore: base.ignore,
                    status: None,
                };
                proof {
                    assert(entry@.columns =~= merged_columns(now[i as int].columns, was[at as int].columns));
                }
                entry
            },
            None => {
                let none: Vec<ColumnConfig> = Vec::new();
                let columns = merge_columns(&table.columns, &none);
                let entry = MergedTable {
                    name: table.name.clone(),
                    columns,
                    structure_only: false,
                    ignore_foreign_keys: false,
                    ignore: true,
                    status: Some(TableInfoChangeStatus::Added),
                };
                proof {
                    assert(column_views(none@) =~= Seq::empty());
                    assert(entry@.columns =~= merged_columns(now[i as int].columns, Seq::empty()));
                }
                entry
            },
        };
        out.push(entry);
        i += 1;
    }
    let mut j: usize = 0;
    proof {
        assert(was.take(0) =~= Seq::empty());
    }
    while j < stored.len()
        invariant
            j <= stored.len(),
            now == catalog_views(current@),
            was == table_views(stored@),
            texts(names@) == catalog_keys(now),
            out@.len() == current@.len() + gone_tables(was.take(j as int), catalog_keys(now)).len(),
            forall|k: int|
                0 <= k < current@.len() ==> #[trigger] out@[k]@ == present_table(was, now[k]),
            forall|k: int|
                0 <= k < gone_tables(was.take(j as int), catalog_keys(now)).len()
                    ==> #[trigger] out@[current@.len() + k]@ == gone_tables(
                    was.take(j as int),
                    catalog_keys(now),
                )[k],
        decreases stored.len() - j,
    {
        proof {
            let t = was.take(j + 1);
            assert(t.drop_last() =~= was.take(j as int));
            assert(t.last() == stored@[j as int]@);
        }
        let base = &stored[j];
        if !holds(&names, base.name.as_str()) {
            let entry = MergedTable {
                name: base.name.clone(),
                columns: keep_columns(&base.columns),
                structure_only: base.structure_only,
                ignore_foreign_keys: base.ignore_foreign_keys,
                ignore: base.ignore,
                status: Some(TableInfoChangeStatus::Removed),
            };
            proof {
                assert(entry@.columns =~= unmarked(was[j as int].columns));
            }
            out.push(entry);
        }
        j += 1;
    }
    proof {
        assert(was.take(stored.len() as int) =~= was);
        let want = merged_tables(now, was);
        assert(merged_table_views(out@).len() == want.len());
        assert forall|k: int| 0 <= k < want.len() implies merged_table_views(out@)[k]
            == want[k] by {
            if k >= current@.len() {
                let m = k - current@.len();
                assert(out@[current@.len() + m]@ == gone_tables(was, catalog_keys(now))[m]);
            }
        }
        assert(merged_table_views(out@) =~= want);
    }
    out
}

} // verus!
