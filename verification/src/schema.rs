//! The schema inspector and synchroniser: turning catalog rows into a table
//! definition, remembering it per table, and the statements that rebuild
//! the table at the target.

use crate::keyed::{first_index, lemma_first_index, lemma_first_index_absent, lemma_first_index_is};
use crate::model::{clone_opt_text, ColumnInfo, ColumnInfoView, TableInfo, TableInfoView};
use crate::text::{
    contains_text, join, joined, occurs_in, push_escaped, push_quoted, quoted, same_text, texts,
    to_chars,
};
use vstd::prelude::*;

verus! {

/// The catalog reads that an inspection makes when the table is not
/// remembered: columns, indexes, constraints.
pub const CATALOG_READS: usize = 3;

/// The catalog read for the columns of the table named by its one parameter,
/// in the order of their position, within the owning schema.
pub const COLUMNS_QUERY: &'static str =
    "SELECT column_name, data_type, is_nullable, column_default, character_maximum_length FROM information_schema.columns WHERE table_schema = 'public' AND table_name = $1 ORDER BY ordinal_position";

/// The catalog read for the index definitions of the table named by its one
/// parameter, within the owning schema.
pub const INDEXES_QUERY: &'static str =
    "SELECT indexdef FROM pg_indexes WHERE schemaname = 'public' AND tablename = $1";

/// The catalog read for the constraint definitions of the table named by
/// its one parameter, within the owning schema.
pub const CONSTRAINTS_QUERY: &'static str =
    "SELECT pg_get_constraintdef(c.oid) as constraint_def FROM pg_constraint c JOIN pg_namespace n ON n.oid = c.connamespace WHERE conrelid = (SELECT oid FROM pg_class WHERE relname = $1 AND relnamespace = (SELECT oid FROM pg_namespace WHERE nspname = 'public')) AND n.nspname = 'public'";

/// The catalog read for the names of the tables of the owning schema, in
/// order.
pub const TABLES_QUERY: &'static str =
    "SELECT table_name FROM information_schema.tables WHERE table_schema = 'public' ORDER BY table_name";

/// The catalog read for the names of the columns of the table named by its
/// one parameter, in the order of their position, within the owning schema.
pub const COLUMN_NAMES_QUERY: &'static str =
    "SELECT column_name FROM information_schema.columns WHERE table_schema = 'public' AND table_name = $1 ORDER BY ordinal_position";

/// One row of the catalog's list of columns, as it was read.
#[derive(Clone, Debug, PartialEq, Eq)]
pub struct CatalogColumn {
    pub column_name: String,
    pub data_type: String,
    pub is_nullable: String,
    pub column_default: Option<String>,
    pub character_maximum_length: Option<i32>,
}

/// Whether the text is `YES` in any mix of upper and lower case.
pub open spec fn is_yes(text: Seq<char>) -> bool {
    &&& text.len() == 3
    &&& (text[0] == 'Y' || text[0] == 'y')
    &&& (text[1] == 'E' || text[1] == 'e')
    &&& (text[2] == 'S' || text[2] == 's')
}

/// Whether the text is `YES` in any mix of upper and lower case.
pub fn reads_yes(text: &str) -> (r: bool)
    ensures
        r == is_yes(text@),
{
    let chars = to_chars(text);
    chars.len() == 3 && (chars[0] == 'Y' || chars[0] == 'y') && (chars[1] == 'E' || chars[1]
        == 'e') && (chars[2] == 'S' || chars[2] == 's')
}

/// The column that a catalog row describes.
pub open spec fn column_of(row: CatalogColumn) -> ColumnInfoView {
    ColumnInfoView {
        name: row.column_name@,
        data_type: row.data_type@,
        is_nullable: is_yes(row.is_nullable@),
        column_default: crate::model::opt_text(row.column_default),
        character_maximum_length: row.character_maximum_length,
    }
}

/// The column that a catalog row describes.
pub fn column_info(row: &CatalogColumn) -> (c: ColumnInfo)
    ensures
        c@ == column_of(*row),
{
    ColumnInfo {
        name: row.column_name.clone(),
        data_type: row.data_type.clone(),
        is_nullable: reads_yes(row.is_nullable.as_str()),
        column_default: clone_opt_text(&row.column_default),
        character_maximum_length: row.character_maximum_length,
    }
}

/// A copy of a list of texts.
pub fn clone_texts(v: &Vec<String>) -> (out: Vec<String>)
    ensures
        texts(out@) == texts(v@),
{
    let mut out: Vec<String> = Vec::new();
    let mut i: usize = 0;
    while i < v.len()
        invariant
            i <= v.len(),
            out@.len() == i,
            forall|k: int| 0 <= k < i ==> #[trigger] out@[k]@ == v@[k]@,
        decreases v.len() - i,
    {
        out.push(v[i].clone());
        i += 1;
    }
    proof {
        assert(texts(out@) =~= texts(v@));
    }
    out
}

/// The definition of a table, assembled from what the three catalog reads
/// gave: the columns in the order read, each index and each constraint as
/// read.
pub fn assemble_table_info(
    table_name: &str,
    columns: &Vec<CatalogColumn>,
    indexes: &Vec<String>,
    constraints: &Vec<String>,
) -> (info: TableInfo)
    ensures
        info@ == (TableInfoView {
            name: table_name@,
            columns: Seq::new(columns@.len(), |i: int| column_of(columns@[i])),
            indexes: texts(indexes@),
            constraints: texts(constraints@),
        }),
{
    let mut cols: Vec<ColumnInfo> = Vec::new();
    let mut i: usize = 0;
    while i < columns.len()
        invariant
            i <= columns.len(),
            cols@.len() == i,
            forall|k: int| 0 <= k < i ==> #[trigger] cols@[k]@ == column_of(columns@[k]),
        decreases columns.len() - i,
    {
        cols.push(column_info(&columns[i]));
        i += 1;
    }
    let info = TableInfo {
        name: table_name.to_owned(),
        columns: cols,
        indexes: clone_texts(indexes),
        constraints: clone_texts(constraints),
    };
    proof {
        assert(info@.columns =~= Seq::new(columns@.len(), |i: int| column_of(columns@[i])));
    }
    info
}

impl ColumnInfo {
    /// A copy of the column.
    pub fn duplicate(&self) -> (r: ColumnInfo)
        ensures
            r@ == self@,
    {
        ColumnInfo {
            name: self.name.clone(),
            data_type: self.data_type.clone(),
            is_nullable: self.is_nullable,
            column_default: clone_opt_text(&self.column_default),
            character_maximum_length: self.character_maximum_length,
        }
    }
}

impl TableInfo {
    /// A copy of the definition.
    pub fn duplicate(&self) -> (r: TableInfo)
        ensures
            r@ == self@,
    {
        let mut cols: Vec<ColumnInfo> = Vec::new();
        let mut i: usize = 0;
        while i < self.columns.len()
            invariant
                i <= self.columns.len(),
                cols@.len() == i,
                forall|k: int| 0 <= k < i ==> #[trigger] cols@[k]@ == self.columns@[k]@,
            decreases self.columns.len() - i,
        {
            cols.push(self.columns[i].duplicate());
            i += 1;
        }
        let r = TableInfo {
            name: self.name.clone(),
            columns: cols,
            indexes: clone_texts(&self.indexes),
            constraints: clone_texts(&self.constraints),
        };
        proof {
            assert(r@.columns =~= self@.columns);
        }
        r
    }
}

/// The definitions remembered so far, by table name. An entry, once made,
/// stays as it is.
pub struct SchemaCache {
    entries: Vec<TableInfo>,
}

/// The cache after a definition is handed to it: a table that is already
/// remembered keeps its entry.
pub open spec fn remembered(
    cache: Map<Seq<char>, TableInfoView>,
    info: TableInfoView,
) -> Map<Seq<char>, TableInfoView> {
    if cache.contains_key(info.name) {
        cache
    } else {
        cache.insert(info.name, info)
    }
}

/// The catalog reads that an inspection of the table makes.
pub open spec fn reads_needed(cache: Map<Seq<char>, TableInfoView>, name: Seq<char>) -> nat {
    if cache.contains_key(name) {
        0
    } else {
        CATALOG_READS as nat
    }
}

/// Once a table's definition has been handed to the cache, inspecting that
/// table again reads nothing from the catalog and gives the definition that
/// the cache held first.
pub proof fn lemma_second_inspection_reads_nothing(
    cache: Map<Seq<char>, TableInfoView>,
    info: TableInfoView,
)
    ensures
        reads_needed(remembered(cache, info), info.name) == 0,
        !cache.contains_key(info.name) ==> remembered(cache, info)[info.name] == info,
        cache.contains_key(info.name) ==> remembered(cache, info)[info.name] == cache[info.name],
{
}

impl SchemaCache {
    /// The names of the entries, in the order in which they were made.
    pub closed spec fn names(&self) -> Seq<Seq<char>> {
        Seq::new(self.entries@.len(), |i: int| self.entries@[i].name@)
    }

    /// What is remembered, by table name.
    pub closed spec fn view(&self) -> Map<Seq<char>, TableInfoView> {
        Map::new(
            |name: Seq<char>| first_index(self.names(), name) >= 0,
            |name: Seq<char>| self.entries@[first_index(self.names(), name)]@,
        )
    }

    /// A cache that remembers nothing.
    pub fn new() -> (cache: SchemaCache)
        ensures
            cache@ == Map::<Seq<char>, TableInfoView>::empty(),
    {
        let cache = SchemaCache { entries: Vec::new() };
        proof {
            assert(cache.names() =~= Seq::empty());
            assert(cache@ =~= Map::<Seq<char>, TableInfoView>::empty());
        }
        cache
    }

    fn find(&self, name: &str) -> (at: Option<usize>)
        ensures
            at is Some <==> first_index(self.names(), name@) >= 0,
            at is Some ==> at->Some_0 == first_index(self.names(), name@),
            at is Some ==> at->Some_0 < self.entries@.len(),
    {
        let mut i: usize = 0;
        while i < self.entries.len()
            invariant
                i <= self.entries.len(),
                forall|j: int| 0 <= j < i ==> self.names()[j] != name@,
            decreases self.entries.len() - i,
        {
            if same_text(self.entries[i].name.as_str(), name) {
                proof {
                    lemma_first_index_is(self.names(), name@, i as int);
                }
                return Some(i);
            }
            i += 1;
        }
        proof {
            lemma_first_index_absent(self.names(), name@);
        }
        None
    }

    /// The definition remembered for the table, if there is one.
    pub fn get(&self, name: &str) -> (found: Option<TableInfo>)
        ensures
            found is Some <==> self@.contains_key(name@),
            found is Some ==> found->Some_0@ == self@[name@],
    {
        match self.find(name) {
            Some(i) => Some(self.entries[i].duplicate()),
            None => None,
        }
    }

    /// The catalog reads that an inspection of the table makes: none for a
    /// table that is remembered.
    pub fn catalog_reads(&self, name: &str) -> (n: usize)
        ensures
            n == reads_needed(self@, name@),
    {
        match self.find(name) {
            Some(_) => 0,
            None => CATALOG_READS,
        }
    }

    /// Hands a definition to the cache. A table that is already remembered
    /// keeps its entry.
    pub fn store(&mut self, info: TableInfo)
        ensures
            final(self)@ == remembered(old(self)@, info@),
    {
        let found = self.find(info.name.as_str());
        if found.is_none() {
            let ghost before = self.names();
            let ghost key = info.name@;
            self.entries.push(info);
            proof {
                let after = self.names();
                assert(after.drop_last() =~= before);
                assert(after.last() == key);
                assert forall|name: Seq<char>|
                    first_index(after, name) == if first_index(before, name) >= 0 {
                        first_index(before, name)
                    } else if name == key {
                        before.len() as int
                    } else {
                        -1
                    } by {}
                lemma_first_index(before, key);
                assert forall|name: Seq<char>| first_index(before, name) < before.len() by {
                    lemma_first_index(before, name);
                }
                assert(final(self)@ =~= remembered(old(self)@, info@));
            }
        }
    }
}

/// The statement that removes the target table and what hangs on it.
pub open spec fn drop_text(name: Seq<char>) -> Seq<char> {
    "DROP TABLE IF EXISTS "@ + quoted(name) + " CASCADE"@
}

/// One column's line in the statement that creates the table: the quoted
/// name, the type, then `NOT NULL` and the default as inspected.
pub open spec fn column_text(c: ColumnInfoView) -> Seq<char> {
    "    "@ + quoted(c.name) + " "@ + c.data_type + (if c.is_nullable {
        Seq::empty()
    } else {
        " NOT NULL"@
    }) + (match c.column_default {
        Some(d) => " DEFAULT "@ + d,
        None => Seq::empty(),
    })
}

/// The statement that creates the table.
pub open spec fn create_text(info: TableInfoView) -> Seq<char> {
    "CREATE TABLE "@ + quoted(info.name) + " (\n"@ + joined(
        Seq::new(info.columns.len(), |i: int| column_text(info.columns[i])),
        ",\n"@,
    ) + "\n)"@
}

/// The statement that applies one constraint.
pub open spec fn constraint_text(name: Seq<char>, definition: Seq<char>) -> Seq<char> {
    "ALTER TABLE "@ + quoted(name) + " ADD "@ + definition
}

/// Whether a constraint's definition mentions a foreign key.
pub open spec fn mentions_foreign_key(definition: Seq<char>) -> bool {
    occurs_in(definition, "FOREIGN KEY"@)
}

/// The constraints that are applied: none where foreign keys are ignored,
/// else those that mention no foreign key, in the order inspected.
pub open spec fn applied_constraints(
    definitions: Seq<Seq<char>>,
    ignore_foreign_keys: bool,
) -> Seq<Seq<char>>
    decreases definitions.len(),
{
    if ignore_foreign_keys || definitions.len() == 0 {
        Seq::empty()
    } else {
        let before = applied_constraints(definitions.drop_last(), ignore_foreign_keys);
        if mentions_foreign_key(definitions.last()) {
            before
        } else {
            before.push(definitions.last())
        }
    }
}

/// The statements that rebuild one table at the target, by their part.
#[derive(Clone, Debug, PartialEq, Eq)]
pub struct SyncPlan {
    pub drop: String,
    pub create: String,
    pub constraints: Vec<String>,
    pub indexes: Vec<String>,
}

/// What contracts read of a plan.
pub struct SyncPlanView {
    pub drop: Seq<char>,
    pub create: Seq<char>,
    pub constraints: Seq<Seq<char>>,
    pub indexes: Seq<Seq<char>>,
}

impl View for SyncPlan {
    type V = SyncPlanView;

    open spec fn view(&self) -> SyncPlanView {
        SyncPlanView {
            drop: self.drop@,
            create: self.create@,
            constraints: texts(self.constraints@),
            indexes: texts(self.indexes@),
        }
    }
}

impl SyncPlanView {
    /// The statements in the order in which they are run: the drop, the
    /// create, the constraints, the indexes.
    pub open spec fn statements(self) -> Seq<Seq<char>> {
        seq![self.drop, self.create] + self.constraints + self.indexes
    }
}

/// The plan that rebuilds the inspected table at the target.
pub open spec fn sync_plan(info: TableInfoView, ignore_foreign_keys: bool) -> SyncPlanView {
    let applied = applied_constraints(info.constraints, ignore_foreign_keys);
    SyncPlanView {
        drop: drop_text(info.name),
        create: create_text(info),
        constraints: Seq::new(applied.len(), |i: int| constraint_text(info.name, applied[i])),
        indexes: info.indexes,
    }
}

/// No more constraints are applied than were inspected, and none where
/// foreign keys are ignored.
pub proof fn lemma_applied_constraints_bound(definitions: Seq<Seq<char>>, ignore_foreign_keys: bool)
    ensures
        applied_constraints(definitions, ignore_foreign_keys).len() <= definitions.len(),
        ignore_foreign_keys ==> applied_constraints(definitions, ignore_foreign_keys).len() == 0,
    decreases definitions.len(),
{
    if !ignore_foreign_keys && definitions.len() > 0 {
        lemma_applied_constraints_bound(definitions.drop_last(), ignore_foreign_keys);
    }
}

/// Rebuilding a table takes exactly one drop, then one create, then one
/// statement for each applied constraint, then one for each index: two
/// statements more than there are applied constraints and indexes.
pub proof fn lemma_sync_plan_shape(info: TableInfoView, ignore_foreign_keys: bool)
    ensures
        ({
            let applied = applied_constraints(info.constraints, ignore_foreign_keys);
            let all = sync_plan(info, ignore_foreign_keys).statements();
            &&& all.len() == 2 + applied.len() + info.indexes.len()
            &&& all[0] == drop_text(info.name)
            &&& all[1] == create_text(info)
            &&& forall|i: int|
                0 <= i < applied.len() ==> #[trigger] all[2 + i] == constraint_text(
                    info.name,
                    applied[i],
                )
            &&& forall|i: int|
                0 <= i < info.indexes.len() ==> #[trigger] all[2 + applied.len() + i]
                    == info.indexes[i]
        }),
{
}

fn column_line(c: &ColumnInfo) -> (out: String)
    ensures
        out@ == column_text(c@),
{
    let mut out = "    \"".to_owned();
    proof {
        reveal_strlit("    \"");
        reveal_strlit("    ");
        assert("    \""@ =~= "    "@ + seq!['"']);
    }
    push_escaped(&mut out, c.name.as_str());
    out.push('"');
    out.append(" ");
    out.append(c.data_type.as_str());
    if !c.is_nullable {
        out.append(" NOT NULL");
    }
    match &c.column_default {
        Some(d) => {
            out.append(" DEFAULT ");
            out.append(d.as_str());
        },
        None => {},
    }
    proof {
        assert(out@ =~= column_text(c@));
    }
    out
}

/// The statements that rebuild the inspected table at the target: one drop,
/// one create, one statement for each constraint that is applied and one
/// for each index.
pub fn sync_statements(info: &TableInfo, ignore_foreign_keys: bool) -> (plan: SyncPlan)
    ensures
        plan@ == sync_plan(info@, ignore_foreign_keys),
        plan@.constraints.len() == applied_constraints(
            info@.constraints,
            ignore_foreign_keys,
        ).len(),
        plan@.indexes.len() == info@.indexes.len(),
{
    let mut drop = "DROP TABLE IF EXISTS ".to_owned();
    push_quoted(&mut drop, info.name.as_str());
    drop.append(" CASCADE");

    let mut lines: Vec<String> = Vec::new();
    let mut i: usize = 0;
    while i < info.columns.len()
        invariant
            i <= info.columns.len(),
            lines@.len() == i,
            forall|k: int| 0 <= k < i ==> #[trigger] lines@[k]@ == column_text(info@.columns[k]),
        decreases info.columns.len() - i,
    {
        lines.push(column_line(&info.columns[i]));
        i += 1;
    }
    proof {
        assert(texts(lines@) =~= Seq::new(
            info@.columns.len(),
            |i: int| column_text(info@.columns[i]),
        ));
    }
    let mut create = "CREATE TABLE ".to_owned();
    push_quoted(&mut create, info.name.as_str());
    create.append(" (\n");
    create.append(join(&lines, ",\n").as_str());
    create.append("\n)");

    let mut constraints: Vec<String> = Vec::new();
    if !ignore_foreign_keys {
        let mut j: usize = 0;
        proof {
            assert(info@.constraints.take(0) =~= Seq::empty());
        }
        while j < info.constraints.len()
            invariant
                !ignore_foreign_keys,
                j <= info.constraints.len(),
                constraints@.len() == applied_constraints(info@.constraints.take(j as int), false).len(),
                forall|k: int|
                    0 <= k < constraints@.len() ==> #[trigger] constraints@[k]@ == constraint_text(
                        info@.name,
                        applied_constraints(info@.constraints.take(j as int), false)[k],
                    ),
            decreases info.constraints.len() - j,
        {
            let definition = &info.constraints[j];
            proof {
                let t = info@.constraints.take(j + 1);
                assert(t.drop_last() =~= info@.constraints.take(j as int));
                assert(t.last() == definition@);
            }
            if !contains_text(definition.as_str(), "FOREIGN KEY") {
                let mut statement = "ALTER TABLE ".to_owned();
                push_quoted(&mut statement, info.name.as_str());
                statement.append(" ADD ");
                statement.append(definition.as_str());
                constraints.push(statement);
            }
            j += 1;
        }
        proof {
            assert(info@.constraints.take(info.constraints.len() as int) =~= info@.constraints);
        }
    }
    let plan = SyncPlan { drop, create, constraints, indexes: clone_texts(&info.indexes) };
    proof {
        assert(plan@.constraints =~= sync_plan(info@, ignore_foreign_keys).constraints);
    }
    plan
}

impl SyncPlan {
    /// The statements in the order in which they are run.
    pub fn statements(&self) -> (out: Vec<String>)
        ensures
            texts(out@) == self@.statements(),
    {
        let mut out: Vec<String> = Vec::new();
        out.push(self.drop.clone());
        out.push(self.create.clone());
        let mut i: usize = 0;
        while i < self.constraints.len()
            invariant
                i <= self.constraints.len(),
                out@.len() == 2 + i,
                out@[0]@ == self.drop@,
                out@[1]@ == self.create@,
                forall|n: int| 0 <= n < i ==> #[trigger] out@[2 + n]@ == self.constraints@[n]@,
            decreases self.constraints.len() - i,
        {
            out.push(self.constraints[i].clone());
            i += 1;
        }
        let mut k: usize = 0;
        while k < self.indexes.len()
            invariant
                k <= self.indexes.len(),
                out@.len() == 2 + self.constraints@.len() + k,
                out@[0]@ == self.drop@,
                out@[1]@ == self.create@,
                forall|n: int|
                    0 <= n < self.constraints@.len() ==> #[trigger] out@[2 + n]@
                        == self.constraints@[n]@,
                forall|n: int|
                    0 <= n < k ==> #[trigger] out@[2 + self.constraints@.len() + n]@
                        == self.indexes@[n]@,
            decreases self.indexes.len() - k,
        {
            out.push(self.indexes[k].clone());
            k += 1;
        }
        proof {
            let want = self@.statements();
            assert(texts(out@).len() == want.len());
            assert forall|n: int| 0 <= n < want.len() implies texts(out@)[n] == want[n] by {
                if n >= 2 + self.constraints@.len() {
                    let m = n - 2 - self.constraints@.len();
                    assert(out@[2 + self.constraints@.len() + m]@ == self.indexes@[m]@);
                } else if n >= 2 {
                    let m = n - 2;
                    assert(out@[2 + m]@ == self.constraints@[m]@);
                }
            }
            assert(texts(out@) =~= want);
        }
        out
    }
}

} // verus!
