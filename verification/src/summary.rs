//! The figures shown for a job before it starts.

use crate::copy::capped;
use crate::model::{Config, ConfigSummary, DatabaseConfig, TableConfig};
use crate::text::{decimal, push_decimal};
use vstd::prelude::*;

verus! {

/// An endpoint in one line: user, at, host, colon, port, slash, database.
pub open spec fn endpoint_text(db: DatabaseConfig) -> Seq<char> {
    db.username@ + "@"@ + db.host@ + ":"@ + decimal(db.port as nat) + "/"@ + db.database@
}

/// The number of columns listed over all the tables.
pub open spec fn column_total(tables: Seq<TableConfig>) -> nat
    decreases tables.len(),
{
    if tables.len() == 0 {
        0
    } else {
        column_total(tables.drop_last()) + tables.last().columns@.len()
    }
}

/// An endpoint in one line.
pub fn describe_endpoint(db: &DatabaseConfig) -> (out: String)
    ensures
        out@ == endpoint_text(*db),
{
    let mut out = db.username.clone();
    out.append("@");
    out.append(db.host.as_str());
    out.append(":");
    push_decimal(&mut out, db.port as usize);
    out.append("/");
    out.append(db.database.as_str());
    out
}

/// The summary of a job: both endpoints in one line each, the number of
/// tables, the number of columns over all tables (it stops at the largest
/// value that the counter holds), and whether either end is tunnelled.
pub fn get_config_summary(config: &Config) -> (summary: ConfigSummary)
    ensures
        summary.source_db@ == endpoint_text(config.source_db),
        summary.target_db@ == endpoint_text(config.target_db),
        summary.table_count == config.tables@.len(),
        summary.total_columns == capped(column_total(config.tables@)),
        summary.has_source_ssh == (config.source_db.ssh_config is Some),
        summary.has_target_ssh == (config.target_db.ssh_config is Some),
{
    let mut total: usize = 0;
    let mut i: usize = 0;
    proof {
        assert(config.tables@.take(0) =~= Seq::empty());
    }
    while i < config.tables.len()
        invariant
            i <= config.tables.len(),
            total == capped(column_total(config.tables@.take(i as int))),
        decreases config.tables.len() - i,
    {
        let n = config.tables[i].columns.len();
        proof {
            let t = config.tables@.take(i + 1);
            assert(t.drop_last() =~= config.tables@.take(i as int));
            assert(t.last() == config.tables@[i as int]);
        }
        total = if n <= usize::MAX - total {
            total + n
        } else {
            usize::MAX
        };
        i += 1;
    }
    proof {
        assert(config.tables@.take(config.tables.len() as int) =~= config.tables@);
    }
    ConfigSummary {
        source_db: describe_endpoint(&config.source_db),
        target_db: describe_endpoint(&config.target_db),
        table_count: config.tables.len(),
        total_columns: total,
        has_source_ssh: config.source_db.ssh_config.is_some(),
        has_target_ssh: config.target_db.ssh_config.is_some(),
    }
}

} // verus!
