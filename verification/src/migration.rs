//! Moving job descriptions that were kept as files into the store: what is
//! reported of each file and of the whole run, and when the old files are
//! set aside.

use crate::text::{decimal, join, joined, push_decimal, texts};
use vstd::prelude::*;

verus! {

/// The line reported for a file that was moved.
pub open spec fn moved_line(name: Seq<char>) -> Seq<char> {
    "成功迁移配置: "@ + name
}

/// The line reported for a file that could not be moved.
pub open spec fn failed_line(name: Seq<char>, cause: Seq<char>) -> Seq<char> {
    "迁移配置失败 "@ + name + ": "@ + cause
}

/// The report of a run: the two counts, then the lines, one per line.
pub open spec fn report_text(migrated: nat, failed: nat, lines: Seq<Seq<char>>) -> Seq<char> {
    "迁移完成。成功: "@ + decimal(migrated) + ", 失败: "@ + decimal(failed) + "\n"@ + joined(
        lines,
        "\n"@,
    )
}

/// The line reported for a file that was moved.
pub fn moved_message(name: &str) -> (out: String)
    ensures
        out@ == moved_line(name@),
{
    let mut out = "成功迁移配置: ".to_owned();
    out.append(name);
    out
}

/// The line reported for a file that could not be moved.
pub fn failed_message(name: &str, cause: &str) -> (out: String)
    ensures
        out@ == failed_line(name@, cause@),
{
    let mut out = "迁移配置失败 ".to_owned();
    out.append(name);
    out.append(": ");
    out.append(cause);
    out
}

/// Whether the old files are set aside after the run: when at least one
/// was moved and none failed.
pub fn backup_due(migrated: usize, failed: usize) -> (due: bool)
    ensures
        due == (failed == 0 && migrated > 0),
{
    failed == 0 && migrated > 0
}

/// The report of a run.
pub fn migration_report(migrated: usize, failed: usize, lines: &Vec<String>) -> (out: String)
    ensures
        out@ == report_text(migrated as nat, failed as nat, texts(lines@)),
{
    let mut out = "迁移完成。成功: ".to_owned();
    push_decimal(&mut out, migrated);
    out.append(", 失败: ");
    push_decimal(&mut out, failed);
    out.append("\n");
    out.append(join(lines, "\n").as_str());
    out
}

} // verus!
