//! `nub stack`: what each streamed log chunk becomes on the terminal, the
//! `nub stack ls` table, and the confirmation prompt of `nub stack rm`.

use vstd::prelude::*;
use vstd::string::StringExecFns;

use super::table::{column_width, pad_left, pad_right, push_padded_left, push_padded_right, width_of};
use crate::compose::wire::strs;
use crate::num::{decimal, format_u64};

verus! {

/// One chunk of a log stream.
pub enum StreamChunk {
    /// Output of a container.
    Log { stderr: bool, data: String },
    /// The stream fell behind and dropped chunks.
    Lagging { dropped: u64 },
    /// The end of the stream, successful or not.
    End { ok: bool, err: Option<String> },
    /// Anything else; ignored by the log printer.
    Other,
}

/// What the log printer does with a chunk.
pub enum LogStep {
    /// Write to stdout.
    Stdout(String),
    /// Write to stderr.
    Stderr(String),
    /// Stop with this error.
    Fail(String),
    /// Stop successfully.
    Stop,
    /// Nothing.
    Skip,
}

/// The notice for dropped chunks, with its newline.
pub open spec fn lagging_notice(dropped: u64) -> Seq<char> {
    "[nub: dropped "@ + decimal(dropped as nat) + " log chunks under backpressure]\n"@
}

/// Decides what to do with one chunk of `nub stack logs`.
pub fn log_step(chunk: StreamChunk) -> (res: LogStep)
    ensures
        match chunk {
            StreamChunk::Log { stderr, data } => if stderr {
                res matches LogStep::Stderr(d) && d == data
            } else {
                res matches LogStep::Stdout(d) && d == data
            },
            StreamChunk::Lagging { dropped } => res matches LogStep::Stderr(n) && n@ == lagging_notice(dropped),
            StreamChunk::End { ok, err } => if ok {
                res is Stop
            } else {
                res matches LogStep::Fail(m) && m@ == "stream ended: "@ + match err {
                    Some(e) => e@,
                    None => "stream ended without success"@,
                }
            },
            StreamChunk::Other => res is Skip,
        },
{
    match chunk {
        StreamChunk::Log { stderr, data } => if stderr {
            LogStep::Stderr(data)
        } else {
            LogStep::Stdout(data)
        },
        StreamChunk::Lagging { dropped } => {
            let mut m = String::from_str("[nub: dropped ");
            m.append(format_u64(dropped).as_str());
            m.append(" log chunks under backpressure]\n");
            LogStep::Stderr(m)
        },
        StreamChunk::End { ok, err } => if ok {
            LogStep::Stop
        } else {
            let mut m = String::from_str("stream ended: ");
            match err {
                Some(e) => m.append(e.as_str()),
                None => m.append("stream ended without success"),
            }
            LogStep::Fail(m)
        },
        StreamChunk::Other => LogStep::Skip,
    }
}

/// One stack in `nub stack ls`.
pub struct StackRow {
    pub name: String,
    pub status: String,
    pub container_count: u64,
    pub modified_at: String,
}

/// The stacks' names.
pub open spec fn row_names(rows: Seq<StackRow>) -> Seq<Seq<char>> {
    rows.map_values(|r: StackRow| r.name@)
}

/// The stacks' statuses.
pub open spec fn row_statuses(rows: Seq<StackRow>) -> Seq<Seq<char>> {
    rows.map_values(|r: StackRow| r.status@)
}

/// One line of the table: name, status, container count (right-aligned in
/// 10) and the last column, two spaces apart.
pub open spec fn table_line(nw: int, sw: int, name: Seq<char>, status: Seq<char>, count: Seq<char>, last: Seq<char>) -> Seq<char> {
    pad_right(name, nw) + "  "@ + pad_right(status, sw) + "  "@ + pad_left(count, 10) + "  "@ + last
}

/// The lines of `nub stack ls`: a header and one line per stack, the
/// name and status columns as wide as their widest entry (at least 4 and
/// 6).
pub open spec fn spec_stack_table(rows: Seq<StackRow>) -> Seq<Seq<char>> {
    let nw = column_width(row_names(rows), 4);
    let sw = column_width(row_statuses(rows), 6);
    seq![table_line(nw, sw, "NAME"@, "STATUS"@, "CONTAINERS"@, "MODIFIED"@)] + rows.map_values(
        |r: StackRow| table_line(nw, sw, r.name@, r.status@, decimal(r.container_count as nat), r.modified_at@),
    )
}

/// Appends one table line.
fn push_line(out: &mut Vec<String>, nw: usize, sw: usize, name: &str, status: &str, count: &str, last: &str)
    ensures
        strs(final(out)@) == strs(old(out)@).push(table_line(nw as int, sw as int, name@, status@, count@, last@)),
{
    let mut l = String::new();
    push_padded_right(&mut l, name, nw);
    l.append("  ");
    push_padded_right(&mut l, status, sw);
    l.append("  ");
    push_padded_left(&mut l, count, 10);
    l.append("  ");
    l.append(last);
    assert(l@ =~= table_line(nw as int, sw as int, name@, status@, count@, last@));
    let ghost before = out@;
    out.push(l);
    assert(strs(out@) =~= strs(before).push(l@));
}

/// The lines of `nub stack ls` (an empty list prints `(no stacks)`
/// instead).
pub fn stack_table(rows: &Vec<StackRow>) -> (res: Vec<String>)
    ensures
        strs(res@) == spec_stack_table(rows@),
{
    let mut names: Vec<String> = Vec::new();
    let mut statuses: Vec<String> = Vec::new();
    let mut i: usize = 0;
    while i < rows.len()
        invariant
            i <= rows@.len(),
            strs(names@) == row_names(rows@.subrange(0, i as int)),
            strs(statuses@) == row_statuses(rows@.subrange(0, i as int)),
        decreases rows@.len() - i,
    {
        let ghost nb = names@;
        let ghost sb = statuses@;
        names.push(rows[i].name.clone());
        statuses.push(rows[i].status.clone());
        assert(strs(names@) =~= row_names(rows@.subrange(0, i + 1))) by {
            assert(strs(names@) =~= strs(nb).push(rows@[i as int].name@));
        }
        assert(strs(statuses@) =~= row_statuses(rows@.subrange(0, i + 1))) by {
            assert(strs(statuses@) =~= strs(sb).push(rows@[i as int].status@));
        }
        i = i + 1;
    }
    assert(rows@.subrange(0, i as int) =~= rows@);
    let nw = width_of(&names, 4);
    let sw = width_of(&statuses, 6);
    let ghost table = spec_stack_table(rows@);
    let mut out: Vec<String> = Vec::new();
    push_line(&mut out, nw, sw, "NAME", "STATUS", "CONTAINERS", "MODIFIED");
    let mut k: usize = 0;
    while k < rows.len()
        invariant
            k <= rows@.len(),
            nw as int == column_width(row_names(rows@), 4),
            sw as int == column_width(row_statuses(rows@), 6),
            table == spec_stack_table(rows@),
            strs(out@) == table.subrange(0, k + 1),
        decreases rows@.len() - k,
    {
        let r = &rows[k];
        let count = format_u64(r.container_count);
        push_line(&mut out, nw, sw, r.name.as_str(), r.status.as_str(), count.as_str(), r.modified_at.as_str());
        assert(table.subrange(0, k + 2) =~= table.subrange(0, k + 1).push(table[k + 1]));
        k = k + 1;
    }
    assert(table.subrange(0, rows@.len() as int + 1) =~= table);
    out
}

/// The confirmation `nub stack rm` asks before tearing a stack down.
pub fn remove_prompt(name: &str) -> (res: String)
    ensures
        res@ == "remove stack `"@ + name@ + "`? containers will be stopped and the manifest deleted"@,
{
    let mut m = String::from_str("remove stack `");
    m.append(name);
    m.append("`? containers will be stopped and the manifest deleted");
    m
}

} // verus!
