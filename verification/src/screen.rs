//! The texts of the screen that depend on the state: the table header,
//! the disk column, the memory axis and the kill confirmation.

use vstd::prelude::*;
use vstd::string::*;
use crate::process::SortBy;
use crate::text::{decimal, decimal_string, human_readable, mem_human_readable, push_decimal};

verus! {

/// The number of columns of the process table.
pub const COLUMN_COUNT: usize = 6;

/// The column of the process table that shows the sort value.
pub open spec fn column_of(by: SortBy) -> int {
    match by {
        SortBy::Pid => 0,
        SortBy::User => 1,
        SortBy::Name => 2,
        SortBy::Cpu => 3,
        SortBy::Memory => 4,
        SortBy::Io => 5,
    }
}

/// The column of the process table that shows the sort value.
pub fn sort_column(by: SortBy) -> (col: usize)
    ensures
        col == column_of(by),
        col < COLUMN_COUNT,
{
    match by {
        SortBy::Pid => 0,
        SortBy::User => 1,
        SortBy::Name => 2,
        SortBy::Cpu => 3,
        SortBy::Memory => 4,
        SortBy::Io => 5,
    }
}

/// The title of a column of the process table.
pub open spec fn column_title(col: int) -> Seq<char> {
    if col == 0 {
        "PID"@
    } else if col == 1 {
        "User"@
    } else if col == 2 {
        "Name"@
    } else if col == 3 {
        "CPU%"@
    } else if col == 4 {
        "MEM"@
    } else {
        "Disk R/W"@
    }
}

/// The mark of the sort direction: up for ascending, down for descending.
pub open spec fn direction_mark(ascending: bool) -> Seq<char> {
    if ascending {
        "▲"@
    } else {
        "▼"@
    }
}

/// The header of a column: its title, followed by the direction mark on the
/// sort column.
pub open spec fn header_title(col: int, by: SortBy, ascending: bool) -> Seq<char> {
    if col == column_of(by) {
        column_title(col) + direction_mark(ascending)
    } else {
        column_title(col)
    }
}

fn column_title_text(col: usize) -> (s: &'static str)
    requires
        col < COLUMN_COUNT,
    ensures
        s@ == column_title(col as int),
{
    if col == 0 {
        "PID"
    } else if col == 1 {
        "User"
    } else if col == 2 {
        "Name"
    } else if col == 3 {
        "CPU%"
    } else if col == 4 {
        "MEM"
    } else {
        "Disk R/W"
    }
}

/// The headers of the process table's columns.
pub fn header_titles(by: SortBy, ascending: bool) -> (titles: Vec<String>)
    ensures
        titles@.len() == COLUMN_COUNT,
        forall|i: int| 0 <= i < COLUMN_COUNT ==> #[trigger] titles@[i]@ == header_title(i, by, ascending),
{
    let sorted_col = sort_column(by);
    let mut titles: Vec<String> = Vec::new();
    let mut col: usize = 0;
    while col < COLUMN_COUNT
        invariant
            col <= COLUMN_COUNT,
            sorted_col == column_of(by),
            titles@.len() == col,
            forall|i: int| 0 <= i < col ==> #[trigger] titles@[i]@ == header_title(i, by, ascending),
        decreases COLUMN_COUNT - col,
    {
        let mut title = String::from_str(column_title_text(col));
        if col == sorted_col {
            let mark = if ascending { "▲" } else { "▼" };
            title.append(mark);
        }
        titles.push(title);
        col = col + 1;
    }
    titles
}

/// The disk column: bytes read, a slash, bytes written, each human-readable.
pub open spec fn disk_usage_label(read: nat, written: nat) -> Seq<char> {
    human_readable(read).push('/') + human_readable(written)
}

/// The disk column of a process: bytes read, a slash, bytes written.
pub fn disk_usage_text(read: u64, written: u64) -> (s: String)
    ensures
        s@ == disk_usage_label(read as nat, written as nat),
{
    let mut s = mem_human_readable(read);
    let w = mem_human_readable(written);
    proof { reveal_strlit("/"); }
    s.append("/");
    s.append(w.as_str());
    assert(s@ =~= disk_usage_label(read as nat, written as nat));
    s
}

/// The title of the memory plot: used and total memory, then used and total
/// swap, each human-readable.
pub open spec fn memory_title(used: nat, total: nat, used_swap: nat, total_swap: nat) -> Seq<char> {
    "Mem usage:"@ + human_readable(used) + "/"@ + human_readable(total) + "; Swap:"@
        + human_readable(used_swap) + "/"@ + human_readable(total_swap)
}

/// The title of the memory plot.
pub fn memory_title_text(used: u64, total: u64, used_swap: u64, total_swap: u64) -> (s: String)
    ensures
        s@ == memory_title(used as nat, total as nat, used_swap as nat, total_swap as nat),
{
    let mut s = String::from_str("Mem usage:");
    let a = mem_human_readable(used);
    s.append(a.as_str());
    s.append("/");
    let b = mem_human_readable(total);
    s.append(b.as_str());
    s.append("; Swap:");
    let c = mem_human_readable(used_swap);
    s.append(c.as_str());
    s.append("/");
    let d = mem_human_readable(total_swap);
    s.append(d.as_str());
    assert(s@ =~= memory_title(used as nat, total as nat, used_swap as nat, total_swap as nat));
    s
}

/// The labels of the memory axis from the bottom up: `0`, then a quarter,
/// a third, a half and all of `total`, each human-readable.
pub open spec fn memory_axis_label(total: nat, i: int) -> Seq<char> {
    if i == 0 {
        decimal(0)
    } else {
        human_readable(total / ((5 - i) as nat))
    }
}

/// The labels of the memory axis from the bottom up.
pub fn memory_axis_labels(total: u64) -> (labels: Vec<String>)
    ensures
        labels@.len() == 5,
        forall|i: int| 0 <= i < 5 ==> #[trigger] labels@[i]@ == memory_axis_label(total as nat, i),
{
    let mut labels: Vec<String> = Vec::new();
    labels.push(decimal_string(0));
    let mut x: u64 = 4;
    while x >= 1
        invariant
            x <= 4,
            labels@.len() == 5 - x,
            forall|i: int| 0 <= i < 5 - x ==> #[trigger] labels@[i]@ == memory_axis_label(total as nat, i),
        decreases x,
    {
        labels.push(mem_human_readable(total / x));
        x = x - 1;
    }
    labels
}

/// The largest byte length of the texts in `labels`.
pub open spec fn max_byte_len(labels: Seq<String>) -> nat
    decreases labels.len(),
{
    if labels.len() == 0 {
        0
    } else {
        let rest = max_byte_len(labels.drop_last());
        let last = (vstd::utf8::encode_utf8(labels.last()@).len() as usize) as nat;
        if last > rest {
            last
        } else {
            rest
        }
    }
}

/// The largest byte length of the texts in `labels`.
pub fn longest_label_len(labels: &Vec<String>) -> (len: usize)
    requires
        labels@.len() > 0,
    ensures
        len == max_byte_len(labels@),
{
    let mut best: usize = 0;
    let mut i: usize = 0;
    while i < labels.len()
        invariant
            i <= labels@.len(),
            best == max_byte_len(labels@.take(i as int)),
        decreases labels@.len() - i,
    {
        let text = labels[i].as_str();
        let l = text.len();
        assert(labels@.take(i + 1).drop_last() =~= labels@.take(i as int));
        assert(labels@.take(i + 1).last() == labels@[i as int]);
        assert(l == vstd::utf8::encode_utf8(labels@[i as int]@).len() as usize);
        if l > best {
            best = l;
        }
        i = i + 1;
    }
    assert(labels@.take(labels@.len() as int) =~= labels@);
    best
}

/// The text of the kill confirmation.
pub open spec fn kill_prompt(pid: nat, name: Seq<char>, command: Option<&str>, memory: nat) -> Seq<char> {
    let cmd = match command {
        Some(c) => c@,
        None => "[None]"@,
    };
    "PID:"@ + decimal(pid) + "\nName:"@ + name + "\nCommand:"@ + cmd + "\nMem:"@ + human_readable(
        memory,
    )
}

/// The text of the kill confirmation: pid, name, the first word of the
/// command line (`[None]` where there is none) and memory.
pub fn kill_prompt_text(pid: u32, name: &str, command: Option<&str>, memory: u64) -> (s: String)
    ensures
        s@ == kill_prompt(pid as nat, name@, command, memory as nat),
{
    let mut s = String::from_str("PID:");
    push_decimal(&mut s, pid as u64);
    s.append("\nName:");
    s.append(name);
    s.append("\nCommand:");
    match command {
        Some(c) => s.append(c),
        None => s.append("[None]"),
    }
    s.append("\nMem:");
    let m = mem_human_readable(memory);
    s.append(m.as_str());
    assert(s@ =~= kill_prompt(pid as nat, name@, command, memory as nat));
    s
}

} // verus!
