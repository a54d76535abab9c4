//! The rows of the process table, how they are built from what the system
//! reports, and the stable sort that orders them by a column.

use vstd::prelude::*;
use crate::order::{cpu_rank, cpu_rank_of, lemma_lex_total, lemma_lex_transitive, lex_le, text_le};

verus! {

/// The column that the process table is sorted by.
#[derive(Clone, Copy, Debug, PartialEq, Eq, Structural)]
pub enum SortBy {
    Pid,
    User,
    Name,
    Cpu,
    Memory,
    Io,
}

/// One process as the system reports it, before its user is named.
#[derive(Debug, PartialEq, Eq)]
pub struct ProcessSample {
    pub pid: u32,
    /// The numeric user id, where the system knows one.
    pub user_id: Option<u32>,
    pub name: String,
    /// The bits of the `f32` CPU usage in percent.
    pub cpu_bits: u32,
    /// Resident memory in bytes.
    pub memory: u64,
    /// Bytes read since the last refresh.
    pub disk_read: u64,
    /// Bytes written since the last refresh.
    pub disk_written: u64,
}

/// A user account: its numeric id and its name.
#[derive(Debug, PartialEq, Eq)]
pub struct UserEntry {
    pub id: u32,
    pub name: String,
}

/// One row of the process table.
#[derive(Clone, Debug, PartialEq, Eq)]
pub struct ProcessRow {
    pub pid: u32,
    pub user: String,
    pub name: String,
    /// The bits of the `f32` CPU usage in percent.
    pub cpu_bits: u32,
    pub memory: u64,
    pub disk_read: u64,
    pub disk_written: u64,
}

/// The user name shown for a process whose user is not known.
pub open spec fn unknown_user() -> Seq<char> {
    seq!['[', 'U', 'n', 'k', 'n', 'o', 'w', 'n', ']']
}

/// The name of the first user in `users` with id `id`, if there is one.
pub open spec fn user_name_of(users: Seq<UserEntry>, id: u32) -> Option<Seq<char>>
    decreases users.len(),
{
    if users.len() == 0 {
        None
    } else if users[0].id == id {
        Some(users[0].name@)
    } else {
        user_name_of(users.drop_first(), id)
    }
}

/// The user name shown for a process with user id `user_id`.
pub open spec fn user_label(users: Seq<UserEntry>, user_id: Option<u32>) -> Seq<char> {
    match user_id {
        Some(id) => match user_name_of(users, id) {
            Some(name) => name,
            None => unknown_user(),
        },
        None => unknown_user(),
    }
}

/// The row shown for `sample`: the sample's values with its user named.
pub open spec fn row_of(users: Seq<UserEntry>, sample: ProcessSample, row: ProcessRow) -> bool {
    &&& row.pid == sample.pid
    &&& row.user@ == user_label(users, sample.user_id)
    &&& row.name@ == sample.name@
    &&& row.cpu_bits == sample.cpu_bits
    &&& row.memory == sample.memory
    &&& row.disk_read == sample.disk_read
    &&& row.disk_written == sample.disk_written
}

proof fn lemma_user_name_skip(users: Seq<UserEntry>, id: u32, i: int)
    requires
        0 <= i <= users.len(),
        forall|j: int| 0 <= j < i ==> users[j].id != id,
    ensures
        user_name_of(users, id) == user_name_of(users.skip(i), id),
    decreases i,
{
    if i > 0 {
        lemma_user_name_skip(users.drop_first(), id, i - 1);
        assert(users.drop_first().skip(i - 1) =~= users.skip(i));
    } else {
        assert(users.skip(0) =~= users);
    }
}

fn unknown_user_text() -> (s: String)
    ensures
        s@ == unknown_user(),
{
    proof { reveal_strlit("[Unknown]"); }
    let s = String::from_str("[Unknown]");
    assert(s@ =~= unknown_user());
    s
}

/// The user name shown for a process with user id `user_id`: the name of
/// the first user with that id, else `[Unknown]`.
pub fn resolve_user_name(users: &Vec<UserEntry>, user_id: Option<u32>) -> (s: String)
    ensures
        s@ == user_label(users@, user_id),
{
    match user_id {
        None => unknown_user_text(),
        Some(id) => {
            let mut i: usize = 0;
            while i < users.len()
                invariant
                    user_id == Some(id),
                    i <= users@.len(),
                    forall|j: int| 0 <= j < i ==> users@[j].id != id,
                decreases users@.len() - i,
            {
                if users[i].id == id {
                    let name = users[i].name.clone();
                    proof {
                        lemma_user_name_skip(users@, id, i as int);
                        let rest = users@.skip(i as int);
                        assert(rest.len() > 0 && rest[0] == users@[i as int]);
                        assert(user_name_of(rest, id) == Some(users@[i as int].name@));
                    }
                    return name;
                }
                i = i + 1;
            }
            proof {
                lemma_user_name_skip(users@, id, i as int);
            }
            unknown_user_text()
        },
    }
}

/// The rows of the process table for `samples`, in the same order, each
/// with its user named from `users`.
pub fn create_processes_data(samples: Vec<ProcessSample>, users: &Vec<UserEntry>) -> (rows: Vec<
    ProcessRow,
>)
    ensures
        rows@.len() == samples@.len(),
        forall|i: int| 0 <= i < rows@.len() ==> row_of(users@, samples@[i], #[trigger] rows@[i]),
{
    let ghost all = samples@;
    let mut rest = samples;
    let mut rows: Vec<ProcessRow> = Vec::new();
    while rest.len() > 0
        invariant
            rest@ == all.skip(rows@.len() as int),
            rows@.len() <= all.len(),
            forall|i: int| 0 <= i < rows@.len() ==> row_of(users@, all[i], #[trigger] rows@[i]),
        decreases rest@.len(),
    {
        let sample = rest.remove(0);
        let ghost done = rows@.len();
        assert(sample == all[done as int]);
        let user = resolve_user_name(users, sample.user_id);
        let row = ProcessRow {
            pid: sample.pid,
            user,
            name: sample.name,
            cpu_bits: sample.cpu_bits,
            memory: sample.memory,
            disk_read: sample.disk_read,
            disk_written: sample.disk_written,
        };
        rows.push(row);
        assert(rest@ =~= all.skip(rows@.len() as int));
    }
    rows
}

/// The row `a` is at most the row `b` in the order of the column `by`.
pub open spec fn key_le(by: SortBy, a: ProcessRow, b: ProcessRow) -> bool {
    match by {
        SortBy::Pid => a.pid <= b.pid,
        SortBy::User => lex_le(a.user@, b.user@),
        SortBy::Name => lex_le(a.name@, b.name@),
        SortBy::Cpu => cpu_rank(a.cpu_bits) <= cpu_rank(b.cpu_bits),
        SortBy::Memory => a.memory <= b.memory,
        SortBy::Io => a.disk_read <= b.disk_read,
    }
}

/// Any two rows are comparable in the order of a column.
pub proof fn lemma_key_total(by: SortBy, a: ProcessRow, b: ProcessRow)
    ensures
        key_le(by, a, b) || key_le(by, b, a),
{
    match by {
        SortBy::User => lemma_lex_total(a.user@, b.user@),
        SortBy::Name => lemma_lex_total(a.name@, b.name@),
        _ => {},
    }
}

/// The order of a column is transitive.
pub proof fn lemma_key_transitive(by: SortBy, a: ProcessRow, b: ProcessRow, c: ProcessRow)
    requires
        key_le(by, a, b),
        key_le(by, b, c),
    ensures
        key_le(by, a, c),
{
    match by {
        SortBy::User => lemma_lex_transitive(a.user@, b.user@, c.user@),
        SortBy::Name => lemma_lex_transitive(a.name@, b.name@, c.name@),
        _ => {},
    }
}

/// Whether the row `a` is at most the row `b` in the order of the column `by`.
pub fn row_key_le(by: SortBy, a: &ProcessRow, b: &ProcessRow) -> (r: bool)
    ensures
        r == key_le(by, *a, *b),
{
    match by {
        SortBy::Pid => a.pid <= b.pid,
        SortBy::User => text_le(&a.user, &b.user),
        SortBy::Name => text_le(&a.name, &b.name),
        SortBy::Cpu => cpu_rank_of(a.cpu_bits) <= cpu_rank_of(b.cpu_bits),
        SortBy::Memory => a.memory <= b.memory,
        SortBy::Io => a.disk_read <= b.disk_read,
    }
}

/// `r` is ordered from the largest to the smallest value of the column.
pub open spec fn sorted_desc(by: SortBy, r: Seq<ProcessRow>) -> bool {
    forall|i: int, j: int| 0 <= i < j < r.len() ==> key_le(by, #[trigger] r[j], #[trigger] r[i])
}

/// `p` lists distinct positions below `n`, `n` of them.
pub open spec fn is_index_permutation(p: Seq<int>, n: nat) -> bool {
    &&& p.len() == n
    &&& forall|i: int| 0 <= i < n ==> 0 <= #[trigger] p[i] < n
    &&& forall|i: int, j: int| 0 <= i < j < n ==> #[trigger] p[i] != #[trigger] p[j]
}

/// `r` is `s` rearranged by `p` (the row at `i` of `r` is the row at `p[i]`
/// of `s`), ordered from the largest to the smallest value of the column,
/// and rows of equal value keep the order they had in `s`.
pub open spec fn stable_desc_by(by: SortBy, s: Seq<ProcessRow>, r: Seq<ProcessRow>, p: Seq<int>) -> bool {
    &&& is_index_permutation(p, s.len())
    &&& r.len() == s.len()
    &&& forall|i: int| 0 <= i < r.len() ==> #[trigger] r[i] == s[p[i]]
    &&& sorted_desc(by, r)
    &&& forall|i: int, j: int|
        0 <= i < j < r.len() && key_le(by, #[trigger] r[i], #[trigger] r[j]) ==> p[i] < p[j]
}

/// `r` is the stable sort of `s` from the largest to the smallest value of
/// the column `by`.
pub open spec fn is_stable_sort_desc(by: SortBy, s: Seq<ProcessRow>, r: Seq<ProcessRow>) -> bool {
    exists|p: Seq<int>| stable_desc_by(by, s, r, p)
}

/// The order in which the table shows `s`: the stable sort from the largest
/// to the smallest value, reversed when the column is sorted ascending.
pub open spec fn is_table_order(by: SortBy, ascending: bool, s: Seq<ProcessRow>, r: Seq<ProcessRow>) -> bool {
    if ascending {
        is_stable_sort_desc(by, s, r.reverse())
    } else {
        is_stable_sort_desc(by, s, r)
    }
}

/// What holds of the rows sorted so far, while the rows of `s` from
/// position `k` on have been taken into `out` (their positions in `p`).
spec fn partial_sort(by: SortBy, s: Seq<ProcessRow>, out: Seq<ProcessRow>, p: Seq<int>, k: int) -> bool {
    &&& p.len() == out.len()
    &&& out.len() + k == s.len()
    &&& 0 <= k
    &&& forall|i: int| 0 <= i < p.len() ==> k <= #[trigger] p[i] < s.len()
    &&& forall|i: int, j: int| 0 <= i < j < p.len() ==> #[trigger] p[i] != #[trigger] p[j]
    &&& forall|i: int| 0 <= i < out.len() ==> #[trigger] out[i] == s[p[i]]
    &&& sorted_desc(by, out)
    &&& forall|i: int, j: int|
        0 <= i < j < out.len() && key_le(by, #[trigger] out[i], #[trigger] out[j]) ==> p[i] < p[j]
}

/// Inserting the row at `k - 1` of `s` at a position after all rows of
/// smaller value and before the first row of no larger value keeps the
/// partial sort.
proof fn lemma_insert_row(by: SortBy, s: Seq<ProcessRow>, out: Seq<ProcessRow>, p: Seq<int>, k: int, pos: int)
    requires
        partial_sort(by, s, out, p, k),
        k > 0,
        0 <= pos <= out.len(),
        forall|i: int| 0 <= i < pos ==> !key_le(by, #[trigger] out[i], s[k - 1]),
        pos < out.len() ==> key_le(by, out[pos], s[k - 1]),
    ensures
        partial_sort(by, s, out.insert(pos, s[k - 1]), p.insert(pos, k - 1), k - 1),
{
    let x = s[k - 1];
    let out2 = out.insert(pos, x);
    let p2 = p.insert(pos, k - 1);
    assert forall|i: int, j: int| 0 <= i < j < out2.len() implies key_le(by, #[trigger] out2[j], #[trigger] out2[i]) by {
        if j < pos {
        } else if j == pos {
            if i < pos {
                assert(!key_le(by, out[i], x));
                lemma_key_total(by, out[i], x);
            }
        } else if i < pos {
            assert(out2[j] == out[j - 1]);
            assert(key_le(by, out[j - 1], out[i]));
        } else if i == pos {
            assert(out2[j] == out[j - 1]);
            if j - 1 > pos {
                assert(key_le(by, out[j - 1], out[pos]));
                lemma_key_transitive(by, out[j - 1], out[pos], x);
            }
        } else {
            assert(out2[j] == out[j - 1]);
            assert(out2[i] == out[i - 1]);
        }
    }
    assert forall|i: int, j: int|
        0 <= i < j < out2.len() && key_le(by, #[trigger] out2[i], #[trigger] out2[j]) implies p2[i] < p2[j] by {
        if j < pos {
        } else if j == pos {
            if i < pos {
                assert(!key_le(by, out[i], x));
            }
        } else if i < pos {
            assert(out2[j] == out[j - 1]);
        } else if i == pos {
            assert(p2[j] == p[j - 1]);
        } else {
            assert(out2[j] == out[j - 1]);
            assert(out2[i] == out[i - 1]);
        }
    }
    assert forall|i: int, j: int| 0 <= i < j < p2.len() implies #[trigger] p2[i] != #[trigger] p2[j] by {
        if i < pos && j > pos {
            assert(p2[j] == p[j - 1]);
        } else if i > pos {
            assert(p2[j] == p[j - 1]);
            assert(p2[i] == p[i - 1]);
        } else if i == pos {
            assert(p2[j] == p[j - 1]);
        }
    }
    assert forall|i: int| 0 <= i < out2.len() implies #[trigger] out2[i] == s[p2[i]] by {
        if i > pos {
            assert(out2[i] == out[i - 1]);
        }
    }
    assert forall|i: int| 0 <= i < p2.len() implies k - 1 <= #[trigger] p2[i] < s.len() by {
        if i > pos {
            assert(p2[i] == p[i - 1]);
        }
    }
}

/// The stable sort of `rows` from the largest to the smallest value of the
/// column `by`.
pub fn sort_rows_desc(rows: Vec<ProcessRow>, by: SortBy) -> (sorted: Vec<ProcessRow>)
    ensures
        is_stable_sort_desc(by, rows@, sorted@),
{
    let ghost s = rows@;
    let mut rest = rows;
    let mut out: Vec<ProcessRow> = Vec::new();
    let ghost mut p: Seq<int> = Seq::empty();
    while rest.len() > 0
        invariant
            rest@ == s.take(rest@.len() as int),
            rest@.len() <= s.len(),
            partial_sort(by, s, out@, p, rest@.len() as int),
        decreases rest@.len(),
    {
        let ghost k = rest@.len() as int;
        let x = rest.pop().unwrap();
        assert(x == s[k - 1]);
        let mut pos: usize = 0;
        while pos < out.len() && !row_key_le(by, &out[pos], &x)
            invariant
                pos <= out@.len(),
                forall|i: int| 0 <= i < pos ==> !key_le(by, #[trigger] out@[i], x),
            decreases out@.len() - pos,
        {
            pos = pos + 1;
        }
        proof {
            lemma_insert_row(by, s, out@, p, k, pos as int);
            p = p.insert(pos as int, k - 1);
        }
        out.insert(pos, x);
        assert(rest@ =~= s.take(rest@.len() as int));
    }
    assert(is_index_permutation(p, s.len()));
    assert(stable_desc_by(by, s, out@, p));
    out
}

/// The rows of `v` in reverse order.
pub fn reverse_rows(v: Vec<ProcessRow>) -> (r: Vec<ProcessRow>)
    ensures
        r@ == v@.reverse(),
{
    let ghost s = v@;
    let mut rest = v;
    let mut out: Vec<ProcessRow> = Vec::new();
    while rest.len() > 0
        invariant
            rest@ == s.take(rest@.len() as int),
            rest@.len() + out@.len() == s.len(),
            forall|i: int| 0 <= i < out@.len() ==> #[trigger] out@[i] == s[s.len() - 1 - i],
        decreases rest@.len(),
    {
        let x = rest.pop().unwrap();
        out.push(x);
        assert(rest@ =~= s.take(rest@.len() as int));
    }
    assert(out@ =~= s.reverse());
    out
}

/// `rows` in the order in which the table shows them for the column `by`.
pub fn sort_rows(rows: Vec<ProcessRow>, by: SortBy, ascending: bool) -> (sorted: Vec<ProcessRow>)
    ensures
        is_table_order(by, ascending, rows@, sorted@),
{
    let desc = sort_rows_desc(rows, by);
    if ascending {
        let r = reverse_rows(desc);
        assert(r@.reverse() =~= desc@);
        r
    } else {
        desc
    }
}

} // verus!
