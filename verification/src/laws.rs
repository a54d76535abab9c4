//! Properties that hold across the operations of the monitor.

use vstd::prelude::*;
use crate::process::{
    ProcessRow, SortBy, is_index_permutation, is_stable_sort_desc, is_table_order, key_le,
    stable_desc_by,
};
use crate::order::{cpu_rank, lex_le};
use crate::screen::{
    column_of, column_title, direction_mark, disk_usage_label, header_title, memory_axis_label,
    memory_title,
};
use crate::text::{GIB, MIB, TIB, decimal, digit_char, human_readable, tenths_rounded};
use crate::state::{
    HISTORY_LEN, Key, State, key_outcome, next_row_allowed, next_row_index, previous_row_index,
    start_index, with_selected_row, with_sort_choice,
};

verus! {

/// Moving down never selects past the last row of a non-empty table.
pub proof fn law_next_row_stays_in_table(s: State, n: usize)
    requires
        s.processes_data@.len() > 0,
        next_row_allowed(s, n),
    ensures
        next_row_index(s, n) < s.processes_data@.len(),
{
}

/// Moving up never selects a row below the one selected.
pub proof fn law_previous_row_moves_up(s: State, n: usize, i: usize)
    requires
        s.selected == Some(i),
    ensures
        previous_row_index(s, n) <= i,
        i >= n ==> previous_row_index(s, n) == i - n,
{
}

/// Moving up `n` rows undoes moving down `n` rows when the move down was
/// not cut short at the last row.
pub proof fn law_previous_row_undoes_next_row(s: State, n: usize, i: usize)
    requires
        s.selected == Some(i),
        next_row_allowed(s, n),
        i + n <= s.processes_data@.len() - 1,
    ensures
        previous_row_index(with_selected_row(s, next_row_index(s, n)), n) == i,
{
}

/// Moving down `n` rows undoes moving up `n` rows when the move up did not
/// stop at the first row, below the last row.
pub proof fn law_next_row_undoes_previous_row(s: State, n: usize, i: usize)
    requires
        s.selected == Some(i),
        n <= i,
        i < s.processes_data@.len() - 1,
    ensures
        next_row_index(with_selected_row(s, previous_row_index(s, n)), n) == i,
{
}

/// Choosing the current sort column twice restores the state.
pub proof fn law_sort_choice_twice_restores(s: State)
    ensures
        with_sort_choice(with_sort_choice(s, s.sort_by), s.sort_by) == s,
{
}

/// Choosing a column makes it the sort column; choosing another column
/// than the current one keeps the direction.
pub proof fn law_sort_choice_sets_column(s: State, by: crate::process::SortBy)
    ensures
        with_sort_choice(s, by).sort_by == by,
        s.sort_by != by ==> with_sort_choice(s, by).sort_ascending == s.sort_ascending,
        s.sort_by == by ==> with_sort_choice(s, by).sort_ascending == !s.sort_ascending,
{
}

/// The plots never start past their last sample: the window that a plot
/// shows holds at least one sample, all of them where they fit.
pub proof fn law_plot_window_is_not_empty(len: int, width: u16, addition: usize)
    requires
        len >= 1,
    ensures
        0 <= start_index(len, width, addition) < len,
        len <= 2 * (width - addition) ==> start_index(len, width, addition) == 0,
{
}

/// Every key keeps the plot histories and the scrollbar's length as they
/// were, so the state stays well formed.
pub proof fn law_keys_keep_wf(s: State, key: Key)
    requires
        s.wf(),
    ensures
        key_outcome(s, key).0.wf(),
{
}

/// Where the scrollbar stands at the selected row, it still does after any
/// key.
pub proof fn law_keys_keep_scrollbar_on_selection(s: State, key: Key)
    requires
        s.selected == Some(s.scroll_position),
    ensures
        key_outcome(s, key).0.selected == Some(key_outcome(s, key).0.scroll_position),
{
}

/// A rearrangement by distinct positions keeps the rows and how often
/// each occurs.
proof fn lemma_rearranged_same_rows(s: Seq<ProcessRow>, r: Seq<ProcessRow>, p: Seq<int>)
    requires
        r.len() == s.len(),
        p.len() == r.len(),
        forall|i: int| 0 <= i < r.len() ==> 0 <= #[trigger] p[i] < s.len(),
        forall|i: int, j: int| 0 <= i < j < r.len() ==> #[trigger] p[i] != #[trigger] p[j],
        forall|i: int| 0 <= i < r.len() ==> #[trigger] r[i] == s[p[i]],
    ensures
        r.to_multiset() == s.to_multiset(),
    decreases r.len(),
{
    broadcast use vstd::multiset::group_multiset_axioms;
    broadcast use vstd::seq_lib::group_to_multiset_ensures;

    if r.len() == 0 {
        assert(r =~= Seq::<ProcessRow>::empty());
        assert(s =~= Seq::<ProcessRow>::empty());
    } else {
        let n = r.len() - 1;
        let k = p[n];
        let r2 = r.drop_last();
        let s2 = s.remove(k);
        let p2 = Seq::new(n as nat, |i: int| if p[i] < k { p[i] } else { p[i] - 1 });
        assert forall|i: int| 0 <= i < r2.len() implies 0 <= #[trigger] p2[i] < s2.len() by {
            assert(p[i] != p[n]);
        }
        assert forall|i: int, j: int| 0 <= i < j < r2.len() implies #[trigger] p2[i] != #[trigger] p2[j] by {
            assert(p[i] != p[n]);
            assert(p[j] != p[n]);
            assert(p[i] != p[j]);
        }
        assert forall|i: int| 0 <= i < r2.len() implies #[trigger] r2[i] == s2[p2[i]] by {
            assert(p[i] != p[n]);
        }
        lemma_rearranged_same_rows(s2, r2, p2);
        assert(r =~= r2.push(r[n]));
        vstd::seq_lib::to_multiset_build(r2, r[n]);
        vstd::seq_lib::to_multiset_remove(s, k);
        vstd::seq_lib::to_multiset_contains(s, s[k]);
        assert(s.to_multiset() =~= s2.to_multiset().insert(s[k]));
    }
}

/// Ordering the table keeps its rows: the same rows, each as often.
pub proof fn law_table_order_keeps_rows(by: SortBy, ascending: bool, s: Seq<ProcessRow>, r: Seq<ProcessRow>)
    requires
        is_table_order(by, ascending, s, r),
    ensures
        r.len() == s.len(),
        r.to_multiset() == s.to_multiset(),
{
    let d = if ascending { r.reverse() } else { r };
    let p = choose|p: Seq<int>| stable_desc_by(by, s, d, p);
    lemma_rearranged_same_rows(s, d, p);
    if ascending {
        r.lemma_reverse_to_multiset();
    }
}

/// Every position below `n` occurs in an index permutation.
proof fn lemma_index_permutation_onto(p: Seq<int>, n: nat, v: int)
    requires
        is_index_permutation(p, n),
        0 <= v < n,
    ensures
        exists|i: int| 0 <= i < n && p[i] == v,
{
    assert forall|i: int, j: int| 0 <= i < p.len() && 0 <= j < p.len() && i != j implies p[i]
        != p[j] by {
        if i < j {
            assert(p[i] != p[j]);
        } else {
            assert(p[j] != p[i]);
        }
    }
    assert(p.no_duplicates());
    p.unique_seq_to_set();
    vstd::set_lib::lemma_int_range(0, n as int);
    vstd::seq_lib::seq_to_set_is_finite(p);
    assert(p.to_set().subset_of(vstd::set_lib::set_int_range(0, n as int))) by {
        assert forall|x: int| p.to_set().contains(x) implies vstd::set_lib::set_int_range(
            0,
            n as int,
        ).contains(x) by {
            let i = choose|i: int| 0 <= i < p.len() && p[i] == x;
        }
    }
    vstd::set_lib::lemma_subset_equality(p.to_set(), vstd::set_lib::set_int_range(0, n as int));
    assert(vstd::set_lib::set_int_range(0, n as int).contains(v));
    assert(p.to_set().contains(v));
}

/// In a stable sort the row from position `a` of `s` comes before the row
/// from position `b`: its value is no smaller, and with equal values it
/// came first.
spec fn comes_before(by: SortBy, s: Seq<ProcessRow>, a: int, b: int) -> bool {
    &&& key_le(by, s[b], s[a])
    &&& key_le(by, s[a], s[b]) ==> a < b
}

/// The positions of two stable sorts of `s` agree below `i`.
proof fn lemma_stable_sorts_agree(
    by: SortBy,
    s: Seq<ProcessRow>,
    r1: Seq<ProcessRow>,
    p1: Seq<int>,
    r2: Seq<ProcessRow>,
    p2: Seq<int>,
    i: int,
)
    requires
        stable_desc_by(by, s, r1, p1),
        stable_desc_by(by, s, r2, p2),
        0 <= i <= s.len(),
    ensures
        forall|k: int| 0 <= k < i ==> p1[k] == p2[k],
    decreases i,
{
    if i > 0 {
        lemma_stable_sorts_agree(by, s, r1, p1, r2, p2, i - 1);
        let m = i - 1;
        let a = p1[m];
        let b = p2[m];
        if a != b {
            lemma_index_permutation_onto(p1, s.len(), b);
            let j = choose|j: int| 0 <= j < s.len() && p1[j] == b;
            lemma_index_permutation_onto(p2, s.len(), a);
            let j2 = choose|j: int| 0 <= j < s.len() && p2[j] == a;
            if j < m {
                assert(p2[j] == b);
                assert(p2[j] != p2[m]);
            }
            if j2 < m {
                assert(p1[j2] == a);
                assert(p1[j2] != p1[m]);
            }
            assert(j > m && j2 > m);
            assert(r1[j] == s[b] && r1[m] == s[a]);
            assert(key_le(by, r1[j], r1[m]));
            assert(comes_before(by, s, a, b));
            assert(r2[j2] == s[a] && r2[m] == s[b]);
            assert(key_le(by, r2[j2], r2[m]));
            assert(comes_before(by, s, b, a));
        }
    }
}

/// A stable sort is unique: two stable sorts of the same rows by the same
/// column are equal.
pub proof fn law_stable_sort_is_unique(by: SortBy, s: Seq<ProcessRow>, r1: Seq<ProcessRow>, r2: Seq<ProcessRow>)
    requires
        is_stable_sort_desc(by, s, r1),
        is_stable_sort_desc(by, s, r2),
    ensures
        r1 == r2,
{
    let p1 = choose|p: Seq<int>| stable_desc_by(by, s, r1, p);
    let p2 = choose|p: Seq<int>| stable_desc_by(by, s, r2, p);
    lemma_stable_sorts_agree(by, s, r1, p1, r2, p2, s.len() as int);
    assert forall|i: int| 0 <= i < r1.len() implies r1[i] == r2[i] by {
        assert(p1[i] == p2[i]);
    }
    assert(r1 =~= r2);
}

/// The table order of rows is unique: it is fixed by the rows, the sort
/// column and the direction.
pub proof fn law_table_order_is_unique(
    by: SortBy,
    ascending: bool,
    s: Seq<ProcessRow>,
    r1: Seq<ProcessRow>,
    r2: Seq<ProcessRow>,
)
    requires
        is_table_order(by, ascending, s, r1),
        is_table_order(by, ascending, s, r2),
    ensures
        r1 == r2,
{
    if ascending {
        let (d1, d2) = (r1.reverse(), r2.reverse());
        law_stable_sort_is_unique(by, s, d1, d2);
        assert(r1.len() == r2.len());
        assert forall|i: int| 0 <= i < r1.len() implies r1[i] == r2[i] by {
            assert(d1[r1.len() - 1 - i] == r1[i]);
            assert(d2[r2.len() - 1 - i] == r2[i]);
        }
        assert(r1 =~= r2);
    } else {
        law_stable_sort_is_unique(by, s, r1, r2);
    }
}

/// Each column orders rows by the value it shows: the pid, the user name,
/// the process name, the CPU usage, the memory, and the bytes read (the
/// bytes written play no part).
pub proof fn law_column_orders(a: ProcessRow, b: ProcessRow)
    ensures
        key_le(SortBy::Pid, a, b) <==> a.pid <= b.pid,
        key_le(SortBy::User, a, b) <==> lex_le(a.user@, b.user@),
        key_le(SortBy::Name, a, b) <==> lex_le(a.name@, b.name@),
        key_le(SortBy::Cpu, a, b) <==> cpu_rank(a.cpu_bits) <= cpu_rank(b.cpu_bits),
        key_le(SortBy::Memory, a, b) <==> a.memory <= b.memory,
        key_le(SortBy::Io, a, b) <==> a.disk_read <= b.disk_read,
{
}

/// The value of the sort column of `lo` is at most that of `hi`.
pub open spec fn column_value_le(by: SortBy, lo: ProcessRow, hi: ProcessRow) -> bool {
    match by {
        SortBy::Pid => lo.pid <= hi.pid,
        SortBy::User => lex_le(lo.user@, hi.user@),
        SortBy::Name => lex_le(lo.name@, hi.name@),
        SortBy::Cpu => cpu_rank(lo.cpu_bits) <= cpu_rank(hi.cpu_bits),
        SortBy::Memory => lo.memory <= hi.memory,
        SortBy::Io => lo.disk_read <= hi.disk_read,
    }
}

/// The table lists the rows by the value of the sort column: from the
/// largest down, or from the smallest up when ascending.
#[verifier::rlimit(30)]
pub proof fn law_table_order_follows_column(
    by: SortBy,
    ascending: bool,
    s: Seq<ProcessRow>,
    r: Seq<ProcessRow>,
)
    requires
        is_table_order(by, ascending, s, r),
    ensures
        forall|i: int, j: int|
            0 <= i < j < r.len() ==> if ascending {
                column_value_le(by, #[trigger] r[i], #[trigger] r[j])
            } else {
                column_value_le(by, r[j], r[i])
            },
{
    let d = if ascending { r.reverse() } else { r };
    let p = choose|p: Seq<int>| stable_desc_by(by, s, d, p);
    assert(d.len() == r.len());
    assert forall|i: int, j: int| 0 <= i < j < r.len() implies if ascending {
        column_value_le(by, #[trigger] r[i], #[trigger] r[j])
    } else {
        column_value_le(by, r[j], r[i])
    } by {
        if ascending {
            let n = r.len();
            assert(d[n - 1 - i] == r[i]);
            assert(d[n - 1 - j] == r[j]);
            assert(key_le(by, d[n - 1 - i], d[n - 1 - j]));
        } else {
            assert(key_le(by, d[j], d[i]));
        }
    }
}

/// The CPU order is the total order of `f32` values: non-negative values
/// by their bits, every negative value below every non-negative one, and
/// negative values by their bits reversed.
pub proof fn law_cpu_rank_order(a: u32, b: u32)
    ensures
        a < 0x8000_0000 && b < 0x8000_0000 ==> (cpu_rank(a) <= cpu_rank(b) <==> a <= b),
        a >= 0x8000_0000 && b < 0x8000_0000 ==> cpu_rank(a) < cpu_rank(b),
        a >= 0x8000_0000 && b >= 0x8000_0000 ==> (cpu_rank(a) <= cpu_rank(b) <==> b <= a),
{
}

/// Texts that differ in their first character are ordered by it, and a
/// text comes no later than any text that extends it.
pub proof fn law_text_order(a: Seq<char>, b: Seq<char>)
    ensures
        a.len() > 0 && b.len() > 0 && (a[0] as int) < (b[0] as int) ==> lex_le(a, b) && !lex_le(
            b,
            a,
        ),
        a.is_prefix_of(b) ==> lex_le(a, b),
    decreases a.len(),
{
    if a.len() > 0 && a.is_prefix_of(b) {
        assert(a.drop_first().is_prefix_of(b.drop_first())) by {
            assert forall|k: int| 0 <= k < a.drop_first().len() implies a.drop_first()[k]
                == b.drop_first()[k] by {
                assert(a[k + 1] == b[k + 1]);
            }
        }
        law_text_order(a.drop_first(), b.drop_first());
        assert(a[0] == b[0]);
    }
}

/// The keys `1` to `6` choose the table's columns in order: PID, user,
/// name, CPU, memory, disk; the chosen column is the one at `c - '1'`.
pub proof fn law_digit_keys_choose_columns(s: State)
    ensures
        key_outcome(s, Key::Char('1')).0.sort_by == SortBy::Pid,
        key_outcome(s, Key::Char('2')).0.sort_by == SortBy::User,
        key_outcome(s, Key::Char('3')).0.sort_by == SortBy::Name,
        key_outcome(s, Key::Char('4')).0.sort_by == SortBy::Cpu,
        key_outcome(s, Key::Char('5')).0.sort_by == SortBy::Memory,
        key_outcome(s, Key::Char('6')).0.sort_by == SortBy::Io,
        forall|c: char|
            '1' <= c <= '6' ==> column_of(#[trigger] key_outcome(s, Key::Char(c)).0.sort_by) == (c
                as int) - ('1' as int),
{
    assert forall|c: char| '1' <= c <= '6' implies column_of(
        #[trigger] key_outcome(s, Key::Char(c)).0.sort_by,
    ) == (c as int) - ('1' as int) by {
        assert(c == '1' || c == '2' || c == '3' || c == '4' || c == '5' || c == '6');
    }
}

/// The column that shows the sort value is the one titled by it.
pub proof fn law_sort_column_titles()
    ensures
        column_title(column_of(SortBy::Pid)) == "PID"@,
        column_title(column_of(SortBy::User)) == "User"@,
        column_title(column_of(SortBy::Name)) == "Name"@,
        column_title(column_of(SortBy::Cpu)) == "CPU%"@,
        column_title(column_of(SortBy::Memory)) == "MEM"@,
        column_title(column_of(SortBy::Io)) == "Disk R/W"@,
{
}

/// The header of the sort column carries the direction mark after its
/// title; every other header is its title alone.
pub proof fn law_header_marks_sort_column(by: SortBy, ascending: bool, col: int)
    ensures
        header_title(column_of(by), by, ascending) == column_title(column_of(by)) + direction_mark(
            ascending,
        ),
        col != column_of(by) ==> header_title(col, by, ascending) == column_title(col),
{
}

/// The memory title starts with the used memory and then the total, and
/// goes on with the swap figures: the used memory alone gives the first
/// figure, whatever the other arguments.
pub proof fn law_memory_title_figures(used: nat, total: nat, used_swap: nat, total_swap: nat)
    ensures
        ("Mem usage:"@ + human_readable(used) + "/"@ + human_readable(total)).is_prefix_of(
            memory_title(used, total, used_swap, total_swap),
        ),
        memory_title(used, total, used_swap, total_swap).skip(
            ("Mem usage:"@ + human_readable(used) + "/"@ + human_readable(total)).len() as int,
        ) == "; Swap:"@ + human_readable(used_swap) + "/"@ + human_readable(total_swap),
{
    let head = "Mem usage:"@ + human_readable(used) + "/"@ + human_readable(total);
    let tail = "; Swap:"@ + human_readable(used_swap) + "/"@ + human_readable(total_swap);
    let t = memory_title(used, total, used_swap, total_swap);
    assert(t =~= head + tail);
    assert(t.skip(head.len() as int) =~= tail);
}

/// Moving down from a row of the table goes `n` rows down, or to the last
/// row where fewer are left: never up, never past the last row.
pub proof fn law_next_row_moves_down(s: State, n: usize, i: usize)
    requires
        s.selected == Some(i),
        i < s.processes_data@.len(),
        next_row_allowed(s, n),
    ensures
        i <= next_row_index(s, n) <= s.processes_data@.len() - 1,
        next_row_index(s, n) <= i + n,
        next_row_index(s, n) == i + n || next_row_index(s, n) == s.processes_data@.len() - 1,
{
}

/// Moving up from a row goes `n` rows up, or to the first row where fewer
/// are above: never down.
pub proof fn law_previous_row_moves_up_by(s: State, n: usize, i: usize)
    requires
        s.selected == Some(i),
    ensures
        previous_row_index(s, n) <= i,
        previous_row_index(s, n) >= i - n,
        previous_row_index(s, n) == i - n || previous_row_index(s, n) == 0,
{
}

/// The number that a text of decimal digits stands for.
pub open spec fn digits_value(s: Seq<char>) -> int
    decreases s.len(),
{
    if s.len() == 0 {
        0
    } else {
        10 * digits_value(s.drop_last()) + ((s.last() as int) - ('0' as int))
    }
}

proof fn lemma_digit_value(d: nat)
    requires
        d < 10,
    ensures
        (digit_char(d) as int) - ('0' as int) == d,
        '0' <= digit_char(d) <= '9',
        d > 0 ==> digit_char(d) != '0',
{
}

/// The decimal notation of `n` is made of digits, starts with a digit
/// other than `0` unless it is `0` itself, and stands for `n`.
pub proof fn law_decimal_stands_for_number(n: nat)
    ensures
        decimal(n).len() > 0,
        forall|k: int| 0 <= k < decimal(n).len() ==> '0' <= #[trigger] decimal(n)[k] <= '9',
        n > 0 ==> decimal(n)[0] != '0',
        digits_value(decimal(n)) == n,
    decreases n,
{
    lemma_digit_value(n % 10);
    if n < 10 {
        assert(decimal(n).drop_last() =~= Seq::<char>::empty());
        assert(digits_value(decimal(n)) == 10 * digits_value(Seq::<char>::empty()) + ((
        digit_char(n) as int) - ('0' as int)));
    } else {
        law_decimal_stands_for_number(n / 10);
        let d = decimal(n);
        assert(d.drop_last() =~= decimal(n / 10));
        assert(d.last() == digit_char(n % 10));
        assert(digits_value(d) == 10 * digits_value(decimal(n / 10)) + ((digit_char(n % 10) as int)
            - ('0' as int)));
        assert(n == 10 * (n / 10) + n % 10);
        assert forall|k: int| 0 <= k < d.len() implies '0' <= #[trigger] d[k] <= '9' by {
            if k < d.len() - 1 {
                assert(d[k] == decimal(n / 10)[k]);
            }
        }
    }
}

/// The unit of a human-readable size follows the size's magnitude, and
/// the number before it counts whole units of that size (tenths for `G`).
pub proof fn law_human_readable_units(bytes: nat)
    ensures
        bytes < 10240 ==> human_readable(bytes) == decimal(bytes),
        10240 <= bytes < 10 * MIB ==> human_readable(bytes).last() == 'K'
            && human_readable(bytes).drop_last() == decimal(bytes / 1024),
        10 * MIB <= bytes < 10 * GIB ==> human_readable(bytes).last() == 'M'
            && human_readable(bytes).drop_last() == decimal(bytes / 1048576),
        10 * GIB <= bytes < 10 * TIB ==> human_readable(bytes).last() == 'G',
        10 * TIB <= bytes ==> human_readable(bytes).last() == 'T'
            && human_readable(bytes).drop_last() == decimal(bytes / 1099511627776),
{
}

/// Rounding to tenths gives the nearest count of tenths: no more than
/// half a tenth from the exact value.
pub proof fn law_tenths_are_nearest(num: nat, den: nat)
    requires
        den > 0,
    ensures
        (2 * tenths_rounded(num, den) - 1) * den <= 2 * (10 * num),
        2 * (10 * num) <= (2 * tenths_rounded(num, den) + 1) * den,
{
    let q = (num * 10) / den;
    let r = (num * 10) % den;
    assert(num * 10 == q * den + r && 0 <= r < den) by (nonlinear_arith)
        requires
            den > 0,
            q == (num * 10) / den,
            r == (num * 10) % den,
    ;
    let t = tenths_rounded(num, den);
    if t == q + 1 {
        assert((2 * t - 1) * den == 2 * (q * den) + den) by (nonlinear_arith)
            requires
                t == q + 1,
        ;
        assert((2 * t + 1) * den == 2 * (q * den) + 3 * den) by (nonlinear_arith)
            requires
                t == q + 1,
        ;
    } else {
        assert((2 * t - 1) * den == 2 * (q * den) - den) by (nonlinear_arith)
            requires
                t == q,
        ;
        assert((2 * t + 1) * den == 2 * (q * den) + den) by (nonlinear_arith)
            requires
                t == q,
        ;
    }
}

/// The disk column shows the bytes read before the slash and the bytes
/// written after it.
pub proof fn law_disk_usage_parts(read: nat, written: nat)
    ensures
        disk_usage_label(read, written).take(human_readable(read).len() as int) == human_readable(
            read,
        ),
        disk_usage_label(read, written)[human_readable(read).len() as int] == '/',
        disk_usage_label(read, written).skip(human_readable(read).len() + 1int) == human_readable(
            written,
        ),
{
    let a = human_readable(read);
    let l = disk_usage_label(read, written);
    assert(l.take(a.len() as int) =~= a);
    assert(l.skip(a.len() + 1int) =~= human_readable(written));
}

/// The memory axis starts at `0` and ends at the total, with a quarter, a
/// third and a half of it between.
pub proof fn law_memory_axis_ends(total: nat)
    ensures
        memory_axis_label(total, 0) == seq!['0'],
        memory_axis_label(total, 1) == human_readable(total / 4),
        memory_axis_label(total, 2) == human_readable(total / 3),
        memory_axis_label(total, 3) == human_readable(total / 2),
        memory_axis_label(total, 4) == human_readable(total),
{
    assert(total / 1 == total);
}

/// The plot histories keep `HISTORY_LEN` samples.
pub proof fn law_history_length(s: State)
    requires
        s.wf(),
    ensures
        s.cpu_usage_all@.len() == HISTORY_LEN,
        s.mem_usage_all@.len() == HISTORY_LEN,
        s.cpu_usage_all@.last().0 == s.plot_x,
        s.mem_usage_all@.last().0 == s.plot_x,
{
}

} // verus!
