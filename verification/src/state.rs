//! The monitor's state: the plot histories, the process table with its
//! selection, and the decisions taken on each key.

use vstd::prelude::*;
use crate::process::{ProcessRow, SortBy, is_table_order, sort_rows};

verus! {

/// How many samples each plot keeps.
pub const HISTORY_LEN: usize = 200;

/// Whether the kill confirmation is shown.
#[derive(Clone, Copy, Debug, PartialEq, Eq, Structural)]
pub enum Mode {
    Normal,
    Kill,
}

/// A key press, as far as the monitor tells keys apart.
#[derive(Clone, Copy, Debug, PartialEq, Eq, Structural)]
pub enum Key {
    Char(char),
    Up,
    Down,
    PageUp,
    PageDown,
    Home,
    End,
    Other,
}

/// What the caller has to do after a key.
#[derive(Clone, Copy, Debug, PartialEq, Eq, Structural)]
pub enum Action {
    /// Go on with the next frame.
    Continue,
    /// Leave the monitor.
    Quit,
    /// Kill the process with this pid, then go on.
    Kill(u32),
}

/// The monitor's state.
///
/// A plot sample is its x coordinate (the refresh count, starting at the
/// history length less one) and its value: the bits of the `f32` CPU usage
/// in percent, or the used memory in bytes.
pub struct State {
    pub mode: Mode,
    pub paused: bool,
    pub sort_by: SortBy,
    pub sort_ascending: bool,
    pub plot_x: u64,
    pub cpu_usage_all: Vec<(u64, u32)>,
    pub mem_usage_all: Vec<(u64, u64)>,
    /// The selected row of the table, as the table widget keeps it.
    pub selected: Option<usize>,
    /// The first row the table widget shows.
    pub table_offset: usize,
    /// The position of the table's scrollbar.
    pub scroll_position: usize,
    /// The number of rows the table's scrollbar spans.
    pub scroll_content_length: usize,
    pub processes_data: Vec<ProcessRow>,
    pub deb_show: bool,
}

/// The position that `next_row(n)` selects.
pub open spec fn next_row_index(s: State, n: usize) -> usize {
    match s.selected {
        Some(i) => if i + n >= s.processes_data@.len() - 1 {
            (s.processes_data@.len() - 1) as usize
        } else {
            (i + n) as usize
        },
        None => 0,
    }
}

/// The position that `previous_row(n)` selects.
pub open spec fn previous_row_index(s: State, n: usize) -> usize {
    match s.selected {
        Some(i) => if i >= n {
            (i - n) as usize
        } else {
            0
        },
        None => 0,
    }
}

/// `s` with the row `row` selected and the scrollbar moved to it.
pub open spec fn with_selected_row(s: State, row: usize) -> State {
    State { selected: Some(row), scroll_position: row, ..s }
}

/// `s` after choosing the sort column `by`: choosing the current column
/// again flips the direction, another column keeps the direction.
pub open spec fn with_sort_choice(s: State, by: SortBy) -> State {
    if s.sort_by == by {
        State { sort_ascending: !s.sort_ascending, ..s }
    } else {
        State { sort_by: by, ..s }
    }
}

/// The row position that the selection stands for: the selected row, or
/// the first one when nothing is selected.
pub open spec fn selection_index(s: State) -> int {
    match s.selected {
        Some(i) => i as int,
        None => 0,
    }
}

/// The pid of the process the selection stands for.
pub open spec fn selected_pid(s: State) -> u32 {
    s.processes_data@[selection_index(s)].pid
}

/// `idx` is the position of the first row with pid `pid`, or 0 where no
/// row has it.
pub open spec fn first_pid_position(rows: Seq<ProcessRow>, pid: u32, idx: int) -> bool {
    if exists|i: int| 0 <= i < rows.len() && #[trigger] rows[i].pid == pid {
        &&& 0 <= idx < rows.len()
        &&& rows[idx].pid == pid
        &&& forall|j: int| 0 <= j < idx ==> #[trigger] rows[j].pid != pid
    } else {
        idx == 0
    }
}

/// The first plot sample that fits a plot of `width` columns, of which
/// `addition` are taken by borders, axis and labels: each column shows two
/// samples, so with `w` columns for data the last `2 * w` samples are
/// shown (at least one), or all of them where they fit.
pub open spec fn start_index(len: int, width: u16, addition: usize) -> int {
    let w = 2 * (if width >= addition { width - addition } else { 0 });
    if len < w {
        0
    } else {
        len - (if w < 1 {
            1
        } else {
            w
        })
    }
}

/// The characters that choose a sort column, in column order.
pub open spec fn sort_key_column(c: char) -> Option<SortBy> {
    if c == '1' {
        Some(SortBy::Pid)
    } else if c == '2' {
        Some(SortBy::User)
    } else if c == '3' {
        Some(SortBy::Name)
    } else if c == '4' {
        Some(SortBy::Cpu)
    } else if c == '5' {
        Some(SortBy::Memory)
    } else if c == '6' {
        Some(SortBy::Io)
    } else {
        None
    }
}

/// What `s` must satisfy for `key` to be handled: moving down needs rows
/// to move in, the last row must exist for `End`, and confirming a kill
/// needs the selected row.
pub open spec fn key_allowed(s: State, key: Key) -> bool {
    match key {
        Key::Down => next_row_allowed(s, 1),
        Key::PageDown => next_row_allowed(s, 10),
        Key::End => s.processes_data@.len() > 0,
        Key::Char(c) => (c == 'y' && s.mode == Mode::Kill) ==> 0 <= selection_index(s)
            < s.processes_data@.len(),
        _ => true,
    }
}

/// What `next_row(n)` needs: with a selection, rows to move in and no
/// overflow of the target position.
pub open spec fn next_row_allowed(s: State, n: usize) -> bool {
    s.selected matches Some(i) ==> s.processes_data@.len() > 0 && i + n <= usize::MAX
}

/// The state after `key`, and what the caller has to do.
pub open spec fn key_outcome(s: State, key: Key) -> (State, Action) {
    match key {
        Key::Char(c) => if c == 'q' {
            (s, Action::Quit)
        } else if c == ' ' {
            (State { paused: !s.paused, ..s }, Action::Continue)
        } else if sort_key_column(c) is Some {
            (with_sort_choice(s, sort_key_column(c)->0), Action::Continue)
        } else if c == 'k' {
            (State { mode: Mode::Kill, ..s }, Action::Continue)
        } else if c == 'y' {
            if s.mode == Mode::Kill {
                (State { mode: Mode::Normal, ..s }, Action::Kill(selected_pid(s)))
            } else {
                (s, Action::Continue)
            }
        } else if c == 'n' {
            (State { mode: Mode::Normal, ..s }, Action::Continue)
        } else if c == 'd' {
            (State { deb_show: !s.deb_show, ..s }, Action::Continue)
        } else {
            (s, Action::Continue)
        },
        Key::Up => (with_selected_row(s, previous_row_index(s, 1)), Action::Continue),
        Key::Down => (with_selected_row(s, next_row_index(s, 1)), Action::Continue),
        Key::PageUp => (with_selected_row(s, previous_row_index(s, 10)), Action::Continue),
        Key::PageDown => (with_selected_row(s, next_row_index(s, 10)), Action::Continue),
        Key::Home => (with_selected_row(s, 0), Action::Continue),
        Key::End => (
            with_selected_row(s, (s.processes_data@.len() - 1) as usize),
            Action::Continue,
        ),
        Key::Other => (s, Action::Continue),
    }
}

impl State {
    /// The plot histories hold `HISTORY_LEN` samples with consecutive x
    /// coordinates ending at `plot_x`, and the scrollbar spans the table.
    pub open spec fn wf(&self) -> bool {
        &&& self.cpu_usage_all@.len() == HISTORY_LEN
        &&& self.mem_usage_all@.len() == HISTORY_LEN
        &&& self.plot_x >= HISTORY_LEN - 1
        &&& forall|i: int|
            0 <= i < HISTORY_LEN ==> (#[trigger] self.cpu_usage_all@[i]).0 == self.plot_x - (
            HISTORY_LEN - 1) + i
        &&& forall|i: int|
            0 <= i < HISTORY_LEN ==> (#[trigger] self.mem_usage_all@[i]).0 == self.plot_x - (
            HISTORY_LEN - 1) + i
        &&& self.scroll_content_length == self.processes_data@.len()
    }

    /// The state at start: both plots hold zero samples at x from 0 to
    /// `HISTORY_LEN - 1`, the table shows `rows` as given with the first
    /// row selected, sorted by CPU from the largest value down.
    pub fn new(rows: Vec<ProcessRow>) -> (s: State)
        ensures
            s.wf(),
            s.mode == Mode::Normal,
            !s.paused,
            s.plot_x == HISTORY_LEN - 1,
            s.sort_by == SortBy::Cpu,
            !s.sort_ascending,
            forall|i: int| 0 <= i < HISTORY_LEN ==> #[trigger] s.cpu_usage_all@[i] == (i as u64, 0u32),
            forall|i: int| 0 <= i < HISTORY_LEN ==> #[trigger] s.mem_usage_all@[i] == (i as u64, 0u64),
            s.selected == Some(0usize),
            s.table_offset == 0,
            s.scroll_position == 0,
            s.processes_data@ == rows@,
            !s.deb_show,
    {
        let mut cpu: Vec<(u64, u32)> = Vec::new();
        let mut mem: Vec<(u64, u64)> = Vec::new();
        let mut v: u64 = 0;
        while v < 200
            invariant
                v <= 200,
                cpu@.len() == v,
                mem@.len() == v,
                forall|i: int| 0 <= i < v ==> #[trigger] cpu@[i] == (i as u64, 0u32),
                forall|i: int| 0 <= i < v ==> #[trigger] mem@[i] == (i as u64, 0u64),
            decreases 200 - v,
        {
            cpu.push((v, 0));
            mem.push((v, 0));
            v = v + 1;
        }
        let len = rows.len();
        State {
            mode: Mode::Normal,
            paused: false,
            sort_by: SortBy::Cpu,
            sort_ascending: false,
            plot_x: 199,
            cpu_usage_all: cpu,
            mem_usage_all: mem,
            selected: Some(0),
            table_offset: 0,
            scroll_position: 0,
            scroll_content_length: len,
            processes_data: rows,
            deb_show: false,
        }
    }

    /// The pid of the selected process (of the first row when nothing is
    /// selected); the caller looks the process up by it.
    pub fn get_selected_process(&self) -> (pid: u32)
        requires
            0 <= selection_index(*self) < self.processes_data@.len(),
        ensures
            pid == selected_pid(*self),
    {
        let idx = match self.selected {
            Some(i) => i,
            None => 0,
        };
        self.processes_data[idx].pid
    }

    /// Orders the table by the sort column and direction.
    fn sort_process_data(&mut self)
        ensures
            is_table_order(
                old(self).sort_by,
                old(self).sort_ascending,
                old(self).processes_data@,
                final(self).processes_data@,
            ),
            *final(self) == (State { processes_data: final(self).processes_data, ..*old(self) }),
    {
        let mut rows: Vec<ProcessRow> = Vec::new();
        std::mem::swap(&mut rows, &mut self.processes_data);
        let mut sorted = sort_rows(rows, self.sort_by, self.sort_ascending);
        std::mem::swap(&mut sorted, &mut self.processes_data);
    }

    /// Takes a new sample unless paused: both plots drop their oldest
    /// sample and append one at the next x coordinate, the table takes
    /// `rows` in its sort order, and the selection follows the process
    /// that was selected (to the first row where it is gone).
    pub fn refresh(&mut self, cpu_usage_bits: u32, used_memory: u64, rows: Vec<ProcessRow>)
        requires
            !old(self).paused ==> (old(self).selected matches Some(i) && i
                < old(self).processes_data@.len()),
            !old(self).paused ==> old(self).plot_x < u64::MAX,
            !old(self).paused ==> old(self).cpu_usage_all@.len() > 0,
            !old(self).paused ==> old(self).mem_usage_all@.len() > 0,
        ensures
            old(self).wf() ==> final(self).wf(),
            old(self).paused ==> *final(self) == *old(self),
            !old(self).paused ==> {
                let x = (old(self).plot_x + 1) as u64;
                let pid = selected_pid(*old(self));
                &&& final(self).plot_x == x
                &&& final(self).cpu_usage_all@ == old(self).cpu_usage_all@.drop_first().push(
                    (x, cpu_usage_bits),
                )
                &&& final(self).mem_usage_all@ == old(self).mem_usage_all@.drop_first().push(
                    (x, used_memory),
                )
                &&& is_table_order(
                    old(self).sort_by,
                    old(self).sort_ascending,
                    rows@,
                    final(self).processes_data@,
                )
                &&& (final(self).selected matches Some(k) && first_pid_position(
                    final(self).processes_data@,
                    pid,
                    k as int,
                ))
                &&& final(self).scroll_position == final(self).selected->0
                &&& final(self).scroll_content_length == final(self).processes_data@.len()
                &&& final(self).mode == old(self).mode
                &&& final(self).paused == old(self).paused
                &&& final(self).sort_by == old(self).sort_by
                &&& final(self).sort_ascending == old(self).sort_ascending
                &&& final(self).table_offset == old(self).table_offset
                &&& final(self).deb_show == old(self).deb_show
            },
    {
        if self.paused {
            return;
        }
        let ghost old_state = *self;
        self.plot_x = self.plot_x + 1;
        let x = self.plot_x;
        self.cpu_usage_all.remove(0);
        self.cpu_usage_all.push((x, cpu_usage_bits));
        self.mem_usage_all.remove(0);
        self.mem_usage_all.push((x, used_memory));
        let idx = match self.selected {
            Some(i) => i,
            None => 0,
        };
        let selected_pid = self.processes_data[idx].pid;
        self.processes_data = rows;
        self.scroll_content_length = self.processes_data.len();
        assert(self.cpu_usage_all@ =~= old_state.cpu_usage_all@.drop_first().push((x, cpu_usage_bits)));
        assert(self.mem_usage_all@ =~= old_state.mem_usage_all@.drop_first().push((x, used_memory)));
        self.sort_process_data();
        let new_idx = position_of_pid(&self.processes_data, selected_pid);
        self.selected = Some(new_idx);
        self.scroll_position = new_idx;
    }

    /// The first plot sample to show in a plot of `width` columns, of which
    /// `addition` are used for borders, axis line and labels.
    pub fn start_data_idx(&self, width: u16, addition: usize) -> (idx: usize)
        requires
            self.cpu_usage_all@.len() > 0 || width > addition,
        ensures
            idx as int == start_index(self.cpu_usage_all@.len() as int, width, addition),
    {
        let free: usize = if (width as usize) >= addition {
            (width as usize) - addition
        } else {
            0
        };
        let widget_data_width: usize = 2 * free;
        if self.cpu_usage_all.len() < widget_data_width {
            0
        } else {
            let w: usize = if widget_data_width < 1 {
                1
            } else {
                widget_data_width
            };
            self.cpu_usage_all.len() - w
        }
    }

    /// Selects the row `n` rows further down, stopping at the last row;
    /// the first row where nothing is selected.
    pub fn next_row(&mut self, n: usize)
        requires
            next_row_allowed(*old(self), n),
        ensures
            *final(self) == with_selected_row(*old(self), next_row_index(*old(self), n)),
    {
        let i = match self.selected {
            Some(i) => {
                if i + n >= self.processes_data.len() - 1 {
                    self.processes_data.len() - 1
                } else {
                    i + n
                }
            },
            None => 0,
        };
        self.select_row(i);
    }

    /// Selects the row `n` rows further up, stopping at the first row; the
    /// first row where nothing is selected.
    pub fn previous_row(&mut self, n: usize)
        ensures
            *final(self) == with_selected_row(*old(self), previous_row_index(*old(self), n)),
    {
        let i = match self.selected {
            Some(i) => i.saturating_sub(n),
            None => 0,
        };
        self.select_row(i);
    }

    /// Selects the row `row_no` and moves the scrollbar to it.
    pub fn select_row(&mut self, row_no: usize)
        ensures
            *final(self) == with_selected_row(*old(self), row_no),
    {
        self.selected = Some(row_no);
        self.scroll_position = row_no;
    }

    /// Chooses the sort column: the current one again flips the direction,
    /// another one keeps it. The table is reordered at the next refresh.
    pub fn set_sort_by(&mut self, sort_by: SortBy)
        ensures
            *final(self) == with_sort_choice(*old(self), sort_by),
    {
        if self.sort_by == sort_by {
            self.sort_ascending = !self.sort_ascending;
        } else {
            self.sort_by = sort_by;
        }
    }

    /// Whether `key` can be handled in this state (see `key_allowed`).
    pub fn accepts_key(&self, key: Key) -> (ok: bool)
        ensures
            ok == key_allowed(*self, key),
    {
        match key {
            Key::Down => match self.selected {
                Some(i) => self.processes_data.len() > 0 && i.checked_add(1).is_some(),
                None => true,
            },
            Key::PageDown => match self.selected {
                Some(i) => self.processes_data.len() > 0 && i.checked_add(10).is_some(),
                None => true,
            },
            Key::End => self.processes_data.len() > 0,
            Key::Char(c) => {
                if c == 'y' && self.mode == Mode::Kill {
                    let idx = match self.selected {
                        Some(i) => i,
                        None => 0,
                    };
                    idx < self.processes_data.len()
                } else {
                    true
                }
            },
            _ => true,
        }
    }

    /// Handles a key press: quit, pause, choose a sort column, enter or
    /// leave the kill confirmation, confirm a kill, toggle the debug
    /// window, or move the selection.
    pub fn handle_key(&mut self, key: Key) -> (action: Action)
        requires
            key_allowed(*old(self), key),
        ensures
            (*final(self), action) == key_outcome(*old(self), key),
    {
        match key {
            Key::Char(c) => {
                if c == 'q' {
                    Action::Quit
                } else if c == ' ' {
                    self.paused = !self.paused;
                    Action::Continue
                } else if c == '1' {
                    self.set_sort_by(SortBy::Pid);
                    Action::Continue
                } else if c == '2' {
                    self.set_sort_by(SortBy::User);
                    Action::Continue
                } else if c == '3' {
                    self.set_sort_by(SortBy::Name);
                    Action::Continue
                } else if c == '4' {
                    self.set_sort_by(SortBy::Cpu);
                    Action::Continue
                } else if c == '5' {
                    self.set_sort_by(SortBy::Memory);
                    Action::Continue
                } else if c == '6' {
                    self.set_sort_by(SortBy::Io);
                    Action::Continue
                } else if c == 'k' {
                    self.mode = Mode::Kill;
                    Action::Continue
                } else if c == 'y' {
                    match self.mode {
                        Mode::Kill => {
                            let pid = self.get_selected_process();
                            self.mode = Mode::Normal;
                            Action::Kill(pid)
                        },
                        Mode::Normal => Action::Continue,
                    }
                } else if c == 'n' {
                    self.mode = Mode::Normal;
                    Action::Continue
                } else if c == 'd' {
                    self.deb_show = !self.deb_show;
                    Action::Continue
                } else {
                    Action::Continue
                }
            },
            Key::Up => {
                self.previous_row(1);
                Action::Continue
            },
            Key::Down => {
                self.next_row(1);
                Action::Continue
            },
            Key::PageUp => {
                self.previous_row(10);
                Action::Continue
            },
            Key::PageDown => {
                self.next_row(10);
                Action::Continue
            },
            Key::Home => {
                self.select_row(0);
                Action::Continue
            },
            Key::End => {
                let last = self.processes_data.len() - 1;
                self.select_row(last);
                Action::Continue
            },
            Key::Other => Action::Continue,
        }
    }
}

/// The position of the first row with pid `pid`, or 0 where no row has it.
pub fn position_of_pid(rows: &Vec<ProcessRow>, pid: u32) -> (idx: usize)
    ensures
        first_pid_position(rows@, pid, idx as int),
{
    let mut i: usize = 0;
    while i < rows.len()
        invariant
            i <= rows@.len(),
            forall|j: int| 0 <= j < i ==> #[trigger] rows@[j].pid != pid,
        decreases rows@.len() - i,
    {
        if rows[i].pid == pid {
            return i;
        }
        i = i + 1;
    }
    0
}

} // verus!
