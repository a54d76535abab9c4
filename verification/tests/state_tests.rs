use procmon::process::{
    create_processes_data, resolve_user_name, sort_rows, ProcessRow, ProcessSample, SortBy,
    UserEntry,
};
use procmon::state::{position_of_pid, Action, Key, Mode, State, HISTORY_LEN};

fn row(pid: u32, user: &str, name: &str, cpu: f32, memory: u64, read: u64) -> ProcessRow {
    ProcessRow {
        pid,
        user: user.to_string(),
        name: name.to_string(),
        cpu_bits: cpu.to_bits(),
        memory,
        disk_read: read,
        disk_written: read / 2,
    }
}

fn sample_rows() -> Vec<ProcessRow> {
    vec![
        row(10, "root", "init", 0.5, 4000, 30),
        row(20, "alice", "shell", 12.0, 9000, 10),
        row(30, "bob", "editor", 0.5, 2000, 30),
        row(40, "alice", "browser", 55.5, 900000, 70),
    ]
}

fn pids(rows: &[ProcessRow]) -> Vec<u32> {
    rows.iter().map(|r| r.pid).collect()
}

#[test]
fn users_are_named_from_the_first_matching_entry() {
    let users = vec![
        UserEntry { id: 0, name: "root".to_string() },
        UserEntry { id: 1000, name: "alice".to_string() },
        UserEntry { id: 1000, name: "shadow".to_string() },
    ];
    assert_eq!(resolve_user_name(&users, Some(0)), "root");
    assert_eq!(resolve_user_name(&users, Some(1000)), "alice");
    assert_eq!(resolve_user_name(&users, Some(7)), "[Unknown]");
    assert_eq!(resolve_user_name(&users, None), "[Unknown]");
}

#[test]
fn process_rows_keep_sample_order_and_values() {
    let users = vec![UserEntry { id: 1000, name: "alice".to_string() }];
    let samples = vec![
        ProcessSample {
            pid: 5,
            user_id: Some(1000),
            name: "sh".to_string(),
            cpu_bits: 1.5f32.to_bits(),
            memory: 77,
            disk_read: 3,
            disk_written: 4,
        },
        ProcessSample {
            pid: 2,
            user_id: None,
            name: "kworker".to_string(),
            cpu_bits: 0,
            memory: 0,
            disk_read: 0,
            disk_written: 9,
        },
    ];
    let rows = create_processes_data(samples, &users);
    assert_eq!(
        rows,
        vec![
            ProcessRow {
                pid: 5,
                user: "alice".to_string(),
                name: "sh".to_string(),
                cpu_bits: 1.5f32.to_bits(),
                memory: 77,
                disk_read: 3,
                disk_written: 4,
            },
            ProcessRow {
                pid: 2,
                user: "[Unknown]".to_string(),
                name: "kworker".to_string(),
                cpu_bits: 0,
                memory: 0,
                disk_read: 0,
                disk_written: 9,
            },
        ]
    );
}

#[test]
fn sorting_descending_is_stable() {
    let sorted = sort_rows(sample_rows(), SortBy::Cpu, false);
    assert_eq!(pids(&sorted), vec![40, 20, 10, 30]);
    let sorted = sort_rows(sample_rows(), SortBy::Io, false);
    assert_eq!(pids(&sorted), vec![40, 10, 30, 20]);
    let sorted = sort_rows(sample_rows(), SortBy::User, false);
    assert_eq!(pids(&sorted), vec![10, 30, 20, 40]);
}

#[test]
fn sorting_ascending_reverses_the_descending_order() {
    let sorted = sort_rows(sample_rows(), SortBy::Cpu, true);
    assert_eq!(pids(&sorted), vec![30, 10, 20, 40]);
    let sorted = sort_rows(sample_rows(), SortBy::Pid, true);
    assert_eq!(pids(&sorted), vec![10, 20, 30, 40]);
    let sorted = sort_rows(sample_rows(), SortBy::Name, true);
    assert_eq!(pids(&sorted), vec![40, 30, 10, 20]);
    let sorted = sort_rows(sample_rows(), SortBy::Memory, true);
    assert_eq!(pids(&sorted), vec![30, 10, 20, 40]);
}

#[test]
fn sorting_matches_std_stable_sort() {
    let mut rows = Vec::new();
    for i in 0..60u32 {
        let cpu = [0.0f32, -0.0, 3.5, f32::NAN, 100.0, 0.25][(i * 7 % 6) as usize];
        let user = ["root", "alice", "bob", "Ärger"][(i * 5 % 4) as usize];
        rows.push(row(1000 - i * 13 % 97, user, &format!("p{}", i % 9), cpu, (i * 31 % 11) as u64, (i % 5) as u64));
    }
    for by in [SortBy::Pid, SortBy::User, SortBy::Name, SortBy::Cpu, SortBy::Memory, SortBy::Io] {
        for ascending in [false, true] {
            let mut expected = rows.clone();
            expected.sort_by(|a, b| match by {
                SortBy::Pid => b.pid.cmp(&a.pid),
                SortBy::User => b.user.cmp(&a.user),
                SortBy::Name => b.name.cmp(&a.name),
                SortBy::Cpu => f32::from_bits(b.cpu_bits).total_cmp(&f32::from_bits(a.cpu_bits)),
                SortBy::Memory => b.memory.cmp(&a.memory),
                SortBy::Io => b.disk_read.cmp(&a.disk_read),
            });
            if ascending {
                expected.reverse();
            }
            assert_eq!(sort_rows(rows.clone(), by, ascending), expected, "{by:?} {ascending}");
        }
    }
}

#[test]
fn new_state_starts_with_zero_history_and_first_row_selected() {
    let s = State::new(sample_rows());
    assert_eq!(s.cpu_usage_all.len(), HISTORY_LEN);
    assert_eq!(s.mem_usage_all.len(), HISTORY_LEN);
    assert_eq!(s.cpu_usage_all[0], (0, 0));
    assert_eq!(s.cpu_usage_all[199], (199, 0));
    assert_eq!(s.plot_x, 199);
    assert_eq!(s.selected, Some(0));
    assert_eq!(s.scroll_position, 0);
    assert_eq!(s.scroll_content_length, 4);
    assert_eq!(s.sort_by, SortBy::Cpu);
    assert!(!s.sort_ascending);
    assert_eq!(s.mode, Mode::Normal);
    assert_eq!(pids(&s.processes_data), vec![10, 20, 30, 40]);
}

#[test]
fn next_row_stops_at_the_last_row() {
    let mut s = State::new(sample_rows());
    s.next_row(1);
    assert_eq!(s.selected, Some(1));
    assert_eq!(s.scroll_position, 1);
    s.next_row(10);
    assert_eq!(s.selected, Some(3));
    s.selected = None;
    s.next_row(2);
    assert_eq!(s.selected, Some(0));
    s.select_row(9);
    s.next_row(1);
    assert_eq!(s.selected, Some(3));
}

#[test]
fn previous_row_stops_at_the_first_row() {
    let mut s = State::new(sample_rows());
    s.select_row(3);
    s.previous_row(1);
    assert_eq!(s.selected, Some(2));
    s.previous_row(10);
    assert_eq!(s.selected, Some(0));
    assert_eq!(s.scroll_position, 0);
    s.selected = None;
    s.previous_row(1);
    assert_eq!(s.selected, Some(0));
}

#[test]
fn moving_down_then_up_returns_to_the_row() {
    let mut s = State::new(sample_rows());
    s.select_row(1);
    s.next_row(1);
    s.previous_row(1);
    assert_eq!(s.selected, Some(1));
    s.next_row(2);
    assert_eq!(s.selected, Some(3));
    s.previous_row(2);
    assert_eq!(s.selected, Some(1));
}

#[test]
fn choosing_the_same_column_twice_restores_direction() {
    let mut s = State::new(sample_rows());
    s.set_sort_by(SortBy::Cpu);
    assert!(s.sort_ascending);
    s.set_sort_by(SortBy::Cpu);
    assert!(!s.sort_ascending);
    s.set_sort_by(SortBy::Memory);
    assert_eq!(s.sort_by, SortBy::Memory);
    assert!(!s.sort_ascending);
}

#[test]
fn start_data_idx_keeps_the_last_samples_that_fit() {
    let s = State::new(sample_rows());
    assert_eq!(s.start_data_idx(106, 6), 0);
    assert_eq!(s.start_data_idx(200, 6), 0);
    assert_eq!(s.start_data_idx(56, 6), 100);
    assert_eq!(s.start_data_idx(5, 6), 199);
    assert_eq!(s.start_data_idx(6, 6), 199);
    assert_eq!(s.start_data_idx(7, 6), 198);
}

#[test]
fn refresh_shifts_history_and_follows_selected_process() {
    let mut s = State::new(sample_rows());
    s.select_row(1);
    s.refresh(42.5f32.to_bits(), 123456, sample_rows());
    assert_eq!(s.plot_x, 200);
    assert_eq!(s.cpu_usage_all.len(), HISTORY_LEN);
    assert_eq!(s.cpu_usage_all[0], (1, 0));
    assert_eq!(s.cpu_usage_all[199], (200, 42.5f32.to_bits()));
    assert_eq!(s.mem_usage_all[199], (200, 123456));
    assert_eq!(pids(&s.processes_data), vec![40, 20, 10, 30]);
    assert_eq!(s.selected, Some(1));
    assert_eq!(s.scroll_position, 1);
    assert_eq!(s.scroll_content_length, 4);
    s.select_row(0);
    s.refresh(0, 0, vec![row(7, "x", "y", 1.0, 1, 1), row(40, "alice", "browser", 0.0, 1, 1)]);
    assert_eq!(pids(&s.processes_data), vec![7, 40]);
    assert_eq!(s.selected, Some(1));
    s.refresh(0, 0, vec![row(8, "x", "y", 1.0, 1, 1)]);
    assert_eq!(s.selected, Some(0));
    assert_eq!(s.scroll_content_length, 1);
}

#[test]
fn refresh_does_nothing_while_paused() {
    let mut s = State::new(sample_rows());
    s.paused = true;
    s.refresh(1, 2, vec![]);
    assert_eq!(s.plot_x, 199);
    assert_eq!(pids(&s.processes_data), vec![10, 20, 30, 40]);
    assert_eq!(s.cpu_usage_all[199], (199, 0));
}

#[test]
fn position_of_pid_finds_first_or_zero() {
    let rows = vec![row(3, "a", "a", 0.0, 0, 0), row(5, "a", "a", 0.0, 0, 0), row(5, "b", "b", 0.0, 0, 0)];
    assert_eq!(position_of_pid(&rows, 5), 1);
    assert_eq!(position_of_pid(&rows, 9), 0);
}

#[test]
fn keys_choose_actions() {
    let mut s = State::new(sample_rows());
    assert_eq!(s.handle_key(Key::Char('q')), Action::Quit);
    assert_eq!(s.handle_key(Key::Char(' ')), Action::Continue);
    assert!(s.paused);
    s.handle_key(Key::Char('1'));
    assert_eq!(s.sort_by, SortBy::Pid);
    s.handle_key(Key::Char('1'));
    assert!(s.sort_ascending);
    s.handle_key(Key::Char('6'));
    assert_eq!(s.sort_by, SortBy::Io);
    s.handle_key(Key::Char('d'));
    assert!(s.deb_show);
    assert_eq!(s.handle_key(Key::Char('y')), Action::Continue);
    s.handle_key(Key::Char('k'));
    assert_eq!(s.mode, Mode::Kill);
    s.handle_key(Key::Down);
    s.handle_key(Key::Down);
    assert_eq!(s.handle_key(Key::Char('y')), Action::Kill(30));
    assert_eq!(s.mode, Mode::Normal);
    s.handle_key(Key::Char('k'));
    s.handle_key(Key::Char('n'));
    assert_eq!(s.mode, Mode::Normal);
    s.handle_key(Key::End);
    assert_eq!(s.selected, Some(3));
    s.handle_key(Key::Home);
    assert_eq!(s.selected, Some(0));
    s.handle_key(Key::PageDown);
    assert_eq!(s.selected, Some(3));
    s.handle_key(Key::PageUp);
    assert_eq!(s.selected, Some(0));
    s.handle_key(Key::Up);
    assert_eq!(s.selected, Some(0));
    assert_eq!(s.handle_key(Key::Other), Action::Continue);
    assert_eq!(s.handle_key(Key::Char('x')), Action::Continue);
}

#[test]
fn keys_that_would_fail_are_refused() {
    let mut s = State::new(vec![]);
    assert!(!s.accepts_key(Key::End));
    assert!(!s.accepts_key(Key::Down));
    assert!(s.accepts_key(Key::Up));
    assert!(s.accepts_key(Key::Char('y')));
    s.mode = Mode::Kill;
    assert!(!s.accepts_key(Key::Char('y')));
    let mut t = State::new(sample_rows());
    t.select_row(usize::MAX);
    assert!(!t.accepts_key(Key::Down));
    assert!(t.accepts_key(Key::Home));
}

#[test]
fn selected_process_is_the_selected_row() {
    let mut s = State::new(sample_rows());
    assert_eq!(s.get_selected_process(), 10);
    s.select_row(2);
    assert_eq!(s.get_selected_process(), 30);
    s.selected = None;
    assert_eq!(s.get_selected_process(), 10);
}

#[test]
fn keys_keep_scrollbar_on_selection() {
    let mut s = State::new(sample_rows());
    for key in [Key::Down, Key::PageDown, Key::Up, Key::End, Key::Char('3'), Key::Home, Key::PageUp, Key::Char('k')] {
        s.handle_key(key);
        assert_eq!(s.selected, Some(s.scroll_position), "{key:?}");
    }
}

#[test]
fn sorting_keeps_every_row() {
    let rows = sample_rows();
    let mut sorted = sort_rows(rows.clone(), SortBy::Name, false);
    sorted.sort_by_key(|r| r.pid);
    assert_eq!(sorted, rows);
}
