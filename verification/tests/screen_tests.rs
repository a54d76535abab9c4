use procmon::layout::{centered_rect, gauge_screen_areas, screen_areas, Area};
use procmon::process::SortBy;
use procmon::screen::{
    disk_usage_text, header_titles, kill_prompt_text, longest_label_len, memory_axis_labels,
    memory_title_text, sort_column,
};
use procmon::text::GIB;
use ratatui::layout::{Constraint, Direction, Layout, Rect};

#[test]
fn header_marks_the_sort_column() {
    assert_eq!(
        header_titles(SortBy::Cpu, false),
        vec!["PID", "User", "Name", "CPU%▼", "MEM", "Disk R/W"]
    );
    assert_eq!(
        header_titles(SortBy::Pid, true),
        vec!["PID▲", "User", "Name", "CPU%", "MEM", "Disk R/W"]
    );
    assert_eq!(sort_column(SortBy::Io), 5);
    assert_eq!(sort_column(SortBy::User), 1);
}

#[test]
fn disk_column_shows_read_and_written() {
    assert_eq!(disk_usage_text(0, 20480), "0/20K");
    assert_eq!(disk_usage_text(11 * GIB, 5), "11.0G/5");
}

#[test]
fn memory_axis_labels_divide_total() {
    let total = 16 * GIB;
    let labels = memory_axis_labels(total);
    assert_eq!(labels, vec!["0", "4096M", "5461M", "8192M", "16.0G"]);
    assert_eq!(longest_label_len(&labels), 5);
    assert_eq!(memory_axis_labels(0), vec!["0", "0", "0", "0", "0"]);
}

#[test]
fn kill_prompt_lists_process() {
    assert_eq!(
        kill_prompt_text(42, "sleep", Some("/bin/sleep"), 20480),
        "PID:42\nName:sleep\nCommand:/bin/sleep\nMem:20K"
    );
    assert_eq!(kill_prompt_text(1, "init", None, 10), "PID:1\nName:init\nCommand:[None]\nMem:10");
}

fn reference_centered(percent_x: u16, percent_y: u16, r: Rect) -> Rect {
    let popup_layout = Layout::default()
        .direction(Direction::Vertical)
        .constraints([
            Constraint::Percentage((100 - percent_y) / 2),
            Constraint::Percentage(percent_y),
            Constraint::Percentage((100 - percent_y) / 2),
        ])
        .split(r);
    Layout::default()
        .direction(Direction::Horizontal)
        .constraints([
            Constraint::Percentage((100 - percent_x) / 2),
            Constraint::Percentage(percent_x),
            Constraint::Percentage((100 - percent_x) / 2),
        ])
        .split(popup_layout[1])[1]
}

#[test]
fn centered_rect_is_the_middle_of_the_area() {
    for (px, py, x, y, w, h) in [(60, 20, 0, 20, 120, 30), (60, 60, 3, 4, 81, 40), (100, 0, 0, 0, 10, 10)] {
        let c = centered_rect(px, py, Area { x, y, width: w, height: h });
        let e = reference_centered(px, py, Rect::new(x, y, w, h));
        assert_eq!((c.x, c.y, c.width, c.height), (e.x, e.y, e.width, e.height));
    }
    let c = centered_rect(60, 20, Area { x: 0, y: 0, width: 100, height: 50 });
    assert_eq!((c.x, c.y, c.width, c.height), (20, 20, 60, 10));
}

#[test]
fn memory_title_lists_memory_and_swap() {
    assert_eq!(
        memory_title_text(8 * GIB, 16 * GIB, 0, 20480),
        "Mem usage:8192M/16.0G; Swap:0/20K"
    );
}

fn reference_screen(margin: u16, top: u16, r: Rect) -> (Rect, Rect, Rect) {
    let layout = Layout::default()
        .direction(Direction::Vertical)
        .margin(margin)
        .constraints([Constraint::Length(top), Constraint::Min(5)])
        .split(r);
    let upper = Layout::default()
        .direction(Direction::Horizontal)
        .constraints([Constraint::Percentage(50), Constraint::Percentage(50)])
        .split(layout[0]);
    (upper[0], upper[1], layout[1])
}

fn tuple(a: Area) -> (u16, u16, u16, u16) {
    (a.x, a.y, a.width, a.height)
}

fn rect_tuple(r: Rect) -> (u16, u16, u16, u16) {
    (r.x, r.y, r.width, r.height)
}

#[test]
fn screen_areas_divide_the_frame() {
    for (w, h) in [(120u16, 40u16), (80, 24), (81, 25), (30, 10), (3, 2), (0, 0)] {
        let (a, b, c) = screen_areas(Area { x: 0, y: 0, width: w, height: h });
        let (ea, eb, ec) = reference_screen(0, 20, Rect::new(0, 0, w, h));
        assert_eq!((tuple(a), tuple(b), tuple(c)), (rect_tuple(ea), rect_tuple(eb), rect_tuple(ec)));
        let (a, b, c) = gauge_screen_areas(Area { x: 0, y: 0, width: w, height: h });
        let (ea, eb, ec) = reference_screen(1, 3, Rect::new(0, 0, w, h));
        assert_eq!((tuple(a), tuple(b), tuple(c)), (rect_tuple(ea), rect_tuple(eb), rect_tuple(ec)));
    }
    let (a, b, c) = screen_areas(Area { x: 0, y: 0, width: 120, height: 40 });
    assert_eq!((tuple(a), tuple(b), tuple(c)), ((0, 0, 60, 20), (60, 0, 60, 20), (0, 20, 120, 20)));
}
