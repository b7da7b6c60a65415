use phosphor_tui::clips::{clip_grid, track_clip_grid, ClipBox, RowLook};
use phosphor_tui::style::Color;
use phosphor_tui::theme::{amber_val, border_style, grid_major, grid_minor, track_color, ActiveTheme};

const TPB: u64 = 3840;

fn look(t: &ActiveTheme) -> RowLook {
    RowLook { colour: track_color(t, 0), selected: false, dimmed: false, clip_cursor: None }
}

fn row(grid: &[Vec<(char, phosphor_tui::style::Style)>], r: usize) -> String {
    grid[r].iter().map(|c| c.0).collect()
}

/// Bar lines fall where each bar after the first starts, heavy every
/// fourth; the bottom row carries the name in the first bar and a divider
/// after it.
#[test]
fn an_empty_track_is_bar_lines_and_its_name() {
    let t = ActiveTheme::new();
    let grid = clip_grid(&t, &look(&t), &Vec::new(), TPB, "bass", None, 64, 3);
    assert_eq!(grid.len(), 3);
    assert!(grid.iter().all(|r| r.len() == 64));
    let top = row(&grid, 0);
    assert_eq!(top.chars().nth(4), Some('\u{2506}'));
    assert_eq!(top.chars().nth(16), Some('\u{2502}'), "every fourth bar is heavy");
    assert_eq!(grid[0][16].1.fg, Some(grid_major(&t)));
    assert_eq!(grid[0][8].1.fg, Some(grid_minor(&t)));
    let bottom = row(&grid, 2);
    assert!(bottom.starts_with(" bas"), "{bottom}");
    assert!(bottom[4..].chars().all(|c| c == '\u{2500}'));
    assert_eq!(grid[2][10].1, border_style(&t));
}

/// A clip is placed by its ticks on the bar lines' grid: its top edge, its
/// frame and its number.
#[test]
fn a_clip_is_drawn_where_its_bars_are() {
    let t = ActiveTheme::new();
    let clips = vec![ClipBox { start_tick: TPB * 2, length_ticks: TPB * 2, has_content: true, number: 7 }];
    let grid = clip_grid(&t, &look(&t), &clips, TPB, "bass", None, 64, 4);
    let top = row(&grid, 0);
    assert_eq!(&top.chars().skip(8).take(8).collect::<String>(), "\u{2580}".repeat(8).as_str());
    let second: Vec<char> = grid[1].iter().map(|c| c.0).collect();
    assert_eq!(second[8], '\u{2502}', "the frame's left edge");
    assert_eq!(second[9], '7', "the clip's number");
    assert_eq!(second[15], '\u{2502}', "the frame's right edge");
    let third: Vec<char> = grid[2].iter().map(|c| c.0).collect();
    assert_eq!(third[12], ' ');
}

/// A clip that starts past the right edge stops the drawing of it and of
/// every clip after it.
#[test]
fn clips_past_the_edge_are_not_drawn() {
    let t = ActiveTheme::new();
    let clips = vec![
        ClipBox { start_tick: TPB * 20, length_ticks: TPB, has_content: true, number: 1 },
        ClipBox { start_tick: 0, length_ticks: TPB, has_content: true, number: 2 },
    ];
    let grid = clip_grid(&t, &look(&t), &clips, TPB, "", None, 64, 3);
    assert!(!row(&grid, 0).contains('\u{2580}'));
}

/// The playhead runs through every row in amber, over whatever is there.
#[test]
fn the_playhead_runs_through_every_row() {
    let t = ActiveTheme::new();
    let grid = clip_grid(&t, &look(&t), &Vec::new(), TPB, "", Some(20), 64, 3);
    for r in 0..3 {
        assert_eq!(grid[r][20].0, '\u{2502}');
        assert_eq!(grid[r][20].1.fg, Some(amber_val(&t)));
    }
}

/// Too narrow for a column a bar, nothing is drawn.
#[test]
fn a_row_too_narrow_draws_nothing() {
    let t = ActiveTheme::new();
    assert!(clip_grid(&t, &look(&t), &Vec::new(), TPB, "", None, 15, 3).is_empty());
    assert!(clip_grid(&t, &look(&t), &Vec::new(), TPB, "", None, 64, 0).is_empty());
}

/// The row prints the track's name in lower case.
#[test]
fn the_name_is_lower_case() {
    let t = ActiveTheme::new();
    let grid = track_clip_grid(&t, &look(&t), &Vec::new(), TPB, "BASS", None, 64, 3);
    assert!(row(&grid, 2).starts_with(" bas"));
}

/// The focused clip is tinted into the background more than one with
/// content.
#[test]
fn the_focused_clip_is_tinted() {
    let t = ActiveTheme::new();
    let clips = vec![ClipBox { start_tick: 0, length_ticks: TPB, has_content: true, number: 1 }];
    let mut l = look(&t);
    let plain = clip_grid(&t, &l, &clips, TPB, "", None, 64, 3);
    l.selected = true;
    l.clip_cursor = Some(0);
    let focused = clip_grid(&t, &l, &clips, TPB, "", None, 64, 3);
    assert_ne!(plain[0][1].1.bg, focused[0][1].1.bg);
    assert!(matches!(focused[0][1].1.bg, Some(Color::Rgb(..))));
}
