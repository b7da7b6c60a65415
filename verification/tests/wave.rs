use phosphor_tui::style::Style;
use phosphor_tui::text::Span;
use phosphor_tui::theme::ActiveTheme;
use phosphor_tui::wave::{column_of, frame_slice, marker_row, mini_lines, mini_width, MINI_INDENT};

fn ruler(region: (u64, u64), frames: u64, width: usize) -> Vec<char> {
    let s = Style::new();
    marker_row(region, frames, width, s, s, s).iter().flat_map(|sp| sp.text.chars()).collect()
}

/// The markers follow a trim: a region from a quarter to three quarters of
/// a second sits a quarter and three quarters of the way across.
#[test]
fn the_region_is_lit_and_the_markers_follow_a_trim() {
    let cells = ruler((11_025, 33_075), 44_100, 80);
    assert_eq!(cells.len(), 80);
    assert_eq!(cells.iter().position(|c| *c == '['), Some(20));
    assert_eq!(cells.iter().position(|c| *c == ']'), Some(59));
    assert_eq!(cells[40], '\u{2500}', "a playing column is not lit");
    assert_eq!(cells[0], '\u{00b7}', "a cut column is lit");
    assert_eq!(cells[79], '\u{00b7}', "the tail is lit");
}

/// A region of one frame still has two markers, a column apart.
#[test]
fn a_region_of_one_frame_still_shows_two_markers() {
    for (start, width) in [(0u64, 40usize), (44_099, 40), (22_050, 2)] {
        let cells = ruler((start, start + 1), 44_100, width);
        let open = cells.iter().position(|c| *c == '[').expect("no start marker");
        let close = cells.iter().position(|c| *c == ']').expect("no end marker");
        assert_ne!(open, close);
        assert_eq!((open as isize - close as isize).abs(), 1, "{cells:?}");
    }
}

/// Every width from nothing to a wall, and the ruler is exactly as wide.
#[test]
fn the_picture_fits_whatever_width_it_is_given() {
    for width in 0..200usize {
        assert_eq!(ruler((100, 4_000), 4_410, width).len(), width);
    }
}

/// A frame past the end counts as the end; the exclusive end of the last
/// frame lands one past the last column.
#[test]
fn a_frame_falls_in_its_column() {
    assert_eq!(column_of(0, 44_100, 80), 0);
    assert_eq!(column_of(44_100, 44_100, 80), 80);
    assert_eq!(column_of(1_000_000, 44_100, 80), 80);
    assert_eq!(column_of(22_050, 44_100, 80), 40);
}

/// Each column reduces its own slice of the file, the slices running end to
/// end across the whole recording.
#[test]
fn the_slices_tile_the_recording() {
    let (frames, width) = (44_100u64, 80usize);
    let mut end = 0;
    for column in 0..width {
        let (lo, hi) = frame_slice(column, frames, width);
        assert_eq!(lo, end, "column {column} does not start where the last ended");
        assert!(hi > lo);
        end = hi;
    }
    assert_eq!(end, frames);
    // A recording shorter than the picture still gives every column a frame.
    let (lo, hi) = frame_slice(5, 3, 10);
    assert_eq!(hi, lo + 1);
}

/// A stand-in row of waveform, one cell a column.
fn wave_row(width: usize) -> Vec<Span> {
    (0..width).map(|_| Span::styled("\u{2588}".to_string(), Style::new())).collect()
}

fn picture(reverse: bool, width: usize) -> Option<Vec<Vec<Span>>> {
    let t = ActiveTheme::new();
    let w = mini_width(width)?;
    let s = Style::new();
    let rows = vec![wave_row(w), wave_row(w), marker_row((0, 44_100), 44_100, w, s, s, s)];
    Some(mini_lines(&t, rows, reverse))
}

fn cells(line: &[Span]) -> Vec<char> {
    line.iter().flat_map(|s| s.text.chars()).collect()
}

/// A layer with audio gets a picture: two rows of waveform and a ruler with
/// both markers on it, indented under the knobs.
#[test]
fn an_audio_layer_draws_a_picture_with_its_markers() {
    let lines = picture(false, 60).expect("no picture at sixty columns");
    assert_eq!(lines.len(), 3);
    for line in &lines {
        assert_eq!(cells(line).len(), 60, "the picture is not the width it was given");
    }
    let head: String = cells(&lines[0]).into_iter().collect();
    assert!(head.starts_with("    wave "), "{head:?}");
    let ruler = cells(&lines[2]);
    assert!(ruler.contains(&'['), "no start marker: {ruler:?}");
    assert!(ruler.contains(&']'), "no end marker: {ruler:?}");
    assert!(ruler.iter().position(|c| *c == '[').unwrap() >= MINI_INDENT);
    assert!(picture(false, 20).is_none(), "a picture under a dozen columns");
    assert!(picture(false, 21).is_some());
}

/// A reversed layer says so where the strip's header says it.
#[test]
fn a_reversed_layer_wears_the_word_the_strip_uses() {
    let plain: String = cells(&picture(false, 60).unwrap()[1]).into_iter().collect();
    assert!(!plain.starts_with("     rev"), "{plain:?}");
    let shown: String = cells(&picture(true, 60).unwrap()[1]).into_iter().collect();
    assert!(shown.starts_with("     rev "), "the picture does not say rev: {shown:?}");
}
