use phosphor_tui::style::{Color, Style};
use phosphor_tui::text::{decimal, grid_to_lines, left_aligned, merge_cells, right_aligned, signed_decimal};

fn red() -> Style {
    Style::new().fg(Color::Rgb(200, 0, 0))
}

/// Runs of one style become one span, and the spans say exactly what the
/// cells said.
#[test]
fn cells_merge_into_runs() {
    let plain = Style::new();
    let row = vec![('a', plain), ('b', plain), ('c', red()), ('d', plain), ('e', plain)];
    let spans = merge_cells(&row);
    let texts: Vec<&str> = spans.iter().map(|s| s.text.as_str()).collect();
    assert_eq!(texts, vec!["ab", "c", "de"]);
    assert_eq!(spans[1].style, red());
    assert!(merge_cells(&Vec::new()).is_empty());
    let lines = grid_to_lines(&vec![row.clone(), vec![('x', red())]]);
    assert_eq!(lines.len(), 2);
    assert_eq!(lines[1].len(), 1);
}

#[test]
fn numbers_and_padding() {
    assert_eq!(decimal(0), "0");
    assert_eq!(decimal(1234567890), "1234567890");
    assert_eq!(signed_decimal(-12), "-12");
    assert_eq!(signed_decimal(7), "7");
    assert_eq!(right_aligned("7", 3), "  7");
    assert_eq!(right_aligned("1234", 3), "1234");
    assert_eq!(left_aligned("ab", 4), "ab  ");
    assert_eq!(right_aligned("\u{25B8}", 2), " \u{25B8}", "padding counts characters, not bytes");
}
