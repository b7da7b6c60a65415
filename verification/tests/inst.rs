use phosphor_tui::inst::{
    bar_width, cell_index, inst_cell, inst_header, inst_header_cased, inst_layout, list_bar_width, list_hint, list_row, synth_lines, Control,
    Reading,
};
use phosphor_tui::text::Span;
use phosphor_tui::theme::ActiveTheme;

fn text(spans: &[Span]) -> String {
    spans.iter().map(|s| s.text.as_str()).collect()
}

/// Twenty-six columns a cell: two to the pane an eighty-column terminal
/// leaves, three to a hundred and twenty; filled down each column.
#[test]
fn the_panel_fills_down_then_across() {
    let l = inst_layout(55, 11, 84, 0);
    assert_eq!((l.cell_w, l.columns, l.rows, l.per_page), (26, 2, 10, 20));
    assert_eq!(l.pages, 5);
    assert_eq!(cell_index(&l, 1, 0, 84), Some(1));
    assert_eq!(cell_index(&l, 0, 1, 84), Some(10));
    let l = inst_layout(120, 11, 84, 45);
    assert_eq!(l.columns, 4);
    assert_eq!((l.page, l.first), (1, 40));
    assert_eq!(cell_index(&l, 9, 3, 84), Some(79));
    let l = inst_layout(120, 11, 84, 83);
    assert_eq!((l.page, l.first), (2, 80));
    assert_eq!(cell_index(&l, 3, 0, 84), Some(83));
    assert_eq!(cell_index(&l, 9, 3, 84), None, "a control past the last was drawn");
    // A cursor past the last control is held to it.
    let l = inst_layout(55, 11, 84, 500);
    assert_eq!(l.cursor, 83);
    assert_eq!(l.page, 4);
}

#[test]
fn the_header_says_whose_controls_and_which_page() {
    let t = ActiveTheme::new();
    assert_eq!(
        text(&inst_header(&t, "juno-60", 40, 1, 2, true, "keys")),
        " juno-60 \u{00B7} 40 controls \u{00B7} page 2/2 \u{00B7} keys "
    );
    assert_eq!(text(&inst_header(&t, "juno-60", 12, 0, 1, false, "keys")), " juno-60 \u{00B7} 12 controls \u{00B7} keys ");
    // The track's name is written in lower case.
    assert_eq!(text(&inst_header(&t, "juno-60", 12, 0, 1, false, "Lead KEYS")), " juno-60 \u{00B7} 12 controls \u{00B7} lead keys ");
    // Given a name already cased, the line writes it as it is.
    assert_eq!(
        text(&inst_header_cased(&t, "juno-60", 12, 0, 1, false, "Lead")),
        " juno-60 \u{00B7} 12 controls \u{00B7} Lead "
    );
}

/// A cell is always its full width: a selector's word is cut and padded, a
/// knob's bar and reading padded out.
#[test]
fn a_cell_is_as_wide_as_the_cell() {
    let t = ActiveTheme::new();
    let word = inst_cell(&t, "wave", true, 26, &Reading::Label("sawtooth-and-square".to_string()));
    assert_eq!(text(&word).chars().count(), 26);
    assert!(text(&word).starts_with("\u{25B6} wave     "));
    let bw = bar_width(26, 3);
    assert_eq!(bw, 10);
    let knob = inst_cell(
        &t,
        "cutoff",
        false,
        26,
        &Reading::Knob { bar: "\u{2588}".repeat(6) + &"\u{2591}".repeat(4), text: "61%".to_string() },
    );
    assert_eq!(text(&knob).chars().count(), 26);
    assert_eq!(text(&knob), "  cutoff   \u{2588}\u{2588}\u{2588}\u{2588}\u{2588}\u{2588}\u{2591}\u{2591}\u{2591}\u{2591} 61% ");
}

#[test]
fn the_narrow_list() {
    let t = ActiveTheme::new();
    assert_eq!(list_bar_width(24), 10);
    assert_eq!(list_bar_width(20), 6);
    assert_eq!(list_bar_width(10), 0);
    let row = list_row(&t, "patch", true, &Reading::Label("Brass 1".to_string()));
    assert_eq!(text(&row), " \u{25B6} patch    Brass 1");
    assert_eq!(text(&list_hint(&t)), "  h/l adjust  jk select");
}

fn control(name: &str, word: Option<&str>) -> Control {
    Control {
        name: name.to_string(),
        reading: match word {
            Some(w) => Reading::Label(w.to_string()),
            None => Reading::Knob { bar: "\u{2588}\u{2588}\u{2591}\u{2591}".to_string(), text: "50%".to_string() },
        },
    }
}

/// The narrow instrument list scrolls to the control under the cursor,
/// says when there is no instrument, and shows the keys while it has them.
#[test]
fn the_narrow_list_scrolls_to_its_cursor() {
    let t = ActiveTheme::new();
    assert_eq!(text(&synth_lines(&t, &vec![], 0, true, 10)[0]), "  (no instrument)");
    let controls: Vec<Control> = (0..12).map(|i| control(&format!("c{i}"), if i % 2 == 0 { Some("saw") } else { None })).collect();
    let lines = synth_lines(&t, &controls, 9, true, 6);
    assert_eq!(lines.len(), 6);
    let shown: Vec<String> = lines.iter().map(|l| text(l)).collect();
    assert!(shown[0].starts_with("   c6"), "{shown:?}");
    assert!(shown[3].starts_with(" \u{25B6} c9"), "{shown:?}");
    assert!(shown[4].is_empty());
    assert!(shown[5].contains("adjust"));
    let idle = synth_lines(&t, &controls, 0, false, 40);
    assert_eq!(idle.len(), 12);
    assert_eq!(text(&idle[0]), "   c0       saw");
    assert_eq!(text(&idle[1]), "   c1      \u{2588}\u{2588}\u{2591}\u{2591} 50%");
}
