use phosphor_tui::knobs::window;
use phosphor_tui::steps::{fit_sections, geometry, lane_rows, Geometry, SeqBand, LABEL_W};

/// Steps are buttons: sixteen of three columns fit fifty-five, one column
/// fewer goes to two a step, and a panel too narrow for either pages.
#[test]
fn steps_are_buttons_and_a_long_pattern_pages_rather_than_shrinking() {
    let full = geometry(16, 55, 0);
    assert_eq!((full.cell, full.count, full.pages), (3, 16, 1), "80 columns is a full grid");
    assert_eq!(full.x_of(0), Some(LABEL_W));
    assert_eq!(full.x_of(4), Some(LABEL_W + 13), "the beats are not grouped");

    assert_eq!(geometry(16, 54, 0).cell, 2, "a narrower panel goes to two columns");

    let tight = geometry(16, 20, 0);
    assert!(tight.cell >= 2, "a step was squeezed below two columns");
    assert!(tight.pages > 1, "a grid that cannot fit was not paged");
    assert!(Geometry::width(tight.cell, tight.count) <= 20, "a page wider than the panel it is drawn in");
}

/// A paged pattern shows the page the cursor is standing on.
#[test]
fn the_page_follows_the_cursor() {
    let g = geometry(32, 55, 20);
    assert_eq!(g.pages, 2);
    assert_eq!(g.first, 16, "the page with the cursor on it is not the one shown");
    assert!(g.x_of(20).is_some());
    assert!(g.x_of(4).is_none(), "a step from the other page was drawn");
}

/// A panel taller than its space shows the row the cursor is on.
#[test]
fn sequencer_a_windowed_panel_keeps_the_cursor_on_the_screen() {
    let rows: Vec<String> = (0..5).map(|index| format!("row {index}")).collect();
    for cursor in 0..5 {
        let shown = window(rows.clone(), 2, cursor);
        assert_eq!(shown.len(), 2);
        assert!(shown.contains(&format!("row {cursor}")));
    }
    assert_eq!(window(rows.clone(), 9, 0).len(), 5);
    assert!(window(rows, 0, 0).is_empty());
}

/// Fewer rows than lanes scroll under the cursor and keep it in sight.
#[test]
fn a_short_terminal_scrolls_the_sounds() {
    assert_eq!(lane_rows(8, 5), (0..8).collect::<Vec<_>>());
    let rows = lane_rows(3, 7);
    assert_eq!(rows.len(), 3);
    assert!(rows.contains(&7));
    assert_eq!(lane_rows(3, 0), vec![0, 1, 2]);
    assert_eq!(lane_rows(0, 4).len(), 1, "a window of nothing still shows the cursor's lane");
}

/// Sections are given up in order when the view is short, never the band
/// being used, and spare rows go to the panel being used first.
#[test]
fn a_short_view_gives_up_the_sections_it_can_do_without() {
    // header, strip, ruler, grid, coaching, step, readout, pattern, slots
    let show = vec![1, 0, 1, 8, 0, 1, 1, 1, 1];
    let fitted = fit_sections(show.clone(), SeqBand::Pattern, 12, 3, 2);
    assert_eq!(fitted[7], 1, "the band in use was dropped");
    assert_eq!(fitted[6], 0, "the readout outlived the pattern's own panel");
    assert!(fitted.iter().sum::<usize>() <= 12);

    let roomy = fit_sections(show, SeqBand::Step, 40, 3, 2);
    assert_eq!(roomy[5], 3, "the step panel did not get the room it wanted");
    assert_eq!(roomy[7], 2);
}

/// Steps sit in order: the first just past the labels, each a cell or more
/// after the last, and the last ending at the page's width.
#[test]
fn steps_sit_in_order_inside_the_page() {
    for (steps, width, cursor) in [(16usize, 55usize, 0usize), (16, 40, 3), (64, 30, 40)] {
        let g = geometry(steps, width, cursor);
        assert_eq!(g.x_of(g.first), Some(LABEL_W));
        let mut last = None;
        for s in g.first..g.first + g.count {
            let x = g.x_of(s).expect("a step on the page has a column");
            if let Some(prev) = last {
                assert!(prev + g.cell <= x, "two steps overlap");
            }
            last = Some(x);
        }
        assert_eq!(last.unwrap() + g.cell, Geometry::width(g.cell, g.count));
        assert!(g.x_of(g.first + g.count).is_none());
    }
}
