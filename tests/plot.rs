use dent::error::Error;
use dent::plot::{compose_plots, pad, BoxplotChars, BoxplotCols, PlacedPlot};
use dent::text::split_lines;

fn cols(wh_lo: usize, box_lo: usize, box_mid: usize, box_hi: usize, wh_hi: usize, marker: usize) -> BoxplotCols {
    BoxplotCols { box_lo, box_mid, box_hi, marker, wh_lo, wh_hi }
}

#[test]
fn error_messages() {
    assert_eq!(Error::BadSample.message(), "All sample data must be finite");
    assert_eq!(Error::Diverged.message(), "Numeric evaluation diverged");
    assert_eq!(Error::EmptySample.message(), "Sample data set cannot be empty");
    assert_eq!(Error::Undefined.message(), "Function undefined for argument");
}

#[test]
fn row_chars_draw_a_row() {
    let chars = BoxplotChars::ascii();
    let mut row: Vec<String> = vec![String::new(); 11];
    chars.row(1).render(&mut row, &cols(0, 2, 5, 7, 10, 4));
    assert_eq!(row.join(""), "|-|  | |--|");
}

#[test]
fn row_chars_leave_outside_entries() {
    let chars = BoxplotChars::ascii();
    let mut row: Vec<String> = vec![String::from("."); 8];
    chars.row(0).render(&mut row, &cols(1, 2, 3, 4, 6, 3));
    assert_eq!(row.join(""), ". +++  .");
}

#[test]
fn row_chars_middle_line_wins() {
    let chars = BoxplotChars::ascii();
    let mut row: Vec<String> = vec![String::new(); 3];
    chars.row(0).render(&mut row, &cols(0, 1, 1, 1, 2, 1));
    assert_eq!(row.join(""), " + ");
}

#[test]
fn ascii_boxplot() {
    let plot = BoxplotChars::ascii().render(&cols(0, 2, 5, 7, 10, 4), 11);
    assert_eq!(plot, Ok(String::from("  +--+-+   \n|-| x| |--|\n  +--+-+   ")));
}

#[test]
fn unicode_boxplot() {
    let plot = BoxplotChars::unicode().render(&cols(0, 1, 2, 3, 4, 2), 5);
    assert_eq!(plot, Ok(String::from("┬┌┬┐┬\n├┤✕├┤\n┴└┴┘┴")));
}

#[test]
fn boxplot_marker_right_of_lines_fails() {
    // The rows start at the lower whisker, so they hold 3 cells; the marker
    // stands at column 4.
    let plot = BoxplotChars::ascii().render(&cols(2, 2, 3, 4, 4, 4), 6);
    assert_eq!(plot, Err("Unable to plot sample data"));
}

#[test]
fn compose_no_plots() {
    let r = compose_plots(&vec![], 10, true, true);
    assert_eq!(r, Err("Cannot plot empty list of summaries"));
}

#[test]
fn compose_one_plot_without_border() {
    let p = PlacedPlot { cols: cols(0, 1, 2, 3, 4, 2), width: 5, offset: 1 };
    let r = compose_plots(&vec![p], 7, true, false);
    assert_eq!(r, Ok(String::from("  +++  \n ||x|| \n  +++  ")));
}

#[test]
fn compose_two_plots_with_border() {
    let p1 = PlacedPlot { cols: cols(0, 1, 2, 3, 4, 2), width: 5, offset: 0 };
    let p2 = PlacedPlot { cols: cols(0, 0, 1, 2, 2, 1), width: 3, offset: 2 };
    let r = compose_plots(&vec![p1, p2], 9, true, true);
    let expected = [
        "+-------+",
        "|       |",
        "|  +++  |",
        "| ||x|| |",
        "|  +++  |",
        "|    +  |",
        "|   |x| |",
        "|    +  |",
        "|       |",
        "+-------+",
    ];
    assert_eq!(r, Ok(expected.join("\n")));
}

#[test]
fn compose_offset_outside_fails() {
    let p = PlacedPlot { cols: cols(0, 1, 2, 3, 4, 2), width: 5, offset: 7 };
    let r = compose_plots(&vec![p], 9, false, true);
    assert_eq!(r, Err("Unable to plot sample data"));
}

#[test]
fn split_keeps_empty_lines() {
    let lines = split_lines("a\n\nbc\n");
    assert_eq!(lines, vec!["a", "", "bc", ""]);
    assert_eq!(split_lines(""), vec![""]);
}

#[test]
fn pad_shifts_every_line() {
    assert_eq!(pad(&String::from("ab\ncd"), 2), "  ab\n  cd");
    assert_eq!(pad(&String::from(""), 3), "   ");
    assert_eq!(pad(&String::from("x"), 0), "x");
}

#[test]
fn compose_unicode_with_border() {
    let p = PlacedPlot { cols: cols(0, 1, 2, 3, 4, 2), width: 5, offset: 0 };
    let r = compose_plots(&vec![p], 9, false, true);
    let expected = [
        "┌───────┐",
        "│       │",
        "│ ┬┌┬┐┬ │",
        "│ ├┤✕├┤ │",
        "│ ┴└┴┘┴ │",
        "│       │",
        "└───────┘",
    ];
    assert_eq!(r, Ok(expected.join("\n")));
}

#[test]
fn compose_plot_clipped_at_right_edge() {
    // The plot is wider than the space right of its offset; what overhangs
    // is dropped.
    let p = PlacedPlot { cols: cols(0, 1, 2, 3, 4, 2), width: 5, offset: 3 };
    let r = compose_plots(&vec![p], 6, true, false);
    assert_eq!(r, Ok(String::from("    ++\n   ||x\n    ++")));
}

#[test]
fn compose_failing_plot_fails_figure() {
    let good = PlacedPlot { cols: cols(0, 1, 2, 3, 4, 2), width: 5, offset: 0 };
    let bad = PlacedPlot { cols: cols(2, 2, 3, 4, 4, 4), width: 6, offset: 0 };
    let r = compose_plots(&vec![good, bad], 8, true, false);
    assert_eq!(r, Err("Unable to plot sample data"));
}

#[test]
fn pad_keeps_empty_lines() {
    assert_eq!(pad(&String::from("a\n\nb\n"), 1), " a\n \n b\n ");
}
