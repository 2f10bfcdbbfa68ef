use rustamath::la::tnsr::Tnsr;

fn cell(v: i64) -> String {
    format!("{:10.3e}, ", v)
}

#[test]
fn format_wide_matrix_truncates_columns() {
    // A 4x10 zero matrix with one set value: header is "10x4" (columns
    // first), and exactly ten columns already trigger the
    // first-four/ellipsis/last-four truncation.
    let mut m = Tnsr::<i64>::new_matrix(4, 10);
    m.set(1, 2, 5);

    let mut expected = String::from("10x4\n");
    for row in 0..4i64 {
        for col in 0..4i64 {
            expected.push_str(&cell(if row == 1 && col == 2 { 5 } else { 0 }));
        }
        expected.push_str("... ");
        for _col in 6..10i64 {
            expected.push_str(&cell(0));
        }
        expected.push('\n');
    }
    assert_eq!(m.fmt_matrix(), expected);
}

#[test]
fn format_narrow_matrix_prints_all_columns() {
    let mut m = Tnsr::<i64>::new_matrix(2, 3);
    m.set(0, 0, 1);
    m.set(0, 1, -20);
    m.set(1, 2, 300);
    let expected = format!(
        "3x2\n{}{}{}\n{}{}{}\n",
        cell(1),
        cell(-20),
        cell(0),
        cell(0),
        cell(0),
        cell(300)
    );
    assert_eq!(m.fmt_matrix(), expected);
}

#[test]
fn format_tall_matrix_truncates_rows() {
    // Sixteen rows or more: only the first and last seven are shown, with an
    // ellipsis line between.
    let mut m = Tnsr::<i64>::new_matrix(16, 2);
    for row in 0..16 {
        m.set(row, 0, row as i64);
        m.set(row, 1, -(row as i64));
    }
    let mut expected = String::from("2x16\n");
    for row in 0..7i64 {
        expected.push_str(&cell(row));
        expected.push_str(&cell(-row));
        expected.push('\n');
    }
    expected.push_str("...\n");
    for row in 9..16i64 {
        expected.push_str(&cell(row));
        expected.push_str(&cell(-row));
        expected.push('\n');
    }
    assert_eq!(m.fmt_matrix(), expected);
}

#[test]
fn format_respects_the_view() {
    let mut m = Tnsr::<i64>::new_matrix(2, 3);
    m.set(0, 1, 42);
    m.transpose_view();
    // Through the transposed view this is a 3x2 matrix, so the header is
    // "2x3" and the set value moved to row 1, column 0.
    let expected = format!(
        "2x3\n{}{}\n{}{}\n{}{}\n",
        cell(0),
        cell(0),
        cell(42),
        cell(0),
        cell(0),
        cell(0)
    );
    assert_eq!(m.fmt_matrix(), expected);
}
