use mdv::table_layout::{row_starts, table_height};

#[test]
fn rows_start_below_each_other_with_grid_lines() {
    assert_eq!(row_starts(&vec![10, 20, 5], 2), vec![0, 12, 34, 41]);
}

#[test]
fn table_height_counts_a_grid_line_per_row_and_one_more() {
    assert_eq!(table_height(&vec![10, 20, 5], 2), 43);
    assert_eq!(table_height(&vec![], 2), 2);
}
