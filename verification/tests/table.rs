use ktesio::table::{desired_widths, table_widths, widest_shrinkable_column, ColumnFit};

fn column(header: &str, min_width: usize, max_width: usize) -> ColumnFit {
    ColumnFit { min_width, max_width, header_width: header.chars().count() }
}

#[test]
fn test_table_width_helpers_handle_empty_and_constrained_tables() {
    assert!(table_widths(&vec![], &vec![], 80).is_empty());
    assert_eq!(widest_shrinkable_column(&vec![4, 4, 4]), None);

    let columns = vec![column("A", 10, 30), column("B", 10, 30), column("C", 10, 30)];
    let rows = vec![vec![
        "a very long first value".chars().count(),
        "a very long second value".chars().count(),
        "a very long third value".chars().count(),
    ]];
    let widths = table_widths(&columns, &rows, 24);

    assert_eq!(widths.len(), columns.len());
    assert!(widths.iter().sum::<usize>() <= 20);
}

#[test]
fn test_render_table_respects_display_width() {
    let columns = vec![column("Name", 16, 30), column("Repo", 18, 64), column("Status", 12, 14)];
    let rows = vec![vec![
        "bmad-check-implementation-readiness".chars().count(),
        "/Users/imagdy/dev/in1t.com/.agents/skills/bmad-check-implementation-readiness".chars().count(),
        "✓ installed".chars().count(),
    ]];
    let widths = table_widths(&columns, &rows, 60);
    assert!(widths.iter().sum::<usize>() + 2 * (columns.len() - 1) <= 60);
}

#[test]
fn test_widest_shrinkable_column_prefers_the_last_of_equals() {
    assert_eq!(widest_shrinkable_column(&vec![9, 3, 9, 5]), Some(2));
    assert_eq!(widest_shrinkable_column(&vec![5, 12, 7]), Some(1));
    assert_eq!(widest_shrinkable_column(&vec![]), None);
}

#[test]
fn test_table_widths_shrink_the_widest_then_grow_the_first() {
    // Start at 10 + 10 = 20 places in a room of 18: the later of the two widest gives first.
    let columns = vec![column("A", 10, 30), column("B", 10, 30)];
    assert_eq!(table_widths(&columns, &vec![vec![3, 3]], 20), vec![9, 9]);
    // Room to spare: the first column that wants more grows up to its desired width.
    assert_eq!(table_widths(&columns, &vec![vec![14, 25]], 40), vec![14, 24]);
    // Columns never grow past their maximum.
    let narrow = vec![column("A", 2, 6), column("B", 2, 6)];
    assert_eq!(table_widths(&narrow, &vec![vec![50, 50]], 100), vec![6, 6]);
    // A column narrower than 4 never shrinks.
    let small = vec![column("A", 2, 3), column("B", 20, 40)];
    assert_eq!(table_widths(&small, &vec![], 10), vec![2, 6]);
}

#[test]
fn test_desired_widths_use_the_widest_cell_and_skip_missing_ones() {
    let columns = vec![column("Skill", 3, 20), column("Installs", 2, 9)];
    let rows = vec![vec![4, 2], vec![12], vec![30, 1]];
    assert_eq!(desired_widths(&columns, &rows), vec![20, 8]);
}
