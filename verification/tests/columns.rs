use pdfplot::util::columns_of;

#[test]
fn rows_of_one_length_become_columns() {
    let rows = vec![vec![1, 2, 3], vec![4, 5, 6]];
    assert_eq!(columns_of(&rows), vec![vec![1, 4], vec![2, 5], vec![3, 6]]);
}

#[test]
fn short_rows_leave_the_later_columns_alone() {
    let rows = vec![vec![1.5], vec![], vec![2.5, 3.5, 4.5], vec![5.5, 6.5]];
    assert_eq!(columns_of(&rows), vec![vec![1.5, 2.5, 5.5], vec![3.5, 6.5], vec![4.5]]);
}

#[test]
fn no_rows_have_no_columns() {
    let rows: Vec<Vec<u8>> = vec![];
    assert_eq!(columns_of(&rows), Vec::<Vec<u8>>::new());
    assert_eq!(columns_of(&vec![Vec::<u8>::new(), vec![]]), Vec::<Vec<u8>>::new());
}
