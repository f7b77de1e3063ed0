use lightfetch::builder::{create_spaces, Builder};

#[test]
fn test_builder() {
    let b = Builder::from(vec![vec!["a", "b", "c"], vec!["d", "e", "f"]]);
    let out = b.column_builder();
    assert_eq!(out, "a   d\nb   e\nc   f\n");
    println!("{}", out);
}

#[test]
fn test_tabsize() {
    let b = Builder::from(vec![vec!["a", "b", "c"], vec!["d", "e", "f"]]);
    let out = b.set_tab(10).column_builder();
    assert_eq!(out, "a         d\nb         e\nc         f\n");
    println!("{}", out);
}

#[test]
fn test_tabsize_zero() {
    let b = Builder::from(vec![vec!["a", "b", "c"], vec!["d", "e", "f"]]);
    let out = b.set_tab(0).column_builder();
    assert_eq!(out, "ad\nbe\ncf\n");
    println!("{}", out);
}

#[test]
fn test_practical() {
    let b = Builder::from(vec![
        vec!["Distro:", "Packages:", "Size:", "Version:"],
        vec!["Arch Linux", "42", "1.5GB", "2020.03.01"],
    ]);
    let out = b.set_tab(10).column_builder();
    assert_eq!(
        out,
        "Distro:   Arch Linux\nPackages: 42\nSize:     1.5GB\nVersion:  2020.03.01\n"
    );
    println!("{}", out);
}

#[test]
fn test_spaces() {
    let out = create_spaces(5);
    assert_eq!(out, "     ");
    println!("{}", out);
}

#[test]
fn test_swap() {
    let b = Builder::from(vec![vec!["a", "b", "c"], vec!["d", "e", "f"]]);
    let out = b.set_tab(10).swap(true).column_builder();
    assert_eq!(out, "d         a\ne         b\nf         c\n");
    println!("{}", out);
}

#[test]
fn swap_false_keeps_the_order() {
    let b = Builder::from(vec![vec!["a"], vec!["d"]]);
    assert_eq!(b.swap(false).column_builder(), "a   d\n");
}

#[test]
fn short_columns_are_filled_with_empty_cells() {
    let b = Builder::from(vec![vec!["a", "b"], vec!["c"]]);
    assert_eq!(b.column_builder(), "a   c\nb   \n");
}

#[test]
fn a_last_column_equal_to_an_earlier_one_is_padded() {
    let b = Builder::from(vec![vec!["x"], vec!["x"]]);
    assert_eq!(b.column_builder(), "x   x   \n");
}

#[test]
fn no_columns_give_no_rows() {
    let b = Builder::from(Vec::new());
    assert_eq!(b.column_builder(), "");
}

#[test]
fn tab_size_counts_bytes() {
    let b = Builder::from(vec![vec!["é"], vec!["z"]]);
    assert_eq!(b.column_builder(), "é   z\n");
}

#[test]
fn create_spaces_of_nothing() {
    assert_eq!(create_spaces(0), "");
}

#[test]
fn a_layout_can_be_written_out() {
    let b = Builder::from(vec![vec!["a", "bcd"], vec!["é"]]);
    assert_eq!(b.to_string(), "a     bcd   \né     \n");
    assert_eq!(b.set_tab(2).to_string(), "a bcd\né \n");
    let b = Builder::from(vec![vec!["a", "bcd"], vec!["é"]]);
    let mut expected = String::new();
    for line in [vec!["a", "bcd"], vec!["é"]] {
        for item in line {
            expected.push_str(&format!("{:width$}", item, width = 6));
        }
        expected.push('\n');
    }
    assert_eq!(b.to_string(), expected);
}
