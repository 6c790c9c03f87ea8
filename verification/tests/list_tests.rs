use brok::list::remove_indices;

fn removed(indices: Vec<usize>) -> Vec<&'static str> {
    let mut items = vec!["a", "b", "c", "d", "e"];
    remove_indices(&mut items, &indices);
    items
}

#[test]
fn the_items_at_the_indices_go() {
    assert_eq!(removed(vec![]), vec!["a", "b", "c", "d", "e"]);
    assert_eq!(removed(vec![1, 3]), vec!["a", "c", "e"]);
    assert_eq!(removed(vec![0]), vec!["b", "c", "d", "e"]);
    assert_eq!(removed(vec![0, 1, 4]), vec!["c", "d"]);
    assert!(removed(vec![0, 1, 2, 3, 4]).is_empty());
}
