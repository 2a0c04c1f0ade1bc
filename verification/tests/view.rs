use emergent::{IndexedSource, IndexedTarget, LazyMap, Table};

#[test]
fn test_random_access_laziness() {
    let mut map = LazyMap::new(|a: &i32| a * a);
    map.apply(&[2, 3, 4]);
    let v = *map.iter_at(1).nth(0).unwrap();
    assert_eq!(v, 9);
    assert_eq!(map.generated()[0], None);
    assert_eq!(map.generated()[2], None);
}

#[test]
fn apply_reports_updates_and_added_tail() {
    let mut v: Vec<i32> = vec![1, 2, 3];
    let cs = v.apply(&[1, 5, 3, 7, 8]);
    assert_eq!(v, vec![1, 5, 3, 7, 8]);
    assert_eq!(cs.len_applied(), 5);
    assert_eq!(cs.updated(), &[(1, (2, 5))]);
    assert_eq!(cs.updated_indices(), vec![1]);
}

#[test]
fn apply_reports_removed_tail() {
    let mut v: Vec<i32> = vec![1, 2, 3, 4];
    let cs = v.apply(&[0, 2]);
    assert_eq!(v, vec![0, 2]);
    assert_eq!(cs.len_applied(), 2);
    assert_eq!(cs.updated_indices(), vec![0]);
}

#[test]
fn reapplying_changes_nothing() {
    let mut v: Vec<i32> = Vec::new();
    v.apply(&[4, 5, 6]);
    let cs = v.apply(&[4, 5, 6]);
    assert_eq!(cs.updated_indices(), Vec::<usize>::new());
    assert_eq!(cs.len_applied(), 3);
    assert_eq!(v, vec![4, 5, 6]);
    assert_eq!(IndexedSource::len(&v), 3);
    assert!(!IndexedSource::is_empty(&v));
}

#[test]
fn lazy_map_regenerates_changed_elements_only() {
    let mut map = LazyMap::new(|a: &i32| a + 100);
    map.apply(&[1, 2, 3]);
    assert_eq!(map.iter_at(0).nth(2).copied(), Some(103));
    // nth generates the skipped elements too.
    assert_eq!(map.generated(), &[Some(101), Some(102), Some(103)]);
    map.apply(&[1, 20, 3, 4]);
    assert_eq!(map.generated(), &[Some(101), None, Some(103), None]);
    assert_eq!(IndexedSource::len(&map), 4);
    let mut it = map.iter_at(1);
    assert_eq!(it.next().copied(), Some(120));
    assert_eq!(it.next().copied(), Some(103));
    assert_eq!(it.next().copied(), Some(104));
    assert_eq!(it.next(), None);
    assert_eq!(map.iter_at(3).nth(1), None);
    map.apply(&[1]);
    assert_eq!(map.generated(), &[Some(101)]);
}

#[test]
fn table_append_returns_consecutive_references() {
    let mut table: Table<&str> = Table::new();
    let a = table.append("a");
    let b = table.resolve("b");
    assert_eq!(format!("{:?}", a), "Ref(0, PhantomData<&str>)");
    assert_eq!(format!("{:?}", b), "Ref(1, PhantomData<&str>)");
    assert_eq!(table.len(), 2);
}
