use alacritty_terminal::extra_chars::{
    ExtraCharStorage, ExtraCharStorageIndex, NonzeroCharId, OverflowExhausted, MAX_HANDLES,
};

#[test]
fn released_handle_is_reused() {
    let mut store = ExtraCharStorage::new();
    let a = store.put(vec!['a']).unwrap();
    let b = store.put(vec!['b', 'c']).unwrap();
    let c = store.put(vec!['d']).unwrap();
    assert!(a != b && b != c && a != c);
    assert_eq!((a, b, c), (1, 2, 3));
    store.remove(b);
    let d = store.put(vec!['e']).unwrap();
    assert_eq!(d, b);
    assert_eq!(store.get(d), Some(vec!['e']));
    assert_eq!(store.get(a), Some(vec!['a']));
}

#[test]
fn unknown_handles() {
    let mut store = ExtraCharStorage::new();
    assert_eq!(store.get(0), None);
    assert_eq!(store.get(7), None);
    store.remove(7);
    store.remove(0);
    let h = store.put(Vec::new()).unwrap();
    assert_eq!(h, 1);
    store.remove(h);
    store.remove(h);
    assert_eq!(store.get(h), None);
}

#[test]
fn store_runs_out_of_handles() {
    let mut store = ExtraCharStorage::new();
    for i in 0..MAX_HANDLES {
        assert_eq!(store.put(Vec::new()), Ok((i + 1) as u16));
    }
    assert_eq!(store.put(vec!['x']), Err(OverflowExhausted));
    store.remove(500);
    assert_eq!(store.put(vec!['x']), Ok(500));
}

#[test]
fn char_ids_own_their_entries() {
    let mut store = ExtraCharStorage::new();
    let mut first = NonzeroCharId::new(&mut store).unwrap();
    let second = NonzeroCharId::new(&mut store).unwrap();
    assert_eq!(first.handle(), 1);
    assert_eq!(second.handle(), 2);
    first.put_char(&mut store, '\u{301}');
    first.put_char(&mut store, '\u{302}');
    assert_eq!(first.get_chars(&store), vec!['\u{301}', '\u{302}']);
    assert_eq!(second.get_chars(&store), Vec::<char>::new());
    first.release(&mut store);
    let third = NonzeroCharId::new(&mut store).unwrap();
    assert_eq!(third.handle(), 1);
    assert_eq!(third.get_chars(&store), Vec::<char>::new());
}

#[test]
fn cell_reference_starts_empty() {
    let index = ExtraCharStorageIndex::new();
    assert!(index.0.is_none());
}
