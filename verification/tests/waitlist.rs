use switch::waitlist::WaitList;

#[test]
fn add_refuses_invalid_handles() {
    let mut wl = WaitList::new();
    assert!(!wl.add(0));
    assert!(!wl.add(-1));
    assert!(wl.add(5));
    assert_eq!(wl.handles, vec![5]);
}

#[test]
fn remove_swaps_last_into_place() {
    let mut wl = WaitList::new();
    assert!(wl.add(5));
    assert!(wl.add(6));
    assert!(wl.add(7));
    assert!(wl.remove(5));
    assert_eq!(wl.handles, vec![7, 6]);
    assert!(!wl.remove(5));
    assert_eq!(wl.handles, vec![7, 6]);
}
