use imap_bar::backoff::Backoff;

#[test]
fn test_single() {
    let mut b = Backoff::new(&[2]);
    assert_eq!(2, b.next());
    assert_eq!(2, b.next());
    assert_eq!(2, b.next());
}

#[test]
fn test_advance() {
    let mut b = Backoff::new(&[1, 2, 3]);
    assert_eq!(1, b.next());
    assert_eq!(2, b.next());
    assert_eq!(3, b.next());
    assert_eq!(3, b.next());
    b.reset();
    assert_eq!(1, b.next());
    assert_eq!(2, b.next());
}

#[test]
fn backoff_clamps_at_last_delay() {
    let delays = [0, 60, 120, 500, 600];
    let mut b = Backoff::new(&delays);
    let got: Vec<u64> = (0..9).map(|_| b.next()).collect();
    assert_eq!(got, vec![0, 60, 120, 500, 600, 600, 600, 600, 600]);
}

#[test]
fn backoff_reset_restarts_from_first() {
    let mut b = Backoff::new(&[5, 7]);
    for _ in 0..10 {
        b.next();
    }
    b.reset();
    assert_eq!(5, b.next());
    b.reset();
    b.reset();
    assert_eq!(5, b.next());
    assert_eq!(7, b.next());
}
