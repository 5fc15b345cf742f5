use spsc_ring::shared_singleton::SharedSingleton;
use spsc_ring::static_shared::StaticShared;

#[test]
fn fresh_cell_is_producer_owned() {
    let cell: SharedSingleton<u32> = SharedSingleton::new();
    assert!(cell.is_producer_owned());
    assert!(!cell.is_consumer_owned());
    assert!(cell.read().is_none());
}

#[test]
fn write_is_refused_unless_producer_owned() {
    let mut cell: SharedSingleton<u32> = SharedSingleton::new();
    assert!(cell.write(1).is_ok());
    assert!(cell.pass_to_consumer().is_ok());
    // after the handoff the producer may no longer write
    assert_eq!(cell.write(2), Err(2));
    // and the stored value is untouched
    assert_eq!(cell.read(), Some(&1));
}

#[test]
fn handoff_enables_read_and_disables_write() {
    let mut cell: SharedSingleton<u32> = SharedSingleton::new();
    assert!(cell.write(7).is_ok());
    // before the handoff the consumer sees nothing
    assert!(cell.read().is_none());
    assert!(cell.pass_to_consumer().is_ok());
    assert!(cell.is_consumer_owned());
    assert_eq!(cell.read(), Some(&7));
}

#[test]
fn return_fails_while_still_producer_owned() {
    let mut cell: SharedSingleton<u32> = SharedSingleton::new();
    assert!(cell.return_to_producer().is_err());
    assert!(cell.is_producer_owned());
}

#[test]
fn double_handoff_is_refused() {
    let mut cell: SharedSingleton<u32> = SharedSingleton::new();
    assert!(cell.write(3).is_ok());
    assert!(cell.pass_to_consumer().is_ok());
    assert!(cell.pass_to_consumer().is_err());
    assert!(cell.is_consumer_owned());
}

#[test]
fn full_handoff_cycle() {
    let mut cell: SharedSingleton<u32> = SharedSingleton::new();
    for round in 0..5u32 {
        assert!(cell.is_producer_owned());
        assert!(cell.write(round).is_ok());
        assert!(cell.pass_to_consumer().is_ok());
        assert_eq!(cell.read(), Some(&round));
        assert!(cell.return_to_producer().is_ok());
    }
    assert!(cell.is_producer_owned());
}

#[test]
fn static_shared_commit_release_cycle() {
    let mut loc: StaticShared<u64> = StaticShared::new();
    assert!(loc.get().is_none());
    assert!(loc.release().is_err());
    assert!(loc.write(100).is_ok());
    assert!(loc.get().is_none());
    assert!(loc.commit().is_ok());
    assert!(loc.commit().is_err());
    assert_eq!(loc.get(), Some(&100));
    assert_eq!(loc.write(200), Err(200));
    assert!(loc.release().is_ok());
    assert!(loc.get().is_none());
    assert!(loc.write(200).is_ok());
    assert!(loc.commit().is_ok());
    assert_eq!(loc.get(), Some(&200));
}
