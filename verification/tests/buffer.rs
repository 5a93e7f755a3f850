use ach::buffer::{classify_view, PackageBuffer, ViewClass};
use ach::types::{package_message, Block, Message, NetworkPackage, QC};

fn pkg(view: u64, digest: u64) -> NetworkPackage {
    let block = Block { digest, justify: QC::new(digest - 1, view - 1) };
    package_message(1, Message::Propose(block), view, None)
}

#[test]
fn classification_of_views() {
    assert_eq!(classify_view(3, 5), ViewClass::Stale);
    assert_eq!(classify_view(4, 5), ViewClass::Current);
    assert_eq!(classify_view(5, 5), ViewClass::Current);
    assert_eq!(classify_view(6, 5), ViewClass::Future);
    assert_eq!(classify_view(0, 1), ViewClass::Current);
}

#[test]
fn drain_returns_due_packages_in_view_order() {
    let mut b = PackageBuffer::new();
    assert!(b.is_empty());
    b.push(7, pkg(7, 70));
    b.push(5, pkg(5, 50));
    b.push(4, pkg(4, 40));
    b.push(5, pkg(5, 51));
    b.push(2, pkg(2, 20));
    assert!(!b.is_empty());
    let ready = b.drain_ready(5);
    assert_eq!(ready, vec![pkg(4, 40), pkg(5, 50), pkg(5, 51)]);
    assert!(!b.is_empty());
    assert_eq!(b.drain_ready(6), vec![]);
    assert_eq!(b.drain_ready(7), vec![pkg(7, 70)]);
    assert!(b.is_empty());
}

#[test]
fn drain_of_empty_buffer_in_view_zero() {
    let mut b = PackageBuffer::new();
    assert_eq!(b.drain_ready(0), vec![]);
    assert!(b.is_empty());
}

#[test]
fn stale_packages_are_dropped() {
    let mut b = PackageBuffer::new();
    b.push(1, pkg(1, 10));
    b.push(2, pkg(2, 20));
    assert_eq!(b.drain_ready(9), vec![]);
    assert!(b.is_empty());
}
