use std::sync::atomic::Ordering;

use rendezvous::atomic::{pin, Atomic, Handle, Owned, Pointer, Shared};

/// A handle for tests: an address taken as it is, with the alignment of `i8`.
struct ByteBox(usize);

impl Handle for ByteBox {
    fn spec_align() -> usize {
        1
    }

    fn addr(&self) -> usize {
        self.0
    }

    fn align() -> usize {
        1
    }

    fn into_usize(self) -> usize {
        self.0
    }

    fn from_usize(data: usize) -> Self {
        ByteBox(data)
    }
}

/// A handle for tests: an address taken as it is, with the alignment of `i64`.
struct WordBox(usize);

impl Handle for WordBox {
    fn spec_align() -> usize {
        8
    }

    fn addr(&self) -> usize {
        self.0
    }

    fn align() -> usize {
        8
    }

    fn into_usize(self) -> usize {
        self.0
    }

    fn from_usize(data: usize) -> Self {
        WordBox(data)
    }
}

#[test]
fn valid_tag_i8() {
    Shared::<ByteBox>::null().with_tag(0);
}

#[test]
fn valid_tag_i64() {
    Shared::<WordBox>::null().with_tag(7);
}

#[test]
fn tag_is_cut_to_low_bits() {
    let p = Shared::<WordBox>::from_raw(0x1000);
    assert_eq!(p.with_tag(9).tag(), 1);
    assert_eq!(p.with_tag(9).as_raw(), 0x1000);
    let b = Shared::<ByteBox>::from_raw(0x1001);
    assert_eq!(b.with_tag(5).tag(), 0);
    assert_eq!(b.with_tag(5).as_raw(), 0x1001);
}

#[test]
fn tag_round_trip() {
    let p = Shared::<WordBox>::from_raw(0x2a48);
    for t in 0..8usize {
        let q = p.with_tag(t);
        assert_eq!(q.tag(), t);
        assert_eq!(q.as_raw(), p.as_raw());
        assert!(!q.is_null());
    }
}

#[test]
fn null_with_tag_is_still_null() {
    let p = Shared::<WordBox>::null().with_tag(5);
    assert!(p.is_null());
    assert_eq!(p.tag(), 5);
    assert_eq!(p.as_raw(), 0);
}

#[test]
fn fetch_and_changes_only_tag() {
    let g = pin();
    let a = Atomic::<WordBox>::from(Shared::null().with_tag(3));
    assert_eq!(a.fetch_and(2, Ordering::SeqCst, &g).tag(), 3);
    assert_eq!(a.load(Ordering::SeqCst, &g).tag(), 2);
}

#[test]
fn fetch_or_and_xor_keep_address() {
    let g = pin();
    let a = Atomic::<WordBox>::from_raw(0x4000);
    let before = a.fetch_or(0x15, Ordering::SeqCst, &g);
    assert_eq!(before.tag(), 0);
    let now = a.load(Ordering::SeqCst, &g);
    assert_eq!(now.tag(), 5);
    assert_eq!(now.as_raw(), 0x4000);
    a.fetch_xor(0xff, Ordering::SeqCst, &g);
    let now = a.load(Ordering::SeqCst, &g);
    assert_eq!(now.tag(), 2);
    assert_eq!(now.as_raw(), 0x4000);
}

#[test]
fn compare_and_set_success_and_failure() {
    let g = pin();
    let a = Atomic::<WordBox>::null();
    let null = Shared::<WordBox>::null();
    let p = Shared::<WordBox>::from_raw(0x8000).with_tag(1);
    let r = a.compare_and_set(null, p, Ordering::AcqRel, &g);
    assert!(r.is_ok());
    assert!(r.ok().unwrap().eq(&p));
    assert!(a.load(Ordering::Acquire, &g).eq(&p));
    let q = Shared::<WordBox>::from_raw(0x9000);
    match a.compare_and_set(null, q, (Ordering::SeqCst, Ordering::Relaxed), &g) {
        Ok(_) => panic!("the word was not null"),
        Err(e) => {
            assert!(e.current.eq(&p));
            assert!(e.new.eq(&q));
        }
    }
}

#[test]
fn compare_and_set_hands_back_owned() {
    let g = pin();
    let a = Atomic::<WordBox>::from_raw(0x100);
    let owned = Owned::new(WordBox(0x200)).with_tag(3);
    let expected = Shared::<WordBox>::null();
    match a.compare_and_set(expected, owned, Ordering::SeqCst, &g) {
        Ok(_) => panic!("the word was not null"),
        Err(e) => {
            assert_eq!(e.new.tag(), 3);
            assert_eq!(e.new.into_usize(), 0x203);
        }
    }
}

#[test]
fn store_owned_then_take_it_back() {
    let g = pin();
    let a = Atomic::<WordBox>::null();
    a.store(Owned::new(WordBox(0x3000)).with_tag(6), Ordering::Release);
    let s = a.load(Ordering::Acquire, &g);
    assert_eq!(s.tag(), 6);
    assert_eq!(s.as_raw(), 0x3000);
    let owned = a.into_owned().unwrap();
    assert_eq!(owned.tag(), 6);
    assert_eq!(owned.into_handle().0, 0x3000);
}

#[test]
fn swap_returns_previous_word() {
    let g = pin();
    let a = Atomic::<WordBox>::from_raw(0x10);
    let old = a.swap(Shared::<WordBox>::from_raw(0x20).with_tag(2), Ordering::SeqCst, &g);
    assert_eq!(old.as_raw(), 0x10);
    let now = a.load_consume(&g);
    assert_eq!(now.as_raw(), 0x20);
    assert_eq!(now.tag(), 2);
}

#[test]
fn null_atomic_has_no_object() {
    let g = pin();
    let a = Atomic::<WordBox>::null();
    assert!(a.load(Ordering::Relaxed, &g).is_null());
    assert!(a.into_owned().is_none());
}

#[test]
fn shared_into_owned_keeps_word() {
    let s = Shared::<WordBox>::from_raw(0x7000).with_tag(4);
    let owned = s.into_owned();
    assert_eq!(owned.handle().0, 0x7000);
    assert_eq!(owned.tag(), 4);
    assert_eq!(owned.into_usize(), 0x7004);
}

#[test]
fn owned_from_word_splits_tag() {
    let owned = Owned::<WordBox>::from_usize(0x5003);
    assert_eq!(owned.tag(), 3);
    assert_eq!(owned.into_handle().0, 0x5000);
}
