use append_only_bytes::codec::decode_slice;
use append_only_bytes::codec::encode_slice;
use append_only_bytes::AppendOnlyBytes;
use append_only_bytes::BytesSlice;

#[test]
fn append_monotonic() {
    let mut a = AppendOnlyBytes::new();
    let mut expected: Vec<u8> = Vec::new();
    let pieces: [&[u8]; 4] = [b"", b"ab", b"c", b"defgh"];
    for piece in pieces.iter() {
        a.push_slice(piece);
        expected.extend_from_slice(piece);
        assert_eq!(a.len(), expected.len());
        assert_eq!(a.as_bytes(), &expected[..]);
    }
    a.push(b'!');
    expected.push(b'!');
    assert_eq!(a.len(), expected.len());
    assert_eq!(a.as_bytes(), &expected[..]);
}

#[test]
fn slice_stable_under_growth() {
    let mut a = AppendOnlyBytes::new();
    a.push_str("abc");
    let b = a.slice(..);
    let before = b.as_bytes().to_vec();
    for _ in 0..200 {
        a.push(b'x');
    }
    assert_eq!(b.as_bytes(), &before[..]);
    assert_eq!(b.slice_str(..).unwrap(), "abc");
}

#[test]
fn zero_copy_sharing() {
    // Slices cut from the same post-growth block over adjacent ranges merge
    // into their concatenation.
    let mut a = AppendOnlyBytes::new();
    a.push_str("123");
    let mut x = a.slice(0..3);
    a.push_str("456");
    let y = a.slice(3..6);
    assert!(x.ptr_eq(&y));
    assert!(x.can_merge(&y));
    assert!(x.try_merge(&y).is_ok());
    assert_eq!(x.as_bytes(), b"123456");

    // Slices spanning a growth boundary reference different blocks and never
    // merge.
    let mut a = AppendOnlyBytes::with_capacity(4);
    a.push_str("abcd");
    let before = a.slice(2..4);
    a.push(b'e');
    let after = a.slice(4..5);
    assert!(!before.ptr_eq(&after));
    assert!(!before.can_merge(&after));
    let mut before2 = before.clone();
    assert!(before2.try_merge(&after).is_err());
    assert_eq!(before2.as_bytes(), b"cd");
}

#[test]
fn merge_correctness() {
    // Slices of independently created buffers never reference the same
    // block, even when their generation counts and offsets would line up.
    let mut a1 = AppendOnlyBytes::new();
    a1.push_str("123");
    let mut one = a1.slice(0..3);
    let mut a2 = AppendOnlyBytes::new();
    a2.push_str("abcdef");
    let two = a2.slice(3..6);
    assert!(!one.ptr_eq(&two));
    assert!(!one.can_merge(&two));
    assert!(one.try_merge(&two).is_err());
    assert_eq!(one.as_bytes(), b"123");

    let mut a = AppendOnlyBytes::new();
    a.push_slice(b"hello world");
    let mut left = a.slice(0..5);
    let mid = a.slice(5..6);
    let right = a.slice(6..11);

    // Not adjacent: fails and leaves the left slice unchanged.
    assert!(!left.can_merge(&right));
    assert!(left.try_merge(&right).is_err());
    assert_eq!(left.as_bytes(), b"hello");
    assert_eq!(left.start(), 0);
    assert_eq!(left.end(), 5);

    // Adjacent views of one block: succeeds, content is the concatenation.
    assert!(left.try_merge(&mid).is_ok());
    assert_eq!(left.as_bytes(), b"hello ");
    assert!(left.try_merge(&right).is_ok());
    assert_eq!(left.as_bytes(), b"hello world");
    assert_eq!(left.start(), 0);
    assert_eq!(left.end(), 11);

    // An empty adjacent slice merges and adds nothing.
    let mut empty = a.slice(0..0);
    let whole = a.slice(0..11);
    assert!(empty.try_merge(&whole).is_ok());
    assert_eq!(empty.as_bytes(), b"hello world");
}

#[test]
fn round_trip() {
    let s = BytesSlice::from_bytes(b"payload \xff\x00 bytes");
    let encoded = encode_slice(&s);
    let decoded = decode_slice(&encoded);
    assert_eq!(decoded.as_bytes(), s.as_bytes());
    assert!(decoded.content_eq(&s));
    // The decoded slice lives in a private block: it never aliases the
    // storage the bytes came from.
    assert!(!decoded.ptr_eq(&s));

    let mut a = AppendOnlyBytes::new();
    a.push_str("from a buffer");
    let cut = a.slice(5..6);
    let back = decode_slice(&encode_slice(&cut));
    assert_eq!(back.as_bytes(), cut.as_bytes());
    assert!(!back.ptr_eq(&cut));
}

#[test]
fn concrete_scenario() {
    let mut a = AppendOnlyBytes::new();
    a.push_str("123");
    let b = a.slice(..);
    for _ in 0..10 {
        a.push_str("456");
    }
    assert_eq!(a.len(), 33);
    assert_eq!(a.slice_str(..6).unwrap(), "123456");
    assert_eq!(b.as_bytes(), "123".as_bytes());
    let c = a.slice(..);
    assert_eq!(c.len(), 33);
    assert_eq!(c.slice_str(..6).unwrap(), "123456");
    drop(a);
    assert_eq!(c.len(), 33);
    assert_eq!(c.slice_str(..6).unwrap(), "123456");
}

#[test]
fn growth_policy() {
    let mut a = AppendOnlyBytes::new();
    assert_eq!(a.capacity(), 0);
    assert!(a.is_empty());
    a.push(1);
    // Growth doubles from the MIN_CAPACITY floor.
    assert_eq!(a.capacity(), 32);
    assert!(!a.is_empty());
    a.push_slice(&[0; 31]);
    assert_eq!(a.capacity(), 32);
    a.push(2);
    assert_eq!(a.capacity(), 64);

    // A capacity below the floor grows to the smallest doubling of the floor.
    let mut b = AppendOnlyBytes::with_capacity(20);
    b.push_slice(&[7; 25]);
    assert_eq!(b.capacity(), 32);

    // reserve is a no-op when the capacity already suffices.
    let mut c = AppendOnlyBytes::with_capacity(40);
    c.push_slice(&[1; 10]);
    c.reserve(30);
    assert_eq!(c.capacity(), 40);
    c.reserve(100);
    assert_eq!(c.capacity(), 160);
    assert_eq!(c.len(), 10);
}

#[test]
fn decode_errors() {
    let s = BytesSlice::from_bytes(&[0x66, 0xff, 0x67]);
    assert!(s.slice_str(..).is_err());
    assert_eq!(s.slice_str(0..1).unwrap(), "f");
    assert_eq!(s.slice_str(2..3).unwrap(), "g");

    let mut a = AppendOnlyBytes::new();
    a.push_slice(&[0xc3]);
    assert!(a.slice_str(..).is_err());
    a.push_slice(&[0xa9]);
    assert_eq!(a.slice_str(..).unwrap(), "\u{e9}");
}

#[test]
fn slice_views() {
    let mut a = AppendOnlyBytes::new();
    a.push_str("0123456789");
    assert_eq!(a.get(3), b'3');

    let s = a.slice(2..8);
    assert_eq!(s.start(), 2);
    assert_eq!(s.end(), 8);
    assert_eq!(s.len(), 6);
    assert!(!s.is_empty());
    assert_eq!(s.as_bytes(), b"234567");

    // A sub-slice shares the block and uses block coordinates.
    let t = s.slice_clone(2..4);
    assert!(s.ptr_eq(&t));
    assert_eq!(t.start(), 4);
    assert_eq!(t.end(), 6);
    assert_eq!(t.as_bytes(), b"45");
    assert_eq!(t.slice_str(1..2).unwrap(), "5");

    // Sub-slices of one slice merge without copying.
    let mut front = s.slice_clone(..2);
    let back = s.slice_clone(2..);
    assert!(front.try_merge(&back).is_ok());
    assert_eq!(front.as_bytes(), s.as_bytes());

    let u = s.slice_clone(..);
    assert_eq!(u.start(), 2);
    assert_eq!(u.end(), 8);

    let empty = s.slice_clone(3..3);
    assert!(empty.is_empty());
    assert_eq!(empty.as_bytes(), b"");
}

#[test]
fn empty_buffer() {
    let a = AppendOnlyBytes::new();
    assert_eq!(a.len(), 0);
    assert!(a.is_empty());
    assert_eq!(a.as_bytes(), b"");
    let s = a.slice(..);
    assert!(s.is_empty());
    assert_eq!(s.start(), 0);
    assert_eq!(s.end(), 0);
    assert_eq!(s.slice_str(..).unwrap(), "");
    let whole = a.to_slice();
    assert!(whole.is_empty());
}

#[test]
fn content_equality() {
    let mut a = AppendOnlyBytes::new();
    a.push_str("same");
    let x = a.slice(..);
    let y = BytesSlice::from_bytes(b"same");
    assert!(x.content_eq(&y));
    assert!(!x.ptr_eq(&y));
    // Every standalone slice gets a private block: two of them are never
    // ptr_eq, equal bytes or not.
    let y2 = BytesSlice::from_bytes(b"same");
    assert!(!y.ptr_eq(&y2));
    let z = BytesSlice::from_bytes(b"other");
    assert!(!x.content_eq(&z));
    assert!(!x.content_eq(&x.slice_clone(..3)));
}

#[test]
fn to_slice_whole_region() {
    let mut a = AppendOnlyBytes::new();
    a.push_str("whole");
    let before = a.slice(..);
    let s = a.to_slice();
    assert_eq!(s.start(), 0);
    assert_eq!(s.end(), 5);
    assert_eq!(s.as_bytes(), b"whole");
    // The consumed buffer's block is the one the earlier slice references.
    assert!(before.ptr_eq(&s));
}

#[test]
fn clones_keep_content() {
    let mut a = AppendOnlyBytes::new();
    a.push_str("abc");
    let from_original = a.slice(..);
    let b = a.clone();
    assert_eq!(b.len(), 3);
    assert_eq!(b.as_bytes(), b"abc");
    assert_eq!(b.capacity(), a.capacity());
    a.push(b'd');
    assert_eq!(b.as_bytes(), b"abc");
    // The clone's bytes live in a new block of its own.
    let from_clone = b.slice(..);
    assert!(!from_clone.ptr_eq(&from_original));

    let s = a.slice(..);
    let t = s.clone();
    assert!(s.ptr_eq(&t));
    assert_eq!(t.as_bytes(), b"abcd");

    let d = AppendOnlyBytes::default();
    assert!(d.is_empty());
    assert_eq!(d.capacity(), 0);
}
