use baby_bear::channel::{payload_words, ReadCursor, WORD_SIZE};
use baby_bear::rou::{rou_fwd, rou_rev, MAX_ROU_PO2, ROU_FWD, ROU_REV};
use baby_bear::{Elem, P};

#[test]
fn tables_have_an_entry_for_every_size() {
    assert_eq!(MAX_ROU_PO2, 27);
    assert_eq!(ROU_FWD.len(), 28);
    assert_eq!(ROU_REV.len(), 28);
    assert_eq!(ROU_FWD[0], 1);
    assert_eq!(ROU_FWD[1], P - 1);
    assert_eq!(ROU_FWD[27], 137);
    assert_eq!(ROU_REV[27], 749463956);
    for i in 0..=MAX_ROU_PO2 {
        assert!(ROU_FWD[i] < P);
        assert!(ROU_REV[i] < P);
        assert_eq!(u32::from(rou_fwd(i)), ROU_FWD[i]);
        assert_eq!(u32::from(rou_rev(i)), ROU_REV[i]);
    }
}

#[test]
fn forward_roots_are_primitive() {
    for i in 0..=MAX_ROU_PO2 {
        let w = rou_fwd(i);
        assert_eq!(w.pow(1 << i), Elem::one());
        if i >= 1 {
            assert_ne!(w.pow(1 << (i - 1)), Elem::one());
            assert_eq!(w.pow(1 << (i - 1)), Elem::new(P - 1));
        }
    }
}

#[test]
fn reverse_roots_are_the_inverses() {
    for i in 0..=MAX_ROU_PO2 {
        assert_eq!(rou_fwd(i) * rou_rev(i), Elem::one());
        assert_eq!(rou_fwd(i).inv(), rou_rev(i));
    }
}

#[test]
fn payload_is_padded_to_whole_words() {
    assert_eq!(WORD_SIZE, 4);
    assert_eq!(payload_words(0), 0);
    assert_eq!(payload_words(1), 1);
    assert_eq!(payload_words(3), 1);
    assert_eq!(payload_words(4), 1);
    assert_eq!(payload_words(5), 2);
    assert_eq!(payload_words(8), 2);
    assert_eq!(payload_words(u32::MAX), 1 << 30);
    assert_eq!(payload_words(u32::MAX - 3), (1 << 30) - 1);
}

#[test]
fn cursor_walks_the_records_in_order() {
    // Two records: five bytes in two words, then eight bytes in two words.
    let input: [u32; 8] = [5, 0xaaaa, 0xbb, 8, 0xcccc, 0xdddd, 0, 0];
    let mut cursor = ReadCursor::new();
    assert_eq!(cursor.position(), 0);

    assert!(cursor.can_receive(&input));
    let (words, nbytes) = cursor.receive(&input);
    assert_eq!(nbytes, 5);
    assert_eq!(words, &[0xaaaa, 0xbb]);
    assert_eq!(cursor.position(), 3);

    assert!(cursor.can_receive(&input));
    let (words, nbytes) = cursor.receive(&input);
    assert_eq!(nbytes, 8);
    assert_eq!(words, &[0xcccc, 0xdddd]);
    assert_eq!(cursor.position(), 6);

    // An empty record is a header alone.
    assert!(cursor.can_receive(&input));
    let (words, nbytes) = cursor.receive(&input);
    assert_eq!(nbytes, 0);
    assert!(words.is_empty());
    assert_eq!(cursor.position(), 7);

    // The last word holds one more empty record, which ends with the region.
    assert!(cursor.can_receive(&input));
    let (words, nbytes) = cursor.receive(&input);
    assert_eq!(nbytes, 0);
    assert!(words.is_empty());
    assert_eq!(cursor.position(), 8);

    // At the end of the region there is nothing left to read.
    assert!(!cursor.can_receive(&input));
}

#[test]
fn record_may_end_with_the_region() {
    // A record of four bytes that fills the region.
    let input: [u32; 2] = [4, 9];
    let mut cursor = ReadCursor::new();
    assert!(cursor.can_receive(&input));
    let (words, nbytes) = cursor.receive(&input);
    assert_eq!(nbytes, 4);
    assert_eq!(words, &[9]);
    assert_eq!(cursor.position(), 2);
    assert!(!cursor.can_receive(&input));

    // Seven bytes in two words, after a record of one byte.
    let input: [u32; 5] = [1, 0xaa, 7, 0xbbbb, 0xcccc];
    let mut cursor = ReadCursor::new();
    let (words, nbytes) = cursor.receive(&input);
    assert_eq!(nbytes, 1);
    assert_eq!(words, &[0xaa]);
    assert!(cursor.can_receive(&input));
    let (words, nbytes) = cursor.receive(&input);
    assert_eq!(nbytes, 7);
    assert_eq!(words, &[0xbbbb, 0xcccc]);
    assert_eq!(cursor.position(), 5);
}

#[test]
fn cursor_refuses_what_does_not_fit() {
    let cursor = ReadCursor::new();
    // Without a header word there is no record.
    assert!(!cursor.can_receive(&[]));
    // A header alone is an empty record.
    assert!(cursor.can_receive(&[0]));
    assert!(cursor.can_receive(&[0, 0]));
    // Four bytes need one word after the header.
    assert!(!cursor.can_receive(&[4]));
    assert!(cursor.can_receive(&[4, 1]));
    assert!(cursor.can_receive(&[4, 1, 0]));
    // Five bytes need two.
    assert!(!cursor.can_receive(&[5, 1]));
    assert!(cursor.can_receive(&[5, 1, 2]));
    assert!(cursor.can_receive(&[5, 1, 2, 0]));
    assert!(!cursor.can_receive(&[u32::MAX, 1, 2, 3]));
}
