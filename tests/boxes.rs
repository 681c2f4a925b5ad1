use moq_pub::boxes::{next_atom, read_boxes};
use moq_pub::error::Error;

fn boxed(kind: &[u8; 4], payload: &[u8]) -> Vec<u8> {
    let mut b = ((payload.len() + 8) as u32).to_be_bytes().to_vec();
    b.extend_from_slice(kind);
    b.extend_from_slice(payload);
    b
}

#[test]
fn next_atom_cuts_one_box() {
    let mut buf = boxed(b"ftyp", b"isom");
    buf.extend_from_slice(&[0, 0]);
    let atom = next_atom(&mut buf).unwrap().unwrap();
    assert_eq!(atom, boxed(b"ftyp", b"isom"));
    assert_eq!(buf, vec![0, 0]);
}

#[test]
fn next_atom_waits_on_partial_box() {
    let full = boxed(b"mdat", &[7; 20]);
    for k in 0..full.len() {
        let mut buf = full[..k].to_vec();
        assert_eq!(next_atom(&mut buf), Ok(None));
        assert_eq!(buf, full[..k].to_vec());
    }
}

#[test]
fn next_atom_rejects_impossible_sizes() {
    let mut zero = vec![0, 0, 0, 0, b'm', b'd', b'a', b't'];
    assert_eq!(next_atom(&mut zero), Err(Error::MalformedBox));
    assert_eq!(zero.len(), 8);
    let mut small = vec![0, 0, 0, 5, b'm', b'd', b'a', b't'];
    assert_eq!(next_atom(&mut small), Err(Error::MalformedBox));
    let mut ext = vec![0, 0, 0, 1, b'm', b'd', b'a', b't', 0, 0, 0, 0, 0, 0, 0, 15];
    assert_eq!(next_atom(&mut ext), Err(Error::MalformedBox));
}

#[test]
fn next_atom_reads_extended_size() {
    let mut buf = vec![0, 0, 0, 1, b'm', b'd', b'a', b't', 0, 0, 0, 0, 0, 0, 0, 18, 1, 2, 9];
    let atom = next_atom(&mut buf).unwrap().unwrap();
    assert_eq!(atom.len(), 18);
    assert_eq!(buf, vec![9]);
}

#[test]
fn next_atom_same_boxes_for_every_split() {
    let mut stream = boxed(b"ftyp", b"isom");
    stream.extend(boxed(b"moof", &[1; 9]));
    stream.extend(boxed(b"mdat", &[2; 3]));
    for cut in 0..=stream.len() {
        let mut buf = Vec::new();
        let mut got = Vec::new();
        for part in [&stream[..cut], &stream[cut..]] {
            buf.extend_from_slice(part);
            while let Some(atom) = next_atom(&mut buf).unwrap() {
                got.push(atom);
            }
        }
        assert_eq!(got, vec![boxed(b"ftyp", b"isom"), boxed(b"moof", &[1; 9]), boxed(b"mdat", &[2; 3])]);
        assert!(buf.is_empty());
    }
}

#[test]
fn read_boxes_until_incomplete() {
    let mut buf = boxed(b"ftyp", b"isom");
    buf.extend(boxed(b"free", &[]));
    buf.extend_from_slice(&[0, 0, 0, 40, b'm']);
    let boxes = read_boxes(&mut buf).unwrap();
    assert_eq!(boxes, vec![boxed(b"ftyp", b"isom"), boxed(b"free", &[])]);
    assert_eq!(buf, vec![0, 0, 0, 40, b'm']);
    let mut bad = boxed(b"free", &[]);
    bad.extend_from_slice(&[0, 0, 0, 0, b'm', b'd', b'a', b't']);
    assert_eq!(read_boxes(&mut bad), Err(Error::MalformedBox));
    assert_eq!(bad, vec![0, 0, 0, 0, b'm', b'd', b'a', b't']);
}

#[test]
fn nesting_check() {
    use_nesting();
}

fn use_nesting() {
    let mut ok = vec![0, 0, 0, 24];
    ok.extend_from_slice(b"moov");
    ok.extend_from_slice(&[0, 0, 0, 16]);
    ok.extend_from_slice(b"udta");
    ok.extend_from_slice(&[0, 0, 0, 8]);
    ok.extend_from_slice(b"free");
    assert!(moq_pub::nesting::check_nested(&ok));
    let mut bad = ok.clone();
    bad[16..20].copy_from_slice(&[0, 0, 0, 0]);
    assert!(!moq_pub::nesting::check_nested(&bad));
    let mut leaf = ok.clone();
    leaf[12..16].copy_from_slice(b"free");
    assert!(moq_pub::nesting::check_nested(&leaf));
}
