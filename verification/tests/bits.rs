use luwen::bits::{read_modify, write_modify};

#[test]
fn test_read_modify() {
    let mut a = [0, 1, 2, 3];

    let a = read_modify(&mut a, 0, 31);

    assert_eq!(a, vec![0, 1, 2, 3]);
}

#[test]
fn test_read_modify_bit() {
    let mut a = [0, 1, 2, 3];

    let a = read_modify(&mut a, 8, 8);

    assert_eq!(a, &[1]);
}

#[test]
fn test_read_modify_bits() {
    let mut a = vec![0, 1, 2, 3];

    let a = read_modify(&mut a, 19, 25);

    assert_eq!(a, &[96]);
}

#[test]
fn test_write_modify() {
    let mut a = vec![0, 1, 2, 3];
    let b = vec![0b110];

    write_modify(&mut a, &b, 0, 31);

    assert_eq!(a, vec![6, 0, 0, 0]);
}

#[test]
fn test_write_modify_bit_low() {
    let mut a = vec![0, 1, 2, 3];
    let b = vec![0b0];

    // A zero written over a bit that is already zero changes nothing.
    write_modify(&mut a, &b, 16, 16);
    assert_eq!(a, vec![0, 1, 2, 3]);

    write_modify(&mut a, &b, 24, 24);
    assert_eq!(a, vec![0, 1, 2, 2]);
}

#[test]
fn test_write_modify_bit_high() {
    let mut a = vec![0, 1, 2, 3];
    let b = vec![0b1];

    // A one written over a bit that is already one changes nothing.
    write_modify(&mut a, &b, 25, 25);
    assert_eq!(a, vec![0, 1, 2, 3]);

    write_modify(&mut a, &b, 18, 18);

    assert_eq!(a, vec![0, 1, 6, 3]);
}

#[test]
fn test_write_modify_bits() {
    let mut a = vec![0, 1, 2, 3];
    let b = vec![0b110];

    write_modify(&mut a, &b, 13, 19);

    assert_eq!(a, vec![0, 193, 0, 3]);
}

#[test]
fn read_after_write_gives_the_value_back() {
    let mut a = vec![0xff, 0x00, 0xaa, 0x55];
    let b = vec![0x5a];
    write_modify(&mut a, &b, 5, 12);
    let mut c = a.clone();
    let r = read_modify(&mut c, 5, 12);
    assert_eq!(r, &[0x5a]);
    // Bits outside the field are untouched.
    assert_eq!(a[0] & 0x1f, 0x1f);
    assert_eq!(a[1] & 0xe0, 0x00);
    assert_eq!(&a[2..], &[0xaa, 0x55]);
}

#[test]
fn writing_back_what_was_read_changes_nothing() {
    let original = vec![0x12, 0x34, 0x56, 0x78];
    let mut scratch = original.clone();
    let field = read_modify(&mut scratch, 3, 21).to_vec();
    let mut a = original.clone();
    write_modify(&mut a, &field, 3, 21);
    assert_eq!(a, original);
}
