use traitor::ring_like::{Factorizable, Primality};

#[test]
fn primality() {
    assert!(18446744073709551557u64.prime());
    assert!(!18446744073709551559u64.prime());
    assert!(!18446744073709551555u64.prime());

    assert!(2147483647u32.prime());
    assert!(!2147483649u32.prime());
    assert!(!2147483645u32.prime());

    assert!(65521u16.prime());
    assert!(65519u16.prime());
    assert!(!65523u16.prime());

    assert!(251u8.prime());
    assert!(!253u8.prime());
    assert!(!249u8.prime());

    assert!(13u8.prime());
    assert!(!15u8.prime());
}

#[test]
fn factor() {
    assert_eq!(91u8.factors(), vec![7, 13]);
    assert_eq!((-91i8).factors(), vec![-1, 7, 13]);

    assert_eq!(360u16.factors(), vec![2, 2, 2, 3, 3, 5]);
    assert_eq!((-360i16).factors(), vec![-1, 2, 2, 2, 3, 3, 5]);

    assert_eq!(1971813u32.factors(), vec![3, 17, 23, 41, 41]);
    assert_eq!((-1971813i32).factors(), vec![-1, 3, 17, 23, 41, 41]);

    assert_eq!(1971813u32.factors(), vec![3, 17, 23, 41, 41]);
    assert_eq!((-1971813i32).factors(), vec![-1, 3, 17, 23, 41, 41]);

    assert_eq!(
        0x344CAF57AB24A9u64.factors(),
        vec![101, 101, 103, 103, 107, 107, 109, 109]
    );
    assert_eq!(
        (-0x344CAF57AB24A9i64).factors(),
        vec![-1, 101, 101, 103, 103, 107, 107, 109, 109]
    );

    fn factors_slice<Z: Factorizable>(x: Z, dest: &mut [Z]) -> usize {
        let mut i = 0;
        for f in x.factors() {
            if i < dest.len() {
                dest[i] = f;
                i += 1;
            } else {
                return i;
            }
        }
        return i;
    }

    let mut factors = [0xFF; 3];

    // test 0 returns 0
    assert_eq!(factors_slice(0u8, &mut factors), 1);
    assert_eq!(&factors, &[0, 0xFF, 0xFF]);

    // test 1 returns 1
    assert_eq!(factors_slice(1u8, &mut factors), 0);
    assert_eq!(&factors, &[0, 0xFF, 0xFF]);

    // test the algorithm stopping at the end of the array
    assert_eq!(factors_slice(210u8, &mut factors), 3);
    assert_eq!(&factors, &[2, 3, 5]); // skips 7

    let mut factors = [0; 10];

    // test -1 giving -1
    assert_eq!(factors_slice(-1i64, &mut factors), 1);
    assert_eq!(&factors, &[-1, 0, 0, 0, 0, 0, 0, 0, 0, 0]);

    assert_eq!(factors_slice(-0x344CAF57AB24A9i64, &mut factors), 9);
    assert_eq!(&factors, &[-1, 101, 101, 103, 103, 107, 107, 109, 109, 0]);

    assert_eq!(factors_slice(0x344CAF57AB24A9i64, &mut factors), 8);
    assert_eq!(&factors, &[101, 101, 103, 103, 107, 107, 109, 109, 109, 0]);
}
