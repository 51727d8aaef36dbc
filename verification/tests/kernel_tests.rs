use mapgen_core::kernel::Kernel;

#[test]
fn small_kernels_are_forced_square() {
    let k = Kernel::new(3, 100);
    assert_eq!(k.circularity, 0);
    for x in 0..3 {
        for y in 0..3 {
            assert!(k.active(x, y));
        }
    }
}

#[test]
fn unit_kernel_is_a_single_cell() {
    let k = Kernel::new(1, 0);
    assert_eq!(k.size, 1);
    assert!(k.active(0, 0));
}

#[test]
fn full_circularity_cuts_the_corners() {
    // Size 5, circularity 1: radius reaches the nearest border only, so
    // the four corner cells fall outside the disk.
    let k = Kernel::new(5, 100);
    assert!(!k.active(0, 0));
    assert!(!k.active(0, 4));
    assert!(!k.active(4, 0));
    assert!(!k.active(4, 4));
    assert!(k.active(2, 2));
    assert!(k.active(0, 2));
    assert!(k.active(2, 0));
}

#[test]
fn zero_circularity_keeps_the_full_square() {
    // Size 5, circularity 0: radius reaches the corners, so every cell
    // is part of the stamp.
    let k = Kernel::new(5, 0);
    for x in 0..5 {
        for y in 0..5 {
            assert!(k.active(x, y));
        }
    }
}

#[test]
fn intermediate_circularity_lies_between() {
    let square = Kernel::new(9, 0);
    let disk = Kernel::new(9, 100);
    let mid = Kernel::new(9, 50);
    let mut n_square = 0;
    let mut n_disk = 0;
    let mut n_mid = 0;
    for x in 0..9 {
        for y in 0..9 {
            if square.active(x, y) {
                n_square += 1;
            }
            if disk.active(x, y) {
                n_disk += 1;
            }
            if mid.active(x, y) {
                n_mid += 1;
            }
        }
    }
    assert_eq!(n_square, 81);
    assert!(n_disk < n_mid && n_mid <= n_square);
}
