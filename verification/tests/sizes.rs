use cargo_soteria::size::{format_bytes, format_size, get_dir_size, show_tree_size, sum_sizes, Counted, DirTree};

fn bytes_by_float(n: u64) -> String {
    if n >= 1_000_000 {
        format!("{:.1} MB", n as f64 / 1_000_000.0)
    } else if n >= 1_000 {
        format!("{:.1} KB", n as f64 / 1_000.0)
    } else {
        format!("{} B", n)
    }
}

fn size_by_float(bytes: u64) -> String {
    let kb: u64 = 1024;
    let mb: u64 = kb * 1024;
    let gb: u64 = mb * 1024;
    if bytes >= gb {
        format!("{:.2} GB", bytes as f64 / gb as f64)
    } else if bytes >= mb {
        format!("{:.2} MB", bytes as f64 / mb as f64)
    } else if bytes >= kb {
        format!("{:.2} KB", bytes as f64 / kb as f64)
    } else {
        format!("{bytes} bytes")
    }
}

fn check(n: u64) {
    assert_eq!(format_bytes(n), bytes_by_float(n), "{n}");
    assert_eq!(format_size(n), size_by_float(n), "{n}");
}

#[test]
fn sizes_are_shown_with_their_unit() {
    assert_eq!(format_bytes(0), "0 B");
    assert_eq!(format_bytes(999), "999 B");
    assert_eq!(format_bytes(1_000), "1.0 KB");
    assert_eq!(format_bytes(1_250), "1.2 KB");
    assert_eq!(format_bytes(1_350), "1.4 KB");
    assert_eq!(format_bytes(999_999), "1000.0 KB");
    assert_eq!(format_bytes(27_340_000), "27.3 MB");
    assert_eq!(format_size(0), "0 bytes");
    assert_eq!(format_size(1023), "1023 bytes");
    assert_eq!(format_size(1024), "1.00 KB");
    assert_eq!(format_size(1536), "1.50 KB");
    assert_eq!(format_size(1024 * 1024), "1.00 MB");
    assert_eq!(format_size(5 * 1024 * 1024 * 1024), "5.00 GB");
}

#[test]
fn small_sizes_are_rounded_like_floats() {
    for n in 0..200_000 {
        check(n);
    }
}

#[test]
fn ties_are_rounded_like_floats() {
    // Multiples of a half of the last digit, where a quotient can lie just on
    // the border between two digits.
    for k in 0..40_000u64 {
        check(1_000_000 + 50_000 * k);
        check(1_000 + 50 * k);
        check(1024 * 1024 + 1024 * 32 * k);
        check(1024 * 1024 * 1024 + 1024 * 1024 * 32 * k);
    }
}

#[test]
fn large_sizes_are_rounded_like_floats() {
    for shift in 20..64 {
        for offset in 0..200u64 {
            let n: u64 = 1 << shift;
            check(n.wrapping_add(offset));
            check(n.wrapping_sub(offset));
            check(n.wrapping_add(offset.wrapping_mul(0x9E37_79B9_7F4A_7C15) >> 1));
        }
    }
    for offset in 0..5_000u64 {
        check(u64::MAX - offset);
        check((1 << 53) + offset);
        check((1 << 54) + offset);
    }
}

#[test]
fn scattered_sizes_are_rounded_like_floats() {
    let mut x: u64 = 1;
    for _ in 0..200_000 {
        x = x.wrapping_mul(6364136223846793005).wrapping_add(1442695040888963407);
        check(x >> (x % 61));
    }
}

#[test]
fn only_regular_files_count() {
    // A file, a symbolic link to it, and a file further down.
    let tree = DirTree::Dir(vec![
        DirTree::File(5),
        DirTree::Other(3),
        DirTree::Dir(vec![DirTree::File(7)]),
    ]);
    assert_eq!(get_dir_size(&tree), Some(12));
    assert_eq!(get_dir_size(&DirTree::Other(3)), Some(0));
    // Where every entry counts, the link does so with its own length.
    assert_eq!(sum_sizes(&tree, Counted::AllEntries), Some(15));
    assert_eq!(sum_sizes(&tree, Counted::RegularFiles), Some(12));
}

#[test]
fn directories_add_up() {
    let tree = DirTree::Dir(vec![
        DirTree::File(10),
        DirTree::Dir(vec![DirTree::File(5), DirTree::Dir(vec![])]),
        DirTree::File(0),
    ]);
    assert_eq!(get_dir_size(&tree), Some(15));
    assert_eq!(get_dir_size(&DirTree::Dir(vec![])), Some(0));
    let huge = DirTree::Dir(vec![DirTree::File(u64::MAX), DirTree::File(1)]);
    assert_eq!(get_dir_size(&huge), None);
    assert_eq!(show_tree_size(&Some(tree), Counted::RegularFiles), "15 bytes");
    assert_eq!(show_tree_size(&Some(huge), Counted::AllEntries), "unknown");
    assert_eq!(show_tree_size(&None, Counted::AllEntries), "unknown");
}
