use aprk_kernel::tarfs::{get_file, ls, parse_octal, TarIterator};

fn header(name: &[u8], size_field: &[u8], type_flag: u8) -> Vec<u8> {
    let mut h = vec![0u8; 512];
    h[..name.len()].copy_from_slice(name);
    h[100..108].copy_from_slice(b"0000644\0");
    h[124..124 + size_field.len()].copy_from_slice(size_field);
    h[156] = type_flag;
    h[257..262].copy_from_slice(b"ustar");
    h
}

fn entry(name: &str, data: &[u8]) -> Vec<u8> {
    let size = format!("{:011o}\0", data.len());
    let mut out = header(name.as_bytes(), size.as_bytes(), b'0');
    out.extend_from_slice(data);
    while out.len() % 512 != 0 {
        out.push(0);
    }
    out
}

fn archive(files: &[(&str, &[u8])]) -> Vec<u8> {
    let mut out = Vec::new();
    for (name, data) in files {
        out.extend(entry(name, data));
    }
    out.extend(vec![0u8; 1024]);
    out
}

#[test]
fn octal_sizes() {
    assert_eq!(parse_octal(b"00000000017"), 15);
    assert_eq!(parse_octal(b"0"), 0);
    assert_eq!(parse_octal(b"777"), 511);
    assert_eq!(parse_octal(b"  644 "), 420);
    assert_eq!(parse_octal(b"\t12\n"), 10);
    assert_eq!(parse_octal(b"+17"), 15);
    assert_eq!(parse_octal(b"00000001000"), 512);
    assert_eq!(parse_octal(b"77777777777"), 0o77777777777);
}

#[test]
fn octal_sizes_that_do_not_parse_are_zero() {
    assert_eq!(parse_octal(b""), 0);
    assert_eq!(parse_octal(b"   "), 0);
    assert_eq!(parse_octal(b"+"), 0);
    assert_eq!(parse_octal(b"-17"), 0);
    assert_eq!(parse_octal(b"18"), 0);
    assert_eq!(parse_octal(b"1 7"), 0);
    assert_eq!(parse_octal(b"0x17"), 0);
    assert_eq!(parse_octal(b"++7"), 0);
    assert_eq!(parse_octal(&[0x31, 0xff]), 0);
    // too large for the machine word
    assert_eq!(parse_octal(b"7777777777777777777777777"), 0);
    assert_eq!(parse_octal(b"2000000000000000000000"), 0);
    assert_eq!(parse_octal(b"1777777777777777777777"), usize::MAX);
}

#[test]
fn octal_sizes_agree_with_the_standard_parser() {
    for field in ["17", " 644", "+0", "", "9", "00012", "-1", "1_0", "7777"] {
        let expected = usize::from_str_radix(field.trim(), 8).unwrap_or(0);
        assert_eq!(parse_octal(field.as_bytes()), expected);
    }
}

#[test]
fn iterator_walks_the_entries_in_order() {
    let data = archive(&[("hello.txt", b"Hello, world!\n"), ("empty", b""), ("bin/app", &[7u8; 700])]);
    let mut it = TarIterator::new(&data);
    let a = it.next().unwrap();
    assert_eq!(a.name, "hello.txt");
    assert_eq!(a.size, 14);
    assert_eq!(a.data, b"Hello, world!\n");
    assert!(!a.is_dir);
    let b = it.next().unwrap();
    assert_eq!(b.name, "empty");
    assert_eq!(b.size, 0);
    assert_eq!(b.data, b"");
    let c = it.next().unwrap();
    assert_eq!(c.name, "bin/app");
    assert_eq!(c.size, 700);
    assert_eq!(c.data, &[7u8; 700][..]);
    assert!(it.next().is_none());
    assert!(it.next().is_none());
}

#[test]
fn directory_entries_are_flagged() {
    let mut data = header(b"docs/", b"00000000000\0", b'5');
    data.extend(entry("docs/a", b"x"));
    data.extend(vec![0u8; 1024]);
    let rows = ls(&data);
    assert_eq!(rows.len(), 2);
    assert!(rows[0].is_dir);
    assert_eq!(rows[0].name, "docs/");
    assert_eq!(rows[0].size, 0);
    assert!(!rows[1].is_dir);
    assert_eq!(rows[1].name, "docs/a");
}

#[test]
fn ls_lists_everything_up_to_the_end_marker() {
    let mut data = archive(&[("a", b"1"), ("b", b"22")]);
    // what follows the end marker is not read
    data.extend(entry("hidden", b"333"));
    let rows = ls(&data);
    let names: Vec<&str> = rows.iter().map(|f| f.name.as_str()).collect();
    assert_eq!(names, vec!["a", "b"]);
    assert_eq!(rows[1].data, b"22");
    assert_eq!(ls(&[]).len(), 0);
    assert_eq!(ls(&[0u8; 1024]).len(), 0);
    assert_eq!(ls(&[1u8; 511]).len(), 0);
}

#[test]
fn archive_without_end_marker_ends_at_its_end() {
    let data = entry("only", b"abc");
    assert_eq!(data.len(), 1024);
    let rows = ls(&data);
    assert_eq!(rows.len(), 1);
    assert_eq!(rows[0].data, b"abc");
}

#[test]
fn entry_whose_data_is_cut_off_ends_the_walk() {
    let mut data = entry("ok", b"fine");
    let mut cut = entry("cut", &[1u8; 600]);
    cut.truncate(512 + 599);
    data.extend(cut);
    let rows = ls(&data);
    assert_eq!(rows.len(), 1);
    assert_eq!(rows[0].name, "ok");
    assert!(get_file(&data, "cut").is_none());
}

#[test]
fn data_of_exactly_one_block_is_not_padded() {
    let data = archive(&[("block", &[9u8; 512]), ("next", b"n")]);
    assert_eq!(data.len(), 512 + 512 + 512 + 512 + 1024);
    let rows = ls(&data);
    assert_eq!(rows.len(), 2);
    assert_eq!(rows[0].size, 512);
    assert_eq!(rows[1].name, "next");
    assert_eq!(rows[1].data, b"n");
}

#[test]
fn name_fills_the_whole_field_without_terminator() {
    let name = [b'n'; 100];
    let mut data = header(&name, b"00000000001\0", b'0');
    data.extend(vec![b'!'; 512]);
    let rows = ls(&data);
    assert_eq!(rows[0].name.len(), 100);
    assert_eq!(rows[0].data, b"!");
}

#[test]
fn name_that_is_not_utf8_is_shown_as_unknown() {
    let mut data = header(&[0xff, 0xfe, b'x'], b"00000000000\0", b'0');
    data.extend(vec![0u8; 1024]);
    let rows = ls(&data);
    assert_eq!(rows[0].name, "unknown");
    assert!(get_file(&data, "unknown").is_some());
}

#[test]
fn size_field_that_does_not_parse_means_no_data() {
    let mut data = header(b"odd", b"zzz\0", b'0');
    data.extend(entry("after", b"x"));
    let rows = ls(&data);
    assert_eq!(rows.len(), 2);
    assert_eq!(rows[0].size, 0);
    assert_eq!(rows[1].name, "after");
}

#[test]
fn get_file_finds_the_first_entry_of_that_name() {
    let data = archive(&[("a", b"first"), ("b", b"other"), ("a", b"second")]);
    let f = get_file(&data, "a").unwrap();
    assert_eq!(f.data, b"first");
    assert_eq!(f.size, 5);
    let g = get_file(&data, "b").unwrap();
    assert_eq!(g.data, b"other");
    assert!(get_file(&data, "c").is_none());
    assert!(get_file(&data, "").is_none());
    assert!(get_file(&data, "A").is_none());
    assert!(get_file(&[], "a").is_none());
}
