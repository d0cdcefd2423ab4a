use hexdump::dump;

fn pad(n: usize) -> String {
    " ".repeat(n)
}

#[test]
fn scenario_two_rows_partial() {
    let lines = dump(b"abcdefghijklmnopq\n");
    assert_eq!(
        lines,
        vec![
            String::from(
                "00000000  61 62 63 64 65 66 67 68  69 6a 6b 6c 6d 6e 6f 70  |abcdefghijklmnop|"
            ),
            format!("00000010  71 0a{}|q.|", pad(45)),
            String::from("00000012"),
        ]
    );
}

#[test]
fn scenario_empty_buffer() {
    assert_eq!(dump(&[]), vec![String::from("00000000")]);
}

#[test]
fn scenario_identical_rows_collapse() {
    let buf = vec![0x41u8; 32];
    assert_eq!(
        dump(&buf),
        vec![
            String::from(
                "00000000  41 41 41 41 41 41 41 41  41 41 41 41 41 41 41 41  |AAAAAAAAAAAAAAAA|"
            ),
            String::from("*"),
            String::from("00000020"),
        ]
    );
}

#[test]
fn scenario_non_adjacent_duplicates_kept() {
    let mut buf = vec![0x61u8; 16];
    buf.extend(vec![0x62u8; 16]);
    buf.extend(vec![0x61u8; 16]);
    assert_eq!(
        dump(&buf),
        vec![
            String::from(
                "00000000  61 61 61 61 61 61 61 61  61 61 61 61 61 61 61 61  |aaaaaaaaaaaaaaaa|"
            ),
            String::from(
                "00000010  62 62 62 62 62 62 62 62  62 62 62 62 62 62 62 62  |bbbbbbbbbbbbbbbb|"
            ),
            String::from(
                "00000020  61 61 61 61 61 61 61 61  61 61 61 61 61 61 61 61  |aaaaaaaaaaaaaaaa|"
            ),
            String::from("00000030"),
        ]
    );
}

#[test]
fn long_run_gives_one_marker() {
    let mut buf = vec![0x00u8; 16 * 4];
    buf.extend(vec![0x01u8; 16]);
    let lines = dump(&buf);
    assert_eq!(lines.len(), 4);
    assert_eq!(
        lines[0],
        "00000000  00 00 00 00 00 00 00 00  00 00 00 00 00 00 00 00  |................|"
    );
    assert_eq!(lines[1], "*");
    assert_eq!(
        lines[2],
        "00000040  01 01 01 01 01 01 01 01  01 01 01 01 01 01 01 01  |................|"
    );
    assert_eq!(lines[3], "00000050");
    assert_eq!(lines.iter().filter(|l| l.as_str() == "*").count(), 1);
}

#[test]
fn run_at_end_of_buffer() {
    let buf = vec![0xabu8; 48];
    assert_eq!(
        dump(&buf),
        vec![
            format!("00000000  {}  {}  |{}|", ["ab"; 8].join(" "), ["ab"; 8].join(" "), "\u{ab}".repeat(16)),
            String::from("*"),
            String::from("00000030"),
        ]
    );
}

#[test]
fn rows_differing_in_last_byte_not_collapsed() {
    let mut buf = vec![0x41u8; 32];
    buf[31] = 0x42;
    let lines = dump(&buf);
    assert_eq!(lines.len(), 3);
    assert!(!lines.iter().any(|l| l == "*"));
    assert!(lines[1].ends_with("|AAAAAAAAAAAAAAAB|"));
    assert!(lines[1].starts_with("00000010  41"));
}

#[test]
fn first_row_of_zeros_is_printed() {
    let lines = dump(&[0u8; 16]);
    assert_eq!(
        lines,
        vec![
            String::from(
                "00000000  00 00 00 00 00 00 00 00  00 00 00 00 00 00 00 00  |................|"
            ),
            String::from("00000010"),
        ]
    );
}

#[test]
fn short_last_row_is_not_elided_against_full_row() {
    let lines = dump(&[0x41u8; 24]);
    assert_eq!(lines.len(), 3);
    assert_eq!(lines[1], format!("00000010  41 41 41 41 41 41 41 41{}|AAAAAAAA|", pad(27)));
    assert_eq!(lines[2], "00000018");
}

#[test]
fn mid_row_gap_in_partial_row() {
    let buf: Vec<u8> = (0u8..9).collect();
    assert_eq!(
        dump(&buf),
        vec![
            format!("00000000  00 01 02 03 04 05 06 07  08{}|.........|", pad(23)),
            String::from("00000009"),
        ]
    );
}

#[test]
fn partial_rows_align_with_full_rows() {
    for n in 1..=16usize {
        let buf: Vec<u8> = (0..n).map(|i| 0x30 + i as u8).collect();
        let lines = dump(&buf);
        assert_eq!(lines.len(), 2);
        assert_eq!(lines[0].find('|'), Some(60), "row of {} bytes", n);
        assert_eq!(lines[0].len(), 62 + n);
    }
    let mut buf = vec![0x20u8; 16];
    buf.extend(vec![0x21u8; 5]);
    let lines = dump(&buf);
    assert_eq!(lines[0].find('|'), Some(60));
    assert_eq!(lines[1].find('|'), Some(60));
}

#[test]
fn dump_twice_is_identical() {
    let buf: Vec<u8> = (0..200u32).map(|i| (i * 7 % 13) as u8).collect();
    assert_eq!(dump(&buf), dump(&buf));
}

#[test]
fn line_count_matches_rows_and_runs() {
    // rows: A A A B B C(short)
    let mut buf = vec![0x41u8; 48];
    buf.extend(vec![0x42u8; 32]);
    buf.extend(vec![0x43u8; 3]);
    let lines = dump(&buf);
    // three data rows, two runs, one total
    assert_eq!(lines.len(), 6);
    assert_eq!(lines[1], "*");
    assert_eq!(lines[3], "*");
    assert_eq!(lines[5], "00000053");
}

#[test]
fn offsets_use_lowercase_hex() {
    let buf: Vec<u8> = (0..=255u8).collect();
    let lines = dump(&buf);
    assert_eq!(lines.len(), 17);
    assert!(lines[10].starts_with("000000a0  a0 a1 a2 a3 a4 a5 a6 a7  a8 a9 aa ab ac ad ae af"));
    assert!(lines[15].starts_with("000000f0  f0 f1"));
    assert_eq!(lines[16], "00000100");
}
