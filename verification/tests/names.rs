use contained::cstring::{cstr_array_to_string, mkdtemp_buffer, mkdtemp_path};
use contained::hostname::{choose_hostname, hostname};
use contained::kernel::{check_system, system_line, Refusal};
use contained::path::base_name;

#[test]
fn cards_are_drawn_by_the_nanoseconds() {
    assert_eq!(hostname(0, 0), "00000-fool");
    assert_eq!(hostname(0x1234, 21), "01234-world");
    assert_eq!(hostname(0x1234, 22), "01234c-ace-of-swords");
    assert_eq!(hostname(0x1234, 35), "01234c-king-of-swords");
    assert_eq!(hostname(0x1234, 36), "01234c-ace-of-wands");
    assert_eq!(hostname(0xabcdef, 77), "abcdefc-king-of-cups");
    assert_eq!(hostname(1, 78), "00001-fool");
    assert_eq!(hostname(1, 999_999_999), hostname(1, 999_999_999 % 78));
}

#[test]
fn negative_times_wrap() {
    assert_eq!(hostname(-1, 2), "ffffffffffffffff-high-priestess");
    assert_eq!(hostname(0, -1), hostname(0, (u64::MAX % 78) as i64));
}

#[test]
fn hostnames_differ_by_card_and_fit() {
    let mut names: Vec<String> = (0..78).map(|card| hostname(i64::MAX, card)).collect();
    for name in &names {
        assert!(name.len() <= 64);
    }
    names.sort();
    names.dedup();
    assert_eq!(names.len(), 78);
}

#[test]
fn hostnames_agree_only_for_the_same_second_and_card() {
    // The mark of the minor arcana is a hexadecimal digit too.
    assert_eq!(hostname(0x12345, 22), "12345c-ace-of-swords");
    assert_eq!(hostname(0x12345c, 0), "12345c-fool");
    let readings = [0, 1, 0xc, 0x1234, 0x1234c, 0x12345, 0x12345c, 0xccccc, 0xcccccc];
    let mut names: Vec<String> = Vec::new();
    for seconds in readings {
        for nanoseconds in 0..78 {
            let name = hostname(seconds, nanoseconds);
            assert_eq!(name, hostname(seconds, nanoseconds + 78 * 1000));
            names.push(name);
        }
    }
    names.sort();
    names.dedup();
    assert_eq!(names.len(), 78 * readings.len());
}

#[test]
fn chosen_hostname_is_a_card() {
    let name = choose_hostname();
    let card = name.split_once('-').unwrap().1.to_string();
    let cards: Vec<String> =
        (0..78).map(|i| hostname(0, i).split_once('-').unwrap().1.to_string()).collect();
    assert!(cards.contains(&card), "{}", name);
    assert!(name.len() >= 9);
}

#[test]
fn file_names() {
    assert_eq!(base_name("/tmp/tmp.a/oldroot.b").as_deref(), Some("oldroot.b"));
    assert_eq!(base_name("name").as_deref(), Some("name"));
    for path in [
        "", "/", "//", ".", "./", "..", "/..", "a/..", "a/../", "a/.", "a/./", "a//", "/a/b//./",
        "a/...", "a/.b", "a/b/..", "./a", "../a", "a/ ", "é/ß",
    ] {
        let expected = std::path::Path::new(path).file_name().map(|n| n.to_str().unwrap().to_string());
        assert_eq!(base_name(path), expected, "{:?}", path);
    }
}

#[test]
fn accepted_systems() {
    assert_eq!(check_system("6.18.44-fc", "x86_64"), Ok(()));
    assert_eq!(check_system("4", "x86_64"), Ok(()));
    assert_eq!(system_line("5.15.0", "x86_64"), "5.15.0 on x86_64.\n");
}

#[test]
fn refused_systems() {
    assert_eq!(check_system("", "x86_64"), Err(Refusal::WeirdRelease));
    assert_eq!(check_system(".5", "x86_64"), Err(Refusal::WeirdRelease));
    assert_eq!(check_system("v5.1", "arm"), Err(Refusal::WeirdRelease));
    assert_eq!(check_system("5-rc1.2", "x86_64"), Err(Refusal::WeirdRelease));
    assert_eq!(check_system("3.10.0", "arm"), Err(Refusal::TooOld));
    assert_eq!(check_system("5.4.0", "aarch64"), Err(Refusal::WrongMachine));
    assert_eq!(system_line("v5.1", "x86_64"), "weird release format: v5.1\n");
    assert_eq!(system_line("3.10", "x86_64"), "kernel too old: 3.10\n");
    assert_eq!(system_line("5.4.0", "aarch64"), "expected x86_64: aarch64\n");
}

#[test]
fn texts_from_c() {
    assert_eq!(cstr_array_to_string(b"5.4.0\0rubbish\0"), "5.4.0");
    assert_eq!(cstr_array_to_string(b"\0"), "");
    assert_eq!(cstr_array_to_string("é\0".as_bytes()), "é");
    assert_eq!(cstr_array_to_string(b"a\xffb\0"), "a\u{fffd}b");
}

#[test]
fn templates_for_c() {
    let buffer = mkdtemp_buffer("/tmp/tmp.XXXXXX");
    assert_eq!(buffer, b"/tmp/tmp.XXXXXX\0");
    assert_eq!(mkdtemp_path(&buffer), "/tmp/tmp.XXXXXX");
    assert_eq!(mkdtemp_path(b"/tmp/tmp.a1B2c3\0"), "/tmp/tmp.a1B2c3");
    assert_eq!(mkdtemp_path(b"/tmp/\xfe\0"), "/tmp/\u{fffd}");
}
