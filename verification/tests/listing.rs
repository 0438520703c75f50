use logman::listing::{elide_start, format_size, join, order_listing, sort_entries, Keyed, RemoteEntry, PATH_CHARS};

/// A listing entry, for the ordering test.
fn entry(name: &str, is_dir: bool) -> RemoteEntry {
    RemoteEntry { name: name.to_owned(), is_dir, is_symlink: false, size: 0 }
}

#[test]
fn directories_sort_before_files_and_case_is_ignored() {
    let mut entries = vec![
        entry("notes.txt", false),
        entry("Zebra", true),
        entry("apple", true),
        entry("Beta.log", false),
    ];
    sort_entries(&mut entries);

    let names: Vec<&str> = entries.iter().map(|entry| entry.name.as_str()).collect();
    assert_eq!(names, ["apple", "Zebra", "Beta.log", "notes.txt"]);
}

#[test]
fn joining_adds_exactly_one_separator() {
    assert_eq!(join("/home/alice", "notes.txt"), "/home/alice/notes.txt");
    assert_eq!(join("/", ".."), "/..");
    assert_eq!(join("/srv/", "app"), "/srv/app");
}

#[test]
fn a_long_path_keeps_its_tail() {
    let short = "/home/alice";
    assert_eq!(elide_start(short), short);

    let long = "/srv/application/releases/2026-07-30T12-00/logs/today";
    let elided = elide_start(long);
    assert_eq!(elided.chars().count(), PATH_CHARS);
    assert!(elided.starts_with('\u{2026}'));
    assert!(long.ends_with(elided.trim_start_matches('\u{2026}')));
}

#[test]
fn sizes_read_the_way_a_file_manager_writes_them() {
    assert_eq!(format_size(0), "0 B");
    assert_eq!(format_size(1023), "1023 B");
    assert_eq!(format_size(1024), "1.0 KB");
    assert_eq!(format_size(1536), "1.5 KB");
    assert_eq!(format_size(5 * 1024 * 1024), "5.0 MB");
}

/// A size in double precision.
fn float_size(bytes: u64) -> String {
    let units = ["B", "KB", "MB", "GB", "TB"];
    let mut value = bytes as f64;
    let mut unit = 0;
    while value >= 1024. && unit + 1 < units.len() {
        value /= 1024.;
        unit += 1;
    }
    if unit == 0 {
        format!("{bytes} B")
    } else {
        format!("{value:.1} {}", units[unit])
    }
}

#[test]
fn sizes_agree_with_double_precision() {
    let mut seed: u64 = 0x9e37_79b9_7f4a_7c15;
    for shift in 0..64u32 {
        for near in 0..200u64 {
            let power = 1u64 << shift;
            for bytes in [power.wrapping_add(near), power.wrapping_sub(near)] {
                assert_eq!(format_size(bytes), float_size(bytes), "{bytes}");
            }
            seed = seed.wrapping_mul(6364136223846793005).wrapping_add(1442695040888963407);
            let bytes = seed >> shift;
            assert_eq!(format_size(bytes), float_size(bytes), "{bytes}");
        }
    }
    for tenth in 0..4000u64 {
        // The middle between two tenths, where the even one is written.
        let bytes = (2 * tenth + 1) * 1024 / 20;
        for bytes in [bytes.wrapping_sub(1), bytes, bytes + 1, bytes << 10, bytes << 20, bytes << 30, bytes << 40] {
            assert_eq!(format_size(bytes), float_size(bytes), "{bytes}");
        }
        let even = (2 * tenth + 1) * 256;
        assert_eq!(format_size(even), float_size(even), "{even}");
    }
    assert_eq!(format_size(u64::MAX), float_size(u64::MAX));
}

#[test]
fn sorting_agrees_with_the_standard_sort() {
    let names = ["b", "B", "a", "A", "\u{c4}", "\u{e4}", "z", "Z", "", "ab", "aB", "Ab", "1", "_", "\u{1f600}"];
    let mut entries: Vec<RemoteEntry> = Vec::new();
    for (i, first) in names.iter().enumerate() {
        for (j, second) in names.iter().enumerate() {
            entries.push(entry(&format!("{first}{second}"), (i * 7 + j) % 3 == 0));
        }
    }
    let mut expected: Vec<(bool, String, String)> =
        entries.iter().map(|entry| (!entry.is_dir, entry.name.to_lowercase(), entry.name.clone())).collect();
    expected.sort();
    sort_entries(&mut entries);
    let sorted: Vec<(bool, String, String)> =
        entries.iter().map(|entry| (!entry.is_dir, entry.name.to_lowercase(), entry.name.clone())).collect();
    assert_eq!(sorted, expected);
}

#[test]
fn names_that_differ_in_case_fall_back_to_the_exact_order() {
    let mut entries = vec![entry("readme", false), entry("README", false), entry("Readme", false)];
    sort_entries(&mut entries);
    let names: Vec<&str> = entries.iter().map(|entry| entry.name.as_str()).collect();
    assert_eq!(names, ["README", "Readme", "readme"]);
}

#[test]
fn a_sorted_listing_stays_as_it_is() {
    let mut entries = vec![entry("src", true), entry("tests", true), entry("Cargo.toml", false)];
    sort_entries(&mut entries);
    let once: Vec<String> = entries.iter().map(|entry| entry.name.clone()).collect();
    sort_entries(&mut entries);
    let twice: Vec<String> = entries.iter().map(|entry| entry.name.clone()).collect();
    assert_eq!(once, twice);
    assert_eq!(once, ["src", "tests", "Cargo.toml"]);
}

#[test]
fn equal_keys_keep_their_places() {
    let keyed = |size: u64| Keyed {
        lower: "same".to_owned(),
        entry: RemoteEntry { name: "same".to_owned(), is_dir: false, is_symlink: false, size },
    };
    let ordered = order_listing(vec![keyed(3), keyed(1), keyed(2)]);
    let sizes: Vec<u64> = ordered.iter().map(|item| item.entry.size).collect();
    assert_eq!(sizes, [3, 1, 2]);
}

#[test]
fn an_empty_directory_adds_nothing() {
    assert_eq!(join("", "notes.txt"), "notes.txt");
    let exact: String = "x".repeat(PATH_CHARS);
    assert_eq!(elide_start(&exact), exact);
    let longer: String = "x".repeat(PATH_CHARS + 1);
    assert_eq!(elide_start(&longer), format!("\u{2026}{}", "x".repeat(PATH_CHARS - 1)));
}
