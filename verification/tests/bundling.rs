use bundler::{bundle, bundle_checked, gives_back, unbundle, BundleError, Extraction, FileContent, FileEntry, FileRead, SourcedEntry};

fn inline(text: &str, path: &str) -> SourcedEntry {
    SourcedEntry {
        entry: FileEntry {
            file_content: FileContent::Data(text.to_string()),
            bundled_path: path.to_string(),
        },
        read: FileRead::Loaded(Vec::new()),
    }
}

fn file(source: &str, read: FileRead, path: &str) -> SourcedEntry {
    SourcedEntry {
        entry: FileEntry {
            file_content: FileContent::Path(source.to_string()),
            bundled_path: path.to_string(),
        },
        read,
    }
}

#[test]
fn concrete_scenario_round_trips() {
    let entries = vec![
        inline("hello", "a.txt"),
        file("/tmp/x.bin", FileRead::Loaded(vec![0, 1, 2, 3]), "dir/b.bin"),
    ];
    let image = bundle(entries).unwrap();
    let steps = unbundle(image).unwrap();
    assert_eq!(
        steps,
        vec![
            Extraction::File("a.txt".to_string(), b"hello".to_vec()),
            Extraction::File("dir/b.bin".to_string(), vec![0, 1, 2, 3]),
        ]
    );
}

#[test]
fn round_trip_keeps_every_entry_in_input_order() {
    let big: Vec<u8> = (0..100_000u32).map(|i| (i % 251) as u8).collect();
    let entries = vec![
        file("/data/big.bin", FileRead::Loaded(big.clone()), "deep/er/big.bin"),
        inline("", "empty.txt"),
        inline("gr\u{fc}\u{df}e \u{2603}", "text/\u{fc}ber.txt"),
        file("/data/none", FileRead::Loaded(Vec::new()), "none"),
    ];
    let image = bundle(entries).unwrap();
    let steps = unbundle(image).unwrap();
    assert_eq!(
        steps,
        vec![
            Extraction::File("deep/er/big.bin".to_string(), big),
            Extraction::File("empty.txt".to_string(), Vec::new()),
            Extraction::File("text/\u{fc}ber.txt".to_string(), "gr\u{fc}\u{df}e \u{2603}".as_bytes().to_vec()),
            Extraction::File("none".to_string(), Vec::new()),
        ]
    );
}

#[test]
fn inline_entry_ignores_its_read_outcome() {
    let mut entry = inline("payload", "p.txt");
    entry.read = FileRead::OpenFailed;
    assert_eq!(entry.resolve(), Ok(&b"payload"[..]));
    let steps = unbundle(bundle(vec![entry]).unwrap()).unwrap();
    assert_eq!(steps, vec![Extraction::File("p.txt".to_string(), b"payload".to_vec())]);
}

#[test]
fn resolve_chooses_by_content_kind() {
    assert_eq!(inline("h\u{e9}", "a").resolve(), Ok(&[0x68u8, 0xc3, 0xa9][..]));
    assert_eq!(file("/s", FileRead::Loaded(vec![9, 8]), "a").resolve(), Ok(&[9u8, 8][..]));
    assert_eq!(
        file("/s", FileRead::OpenFailed, "a").resolve(),
        Err(BundleError::OpenSource("/s".to_string()))
    );
    assert_eq!(
        file("/s", FileRead::ReadFailed, "a").resolve(),
        Err(BundleError::ReadSource("/s".to_string()))
    );
}

#[test]
fn label_is_payload_or_source_path() {
    assert_eq!(inline("the text", "in/a.txt").entry.label_text(), "in/a.txt");
    assert_eq!(file("/src/x", FileRead::OpenFailed, "a").entry.label_text(), "/src/x");
}

#[test]
fn empty_input_gives_empty_archive() {
    let image = bundle(Vec::new()).unwrap();
    assert!(!image.is_empty());
    assert_eq!(unbundle(image), Ok(Vec::new()));
}

#[test]
fn empty_archive_is_a_bare_end_record() {
    let image = bundle(Vec::new()).unwrap();
    assert_eq!(image.len(), 22);
    assert_eq!(&image[..4], &[0x50, 0x4b, 0x05, 0x06]);
}

#[test]
fn missing_source_fails_the_bundle() {
    let entries = vec![
        inline("hello", "a.txt"),
        file("/no/such/file", FileRead::OpenFailed, "b.bin"),
        inline("later", "c.txt"),
    ];
    let error = bundle(entries).unwrap_err();
    assert_eq!(error, BundleError::OpenSource("/no/such/file".to_string()));
    assert_eq!(error.message(), "Failed to open the file: /no/such/file");
}

#[test]
fn unreadable_source_fails_the_bundle() {
    let entries = vec![file("/dev/broken", FileRead::ReadFailed, "b.bin")];
    let error = bundle(entries).unwrap_err();
    assert_eq!(error, BundleError::ReadSource("/dev/broken".to_string()));
    assert_eq!(error.message(), "Failed to read the file: /dev/broken");
}

#[test]
fn first_failure_in_input_order_wins() {
    let entries = vec![
        file("/first", FileRead::ReadFailed, "a"),
        file("/second", FileRead::OpenFailed, "b"),
    ];
    assert_eq!(bundle(entries), Err(BundleError::ReadSource("/first".to_string())));
}

#[test]
fn repeated_name_is_refused_by_the_writer() {
    let entries = vec![inline("one", "same.txt"), inline("two", "same.txt")];
    let error = bundle(entries).unwrap_err();
    assert_eq!(error, BundleError::StartEntry("same.txt".to_string()));
    assert_eq!(error.message(), "Failed to write the file: same.txt");
}

#[test]
fn repeated_name_of_a_file_reference_names_its_source() {
    let entries = vec![
        inline("one", "same.txt"),
        file("/src/two", FileRead::Loaded(vec![1]), "same.txt"),
    ];
    assert_eq!(bundle(entries), Err(BundleError::StartEntry("/src/two".to_string())));
}

#[test]
fn writer_failures_have_messages() {
    assert_eq!(
        BundleError::WriteEntry("/src/x".to_string()).message(),
        "Failed to write content of: /src/x"
    );
    assert_eq!(BundleError::Finish.message(), "Failed to finish the archive");
    assert_eq!(BundleError::ReadBack.message(), "Failed to read the archive back");
}

#[test]
fn input_order_decides_archive_order_only() {
    let a = inline("alpha", "a.txt");
    let b = file("/b", FileRead::Loaded(vec![7, 7, 7]), "sub/b.bin");
    let c = inline("gamma", "c.txt");
    let forward = unbundle(bundle(vec![a.clone(), b.clone(), c.clone()]).unwrap()).unwrap();
    let mut backward = unbundle(bundle(vec![c, b, a]).unwrap()).unwrap();
    assert_ne!(forward, backward);
    backward.reverse();
    assert_eq!(forward, backward);
}

#[test]
fn entries_are_deflated_and_readable_by_the_zip_crate() {
    let image = bundle(vec![inline(&"abc".repeat(1000), "rep.txt")]).unwrap();
    assert!(image.len() < 1000);
    let mut archive = zip::ZipArchive::new(std::io::Cursor::new(image)).unwrap();
    assert_eq!(archive.len(), 1);
    let mut entry = archive.by_index(0).unwrap();
    assert_eq!(entry.name(), "rep.txt");
    assert_eq!(entry.compression(), zip::CompressionMethod::Deflated);
    let mut body = Vec::new();
    std::io::Read::read_to_end(&mut entry, &mut body).unwrap();
    assert_eq!(body, "abc".repeat(1000).into_bytes());
}

#[test]
fn bundling_is_repeatable() {
    let entries = vec![inline("hello", "a.txt"), inline("world", "b.txt")];
    assert_eq!(bundle(entries.clone()), bundle(entries));
}

#[test]
fn name_too_long_for_the_format_is_refused() {
    let long = "n".repeat(65536);
    let entries = vec![inline("first", "a.txt"), inline("payload", &long), inline("never", "c.txt")];
    assert_eq!(bundle(entries), Err(BundleError::StartEntry(long)));
}

#[test]
fn name_too_long_in_bytes_is_refused() {
    let long = "\u{fc}".repeat(32768);
    assert_eq!(long.chars().count(), 32768);
    let entries = vec![file("/src/long", FileRead::Loaded(vec![1]), &long)];
    assert_eq!(bundle(entries), Err(BundleError::StartEntry("/src/long".to_string())));
}

#[test]
fn longest_name_that_fits_is_packed() {
    let long = "n".repeat(65535);
    let steps = unbundle(bundle(vec![inline("body", &long)]).unwrap()).unwrap();
    assert_eq!(steps, vec![Extraction::File(long, b"body".to_vec())]);
}

#[test]
fn checked_bundle_gives_the_same_image() {
    let entries = vec![
        inline("hello", "a.txt"),
        inline("ignored", "dir/"),
        file("/tmp/x.bin", FileRead::Loaded(vec![0, 1, 2, 3]), "dir/b.bin"),
    ];
    let image = bundle_checked(entries.clone()).unwrap();
    assert_eq!(Ok(image.clone()), bundle(entries.clone()));
    assert!(gives_back(image, &entries));
}

#[test]
fn checked_bundle_fails_as_bundle_does() {
    let entries = vec![inline("one", "same"), inline("two", "same")];
    assert_eq!(bundle_checked(entries.clone()), bundle(entries));
    let unread = vec![file("/gone", FileRead::OpenFailed, "g")];
    assert_eq!(bundle_checked(unread), Err(BundleError::OpenSource("/gone".to_string())));
    assert_eq!(bundle_checked(Vec::new()), bundle(Vec::new()));
}

#[test]
fn gives_back_tells_other_entries_apart() {
    let entries = vec![inline("hello", "a.txt"), inline("world", "b.txt")];
    let image = bundle(entries.clone()).unwrap();
    assert!(gives_back(image.clone(), &entries));
    assert!(!gives_back(image.clone(), &vec![inline("hello", "a.txt")]));
    assert!(!gives_back(image.clone(), &vec![inline("world", "b.txt"), inline("hello", "a.txt")]));
    assert!(!gives_back(image.clone(), &vec![inline("hello", "a.txt"), inline("w0rld", "b.txt")]));
    assert!(!gives_back(image.clone(), &vec![inline("hello", "a.txt"), inline("world", "c.txt")]));
    assert!(!gives_back(
        image.clone(),
        &vec![inline("hello", "a.txt"), file("/b", FileRead::ReadFailed, "b.txt")]
    ));
    assert!(!gives_back(b"no archive".to_vec(), &entries));
    assert!(gives_back(bundle(Vec::new()).unwrap(), &Vec::new()));
}

#[test]
fn directory_marker_is_stored_without_content() {
    let entries = vec![
        inline("ignored", "d/"),
        file("/src/also", FileRead::Loaded(vec![1, 2, 3]), "d/sub/"),
        inline("kept", "d/f.txt"),
    ];
    let image = bundle(entries).unwrap();
    let mut archive = zip::ZipArchive::new(std::io::Cursor::new(image)).unwrap();
    assert_eq!(archive.len(), 3);
    for (index, name) in ["d/", "d/sub/"].iter().enumerate() {
        let mut entry = archive.by_index(index).unwrap();
        assert_eq!(entry.name(), *name);
        assert_eq!(entry.size(), 0);
        let mut body = Vec::new();
        std::io::Read::read_to_end(&mut entry, &mut body).unwrap();
        assert!(body.is_empty());
    }
    let kept = archive.by_index(2).unwrap();
    assert_eq!(kept.name(), "d/f.txt");
    assert_eq!(kept.size(), 4);
}

#[test]
fn directory_marker_still_needs_its_file_read() {
    let entries = vec![file("/gone", FileRead::OpenFailed, "d/")];
    assert_eq!(bundle(entries), Err(BundleError::OpenSource("/gone".to_string())));
}

#[test]
fn directory_marker_with_content_is_not_given_back() {
    let mut writer = zip::ZipWriter::new(std::io::Cursor::new(Vec::new()));
    let options = zip::write::SimpleFileOptions::default();
    writer.start_file("d/", options).unwrap();
    std::io::Write::write_all(&mut writer, b"ignored").unwrap();
    let image = writer.finish().unwrap().into_inner();
    assert!(!gives_back(image, &vec![inline("ignored", "d/")]));
    let marker = bundle(vec![inline("ignored", "d/")]).unwrap();
    assert!(gives_back(marker, &vec![inline("other", "d/")]));
}

#[test]
fn entries_carry_the_epoch_time_stamp() {
    let image = bundle(vec![inline("hello", "a.txt")]).unwrap();
    let mut archive = zip::ZipArchive::new(std::io::Cursor::new(image)).unwrap();
    let entry = archive.by_index(0).unwrap();
    assert_eq!(entry.last_modified(), Some(zip::DateTime::default()));
}
