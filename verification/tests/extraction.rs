use std::io::Cursor;
use std::io::Write;

use msi_extract::Error;
use msi_extract::extract::EntryStatus;
use msi_extract::extract::MsiExtractor;

/// Builds an in-memory cabinet holding the given entries in one folder.
fn build_cab(entries: &[(&str, &[u8])]) -> Vec<u8> {
    let mut builder = cab::CabinetBuilder::new();
    let folder = builder.add_folder(cab::CompressionType::MsZip);
    for (name, _) in entries {
        folder.add_file(name.to_string());
    }
    let mut writer = builder.build(Cursor::new(Vec::new())).unwrap();
    let mut index = 0;
    while let Some(mut file_writer) = writer.next_file().unwrap() {
        file_writer.write_all(entries[index].1).unwrap();
        index += 1;
    }
    writer.finish().unwrap().into_inner()
}

type TableRow = Vec<msi::Value>;

fn str_value(v: &str) -> msi::Value {
    msi::Value::Str(v.to_string())
}

/// Builds an in-memory installer package with the three tables and,
/// optionally, an embedded cabinet stream.
fn build_msi(
    files: Vec<TableRow>,
    components: Vec<TableRow>,
    directories: Vec<TableRow>,
    cab_bytes: Option<&[u8]>,
) -> Vec<u8> {
    let cursor = Cursor::new(Vec::new());
    let mut package = msi::Package::create(msi::PackageType::Installer, cursor).unwrap();
    package
        .create_table(
            "File",
            vec![
                msi::Column::build("File").primary_key().string(72),
                msi::Column::build("FileName").nullable().string(255),
                msi::Column::build("Component_").nullable().string(72),
            ],
        )
        .unwrap();
    package
        .create_table(
            "Component",
            vec![
                msi::Column::build("Component").primary_key().string(72),
                msi::Column::build("Directory_").nullable().string(72),
            ],
        )
        .unwrap();
    package
        .create_table(
            "Directory",
            vec![
                msi::Column::build("Directory").primary_key().string(72),
                msi::Column::build("Directory_Parent").nullable().string(72),
                msi::Column::build("DefaultDir").nullable().string(255),
            ],
        )
        .unwrap();
    package.insert_rows(msi::Insert::into("File").rows(files)).unwrap();
    package.insert_rows(msi::Insert::into("Component").rows(components)).unwrap();
    package.insert_rows(msi::Insert::into("Directory").rows(directories)).unwrap();
    if let Some(bytes) = cab_bytes {
        let mut stream = package.write_stream("payload.cab").unwrap();
        stream.write_all(bytes).unwrap();
    }
    package.into_inner().unwrap().into_inner()
}

fn standard_directories() -> Vec<TableRow> {
    vec![
        vec![str_value("TARGETDIR"), msi::Value::Null, str_value("SourceDir")],
        vec![str_value("DA"), str_value("TARGETDIR"), str_value("da|DirA")],
        vec![str_value("DB"), str_value("DA"), str_value("db|DirB")],
    ]
}

#[test]
fn round_trip_extraction() {
    let cab_bytes = build_cab(&[("a", b"alpha payload"), ("b", b"beta payload")]);
    let msi_bytes = build_msi(
        vec![
            vec![str_value("a"), str_value("A.TXT|alpha.txt"), str_value("c1")],
            vec![str_value("b"), str_value("B.TXT|beta.txt"), str_value("c2")],
        ],
        vec![
            vec![str_value("c1"), str_value("DA")],
            vec![str_value("c2"), str_value("DB")],
        ],
        standard_directories(),
        Some(&cab_bytes),
    );
    let mut extractor = MsiExtractor::from_reader(msi_bytes).unwrap();
    let results = extractor.extract_entries();
    assert_eq!(results.len(), 2);
    assert_eq!(results[0].name, "a");
    match &results[0].status {
        EntryStatus::Extracted(segments, data) => {
            assert_eq!(segments, &vec!["DirA".to_string(), "alpha.txt".to_string()]);
            assert_eq!(data, b"alpha payload");
        },
        other => panic!("entry a not extracted: {other:?}"),
    }
    assert_eq!(results[1].name, "b");
    match &results[1].status {
        EntryStatus::Extracted(segments, data) => {
            assert_eq!(
                segments,
                &vec!["DirA".to_string(), "DirB".to_string(), "beta.txt".to_string()]
            );
            assert_eq!(data, b"beta payload");
        },
        other => panic!("entry b not extracted: {other:?}"),
    }
}

#[test]
fn missing_mapping_tolerance() {
    let cab_bytes = build_cab(&[
        ("a", b"alpha payload"),
        ("ghost", b"nobody owns this"),
        ("b", b"beta payload"),
    ]);
    let msi_bytes = build_msi(
        vec![
            vec![str_value("a"), str_value("A.TXT|alpha.txt"), str_value("c1")],
            vec![str_value("ghost"), str_value("G.TXT|ghost.txt"), str_value("nope")],
            vec![str_value("b"), str_value("B.TXT|beta.txt"), str_value("c2")],
        ],
        vec![
            vec![str_value("c1"), str_value("DA")],
            vec![str_value("c2"), str_value("DB")],
        ],
        standard_directories(),
        Some(&cab_bytes),
    );
    let mut extractor = MsiExtractor::from_reader(msi_bytes).unwrap();
    let results = extractor.extract_entries();
    assert_eq!(results.len(), 3);
    assert_eq!(results[0].name, "a");
    assert_eq!(results[1].name, "ghost");
    assert_eq!(results[2].name, "b");
    assert!(matches!(results[1].status, EntryStatus::Unresolvable(Error::Other)));
    match &results[0].status {
        EntryStatus::Extracted(segments, data) => {
            assert_eq!(segments, &vec!["DirA".to_string(), "alpha.txt".to_string()]);
            assert_eq!(data, b"alpha payload");
        },
        other => panic!("entry a not extracted: {other:?}"),
    }
    match &results[2].status {
        EntryStatus::Extracted(segments, data) => {
            assert_eq!(
                segments,
                &vec!["DirA".to_string(), "DirB".to_string(), "beta.txt".to_string()]
            );
            assert_eq!(data, b"beta payload");
        },
        other => panic!("entry b not extracted: {other:?}"),
    }
}

#[test]
fn colliding_paths_both_reported() {
    let cab_bytes = build_cab(&[("f1", b"first bytes"), ("f2", b"second bytes")]);
    let msi_bytes = build_msi(
        vec![
            vec![str_value("f1"), str_value("X.TXT|same.txt"), str_value("c1")],
            vec![str_value("f2"), str_value("Y.TXT|same.txt"), str_value("c1")],
        ],
        vec![vec![str_value("c1"), str_value("DA")]],
        standard_directories(),
        Some(&cab_bytes),
    );
    let mut extractor = MsiExtractor::from_reader(msi_bytes).unwrap();
    let results = extractor.extract_entries();
    assert_eq!(results.len(), 2);
    let expected = vec!["DirA".to_string(), "same.txt".to_string()];
    match (&results[0].status, &results[1].status) {
        (EntryStatus::Extracted(s1, d1), EntryStatus::Extracted(s2, d2)) => {
            assert_eq!(s1, &expected);
            assert_eq!(s2, &expected);
            assert_eq!(d1, b"first bytes");
            assert_eq!(d2, b"second bytes");
        },
        other => panic!("collision entries not both extracted: {other:?}"),
    }
}

#[test]
fn from_msi_accepts_parsed_package() {
    let cab_bytes = build_cab(&[("a", b"alpha payload")]);
    let msi_bytes = build_msi(
        vec![vec![str_value("a"), str_value("A.TXT|alpha.txt"), str_value("c1")]],
        vec![vec![str_value("c1"), str_value("DA")]],
        standard_directories(),
        Some(&cab_bytes),
    );
    let package = msi::Package::open(Cursor::new(msi_bytes)).unwrap();
    let mut extractor = MsiExtractor::from_msi(package).unwrap();
    let results = extractor.extract_entries();
    assert_eq!(results.len(), 1);
    assert!(matches!(results[0].status, EntryStatus::Extracted(_, _)));
}

#[test]
fn missing_directory_name_is_reported_beside_the_outcome() {
    let cab_bytes = build_cab(&[("a", b"alpha payload")]);
    let msi_bytes = build_msi(
        vec![vec![str_value("a"), str_value("A.TXT|alpha.txt"), str_value("c1")]],
        vec![vec![str_value("c1"), str_value("DB")]],
        vec![
            vec![str_value("TARGETDIR"), msi::Value::Null, str_value("SourceDir")],
            vec![str_value("DA"), str_value("TARGETDIR"), msi::Value::Null],
            vec![str_value("DB"), str_value("DA"), str_value("db|DirB")],
        ],
        Some(&cab_bytes),
    );
    let mut extractor = MsiExtractor::from_reader(msi_bytes).unwrap();
    let results = extractor.extract_entries();
    assert_eq!(results.len(), 1);
    match &results[0].status {
        EntryStatus::Extracted(segments, data) => {
            assert_eq!(
                segments,
                &vec!["".to_string(), "DirB".to_string(), "alpha.txt".to_string()]
            );
            assert_eq!(data, b"alpha payload");
        },
        other => panic!("entry a not extracted: {other:?}"),
    }
    assert_eq!(extractor.missing_for_entry("a").unwrap(), vec!["DA".to_string()]);
}

#[test]
fn truncated_cabinet_entry_is_unreadable() {
    let mut cab_bytes = build_cab(&[("a", b"alpha payload that is long enough to matter")]);
    cab_bytes.truncate(cab_bytes.len() - 10);
    let msi_bytes = build_msi(
        vec![vec![str_value("a"), str_value("A.TXT|alpha.txt"), str_value("c1")]],
        vec![vec![str_value("c1"), str_value("DA")]],
        standard_directories(),
        Some(&cab_bytes),
    );
    let mut extractor = MsiExtractor::from_reader(msi_bytes).unwrap();
    let results = extractor.extract_entries();
    assert_eq!(results.len(), 1);
    assert_eq!(results[0].name, "a");
    assert!(matches!(results[0].status, EntryStatus::Unreadable(Error::Contract(_))));
}

#[test]
fn no_cabinet_stream_fails() {
    let msi_bytes = build_msi(
        vec![vec![str_value("a"), str_value("A.TXT|alpha.txt"), str_value("c1")]],
        vec![vec![str_value("c1"), str_value("DA")]],
        standard_directories(),
        None,
    );
    assert!(matches!(
        MsiExtractor::from_reader(msi_bytes),
        Err(Error::Other)
    ));
}

#[test]
fn unparsable_package_fails() {
    let bytes = vec![0u8; 16];
    assert!(matches!(
        MsiExtractor::from_reader(bytes),
        Err(Error::Contract(_))
    ));
}
