use std::io::Read;

use rmskin_builder::archive::{archive_tree, TreeEntry};
use rmskin_builder::builder::build_package;
use rmskin_builder::errors::BuildError;
use rmskin_builder::footer::append_footer;
use rmskin_builder::header::normalize_header;

fn chars(s: &str) -> Vec<char> {
    s.chars().collect()
}

fn bmp_bytes(w: u32, h: u32) -> Vec<u8> {
    let img = image::DynamicImage::ImageRgb8(image::RgbImage::new(w, h));
    let mut out = Vec::new();
    img.write_to(&mut std::io::Cursor::new(&mut out), image::ImageFormat::Bmp)
        .unwrap();
    out
}

fn file_entry(path: &str, data: &[u8]) -> TreeEntry {
    TreeEntry { path: chars(path), is_dir: false, data: data.to_vec() }
}

fn dir_entry(path: &str) -> TreeEntry {
    TreeEntry { path: chars(path), is_dir: true, data: Vec::new() }
}

#[test]
fn footer_has_exact_layout() {
    let out = append_footer(vec![1u8, 2, 3]);
    let mut expected = vec![1u8, 2, 3];
    expected.extend_from_slice(&3u64.to_le_bytes());
    expected.push(0);
    expected.extend_from_slice(b"RMSKIN\0");
    assert_eq!(out, expected);
    assert_eq!(out.len(), 3 + 16);
}

#[test]
fn archive_round_trips_files_and_directories() {
    let entries = vec![
        dir_entry("Skins"),
        dir_entry("Skins/Deep"),
        file_entry("Skins/Deep/a.txt", b"alpha"),
        file_entry("Skins/b.bin", &[0u8, 255, 7, 7, 7]),
        file_entry("top.txt", b""),
    ];
    let bytes = archive_tree(&entries).unwrap();
    let mut za = zip::ZipArchive::new(std::io::Cursor::new(bytes)).unwrap();
    assert_eq!(za.len(), 5);
    {
        let mut f = za.by_name("Skins/Deep/a.txt").unwrap();
        let mut buf = Vec::new();
        f.read_to_end(&mut buf).unwrap();
        assert_eq!(buf, b"alpha".to_vec());
    }
    {
        let mut f = za.by_name("Skins/b.bin").unwrap();
        let mut buf = Vec::new();
        f.read_to_end(&mut buf).unwrap();
        assert_eq!(buf, vec![0u8, 255, 7, 7, 7]);
    }
    {
        let mut f = za.by_name("top.txt").unwrap();
        let mut buf = Vec::new();
        f.read_to_end(&mut buf).unwrap();
        assert!(buf.is_empty());
    }
    {
        let d = za.by_name("Skins/").unwrap();
        assert!(d.is_dir());
    }
    {
        let d = za.by_name("Skins/Deep/").unwrap();
        assert!(d.is_dir());
    }
}

#[test]
fn archived_paths_use_forward_slashes() {
    let entries = vec![
        dir_entry("Skins"),
        dir_entry("Skins\\Nested"),
        file_entry("Skins\\Nested\\win.txt", b"w"),
    ];
    let bytes = archive_tree(&entries).unwrap();
    let mut za = zip::ZipArchive::new(std::io::Cursor::new(bytes)).unwrap();
    for i in 0..za.len() {
        let f = za.by_index(i).unwrap();
        assert!(!f.name().contains('\\'), "name not portable: {}", f.name());
    }
    assert!(za.by_name("Skins/Nested/win.txt").is_ok());
}

#[test]
fn overlong_entry_name_fails_with_io_error() {
    let long_name: String = std::iter::repeat('a').take(70_000).collect();
    let entries = vec![file_entry(&long_name, b"x")];
    assert_eq!(archive_tree(&entries).unwrap_err(), BuildError::IoError);
}

#[test]
fn duplicate_entry_names_fail_with_io_error() {
    let entries = vec![file_entry("same.txt", b"a"), file_entry("same.txt", b"b")];
    assert_eq!(archive_tree(&entries).unwrap_err(), BuildError::IoError);
}

#[test]
fn normalizing_a_canonical_image_changes_nothing() {
    let bmp = bmp_bytes(400, 60);
    let out = normalize_header(Some(&bmp)).unwrap();
    assert_eq!(out, bmp);
    let img = image::load_from_memory(&out).unwrap();
    assert_eq!((img.width(), img.height()), (400, 60));
}

#[test]
fn normalizing_resamples_to_the_canvas() {
    let bmp = bmp_bytes(800, 120);
    let out = normalize_header(Some(&bmp)).unwrap();
    assert_ne!(out, bmp);
    let img = image::load_from_memory(&out).unwrap();
    assert_eq!((img.width(), img.height()), (400, 60));
}

#[test]
fn missing_header_image_is_its_own_error() {
    assert_eq!(normalize_header(None), Err(BuildError::HeaderImageMissing));
}

#[test]
fn undecodable_header_image_is_invalid() {
    let junk = b"this is not a bitmap at all".to_vec();
    assert_eq!(normalize_header(Some(&junk)), Err(BuildError::HeaderImageInvalid));
}

#[test]
fn build_without_metadata_fails_first() {
    let bmp = bmp_bytes(400, 60);
    let tree = vec![file_entry("a.txt", b"x")];
    let err = build_package(None, Some(&bmp), Some(&tree)).unwrap_err();
    assert_eq!(err, BuildError::MetadataNotFound);
}

#[test]
fn build_with_malformed_metadata_fails() {
    let text = b"no equals sign here\n".to_vec();
    let bmp = bmp_bytes(400, 60);
    let tree = vec![file_entry("a.txt", b"x")];
    let err = build_package(Some(&text), Some(&bmp), Some(&tree)).unwrap_err();
    assert_eq!(err, BuildError::MetadataParseError);
}

#[test]
fn build_without_header_image_fails() {
    let text = b"Name=X\n".to_vec();
    let tree = vec![file_entry("a.txt", b"x")];
    let err = build_package(Some(&text), None, Some(&tree)).unwrap_err();
    assert_eq!(err, BuildError::HeaderImageMissing);
}

#[test]
fn build_with_bad_header_image_fails() {
    let text = b"Name=X\n".to_vec();
    let junk = vec![9u8; 32];
    let tree = vec![file_entry("a.txt", b"x")];
    let err = build_package(Some(&text), Some(&junk), Some(&tree)).unwrap_err();
    assert_eq!(err, BuildError::HeaderImageInvalid);
}

#[test]
fn build_with_failed_walk_fails() {
    let text = b"Name=X\n".to_vec();
    let bmp = bmp_bytes(400, 60);
    let err = build_package(Some(&text), Some(&bmp), None).unwrap_err();
    assert_eq!(err, BuildError::ArchiveWalkError);
}

#[test]
fn build_with_default_version_succeeds() {
    let text = b"[rmskin]\nName=NoVersion\n".to_vec();
    let bmp = bmp_bytes(400, 60);
    let tree = vec![file_entry("a.txt", b"x")];
    let pkg = build_package(Some(&text), Some(&bmp), Some(&tree)).unwrap();
    assert_eq!(pkg.metadata.name, b"NoVersion".to_vec());
    assert_eq!(pkg.metadata.version, b"1.0".to_vec());
}

#[test]
fn build_of_empty_tree_still_packages() {
    let text = b"Name=Empty\n".to_vec();
    let bmp = bmp_bytes(400, 60);
    let tree: Vec<TreeEntry> = Vec::new();
    let pkg = build_package(Some(&text), Some(&bmp), Some(&tree)).unwrap();
    let archive = pkg.bytes[..pkg.archive_len].to_vec();
    let za = zip::ZipArchive::new(std::io::Cursor::new(archive)).unwrap();
    assert_eq!(za.len(), 0);
}

#[test]
fn scenario_full_build() {
    let ini = b"[rmskin]\r\nName=MyTheme\r\nVersion=2.3\r\n".to_vec();
    let bmp = bmp_bytes(800, 120);
    let tree = vec![
        dir_entry("Skins"),
        file_entry("Skins\\theme.ini", b"0123456789"),
        file_entry("RMSKIN.ini", &ini),
        file_entry("RMSKIN.bmp", &bmp),
    ];
    let pkg = build_package(Some(&ini), Some(&bmp), Some(&tree)).unwrap();

    assert_eq!(pkg.metadata.name, b"MyTheme".to_vec());
    assert_eq!(pkg.metadata.version, b"2.3".to_vec());

    let img = image::load_from_memory(&pkg.header_image).unwrap();
    assert_eq!((img.width(), img.height()), (400, 60));

    let n = pkg.bytes.len();
    assert_eq!(n, pkg.archive_len + 16);
    assert_eq!(&pkg.bytes[n - 7..], b"RMSKIN\0");
    assert_eq!(pkg.bytes[n - 8], 0u8);
    let len_bytes: [u8; 8] = pkg.bytes[n - 16..n - 8].try_into().unwrap();
    assert_eq!(u64::from_le_bytes(len_bytes) as usize, pkg.archive_len);

    let archive = pkg.bytes[..pkg.archive_len].to_vec();
    let mut za = zip::ZipArchive::new(std::io::Cursor::new(archive)).unwrap();
    {
        let mut f = za.by_name("Skins/theme.ini").unwrap();
        let mut buf = Vec::new();
        f.read_to_end(&mut buf).unwrap();
        assert_eq!(buf, b"0123456789".to_vec());
    }
    {
        let mut f = za.by_name("RMSKIN.bmp").unwrap();
        let mut buf = Vec::new();
        f.read_to_end(&mut buf).unwrap();
        assert_eq!(buf, pkg.header_image);
    }
}
