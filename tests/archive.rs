use std::io::Write;

use dev_env::archive::{detect_format, extract, stem_name, ArchiveFormat, ExtractError, Extraction};

fn gz(data: &[u8]) -> Vec<u8> {
    let mut e = flate2::write::GzEncoder::new(Vec::new(), flate2::Compression::default());
    e.write_all(data).unwrap();
    e.finish().unwrap()
}

fn tar_of(files: &[(&str, &[u8])]) -> Vec<u8> {
    let mut b = tar::Builder::new(Vec::new());
    let mut dir = tar::Header::new_gnu();
    dir.set_entry_type(tar::EntryType::Directory);
    dir.set_size(0);
    dir.set_mode(0o755);
    dir.set_cksum();
    b.append_data(&mut dir, "jdk-17.0.9/", &[][..]).unwrap();
    for (path, data) in files {
        let mut h = tar::Header::new_gnu();
        h.set_size(data.len() as u64);
        h.set_mode(0o755);
        h.set_cksum();
        b.append_data(&mut h, path, *data).unwrap();
    }
    b.into_inner().unwrap()
}

fn zip_of(files: &[(&str, &[u8])]) -> Vec<u8> {
    let mut w = zip::ZipWriter::new(std::io::Cursor::new(Vec::new()));
    let opts = zip::write::SimpleFileOptions::default();
    w.add_directory("jdk-17.0.9/", opts).unwrap();
    for (path, data) in files {
        w.start_file(*path, opts).unwrap();
        w.write_all(data).unwrap();
    }
    w.finish().unwrap().into_inner()
}

fn entries(x: Extraction) -> Vec<(String, bool, Vec<u8>)> {
    match x {
        Extraction::Entries(v) => v.into_iter().map(|e| (e.path, e.is_dir, e.data)).collect(),
        _ => panic!("expected entries"),
    }
}

const JAVA: &[u8] = b"#!/bin/sh\necho java\n";
const RELEASE: &[u8] = b"JAVA_VERSION=\"17.0.9\"\n";

#[test]
fn test_auto_unzip() {
    let files: &[(&str, &[u8])] = &[("jdk-17.0.9/bin/java", JAVA), ("jdk-17.0.9/release", RELEASE)];
    let z = extract("jdk-17.0.12_windows-x64_bin.zip", &zip_of(files)).unwrap();
    let got = entries(z);
    assert_eq!(got.len(), 3);
    assert!(got[0].1);
    assert_eq!(got[1], ("jdk-17.0.9/bin/java".to_string(), false, JAVA.to_vec()));
    assert_eq!(got[2], ("jdk-17.0.9/release".to_string(), false, RELEASE.to_vec()));
    let t = extract("jdk-17.0.12_linux-aarch64_bin.tar.gz", &gz(&tar_of(files))).unwrap();
    let got = entries(t);
    assert_eq!(got.len(), 3);
    assert!(got[0].1);
    assert_eq!(got[1], ("jdk-17.0.9/bin/java".to_string(), false, JAVA.to_vec()));
    assert_eq!(got[2], ("jdk-17.0.9/release".to_string(), false, RELEASE.to_vec()));
}

#[test]
fn single_stream_round_trips() {
    let data: Vec<u8> = (0..5000u32).map(|i| (i * 7 % 251) as u8).collect();
    for (name, packed) in [
        ("payload.bin.gz", gz(&data)),
        ("payload.bin.bz2", {
            let mut e = bzip2::write::BzEncoder::new(Vec::new(), bzip2::Compression::default());
            e.write_all(&data).unwrap();
            e.finish().unwrap()
        }),
        ("payload.bin.xz", {
            let mut e = xz2::write::XzEncoder::new(Vec::new(), 6);
            e.write_all(&data).unwrap();
            e.finish().unwrap()
        }),
    ] {
        match extract(name, &packed).unwrap() {
            Extraction::Single { name, data: out } => {
                assert_eq!(name, "payload.bin");
                assert_eq!(out, data);
            }
            _ => panic!("expected a single file"),
        }
    }
}

#[test]
fn tar_gz_keeps_modes() {
    let t = gz(&tar_of(&[("jdk-17.0.9/bin/java", JAVA)]));
    match extract("bundle.tar.gz", &t).unwrap() {
        Extraction::Entries(v) => {
            assert_eq!(v.len(), 2);
            assert_eq!(v[1].data, JAVA.to_vec());
            assert_eq!(v[1].mode, Some(0o755));
        }
        _ => panic!("expected entries"),
    }
}

#[test]
fn plain_tar_is_unpacked_whole() {
    assert!(matches!(extract("bundle.tar", &tar_of(&[("jdk-17.0.9/bin/java", JAVA)])), Ok(Extraction::Tar)));
}

#[test]
fn detection_by_name_then_magic() {
    assert_eq!(detect_format("a.tar.gz.part", b""), Some(ArchiveFormat::TarGz));
    assert_eq!(detect_format("a.zip", b""), Some(ArchiveFormat::Zip));
    assert_eq!(detect_format("a.7z", b""), Some(ArchiveFormat::SevenZ));
    assert_eq!(detect_format("a.exe", &[0x50, 0x4b, 3, 4, 0, 0]), None);
    assert_eq!(detect_format("archive", &[0x50, 0x4b, 3, 4, 0, 0]), Some(ArchiveFormat::Zip));
    assert_eq!(detect_format("archive", &[0x1f, 0x8b, 8, 0, 0, 0]), Some(ArchiveFormat::Gz));
    assert_eq!(detect_format("archive", &[0x42, 0x5a, 0x68, 0x39, 0, 0]), Some(ArchiveFormat::Bz2));
    assert_eq!(detect_format("archive", &[0xfd, 0x37, 0x7a, 0x58, 0x5a, 0]), Some(ArchiveFormat::Xz));
    assert_eq!(detect_format("archive", &[0x37, 0x7a, 0xbc, 0xaf, 0x27, 0x1c]), Some(ArchiveFormat::SevenZ));
    assert_eq!(detect_format("archive", &[0x1f, 0x8b]), None);
    assert_eq!(detect_format(".bashrc", &[0x1f, 0x8b, 8, 0, 0, 0]), Some(ArchiveFormat::Gz));
    assert_eq!(stem_name("payload.bin.gz"), "payload.bin");
}

#[test]
fn unrecognized_file_is_refused_and_untouched() {
    let data = b"plain text, not an archive".to_vec();
    let before = data.clone();
    assert!(matches!(extract("notes.txt", &data), Err(ExtractError::UnsupportedFormat)));
    assert!(matches!(extract("notes", &data), Err(ExtractError::UnsupportedFormat)));
    assert_eq!(data, before);
}

#[test]
fn corrupt_archive_is_reported() {
    assert!(matches!(extract("x.gz", b"not gzip at all"), Err(ExtractError::Corrupt)));
    assert!(matches!(extract("x.zip", b"not a zip"), Err(ExtractError::Corrupt)));
}

#[test]
fn seven_zip_is_delegated() {
    assert!(matches!(extract("x.7z", b""), Ok(Extraction::SevenZ)));
}

#[test]
fn tar_entry_with_empty_path_is_refused() {
    let mut b = tar::Builder::new(Vec::new());
    let mut h = tar::Header::new_ustar();
    h.set_size(3);
    h.set_mode(0o644);
    h.set_cksum();
    b.append(&h, &b"abc"[..]).unwrap();
    let t = b.into_inner().unwrap();
    assert!(matches!(extract("broken.tar.gz", &gz(&t)), Err(ExtractError::EmptyEntryPath)));
}

fn tar_with_raw_name(name: &[u8]) -> Vec<u8> {
    let mut b = tar::Builder::new(Vec::new());
    let mut h = tar::Header::new_ustar();
    h.as_old_mut().name[..name.len()].copy_from_slice(name);
    h.set_size(3);
    h.set_mode(0o644);
    h.set_cksum();
    b.append(&h, &b"abc"[..]).unwrap();
    b.into_inner().unwrap()
}

#[test]
fn tar_entry_escaping_the_output_is_refused() {
    for name in [&b"../evil"[..], b"/etc/evil", b"a/../../evil", b"./../evil"] {
        let t = gz(&tar_with_raw_name(name));
        assert!(matches!(extract("x.tar.gz", &t), Err(ExtractError::UnsafeEntryPath)), "{:?}", name);
    }
    for name in [&b"a:b"[..], b"docs/../x", b"a/..b/c", b"a\\..\\b"] {
        let t = gz(&tar_with_raw_name(name));
        match extract("x.tar.gz", &t) {
            Ok(Extraction::Entries(v)) => {
                assert_eq!(v[0].path.as_bytes(), name);
                assert_eq!(v[0].data, b"abc".to_vec());
            }
            _ => panic!("{:?} should be extracted", name),
        }
    }
}
