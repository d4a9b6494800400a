use std::io::{Cursor, Write};

use lumen_grabber::archive::ffmpeg_from_archive;
use lumen_grabber::setup::ArchiveKind;

fn zip_of(members: &[(&str, &[u8])]) -> Vec<u8> {
    let mut w = zip::ZipWriter::new(Cursor::new(Vec::new()));
    for (name, data) in members {
        w.start_file(*name, zip::write::SimpleFileOptions::default()).unwrap();
        w.write_all(data).unwrap();
    }
    w.finish().unwrap().into_inner()
}

fn tar_gz_of(members: &[(&str, &[u8])]) -> Vec<u8> {
    let enc = flate2::write::GzEncoder::new(Vec::new(), flate2::Compression::default());
    let mut b = tar::Builder::new(enc);
    for (path, data) in members {
        let mut h = tar::Header::new_gnu();
        h.set_size(data.len() as u64);
        h.set_mode(0o755);
        b.append_data(&mut h, *path, *data).unwrap();
    }
    b.into_inner().unwrap().finish().unwrap()
}

#[test]
fn zip_gives_the_first_ffmpeg_member() {
    let a = zip_of(&[
        ("README.txt", b"read me"),
        ("bin/ffprobe.exe", b"probe"),
        ("bin/ffmpeg.exe", b"the program"),
        ("other/ffmpeg", b"second"),
    ]);
    assert_eq!(ffmpeg_from_archive(&a, ArchiveKind::Zip), Ok(Some(b"the program".to_vec())));
}

#[test]
fn zip_without_ffmpeg_gives_none() {
    let a = zip_of(&[("README.txt", b"x"), ("ffprobe", b"y")]);
    assert_eq!(ffmpeg_from_archive(&a, ArchiveKind::Zip), Ok(None));
}

#[test]
fn bytes_that_are_not_zip_give_the_error_text() {
    let bad = b"not an archive at all";
    let expected = zip::ZipArchive::new(Cursor::new(&bad[..])).err().unwrap().to_string();
    assert_eq!(ffmpeg_from_archive(bad, ArchiveKind::Zip), Err(expected));
}

#[test]
fn tar_gz_gives_the_first_ffmpeg_member() {
    let a = tar_gz_of(&[
        ("ffmpeg-7.0-amd64-static/readme.txt", b"r"),
        ("ffmpeg-7.0-amd64-static/ffprobe", b"p"),
        ("ffmpeg-7.0-amd64-static/ffmpeg", b"static program"),
        ("ffmpeg-7.0-amd64-static/qt-faststart", b"q"),
    ]);
    assert_eq!(ffmpeg_from_archive(&a, ArchiveKind::TarGz), Ok(Some(b"static program".to_vec())));
}

#[test]
fn bytes_that_are_not_gzip_give_nothing() {
    assert_eq!(ffmpeg_from_archive(b"\xfd7zXZ\x00 xz data", ArchiveKind::TarGz), Ok(None));
    let a = tar_gz_of(&[("a/ffprobe", b"p")]);
    assert_eq!(ffmpeg_from_archive(&a, ArchiveKind::TarGz), Ok(None));
}
