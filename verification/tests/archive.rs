use skills::archive::{
    check_tar_record, check_zip_index, detect_bytes, le16, le32, le64, safe_path,
    tar_header_valid, zip_data_range, zip_entry_count, zip_mode_allowed, ArchiveError,
    Format, MAX_ENTRIES, MAX_EXPANDED, MAX_METADATA,
};
use skills::decompress::{
    bunzip2_limited, decode_xz, gunzip_limited, read_progress, unpack_payload, xz_progress,
    Payload, Progress,
};
use std::io::{Cursor, Write};
use skills::extract::{plan_extraction, plan_tar_extraction, plan_zip_extraction, ExtractStep};
use skills::archive::{file_permissions, tar_entry_action, zip_entry_action, EntryAction};
use skills::download::{download_step, DownloadStage, DownloadStop};
use skills::download::{check_destination, decimal_string, download_args, failure_detail, http_url, Destination, DestinationError};

fn xz(bytes: &[u8]) -> Vec<u8> {
    let mut writer =
        lzma_rust2::XzWriter::new(Vec::new(), lzma_rust2::XzOptions::with_preset(1)).unwrap();
    writer.write_all(bytes).unwrap();
    writer.finish().unwrap()
}

fn gzip(bytes: &[u8]) -> Vec<u8> {
    let mut writer = flate2::write::GzEncoder::new(Vec::new(), flate2::Compression::fast());
    writer.write_all(bytes).unwrap();
    writer.finish().unwrap()
}

fn bzip2(bytes: &[u8]) -> Vec<u8> {
    let mut writer = bzip2::write::BzEncoder::new(Vec::new(), bzip2::Compression::fast());
    writer.write_all(bytes).unwrap();
    writer.finish().unwrap()
}

fn tar(entries: &[(&str, &[u8])]) -> Vec<u8> {
    let mut builder = tar::Builder::new(Vec::new());
    for (name, contents) in entries {
        let mut header = tar::Header::new_gnu();
        header.set_size(contents.len() as u64);
        header.set_mode(0o755);
        header.set_entry_type(tar::EntryType::Regular);
        header.set_path(name).unwrap();
        header.set_cksum();
        builder.append(&header, Cursor::new(contents)).unwrap();
    }
    builder.into_inner().unwrap()
}

fn zip(entries: &[(&str, &[u8])]) -> Vec<u8> {
    let mut writer = zip::ZipWriter::new(Cursor::new(Vec::new()));
    let options = zip::write::SimpleFileOptions::default()
        .compression_method(zip::CompressionMethod::Deflated)
        .unix_permissions(0o755);
    for (name, content) in entries {
        writer.start_file(*name, options).unwrap();
        writer.write_all(content).unwrap();
    }
    writer.finish().unwrap().into_inner()
}

#[test]
fn xz_streams_are_bounded_and_verify_the_trailer() {
    let content: Vec<_> = (0..200_000).map(|n| (n % 251) as u8).collect();
    let compressed = xz(&content);
    let output = decode_xz(&compressed, MAX_EXPANDED).unwrap();
    assert_eq!(output, content);
    assert!(decode_xz(&compressed, 100).is_err());
    assert!(decode_xz(&compressed[..compressed.len() - 1], MAX_EXPANDED).is_err());
    let joined = [compressed.clone(), compressed].concat();
    let output = decode_xz(&joined, MAX_EXPANDED).unwrap();
    assert_eq!(output.len(), content.len() * 2);
}

#[test]
fn gzip_and_bzip2_streams_expand_within_their_limit() {
    let content: Vec<u8> = (0..70_000).map(|n| (n % 13) as u8).collect();
    let gz = gzip(&content);
    assert_eq!(gunzip_limited(&gz, MAX_EXPANDED).unwrap(), content);
    assert_eq!(gunzip_limited(&gz, 69_999), Err(ArchiveError::SizeLimit));
    assert_eq!(gunzip_limited(&gz[..gz.len() - 4], MAX_EXPANDED), Err(ArchiveError::Corrupt));
    let bz = bzip2(&content);
    assert_eq!(bunzip2_limited(&bz, MAX_EXPANDED).unwrap(), content);
    assert_eq!(bunzip2_limited(&bz, 10), Err(ArchiveError::SizeLimit));
}

#[test]
fn formats_are_recognised_by_content_alone() {
    let archive = tar(&[("bundle/skills/hello/SKILL.md", b"hello")]);
    assert_eq!(detect_bytes(&archive), Some(Format::Tar));
    assert!(tar_header_valid(&archive[..512]));
    let mut broken = archive.clone();
    broken[0] ^= 1;
    assert!(!tar_header_valid(&broken[..512]));
    assert_eq!(detect_bytes(&gzip(&archive)), Some(Format::Gzip));
    assert_eq!(detect_bytes(&bzip2(&archive)), Some(Format::Bzip2));
    assert_eq!(detect_bytes(&xz(&archive)), Some(Format::Xz));
    assert_eq!(detect_bytes(&zip(&[("a", b"b")])), Some(Format::Zip));
    assert_eq!(detect_bytes(b"<html>sign in to download</html>"), None);
}

#[test]
fn payloads_unpack_to_tar_bytes_or_stay_zip() {
    let archive = tar(&[("skill/SKILL.md", b"hello")]);
    assert!(matches!(unpack_payload(&archive, MAX_EXPANDED), Ok(Payload::Tar(v)) if v == archive));
    assert!(matches!(unpack_payload(&gzip(&archive), MAX_EXPANDED), Ok(Payload::Tar(v)) if v == archive));
    assert!(matches!(unpack_payload(&xz(&archive), MAX_EXPANDED), Ok(Payload::Tar(v)) if v == archive));
    assert!(matches!(unpack_payload(&zip(&[("a", b"b")]), MAX_EXPANDED), Ok(Payload::Zip)));
    assert!(matches!(unpack_payload(b"not an archive", MAX_EXPANDED), Err(ArchiveError::Unsupported)));
    assert!(matches!(unpack_payload(&gzip(&archive), 100), Err(ArchiveError::SizeLimit)));
}

#[test]
fn little_endian_fields_are_read_in_place() {
    let bytes = [1u8, 2, 3, 4, 5, 6, 7, 8, 9];
    assert_eq!(le16(&bytes, 1), 0x0302);
    assert_eq!(le32(&bytes, 0), 0x04030201);
    assert_eq!(le64(&bytes, 1), 0x0908070605040302);
}

#[test]
fn zip_entry_counts_are_bounded_before_parsing() {
    let two = zip(&[("one", b"hello"), ("two", b"world")]);
    assert_eq!(zip_entry_count(&two, MAX_ENTRIES), Ok(2));
    assert_eq!(zip_entry_count(&two, 1), Err(ArchiveError::TooManyEntries));
    assert_eq!(zip_entry_count(&two[..two.len() - 1], MAX_ENTRIES), Err(ArchiveError::NoEndRecord));
    let mut split = two.clone();
    let footer = split.len() - 22;
    split[footer + 4] = 1;
    assert_eq!(zip_entry_count(&split, MAX_ENTRIES), Err(ArchiveError::SplitArchive));
    let mut inconsistent = two.clone();
    inconsistent[footer + 10] = 30;
    assert_eq!(zip_entry_count(&inconsistent, MAX_ENTRIES), Err(ArchiveError::InconsistentCounts));
}

#[test]
fn unsafe_archive_paths_are_refused() {
    for name in ["../escape", "/absolute", "a/../../escape", "C:/escape", "a\\escape", "a\nescape"] {
        assert_eq!(safe_path(name), Err(ArchiveError::UnsafePath), "{name:?}");
    }
    assert_eq!(
        safe_path("bundle/./skills//x/").unwrap(),
        vec!["bundle".to_string(), "skills".to_string(), "x".to_string()]
    );
    let deep = vec!["d"; 65].join("/");
    assert_eq!(safe_path(&deep), Err(ArchiveError::PathTooLong));
    assert_eq!(safe_path(&"x".repeat(4097)), Err(ArchiveError::PathTooLong));
}

#[test]
fn tar_records_are_bounded_before_extraction() {
    assert_eq!(check_tar_record(0, 1, true, false, 10), Ok(()));
    assert_eq!(check_tar_record(1, 1, true, false, 10), Err(ArchiveError::TooManyEntries));
    assert_eq!(
        check_tar_record(0, 10, false, false, MAX_METADATA + 1),
        Err(ArchiveError::MetadataTooLarge)
    );
    assert_eq!(check_tar_record(0, 10, false, true, MAX_METADATA + 1), Ok(()));
}

#[test]
fn zip_modes_links_and_overlaps_are_refused() {
    assert!(zip_mode_allowed(0o100644));
    assert!(zip_mode_allowed(0o040755));
    assert!(zip_mode_allowed(0));
    assert!(!zip_mode_allowed(0o120777));
    assert_eq!(zip_data_range(10, 5), Ok((10, 15)));
    assert_eq!(zip_data_range(u64::MAX, 1), Err(ArchiveError::InvalidRange));
    assert_eq!(check_zip_index(2, 2, &[(0, 10), (10, 20)]), Ok(()));
    assert_eq!(check_zip_index(2, 2, &[(10, 20), (0, 11)]), Err(ArchiveError::OverlappingData));
    assert_eq!(check_zip_index(3, 2, &[]), Err(ArchiveError::DuplicateEntries));
}

#[test]
fn decoder_steps_decide_limits_and_truncation() {
    assert_eq!(read_progress(5, 10, 0), Progress::Finished(5));
    assert_eq!(read_progress(5, 10, 5), Progress::More(10));
    assert_eq!(read_progress(5, 10, 6), Progress::Failed(ArchiveError::SizeLimit));
    assert_eq!(xz_progress(0, 10, 3, 4, false), Progress::More(4));
    assert_eq!(xz_progress(0, 10, 0, 0, false), Progress::Failed(ArchiveError::InvalidXz));
    assert_eq!(xz_progress(8, 10, 0, 2, true), Progress::Finished(10));
    assert_eq!(xz_progress(8, 10, 1, 3, true), Progress::Failed(ArchiveError::SizeLimit));
}

#[test]
fn zip64_end_records_are_counted_and_bounded() {
    let mut bytes = zip(&[("skill/SKILL.md", b"hello")]);
    let footer = bytes.split_off(bytes.len() - 22);
    let zip64_offset = bytes.len() as u64;
    let mut zip64 = [0u8; 56];
    zip64[..4].copy_from_slice(b"PK\x06\x06");
    zip64[4..12].copy_from_slice(&44u64.to_le_bytes());
    zip64[12..14].copy_from_slice(&45u16.to_le_bytes());
    zip64[14..16].copy_from_slice(&45u16.to_le_bytes());
    zip64[24..32].copy_from_slice(&1u64.to_le_bytes());
    zip64[32..40].copy_from_slice(&1u64.to_le_bytes());
    zip64[40..48].copy_from_slice(&u64::from(le32(&footer, 12)).to_le_bytes());
    zip64[48..56].copy_from_slice(&u64::from(le32(&footer, 16)).to_le_bytes());
    bytes.extend_from_slice(&zip64);
    bytes.extend_from_slice(b"PK\x06\x07");
    bytes.extend_from_slice(&0u32.to_le_bytes());
    bytes.extend_from_slice(&zip64_offset.to_le_bytes());
    bytes.extend_from_slice(&1u32.to_le_bytes());
    let mut footer = footer;
    footer[8..12].fill(0xff);
    footer[12..20].fill(0xff);
    bytes.extend_from_slice(&footer);
    assert_eq!(zip_entry_count(&bytes, MAX_ENTRIES), Ok(1));
    bytes[zip64_offset as usize + 24..zip64_offset as usize + 32].copy_from_slice(&u64::MAX.to_le_bytes());
    bytes[zip64_offset as usize + 32..zip64_offset as usize + 40].copy_from_slice(&u64::MAX.to_le_bytes());
    assert_eq!(zip_entry_count(&bytes, MAX_ENTRIES), Err(ArchiveError::TooManyEntries));
}

#[test]
fn earlier_end_records_cannot_raise_the_count() {
    let original = zip(&[("skill/SKILL.md", b"hello")]);
    let footer = &original[original.len() - 22..];
    let mut misleading_footer = footer.to_vec();
    misleading_footer[16..20].copy_from_slice(&0u32.to_le_bytes());
    let mut earlier = footer.to_vec();
    earlier[8..10].copy_from_slice(&30_000u16.to_le_bytes());
    earlier[10..12].copy_from_slice(&30_000u16.to_le_bytes());
    let mut bytes = original.clone();
    bytes.resize(64 * 1024 - 2, 0);
    bytes.extend_from_slice(&earlier);
    bytes.extend_from_slice(&misleading_footer);
    assert_eq!(zip_entry_count(&bytes, MAX_ENTRIES), Err(ArchiveError::EndRecordLimit));
    for (record_size, count) in [(44u64, u64::MAX), (MAX_METADATA + 1, 1)] {
        let mut bytes = original.clone();
        let mut header = [0u8; 56];
        header[..4].copy_from_slice(b"PK\x06\x06");
        header[4..12].copy_from_slice(&record_size.to_le_bytes());
        header[24..32].copy_from_slice(&count.to_le_bytes());
        header[32..40].copy_from_slice(&count.to_le_bytes());
        bytes.extend_from_slice(&header);
        bytes.resize(bytes.len() + record_size as usize - 44, 0);
        bytes.extend_from_slice(&misleading_footer);
        assert_eq!(zip_entry_count(&bytes, MAX_ENTRIES), Err(ArchiveError::Zip64Limit));
    }
}

#[test]
fn stored_nested_archives_do_not_count_as_end_records() {
    let inner = zip(&[("reference.txt", b"nested resource")]);
    let mut writer = zip::ZipWriter::new(Cursor::new(Vec::new()));
    let options = zip::write::SimpleFileOptions::default()
        .compression_method(zip::CompressionMethod::Stored);
    writer.start_file("skill/SKILL.md", options).unwrap();
    writer.write_all(b"hello").unwrap();
    writer.start_file("skill/resources/examples.zip", options).unwrap();
    writer.write_all(&inner).unwrap();
    let bytes = writer.finish().unwrap().into_inner();
    assert_eq!(zip_entry_count(&bytes, MAX_ENTRIES), Ok(2));
}

#[test]
fn accepted_entry_kinds_and_permissions() {
    assert_eq!(tar_entry_action(true, false), Ok(EntryAction::Directory));
    assert_eq!(tar_entry_action(false, true), Ok(EntryAction::File));
    assert_eq!(tar_entry_action(false, false), Err(ArchiveError::UnsupportedEntry));
    assert_eq!(zip_entry_action(0o120777, false), Err(ArchiveError::UnsupportedEntry));
    assert_eq!(zip_entry_action(0o040755, true), Ok(EntryAction::Directory));
    assert_eq!(zip_entry_action(0, false), Ok(EntryAction::File));
    assert_eq!(file_permissions(0o100755), 0o755);
    assert_eq!(file_permissions(0o600), 0o644);
}

#[test]
fn downloads_are_restricted_and_report_clean_errors() {
    assert!(http_url("https://host.test/a.zip"));
    assert!(http_url("http://host.test/a.zip"));
    assert!(!http_url("file:///etc/passwd"));
    assert!(!http_url("ftp://host.test/a.zip"));
    assert_eq!(check_destination(Destination::Missing), Ok(()));
    assert_eq!(check_destination(Destination::Directory { empty: true }), Ok(()));
    assert_eq!(check_destination(Destination::Directory { empty: false }), Err(DestinationError::NotEmpty));
    assert_eq!(check_destination(Destination::Other), Err(DestinationError::NotDirectory));
    assert_eq!(decimal_string(0), "0");
    assert_eq!(decimal_string(134217728), "134217728");
    assert_eq!(decimal_string(u64::MAX), "18446744073709551615");
    let args = download_args("https://host.test/x?token=a@b", 128);
    assert_eq!(args.len(), 24);
    assert_eq!(args[0], "--disable");
    assert_eq!(&args[20..], &["--max-filesize", "128", "--url", "https://host.test/x?token=a@b"]);
    assert_eq!(failure_detail("  curl: (22) error 404\r\n"), "curl: (22) error 404");
    assert_eq!(failure_detail("\u{1b}[31m bad \n"), "[31m bad");
}

#[test]
fn archive_error_messages_name_the_refusal() {
    assert_eq!(ArchiveError::TooManyEntries.message(), "archive contains too many entries");
    assert_eq!(ArchiveError::SizeLimit.message(), "size limit exceeded");
    assert_eq!(
        ArchiveError::Unsupported.message(),
        "unsupported archive; expected ZIP, TAR, TAR.GZ, TAR.BZ2, or TAR.XZ"
    );
    assert_eq!(ArchiveError::InvalidXz.message(), "truncated or invalid XZ archive");
}

#[test]
fn compressed_payloads_expand_to_exactly_their_tar_bytes() {
    let archive = tar(&[("bundle/skills/hello/SKILL.md", b"hello")]);
    assert!(matches!(unpack_payload(&bzip2(&archive), MAX_EXPANDED), Ok(Payload::Tar(v)) if v == archive));
    assert!(matches!(unpack_payload(&xz(&archive), 100), Err(ArchiveError::SizeLimit)));
    let exact = archive.len() as u64;
    assert!(matches!(unpack_payload(&gzip(&archive), exact), Ok(Payload::Tar(v)) if v == archive));
    assert!(matches!(unpack_payload(&gzip(&archive), exact - 1), Err(ArchiveError::SizeLimit)));
    let gz = gzip(&archive);
    assert!(matches!(unpack_payload(&gz[..gz.len() - 4], MAX_EXPANDED), Err(ArchiveError::Corrupt)));
}

fn tar_kind(name: &str, contents: &[u8], kind: tar::EntryType) -> Vec<u8> {
    let mut builder = tar::Builder::new(Vec::new());
    let mut header = tar::Header::new_gnu();
    header.set_size(contents.len() as u64);
    header.set_mode(0o755);
    header.set_entry_type(kind);
    header.set_path(name).unwrap();
    header.set_cksum();
    builder.append(&header, Cursor::new(contents)).unwrap();
    builder.into_inner().unwrap()
}

fn file_step(parts: &[&str], bytes: &[u8], permissions: u32) -> ExtractStep {
    ExtractStep::File {
        parts: parts.iter().map(|p| p.to_string()).collect(),
        bytes: bytes.to_vec(),
        permissions,
    }
}

fn plan_error(bytes: &[u8], byte_limit: u64, entry_limit: usize) -> ArchiveError {
    match plan_extraction(bytes, byte_limit, entry_limit) {
        Err(error) => error,
        Ok(steps) => panic!("planned {} steps", steps.len()),
    }
}

#[test]
fn every_format_plans_the_same_file() {
    let tar_bytes = tar(&[("bundle/skills/hello/SKILL.md", b"hello")]);
    let zip_bytes = zip(&[("bundle/skills/hello/SKILL.md", b"hello")]);
    let expected = vec![file_step(&["bundle", "skills", "hello", "SKILL.md"], b"hello", 0o755)];
    for bytes in [
        tar_bytes.clone(),
        zip_bytes,
        gzip(&tar_bytes),
        bzip2(&tar_bytes),
        xz(&tar_bytes),
    ] {
        assert_eq!(plan_extraction(&bytes, MAX_EXPANDED, MAX_ENTRIES).unwrap(), expected);
    }
}

#[test]
fn plans_refuse_unsafe_paths_and_links() {
    for name in ["../escape", "/absolute", "a/../../escape", "C:/escape", "a\\escape", "a\nescape"] {
        let error = plan_error(&zip(&[(name, b"bad")]), MAX_EXPANDED, MAX_ENTRIES);
        assert!(
            error == ArchiveError::UnsafePath || error == ArchiveError::Corrupt,
            "accepted {name:?}"
        );
    }
    assert_eq!(plan_error(&zip(&[("../escape", b"bad")]), MAX_EXPANDED, MAX_ENTRIES), ArchiveError::UnsafePath);
    for kind in [tar::EntryType::Symlink, tar::EntryType::Link, tar::EntryType::Fifo] {
        let error = plan_error(&tar_kind("unsafe", b"", kind), MAX_EXPANDED, MAX_ENTRIES);
        assert_eq!(error, ArchiveError::UnsupportedEntry, "accepted {kind:?}");
    }
    let mut writer = zip::ZipWriter::new(Cursor::new(Vec::new()));
    writer
        .add_symlink("unsafe", "../../outside", zip::write::SimpleFileOptions::default())
        .unwrap();
    let bytes = writer.finish().unwrap().into_inner();
    assert_eq!(plan_error(&bytes, MAX_EXPANDED, MAX_ENTRIES), ArchiveError::UnsupportedEntry);
}

#[test]
fn plans_keep_repeated_paths_and_refuse_truncation() {
    let repeated = tar(&[("same", b"first"), ("same", b"second")]);
    assert_eq!(
        plan_tar_extraction(&repeated, MAX_EXPANDED, MAX_ENTRIES).unwrap(),
        vec![file_step(&["same"], b"first", 0o755), file_step(&["same"], b"second", 0o755)]
    );
    let mut truncated = tar(&[("bundle/skills/hello/SKILL.md", b"hello")]);
    truncated.truncate(515);
    assert!(plan_extraction(&truncated, MAX_EXPANDED, MAX_ENTRIES).is_err());
    assert_eq!(
        plan_error(b"<html>sign in to download</html>", MAX_EXPANDED, MAX_ENTRIES),
        ArchiveError::Unsupported
    );
}

#[test]
fn plans_bound_entries_and_expansion() {
    let tar_bytes = tar(&[("bundle/skills/hello/SKILL.md", b"hello")]);
    assert_eq!(plan_error(&tar_bytes, 4, MAX_ENTRIES), ArchiveError::FileTooLarge);
    assert_eq!(plan_error(&tar_bytes, MAX_EXPANDED, 0), ArchiveError::TooManyEntries);
    let zip_bytes = zip(&[("one", b"12345")]);
    assert_eq!(plan_error(&zip_bytes, 4, MAX_ENTRIES), ArchiveError::FileTooLarge);
    assert_eq!(plan_error(&zip_bytes, MAX_EXPANDED, 0), ArchiveError::TooManyEntries);
    assert_eq!(plan_error(&gzip(&tar_bytes), 1024, MAX_ENTRIES), ArchiveError::SizeLimit);
    assert_eq!(
        plan_zip_extraction(&zip_bytes, 5, MAX_ENTRIES).unwrap(),
        vec![file_step(&["one"], b"12345", 0o755)]
    );
}

#[test]
fn plans_check_the_zip_index_first() {
    let original = zip(&[("one", b"hello"), ("two", b"world")]);
    let central: Vec<usize> = original
        .windows(4)
        .enumerate()
        .filter(|(_, bytes)| *bytes == b"PK\x01\x02")
        .map(|(at, _)| at)
        .collect();
    assert_eq!(central.len(), 2);
    let footer = original.len() - 22;
    let mut excessive = original.clone();
    excessive[footer + 8..footer + 10].copy_from_slice(&30_000u16.to_le_bytes());
    excessive[footer + 10..footer + 12].copy_from_slice(&30_000u16.to_le_bytes());
    assert_eq!(plan_error(&excessive, MAX_EXPANDED, MAX_ENTRIES), ArchiveError::TooManyEntries);
    let mut duplicate = original.clone();
    duplicate[central[1] + 46..central[1] + 49].copy_from_slice(b"one");
    assert_eq!(plan_error(&duplicate, MAX_EXPANDED, MAX_ENTRIES), ArchiveError::DuplicateEntries);
    let mut overlapping = original.clone();
    overlapping[central[1] + 42..central[1] + 46].copy_from_slice(&0u32.to_le_bytes());
    assert_eq!(plan_error(&overlapping, MAX_EXPANDED, MAX_ENTRIES), ArchiveError::OverlappingData);
    assert_eq!(
        plan_extraction(&original, MAX_EXPANDED, MAX_ENTRIES).unwrap(),
        vec![file_step(&["one"], b"hello", 0o755), file_step(&["two"], b"world", 0o755)]
    );
}

#[test]
fn plans_keep_stored_nested_archives() {
    let inner = zip(&[("reference.txt", b"nested resource")]);
    let mut writer = zip::ZipWriter::new(Cursor::new(Vec::new()));
    let options =
        zip::write::SimpleFileOptions::default().compression_method(zip::CompressionMethod::Stored);
    writer.start_file("skill/SKILL.md", options).unwrap();
    writer.write_all(b"hello").unwrap();
    writer.start_file("skill/resources/examples.zip", options).unwrap();
    writer.write_all(&inner).unwrap();
    let bytes = writer.finish().unwrap().into_inner();
    let steps = plan_extraction(&bytes, MAX_EXPANDED, MAX_ENTRIES).unwrap();
    assert_eq!(steps.len(), 2);
    match &steps[1] {
        ExtractStep::File { parts, bytes, .. } => {
            assert_eq!(parts, &vec!["skill".to_string(), "resources".to_string(), "examples.zip".to_string()]);
            assert_eq!(bytes, &inner);
        }
        other => panic!("unexpected step {other:?}"),
    }
}

#[test]
fn plans_apply_tar_extensions_and_bound_metadata() {
    let mut builder = tar::Builder::new(Vec::new());
    builder.append_pax_extensions([("path", b"../escape".as_slice())]).unwrap();
    let mut header = tar::Header::new_gnu();
    header.set_path("safe").unwrap();
    header.set_size(1);
    header.set_mode(0o644);
    header.set_cksum();
    builder.append(&header, b"x".as_slice()).unwrap();
    let bytes = builder.into_inner().unwrap();
    assert_eq!(plan_error(&bytes, MAX_EXPANDED, MAX_ENTRIES), ArchiveError::UnsafePath);
    let mut header = tar::Header::new_gnu();
    header.set_path("metadata").unwrap();
    header.set_entry_type(tar::EntryType::XHeader);
    header.set_size(MAX_METADATA + 1);
    header.set_cksum();
    assert_eq!(plan_error(header.as_bytes(), MAX_EXPANDED, MAX_ENTRIES), ArchiveError::MetadataTooLarge);
}

#[test]
fn plans_create_directories_and_keep_modes() {
    let mut builder = tar::Builder::new(Vec::new());
    let mut header = tar::Header::new_gnu();
    header.set_path("skill/").unwrap();
    header.set_entry_type(tar::EntryType::Directory);
    header.set_size(0);
    header.set_mode(0o755);
    header.set_cksum();
    builder.append(&header, b"".as_slice()).unwrap();
    let mut header = tar::Header::new_gnu();
    header.set_path("skill/./notes.txt").unwrap();
    header.set_size(2);
    header.set_mode(0o600);
    header.set_cksum();
    builder.append(&header, b"hi".as_slice()).unwrap();
    let bytes = builder.into_inner().unwrap();
    assert_eq!(
        plan_tar_extraction(&bytes, 2, MAX_ENTRIES).unwrap(),
        vec![
            ExtractStep::Directory(vec!["skill".to_string()]),
            file_step(&["skill", "notes.txt"], b"hi", 0o644),
        ]
    );
    assert_eq!(plan_tar_extraction(&bytes, 1, MAX_ENTRIES), Err(ArchiveError::FileTooLarge));
}

fn copy_with(counts: &[usize], limit: u64) -> (u64, Progress) {
    let mut total = 0u64;
    for &count in counts {
        match read_progress(total, limit, count) {
            Progress::More(next) => total = next,
            step => return (total, step),
        }
    }
    (total, Progress::More(total))
}

#[test]
fn bounded_copies_stop_at_their_limit() {
    assert_eq!(copy_with(&[64], 32), (0, Progress::Failed(ArchiveError::SizeLimit)));
    assert_eq!(copy_with(&[32, 32], 32), (32, Progress::Failed(ArchiveError::SizeLimit)));
    assert_eq!(copy_with(&[5, 7, 0], 12), (12, Progress::Finished(12)));
    assert_eq!(copy_with(&[0], 0), (0, Progress::Finished(0)));
}

fn download_run(outcomes: &[bool]) -> DownloadStage {
    outcomes.iter().fold(DownloadStage::CheckUrl, |stage, &ok| download_step(stage, ok))
}

#[test]
fn downloads_publish_only_after_every_step_passed() {
    assert_eq!(download_run(&[true, true, true, true]), DownloadStage::Publish);
    assert_eq!(download_run(&[true, true, true, true, true]), DownloadStage::Done);
    assert_eq!(download_run(&[false, true, true, true, true]), DownloadStage::Stopped(DownloadStop::NotHttp));
    assert_eq!(download_run(&[true, false, true, true]), DownloadStage::Stopped(DownloadStop::Destination));
    assert_eq!(download_run(&[true, true, false, true, true]), DownloadStage::Stopped(DownloadStop::Fetch));
    assert_eq!(download_run(&[true, true, true, false, true]), DownloadStage::Stopped(DownloadStop::Extract));
    assert_eq!(download_run(&[true, true, true, true, false]), DownloadStage::Stopped(DownloadStop::Publish));
}
