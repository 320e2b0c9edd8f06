use std::io::{Cursor, Write};

use hdc_deploy::archive::{names_directory, place_entry, unpack, WriteOp};
use hdc_deploy::failure::{DeployError, Failure};
use zip::write::SimpleFileOptions;
use zip::{CompressionMethod, ZipWriter};

fn stored() -> SimpleFileOptions {
    SimpleFileOptions::default().compression_method(CompressionMethod::Stored)
}

fn deflated() -> SimpleFileOptions {
    SimpleFileOptions::default().compression_method(CompressionMethod::Deflated)
}

/// An archive with the given members; a member without content is a directory.
fn archive_of(members: &[(&str, Option<&[u8]>)], options: SimpleFileOptions) -> Vec<u8> {
    let mut writer = ZipWriter::new(Cursor::new(Vec::new()));
    for (name, content) in members.iter() {
        match content {
            Some(bytes) => {
                writer.start_file(*name, options).unwrap();
                writer.write_all(bytes).unwrap();
            }
            None => {
                writer.add_directory(*name, options).unwrap();
            }
        }
    }
    writer.finish().unwrap().into_inner()
}

#[test]
fn a_name_that_ends_with_a_slash_is_a_directory() {
    assert!(names_directory("pkg/"));
    assert!(names_directory("/"));
    assert!(!names_directory("pkg/app.hap"));
    assert!(!names_directory(""));
}

#[test]
fn an_accepted_member_goes_below_the_root() {
    assert_eq!(
        place_entry("/tmp/bundle", "pkg/app.hap", Some("pkg/app.hap".to_string())),
        Ok("/tmp/bundle/pkg/app.hap".to_string())
    );
    assert_eq!(
        place_entry("/tmp/bundle/", "pkg/", Some("pkg/".to_string())),
        Ok("/tmp/bundle/pkg/".to_string())
    );
}

#[test]
fn a_member_that_the_platform_refuses_is_a_traversal() {
    assert_eq!(
        place_entry("/tmp/bundle", "C:\\evil", None),
        Err(DeployError { kind: Failure::Traversal, detail: "C:\\evil".to_string() })
    );
}

#[test]
fn a_member_that_climbs_out_is_a_traversal_whatever_the_platform_says() {
    assert_eq!(
        place_entry("/tmp/bundle", "../evil.txt", Some("../evil.txt".to_string())),
        Err(DeployError { kind: Failure::Traversal, detail: "../evil.txt".to_string() })
    );
    assert_eq!(
        place_entry("/tmp/bundle", "/etc/passwd", Some("/etc/passwd".to_string())),
        Err(DeployError { kind: Failure::Traversal, detail: "/etc/passwd".to_string() })
    );
}

#[test]
fn the_message_of_a_traversal_names_the_member() {
    let error = place_entry("/tmp/bundle", "a/../../b", None).unwrap_err();
    assert_eq!(error.message(), "ZIP文件包含不安全的路径: a/../../b");
}

#[test]
fn unpacking_plans_one_write_for_each_member_in_order() {
    let bytes = archive_of(
        &[
            ("pkg", None),
            ("pkg/app.hap", Some(b"package bytes")),
            ("readme.txt", Some(b"")),
        ],
        stored(),
    );
    let ops = unpack(bytes, "/tmp/bundle").unwrap();
    assert_eq!(
        ops,
        vec![
            WriteOp::MakeDir { path: "/tmp/bundle/pkg/".to_string() },
            WriteOp::WriteFile {
                path: "/tmp/bundle/pkg/app.hap".to_string(),
                data: b"package bytes".to_vec(),
            },
            WriteOp::WriteFile { path: "/tmp/bundle/readme.txt".to_string(), data: Vec::new() },
        ]
    );
}

#[test]
fn unpacking_inflates_compressed_members() {
    let content: Vec<u8> = (0..5000u32).map(|k| (k % 7) as u8).collect();
    let bytes = archive_of(&[("pkg/app.hap", Some(&content))], deflated());
    assert!(bytes.len() < content.len());
    let ops = unpack(bytes, "/tmp/bundle").unwrap();
    assert_eq!(
        ops,
        vec![WriteOp::WriteFile { path: "/tmp/bundle/pkg/app.hap".to_string(), data: content }]
    );
}

#[test]
fn an_archive_without_members_plans_no_write() {
    let bytes = archive_of(&[], stored());
    assert_eq!(unpack(bytes, "/tmp/bundle"), Ok(Vec::new()));
}

#[test]
fn bytes_that_are_no_archive_fail_as_an_unreadable_archive() {
    let error = unpack(b"this is not a zip file".to_vec(), "/tmp/bundle").unwrap_err();
    assert_eq!(error.kind, Failure::ReadArchive);
    assert!(error.detail.starts_with("invalid Zip archive"));
    assert!(error.message().starts_with("读取ZIP文件失败: invalid Zip archive"));
    let error = unpack(Vec::new(), "/tmp/bundle").unwrap_err();
    assert_eq!(error.kind, Failure::ReadArchive);
}

#[test]
fn a_member_that_climbs_out_fails_the_unpacking_and_nothing_is_planned() {
    let bytes = archive_of(
        &[("pkg/app.hap", Some(b"fine")), ("../evil.txt", Some(b"evil")), ("late.txt", Some(b"x"))],
        stored(),
    );
    assert_eq!(
        unpack(bytes, "/tmp/bundle"),
        Err(DeployError { kind: Failure::Traversal, detail: "../evil.txt".to_string() })
    );
}

#[test]
fn a_member_with_an_absolute_name_fails_the_unpacking() {
    let bytes = archive_of(&[("/etc/passwd", Some(b"root"))], stored());
    assert_eq!(
        unpack(bytes, "/tmp/bundle"),
        Err(DeployError { kind: Failure::Traversal, detail: "/etc/passwd".to_string() })
    );
}

#[test]
fn a_member_that_climbs_and_comes_back_is_unpacked() {
    let bytes = archive_of(&[("a/../b.txt", Some(b"b"))], stored());
    assert_eq!(
        unpack(bytes, "/tmp/bundle"),
        Ok(vec![WriteOp::WriteFile { path: "/tmp/bundle/a/../b.txt".to_string(), data: b"b".to_vec() }])
    );
}

#[test]
fn a_member_with_damaged_content_fails_as_a_write() {
    let content = b"0123456789 some content that is stored as it is";
    let mut bytes = archive_of(&[("pkg/app.hap", Some(content))], stored());
    let at = bytes.windows(content.len()).position(|w| w == content).unwrap();
    bytes[at] ^= 0xff;
    let error = unpack(bytes, "/tmp/bundle").unwrap_err();
    assert_eq!(error.kind, Failure::WriteFile);
    assert!(!error.detail.is_empty());
    assert!(error.message().starts_with("写入文件失败: "));
}

#[test]
fn the_first_member_that_is_wrong_decides_the_failure() {
    let content = b"0123456789 some content that is stored as it is";
    let mut bytes = archive_of(
        &[("../evil.txt", Some(b"evil")), ("pkg/app.hap", Some(content))],
        stored(),
    );
    let at = bytes.windows(content.len()).position(|w| w == content).unwrap();
    bytes[at] ^= 0xff;
    let error = unpack(bytes, "/tmp/bundle").unwrap_err();
    assert_eq!(error.kind, Failure::Traversal);
    assert_eq!(error.detail, "../evil.txt");
}

#[test]
fn the_root_is_joined_as_it_is_given() {
    let bytes = archive_of(&[("app.hap", Some(b"x"))], stored());
    assert_eq!(
        unpack(bytes.clone(), "/tmp/bundle/"),
        Ok(vec![WriteOp::WriteFile { path: "/tmp/bundle/app.hap".to_string(), data: b"x".to_vec() }])
    );
    assert_eq!(
        unpack(bytes, ""),
        Ok(vec![WriteOp::WriteFile { path: "app.hap".to_string(), data: b"x".to_vec() }])
    );
}

#[test]
fn a_member_that_cannot_be_reached_fails_as_such() {
    let mut bytes = archive_of(&[("pkg/app.hap", Some(b"locked"))], stored());
    let directory = bytes.windows(4).position(|w| w == [0x50, 0x4b, 0x01, 0x02]).unwrap();
    bytes[directory + 8] |= 0x01;
    let error = unpack(bytes, "/tmp/bundle").unwrap_err();
    assert_eq!(error.kind, Failure::ReadEntry);
    assert!(error.detail.starts_with("unsupported Zip archive"));
    assert!(error.message().starts_with("访问ZIP文件内容失败: unsupported Zip archive"));
}

#[test]
fn a_directory_member_is_not_read() {
    let bytes = archive_of(&[("assets", None), ("assets/icons", None)], stored());
    assert_eq!(
        unpack(bytes, "/tmp/bundle"),
        Ok(vec![
            WriteOp::MakeDir { path: "/tmp/bundle/assets/".to_string() },
            WriteOp::MakeDir { path: "/tmp/bundle/assets/icons/".to_string() },
        ])
    );
}
