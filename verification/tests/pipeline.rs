use dmarc_extract::attach::extract;
use dmarc_extract::attach::ExtractError;
use dmarc_extract::codec::decompress;
use dmarc_extract::codec::strip_extension;
use dmarc_extract::codec::DecompressError;
use dmarc_extract::mime::locate;
use dmarc_extract::mime::usable_mime;
use dmarc_extract::pipeline::process_batch;
use dmarc_extract::pipeline::process_message;
use dmarc_extract::Attachment;
use dmarc_extract::Message;
use dmarc_extract::Part;
use dmarc_extract::SkipReason;

fn part(mimetype: &str, body: &[u8], filename: Option<&str>) -> Part {
    Part {
        mimetype: mimetype.to_string(),
        body: body.to_vec(),
        filename: filename.map(|n| n.to_string()),
    }
}

fn zip_bytes(entry_name: &str, content: &[u8]) -> Vec<u8> {
    let mut writer = zip::ZipWriter::new(std::io::Cursor::new(Vec::new()));
    writer
        .start_file(entry_name, zip::write::SimpleFileOptions::default())
        .unwrap();
    std::io::Write::write_all(&mut writer, content).unwrap();
    writer.finish().unwrap().into_inner()
}

fn gzip_bytes(content: &[u8]) -> Vec<u8> {
    let mut encoder = libflate::gzip::Encoder::new(Vec::new()).unwrap();
    std::io::Write::write_all(&mut encoder, content).unwrap();
    encoder.finish().into_result().unwrap()
}

#[test]
fn usable_mime_accepts_the_three_report_types() {
    assert!(usable_mime(&"application/zip".to_string()));
    assert!(usable_mime(&"application/gzip".to_string()));
    assert!(usable_mime(&"application/octet-stream".to_string()));
    assert!(!usable_mime(&"text/plain".to_string()));
    assert!(!usable_mime(&"multipart/mixed".to_string()));
}

#[test]
fn locate_selects_usable_top_level_part() {
    let m = Message {
        top: part("application/zip", b"pk", Some("r.zip")),
        children: vec![part("application/gzip", b"gz", Some("r.gz"))],
    };
    let p = locate(&m).unwrap();
    assert_eq!(p.mimetype, "application/zip");
    assert_eq!(p.body, b"pk");
}

#[test]
fn locate_selects_first_usable_child() {
    let m = Message {
        top: part("multipart/mixed", b"", None),
        children: vec![
            part("text/plain", b"hello", None),
            part("application/gzip", b"gz1", Some("a.gz")),
            part("application/zip", b"pk2", Some("b.zip")),
        ],
    };
    let p = locate(&m).unwrap();
    assert_eq!(p.mimetype, "application/gzip");
    assert_eq!(p.body, b"gz1");
}

#[test]
fn locate_reports_nothing_without_usable_part() {
    let m = Message {
        top: part("multipart/mixed", b"", None),
        children: vec![part("text/plain", b"hello", None), part("text/html", b"<p/>", None)],
    };
    assert!(locate(&m).is_none());
}

#[test]
fn locate_ignores_body_bytes_without_usable_type() {
    // Only the declared media type decides: a part whose bytes would decode
    // is still passed over when its declared type is not usable.
    let m = Message {
        top: part("text/plain", &gzip_bytes(b"<report/>"), Some("r.gz")),
        children: vec![],
    };
    assert!(locate(&m).is_none());
}

#[test]
fn extract_returns_exact_bytes_and_name() {
    let p = part("application/zip", b"raw bytes", Some("report.zip"));
    let a = extract(&p).unwrap();
    assert_eq!(a.content, b"raw bytes");
    assert_eq!(a.name, "report.zip");
    assert_eq!(a.mimetype, "application/zip");
    assert!(a.decompressed.is_none());
}

#[test]
fn extract_fails_on_empty_body() {
    let p = part("application/zip", b"", Some("report.zip"));
    assert_eq!(extract(&p).unwrap_err(), ExtractError::MissingBody);
}

#[test]
fn extract_fails_on_absent_filename() {
    let p = part("application/zip", b"raw", None);
    assert_eq!(extract(&p).unwrap_err(), ExtractError::MissingName);
}

#[test]
fn extract_fails_on_empty_filename() {
    let p = part("application/zip", b"raw", Some(""));
    assert_eq!(extract(&p).unwrap_err(), ExtractError::MissingName);
}

#[test]
fn strip_extension_removes_one_trailing_component() {
    assert_eq!(strip_extension(&"x.y.gz".to_string()), "x.y");
    assert_eq!(strip_extension(&"report.xml.gz".to_string()), "report.xml");
    assert_eq!(strip_extension(&"report.xml".to_string()), "report");
}

#[test]
fn strip_extension_leaves_extensionless_names_unchanged() {
    assert_eq!(strip_extension(&"x".to_string()), "x");
    assert_eq!(strip_extension(&"report".to_string()), "report");
    assert_eq!(strip_extension(&".gitignore".to_string()), ".gitignore");
}

#[test]
fn decompress_zip_takes_entry_name_and_bytes() {
    let a = Attachment {
        content: zip_bytes("report.xml", b"<xml/>"),
        decompressed: None,
        mimetype: "application/zip".to_string(),
        name: "wrapper.zip".to_string(),
    };
    let b = decompress(a).unwrap();
    assert_eq!(b.name, "report.xml");
    assert_eq!(b.decompressed.unwrap(), b"<xml/>");
}

#[test]
fn decompress_zip_name_ignores_declared_filename() {
    let content = zip_bytes("inner.xml", b"<a/>");
    let one = Attachment {
        content: content.clone(),
        decompressed: None,
        mimetype: "application/zip".to_string(),
        name: "first.zip".to_string(),
    };
    let two = Attachment {
        content,
        decompressed: None,
        mimetype: "application/zip".to_string(),
        name: "second-name.bin".to_string(),
    };
    let r1 = decompress(one).unwrap();
    let r2 = decompress(two).unwrap();
    assert_eq!(r1.name, "inner.xml");
    assert_eq!(r2.name, "inner.xml");
    assert_eq!(r1.decompressed, r2.decompressed);
}

#[test]
fn decompress_same_archive_twice_is_identical() {
    let content = zip_bytes("report.xml", b"<xml/>");
    let make = || Attachment {
        content: content.clone(),
        decompressed: None,
        mimetype: "application/zip".to_string(),
        name: "r.zip".to_string(),
    };
    let r1 = decompress(make()).unwrap();
    let r2 = decompress(make()).unwrap();
    assert_eq!(r1.name, r2.name);
    assert_eq!(r1.decompressed, r2.decompressed);
}

#[test]
fn decompress_gzip_decodes_and_strips_extension() {
    let a = Attachment {
        content: gzip_bytes(b"<report/>"),
        decompressed: None,
        mimetype: "application/gzip".to_string(),
        name: "feedback.xml.gz".to_string(),
    };
    let b = decompress(a).unwrap();
    assert_eq!(b.name, "feedback.xml");
    assert_eq!(b.decompressed.unwrap(), b"<report/>");
}

#[test]
fn decompress_octet_stream_is_treated_as_gzip() {
    let a = Attachment {
        content: gzip_bytes(b"payload"),
        decompressed: None,
        mimetype: "application/octet-stream".to_string(),
        name: "data.bin.gz".to_string(),
    };
    let b = decompress(a).unwrap();
    assert_eq!(b.name, "data.bin");
    assert_eq!(b.decompressed.unwrap(), b"payload");
}

#[test]
fn decompress_rejects_invalid_archive() {
    let a = Attachment {
        content: b"this is not a zip file".to_vec(),
        decompressed: None,
        mimetype: "application/zip".to_string(),
        name: "r.zip".to_string(),
    };
    assert_eq!(decompress(a).unwrap_err(), DecompressError::CorruptArchive);
}

#[test]
fn decompress_rejects_invalid_gzip_stream() {
    let a = Attachment {
        content: b"not gzip".to_vec(),
        decompressed: None,
        mimetype: "application/gzip".to_string(),
        name: "r.gz".to_string(),
    };
    assert_eq!(decompress(a).unwrap_err(), DecompressError::CorruptStream);
}

#[test]
fn pipeline_writes_zip_entry_under_its_recorded_name() {
    let m = Message {
        top: part("application/zip", &zip_bytes("report.xml", b"<xml/>"), Some("wrapper.zip")),
        children: vec![],
    };
    let a = process_message(&m).unwrap();
    assert_eq!(a.name, "report.xml");
    assert_eq!(a.decompressed.unwrap(), b"<xml/>");
}

#[test]
fn pipeline_writes_gzip_payload_under_stripped_name() {
    let m = Message {
        top: part("application/gzip", &gzip_bytes(b"<report/>"), Some("feedback.xml.gz")),
        children: vec![],
    };
    let a = process_message(&m).unwrap();
    assert_eq!(a.name, "feedback.xml");
    assert_eq!(a.decompressed.unwrap(), b"<report/>");
}

#[test]
fn pipeline_skips_message_without_usable_part() {
    let m = Message {
        top: part("multipart/mixed", b"", None),
        children: vec![part("text/plain", b"hello", None)],
    };
    assert_eq!(process_message(&m).unwrap_err(), SkipReason::NotFound);
}

#[test]
fn pipeline_reports_missing_body_and_name() {
    let empty_body = Message {
        top: part("application/zip", b"", Some("r.zip")),
        children: vec![],
    };
    assert_eq!(process_message(&empty_body).unwrap_err(), SkipReason::MissingBody);
    let no_name = Message {
        top: part("application/zip", b"pk", None),
        children: vec![],
    };
    assert_eq!(process_message(&no_name).unwrap_err(), SkipReason::MissingName);
}

#[test]
fn batch_continues_past_skipped_messages() {
    let msgs = vec![
        Message {
            top: part("multipart/mixed", b"", None),
            children: vec![part("text/plain", b"hello", None)],
        },
        Message {
            top: part("application/zip", b"corrupt", Some("bad.zip")),
            children: vec![],
        },
        Message {
            top: part("application/gzip", &gzip_bytes(b"<report/>"), Some("feedback.xml.gz")),
            children: vec![],
        },
    ];
    let outcomes = process_batch(&msgs);
    assert_eq!(outcomes.len(), 3);
    assert_eq!(*outcomes[0].as_ref().unwrap_err(), SkipReason::NotFound);
    assert_eq!(*outcomes[1].as_ref().unwrap_err(), SkipReason::CorruptArchive);
    let good = outcomes[2].as_ref().unwrap();
    assert_eq!(good.name, "feedback.xml");
    assert_eq!(good.decompressed.as_ref().unwrap(), b"<report/>");
}
