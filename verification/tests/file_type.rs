use kagent::file_type::{detect_file_type, FileKind};

fn kind_name(kind: &FileKind) -> &'static str {
    match kind {
        FileKind::Text => "text",
        FileKind::Image => "image",
        FileKind::Video => "video",
        FileKind::Unknown => "unknown",
    }
}

#[test]
fn test_detect_file_type_suffixes() {
    assert_eq!(kind_name(&detect_file_type("image.PNG", None).kind), "image");
    assert_eq!(kind_name(&detect_file_type("clip.mp4", None).kind), "video");
    assert_eq!(kind_name(&detect_file_type("notes.txt", None).kind), "text");
    assert_eq!(kind_name(&detect_file_type("Makefile", None).kind), "text");
    assert_eq!(kind_name(&detect_file_type(".env", None).kind), "text");
    assert_eq!(kind_name(&detect_file_type("icon.svg", None).kind), "text");
    assert_eq!(kind_name(&detect_file_type("archive.tar.gz", None).kind), "unknown");
    assert_eq!(kind_name(&detect_file_type("my file.pdf", None).kind), "unknown");
    assert_eq!(kind_name(&detect_file_type("app.ts", None).kind), "text");
    assert_eq!(kind_name(&detect_file_type("component.tsx", None).kind), "text");
    assert_eq!(kind_name(&detect_file_type("module.mts", None).kind), "text");
    assert_eq!(kind_name(&detect_file_type("common.cts", None).kind), "text");
}

#[test]
fn test_detect_file_type_header_overrides() {
    let png_header: &[u8] = b"\x89PNG\r\n\x1a\npngdata";
    let mp4_header: &[u8] = b"\x00\x00\x00\x18ftypmp42\x00\x00\x00\x00mp42isom";
    let iso5_header: &[u8] = b"\x00\x00\x00\x18ftypiso5\x00\x00\x00\x00iso5isom";
    let binary_header: &[u8] = b"\x00\x00binary";

    assert_eq!(kind_name(&detect_file_type("sample", Some(png_header)).kind), "image");
    assert_eq!(detect_file_type("sample.bin", Some(png_header)).mime_type, "image/png");
    assert_eq!(kind_name(&detect_file_type("sample", Some(mp4_header)).kind), "video");
    assert_eq!(kind_name(&detect_file_type("sample", Some(iso5_header)).kind), "video");
    assert_eq!(kind_name(&detect_file_type("sample.png", Some(mp4_header)).kind), "image");
    assert_eq!(kind_name(&detect_file_type("notes.txt", Some(binary_header)).kind), "unknown");
}
