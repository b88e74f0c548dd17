use windows_task::xml::{ParseLimits, RawTaskXml, XmlEncoding};

#[test]
fn rejects_doctype_and_bounded_depth() {
    RawTaskXml::new(b"<!DOCTYPE Task><Task />".to_vec()).expect_err("DOCTYPE is rejected");
    let limits = ParseLimits {
        max_bytes: 100,
        max_depth: 1,
        max_nodes: 10,
    };
    RawTaskXml::with_limits(b"<Task><Child /></Task>".to_vec(), limits)
        .expect_err("depth limit is enforced");
}

#[test]
fn accepts_a_document_and_keeps_its_bytes() {
    let bytes = b"<?xml version=\"1.0\"?><Task a=\"1\"><Child/>text</Task>".to_vec();
    let raw = RawTaskXml::new(bytes.clone()).expect("well-formed");
    assert_eq!(raw.as_bytes(), bytes.as_slice());
    assert_eq!(raw.encoding(), XmlEncoding::Utf8);
    assert_eq!(
        raw.decoded().expect("decodes"),
        "<?xml version=\"1.0\"?><Task a=\"1\"><Child/>text</Task>"
    );
}

#[test]
fn detects_utf16_byte_order_marks() {
    let text = "<Task>é𝄞</Task>";
    let mut little = vec![0xFF, 0xFE];
    let mut big = vec![0xFE, 0xFF];
    for unit in text.encode_utf16() {
        little.extend_from_slice(&unit.to_le_bytes());
        big.extend_from_slice(&unit.to_be_bytes());
    }
    let raw = RawTaskXml::new(little).expect("UTF-16LE");
    assert_eq!(raw.encoding(), XmlEncoding::Utf16LittleEndian);
    assert_eq!(raw.decoded().expect("decodes"), text);
    let raw = RawTaskXml::new(big).expect("UTF-16BE");
    assert_eq!(raw.encoding(), XmlEncoding::Utf16BigEndian);
    assert_eq!(raw.decoded().expect("decodes"), text);
    RawTaskXml::new(vec![0xFF, 0xFE, 0x00]).expect_err("odd UTF-16 length");
    RawTaskXml::new(vec![0xFF, 0xFE, 0x00, 0xD8, b'<', 0]).expect_err("unpaired surrogate");
}

#[test]
fn rejects_structural_faults() {
    for document in [
        &b"<A/><B/>"[..],
        b"text<A/>",
        b"<A>",
        b"</A>",
        b"",
        b"<A>&custom;</A>",
        b"&amp;<A/>",
        b"\xEF\xBB\xBF<A>\xFF</A>",
    ] {
        RawTaskXml::new(document.to_vec()).expect_err("structural fault");
    }
    let few = ParseLimits { max_bytes: 1000, max_depth: 10, max_nodes: 2 };
    RawTaskXml::with_limits(b"<A><B/><C/></A>".to_vec(), few).expect_err("node limit");
    let small = ParseLimits { max_bytes: 4, max_depth: 10, max_nodes: 10 };
    RawTaskXml::with_limits(b"<Task/>".to_vec(), small).expect_err("size limit");
    RawTaskXml::new(b"\xEF\xBB\xBF  <A> <B/> </A>  ".to_vec()).expect("whitespace around the root");
    RawTaskXml::new(b"<A>&amp;&lt;&#65;</A>".to_vec()).expect("predefined and character references");
}
