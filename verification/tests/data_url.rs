use gemview::data_url::{Data, DataUrl, DecodeError, MimeType};

const B64_URL: &str = "data:text/plain;base64,R05VIGlzIG5vdCBVbml4Cg==";
const PERCENT_URL: &str = "data:text/plain,GNU%20is%20not%20Unix";

#[test]
fn try_from_b64() {
    let dat = DataUrl::parse(B64_URL).unwrap();
    assert_eq!(
        dat,
        DataUrl {
            mime: MimeType::TextPlain,
            base64: true,
            data: "R05VIGlzIG5vdCBVbml4Cg==".to_string(),
        }
    );
}

#[test]
fn decode_b64() {
    let dat = DataUrl::parse(B64_URL).unwrap();
    let out = dat.decode().unwrap();
    assert_eq!(out, Data::Text(String::from("GNU is not Unix\n")));
}

#[test]
fn try_from_percent() {
    let dat = DataUrl::parse(PERCENT_URL).unwrap();
    assert_eq!(
        dat,
        DataUrl {
            mime: MimeType::TextPlain,
            base64: false,
            data: "GNU%20is%20not%20Unix".to_string(),
        }
    );
}

#[test]
fn decode_percent() {
    let dat = DataUrl::parse(PERCENT_URL).unwrap();
    let out = dat.decode().unwrap();
    assert_eq!(out, Data::Text(String::from("GNU is not Unix")));
}

#[test]
fn parse_rejects_other_schemes() {
    assert_eq!(DataUrl::parse("gemini://host"), Err("Not a data url"));
    assert_eq!(DataUrl::parse("no colon here"), Err("Malformed url"));
    assert_eq!(DataUrl::parse("data:text/plain;base64"), Err("Malformed url"));
}

#[test]
fn parse_classifies_mime() {
    assert_eq!(DataUrl::parse("data:image/png;base64,AA==").unwrap().mime(), MimeType::ImagePng);
    assert_eq!(DataUrl::parse("data:image/webp,xyz").unwrap().mime(), MimeType::ImageOther);
    assert_eq!(DataUrl::parse("data:application/zip,xyz").unwrap().mime(), MimeType::Unknown);
    assert_eq!(DataUrl::parse("data:text/gemini,xyz").unwrap().mime(), MimeType::TextGemini);
}

#[test]
fn mime_labels() {
    assert_eq!(MimeType::TextPlain.label(), "text/plain");
    assert_eq!(MimeType::TextGemini.label(), "text/gemini");
    assert_eq!(MimeType::ImageJpeg.label(), "image/jpeg");
    assert_eq!(MimeType::ImagePng.label(), "image/png");
    assert_eq!(MimeType::ImageSvg.label(), "image/svg+xml");
    assert_eq!(MimeType::ImageOther.label(), "image/other");
    assert_eq!(MimeType::Unknown.label(), "");
}

#[test]
fn decode_image_b64() {
    let dat = DataUrl::parse("data:image/png;base64,R05V").unwrap();
    assert_eq!(dat.decode().unwrap(), Data::Bytes(b"GNU".to_vec()));
}

#[test]
fn decode_image_raw() {
    let dat = DataUrl::parse("data:image/svg,<svg/>").unwrap();
    assert_eq!(dat.decode().unwrap(), Data::Bytes(b"<svg/>".to_vec()));
}

#[test]
fn decode_errors() {
    let unknown = DataUrl::parse("data:application/zip,xyz").unwrap();
    assert_eq!(unknown.decode(), Err(DecodeError::UnknownMime));
    let bad_b64 = DataUrl::parse("data:text/plain;base64,!!!").unwrap();
    assert_eq!(bad_b64.decode(), Err(DecodeError::Base64));
    let bad_percent = DataUrl::parse("data:text/plain,%FF").unwrap();
    assert_eq!(bad_percent.decode(), Err(DecodeError::Percent));
    let bad_utf8 = DataUrl::parse("data:text/plain;base64,/w==").unwrap();
    assert_eq!(bad_utf8.decode(), Err(DecodeError::Utf8));
}
