use actori_http::header::{
    Charset, ContentDisposition, DispositionParam, DispositionType, ExtendedValue,
};
use http::header::HeaderValue;

fn from_raw(hv: &HeaderValue) -> Result<ContentDisposition, actori_http::header::ParseError> {
    ContentDisposition::from_raw(hv.as_bytes())
}

#[test]
fn test_from_raw_basic() {
    assert!(from_raw(&HeaderValue::from_static("")).is_err());

    let a = HeaderValue::from_static("form-data; dummy=3; name=upload; filename=\"sample.png\"");
    let a: ContentDisposition = from_raw(&a).unwrap();
    let b = ContentDisposition {
        disposition: DispositionType::FormData,
        parameters: vec![
            DispositionParam::Unknown("dummy".to_owned(), "3".to_owned()),
            DispositionParam::Name("upload".to_owned()),
            DispositionParam::Filename("sample.png".to_owned()),
        ],
    };
    assert_eq!(a, b);

    let a = HeaderValue::from_static("attachment; filename=\"image.jpg\"");
    let a: ContentDisposition = from_raw(&a).unwrap();
    let b = ContentDisposition {
        disposition: DispositionType::Attachment,
        parameters: vec![DispositionParam::Filename("image.jpg".to_owned())],
    };
    assert_eq!(a, b);

    let a = HeaderValue::from_static("inline; filename=image.jpg");
    let a: ContentDisposition = from_raw(&a).unwrap();
    let b = ContentDisposition {
        disposition: DispositionType::Inline,
        parameters: vec![DispositionParam::Filename("image.jpg".to_owned())],
    };
    assert_eq!(a, b);

    let a = HeaderValue::from_static(
        "attachment; creation-date=\"Wed, 12 Feb 1997 16:29:51 -0500\"",
    );
    let a: ContentDisposition = from_raw(&a).unwrap();
    let b = ContentDisposition {
        disposition: DispositionType::Attachment,
        parameters: vec![DispositionParam::Unknown(
            String::from("creation-date"),
            "Wed, 12 Feb 1997 16:29:51 -0500".to_owned(),
        )],
    };
    assert_eq!(a, b);
}

#[test]
fn test_from_raw_extended() {
    let a = HeaderValue::from_static(
        "attachment; filename*=UTF-8''%c2%a3%20and%20%e2%82%ac%20rates",
    );
    let a: ContentDisposition = from_raw(&a).unwrap();
    let b = ContentDisposition {
        disposition: DispositionType::Attachment,
        parameters: vec![DispositionParam::FilenameExt(ExtendedValue {
            charset: Charset::Ext(String::from("UTF-8")),
            language_tag: None,
            value: vec![
                0xc2, 0xa3, 0x20, b'a', b'n', b'd', 0x20, 0xe2, 0x82, 0xac, 0x20, b'r', b'a',
                b't', b'e', b's',
            ],
        })],
    };
    assert_eq!(a, b);

    let a = HeaderValue::from_static(
        "attachment; filename*=UTF-8''%c2%a3%20and%20%e2%82%ac%20rates",
    );
    let a: ContentDisposition = from_raw(&a).unwrap();
    let b = ContentDisposition {
        disposition: DispositionType::Attachment,
        parameters: vec![DispositionParam::FilenameExt(ExtendedValue {
            charset: Charset::Ext(String::from("UTF-8")),
            language_tag: None,
            value: vec![
                0xc2, 0xa3, 0x20, b'a', b'n', b'd', 0x20, 0xe2, 0x82, 0xac, 0x20, b'r', b'a',
                b't', b'e', b's',
            ],
        })],
    };
    assert_eq!(a, b);
}

#[test]
fn test_from_raw_extra_whitespace() {
    let a = HeaderValue::from_static(
        "form-data  ; du-mmy= 3  ; name =upload ; filename =  \"sample.png\"  ; ",
    );
    let a: ContentDisposition = from_raw(&a).unwrap();
    let b = ContentDisposition {
        disposition: DispositionType::FormData,
        parameters: vec![
            DispositionParam::Unknown("du-mmy".to_owned(), "3".to_owned()),
            DispositionParam::Name("upload".to_owned()),
            DispositionParam::Filename("sample.png".to_owned()),
        ],
    };
    assert_eq!(a, b);
}

#[test]
fn test_from_raw_unordered() {
    let a = HeaderValue::from_static(
        "form-data; dummy=3; filename=\"sample.png\" ; name=upload;",
    );
    let a: ContentDisposition = from_raw(&a).unwrap();
    let b = ContentDisposition {
        disposition: DispositionType::FormData,
        parameters: vec![
            DispositionParam::Unknown("dummy".to_owned(), "3".to_owned()),
            DispositionParam::Filename("sample.png".to_owned()),
            DispositionParam::Name("upload".to_owned()),
        ],
    };
    assert_eq!(a, b);

    let a = HeaderValue::from_str(
        "attachment; filename*=iso-8859-1''foo-%E4.html; filename=\"foo-ä.html\"",
    )
    .unwrap();
    let a: ContentDisposition = from_raw(&a).unwrap();
    let b = ContentDisposition {
        disposition: DispositionType::Attachment,
        parameters: vec![
            DispositionParam::FilenameExt(ExtendedValue {
                charset: Charset::Iso_8859_1,
                language_tag: None,
                value: b"foo-\xe4.html".to_vec(),
            }),
            DispositionParam::Filename("foo-ä.html".to_owned()),
        ],
    };
    assert_eq!(a, b);
}

#[test]
fn test_from_raw_only_disp() {
    let a = from_raw(&HeaderValue::from_static("attachment")).unwrap();
    let b = ContentDisposition {
        disposition: DispositionType::Attachment,
        parameters: vec![],
    };
    assert_eq!(a, b);

    let a = from_raw(&HeaderValue::from_static("inline ;")).unwrap();
    let b = ContentDisposition {
        disposition: DispositionType::Inline,
        parameters: vec![],
    };
    assert_eq!(a, b);

    let a = from_raw(&HeaderValue::from_static("unknown-disp-param")).unwrap();
    let b = ContentDisposition {
        disposition: DispositionType::Ext(String::from("unknown-disp-param")),
        parameters: vec![],
    };
    assert_eq!(a, b);
}

#[test]
fn from_raw_with_mixed_case() {
    let a = HeaderValue::from_str(
        "InLInE; fIlenAME*=iso-8859-1''foo-%E4.html; filEName=\"foo-ä.html\"",
    )
    .unwrap();
    let a: ContentDisposition = from_raw(&a).unwrap();
    let b = ContentDisposition {
        disposition: DispositionType::Inline,
        parameters: vec![
            DispositionParam::FilenameExt(ExtendedValue {
                charset: Charset::Iso_8859_1,
                language_tag: None,
                value: b"foo-\xe4.html".to_vec(),
            }),
            DispositionParam::Filename("foo-ä.html".to_owned()),
        ],
    };
    assert_eq!(a, b);
}

#[test]
fn from_raw_with_unicode() {
    let a = HeaderValue::from_str("form-data; name=upload; filename=\"文件.webp\"").unwrap();
    let a: ContentDisposition = from_raw(&a).unwrap();
    let b = ContentDisposition {
        disposition: DispositionType::FormData,
        parameters: vec![
            DispositionParam::Name(String::from("upload")),
            DispositionParam::Filename(String::from("文件.webp")),
        ],
    };
    assert_eq!(a, b);

    let a = HeaderValue::from_str(
        "form-data; name=upload; filename=\"余固知謇謇之為患兮，忍而不能舍也.pptx\"",
    )
    .unwrap();
    let a: ContentDisposition = from_raw(&a).unwrap();
    let b = ContentDisposition {
        disposition: DispositionType::FormData,
        parameters: vec![
            DispositionParam::Name(String::from("upload")),
            DispositionParam::Filename(String::from("余固知謇謇之為患兮，忍而不能舍也.pptx")),
        ],
    };
    assert_eq!(a, b);
}

#[test]
fn test_from_raw_escape() {
    let a = HeaderValue::from_static(
        "form-data; dummy=3; name=upload; filename=\"s\\amp\\\"le.png\"",
    );
    let a: ContentDisposition = from_raw(&a).unwrap();
    let b = ContentDisposition {
        disposition: DispositionType::FormData,
        parameters: vec![
            DispositionParam::Unknown("dummy".to_owned(), "3".to_owned()),
            DispositionParam::Name("upload".to_owned()),
            DispositionParam::Filename(
                ['s', 'a', 'm', 'p', '\"', 'l', 'e', '.', 'p', 'n', 'g']
                    .iter()
                    .collect(),
            ),
        ],
    };
    assert_eq!(a, b);
}

#[test]
fn test_from_raw_semicolon() {
    let a = HeaderValue::from_static("form-data; filename=\"A semicolon here;.pdf\"");
    let a: ContentDisposition = from_raw(&a).unwrap();
    let b = ContentDisposition {
        disposition: DispositionType::FormData,
        parameters: vec![DispositionParam::Filename(String::from(
            "A semicolon here;.pdf",
        ))],
    };
    assert_eq!(a, b);
}

#[test]
fn test_from_raw_uncessary_percent_decode() {
    let a = HeaderValue::from_static(
        "form-data; name=photo; filename=\"%74%65%73%74%2e%70%6e%67\"",
    );
    let a: ContentDisposition = from_raw(&a).unwrap();
    let b = ContentDisposition {
        disposition: DispositionType::FormData,
        parameters: vec![
            DispositionParam::Name("photo".to_owned()),
            DispositionParam::Filename(String::from("%74%65%73%74%2e%70%6e%67")),
        ],
    };
    assert_eq!(a, b);

    let a = HeaderValue::from_static("form-data; name=photo; filename=\"%74%65%73%74.png\"");
    let a: ContentDisposition = from_raw(&a).unwrap();
    let b = ContentDisposition {
        disposition: DispositionType::FormData,
        parameters: vec![
            DispositionParam::Name("photo".to_owned()),
            DispositionParam::Filename(String::from("%74%65%73%74.png")),
        ],
    };
    assert_eq!(a, b);
}

#[test]
fn test_from_raw_param_value_missing() {
    let a = HeaderValue::from_static("form-data; name=upload ; filename=");
    assert!(from_raw(&a).is_err());

    let a = HeaderValue::from_static("attachment; dummy=; filename=invoice.pdf");
    assert!(from_raw(&a).is_err());

    let a = HeaderValue::from_static("inline; filename=  ");
    assert!(from_raw(&a).is_err());

    let a = HeaderValue::from_static("inline; filename=\"\"");
    assert!(from_raw(&a)
        .expect("parse cd")
        .get_filename()
        .expect("filename")
        .is_empty());
}

#[test]
fn test_from_raw_param_name_missing() {
    let a = HeaderValue::from_static("inline; =\"test.txt\"");
    assert!(from_raw(&a).is_err());

    let a = HeaderValue::from_static("inline; =diary.odt");
    assert!(from_raw(&a).is_err());

    let a = HeaderValue::from_static("inline; =");
    assert!(from_raw(&a).is_err());
}

#[test]
fn test_display_extended() {
    let as_string = "attachment; filename*=UTF-8'en'%C2%A3%20and%20%E2%82%AC%20rates";
    let a = HeaderValue::from_static(as_string);
    let a: ContentDisposition = from_raw(&a).unwrap();
    let display_rendered = a.to_string();
    assert_eq!(as_string, display_rendered);

    let a = HeaderValue::from_static("attachment; filename=colourful.csv");
    let a: ContentDisposition = from_raw(&a).unwrap();
    let display_rendered = a.to_string();
    assert_eq!(
        "attachment; filename=\"colourful.csv\"".to_owned(),
        display_rendered
    );
}

#[test]
fn test_display_quote() {
    let as_string = "form-data; name=upload; filename=\"Quote\\\"here.png\"";
    as_string
        .find(['\\', '\"'].iter().collect::<String>().as_str())
        .unwrap(); // ensure `\"` is there
    let a = HeaderValue::from_static(as_string);
    let a: ContentDisposition = from_raw(&a).unwrap();
    let display_rendered = a.to_string();
    assert_eq!(as_string, display_rendered);
}

#[test]
fn test_display_space_tab() {
    let as_string = "form-data; name=upload; filename=\"Space here.png\"";
    let a = HeaderValue::from_static(as_string);
    let a: ContentDisposition = from_raw(&a).unwrap();
    let display_rendered = a.to_string();
    assert_eq!(as_string, display_rendered);

    let a: ContentDisposition = ContentDisposition {
        disposition: DispositionType::Inline,
        parameters: vec![DispositionParam::Filename(String::from("Tab\there.png"))],
    };
    let display_rendered = a.to_string();
    assert_eq!("inline; filename=\"Tab\x09here.png\"", display_rendered);
}

#[test]
fn test_display_control_characters() {
    let a: ContentDisposition = ContentDisposition {
        disposition: DispositionType::Inline,
        parameters: vec![DispositionParam::Filename(String::from("bell\x07.png"))],
    };
    let display_rendered = a.to_string();
    assert_eq!("inline; filename=\"bell\\\x07.png\"", display_rendered);
}

#[test]
fn test_param_methods() {
    let param = DispositionParam::Filename(String::from("sample.txt"));
    assert!(param.is_filename());
    assert_eq!(param.as_filename().unwrap(), "sample.txt");

    let param = DispositionParam::Unknown(String::from("foo"), String::from("bar"));
    assert!(param.is_unknown("foo"));
    assert_eq!(param.as_unknown("fOo"), Some("bar"));
}

#[test]
fn test_disposition_methods() {
    let cd = ContentDisposition {
        disposition: DispositionType::FormData,
        parameters: vec![
            DispositionParam::Unknown("dummy".to_owned(), "3".to_owned()),
            DispositionParam::Name("upload".to_owned()),
            DispositionParam::Filename("sample.png".to_owned()),
        ],
    };
    assert_eq!(cd.get_name(), Some("upload"));
    assert_eq!(cd.get_unknown("dummy"), Some("3"));
    assert_eq!(cd.get_filename(), Some("sample.png"));
    assert_eq!(cd.get_unknown_ext("dummy"), None);
    assert_eq!(cd.get_unknown("duMMy"), Some("3"));
}
