use opencode_monitor::images::{
    add_image_chunk, build_image_file_name, check_resolved_addresses, data_image_file, extension_from_mime,
    fetched_image_as_file_part, frontend_image_value, image_mime_from_content_type, ip_is_disallowed, is_data_image,
    is_encodable, mime_from_extension, read_image_url, validate_public_image_url, HostAddress, HostVerdict, ImageUrl,
    URL_IMAGE_MAX_BYTES,
};
use opencode_monitor::str_map::StrMap;
use opencode_monitor::json::{Json, JsonNumber};
use serde_json::{Number, Value};

fn v(text: &str) -> Value {
    serde_json::from_str(text).expect("valid JSON")
}

fn to_json(value: &Value) -> Json {
    match value {
        Value::Null => Json::Null,
        Value::Bool(b) => Json::Bool(*b),
        Value::Number(n) => {
            if let Some(u) = n.as_u64() {
                Json::Number(JsonNumber::Unsigned(u))
            } else if let Some(i) = n.as_i64() {
                Json::Number(JsonNumber::Negative(i))
            } else {
                Json::Number(JsonNumber::Float(n.to_string()))
            }
        }
        Value::String(s) => Json::Text(s.clone()),
        Value::Array(items) => Json::Array(items.iter().map(to_json).collect()),
        Value::Object(map) => {
            Json::Object(map.iter().map(|(k, item)| (k.clone(), to_json(item))).collect())
        }
    }
}

fn to_value(json: &Json) -> Value {
    match json {
        Json::Null => Value::Null,
        Json::Bool(b) => Value::Bool(*b),
        Json::Number(JsonNumber::Unsigned(n)) => Value::from(*n),
        Json::Number(JsonNumber::Negative(n)) => Value::from(*n),
        Json::Number(JsonNumber::Float(s)) => Value::Number(s.parse::<Number>().expect("number")),
        Json::Text(s) => Value::String(s.clone()),
        Json::Array(items) => Value::Array(items.iter().map(to_value).collect()),
        Json::Object(entries) => {
            let mut map = serde_json::Map::new();
            for (k, item) in entries {
                map.insert(k.clone(), to_value(item));
            }
            Value::Object(map)
        }
    }
}

fn refused(verdict: HostVerdict) -> String {
    match verdict {
        HostVerdict::Refused(error) => error,
        _ => panic!("it is refused"),
    }
}

#[test]
fn media_types_and_extensions_match() {
    for (mime, extension) in [
        ("image/png", "png"),
        (" IMAGE/JPEG ", "jpg"),
        ("image/gif", "gif"),
        ("image/webp", "webp"),
        ("image/svg+xml", "svg"),
        ("image/bmp", "bmp"),
        ("image/tiff", "tiff"),
        ("image/x-icon", "bin"),
    ] {
        assert_eq!(extension_from_mime(mime), extension);
    }
    for (path, mime) in [
        ("a.PNG", "image/png"),
        ("a.jpg", "image/jpeg"),
        ("a.jpeg", "image/jpeg"),
        ("a.gif", "image/gif"),
        ("a.webp", "image/webp"),
        ("a.svg", "image/svg+xml"),
        ("a.txt", "application/octet-stream"),
    ] {
        assert_eq!(mime_from_extension(path), mime);
    }
}

#[test]
fn data_images_are_decoded() {
    let file = data_image_file("  data:image/gif;base64,R0lGODlh ").expect("an image");
    assert_eq!(file.bytes, b"GIF89a");
    assert_eq!(file.name.len(), 16 + 4);
    assert!(file.name.ends_with(".gif"));
    assert_eq!(file.name, data_image_file("data:image/gif;base64,R0lGODlh").expect("an image").name);
    assert_ne!(file.name, data_image_file("data:image/gif;base64,R0lGODdh").expect("an image").name);
    assert!(data_image_file("data:text/plain;base64,R0lGODlh").is_none());
    assert!(data_image_file("data:image/gif,R0lGODlh").is_none());
    assert!(data_image_file("data:image/gif;base64,R0lGODl").is_none());
    assert!(data_image_file("image/gif;base64,R0lGODlh").is_none());
    assert_eq!(build_image_file_name(255, "image/png"), "00000000000000ff.png");
    assert_eq!(build_image_file_name(255, " IMAGE/PNG "), build_image_file_name(255, "image/png"));
    assert_ne!(build_image_file_name(u64::MAX, "image/png"), build_image_file_name(255, "image/png"));
    assert_ne!(build_image_file_name(255, "image/jpeg"), build_image_file_name(255, "image/png"));
}

#[test]
fn images_are_shown_by_the_file_that_keeps_them() {
    let mut stored: StrMap<String> = StrMap::new();
    stored.insert("data:image/png;base64,AA==", "/cache/x.png".to_string());
    assert_eq!(frontend_image_value(" data:image/png;base64,AA== ", &stored), "/cache/x.png");
    assert_eq!(frontend_image_value("data:image/png;base64,BB==", &stored), "data:image/png;base64,BB==");
    assert_eq!(frontend_image_value(" /tmp/a.png ", &stored), "/tmp/a.png");
    assert!(is_data_image(" data:image/png;base64,AA=="));
    assert!(!is_data_image("data:text/plain,x"));
}

#[test]
fn addresses_of_the_local_network_are_refused() {
    for o in [
        [10, 1, 2, 3],
        [172, 16, 0, 1],
        [172, 31, 255, 255],
        [192, 168, 1, 1],
        [127, 9, 9, 9],
        [169, 254, 1, 1],
        [224, 0, 0, 1],
        [239, 1, 1, 1],
        [0, 1, 2, 3],
        [100, 64, 0, 1],
        [100, 127, 0, 1],
        [198, 18, 0, 1],
        [198, 19, 0, 1],
        [192, 0, 0, 8],
        [255, 255, 255, 255],
    ] {
        assert!(ip_is_disallowed(&HostAddress::V4(o)), "{o:?}");
    }
    for o in [
        [8, 8, 8, 8],
        [172, 15, 0, 1],
        [172, 32, 0, 1],
        [100, 63, 0, 1],
        [100, 128, 0, 1],
        [198, 20, 0, 1],
        [192, 0, 1, 1],
        [240, 0, 0, 1],
        [255, 255, 255, 254],
    ] {
        assert!(!ip_is_disallowed(&HostAddress::V4(o)), "{o:?}");
    }
    for g in [
        [0, 0, 0, 0, 0, 0, 0, 0],
        [0, 0, 0, 0, 0, 0, 0, 1],
        [0xff02, 0, 0, 0, 0, 0, 0, 1],
        [0xfc00, 0, 0, 0, 0, 0, 0, 1],
        [0xfdff, 0, 0, 0, 0, 0, 0, 1],
        [0xfe80, 0, 0, 0, 0, 0, 0, 1],
        [0xfebf, 0, 0, 0, 0, 0, 0, 1],
    ] {
        assert!(ip_is_disallowed(&HostAddress::V6(g)), "{g:?}");
    }
    for g in [
        [0x2001, 0xdb8, 0, 0, 0, 0, 0, 1],
        [0, 0, 0, 0, 0, 0, 0, 2],
        [0xfe00, 0, 0, 0, 0, 0, 0, 1],
        [0xfec0, 0, 0, 0, 0, 0, 0, 1],
    ] {
        assert!(!ip_is_disallowed(&HostAddress::V6(g)), "{g:?}");
    }
}

#[test]
fn addresses_on_the_web_are_taken_apart() {
    let url = read_image_url("https://Example.com:8443/a/b%20c.png?x#y").expect("an address");
    assert_eq!(url.scheme, "https");
    assert_eq!(url.host.as_deref(), Some("example.com"));
    assert_eq!(url.port, Some(8443));
    assert_eq!(url.last_segment().as_deref(), Some("b%20c.png"));
    let plain = read_image_url("http://example.com").expect("an address");
    assert_eq!(plain.port, Some(80));
    assert_eq!(plain.last_segment().as_deref(), Some(""));
    assert_eq!(url.segments, Some(vec!["a".to_string(), "b%20c.png".to_string()]));
    let undivided = read_image_url("data:image/png").expect("an address");
    assert_eq!(undivided.last_segment(), None);
    assert_eq!(read_image_url("http://").err().as_deref(), Some("Invalid image URL."));
    assert_eq!(read_image_url("no address").err().as_deref(), Some("Invalid image URL."));
}

#[test]
fn hosts_are_decided_on_by_scheme_name_and_address() {
    let check = |s: &str, address: Option<HostAddress>| {
        validate_public_image_url(&read_image_url(s).expect("an address"), address)
    };
    assert_eq!(refused(check("ftp://example.com/x", None)), "Image URL must use http or https.");
    let nameless =
        ImageUrl { scheme: "http".to_string(), host: None, port: None, segments: None };
    assert_eq!(refused(validate_public_image_url(&nameless, None)), "Image URL must include a host.");
    for host in ["localhost", "A.LOCALHOST", "printer.local"] {
        assert_eq!(
            refused(check(&format!("http://{host}/x"), None)),
            "Blocked image URL host: localhost and local domains are not allowed."
        );
    }
    assert_eq!(
        refused(check("http://10.0.0.1/x", Some(HostAddress::V4([10, 0, 0, 1])))),
        "Blocked image URL host: private or local network addresses are not allowed."
    );
    assert!(matches!(
        check("http://8.8.8.8/x", Some(HostAddress::V4([8, 8, 8, 8]))),
        HostVerdict::Allowed
    ));
    match check("https://example.com/x", None) {
        HostVerdict::LookUp { host, port } => assert_eq!((host.as_str(), port), ("example.com", 443)),
        _ => panic!("the name is looked up"),
    }
    let no_port = ImageUrl {
        scheme: "https".to_string(),
        host: Some("h".to_string()),
        port: None,
        segments: None,
    };
    assert!(matches!(validate_public_image_url(&no_port, None), HostVerdict::LookUp { port: 443, .. }));
    let no_port = ImageUrl { scheme: "http".to_string(), ..no_port };
    assert!(matches!(validate_public_image_url(&no_port, None), HostVerdict::LookUp { port: 80, .. }));
}

#[test]
fn every_address_of_a_host_has_to_be_public() {
    let public = || HostAddress::V4([8, 8, 8, 8]);
    let private = || HostAddress::V4([192, 168, 0, 1]);
    assert_eq!(check_resolved_addresses(&vec![public(), public()]), Ok(()));
    assert_eq!(
        check_resolved_addresses(&vec![public(), private()]).expect_err("one is private"),
        "Blocked image URL host: private or local network addresses are not allowed."
    );
    assert_eq!(
        check_resolved_addresses(&Vec::new()).expect_err("none"),
        "Image URL host did not resolve to any addresses."
    );
}

#[test]
fn answers_have_to_be_images() {
    assert_eq!(image_mime_from_content_type(Some(" Image/PNG ; q=1")).expect("an image"), "image/png");
    let error = "Image URL must return an image Content-Type header.";
    for header in [None, Some("  "), Some("text/html; image/png")] {
        assert_eq!(image_mime_from_content_type(header).expect_err("no image"), error);
    }
}

#[test]
fn images_may_not_get_too_large() {
    let mut bytes = vec![1, 2];
    assert_eq!(add_image_chunk(&mut bytes, &vec![3]), Ok(()));
    assert_eq!(bytes, vec![1, 2, 3]);
    let mut full = vec![0; URL_IMAGE_MAX_BYTES];
    assert_eq!(add_image_chunk(&mut full, &Vec::new()), Ok(()));
    assert_eq!(
        add_image_chunk(&mut full, &vec![0]).expect_err("too large"),
        "Image URL exceeds max allowed size of 8388608 bytes."
    );
    assert_eq!(full.len(), URL_IMAGE_MAX_BYTES);
}

#[test]
fn fetched_images_become_file_parts() {
    assert!(is_encodable(6));
    let part = to_value(&fetched_image_as_file_part("image/gif", &b"GIF89a".to_vec(), &Some("a.gif".to_string())));
    assert_eq!(
        part,
        v(r#"{ "type": "file", "mime": "image/gif", "url": "data:image/gif;base64,R0lGODlh", "filename": "a.gif" }"#)
    );
    for segment in [None, Some(String::new())] {
        let part = to_value(&fetched_image_as_file_part("image/gif", &vec![255], &segment));
        assert_eq!(part["filename"], "image");
        assert_eq!(part["url"], "data:image/gif;base64,/w==");
    }
}

#[test]
fn what_was_encoded_is_decoded_again() {
    for bytes in [vec![], vec![0], vec![1, 2], (0..=255).collect::<Vec<u8>>()] {
        let part = to_value(&fetched_image_as_file_part("image/png", &bytes, &None));
        let file = data_image_file(part["url"].as_str().expect("an address")).expect("an image");
        assert_eq!(file.bytes, bytes);
    }
}
