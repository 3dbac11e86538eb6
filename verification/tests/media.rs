use alma_onebot_bridge::json::Json;
use alma_onebot_bridge::onebot::event::MessageSegment;
use alma_onebot_bridge::pipeline::media::{
    accept_url, build_downloads, build_file_parts, check_answer, check_media_url,
    download_media_as_file_part, media_content_type, media_filename, MediaBody, MediaUrl,
    MAX_MEDIA_BYTES,
};

fn url(text: &str) -> MediaUrl {
    match check_media_url(text) {
        Ok(u) => u,
        Err(e) => panic!("{e}"),
    }
}

fn refusal(text: &str) -> String {
    match check_media_url(text) {
        Ok(_) => panic!("the URL is accepted"),
        Err(e) => e,
    }
}

#[test]
fn download_media_rejects_non_http_urls() {
    let err = refusal("file:///tmp/a.png");

    assert!(err.contains("Unsupported media URL scheme"));
}

#[test]
fn urls_are_read_before_they_are_downloaded() {
    let u = url("HTTPS://Example.com/a/./b%20c.png?x=1");
    assert_eq!(u.scheme, "https");
    assert_eq!(u.path, "/a/b%20c.png");
    assert_eq!(refusal("no url"), "Invalid media URL: relative URL without a base");
    match accept_url(Ok(MediaUrl { scheme: "ftp".to_string(), path: "/".to_string() })) {
        Ok(_) => panic!("the scheme is accepted"),
        Err(e) => assert_eq!(e, "Unsupported media URL scheme: ftp"),
    }
    assert!(accept_url(Err("x".to_string())).is_err());
}

#[test]
fn answers_without_success_or_with_too_much_are_refused() {
    assert!(check_answer(200, "200 OK", None).is_ok());
    assert!(check_answer(204, "", Some(MAX_MEDIA_BYTES)).is_ok());
    assert_eq!(
        check_answer(404, "404 Not Found", None),
        Err("HTTP status error: 404 Not Found".to_string())
    );
    assert_eq!(
        check_answer(200, "", Some(MAX_MEDIA_BYTES + 1)),
        Err("Media too large: 20971521 bytes exceeds 20971520 byte limit".to_string())
    );
}

#[test]
fn bodies_grow_up_to_the_limit() {
    let mut body = MediaBody::new();
    assert!(body.add_chunk(&vec![1; 20_971_519]).is_ok());
    assert_eq!(
        body.add_chunk(&vec![2; 2]),
        Err("Media too large: response exceeds 20971520 byte limit".to_string())
    );
    assert!(body.add_chunk(&vec![3]).is_ok());
    assert!(body.add_chunk(&vec![4]).is_err());
}

#[test]
fn the_kind_of_a_file_is_told_or_guessed() {
    assert_eq!(media_content_type(Some("text/plain"), "/a.png"), "text/plain");
    assert_eq!(media_content_type(None, "/a.png"), "image/png");
    assert_eq!(media_content_type(None, "/a.jpg"), "image/jpeg");
    assert_eq!(media_content_type(None, "/a.jpeg"), "image/jpeg");
    assert_eq!(media_content_type(None, "/a.gif"), "image/gif");
    assert_eq!(media_content_type(None, "/a"), "application/octet-stream");
}

#[test]
fn files_are_named_after_their_paths() {
    assert_eq!(media_filename("/x/y.png", "d"), "y.png");
    assert_eq!(media_filename("/x.y/z/", "d"), "d");
    assert_eq!(media_filename("/x.y//", "d"), "x.y");
    assert_eq!(media_filename("/", "d"), "d");
    assert_eq!(media_filename("opaque.txt", "d"), "d");
}

#[test]
fn file_parts_hold_the_bytes_in_base64() {
    let mut body = MediaBody::new();
    body.add_chunk(&b"hello world~".to_vec()).unwrap();
    let part = download_media_as_file_part(&url("http://e/a.png"), None, &body, "d.png");
    assert_eq!(part.str_at("type"), Some("file"));
    assert_eq!(part.str_at("mediaType"), Some("image/png"));
    assert_eq!(part.str_at("url"), Some("data:image/png;base64,aGVsbG8gd29ybGR+"));
    assert_eq!(part.str_at("filename"), Some("a.png"));
}

#[test]
fn downloads_are_numbered_by_kind() {
    let segment = MessageSegment {
        segment_type: "file".to_string(),
        data: Json::Object(vec![
            ("file".to_string(), Json::Str("doc.pdf".to_string())),
            ("url".to_string(), Json::Str("u4".to_string())),
        ]),
    };
    let downloads = build_downloads(
        &vec!["u1".to_string(), "u2".to_string()],
        &vec!["u3".to_string()],
        &[segment],
    );
    let told: Vec<(&str, &str, &str)> = downloads
        .iter()
        .map(|d| (d.kind, d.filename.as_str(), d.url.as_str()))
        .collect();
    assert_eq!(
        told,
        vec![
            ("image", "image_1.png", "u1"),
            ("image", "image_2.png", "u2"),
            ("quoted image", "quoted_image_1.png", "u3"),
            ("file", "doc.pdf", "u4"),
        ]
    );
}

#[test]
fn files_that_could_not_be_had_are_left_out() {
    let parts = build_file_parts(vec![
        Ok(Json::Bool(true)),
        Err("gone".to_string()),
        Ok(Json::Bool(false)),
    ]);
    assert_eq!(parts.len(), 2);
    assert_eq!(parts[0].as_bool(), Some(true));
    assert_eq!(parts[1].as_bool(), Some(false));
}
