//! How the images and files of a message are handed to Alma.
use crate::json;
use crate::json::{Json, JsonView};
use crate::onebot::event;
use crate::onebot::event::{MessageSegment, SegmentView};
use crate::text::model;
use crate::text::number;
use crate::text::ops;
use base64::Engine;
use vstd::prelude::*;
use vstd::string::*;

verus! {

/// The greatest size of a file that is handed on, in bytes.
pub const MAX_MEDIA_BYTES: u64 = 20_971_520;

/// The scheme and the path of a URL.
pub struct MediaUrl {
    pub scheme: String,
    pub path: String,
}

/// The scheme and the path of the URL that a text is read as, or why it is none.
pub uninterp spec fn parsed_url(text: Seq<char>) -> Result<(Seq<char>, Seq<char>), Seq<char>>;

/// The model of the outcome of reading a URL.
pub open spec fn url_view(r: Result<MediaUrl, String>) -> Result<
    (Seq<char>, Seq<char>),
    Seq<char>,
> {
    match r {
        Ok(u) => Ok((u.scheme@, u.path@)),
        Err(e) => Err(e@),
    }
}

/// `url::Url::parse` reads a text as a URL, whose scheme and path `url::Url::scheme` and
/// `url::Url::path` give, or says what is wrong with it.
#[verifier::external_body]
fn parse_url(text: &str) -> (r: Result<MediaUrl, String>)
    ensures
        url_view(r) == parsed_url(text@),
{
    match url::Url::parse(text) {
        Ok(u) => Ok(MediaUrl { scheme: u.scheme().to_string(), path: u.path().to_string() }),
        Err(e) => Err(e.to_string()),
    }
}

/// The URL of a file to download, or why it is not downloaded: it must be one of the web.
pub open spec fn media_url(parsed: Result<(Seq<char>, Seq<char>), Seq<char>>) -> Result<
    (Seq<char>, Seq<char>),
    Seq<char>,
> {
    match parsed {
        Ok((scheme, path)) => if scheme == "http"@ || scheme == "https"@ {
            Ok((scheme, path))
        } else {
            Err("Unsupported media URL scheme: "@ + scheme)
        },
        Err(e) => Err("Invalid media URL: "@ + e),
    }
}

/// Accepts the URL of a file to download, as it was read.
pub fn accept_url(parsed: Result<MediaUrl, String>) -> (r: Result<MediaUrl, String>)
    ensures
        url_view(r) == media_url(url_view(parsed)),
{
    match parsed {
        Ok(u) => if ops::same(&u.scheme, "http") || ops::same(&u.scheme, "https") {
            Ok(u)
        } else {
            Err("Unsupported media URL scheme: ".to_owned().concat(&u.scheme))
        },
        Err(e) => Err("Invalid media URL: ".to_owned().concat(&e)),
    }
}

/// Reads the URL of a file to download.
pub fn check_media_url(url: &str) -> (r: Result<MediaUrl, String>)
    ensures
        url_view(r) == media_url(parsed_url(url@)),
{
    accept_url(parse_url(url))
}

/// Why an answer is not read, if it is not: it reports no success, or announces too much.
pub open spec fn refused_answer(
    status: u16,
    status_text: Seq<char>,
    content_length: Option<u64>,
) -> Option<Seq<char>> {
    if status < 200 || status > 299 {
        Some("HTTP status error: "@ + status_text)
    } else {
        match content_length {
            Some(len) => if len > MAX_MEDIA_BYTES {
                Some(
                    "Media too large: "@ + number::dec_nat(len as nat) + " bytes exceeds "@
                        + number::dec_nat(MAX_MEDIA_BYTES as nat) + " byte limit"@,
                )
            } else {
                None
            },
            None => None,
        }
    }
}

/// Looks at the head of the answer to a download. `status_text` is the status in words.
pub fn check_answer(status: u16, status_text: &str, content_length: Option<u64>) -> (r: Result<
    (),
    String,
>)
    ensures
        match r {
            Ok(_) => refused_answer(status, status_text@, content_length) is None,
            Err(e) => refused_answer(status, status_text@, content_length) == Some(e@),
        },
{
    if status < 200 || status > 299 {
        return Err("HTTP status error: ".to_owned().concat(status_text));
    }
    if let Some(len) = content_length {
        if len > MAX_MEDIA_BYTES {
            return Err(
                "Media too large: ".to_owned().concat(&number::dec_u64(len)).concat(
                    " bytes exceeds ",
                ).concat(&number::dec_u64(MAX_MEDIA_BYTES)).concat(" byte limit"),
            );
        }
    }
    Ok(())
}

/// What a download has brought so far.
pub struct MediaBody {
    bytes: Vec<u8>,
}

impl View for MediaBody {
    type V = Seq<u8>;

    closed spec fn view(&self) -> Seq<u8> {
        self.bytes@
    }
}

impl MediaBody {
    #[verifier::type_invariant]
    spec fn within_limit(self) -> bool {
        self.bytes@.len() <= MAX_MEDIA_BYTES
    }

    pub fn new() -> (r: Self)
        ensures
            r@ == Seq::<u8>::empty(),
    {
        MediaBody { bytes: Vec::new() }
    }

    /// Adds what came next, as long as the whole is not too much.
    pub fn add_chunk(&mut self, chunk: &Vec<u8>) -> (r: Result<(), String>)
        ensures
            match r {
                Ok(_) => old(self)@.len() + chunk@.len() <= MAX_MEDIA_BYTES && final(self)@ == old(
                    self,
                )@ + chunk@,
                Err(e) => {
                    &&& old(self)@.len() + chunk@.len() > MAX_MEDIA_BYTES
                    &&& final(self)@ == old(self)@
                    &&& e@ == "Media too large: response exceeds "@ + number::dec_nat(
                        MAX_MEDIA_BYTES as nat,
                    ) + " byte limit"@
                },
            },
    {
        proof {
            use_type_invariant(&*self);
        }
        if chunk.len() as u64 > MAX_MEDIA_BYTES - self.bytes.len() as u64 {
            return Err(
                "Media too large: response exceeds ".to_owned().concat(
                    &number::dec_u64(MAX_MEDIA_BYTES),
                ).concat(" byte limit"),
            );
        }
        let mut bytes: Vec<u8> = Vec::new();
        std::mem::swap(&mut bytes, &mut self.bytes);
        let ghost before = bytes@;
        let mut i: usize = 0;
        while i < chunk.len()
            invariant
                i <= chunk@.len(),
                bytes@ == before + chunk@.take(i as int),
            decreases chunk@.len() - i,
        {
            bytes.push(chunk[i]);
            i += 1;
            assert(bytes@ =~= before + chunk@.take(i as int));
        }
        assert(chunk@.take(i as int) =~= chunk@);
        self.bytes = bytes;
        Ok(())
    }
}

/// The kind of a file: what the answer says, else what the end of the path tells.
pub open spec fn content_type_of(header: Option<Seq<char>>, path: Seq<char>) -> Seq<char> {
    match header {
        Some(t) => t,
        None => if model::finishes_with(path, ".png"@) {
            "image/png"@
        } else if model::finishes_with(path, ".jpg"@) || model::finishes_with(path, ".jpeg"@) {
            "image/jpeg"@
        } else if model::finishes_with(path, ".gif"@) {
            "image/gif"@
        } else {
            "application/octet-stream"@
        },
    }
}

/// The kind of a file: what the answer says, else what the end of the path tells.
pub fn media_content_type(header: Option<&str>, path: &str) -> (r: String)
    ensures
        r@ == content_type_of(json::str_view(header), path@),
{
    match header {
        Some(t) => t.to_owned(),
        None => if ops::ends_with(path, ".png") {
            "image/png".to_owned()
        } else if ops::ends_with(path, ".jpg") || ops::ends_with(path, ".jpeg") {
            "image/jpeg".to_owned()
        } else if ops::ends_with(path, ".gif") {
            "image/gif".to_owned()
        } else {
            "application/octet-stream".to_owned()
        },
    }
}

/// The last part that is not empty.
pub open spec fn last_nonempty(parts: Seq<Seq<char>>) -> Option<Seq<char>>
    decreases parts.len(),
{
    if parts.len() == 0 {
        None
    } else if parts.last().len() > 0 {
        Some(parts.last())
    } else {
        last_nonempty(parts.drop_last())
    }
}

/// The name of a file: the last part of its path, if that has a dot in it.
pub open spec fn filename_of(path: Seq<char>, default: Seq<char>) -> Seq<char> {
    let name = if path.len() > 0 && path[0] == '/' {
        last_nonempty(model::split_on(path.skip(1), "/"@))
    } else {
        None
    };
    match name {
        Some(n) => if model::has_part(n, "."@) {
            n
        } else {
            default
        },
        None => default,
    }
}

/// The name of a file: the last part of its path, if that has a dot in it.
pub fn media_filename(path: &str, default_filename: &str) -> (r: String)
    ensures
        r@ == filename_of(path@, default_filename@),
{
    let n: usize = path.unicode_len();
    if n == 0 || path.get_char(0) != '/' {
        return default_filename.to_owned();
    }
    proof {
        reveal_strlit("/");
    }
    let rest = path.substring_char(1, n);
    assert(rest@ =~= path@.skip(1));
    let parts = ops::split(rest, "/");
    let ghost all = model::texts(parts@);
    let mut i: usize = parts.len();
    assert(all.take(i as int) =~= all);
    while i > 0
        invariant
            i <= parts@.len(),
            all == model::texts(parts@),
            all == model::split_on(path@.skip(1), "/"@),
            path@.len() > 0,
            path@[0] == '/',
            last_nonempty(all) == last_nonempty(all.take(i as int)),
        decreases i,
    {
        assert(all.take(i as int).last() == parts@[i - 1]@);
        assert(all.take(i as int).drop_last() =~= all.take(i - 1));
        if !parts[i - 1].as_str().is_empty() {
            return if ops::contains(&parts[i - 1], ".") {
                parts[i - 1].clone()
            } else {
                default_filename.to_owned()
            };
        }
        i -= 1;
    }
    default_filename.to_owned()
}

/// The base64 encoding of bytes, in the standard alphabet and with padding.
pub uninterp spec fn base64_of(bytes: Seq<u8>) -> Seq<char>;

/// `base64::Engine::encode` of the standard engine writes bytes in base64. Every three bytes
/// become four characters, and so does what is left at the end.
#[verifier::external_body]
fn encode_base64(bytes: &Vec<u8>) -> (r: String)
    requires
        bytes@.len() <= MAX_MEDIA_BYTES,
    ensures
        r@ == base64_of(bytes@),
        r@.len() == (bytes@.len() + 2) / 3 * 4,
{
    base64::engine::general_purpose::STANDARD.encode(bytes)
}

/// A file as a part of a message to Alma: the bytes stand in a data URL.
pub open spec fn file_part(content_type: Seq<char>, data: Seq<char>, filename: Seq<char>) -> JsonView {
    JsonView::Object(
        seq![
            ("type"@, JsonView::Str("file"@)),
            ("mediaType"@, JsonView::Str(content_type)),
            ("url"@, JsonView::Str("data:"@ + content_type + ";base64,"@ + data)),
            ("filename"@, JsonView::Str(filename)),
        ],
    )
}

/// A file as a part of a message to Alma. `data` are its bytes in base64.
pub fn write_file_part(content_type: &str, data: &str, filename: &str) -> (r: Json)
    ensures
        r@ == file_part(content_type@, data@, filename@),
{
    let url = "data:".to_owned().concat(content_type).concat(";base64,").concat(data);
    let mut entries: Vec<(String, Json)> = Vec::new();
    entries.push(("type".to_owned(), Json::from_text("file")));
    entries.push(("mediaType".to_owned(), Json::from_text(content_type)));
    entries.push(("url".to_owned(), Json::Str(url)));
    entries.push(("filename".to_owned(), Json::from_text(filename)));
    proof {
        json::lemma_entry_views(entries@);
        let want = seq![
            ("type"@, JsonView::Str("file"@)),
            ("mediaType"@, JsonView::Str(content_type@)),
            ("url"@, JsonView::Str(url@)),
            ("filename"@, JsonView::Str(filename@)),
        ];
        assert(json::entry_views_of(entries@) =~= want);
    }
    Json::Object(entries)
}

/// Makes a part of a message to Alma of what was downloaded. `header` is the kind of the file
/// that the answer names, if it names one.
pub fn download_media_as_file_part(
    url: &MediaUrl,
    header: Option<&str>,
    body: &MediaBody,
    default_filename: &str,
) -> (r: Json)
    ensures
        r@ == file_part(
            content_type_of(json::str_view(header), url.path@),
            base64_of(body@),
            filename_of(url.path@, default_filename@),
        ),
{
    proof {
        use_type_invariant(body);
    }
    let content_type = media_content_type(header, &url.path);
    let data = encode_base64(&body.bytes);
    let filename = media_filename(&url.path, default_filename);
    write_file_part(&content_type, &data, &filename)
}

/// A file to download: what it is, how it is called if its URL does not tell, and where it is.
pub struct Download {
    pub kind: &'static str,
    pub filename: String,
    pub url: String,
}

/// The model of a file to download.
pub struct DownloadView {
    pub kind: Seq<char>,
    pub filename: Seq<char>,
    pub url: Seq<char>,
}

impl View for Download {
    type V = DownloadView;

    open spec fn view(&self) -> DownloadView {
        DownloadView { kind: self.kind@, filename: self.filename@, url: self.url@ }
    }
}

/// The models of files to download.
pub open spec fn download_views(v: Seq<Download>) -> Seq<DownloadView> {
    v.map_values(|d: Download| d@)
}

/// The images at URLs, numbered from 1.
pub open spec fn image_downloads(kind: Seq<char>, prefix: Seq<char>, urls: Seq<Seq<char>>) -> Seq<
    DownloadView,
> {
    Seq::new(
        urls.len(),
        |i: int|
            DownloadView {
                kind,
                filename: prefix + number::dec_nat((i + 1) as nat) + ".png"@,
                url: urls[i],
            },
    )
}

/// The files with names and URLs.
pub open spec fn file_downloads(files: Seq<(Seq<char>, Seq<char>)>) -> Seq<DownloadView> {
    files.map_values(
        |f: (Seq<char>, Seq<char>)| DownloadView { kind: "file"@, filename: f.0, url: f.1 },
    )
}

/// What is downloaded for a message: its images, those of the message that it quotes, and its
/// files.
pub open spec fn downloads_for(
    image_urls: Seq<Seq<char>>,
    quoted_image_urls: Seq<Seq<char>>,
    segments: Seq<SegmentView>,
) -> Seq<DownloadView> {
    image_downloads("image"@, "image_"@, image_urls) + image_downloads(
        "quoted image"@,
        "quoted_image_"@,
        quoted_image_urls,
    ) + file_downloads(event::files_of(segments))
}

fn push_images(out: &mut Vec<Download>, kind: &'static str, prefix: &str, urls: &Vec<String>)
    ensures
        download_views(final(out)@) == download_views(old(out)@) + image_downloads(
            kind@,
            prefix@,
            model::texts(urls@),
        ),
{
    let ghost before = download_views(out@);
    let ghost all = image_downloads(kind@, prefix@, model::texts(urls@));
    let mut i: usize = 0;
    assert(before + all.take(0) =~= before);
    while i < urls.len()
        invariant
            i <= urls@.len(),
            all == image_downloads(kind@, prefix@, model::texts(urls@)),
            download_views(out@) == before + all.take(i as int),
        decreases urls@.len() - i,
    {
        let d = Download {
            kind,
            filename: prefix.to_owned().concat(&number::dec_u64(i as u64 + 1)).concat(".png"),
            url: urls[i].clone(),
        };
        assert(d@ == all[i as int]);
        let ghost was = out@;
        out.push(d);
        i += 1;
        assert(download_views(out@) =~= download_views(was).push(d@));
        assert(all.take(i as int) =~= all.take(i - 1).push(all[i - 1]));
        assert(download_views(out@) =~= before + all.take(i as int));
    }
    assert(all.take(i as int) =~= all);
}

/// What is downloaded for a message: its images, those of the message that it quotes, and its
/// files.
pub fn build_downloads(
    image_urls: &Vec<String>,
    quoted_image_urls: &Vec<String>,
    segments: &[MessageSegment],
) -> (r: Vec<Download>)
    ensures
        download_views(r@) == downloads_for(
            model::texts(image_urls@),
            model::texts(quoted_image_urls@),
            event::segment_views(segments@),
        ),
{
    let mut out: Vec<Download> = Vec::new();
    assert(download_views(out@) =~= seq![]);
    push_images(&mut out, "image", "image_", image_urls);
    push_images(&mut out, "quoted image", "quoted_image_", quoted_image_urls);
    let files = event::extract_files(segments);
    let ghost before = download_views(out@);
    let ghost all = file_downloads(event::pair_views(files@));
    let mut i: usize = 0;
    assert(before + all.take(0) =~= before);
    while i < files.len()
        invariant
            i <= files@.len(),
            all == file_downloads(event::pair_views(files@)),
            download_views(out@) == before + all.take(i as int),
        decreases files@.len() - i,
    {
        let d = Download { kind: "file", filename: files[i].0.clone(), url: files[i].1.clone() };
        assert(d@ == all[i as int]);
        let ghost was = out@;
        out.push(d);
        i += 1;
        assert(download_views(out@) =~= download_views(was).push(d@));
        assert(all.take(i as int) =~= all.take(i - 1).push(all[i - 1]));
        assert(download_views(out@) =~= before + all.take(i as int));
    }
    assert(all.take(i as int) =~= all);
    assert(Seq::<DownloadView>::empty() + image_downloads(
        "image"@,
        "image_"@,
        model::texts(image_urls@),
    ) =~= image_downloads("image"@, "image_"@, model::texts(image_urls@)));
    out
}

/// The parts that could be had, in their order.
pub open spec fn had_parts(results: Seq<Result<Json, String>>) -> Seq<Json>
    decreases results.len(),
{
    if results.len() == 0 {
        seq![]
    } else {
        let before = had_parts(results.drop_last());
        match results.last() {
            Ok(part) => before.push(part),
            Err(_) => before,
        }
    }
}

/// Keeps the parts that could be had, in their order. A file that could not be downloaded is
/// left out.
pub fn build_file_parts(results: Vec<Result<Json, String>>) -> (r: Vec<Json>)
    ensures
        r@ == had_parts(results@),
{
    let ghost all = results@;
    let mut out: Vec<Json> = Vec::new();
    let mut rest = results;
    let mut taken: Vec<Json> = Vec::new();
    assert(all.take(rest@.len() as int) =~= all);
    proof {
        assert(Seq::<Json>::empty().reverse() =~= seq![]);
        assert(had_parts(all) + Seq::<Json>::empty() =~= had_parts(all));
    }
    while rest.len() > 0
        invariant
            rest@.len() <= all.len(),
            rest@ == all.take(rest@.len() as int),
            had_parts(all) == had_parts(rest@) + taken@.reverse(),
        decreases rest@.len(),
    {
        let ghost was = rest@;
        let ghost had = taken@;
        let last = rest.pop().unwrap();
        assert(rest@ =~= was.drop_last());
        if let Ok(part) = last {
            taken.push(part);
            proof {
                assert(taken@.reverse() =~= seq![part] + had.reverse());
                assert(had_parts(rest@).push(part) + had.reverse() =~= had_parts(rest@)
                    + taken@.reverse());
            }
        }
    }
    assert(had_parts(rest@) =~= seq![]);
    while taken.len() > 0
        invariant
            had_parts(all) == out@ + taken@.reverse(),
        decreases taken@.len(),
    {
        let ghost had = taken@;
        let part = taken.pop().unwrap();
        proof {
            assert(had.reverse() =~= seq![part] + taken@.reverse());
            assert(out@ + had.reverse() =~= out@.push(part) + taken@.reverse());
        }
        out.push(part);
    }
    assert(out@ + taken@.reverse() =~= out@);
    out
}

} // verus!
