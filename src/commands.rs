//! The computing parts of the desktop commands: greeting text, image type
//! detection, the `data:` URL of an image, and the referer a request for an
//! image presents.
use vstd::prelude::*;
use crate::outside::{
    base64_encode, base64_standard, parsed_url_host, percent_encoded, url_encode, url_host,
};
use crate::text::{char_vec, concat, contains_spec, push_text, starts_with_spec};

verus! {

pub const PNG: &'static str = "image/png";

pub const JPEG: &'static str = "image/jpeg";

pub const GIF: &'static str = "image/gif";

pub const WEBP: &'static str = "image/webp";

pub const BMP: &'static str = "image/bmp";

pub const CHAOXING_DOMAIN: &'static str = "chaoxing.com";

pub const ZHIHUISHU_DOMAIN: &'static str = "zhihuishu.com";

pub const CHAOXING_REFERER: &'static str = "https://mooc1-1.chaoxing.com/";

pub const ZHIHUISHU_REFERER: &'static str = "https://www.zhihuishu.com/";

pub const DEFAULT_REFERER: &'static str = "https://www.google.com/";

/// The host assumed for a URL that has none.
pub const DEFAULT_HOST: &'static str = "www.google.com";

pub const URL_PARSE_ERROR_PREFIX: &'static str = "URL解析失败: ";

/// The front end's route that shows URL-bearing questions, before its query value.
pub const URL_CONTENT_ROUTE: &'static str = "/#/url-content?questions=";

/// Where the front end is served while it is being developed.
pub const DEV_ORIGIN: &'static str = "http://localhost:1420";

/// The user assumed when none can be found.
pub const DEFAULT_USER: &'static str = "Administrator";

/// Name of the answer cache's database file in the data directory.
pub const DATABASE_FILE: &'static str = "airesponses.db";

pub open spec fn data_dir_spec(username: Seq<char>) -> Seq<char> {
    "C:\\Users\\"@ + username + "\\AppData\\Local\\ZError"@
}

/// The application's data directory for `username`.
pub fn data_dir(username: &str) -> (r: String)
    ensures
        r@ == data_dir_spec(username@),
{
    let mut d = concat("C:\\Users\\", username);
    push_text(&mut d, "\\AppData\\Local\\ZError");
    d
}

/// The answer cache's database file for `username`.
pub fn database_path(username: &str) -> (r: String)
    ensures
        r@ == data_dir_spec(username@) + "\\"@ + DATABASE_FILE@,
{
    let mut p = data_dir(username);
    push_text(&mut p, "\\");
    push_text(&mut p, DATABASE_FILE);
    p
}

pub open spec fn greeting_spec(name: Seq<char>) -> Seq<char> {
    "Hello, "@ + name + "! You've been greeted from Rust!"@
}

/// A greeting for `name`.
pub fn greet(name: &str) -> (r: String)
    ensures
        r@ == greeting_spec(name@),
{
    let mut g = concat("Hello, ", name);
    push_text(&mut g, "! You've been greeted from Rust!");
    g
}

/// The media type of an image, told by its leading signature bytes: PNG,
/// JPEG, GIF, WebP (a RIFF file with a WEBP tag) or BMP; PNG when none fits or
/// when fewer than four bytes are given.
pub open spec fn image_type_spec(b: Seq<u8>) -> Seq<char> {
    if b.len() < 4 {
        PNG@
    } else if b[0] == 0x89 && b[1] == 0x50 && b[2] == 0x4E && b[3] == 0x47 {
        PNG@
    } else if b[0] == 0xFF && b[1] == 0xD8 && b[2] == 0xFF {
        JPEG@
    } else if b[0] == 0x47 && b[1] == 0x49 && b[2] == 0x46 && b[3] == 0x38 {
        GIF@
    } else if b.len() >= 12 && b[0] == 0x52 && b[1] == 0x49 && b[2] == 0x46 && b[3] == 0x46 && b[8]
        == 0x57 && b[9] == 0x45 && b[10] == 0x42 && b[11] == 0x50 {
        WEBP@
    } else if b[0] == 0x42 && b[1] == 0x4D {
        BMP@
    } else {
        PNG@
    }
}

pub fn detect_image_type(bytes: &[u8]) -> (r: &'static str)
    ensures
        r@ == image_type_spec(bytes@),
{
    if bytes.len() < 4 {
        return PNG;
    }
    if bytes[0] == 0x89 && bytes[1] == 0x50 && bytes[2] == 0x4E && bytes[3] == 0x47 {
        return PNG;
    }
    if bytes[0] == 0xFF && bytes[1] == 0xD8 && bytes[2] == 0xFF {
        return JPEG;
    }
    if bytes[0] == 0x47 && bytes[1] == 0x49 && bytes[2] == 0x46 && bytes[3] == 0x38 {
        return GIF;
    }
    if bytes.len() >= 12 && bytes[0] == 0x52 && bytes[1] == 0x49 && bytes[2] == 0x46 && bytes[3]
        == 0x46 && bytes[8] == 0x57 && bytes[9] == 0x45 && bytes[10] == 0x42 && bytes[11] == 0x50 {
        return WEBP;
    }
    if bytes[0] == 0x42 && bytes[1] == 0x4D {
        return BMP;
    }
    PNG
}

pub open spec fn data_url_spec(content_type: Seq<char>, encoded: Seq<char>) -> Seq<char> {
    "data:"@ + content_type + ";base64,"@ + encoded
}

/// A `data:` URL for content of type `content_type` whose base64 text is `encoded`.
pub fn data_url(content_type: &str, encoded: &str) -> (r: String)
    ensures
        r@ == data_url_spec(content_type@, encoded@),
{
    let mut u = concat("data:", content_type);
    push_text(&mut u, ";base64,");
    push_text(&mut u, encoded);
    u
}

/// The `data:` URL of an image: its detected type and its base64 encoding.
pub fn image_data_url(bytes: &[u8]) -> (r: String)
    ensures
        r@ == data_url_spec(image_type_spec(bytes@), base64_standard(bytes@)),
{
    let encoded = base64_encode(bytes);
    data_url(detect_image_type(bytes), encoded.as_str())
}

/// The referer that suits the image host `host`.
pub open spec fn referer_spec(host: Seq<char>) -> Seq<char> {
    if contains_spec(host, CHAOXING_DOMAIN@) {
        CHAOXING_REFERER@
    } else if contains_spec(host, ZHIHUISHU_DOMAIN@) {
        ZHIHUISHU_REFERER@
    } else {
        DEFAULT_REFERER@
    }
}

pub fn referer_for_host(host: &str) -> (r: &'static str)
    ensures
        r@ == referer_spec(host@),
{
    let h = char_vec(host);
    if crate::text::contains(&h, &char_vec(CHAOXING_DOMAIN)) {
        CHAOXING_REFERER
    } else if crate::text::contains(&h, &char_vec(ZHIHUISHU_DOMAIN)) {
        ZHIHUISHU_REFERER
    } else {
        DEFAULT_REFERER
    }
}

/// The referer for an image at `url`, chosen by its host (`www.google.com` when
/// it has none); an error when `url` does not parse.
pub fn referer_for_url(url: &str) -> (r: Result<&'static str, String>)
    ensures
        parsed_url_host(url@) is None <==> r is Err,
        r is Err ==> starts_with_spec(r->Err_0@, URL_PARSE_ERROR_PREFIX@),
        parsed_url_host(url@) matches Some(h) ==> r is Ok && r->Ok_0@ == referer_spec(
            match h {
                Some(x) => x,
                None => DEFAULT_HOST@,
            },
        ),
{
    match url_host(url) {
        Ok(Some(h)) => Ok(referer_for_host(h.as_str())),
        Ok(None) => Ok(referer_for_host(DEFAULT_HOST)),
        Err(e) => {
            let m = concat(URL_PARSE_ERROR_PREFIX, e.as_str());
            assert(m@.take(URL_PARSE_ERROR_PREFIX@.len() as int) == URL_PARSE_ERROR_PREFIX@);
            Err(m)
        },
    }
}

pub open spec fn url_content_route_spec(questions: Seq<char>) -> Seq<char> {
    URL_CONTENT_ROUTE@ + percent_encoded(questions)
}

/// The in-app route of the window that shows the questions `questions`.
pub fn url_content_route(questions: &str) -> (r: String)
    ensures
        r@ == url_content_route_spec(questions@),
{
    let encoded = url_encode(questions);
    concat(URL_CONTENT_ROUTE, encoded.as_str())
}

/// The address of that window on the development server.
pub fn url_content_dev_url(questions: &str) -> (r: String)
    ensures
        r@ == DEV_ORIGIN@ + url_content_route_spec(questions@),
{
    let route = url_content_route(questions);
    concat(DEV_ORIGIN, route.as_str())
}

} // verus!
