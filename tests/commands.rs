use zerror::commands::{
    data_url, detect_image_type, greet, image_data_url, referer_for_host, referer_for_url,
    url_content_dev_url, url_content_route, data_dir, database_path,
};

#[test]
fn greeting_names_the_user() {
    assert_eq!(greet("Ann"), "Hello, Ann! You've been greeted from Rust!");
}

#[test]
fn image_types_from_signatures() {
    assert_eq!(detect_image_type(&[0x89, 0x50, 0x4E, 0x47, 0x0D]), "image/png");
    assert_eq!(detect_image_type(&[0xFF, 0xD8, 0xFF, 0xE0]), "image/jpeg");
    assert_eq!(detect_image_type(b"GIF89a"), "image/gif");
    assert_eq!(detect_image_type(b"RIFF\0\0\0\0WEBPVP8 "), "image/webp");
    assert_eq!(detect_image_type(b"RIFF\0\0\0\0WAVE"), "image/png");
    assert_eq!(detect_image_type(b"BM\0\0\0\0"), "image/bmp");
    assert_eq!(detect_image_type(&[1, 2]), "image/png");
    assert_eq!(detect_image_type(&[]), "image/png");
}

#[test]
fn image_becomes_data_url() {
    assert_eq!(image_data_url(&[0x89, 0x50, 0x4E, 0x47]), "data:image/png;base64,iVBORw==");
    assert_eq!(image_data_url(b"GIF8"), "data:image/gif;base64,R0lGOA==");
    assert_eq!(data_url("image/bmp", "Qk0="), "data:image/bmp;base64,Qk0=");
}

#[test]
fn referer_follows_host() {
    assert_eq!(referer_for_host("p.ananas.chaoxing.com"), "https://mooc1-1.chaoxing.com/");
    assert_eq!(referer_for_host("img.zhihuishu.com"), "https://www.zhihuishu.com/");
    assert_eq!(referer_for_host("example.org"), "https://www.google.com/");
    assert_eq!(
        referer_for_url("https://p.ananas.chaoxing.com/star3/a.png"),
        Ok("https://mooc1-1.chaoxing.com/")
    );
    assert_eq!(referer_for_url("data:image/png;base64,AA=="), Ok("https://www.google.com/"));
    let err = referer_for_url("not a url").unwrap_err();
    assert!(err.starts_with("URL解析失败: "));
    assert!(err.len() > "URL解析失败: ".len());
}

#[test]
fn url_content_addresses_encode_questions() {
    assert_eq!(url_content_route("[{\"q\":1}]"), "/#/url-content?questions=%5B%7B%22q%22%3A1%7D%5D");
    assert_eq!(url_content_dev_url("a b"), "http://localhost:1420/#/url-content?questions=a%20b");
}

#[test]
fn data_locations() {
    assert_eq!(data_dir("bob"), "C:\\Users\\bob\\AppData\\Local\\ZError");
    assert_eq!(database_path("bob"), "C:\\Users\\bob\\AppData\\Local\\ZError\\airesponses.db");
}
