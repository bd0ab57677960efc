use blumbotron::encoding::{decode_payload, mime_for, render};

#[test]
fn png_asset_renders_as_data_url() {
    let url = render("bg1.png", &[0u8, 1, 2, 3, 4, 5, 6, 7, 8, 9]);
    assert_eq!(url, "data:image/png;base64,AAECAwQFBgcICQ==");
}

#[test]
fn rendering_decodes_back_to_the_bytes() {
    let bytes = vec![255u8, 0, 17, 42, 200, 3, 9];
    let url = render("photo.JPG", &bytes);
    assert_eq!(decode_payload(&url), Some(bytes));
}

#[test]
fn mime_types_follow_the_extension() {
    assert_eq!(mime_for("a.jpg"), "image/jpeg");
    assert_eq!(mime_for("a.JPEG"), "image/jpeg");
    assert_eq!(mime_for("a.png"), "image/png");
    assert_eq!(mime_for("a.gif"), "image/gif");
    assert_eq!(mime_for("a.WebP"), "image/webp");
    assert_eq!(mime_for("a.bmp"), "image/png");
    assert_eq!(mime_for("noext"), "image/png");
    assert_eq!(mime_for(".jpg"), "image/png");
    assert_eq!(mime_for("archive.tar.gif"), "image/gif");
}
