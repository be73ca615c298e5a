use arachne::pipeline::photos::{
    check_download_status, compute_phash, new_photo_key, phash_from_bytes, photo_extension, photo_key,
};
use arachne::error::ArachneError;

#[test]
fn test_compute_phash_invalid_bytes() {
    let result = compute_phash(b"not an image");
    assert!(result.is_none());
}

#[test]
fn phash_is_big_endian_first_eight_bytes() {
    assert_eq!(phash_from_bytes(&vec![0, 0, 0, 0, 0, 0, 1, 2, 99]), 258);
    assert_eq!(phash_from_bytes(&vec![0xff; 8]), -1);
    assert_eq!(phash_from_bytes(&vec![0x80, 0, 0, 0, 0, 0, 0, 0]), i64::MIN);
    // A shorter hash fills the high bytes; the low bytes are zero.
    assert_eq!(phash_from_bytes(&vec![1, 2, 3]), 0x0102_0300_0000_0000);
    assert_eq!(phash_from_bytes(&vec![]), 0);
}

fn gradient_png(flip: bool) -> Vec<u8> {
    let mut png = Vec::new();
    let img = image::RgbImage::from_fn(16, 16, |x, y| {
        let v = if flip { 15 - x } else { x };
        image::Rgb([(v * 16) as u8, (y * 16) as u8, 0])
    });
    img.write_to(&mut std::io::Cursor::new(&mut png), image::ImageFormat::Png).unwrap();
    png
}

#[test]
fn compute_phash_of_a_real_image() {
    let png = gradient_png(false);
    let hash = compute_phash(&png);
    assert!(hash.is_some());
    // The same image gives the same hash; the DoubleGradient hash at 8 x 8 has five
    // bytes, so the three low bytes of the number are zero.
    assert_eq!(compute_phash(&png), hash);
    assert_eq!(hash.unwrap() & 0xff_ffff, 0);
    assert_ne!(compute_phash(&gradient_png(true)), hash);
}

#[test]
fn photo_extension_rules() {
    assert_eq!(photo_extension("https://cdn/x/photo.PNG"), "jpg");
    assert_eq!(photo_extension("https://cdn/x/photo.webp"), "webp");
    assert_eq!(photo_extension("https://cdn/x/photo.jpeg"), "jpeg");
    assert_eq!(photo_extension("https://cdn/x/photo"), "jpg");
    assert_eq!(photo_extension("https://cdn/x/photo.gif"), "jpg");
}

#[test]
fn photo_key_layout() {
    let profile = 0xa1a2a3a4b1b2c1c2d1d2d3d4d5d6d7d8u128;
    let photo = 1u128;
    assert_eq!(
        photo_key("fatal_model", profile, photo, "https://cdn/p.png"),
        "arachne/fatal_model/a1a2a3a4-b1b2-c1c2-d1d2-d3d4d5d6d7d8/00000000-0000-0000-0000-000000000001.png"
    );
    let fresh = new_photo_key("s", profile, "u.webp");
    assert!(fresh.starts_with("arachne/s/a1a2a3a4-b1b2-c1c2-d1d2-d3d4d5d6d7d8/"));
    assert!(fresh.ends_with(".webp"));
    assert_eq!(fresh.len(), "arachne/s/".len() + 36 + 1 + 36 + ".webp".len());
    let photo: Vec<char> = fresh["arachne/s/".len() + 37..].chars().take(36).collect();
    assert_eq!(photo[14], '4');
    assert!(matches!(photo[19], '8' | '9' | 'a' | 'b'));
}

#[test]
fn download_status() {
    assert!(check_download_status("u", 200, "200 OK").is_ok());
    assert!(check_download_status("u", 299, "299").is_ok());
    match check_download_status("https://cdn/p.jpg", 404, "404 Not Found") {
        Err(ArachneError::S3(m)) => assert_eq!(m, "failed to download photo https://cdn/p.jpg: HTTP 404 Not Found"),
        other => panic!("unexpected {:?}", other),
    }
    assert!(check_download_status("u", 301, "301").is_err());
}
