use dglab::qr::{qr_texture, rasterize, try_qr_texture, MAX_CODE_BYTES};

fn pixel(pixels: &[u8], size: u32, x: u32, y: u32) -> [u8; 4] {
    let i = ((y * size + x) * 4) as usize;
    [pixels[i], pixels[i + 1], pixels[i + 2], pixels[i + 3]]
}

const BLACK: [u8; 4] = [0, 0, 0, 255];
const WHITE: [u8; 4] = [255, 255, 255, 255];

#[test]
fn modules_become_squares() {
    let image = rasterize(&vec![true, false, false, true], 2, 3);
    assert_eq!(image.size, 6);
    assert_eq!(image.pixels.len(), 6 * 6 * 4);
    for y in 0..6 {
        for x in 0..6 {
            let expected = if (x < 3) == (y < 3) { WHITE } else { BLACK };
            assert_eq!(pixel(&image.pixels, 6, x, y), expected);
        }
    }
}

#[test]
fn modules_of_no_size_make_no_picture() {
    let image = rasterize(&vec![true], 1, 0);
    assert_eq!(image.size, 0);
    assert!(image.pixels.is_empty());
}

#[test]
fn picture_shows_the_code() {
    let content = "https://www.dungeon-lab.com/app-download.php#DGLAB-SOCKET#ws://192.168.1.5:9999/c0";
    let code =
        qrcode::QrCode::with_error_correction_level(content.as_bytes(), qrcode::EcLevel::M).unwrap();
    let image = qr_texture(content, 4);
    let width = code.width() as u32;
    assert_eq!(image.size, width * 4);
    for y in 0..image.size {
        for x in 0..image.size {
            let dark = code[((x / 4) as usize, (y / 4) as usize)] == qrcode::Color::Dark;
            let expected = if dark { WHITE } else { BLACK };
            assert_eq!(pixel(&image.pixels, image.size, x, y), expected);
        }
    }
    assert_eq!(pixel(&image.pixels, image.size, 0, 0), WHITE);
    assert_eq!(pixel(&image.pixels, image.size, 4, 4), BLACK);
}

#[test]
fn codes_of_many_sizes() {
    assert_eq!(try_qr_texture("", 1).unwrap().size, 21);
    assert_eq!(try_qr_texture(&"0".repeat(MAX_CODE_BYTES), 1).unwrap().size, 37);
    assert_eq!(try_qr_texture(&"a".repeat(MAX_CODE_BYTES), 1).unwrap().size, 53);
    assert_eq!(try_qr_texture(&"a1234".repeat(MAX_CODE_BYTES / 5), 1).unwrap().size, 65);
}

#[test]
fn content_that_is_too_long_has_no_picture() {
    assert!(try_qr_texture(&"a".repeat(MAX_CODE_BYTES + 1), 1).is_none());
    assert!(try_qr_texture(&"码".repeat(60), 1).is_some());
    assert!(try_qr_texture(&"码".repeat(61), 1).is_none());
}

#[test]
fn pairing_links_are_short_enough() {
    let link = dglab::address::pairing_link(
        "wss://a-rather-long-name-of-a-relay.example.org:65535/path",
        "123e4567-e89b-12d3-a456-426614174000",
    );
    assert!(try_qr_texture(&link, 4).is_some());
}

#[test]
fn picture_that_is_too_large_is_not_drawn() {
    assert!(try_qr_texture("x", 2000).is_none());
    assert!(try_qr_texture("x", u32::MAX).is_none());
}
