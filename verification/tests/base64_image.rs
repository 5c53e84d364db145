use base64::Engine;
use mission_crew::domain::value_objects::base64_image::{data_url_for, Base64Image, ImageError};
use mission_crew::domain::value_objects::uploaded_image::{UploadAvatar, UploadImageOptions, UploadedImage};

fn encode(bytes: &[u8]) -> String {
    base64::engine::general_purpose::STANDARD.encode(bytes)
}

const PNG: [u8; 8] = [0x89, 0x50, 0x4E, 0x47, 0x0D, 0x0A, 0x1A, 0x0A];
const JPEG: [u8; 4] = [0xFF, 0xD8, 0xFF, 0xE0];
const GIF: [u8; 6] = [0x47, 0x49, 0x46, 0x38, 0x39, 0x61];

#[test]
fn png_becomes_a_data_url() {
    let data = encode(&PNG);
    assert_eq!(data, "iVBORw0KGgo=");
    let image = Base64Image::new(data.clone()).unwrap();
    assert_eq!(image.into_inner(), format!("data:image/png;base64,{}", data));
}

#[test]
fn jpeg_becomes_a_data_url() {
    let data = encode(&JPEG);
    assert_eq!(data, "/9j/4A==");
    let image = Base64Image::new(data).unwrap();
    assert_eq!(image.into_inner(), "data:image/jpeg;base64,/9j/4A==");
}

#[test]
fn empty_text_is_refused_first() {
    assert_eq!(Base64Image::new(String::new()).err(), Some(ImageError::Empty));
}

#[test]
fn text_that_is_not_base64_is_refused() {
    for text in ["***", "iVBORw0KGgo", "iVBO Rw0KGgo=", "a", " ", "iVBORw0KGgo=\n"] {
        assert_eq!(Base64Image::new(text.to_string()).err(), Some(ImageError::InvalidBase64), "{:?}", text);
    }
}

#[test]
fn other_types_are_refused() {
    assert_eq!(Base64Image::new(encode(&GIF)).err(), Some(ImageError::UnsupportedType));
    assert_eq!(Base64Image::new(encode(b"plain text")).err(), Some(ImageError::UnsupportedType));
    assert_eq!(Base64Image::new(encode(b"%PDF-1.4")).err(), Some(ImageError::UnsupportedType));
    assert_eq!(Base64Image::new(encode(&[0x89, 0x50, 0x4E])).err(), Some(ImageError::UnsupportedType));
    assert_eq!(Base64Image::new(encode(&[0xFF, 0xD8])).err(), Some(ImageError::UnsupportedType));
    assert_eq!(Base64Image::new(encode(&[0])).err(), Some(ImageError::UnsupportedType));
}

#[test]
fn the_type_is_found_in_the_decoded_bytes_not_in_the_text() {
    let text_that_spells_png = encode(b"image/png");
    assert_eq!(Base64Image::new(text_that_spells_png).err(), Some(ImageError::UnsupportedType));
    let mut book = vec![0u8; 68];
    book[..4].copy_from_slice(&JPEG);
    book[60..68].copy_from_slice(b"BOOKMOBI");
    assert_eq!(Base64Image::new(encode(&book)).err(), Some(ImageError::UnsupportedType));
}

#[test]
fn data_url_for_accepts_png_and_jpeg_only() {
    assert_eq!(data_url_for(Some("image/png"), "AAAA"), Ok("data:image/png;base64,AAAA".to_string()));
    assert_eq!(data_url_for(Some("image/jpeg"), ""), Ok("data:image/jpeg;base64,".to_string()));
    assert_eq!(data_url_for(Some("image/gif"), "AAAA"), Err(ImageError::UnsupportedType));
    assert_eq!(data_url_for(Some("IMAGE/PNG"), "AAAA"), Err(ImageError::UnsupportedType));
    assert_eq!(data_url_for(Some(""), "AAAA"), Err(ImageError::UnsupportedType));
    assert_eq!(data_url_for(None, "AAAA"), Err(ImageError::UnsupportedType));
}

#[test]
fn image_error_messages() {
    assert_eq!(ImageError::Empty.message(), "Base64 image data cannot be empty !!");
    assert_eq!(ImageError::InvalidBase64.message(), "Invalid base64 image data.");
    assert_eq!(ImageError::UnsupportedType.message(), "Unsupported or invalid base64 image type.");
}

#[test]
fn uploaded_image_keeps_its_fields() {
    let image = UploadedImage::new("https://example.test/a.png".to_string(), "a".to_string());
    assert_eq!(image.url, "https://example.test/a.png");
    assert_eq!(image.public_id, "a");
    let request = UploadAvatar { base64_string: "iVBORw0KGgo=".to_string() };
    assert_eq!(request.clone().base64_string, "iVBORw0KGgo=");
}

#[test]
fn images_are_checked_on_a_machine_with_64_bit_words() {
    assert_eq!(usize::BITS, 64);
    let frame_with_a_length_that_fills_32_bits = [0x50, 0x2A, 0x4D, 0x18, 0xF8, 0xFF, 0xFF, 0xFF];
    let data = encode(&frame_with_a_length_that_fills_32_bits);
    assert_eq!(data, "UCpNGPj///8=");
    assert_eq!(Base64Image::new(data).err(), Some(ImageError::UnsupportedType));
}

#[test]
fn storage_name_is_the_given_name_in_the_given_folder() {
    let options = |folder: Option<&str>, public_id: Option<&str>| UploadImageOptions {
        folder: folder.map(|f| f.to_string()),
        public_id: public_id.map(|p| p.to_string()),
        transformation: None,
    };
    assert_eq!(options(Some("brawlers_avatar"), Some("12")).public_path(12), "brawlers_avatar/12");
    assert_eq!(options(None, Some("face")).public_path(12), "face");
    assert_eq!(options(Some("brawlers_avatar"), None).public_path(12), "12");
    assert_eq!(options(None, None).public_path(-3), "-3");
    assert_eq!(options(Some(""), Some("")).public_path(1), "/");
}
