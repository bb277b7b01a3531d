use winds::config::{put_object, CACHE_CONTROL};
use winds::error::Error;
use winds::providers::zezo::{vr_square, Zezo};

fn png(width: u32, height: u32) -> Vec<u8> {
    let picture = image::RgbaImage::from_fn(width, height, |x, y| {
        image::Rgba([(x % 256) as u8, ((x + 7 * y) % 256) as u8, 9, 255])
    });
    let mut bytes = std::io::Cursor::new(Vec::new());
    picture.write_to(&mut bytes, image::ImageFormat::Png).unwrap();
    bytes.into_inner()
}

#[test]
fn picture_is_read_pixel_by_pixel() {
    let squares = Zezo::read_picture(&png(360, 180)).unwrap();
    assert_eq!(squares.u.len(), 64_800);
    assert_eq!(squares.v.len(), 64_800);
    for y in 0..180u32 {
        for x in 0..360u32 {
            let k = (y * 360 + x) as usize;
            assert_eq!(squares.u[k], vr_square((x % 256) as u8));
            assert_eq!(squares.v[k], vr_square(((x + 7 * y) % 256) as u8));
        }
    }
}

#[test]
fn larger_picture_is_read_from_its_top_left() {
    let squares = Zezo::read_picture(&png(400, 200)).unwrap();
    assert_eq!(squares.u.len(), 64_800);
    assert_eq!(squares.v[360], vr_square(7));
    assert_eq!(squares.u[359], vr_square(103));
    assert_eq!(squares.v[64_799], vr_square(((359 + 7 * 179) % 256) as u8));
}

#[test]
fn smaller_picture_is_refused() {
    assert_eq!(Zezo::read_picture(&png(359, 180)), Err(Error::Error()));
    assert_eq!(Zezo::read_picture(&png(360, 179)), Err(Error::Error()));
    assert_eq!(Zezo::read_picture(&png(1, 1)), Err(Error::Error()));
}

#[test]
fn what_is_no_picture_is_an_image_error() {
    assert_eq!(Zezo::read_picture(&[]), Err(Error::ImageError()));
    assert_eq!(Zezo::read_picture(b"not a picture"), Err(Error::ImageError()));
    let mut cut = png(360, 180);
    cut.truncate(100);
    assert_eq!(Zezo::read_picture(&cut), Err(Error::ImageError()));
}

#[test]
fn wind_of_a_picture_covers_the_globe() {
    let u: Vec<u64> = (0..64_800).map(|k| (k as f64).to_bits()).collect();
    let v: Vec<u64> = (0..64_800).map(|k| (-(k as f64)).to_bits()).collect();
    let wind = Zezo::wind_of_components(&u, &v).unwrap();
    assert_eq!(f64::from_bits(wind.lat0), -90.0);
    assert_eq!(f64::from_bits(wind.lon0), -180.0);
    assert_eq!(f64::from_bits(wind.delta_lat), 1.0);
    assert_eq!(f64::from_bits(wind.delta_lon), 1.0);
    assert_eq!(wind.n_lat, 180);
    assert_eq!(wind.n_lon, 361);
    assert_eq!(wind.u.len(), 180);
    assert_eq!(wind.v.len(), 180);
    for (y, row) in wind.u.iter().enumerate() {
        assert_eq!(row.len(), 361);
        assert_eq!(f64::from_bits(row[0]), (y * 360) as f64);
        assert_eq!(f64::from_bits(row[359]), (y * 360 + 359) as f64);
        assert_eq!(row[360], row[0]);
    }
    assert_eq!(f64::from_bits(wind.v[179][360]), -(179.0 * 360.0));
}

#[test]
fn wind_of_a_picture_needs_all_values() {
    assert!(Zezo::wind_of_components(&[0; 64_799], &[0; 64_800]).is_none());
    assert!(Zezo::wind_of_components(&[0; 64_800], &[0; 64_801]).is_none());
    assert!(Zezo::wind_of_components(&[], &[]).is_none());
}

#[test]
fn stored_object_is_compressed() {
    let content = b"[{\"header\":{},\"data\":[1.0,1.0,1.0,1.0,1.0,1.0,1.0,1.0,1.0,1.0,1.0,1.0]}]".repeat(50);
    let object = put_object(String::from("2024010100.f006"), &content);
    assert_eq!(object.name, "2024010100.f006");
    assert_eq!(object.content_type, "application/json");
    assert_eq!(
        object.headers,
        vec![
            (String::from("content-encoding"), String::from("gzip")),
            (String::from("cache-control"), String::from(CACHE_CONTROL)),
        ]
    );
    assert_ne!(object.content, content);
    assert!(object.content.len() < content.len());
    assert_eq!(&object.content[..4], &[0x1f, 0x8b, 8, 0]);
    let mut restored = Vec::new();
    std::io::Read::read_to_end(&mut flate2::read::GzDecoder::new(&object.content[..]), &mut restored)
        .unwrap();
    assert_eq!(restored, content);
    assert_eq!(put_object(String::from("n"), &content).content, object.content);
}

#[test]
fn empty_object_is_compressed_too() {
    let object = put_object(String::new(), &[]);
    assert!(!object.content.is_empty());
    let mut restored = Vec::new();
    std::io::Read::read_to_end(&mut flate2::read::GzDecoder::new(&object.content[..]), &mut restored)
        .unwrap();
    assert_eq!(restored, Vec::<u8>::new());
}

#[test]
fn picture_in_memory_is_read_like_one_from_a_file() {
    let picture = image::DynamicImage::ImageRgba8(image::RgbaImage::from_fn(360, 180, |x, y| {
        image::Rgba([(x % 256) as u8, ((x + 7 * y) % 256) as u8, 9, 255])
    }));
    assert_eq!(Zezo::squares_of_picture(&picture), Zezo::read_picture(&png(360, 180)));
    let small = image::DynamicImage::new_rgba8(10, 10);
    assert_eq!(Zezo::squares_of_picture(&small), Err(Error::Error()));
    let grey = image::DynamicImage::ImageLuma8(image::GrayImage::from_pixel(360, 180, image::Luma([200])));
    let squares = Zezo::squares_of_picture(&grey).unwrap();
    assert_eq!(squares.u, vec![vr_square(200); 64_800]);
    assert_eq!(squares.v, vec![vr_square(200); 64_800]);
}

#[test]
fn compressed_object_is_sent_as_it_is() {
    let object = winds::config::put_compressed(String::from("n"), vec![1, 2, 3]);
    assert_eq!(object.name, "n");
    assert_eq!(object.content, vec![1, 2, 3]);
    assert_eq!(object.content_type, "application/json");
    assert_eq!(object.headers.len(), 2);
}

#[test]
fn picture_of_another_format_is_no_picture() {
    let picture = image::RgbaImage::from_fn(360, 180, |x, _| image::Rgba([x as u8, 0, 0, 255]));
    let mut gif_like = b"GIF89a".to_vec();
    gif_like.extend_from_slice(picture.as_raw());
    assert_eq!(Zezo::read_picture(&gif_like), Err(Error::ImageError()));
    assert_eq!(Zezo::read_picture(&png(360, 180)), Zezo::read_picture(&png(360, 180)));
}
