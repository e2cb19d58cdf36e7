use amoled_maker::thumbnail::{
    block_limit, MAX_BLOCK_PIXELS, THUMBNAIL_MAX_HEIGHT, THUMBNAIL_MAX_WIDTH,
    THUMBNAIL_MIN_HEIGHT, THUMBNAIL_MIN_WIDTH,
};
use amoled_maker::{AmoledImageConverter, Pixel, PixelBuffer};

fn solid(width: u32, height: u32, pixel: [u8; 4]) -> PixelBuffer {
    let mut bytes = Vec::with_capacity((width * height * 4) as usize);
    for _ in 0..width * height {
        bytes.extend_from_slice(&pixel);
    }
    PixelBuffer::new(width, height, bytes).expect("four bytes for each pixel")
}

fn gradient(width: u32, height: u32) -> PixelBuffer {
    let mut bytes = Vec::with_capacity((width * height * 4) as usize);
    for y in 0..height {
        for x in 0..width {
            bytes.push((x * 255 / width) as u8);
            bytes.push((y * 255 / height) as u8);
            bytes.push(((x + y) % 256) as u8);
            bytes.push(255 - (x % 7) as u8);
        }
    }
    PixelBuffer::new(width, height, bytes).expect("four bytes for each pixel")
}

#[test]
fn white_image_at_zero() {
    let converter = AmoledImageConverter::new(solid(2, 2, [255; 4]), 0);
    assert_eq!(converter.black_pixel_percentage(), 0);
    assert_eq!(converter.original_black_pixel_percentage(), 0);
    assert_eq!(converter.converted_image().as_raw(), &vec![255u8; 16]);
    assert_eq!(converter.image().as_raw(), &vec![255u8; 16]);
    assert_eq!((converter.get_width(), converter.get_height()), (2, 2));
    assert_eq!(converter.black_point(), 0);
}

#[test]
fn white_image_at_255() {
    let converter = AmoledImageConverter::new(solid(2, 2, [255; 4]), 255);
    assert_eq!(converter.black_pixel_percentage(), 100);
    assert_eq!(converter.original_black_pixel_percentage(), 0);
    assert_eq!(
        converter.converted_image().as_raw(),
        &vec![0, 0, 0, 255, 0, 0, 0, 255, 0, 0, 0, 255, 0, 0, 0, 255]
    );
    assert_eq!(converter.image().as_raw(), &vec![255u8; 16]);
    let thumbnail = converter.converted_thumbnail();
    for i in 0..thumbnail.pixel_count() {
        assert_eq!(thumbnail.get_pixel(i), Pixel { blue: 0, green: 0, red: 0, alpha: 255 });
    }
}

#[test]
fn thumbnail_of_a_small_image_is_scaled_up_to_256() {
    let converter = AmoledImageConverter::new(solid(4, 2, [9, 9, 9, 255]), 0);
    let thumbnail = converter.thumbnail();
    assert_eq!((thumbnail.width(), thumbnail.height()), (256, 256));
    assert_eq!(thumbnail.pixel_count(), 256 * 256);
    assert_eq!(thumbnail.as_raw().len(), 256 * 256 * 4);
    let converted = converter.converted_thumbnail();
    assert_eq!((converted.width(), converted.height()), (256, 256));
}

#[test]
fn thumbnail_halves_a_medium_image() {
    let converter = AmoledImageConverter::new(gradient(600, 800), 0);
    let thumbnail = converter.thumbnail();
    assert_eq!((thumbnail.width(), thumbnail.height()), (300, 400));
}

#[test]
fn thumbnail_sides_are_clamped_each_by_itself() {
    let converter = AmoledImageConverter::new(gradient(700, 100), 0);
    let thumbnail = converter.thumbnail();
    assert_eq!((thumbnail.width(), thumbnail.height()), (350, 256));

    let converter = AmoledImageConverter::new(gradient(100, 2500), 0);
    let thumbnail = converter.thumbnail();
    assert_eq!((thumbnail.width(), thumbnail.height()), (256, 1024));
}

#[test]
fn thumbnail_of_a_large_image_stops_at_1024() {
    let converter = AmoledImageConverter::new(solid(3000, 3000, [1, 2, 3, 4]), 0);
    let thumbnail = converter.thumbnail();
    assert_eq!((thumbnail.width(), thumbnail.height()), (1024, 1024));
}

#[test]
fn thumbnail_of_a_wide_image_is_not_lower_than_256() {
    let converter = AmoledImageConverter::new(solid(3000, 600, [1, 2, 3, 4]), 0);
    let thumbnail = converter.thumbnail();
    assert_eq!((thumbnail.width(), thumbnail.height()), (1024, 300));

    let converter = AmoledImageConverter::new(solid(4000, 300, [1, 2, 3, 4]), 0);
    let thumbnail = converter.thumbnail();
    assert_eq!((thumbnail.width(), thumbnail.height()), (1024, 256));
}

#[test]
fn thumbnail_of_a_strip_has_the_full_size() {
    let converter = AmoledImageConverter::new(solid(200_000, 1, [1, 2, 3, 4]), 2);
    let thumbnail = converter.thumbnail();
    assert_eq!((thumbnail.width(), thumbnail.height()), (1024, 256));
    for i in 0..thumbnail.pixel_count() {
        assert_eq!(thumbnail.get_pixel(i), Pixel { blue: 1, green: 2, red: 3, alpha: 4 });
    }
    assert_eq!(converter.black_pixel_percentage(), 0);
}

#[test]
fn thumbnail_sides_lie_between_256_and_1024() {
    let sides = [1u32, 2, 255, 256, 257, 511, 512, 513, 1000, 2047, 2048, 2049, 5000];
    for &width in &sides {
        for &height in &[1u32, 300, 513, 2049] {
            let converter = AmoledImageConverter::new(solid(width, height, [7, 7, 7, 7]), 0);
            let thumbnail = converter.thumbnail();
            assert_eq!(thumbnail.width(), (width / 2).clamp(256, 1024));
            assert_eq!(thumbnail.height(), (height / 2).clamp(256, 1024));
            assert!(thumbnail.width() >= THUMBNAIL_MIN_WIDTH);
            assert!(thumbnail.width() <= THUMBNAIL_MAX_WIDTH);
            assert!(thumbnail.height() >= THUMBNAIL_MIN_HEIGHT);
            assert!(thumbnail.height() <= THUMBNAIL_MAX_HEIGHT);
            assert_eq!(
                thumbnail.as_raw().len(),
                (thumbnail.width() * thumbnail.height() * 4) as usize
            );
        }
    }
}

#[test]
fn thumbnail_of_one_colour_has_that_colour() {
    let converter = AmoledImageConverter::new(solid(700, 600, [10, 20, 30, 40]), 0);
    let thumbnail = converter.thumbnail();
    assert_eq!((thumbnail.width(), thumbnail.height()), (350, 300));
    for i in 0..thumbnail.pixel_count() {
        assert_eq!(thumbnail.get_pixel(i), Pixel { blue: 10, green: 20, red: 30, alpha: 40 });
    }
}

#[test]
fn thumbnail_is_the_same_each_time() {
    let first = AmoledImageConverter::new(gradient(640, 480), 10);
    let second = AmoledImageConverter::new(gradient(640, 480), 200);
    assert_eq!(first.thumbnail().as_raw(), second.thumbnail().as_raw());
}

#[test]
fn percentage_is_measured_on_the_thumbnail() {
    let converter = AmoledImageConverter::new(gradient(640, 480), 100);
    let thumbnail = converter.thumbnail();
    let mut dark = 0;
    for i in 0..thumbnail.pixel_count() {
        let pixel = thumbnail.get_pixel(i);
        if pixel.blue <= 100 && pixel.green <= 100 && pixel.red <= 100 {
            dark += 1;
        }
    }
    assert!(dark > 0);
    assert_eq!(converter.black_pixel_percentage(), dark * 100 / thumbnail.pixel_count());
}

#[test]
fn original_percentage_counts_pure_black_of_the_full_image() {
    let image = PixelBuffer::new(
        2,
        2,
        vec![0, 0, 0, 255, 0, 0, 0, 0, 1, 0, 0, 255, 200, 200, 200, 255],
    )
    .expect("four bytes for each pixel");
    let converter = AmoledImageConverter::new(image, 50);
    assert_eq!(converter.original_black_pixel_percentage(), 50);
    assert_eq!(
        converter.converted_image().as_raw(),
        &vec![0, 0, 0, 255, 0, 0, 0, 0, 0, 0, 0, 255, 200, 200, 200, 255]
    );
}

#[test]
fn black_point_round_trip_brings_back_the_first_conversion() {
    let mut converter = AmoledImageConverter::new(gradient(300, 200), 40);
    let image = converter.converted_image().as_raw().clone();
    let thumbnail = converter.converted_thumbnail().as_raw().clone();
    let percent = converter.black_pixel_percentage();

    converter.set_black_point(220);
    assert_eq!(converter.black_point(), 220);
    assert_ne!(converter.converted_image().as_raw(), &image);

    converter.set_black_point(40);
    assert_eq!(converter.black_point(), 40);
    assert_eq!(converter.converted_image().as_raw(), &image);
    assert_eq!(converter.converted_thumbnail().as_raw(), &thumbnail);
    assert_eq!(converter.black_pixel_percentage(), percent);
}

#[test]
fn set_black_point_equals_a_fresh_converter() {
    let mut changed = AmoledImageConverter::new(gradient(64, 48), 255);
    changed.set_black_point(30);
    let fresh = AmoledImageConverter::new(gradient(64, 48), 30);
    assert_eq!(changed.converted_image().as_raw(), fresh.converted_image().as_raw());
    assert_eq!(changed.converted_thumbnail().as_raw(), fresh.converted_thumbnail().as_raw());
    assert_eq!(changed.black_pixel_percentage(), fresh.black_pixel_percentage());
    assert_eq!(changed.image().as_raw(), fresh.image().as_raw());
    assert_eq!(changed.thumbnail().as_raw(), fresh.thumbnail().as_raw());
}

#[test]
fn lowering_the_black_point_restores_pixels() {
    let mut converter = AmoledImageConverter::new(solid(3, 3, [100, 100, 100, 9]), 100);
    assert_eq!(converter.black_pixel_percentage(), 100);
    assert_eq!(converter.converted_image().get_pixel(4), Pixel { blue: 0, green: 0, red: 0, alpha: 9 });
    converter.set_black_point(99);
    assert_eq!(converter.black_pixel_percentage(), 0);
    assert_eq!(
        converter.converted_image().get_pixel(4),
        Pixel { blue: 100, green: 100, red: 100, alpha: 9 }
    );
}

#[test]
fn from_buffers_takes_any_thumbnail() {
    let image = solid(2, 1, [255; 4]);
    let thumbnail = PixelBuffer::new(
        3,
        1,
        vec![0, 0, 0, 255, 7, 7, 7, 255, 8, 8, 8, 255],
    )
    .expect("four bytes for each pixel");
    let converter = AmoledImageConverter::from_buffers(image, thumbnail, 7);
    assert_eq!(converter.black_pixel_percentage(), 66);
    assert_eq!(
        converter.converted_thumbnail().as_raw(),
        &vec![0, 0, 0, 255, 0, 0, 0, 255, 8, 8, 8, 255]
    );
    assert_eq!(converter.converted_image().as_raw(), &vec![255u8; 8]);
    assert_eq!(converter.original_black_pixel_percentage(), 0);
}

#[test]
fn export_is_the_converted_image_in_rgba() {
    let image = PixelBuffer::new(2, 1, vec![1, 2, 3, 4, 50, 60, 70, 80])
        .expect("four bytes for each pixel");
    let converter = AmoledImageConverter::new(image, 3);
    assert_eq!(converter.export_rgba(), vec![0, 0, 0, 4, 70, 60, 50, 80]);
}

#[test]
fn empty_images_are_not_accepted() {
    assert!(AmoledImageConverter::accepts(&solid(1, 1, [0; 4])));
    assert!(!AmoledImageConverter::accepts(&solid(0, 1, [0; 4])));
    assert!(!AmoledImageConverter::accepts(&solid(1, 0, [0; 4])));
    assert!(!AmoledImageConverter::accepts(&solid(0, 0, [0; 4])));
    assert!(AmoledImageConverter::accepts(&solid(3_000_000, 1, [0; 4])));
    assert!(AmoledImageConverter::accepts(&solid(2, 2_500_000, [0; 4])));
    assert!(AmoledImageConverter::accepts(&solid(4000, 3000, [0; 4])));
}

#[test]
fn block_limit_is_the_ratio_with_some_room() {
    assert_eq!(block_limit(1, 256), 1);
    assert_eq!(block_limit(600, 300), 5);
    assert_eq!(block_limit(3, 256), 3);
    assert_eq!(block_limit(4000, 1024), 6);
    assert_eq!(block_limit(3_000_000, 1024), 2929 + 1 + 3);
    assert_eq!(block_limit(u32::MAX, 1024), 4_194_303 + 2047 + 3);
    assert!(block_limit(5_000_000, 1024) * block_limit(5_000_000, 1024) > MAX_BLOCK_PIXELS);
    assert!(block_limit(4_000_000, 1024) * block_limit(4_000_000, 1024) <= MAX_BLOCK_PIXELS);
}

#[test]
fn a_single_pixel_is_scaled_up_to_the_bounds() {
    let converter = AmoledImageConverter::new(solid(1, 1, [3, 2, 1, 200]), 2);
    let thumbnail = converter.thumbnail();
    assert_eq!((thumbnail.width(), thumbnail.height()), (256, 256));
    for i in 0..thumbnail.pixel_count() {
        assert_eq!(thumbnail.get_pixel(i), Pixel { blue: 3, green: 2, red: 1, alpha: 200 });
    }
    assert_eq!(converter.black_pixel_percentage(), 0);
    assert_eq!(converter.converted_image().as_raw(), &vec![3, 2, 1, 200]);
}

#[test]
fn a_clone_shows_the_same() {
    let converter = AmoledImageConverter::new(gradient(40, 30), 77);
    let copy = converter.clone();
    assert_eq!(copy.black_point(), 77);
    assert_eq!(copy.image().as_raw(), converter.image().as_raw());
    assert_eq!(copy.thumbnail().as_raw(), converter.thumbnail().as_raw());
    assert_eq!(copy.converted_image().as_raw(), converter.converted_image().as_raw());
    assert_eq!(
        copy.converted_thumbnail().as_raw(),
        converter.converted_thumbnail().as_raw()
    );
    assert_eq!(copy.black_pixel_percentage(), converter.black_pixel_percentage());
}

#[test]
fn percentage_stays_between_0_and_100() {
    let mut converter = AmoledImageConverter::new(gradient(97, 61), 0);
    let mut last = 0;
    for black_point in 0..=255u8 {
        converter.set_black_point(black_point);
        let percent = converter.black_pixel_percentage();
        assert!(percent <= 100);
        assert!(percent >= last);
        last = percent;
    }
    assert_eq!(last, 100);
}
