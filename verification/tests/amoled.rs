use std::path::PathBuf;

use amoled_maker::amoled::{parse_black_point_input, parse_byte};
use amoled_maker::{Amoled, Effect, Message, PixelBuffer};

fn grey(width: u32, height: u32, level: u8) -> PixelBuffer {
    let mut bytes = Vec::new();
    for _ in 0..width * height {
        bytes.extend_from_slice(&[level, level, level, 255]);
    }
    PixelBuffer::new(width, height, bytes).expect("four bytes for each pixel")
}

#[test]
fn a_new_window_is_empty() {
    let state = Amoled::new();
    assert_eq!(state.black_point(), 0);
    assert!(state.path_input_value().is_none());
    assert!(state.image().is_none());
    assert_eq!(state.title(), "Amoled Maker");
}

#[test]
fn bytes_parse_as_the_standard_library_parses_them() {
    let cases = [
        "", "0", "7", "255", "256", "999", "+7", "+", "++7", "-1", "-0", "007", "0000000000255",
        "00000000000256", "1a", "a1", " 1", "1 ", "1_0", "٣", "１", "+255", "+256", "12.5",
        "4294967296", "99999999999999999999999",
    ];
    for text in cases {
        assert_eq!(parse_byte(text), text.parse::<u8>().ok(), "{:?}", text);
    }
    for value in 0..=300u32 {
        let text = value.to_string();
        assert_eq!(parse_byte(&text), text.parse::<u8>().ok(), "{:?}", text);
    }
}

#[test]
fn bytes_parse_to_their_value() {
    assert_eq!(parse_byte("0"), Some(0));
    assert_eq!(parse_byte("42"), Some(42));
    assert_eq!(parse_byte("+42"), Some(42));
    assert_eq!(parse_byte("042"), Some(42));
    assert_eq!(parse_byte("255"), Some(255));
    assert_eq!(parse_byte("256"), None);
    assert_eq!(parse_byte(""), None);
    assert_eq!(parse_byte("+"), None);
    assert_eq!(parse_byte("4 2"), None);
}

#[test]
fn an_empty_field_means_zero() {
    assert_eq!(parse_black_point_input(""), Some(0));
    assert_eq!(parse_black_point_input("17"), Some(17));
    assert_eq!(parse_black_point_input("300"), None);
    assert_eq!(parse_black_point_input("x"), None);
}

#[test]
fn slider_sets_the_black_point() {
    let mut state = Amoled::new();
    assert_eq!(state.update(Message::BlackPointChanged(90)), Effect::Nothing);
    assert_eq!(state.black_point(), 90);
    assert!(state.image().is_none());
}

#[test]
fn field_sets_the_black_point_only_if_it_is_a_byte() {
    let mut state = Amoled::new();
    assert_eq!(
        state.update(Message::BlackPointInputChanged("12".to_string())),
        Effect::Nothing
    );
    assert_eq!(state.black_point(), 12);
    assert_eq!(
        state.update(Message::BlackPointInputChanged("1200".to_string())),
        Effect::Nothing
    );
    assert_eq!(state.black_point(), 12);
    assert_eq!(
        state.update(Message::BlackPointInputChanged("twelve".to_string())),
        Effect::Nothing
    );
    assert_eq!(state.black_point(), 12);
    assert_eq!(
        state.update(Message::BlackPointInputChanged(String::new())),
        Effect::Nothing
    );
    assert_eq!(state.black_point(), 0);
}

#[test]
fn typing_a_path_asks_for_the_image() {
    let mut state = Amoled::new();
    assert_eq!(
        state.update(Message::PathChanged("pictures/cat.png".to_string())),
        Effect::LoadImage
    );
    assert_eq!(state.path_input_value(), Some(&PathBuf::from("pictures/cat.png")));
    assert!(state.image().is_none());
}

#[test]
fn the_button_asks_for_the_dialog() {
    let mut state = Amoled::new();
    assert_eq!(state.update(Message::FileButtonpressed), Effect::PickFile);
    assert!(state.path_input_value().is_none());
}

#[test]
fn a_closed_dialog_keeps_the_path() {
    let mut state = Amoled::new();
    assert_eq!(state.file_picked(None), Effect::Nothing);
    assert!(state.path_input_value().is_none());

    state.update(Message::PathChanged("a.png".to_string()));
    assert_eq!(state.file_picked(None), Effect::LoadImage);
    assert_eq!(state.path_input_value(), Some(&PathBuf::from("a.png")));

    assert_eq!(state.file_picked(Some(PathBuf::from("b.jpg"))), Effect::LoadImage);
    assert_eq!(state.path_input_value(), Some(&PathBuf::from("b.jpg")));
}

#[test]
fn a_loaded_image_is_converted_at_the_current_black_point() {
    let mut state = Amoled::new();
    state.update(Message::BlackPointChanged(50));
    state.update(Message::PathChanged("grey.png".to_string()));
    state.image_loaded(Some(grey(4, 4, 50)));
    let converter = state.image().expect("an image");
    assert_eq!(converter.black_point(), 50);
    assert_eq!(converter.black_pixel_percentage(), 100);
    assert_eq!(converter.converted_image().as_raw()[..4], [0, 0, 0, 255]);
}

#[test]
fn the_slider_converts_the_loaded_image_anew() {
    let mut state = Amoled::new();
    state.update(Message::BlackPointChanged(50));
    state.image_loaded(Some(grey(4, 4, 50)));
    state.update(Message::BlackPointChanged(49));
    let converter = state.image().expect("an image");
    assert_eq!(converter.black_point(), 49);
    assert_eq!(converter.black_pixel_percentage(), 0);
    assert_eq!(converter.converted_image().as_raw()[..4], [50, 50, 50, 255]);

    state.update(Message::BlackPointInputChanged("50".to_string()));
    let converter = state.image().expect("an image");
    assert_eq!(converter.black_pixel_percentage(), 100);

    state.update(Message::BlackPointInputChanged("fifty".to_string()));
    let converter = state.image().expect("an image");
    assert_eq!(converter.black_point(), 50);
}

#[test]
fn a_failed_load_drops_the_image() {
    let mut state = Amoled::new();
    state.image_loaded(Some(grey(2, 2, 1)));
    assert!(state.image().is_some());
    state.image_loaded(None);
    assert!(state.image().is_none());
}

#[test]
fn an_empty_image_is_not_held() {
    let mut state = Amoled::new();
    state.image_loaded(Some(grey(2, 2, 1)));
    state.image_loaded(Some(grey(0, 0, 1)));
    assert!(state.image().is_none());
    state.image_loaded(Some(grey(0, 3, 1)));
    assert!(state.image().is_none());
}

#[test]
fn the_title_names_the_file() {
    assert_eq!(Amoled::title_for(None), "Amoled Maker");
    assert_eq!(Amoled::title_for(Some("cat.png")), "Amoled Maker - cat.png");
    assert_eq!(Amoled::title_for(Some("")), "Amoled Maker - ");

    let mut state = Amoled::new();
    state.update(Message::PathChanged("cat.png".to_string()));
    assert_eq!(state.title(), "Amoled Maker - cat.png");
    state.update(Message::PathChanged("..".to_string()));
    assert_eq!(state.title(), "Amoled Maker");
}

#[test]
fn the_title_leaves_out_the_directory() {
    let path: PathBuf = ["pictures", "cat.png"].iter().collect();
    let mut state = Amoled::new();
    state.update(Message::PathChanged(path.to_str().expect("unicode").to_string()));
    assert_eq!(state.title(), "Amoled Maker - cat.png");

    let mut state = Amoled::new();
    assert_eq!(state.file_picked(Some(path.clone())), Effect::LoadImage);
    assert_eq!(state.path_input_value(), Some(&path));
    assert_eq!(state.title(), "Amoled Maker - cat.png");
}

#[test]
fn a_typed_path_is_the_path_that_the_text_writes() {
    let mut typed = Amoled::new();
    typed.update(Message::PathChanged("some/dir/picture.jpeg".to_string()));
    let mut picked = Amoled::new();
    picked.file_picked(Some(PathBuf::from("some/dir/picture.jpeg".to_string())));
    assert_eq!(typed.path_input_value(), picked.path_input_value());
    assert_ne!(typed.path_input_value(), Some(&PathBuf::from("picture.jpeg")));
}

#[test]
fn the_default_window_is_a_new_one() {
    let state = Amoled::default();
    assert_eq!(state.black_point(), 0);
    assert!(state.path_input_value().is_none());
    assert!(state.image().is_none());
}

#[test]
fn a_cloned_message_does_the_same() {
    let message = Message::BlackPointInputChanged("31".to_string());
    let mut first = Amoled::new();
    let mut second = Amoled::new();
    assert_eq!(first.update(message.clone()), second.update(message));
    assert_eq!(first.black_point(), 31);
    assert_eq!(second.black_point(), 31);
}
