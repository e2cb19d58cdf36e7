//! The window's state and what each event does to it.
//!
//! The window itself, the file dialog and the decoding of files are not here:
//! [`Amoled::update`] says what has to happen next, the caller does it and
//! reports back with [`Amoled::file_picked`] or [`Amoled::image_loaded`].

use std::path::PathBuf;
use vstd::prelude::*;
use vstd::string::StrSliceExecFns;
use vstd::string::StringExecFns;
use crate::amoled_image::{AmoledImageConverter, ConverterView};
use crate::pixel_buffer::PixelBuffer;
use crate::thumbnail::default_thumbnail;

verus! {

/// What the window reports.
#[derive(Debug)]
pub enum Message {
    /// The text of the path field is now this.
    PathChanged(String),
    /// The slider was moved to this black point.
    BlackPointChanged(u8),
    /// The text of the black point field is now this.
    BlackPointInputChanged(String),
    /// The button that opens the file dialog was pressed.
    FileButtonpressed,
}

impl Clone for Message {
    /// The same report once more.
    fn clone(&self) -> (copy: Self)
        ensures
            effect_of(copy) == effect_of(*self),
            forall|state: AmoledView| state.after(copy) == #[trigger] state.after(*self),
    {
        match self {
            Message::PathChanged(path) => Message::PathChanged(path.clone()),
            Message::BlackPointChanged(black_point) => Message::BlackPointChanged(*black_point),
            Message::BlackPointInputChanged(text) => Message::BlackPointInputChanged(
                text.clone(),
            ),
            Message::FileButtonpressed => Message::FileButtonpressed,
        }
    }
}

/// What the caller has to do after an event.
#[derive(Debug, Clone, Copy, PartialEq, Eq, Structural)]
pub enum Effect {
    /// Nothing.
    Nothing,
    /// Let the user pick a file, then call [`Amoled::file_picked`].
    PickFile,
    /// Read and decode the file at the current path, then call
    /// [`Amoled::image_loaded`].
    LoadImage,
}

/// The value of the decimal digit `c`.
pub open spec fn digit_value(c: char) -> nat {
    (c as int - '0' as int) as nat
}

/// `c` is one of `0` to `9`.
pub open spec fn is_digit(c: char) -> bool {
    '0' <= c <= '9'
}

/// Every character of `text` is a decimal digit.
pub open spec fn all_digits(text: Seq<char>) -> bool {
    forall|i: int| 0 <= i < text.len() ==> is_digit(#[trigger] text[i])
}

/// The number that the decimal digits of `digits` write.
pub open spec fn decimal_value(digits: Seq<char>) -> nat
    decreases digits.len(),
{
    if digits.len() == 0 {
        0
    } else {
        10 * decimal_value(digits.drop_last()) + digit_value(digits.last())
    }
}

/// `text` without the `+` that it may begin with.
pub open spec fn signless(text: Seq<char>) -> Seq<char> {
    if text.len() > 0 && text[0] == '+' {
        text.skip(1)
    } else {
        text
    }
}

/// The byte that `text` writes in decimal: an optional `+`, then at least one
/// digit and nothing else, with a value of at most 255.
pub open spec fn parsed_byte(text: Seq<char>) -> Option<u8> {
    let digits = signless(text);
    if digits.len() > 0 && all_digits(digits) && decimal_value(digits) <= 255 {
        Some(decimal_value(digits) as u8)
    } else {
        None
    }
}

/// The black point that the text of the black point field stands for: 0 for
/// an empty field, else the byte it writes, if it writes one.
pub open spec fn black_point_of_input(text: Seq<char>) -> Option<u8> {
    if text.len() == 0 {
        Some(0u8)
    } else {
        parsed_byte(text)
    }
}

/// The title of the window for the file name of the current path.
pub open spec fn title_text(file_name: Option<Seq<char>>) -> Seq<char> {
    match file_name {
        Some(name) => "Amoled Maker - "@ + name,
        None => "Amoled Maker"@,
    }
}

/// A path of the file system, as the standard library holds it. It is
/// carried along as it is: nothing here looks into it.
#[verifier::external_type_specification]
#[verifier::external_body]
pub struct ExPathBuf(std::path::PathBuf);

/// The path that `text` writes: what `PathBuf::from` makes of a string.
pub uninterp spec fn path_of_text(text: Seq<char>) -> PathBuf;

/// What the window's state stands for.
pub struct AmoledView {
    pub black_point: u8,
    pub path: Option<PathBuf>,
    pub image: Option<ConverterView>,
}

impl AmoledView {
    /// An image that is held is valid and converted at the black point of the
    /// window.
    pub open spec fn wf(self) -> bool {
        self.image matches Some(image) ==> image.wf() && image.black_point == self.black_point
    }

    /// The state after the black point has changed: an image that is held is
    /// converted anew.
    pub open spec fn with_black_point(self, black_point: u8) -> AmoledView {
        AmoledView {
            black_point,
            path: self.path,
            image: match self.image {
                Some(image) => Some(image.with_black_point(black_point)),
                None => None,
            },
        }
    }

    /// The state after `message`.
    pub open spec fn after(self, message: Message) -> AmoledView {
        match message {
            Message::BlackPointChanged(black_point) => self.with_black_point(black_point),
            Message::PathChanged(path) => AmoledView {
                black_point: self.black_point,
                path: Some(path_of_text(path@)),
                image: self.image,
            },
            Message::BlackPointInputChanged(text) => match black_point_of_input(text@) {
                Some(black_point) => self.with_black_point(black_point),
                None => self,
            },
            Message::FileButtonpressed => self,
        }
    }

    /// The state after the file dialog has closed: a picked path replaces the
    /// current one.
    pub open spec fn after_pick(self, picked: Option<PathBuf>) -> AmoledView {
        AmoledView {
            black_point: self.black_point,
            path: match picked {
                Some(path) => Some(path),
                None => self.path,
            },
            image: self.image,
        }
    }

    /// The state after an attempt to load the file at the current path: an
    /// image that was decoded and can be converted is held, converted at the
    /// current black point; else none is held.
    pub open spec fn after_load(self, decoded: Option<PixelBuffer>) -> AmoledView {
        AmoledView {
            black_point: self.black_point,
            path: self.path,
            image: match decoded {
                Some(image) => if AmoledImageConverter::convertible(image@) {
                    Some(
                        ConverterView {
                            original: image@,
                            thumbnail: default_thumbnail(image@),
                            black_point: self.black_point,
                        },
                    )
                } else {
                    None
                },
                None => None,
            },
        }
    }
}

/// What `message` asks of the caller.
pub open spec fn effect_of(message: Message) -> Effect {
    match message {
        Message::PathChanged(_) => Effect::LoadImage,
        Message::FileButtonpressed => Effect::PickFile,
        _ => Effect::Nothing,
    }
}

/// The state of the window: the black point, the path of the file that was
/// asked for, and the converter of the image that was loaded from it.
#[derive(Debug)]
pub struct Amoled {
    black_point: u8,
    path_input_value: Option<PathBuf>,
    image: Option<AmoledImageConverter>,
}

impl View for Amoled {
    type V = AmoledView;

    closed spec fn view(&self) -> AmoledView {
        AmoledView {
            black_point: self.black_point,
            path: self.path_input_value,
            image: match self.image {
                Some(image) => Some(image@),
                None => None,
            },
        }
    }
}

impl Amoled {
    /// An image that is held is a valid converter at the black point of the
    /// window.
    pub closed spec fn wf(&self) -> bool {
        &&& self@.wf()
        &&& self.image matches Some(image) ==> image.wf()
    }

    /// A well-formed state has a well-formed view.
    pub proof fn lemma_wf(&self)
        requires
            self.wf(),
        ensures
            self@.wf(),
    {
    }

    /// A window without a path or an image, with the black point 0.
    pub fn new() -> (state: Amoled)
        ensures
            state.wf(),
            state@ == (AmoledView { black_point: 0, path: None, image: None }),
    {
        Amoled { black_point: 0, path_input_value: None, image: None }
    }

    /// The black point that the slider and the field show.
    pub fn black_point(&self) -> (black_point: u8)
        ensures
            black_point == self@.black_point,
    {
        self.black_point
    }

    /// The path that was typed or picked last, if any.
    pub fn path_input_value(&self) -> (path: Option<&PathBuf>)
        ensures
            match path {
                Some(path) => self@.path == Some(*path),
                None => self@.path is None,
            },
    {
        match &self.path_input_value {
            Some(path) => Some(path),
            None => None,
        }
    }

    /// The converter of the image that is shown, if any.
    pub fn image(&self) -> (image: Option<&AmoledImageConverter>)
        requires
            self.wf(),
        ensures
            match image {
                Some(converter) => converter.wf() && self@.image == Some(converter@),
                None => self@.image is None,
            },
    {
        match &self.image {
            Some(converter) => Some(converter),
            None => None,
        }
    }

    /// Sets the black point and converts the image anew, if there is one.
    fn change_black_point(&mut self, black_point: u8)
        requires
            old(self).wf(),
        ensures
            final(self).wf(),
            final(self)@ == old(self)@.with_black_point(black_point),
    {
        self.black_point = black_point;
        match &mut self.image {
            Some(converter) => {
                converter.set_black_point(black_point);
            },
            None => {},
        }
    }

    /// Takes in an event of the window and says what the caller has to do
    /// next.
    pub fn update(&mut self, message: Message) -> (effect: Effect)
        requires
            old(self).wf(),
        ensures
            final(self).wf(),
            final(self)@ == old(self)@.after(message),
            effect == effect_of(message),
    {
        match message {
            Message::BlackPointChanged(bp) => {
                self.change_black_point(bp);
                Effect::Nothing
            },
            Message::PathChanged(path_string) => {
                self.path_input_value = Some(path_from_text(path_string));
                Effect::LoadImage
            },
            Message::FileButtonpressed => Effect::PickFile,
            Message::BlackPointInputChanged(bp_string) => {
                match parse_black_point_input(bp_string.as_str()) {
                    Some(bp) => {
                        self.change_black_point(bp);
                    },
                    None => {},
                }
                Effect::Nothing
            },
        }
    }

    /// Takes in what the file dialog gave: a picked path replaces the current
    /// one, unchanged. Where there is a path now, the file at it is to be
    /// loaded.
    pub fn file_picked(&mut self, picked: Option<PathBuf>) -> (effect: Effect)
        requires
            old(self).wf(),
        ensures
            final(self).wf(),
            final(self)@ == old(self)@.after_pick(picked),
            effect == (if final(self)@.path is Some {
                Effect::LoadImage
            } else {
                Effect::Nothing
            }),
    {
        match picked {
            Some(new_path) => {
                self.path_input_value = Some(new_path);
            },
            None => {},
        }
        if self.path_input_value.is_some() {
            Effect::LoadImage
        } else {
            Effect::Nothing
        }
    }

    /// Takes in what became of loading the file at the current path: `None`
    /// where it could not be read or decoded. An image that can be converted
    /// replaces the one that was held; after any other outcome none is held.
    pub fn image_loaded(&mut self, decoded: Option<PixelBuffer>)
        requires
            old(self).wf(),
            decoded matches Some(image) ==> image.wf(),
        ensures
            final(self).wf(),
            final(self)@ == old(self)@.after_load(decoded),
    {
        self.image = match decoded {
            Some(image) => {
                if AmoledImageConverter::accepts(&image) {
                    let converter = AmoledImageConverter::new(image, self.black_point);
                    proof {
                        converter.lemma_wf();
                    }
                    Some(converter)
                } else {
                    None
                }
            },
            None => None,
        };
    }

    /// The title of the window: `Amoled Maker`, followed by a dash and the
    /// file name of the current path where there is one.
    ///
    /// What counts as the file name of a path is the platform's business, so
    /// all that is said here is that the title has one of the two forms, and
    /// the short one where there is no path. [`Amoled::title_for`] says which
    /// title belongs to which file name.
    pub fn title(&self) -> (title: String)
        ensures
            title@ == title_text(None) || exists|name: Seq<char>|
                title@ == #[trigger] title_text(Some(name)),
            self@.path is None ==> title@ == title_text(None),
    {
        let name: Option<String> = match &self.path_input_value {
            Some(path) => file_name(path),
            None => None,
        };
        match &name {
            Some(name) => {
                let title = Amoled::title_for(Some(name.as_str()));
                assert(title@ == title_text(Some(name@)));
                title
            },
            None => Amoled::title_for(None),
        }
    }

    /// The title of the window for a given file name, or for none.
    pub fn title_for(file_name: Option<&str>) -> (title: String)
        ensures
            title@ == title_text(
                match file_name {
                    Some(name) => Some(name@),
                    None => None,
                },
            ),
    {
        match file_name {
            Some(name) => String::from_str("Amoled Maker - ").concat(name),
            None => String::from_str("Amoled Maker"),
        }
    }
}

impl Default for Amoled {
    /// The state of a window that has just been opened.
    fn default() -> (state: Amoled)
        ensures
            state.wf(),
            state@ == (AmoledView { black_point: 0, path: None, image: None }),
    {
        Amoled::new()
    }
}

/// The path that `text` writes.
///
/// Calls `PathBuf::from` on the string. Trusted: the path depends on the
/// characters of the string alone (`path_of_text`).
#[verifier::external_body]
fn path_from_text(text: String) -> (path: PathBuf)
    ensures
        path == path_of_text(text@),
{
    PathBuf::from(text)
}

/// The last component of `path` as text, if it has one that is valid
/// Unicode.
///
/// Calls `std::path::Path::file_name`. Nothing is claimed of the result: how
/// a path splits into components differs from one platform to the next.
#[verifier::external_body]
fn file_name(path: &PathBuf) -> (name: Option<String>) {
    path.file_name().and_then(|name| name.to_str()).map(String::from)
}

/// Reads the byte that `text` writes in decimal, as `str::parse` does for
/// `u8`.
pub fn parse_byte(text: &str) -> (value: Option<u8>)
    ensures
        value == parsed_byte(text@),
{
    let length: usize = text.unicode_len();
    if length == 0 {
        return None;
    }
    let start: usize = if text.get_char(0) == '+' {
        1
    } else {
        0
    };
    let ghost digits: Seq<char> = text@.skip(start as int);
    proof {
        assert(text@.skip(0) =~= text@);
        assert(digits.len() == length - start);
        assert(digits == signless(text@));
    }
    if start == length {
        return None;
    }
    let mut value: u32 = 0;
    let mut index: usize = start;
    while index < length
        invariant
            length == text@.len(),
            start <= index <= length,
            digits == text@.skip(start as int),
            digits == signless(text@),
            digits.len() == length - start,
            all_digits(digits.take(index - start)),
            value == decimal_value(digits.take(index - start)),
            value <= 255,
        decreases length - index,
    {
        let c: char = text.get_char(index);
        let ghost front: Seq<char> = digits.take(index - start + 1);
        proof {
            assert(digits[index - start] == text@[index as int]);
            assert(front.drop_last() =~= digits.take(index - start));
            assert(front.last() == c);
        }
        if c < '0' || c > '9' {
            assert(!is_digit(digits[index - start]));
            return None;
        }
        assert(all_digits(front)) by {
            assert forall|i: int| 0 <= i < front.len() implies is_digit(#[trigger] front[i]) by {
                if i < index - start {
                    assert(front[i] == digits.take(index - start)[i]);
                }
            }
        }
        let digit: u32 = c as u32 - 48;
        value = value * 10 + digit;
        if value > 255 {
            proof {
                if all_digits(digits) {
                    lemma_decimal_value_grows(digits, index - start + 1);
                }
            }
            return None;
        }
        index += 1;
    }
    proof {
        assert(digits.take(length - start) =~= digits);
    }
    Some(value as u8)
}

/// Reads the black point that the text of the black point field stands for:
/// 0 for an empty field, else the byte that the text writes.
pub fn parse_black_point_input(text: &str) -> (black_point: Option<u8>)
    ensures
        black_point == black_point_of_input(text@),
{
    if text.unicode_len() == 0 {
        Some(0)
    } else {
        parse_byte(text)
    }
}

/// More digits never write a smaller number: the first `n` digits of a
/// number write at most the number itself.
pub proof fn lemma_decimal_value_grows(digits: Seq<char>, n: int)
    requires
        all_digits(digits),
        0 <= n <= digits.len(),
    ensures
        decimal_value(digits.take(n)) <= decimal_value(digits),
    decreases digits.len(),
{
    if n == digits.len() {
        assert(digits.take(n) =~= digits);
    } else {
        lemma_decimal_value_grows(digits.drop_last(), n);
        assert(digits.drop_last().take(n) =~= digits.take(n));
    }
}

} // verus!
