//! Importing image attachments: how many a turn may carry, how large each may be,
//! which image formats are accepted, and the opaque names they are stored under.
use vstd::prelude::*;

use super::agent::{hex_of, to_hex};
use super::database::{failure, StorageError, StorageErrorKind};
use crate::codec::random_bytes;
use crate::domain::Attachment;
use crate::text::{append_str, push_char};

verus! {

pub const MAX_ATTACHMENTS_PER_TURN: usize = 4;

pub const MAX_ATTACHMENT_BYTES: u64 = 10485760;

/// How many fresh names are tried before storing an attachment gives up.
pub const MAX_NAME_ATTEMPTS: usize = 16;

/// An error of the given kind and message.
pub open spec fn fails_with<T>(r: Result<T, StorageError>, kind: StorageErrorKind, message: Seq<char>) -> bool {
    r matches Err(e) && e.kind == kind && e.message@ == message
}

/// A turn carries at most four attachments.
pub fn check_attachment_count(count: usize) -> (r: Result<(), StorageError>)
    ensures
        count > MAX_ATTACHMENTS_PER_TURN ==> fails_with(r, StorageErrorKind::TooManyAttachments,
            "a turn can contain at most four attachments"@),
        count <= MAX_ATTACHMENTS_PER_TURN ==> r is Ok,
{
    if count > MAX_ATTACHMENTS_PER_TURN {
        Err(failure(StorageErrorKind::TooManyAttachments, "a turn can contain at most four attachments"))
    } else {
        Ok(())
    }
}

/// What the file system says of an attachment before it is read: it must be a regular
/// file of at most ten mebibytes.
pub fn check_attachment_file(is_file: bool, length: u64) -> (r: Result<(), StorageError>)
    ensures
        !is_file ==> fails_with(r, StorageErrorKind::AttachmentUnreadable, "attachment is not a regular file"@),
        is_file && length > MAX_ATTACHMENT_BYTES ==> fails_with(r, StorageErrorKind::AttachmentTooLarge,
            "attachment exceeds the ten mebibyte limit"@),
        is_file && length <= MAX_ATTACHMENT_BYTES ==> r is Ok,
{
    if !is_file {
        Err(failure(StorageErrorKind::AttachmentUnreadable, "attachment is not a regular file"))
    } else if length > MAX_ATTACHMENT_BYTES {
        Err(failure(StorageErrorKind::AttachmentTooLarge, "attachment exceeds the ten mebibyte limit"))
    } else {
        Ok(())
    }
}

/// The failure for an attachment that could not be inspected or read.
pub fn unreadable_attachment() -> (e: StorageError)
    ensures
        e.kind == StorageErrorKind::AttachmentUnreadable,
        e.message@ == "cannot read attachment"@,
{
    failure(StorageErrorKind::AttachmentUnreadable, "cannot read attachment")
}

/// The image formats that an attachment is told apart by.
#[derive(Clone, Copy, Debug, PartialEq, Eq, Structural)]
pub enum ImageKind {
    Png,
    Jpeg,
    WebP,
    Gif,
    Other,
}

/// The format that `image::guess_format` reads from the leading bytes, or `None` where
/// it recognises none.
pub uninterp spec fn guessed_format(bytes: Seq<u8>) -> Option<ImageKind>;

/// `image::guess_format`, its formats told apart as far as attachments need.
#[verifier::external_body]
fn guess_format(bytes: &[u8]) -> (kind: Option<ImageKind>)
    ensures
        kind == guessed_format(bytes@),
{
    match image::guess_format(bytes) {
        Ok(image::ImageFormat::Png) => Some(ImageKind::Png),
        Ok(image::ImageFormat::Jpeg) => Some(ImageKind::Jpeg),
        Ok(image::ImageFormat::WebP) => Some(ImageKind::WebP),
        Ok(image::ImageFormat::Gif) => Some(ImageKind::Gif),
        Ok(_) => Some(ImageKind::Other),
        Err(_) => None,
    }
}

/// How many frames `image`'s GIF decoder reads from the bytes, or `None` where it
/// cannot decode them.
pub uninterp spec fn gif_frame_count_of(bytes: Seq<u8>) -> Option<nat>;

/// `image::codecs::gif::GifDecoder` over the bytes, its frames collected and counted.
#[verifier::external_body]
fn gif_frame_count(bytes: &[u8]) -> (count: Option<usize>)
    ensures
        match count {
            Some(n) => gif_frame_count_of(bytes@) == Some(n as nat),
            None => gif_frame_count_of(bytes@) is None,
        },
{
    match image::codecs::gif::GifDecoder::new(std::io::Cursor::new(bytes)) {
        Ok(decoder) => match image::AnimationDecoder::into_frames(decoder).collect_frames() {
            Ok(frames) => Some(frames.len()),
            Err(_) => None,
        },
        Err(_) => None,
    }
}

/// The MIME type and file extension of an accepted image: PNG, JPEG, WebP, and GIF
/// with a single frame.
pub open spec fn image_type_spec(bytes: Seq<u8>) -> Result<(Seq<char>, Seq<char>), (StorageErrorKind, Seq<char>)> {
    match guessed_format(bytes) {
        Some(ImageKind::Png) => Ok(("image/png"@, "png"@)),
        Some(ImageKind::Jpeg) => Ok(("image/jpeg"@, "jpg"@)),
        Some(ImageKind::WebP) => Ok(("image/webp"@, "webp"@)),
        Some(ImageKind::Gif) => match gif_frame_count_of(bytes) {
            Some(n) => if n > 1 {
                Err((StorageErrorKind::AnimatedImage, "animated GIF images are not supported"@))
            } else {
                Ok(("image/gif"@, "gif"@))
            },
            None => Err((StorageErrorKind::UnsupportedAttachment, "attachment is not a readable GIF image"@)),
        },
        _ => Err((StorageErrorKind::UnsupportedAttachment, "attachment is not a supported image"@)),
    }
}

/// The outcome of a check as values.
pub open spec fn outcome_is(
    r: Result<(&'static str, &'static str), StorageError>,
    spec: Result<(Seq<char>, Seq<char>), (StorageErrorKind, Seq<char>)>,
) -> bool {
    match spec {
        Ok((mime, extension)) => r matches Ok(t) && t.0@ == mime && t.1@ == extension,
        Err((kind, message)) => r matches Err(e) && e.kind == kind && e.message@ == message,
    }
}

/// The MIME type and extension of an attachment's bytes.
pub fn image_type(bytes: &[u8]) -> (r: Result<(&'static str, &'static str), StorageError>)
    ensures
        outcome_is(r, image_type_spec(bytes@)),
{
    match guess_format(bytes) {
        Some(ImageKind::Png) => Ok(("image/png", "png")),
        Some(ImageKind::Jpeg) => Ok(("image/jpeg", "jpg")),
        Some(ImageKind::WebP) => Ok(("image/webp", "webp")),
        Some(ImageKind::Gif) => match gif_frame_count(bytes) {
            Some(n) => {
                if n > 1 {
                    Err(failure(StorageErrorKind::AnimatedImage, "animated GIF images are not supported"))
                } else {
                    Ok(("image/gif", "gif"))
                }
            },
            None => Err(failure(StorageErrorKind::UnsupportedAttachment, "attachment is not a readable GIF image")),
        },
        _ => Err(failure(StorageErrorKind::UnsupportedAttachment, "attachment is not a supported image")),
    }
}

/// What the bytes read from an attachment decide: refused beyond ten mebibytes, else
/// its image type.
pub open spec fn classify_spec(bytes: Seq<u8>) -> Result<(Seq<char>, Seq<char>), (StorageErrorKind, Seq<char>)> {
    if bytes.len() > MAX_ATTACHMENT_BYTES {
        Err((StorageErrorKind::AttachmentTooLarge, "attachment exceeds the ten mebibyte limit"@))
    } else {
        image_type_spec(bytes)
    }
}

/// The MIME type and extension of the bytes read from an attachment.
pub fn classify_attachment(bytes: &[u8]) -> (r: Result<(&'static str, &'static str), StorageError>)
    ensures
        outcome_is(r, classify_spec(bytes@)),
{
    if bytes.len() as u64 > MAX_ATTACHMENT_BYTES {
        return Err(failure(StorageErrorKind::AttachmentTooLarge, "attachment exceeds the ten mebibyte limit"));
    }
    image_type(bytes)
}

/// The stored name of an attachment from sixteen random bytes: their hex, a dot and
/// the extension.
pub open spec fn opaque_name_spec(random: Seq<u8>, extension: Seq<char>) -> Seq<char> {
    hex_of(random) + seq!['.'] + extension
}

/// The name for sixteen given bytes.
pub fn name_from_bytes(random: &Vec<u8>, extension: &str) -> (name: String)
    ensures
        name@ == opaque_name_spec(random@, extension@),
{
    let mut name = to_hex(random);
    push_char(&mut name, '.');
    append_str(&mut name, extension);
    name
}

/// A fresh random name for a stored attachment with the given extension.
pub fn opaque_name(extension: &str) -> (name: String)
    ensures
        exists|random: Seq<u8>| random.len() == 16 && name@ == #[trigger] opaque_name_spec(random, extension@),
{
    let random = random_bytes(16);
    let name = name_from_bytes(&random, extension);
    assert(name@ == opaque_name_spec(random@, extension@));
    name
}

/// The attachment that an import records: a reference to the file the user picked,
/// under its own path, with its type and size. The file is neither copied nor
/// managed by the store.
pub fn imported_attachment(name: String, source_path: Vec<u8>, mime_type: &str, byte_size: u64) -> (a: Attachment)
    ensures
        a.name@ == name@,
        a.path@ == source_path@,
        a.mime_type@ == mime_type@,
        a.byte_size == byte_size,
        !a.managed,
{
    let mut mime = String::new();
    append_str(&mut mime, mime_type);
    Attachment { name, path: source_path, mime_type: mime, byte_size, managed: false }
}

/// Every PNG, JPEG and WebP image is accepted with its MIME type and extension, and only
/// animated GIFs are refused: a GIF that the decoder reads with at most one frame
/// is accepted as `image/gif` with the extension `gif`, and an image is refused as
/// animated only where it is a GIF with more than one frame.
pub proof fn lemma_only_animated_gifs_are_refused(bytes: Seq<u8>)
    ensures
        guessed_format(bytes) == Some(ImageKind::Png) ==> image_type_spec(bytes) == Ok::<
            (Seq<char>, Seq<char>),
            (StorageErrorKind, Seq<char>),
        >(("image/png"@, "png"@)),
        guessed_format(bytes) == Some(ImageKind::Jpeg) ==> image_type_spec(bytes) == Ok::<
            (Seq<char>, Seq<char>),
            (StorageErrorKind, Seq<char>),
        >(("image/jpeg"@, "jpg"@)),
        guessed_format(bytes) == Some(ImageKind::WebP) ==> image_type_spec(bytes) == Ok::<
            (Seq<char>, Seq<char>),
            (StorageErrorKind, Seq<char>),
        >(("image/webp"@, "webp"@)),
        (guessed_format(bytes) == Some(ImageKind::Gif) && gif_frame_count_of(bytes) is Some
            && gif_frame_count_of(bytes)->0 <= 1) ==> image_type_spec(bytes) == Ok::<(Seq<char>, Seq<char>), (StorageErrorKind, Seq<char>)>(
            ("image/gif"@, "gif"@),
        ),
        image_type_spec(bytes) matches Err((kind, _)) && kind == StorageErrorKind::AnimatedImage
            ==> guessed_format(bytes) == Some(ImageKind::Gif) && gif_frame_count_of(bytes) is Some
            && gif_frame_count_of(bytes)->0 > 1,
{
}

} // verus!
