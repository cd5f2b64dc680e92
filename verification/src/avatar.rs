use sha2::Digest;
use vstd::prelude::*;
use vstd::string::*;

use crate::errors::Error;
use crate::text::text_eq;

verus! {

/// What a data URL holds, if the text is a data URL at all: the type and
/// the subtype of the media type that it declares, and the bytes that it
/// carries, or no bytes where its body cannot be decoded.
pub uninterp spec fn data_url_parts(text: Seq<char>) -> Option<
    (Seq<char>, Seq<char>, Option<Seq<u8>>),
>;

/// The SHA-256 digest of `bytes` in lower-case hexadecimal digits.
pub uninterp spec fn sha256_hex(bytes: Seq<u8>) -> Seq<char>;

/// The parts of a data URL, as contracts see them.
pub open spec fn parts_view(parts: Option<(String, String, Option<Vec<u8>>)>) -> Option<
    (Seq<char>, Seq<char>, Option<Seq<u8>>),
> {
    match parts {
        Some((media_type, subtype, Some(bytes))) => Some((media_type@, subtype@, Some(bytes@))),
        Some((media_type, subtype, None)) => Some((media_type@, subtype@, None)),
        None => None,
    }
}

/// Trusted: calls `data_url::DataUrl::process` and reads the result with
/// `DataUrl::mime_type` and `DataUrl::decode_to_vec`. What comes back
/// depends on the text alone and is known here only by its name.
#[verifier::external_body]
pub(crate) fn read_data_url(text: &str) -> (parts: Option<(String, String, Option<Vec<u8>>)>)
    ensures
        parts_view(parts) == data_url_parts(text@),
{
    match data_url::DataUrl::process(text) {
        Ok(url) => {
            let body = match url.decode_to_vec() {
                Ok((bytes, _)) => Some(bytes),
                Err(_) => None,
            };
            Some((url.mime_type().type_.clone(), url.mime_type().subtype.clone(), body))
        },
        Err(_) => None,
    }
}

/// Trusted: calls `sha2::Sha256::digest` and formats the digest in
/// lower-case hexadecimal digits. The text depends on the bytes alone and is
/// known here only by its name.
#[verifier::external_body]
pub(crate) fn digest_hex(bytes: &Vec<u8>) -> (digest: String)
    ensures
        digest@ == sha256_hex(bytes@),
{
    format!("{:x}", sha2::Sha256::digest(bytes))
}

/// An avatar that is ready to be stored: its bytes, the name of the file
/// that holds them, and the reference that clients are given.
#[derive(Debug)]
pub struct SavedAvatar {
    pub file_name: String,
    pub bytes: Vec<u8>,
    pub url: String,
}

/// Turns the images that participants send into stored files.
#[derive(Debug)]
pub struct AvatarManager {
    pub directory: String,
    pub prefix: String,
    pub max_image_size: usize,
}

/// The file extension for an image of the given media type, if images of
/// that type are accepted.
pub open spec fn extension_of(media_type: Seq<char>, subtype: Seq<char>) -> Option<Seq<char>> {
    if media_type != "image"@ {
        None
    } else if subtype == "jpeg"@ {
        Some("jpg"@)
    } else if subtype == "png"@ {
        Some("png"@)
    } else {
        None
    }
}

/// The name of the file for an image with the given digest and extension.
pub open spec fn file_name_of(digest: Seq<char>, extension: Seq<char>) -> Seq<char> {
    digest + "."@ + extension
}

/// The reference to a file below `prefix`.
pub open spec fn reference_of(prefix: Seq<char>, file_name: Seq<char>) -> Seq<char> {
    prefix + "/"@ + file_name
}

impl AvatarManager {
    pub fn new(directory: String, prefix: String, max_image_size: usize) -> (manager: Result<
        Self,
        Error,
    >)
        ensures
            manager matches Ok(m) && m.directory == directory && m.prefix == prefix
                && m.max_image_size == max_image_size,
    {
        Ok(AvatarManager { directory, prefix, max_image_size })
    }

    /// The file extension for an image of the given media type. Images are
    /// accepted as JPEG and as PNG.
    pub fn extension_for(media_type: &str, subtype: &str) -> (extension: Result<
        &'static str,
        Error,
    >)
        ensures
            match extension {
                Ok(ext) => extension_of(media_type@, subtype@) == Some(ext@),
                Err(error) => error == Error::DataUrlType && extension_of(media_type@, subtype@)
                    is None,
            },
    {
        if !text_eq(media_type, "image") {
            Err(Error::DataUrlType)
        } else if text_eq(subtype, "jpeg") {
            Ok("jpg")
        } else if text_eq(subtype, "png") {
            Ok("png")
        } else {
            Err(Error::DataUrlType)
        }
    }

    /// The bytes of an image, unless they could not be decoded or are more
    /// than the limit allows.
    pub fn check_body(&self, body: Option<Vec<u8>>) -> (bytes: Result<Vec<u8>, Error>)
        ensures
            match body {
                Some(given) => if given@.len() <= self.max_image_size {
                    bytes == Ok::<Vec<u8>, Error>(given)
                } else {
                    bytes == Err::<Vec<u8>, Error>(Error::DataUrlDecode)
                },
                None => bytes == Err::<Vec<u8>, Error>(Error::DataUrlDecode),
            },
    {
        match body {
            Some(given) => {
                if given.len() <= self.max_image_size {
                    Ok(given)
                } else {
                    Err(Error::DataUrlDecode)
                }
            },
            None => Err(Error::DataUrlDecode),
        }
    }

    /// The avatar made of `bytes` with the digest `digest`, stored under
    /// the extension `extension`.
    pub fn name_avatar(&self, bytes: Vec<u8>, digest: &str, extension: &str) -> (avatar: SavedAvatar)
        ensures
            avatar.bytes == bytes,
            avatar.file_name@ == file_name_of(digest@, extension@),
            avatar.url@ == reference_of(self.prefix@, avatar.file_name@),
    {
        let mut file_name = String::from_str(digest);
        file_name.append(".");
        file_name.append(extension);
        let mut url = self.prefix.clone();
        url.append("/");
        url.append(file_name.as_str());
        SavedAvatar { file_name, bytes, url }
    }

    /// What becomes of the data URL `text` as an avatar.
    pub open spec fn saved(&self, text: Seq<char>, result: Result<SavedAvatar, Error>) -> bool {
        match data_url_parts(text) {
            None => result matches Err(error) && error == Error::DataUrlFormat,
            Some((media_type, subtype, body)) => match extension_of(media_type, subtype) {
                None => result matches Err(error) && error == Error::DataUrlType,
                Some(extension) => match body {
                    Some(bytes) => if bytes.len() <= self.max_image_size {
                        &&& result matches Ok(avatar)
                        &&& avatar.bytes@ == bytes
                        &&& avatar.file_name@ == file_name_of(sha256_hex(bytes), extension)
                        &&& avatar.url@ == reference_of(self.prefix@, avatar.file_name@)
                    } else {
                        result matches Err(error) && error == Error::DataUrlDecode
                    },
                    None => result matches Err(error) && error == Error::DataUrlDecode,
                },
            },
        }
    }

    /// Reads an image from a data URL and names the file that is to hold
    /// it after the digest of its bytes. Fails where the text is no data
    /// URL, where it declares anything but a JPEG or PNG image, and where
    /// its body cannot be decoded or is larger than the limit.
    pub fn save_avatar(&self, avatar_data_url: &str) -> (result: Result<SavedAvatar, Error>)
        ensures
            self.saved(avatar_data_url@, result),
    {
        let (media_type, subtype, body) = match read_data_url(avatar_data_url) {
            Some(parts) => parts,
            None => {
                return Err(Error::DataUrlFormat);
            },
        };
        let extension = match Self::extension_for(media_type.as_str(), subtype.as_str()) {
            Ok(extension) => extension,
            Err(error) => {
                return Err(error);
            },
        };
        let bytes = match self.check_body(body) {
            Ok(bytes) => bytes,
            Err(error) => {
                return Err(error);
            },
        };
        let digest = digest_hex(&bytes);
        Ok(self.name_avatar(bytes, digest.as_str(), extension))
    }
}

} // verus!
