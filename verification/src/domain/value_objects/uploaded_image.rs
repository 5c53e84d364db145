//! An avatar before and after its upload.

use vstd::prelude::*;
use vstd::string::*;
use crate::decimal::{decimal_text, i32_to_text};

verus! {

/// Where an uploaded image can be found.
#[derive(Debug, Clone)]
pub struct UploadedImage {
    pub url: String,
    pub public_id: String,
}

impl UploadedImage {
    /// The record of an upload.
    pub fn new(url: String, public_id: String) -> (image: UploadedImage)
        ensures
            image.url == url,
            image.public_id == public_id,
    {
        UploadedImage { url, public_id }
    }
}

/// Where an image is to be stored, and how it is to be changed on the way.
#[derive(Debug, Clone)]
pub struct UploadImageOptions {
    pub folder: Option<String>,
    pub public_id: Option<String>,
    pub transformation: Option<String>,
}

impl UploadImageOptions {
    /// The name under which the image of `brawler_id` is stored: the given
    /// name inside the given folder, or the brawler's identifier where no
    /// name is given.
    pub open spec fn storage_name(self, brawler_id: i32) -> Seq<char> {
        match self.public_id {
            Some(name) => match self.folder {
                Some(folder) => folder@ + "/"@ + name@,
                None => name@,
            },
            None => decimal_text(brawler_id as int),
        }
    }

    /// The name under which the image of `brawler_id` is stored.
    pub fn public_path(&self, brawler_id: i32) -> (path: String)
        ensures
            path@ == self.storage_name(brawler_id),
    {
        match &self.public_id {
            Some(name) => match &self.folder {
                Some(folder) => folder.clone().concat("/").concat(name.as_str()),
                None => name.clone(),
            },
            None => i32_to_text(brawler_id),
        }
    }
}

/// A request to replace one's avatar.
#[derive(Debug, Clone)]
pub struct UploadAvatar {
    pub base64_string: String,
}

} // verus!
