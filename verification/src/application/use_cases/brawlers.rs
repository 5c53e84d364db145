//! The brawlers service: what is settled before an avatar is uploaded.

use std::sync::Arc;
use vstd::prelude::*;
use vstd::string::*;
use crate::decimal::{decimal_text, i32_to_text};
use crate::domain::value_objects::base64_image::{
    base64_decoded, image_verdict, mime_of_decoded, Base64Image, ImageError,
};
use crate::domain::value_objects::uploaded_image::UploadImageOptions;

verus! {

/// An avatar that passed the checks, with the place it is to be stored at.
#[derive(Debug)]
pub struct AvatarUpload {
    pub image: Base64Image,
    pub options: UploadImageOptions,
}

/// Registers brawlers and stores their avatars in a repository of type `T`.
pub struct BrawlersUseCase<T> {
    brawler_repository: Arc<T>,
}

impl<T> BrawlersUseCase<T> {
    /// The repository that the service writes to.
    pub closed spec fn repository(&self) -> T {
        *self.brawler_repository
    }

    /// A service that writes to `brawler_repository`.
    pub fn new(brawler_repository: Arc<T>) -> (service: Self)
        ensures
            service.repository() == *brawler_repository,
    {
        BrawlersUseCase { brawler_repository }
    }

    /// The repository that the service writes to.
    pub fn source(&self) -> (repository: &Arc<T>)
        ensures
            **repository == self.repository(),
    {
        &self.brawler_repository
    }

    /// Where the avatar of `brawler_id` is stored, and in which size.
    pub fn avatar_options(brawler_id: i32) -> (options: UploadImageOptions)
        ensures
            options.folder matches Some(folder) && folder@ == "brawlers_avatar"@,
            options.public_id matches Some(public_id) && public_id@ == decimal_text(
                brawler_id as int,
            ),
            options.transformation matches Some(transformation) && transformation@
                == "c_scale,w_256"@,
    {
        UploadImageOptions {
            folder: Some("brawlers_avatar".to_owned()),
            public_id: Some(i32_to_text(brawler_id)),
            transformation: Some("c_scale,w_256".to_owned()),
        }
    }

    /// Checks the image that `brawler_id` sent and says where it is to be
    /// stored. Nothing is stored where the image is refused.
    ///
    /// Like [`Base64Image::new`], it is for machines whose `usize` has 64 bits.
    pub fn upload_avatar(&self, base64_image: String, brawler_id: i32) -> (upload: Result<
        AvatarUpload,
        ImageError,
    >)
        requires
            usize::BITS == 64,
        ensures
            upload matches Ok(checked) ==> {
                &&& image_verdict(
                    base64_image@,
                    base64_decoded(base64_image@),
                    mime_of_decoded(base64_image@),
                ) == Ok::<Seq<char>, ImageError>(checked.image@)
                &&& checked.options.public_id matches Some(public_id) && public_id@
                    == decimal_text(brawler_id as int)
                &&& checked.options.folder matches Some(folder) && folder@ == "brawlers_avatar"@
                &&& checked.options.transformation matches Some(transformation) && transformation@
                    == "c_scale,w_256"@
            },
            upload matches Err(refusal) ==> image_verdict(
                base64_image@,
                base64_decoded(base64_image@),
                mime_of_decoded(base64_image@),
            ) == Err::<Seq<char>, ImageError>(refusal),
    {
        let options = Self::avatar_options(brawler_id);
        match Base64Image::new(base64_image) {
            Ok(image) => Ok(AvatarUpload { image, options }),
            Err(refusal) => Err(refusal),
        }
    }
}

} // verus!
