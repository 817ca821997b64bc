//! The legacy image operations, against the images bucket: the same get
//! decision as the asset path, and an upload that gates only on a
//! derivable filename — no capability check and no type validation.

use vstd::prelude::*;
use vstd::string::*;
use crate::errors::StoreFault;
use crate::routes::assets::{get_post, GetAssetOutcome, PutAssetOutcome};
use crate::store::MemoryStore;

verus! {

/// The legacy image operations.
pub struct ImagesApi;

impl ImagesApi {
    /// Decide the get outcome from the store's reply; the same decision
    /// the asset get makes.
    pub fn get_image_outcome(&self, fetched: Result<Vec<u8>, StoreFault>) -> (r: GetAssetOutcome)
        ensures
            get_post(fetched, r),
    {
        match fetched {
            Ok(content) => GetAssetOutcome::Content(content),
            Err(f) => match crate::errors::translate_fault(&f) {
                crate::errors::ErrorKind::NotFound => GetAssetOutcome::NotFound,
                crate::errors::ErrorKind::Upstream => GetAssetOutcome::Internal,
                crate::errors::ErrorKind::Internal => GetAssetOutcome::Internal,
            },
        }
    }

    /// Get an image from the store model: its bytes when present,
    /// not-found when absent, never an internal fault.
    pub fn get_image(&self, store: &MemoryStore, name: &String) -> (r: GetAssetOutcome)
        requires
            store.wf(),
        ensures
            store.contents().contains_key(name@) ==> (r matches GetAssetOutcome::Content(b) && b@
                == store.contents()[name@]),
            !store.contents().contains_key(name@) ==> r is NotFound,
    {
        let fetched = store.fetch(name);
        self.get_image_outcome(fetched)
    }

    /// Put an image into the store model: the only gate is a derivable
    /// filename — any caller may upload any content type, and a passing
    /// upload overwrites a namesake and serves the image path.
    pub fn put_image(
        &self,
        store: &mut MemoryStore,
        filename: &Option<String>,
        content: Vec<u8>,
    ) -> (r: PutAssetOutcome)
        requires
            old(store).wf(),
        ensures
            final(store).wf(),
            filename is None ==> r is BadRequest && *final(store) == *old(store),
            filename matches Some(n) ==> final(store).contents() == old(store).contents().insert(
                n@,
                content@,
            ) && (r matches PutAssetOutcome::Stored(p) && p@ == "/images/"@ + n@),
    {
        match filename {
            None => PutAssetOutcome::BadRequest,
            Some(name) => {
                store.put(name, content);
                let path = String::from_str("/images/").concat(name.as_str());
                PutAssetOutcome::Stored(path)
            },
        }
    }
}

} // verus!
