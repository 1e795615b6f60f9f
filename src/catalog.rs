use crate::models::{catalog_models, translate_catalog, Model, ModelsResponse, VertexModelsResponse};
use vstd::prelude::*;
use vstd::string::StringExecFns;

verus! {

/// The one key under which the translated model list is cached.
pub const MODELS_CACHE_KEY: &'static str = "vertex_models";

/// The backend's catalog of publisher models.
pub const MODELS_URL: &'static str = "https://us-central1-aiplatform.googleapis.com/v1beta1/publishers/google/models";

/// How long a cached model list is served, in seconds.
pub const MODELS_CACHE_TTL_SECS: u64 = 3600;

/// How many keys the model cache holds at most.
pub const MODELS_CACHE_CAPACITY: u64 = 100;

/// What to do on a request for the model list, once the cache was asked.
pub enum ModelsStep {
    /// Answer with this list, without asking the backend.
    Serve(Vec<Model>),
    /// Fetch the catalog from the backend.
    Fetch,
}

/// How the request for the backend's catalog went.
pub enum CatalogFetch {
    /// The request could not be sent or got no answer.
    TransportFailed,
    /// The backend answered with `status`; `payload` is its body read as a
    /// catalog, `None` where it is not one.
    Answered { status: u16, payload: Option<VertexModelsResponse> },
}

/// Why the model list could not be given.
pub enum ModelsError {
    /// The backend could not be reached or answered with a failure status.
    BadGateway,
    /// No authorization value, or a catalog that could not be read.
    Internal,
}

impl ModelsError {
    /// The HTTP status the client gets for this error.
    pub fn status_code(&self) -> (r: u16)
        ensures
            r == match self {
                ModelsError::BadGateway => 502u16,
                ModelsError::Internal => 500u16,
            },
    {
        match self {
            ModelsError::BadGateway => 502,
            ModelsError::Internal => 500,
        }
    }
}

/// A success status: 200 to 299.
pub open spec fn success_status(status: u16) -> bool {
    200 <= status <= 299
}

/// Whether `status` is a success status.
pub fn status_is_success(status: u16) -> (r: bool)
    ensures
        r == success_status(status),
{
    200 <= status && status <= 299
}

/// The step after asking the cache: a hit is served as it is, with no
/// backend call; a miss fetches.
pub fn on_cache_lookup(cached: Option<Vec<Model>>) -> (r: ModelsStep)
    ensures
        match cached {
            Some(m) => r == ModelsStep::Serve(m),
            None => r is Fetch,
        },
{
    match cached {
        Some(m) => ModelsStep::Serve(m),
        None => ModelsStep::Fetch,
    }
}

/// The model list for a catalog fetch, every entry stamped with `created`:
/// a transport failure or a failure status is a bad gateway, an unreadable
/// catalog an internal error, and a catalog is filtered and translated in
/// its order. The caller replaces the whole cache with an `Ok` list.
pub fn catalog_from_fetch(fetch: &CatalogFetch, created: i64) -> (r: Result<Vec<Model>, ModelsError>)
    ensures
        match fetch {
            CatalogFetch::TransportFailed => r matches Err(ModelsError::BadGateway),
            CatalogFetch::Answered { status, payload } => if !success_status(*status) {
                r matches Err(ModelsError::BadGateway)
            } else {
                match payload {
                    None => r matches Err(ModelsError::Internal),
                    Some(p) => r matches Ok(v) && v@.map_values(|m: Model| m@) == catalog_models(
                        p.publisher_models@,
                        created,
                    ),
                }
            },
        },
{
    match fetch {
        CatalogFetch::TransportFailed => Err(ModelsError::BadGateway),
        CatalogFetch::Answered { status, payload } => {
            if !status_is_success(*status) {
                return Err(ModelsError::BadGateway);
            }
            match payload {
                None => Err(ModelsError::Internal),
                Some(p) => Ok(translate_catalog(&p.publisher_models, created)),
            }
        },
    }
}

/// The answer of the models endpoint for a list.
pub fn models_response(data: Vec<Model>) -> (r: ModelsResponse)
    ensures
        r.object@ == "list"@,
        r.data == data,
{
    ModelsResponse { object: String::from_str("list"), data }
}

} // verus!
