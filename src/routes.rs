use vstd::prelude::*;

use crate::response::Response;
use crate::status::HttpStatusCode;
use crate::store::{index_document, not_found_document, AssetStore};
use crate::text::str_eq;

verus! {

/// A path inside the asset root that names a file.
#[derive(Debug)]
pub struct Route {
    pub path: String,
}

/// What routing `path` resolves to: the default document for the root path,
/// the path itself when the store holds something there, nothing otherwise.
pub open spec fn resolve(store: &AssetStore, path: Seq<char>) -> Option<Seq<char>> {
    if path == "/"@ {
        Some(index_document())
    } else if store.spec_exists(path) {
        Some(path)
    } else {
        None
    }
}

impl Route {
    /// Resolves a request path against the store. The root path always
    /// resolves to the default document; any other path resolves to itself
    /// when the store holds it, and to the not-found page when not.
    pub fn validate(route: &str, store: &AssetStore) -> (r: Result<String, Response>)
        requires
            store.serves_documents(),
        ensures
            match resolve(store, route@) {
                Some(p) => r matches Ok(s) && s@ == p,
                None => r matches Err(e) && e.is_page(
                    HttpStatusCode::NotFound,
                    store.spec_read(not_found_document())->Some_0,
                ),
            },
    {
        if str_eq(route, "/") {
            return Ok(String::from_str("index.html"));
        }
        if store.contains(route) {
            return Ok(route.to_owned());
        }
        Err(Response::not_found(store))
    }
}

} // verus!
