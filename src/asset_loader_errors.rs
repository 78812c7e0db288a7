//! Errors of the asset loading service: each names the path concerned.
use vstd::prelude::*;
use vstd::string::StringExecFns;

verus! {

#[derive(Debug, PartialEq, Eq)]
pub enum AssetLoaderError {
    AlreadyLoaded(String),
    NotFounded(String),
    NotLoaded(String),
}

/// The message of an asset error.
pub open spec fn asset_error_text(e: AssetLoaderError) -> Seq<char> {
    match e {
        AssetLoaderError::AlreadyLoaded(p) => "AssetLoaderError: "@ + p@ + " is already loaded"@,
        AssetLoaderError::NotFounded(p) => "AssetLoaderError: "@ + p@ + " is not founded"@,
        AssetLoaderError::NotLoaded(p) => "AssetLoaderError: "@ + p@ + " is not loaded"@,
    }
}

impl AssetLoaderError {
    pub fn new_already_loaded(path: &str) -> (r: Self)
        ensures
            r matches AssetLoaderError::AlreadyLoaded(p) && p@ == path@,
    {
        AssetLoaderError::AlreadyLoaded(path.to_owned())
    }

    pub fn new_not_founded(path: &str) -> (r: Self)
        ensures
            r matches AssetLoaderError::NotFounded(p) && p@ == path@,
    {
        AssetLoaderError::NotFounded(path.to_owned())
    }

    pub fn new_not_loaded(path: &str) -> (r: Self)
        ensures
            r matches AssetLoaderError::NotLoaded(p) && p@ == path@,
    {
        AssetLoaderError::NotLoaded(path.to_owned())
    }

    /// The error as a sentence, naming the path.
    pub fn message(&self) -> (r: String)
        ensures
            r@ == asset_error_text(*self),
    {
        let mut out = String::new();
        out.append("AssetLoaderError: ");
        match self {
            AssetLoaderError::AlreadyLoaded(p) => {
                out.append(p.as_str());
                out.append(" is already loaded");
            },
            AssetLoaderError::NotFounded(p) => {
                out.append(p.as_str());
                out.append(" is not founded");
            },
            AssetLoaderError::NotLoaded(p) => {
                out.append(p.as_str());
                out.append(" is not loaded");
            },
        }
        assert(out@ =~= asset_error_text(*self));
        out
    }

    /// The path the error is about.
    pub fn path(&self) -> (r: &String)
        ensures
            match self {
                AssetLoaderError::AlreadyLoaded(p) => r == p,
                AssetLoaderError::NotFounded(p) => r == p,
                AssetLoaderError::NotLoaded(p) => r == p,
            },
    {
        match self {
            AssetLoaderError::AlreadyLoaded(p) => p,
            AssetLoaderError::NotFounded(p) => p,
            AssetLoaderError::NotLoaded(p) => p,
        }
    }
}

} // verus!
