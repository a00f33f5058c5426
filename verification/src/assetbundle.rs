//! Loading assets from the engine's asset bundles: what can go wrong.

use vstd::prelude::*;
use vstd::string::*;

verus! {

/// Why an asset could not be loaded from a bundle.
#[derive(Debug, Clone, PartialEq, Eq)]
pub enum LoadAssetError {
    /// No bundle is loaded to take the asset from.
    BundleNotLoaded,
    /// The bundle holds no asset of this name.
    AssetNotFound(String),
}

/// A `LoadAssetError` as a mathematical value.
pub enum LoadAssetErrorView {
    BundleNotLoaded,
    AssetNotFound(Seq<char>),
}

impl View for LoadAssetError {
    type V = LoadAssetErrorView;

    open spec fn view(&self) -> LoadAssetErrorView {
        match self {
            LoadAssetError::BundleNotLoaded => LoadAssetErrorView::BundleNotLoaded,
            LoadAssetError::AssetNotFound(name) => LoadAssetErrorView::AssetNotFound(name@),
        }
    }
}

impl LoadAssetErrorView {
    /// The error in words.
    pub open spec fn message_text(self) -> Seq<char> {
        match self {
            LoadAssetErrorView::BundleNotLoaded => "Asset bundle not loaded"@,
            LoadAssetErrorView::AssetNotFound(name) => "Asset not found: "@ + name,
        }
    }
}

/// What asking a bundle for an asset comes to: the bundle must be loaded, and
/// it must hold the asset.
pub open spec fn asset_lookup(bundle_loaded: bool, asset_found: bool, name: Seq<char>) -> Result<
    (),
    LoadAssetErrorView,
> {
    if !bundle_loaded {
        Err(LoadAssetErrorView::BundleNotLoaded)
    } else if !asset_found {
        Err(LoadAssetErrorView::AssetNotFound(name))
    } else {
        Ok(())
    }
}

impl LoadAssetError {
    /// The error in words.
    pub fn message(&self) -> (r: String)
        ensures
            r@ == self@.message_text(),
    {
        match self {
            LoadAssetError::BundleNotLoaded => String::from_str("Asset bundle not loaded"),
            LoadAssetError::AssetNotFound(name) => {
                let mut r = String::from_str("Asset not found: ");
                r.append(name.as_str());
                r
            },
        }
    }

    /// Judges a lookup of the asset `name`: whether a bundle was loaded to
    /// look in, and whether the engine found the asset there.
    pub fn check(bundle_loaded: bool, asset_found: bool, name: &str) -> (r: Result<
        (),
        LoadAssetError,
    >)
        ensures
            match r {
                Ok(_) => asset_lookup(bundle_loaded, asset_found, name@) is Ok,
                Err(error) => asset_lookup(bundle_loaded, asset_found, name@) == Err::<
                    (),
                    LoadAssetErrorView,
                >(error@),
            },
    {
        if !bundle_loaded {
            Err(LoadAssetError::BundleNotLoaded)
        } else if !asset_found {
            Err(LoadAssetError::AssetNotFound(String::from_str(name)))
        } else {
            Ok(())
        }
    }
}

} // verus!
