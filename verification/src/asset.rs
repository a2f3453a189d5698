//! Release documents, the replies that carry them, and the assets that
//! are read from them.

use crate::error::ForgeError;
use url::Url;
use vstd::prelude::*;

verus! {

/// One downloadable file of a release.
#[derive(Debug, Clone, PartialEq, Eq)]
pub struct Asset {
    pub name: String,
    pub url: Url,
}

/// What an [`Asset`] holds.
pub struct AssetView {
    pub name: Seq<char>,
    pub url: Url,
}

impl View for Asset {
    type V = AssetView;

    open spec fn view(&self) -> AssetView {
        AssetView { name: self.name@, url: self.url }
    }
}

/// One entry of the `assets` array of a release document.
#[derive(Debug, Clone, PartialEq, Eq)]
pub struct ForgejoAsset {
    pub name: String,
    pub browser_download_url: Url,
}

/// A release document, as far as it is read.
#[derive(Debug, Clone, PartialEq, Eq)]
pub struct Release {
    pub assets: Vec<ForgejoAsset>,
}

/// What came of sending the request for release information.
#[derive(Debug, Clone, PartialEq, Eq)]
pub enum Reply {
    /// No response arrived.
    Failed,
    /// A response arrived. `release` is its body where the body is a
    /// release document, `None` where it is not.
    Received { status: u16, release: Option<Release> },
}

/// The asset that an entry of a release document describes.
pub open spec fn entry_asset(entry: ForgejoAsset) -> AssetView {
    AssetView { name: entry.name@, url: entry.browser_download_url }
}

/// The assets of a release document, in the document's order.
pub open spec fn release_assets(release: Release) -> Seq<AssetView> {
    release.assets@.map_values(|entry: ForgejoAsset| entry_asset(entry))
}

/// What a list of assets holds.
pub open spec fn asset_views(assets: Seq<Asset>) -> Seq<AssetView> {
    assets.map_values(|asset: Asset| asset@)
}

/// A status from 200 to 299.
pub open spec fn is_success_status(status: u16) -> bool {
    200 <= status <= 299
}

/// The assets that a reply yields, or the reason why it yields none. A
/// missing response and a status that is no success are failed requests;
/// a successful response without a release document is a failed decoding.
pub open spec fn reply_assets(reply: Reply) -> Result<Seq<AssetView>, ForgeError> {
    match reply {
        Reply::Failed => Err(ForgeError::RequestFailed),
        Reply::Received { status, release } => if !is_success_status(status) {
            Err(ForgeError::RequestFailed)
        } else {
            match release {
                Some(release) => Ok(release_assets(release)),
                None => Err(ForgeError::DecodeFailed),
            }
        },
    }
}

/// A release document yields as many assets as it has entries, each with
/// the name and the URL of the entry at its place; a successful reply
/// that carries the document yields exactly these.
pub proof fn lemma_assets_follow_entries(release: Release, status: u16)
    requires
        is_success_status(status),
    ensures
        release_assets(release).len() == release.assets@.len(),
        forall|i: int|
            0 <= i < release.assets@.len() ==> {
                &&& (#[trigger] release_assets(release)[i]).name == release.assets@[i].name@
                &&& release_assets(release)[i].url == release.assets@[i].browser_download_url
            },
        reply_assets(Reply::Received { status, release: Some(release) }) == Ok::<
            Seq<AssetView>,
            ForgeError,
        >(release_assets(release)),
{
}

impl Release {
    /// The assets of the release: one for each entry, with the entry's
    /// name and URL, in the entries' order.
    pub fn to_assets(&self) -> (assets: Vec<Asset>)
        ensures
            asset_views(assets@) == release_assets(*self),
            assets@.len() == self.assets@.len(),
            forall|i: int|
                0 <= i < assets@.len() ==> (#[trigger] assets@[i])@ == entry_asset(self.assets@[i]),
    {
        let mut assets: Vec<Asset> = Vec::new();
        let mut i: usize = 0;
        while i < self.assets.len()
            invariant
                i <= self.assets.len(),
                asset_views(assets@) =~= release_assets(*self).take(i as int),
            decreases self.assets.len() - i,
        {
            let entry = &self.assets[i];
            let asset = Asset {
                name: entry.name.clone(),
                url: entry.browser_download_url.clone(),
            };
            proof {
                let entries = release_assets(*self);
                assert(entries[i as int] == asset@);
                assert(entries.take(i + 1) =~= entries.take(i as int).push(asset@));
                assert(asset_views(assets@.push(asset)) =~= asset_views(assets@).push(asset@));
            }
            assets.push(asset);
            i += 1;
        }
        proof {
            assert(release_assets(*self).take(i as int) =~= release_assets(*self));
            assert(asset_views(assets@).len() == assets@.len());
            assert forall|k: int| 0 <= k < assets@.len() implies (#[trigger] assets@[k])@
                == entry_asset(self.assets@[k]) by {
                assert(asset_views(assets@)[k] == assets@[k]@);
                assert(release_assets(*self)[k] == entry_asset(self.assets@[k]));
            }
        }
        assets
    }
}

impl Reply {
    /// The assets that the reply yields, or the reason why it yields none.
    pub fn to_assets(&self) -> (result: Result<Vec<Asset>, ForgeError>)
        ensures
            match result {
                Ok(assets) => reply_assets(*self) == Ok::<Seq<AssetView>, ForgeError>(
                    asset_views(assets@),
                ),
                Err(error) => reply_assets(*self) == Err::<Seq<AssetView>, ForgeError>(error),
            },
    {
        match self {
            Reply::Failed => Err(ForgeError::RequestFailed),
            Reply::Received { status, release } => {
                if *status < 200 || *status > 299 {
                    Err(ForgeError::RequestFailed)
                } else {
                    match release {
                        Some(release) => Ok(release.to_assets()),
                        None => Err(ForgeError::DecodeFailed),
                    }
                }
            },
        }
    }
}

} // verus!
