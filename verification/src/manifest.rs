//! Typed model of the remote manifest: the asset-index pointer, the asset
//! objects the index enumerates, the client artifact, and the libraries with
//! their optional platform-native classifiers. The model is built by the
//! caller from the fetched documents and read-only afterwards.

use vstd::prelude::*;

verus! {

/// Points at the asset index document: `id` names the local copy, `url` is
/// where it is fetched from. The index has no published digest.
pub struct AssetIndexEntry {
    pub id: String,
    pub url: String,
}

/// One entry of the asset index: a logical name, the content digest that
/// alone decides where the bytes live, and the declared size.
pub struct AssetObjectEntry {
    pub name: String,
    pub hash: String,
    pub size: u64,
}

/// The main client artifact: fetched from `url`, verified against `sha1`.
pub struct ClientArtifact {
    pub url: String,
    pub sha1: String,
}

/// A downloadable artifact of a library: a source URL, the expected content
/// digest, and the relative archive path under which it is placed. The path
/// is required for placing the file; a declared artifact without one is a
/// malformed manifest.
pub struct RemoteArtifact {
    pub url: String,
    pub sha1: String,
    pub path: Option<String>,
}

/// The per-platform native variants a library may carry, at most one per
/// supported platform.
pub struct NativeClassifiers {
    pub linux: Option<RemoteArtifact>,
    pub osx: Option<RemoteArtifact>,
    pub windows: Option<RemoteArtifact>,
}

/// One library: an optional plain artifact and optional native classifiers.
/// A library may declare either, both, or neither.
pub struct Library {
    pub artifact: Option<RemoteArtifact>,
    pub classifiers: Option<NativeClassifiers>,
}

/// The whole manifest, as the reconciler reads it.
pub struct Manifest {
    pub asset_index: AssetIndexEntry,
    pub client: ClientArtifact,
    pub libraries: Vec<Library>,
}

/// The platform the host runs on, supplied by the calling environment. It
/// selects which native classifier of each library is considered; the other
/// two are never looked at.
#[derive(Clone, Copy, Debug, PartialEq, Eq, Structural)]
pub enum Platform {
    Linux,
    Osx,
    Windows,
}

/// The native classifier of `lib` that is relevant on `p`, if any.
pub open spec fn native_of(lib: Library, p: Platform) -> Option<RemoteArtifact> {
    match lib.classifiers {
        None => None,
        Some(c) => match p {
            Platform::Linux => c.linux,
            Platform::Osx => c.osx,
            Platform::Windows => c.windows,
        },
    }
}

impl Library {
    /// The native classifier relevant on `p`, if this library carries one.
    pub fn native_for(&self, p: Platform) -> (r: Option<&RemoteArtifact>)
        ensures
            match native_of(*self, p) {
                Some(a) => r matches Some(b) && *b == a,
                None => r is None,
            },
    {
        match &self.classifiers {
            None => None,
            Some(c) => {
                let o = match p {
                    Platform::Linux => &c.linux,
                    Platform::Osx => &c.osx,
                    Platform::Windows => &c.windows,
                };
                match o {
                    Some(a) => Some(a),
                    None => None,
                }
            },
        }
    }
}

} // verus!
