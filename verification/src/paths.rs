//! Path resolution: pure mapping from a manifest entry and the root storage
//! directory to the canonical local path where that entry must live, and to
//! its parent directory (the download destination). No I/O happens here;
//! directory creation is the fetcher's concern.

use vstd::prelude::*;
use vstd::string::StrSliceExecFns;
use vstd::string::StringExecFns;

verus! {

/// The final `/`-delimited segment of a path or URL: the longest suffix
/// holding no `/`.
pub open spec fn basename(s: Seq<char>) -> Seq<char>
    decreases s.len(),
{
    if s.len() == 0 {
        s
    } else if s.last() == '/' {
        Seq::empty()
    } else {
        basename(s.drop_last()).push(s.last())
    }
}

proof fn lemma_basename_from(s: Seq<char>, i: int)
    requires
        0 <= i <= s.len(),
        forall|j: int| i <= j < s.len() ==> s[j] != '/',
        i > 0 ==> s[i - 1] == '/',
    ensures
        basename(s) == s.subrange(i, s.len() as int),
    decreases s.len(),
{
    if s.len() == 0 {
        assert(s.subrange(0, 0) =~= s);
    } else if i == s.len() {
        assert(s.last() == '/');
        assert(s.subrange(i, s.len() as int) =~= Seq::<char>::empty());
    } else {
        assert(s.last() == s[s.len() - 1] && s.len() - 1 >= i);
        lemma_basename_from(s.drop_last(), i);
        assert(s.subrange(i, s.len() as int) =~= s.drop_last().subrange(
            i,
            s.len() - 1,
        ).push(s.last()));
    }
}

/// The final `/`-delimited segment of `url`, as executable code; the name
/// of the file a download lands in.
pub fn basename_of(url: &str) -> (r: String)
    ensures
        r@ == basename(url@),
{
    let n = url.unicode_len();
    let mut i = n;
    while i > 0 && url.get_char(i - 1) != '/'
        invariant
            0 <= i <= n,
            n == url@.len(),
            forall|j: int| i <= j < n ==> url@[j] != '/',
        decreases i,
    {
        i = i - 1;
    }
    let tail = url.substring_char(i, n);
    proof {
        lemma_basename_from(url@, i as int);
    }
    tail.to_owned()
}

/// Where the asset index document lives: `{root}/assets/indexes/{id}`.
pub fn asset_index_path(root: &str, id: &str) -> (r: String)
    ensures
        r@ == root@ + "/assets/indexes/"@ + id@,
{
    let mut s = root.to_owned();
    s.append("/assets/indexes/");
    s.append(id);
    s
}

/// The asset index's parent directory: `{root}/assets/indexes`.
pub fn asset_index_dir(root: &str) -> (r: String)
    ensures
        r@ == root@ + "/assets/indexes"@,
{
    let mut s = root.to_owned();
    s.append("/assets/indexes");
    s
}

/// The sharded directory an asset object lives in:
/// `{root}/assets/objects/{hash[0..2]}`. The two-character prefix splits
/// the store so no single directory grows with the whole asset set.
pub fn asset_object_dir(root: &str, hash: &str) -> (r: String)
    requires
        hash@.len() >= 2,
    ensures
        r@ == root@ + "/assets/objects/"@ + hash@.subrange(0, 2),
{
    let mut s = root.to_owned();
    s.append("/assets/objects/");
    let prefix = hash.substring_char(0, 2);
    s.append(prefix);
    s
}

/// Where an asset object lives: `{root}/assets/objects/{hash[0..2]}/{hash}`.
/// The path is a function of the hash alone, so two logical names with one
/// hash share one file.
pub fn asset_object_path(root: &str, hash: &str) -> (r: String)
    requires
        hash@.len() >= 2,
    ensures
        r@ == root@ + "/assets/objects/"@ + hash@.subrange(0, 2) + "/"@ + hash@,
{
    let mut s = asset_object_dir(root, hash);
    s.append("/");
    s.append(hash);
    s
}

/// The URL an asset object is fetched from: `{base}/{hash[0..2]}/{hash}`,
/// under the content-addressed resource host.
pub fn asset_object_url(base: &str, hash: &str) -> (r: String)
    requires
        hash@.len() >= 2,
    ensures
        r@ == base@ + "/"@ + hash@.subrange(0, 2) + "/"@ + hash@,
{
    let mut s = base.to_owned();
    s.append("/");
    let prefix = hash.substring_char(0, 2);
    s.append(prefix);
    s.append("/");
    s.append(hash);
    s
}

/// A profile's directory: `{root}/profiles/{profile}`.
pub fn profile_dir(root: &str, profile: &str) -> (r: String)
    ensures
        r@ == root@ + "/profiles/"@ + profile@,
{
    let mut s = root.to_owned();
    s.append("/profiles/");
    s.append(profile);
    s
}

/// Where the client jar lives: `{root}/profiles/{profile}/client.jar`.
pub fn client_jar_path(root: &str, profile: &str) -> (r: String)
    ensures
        r@ == root@ + "/profiles/"@ + profile@ + "/client.jar"@,
{
    let mut s = profile_dir(root, profile);
    s.append("/client.jar");
    s
}

/// A library archive's directory: `{root}/libs/{rel}`, with `rel` the
/// relative archive path the manifest declares.
pub fn library_dir(root: &str, rel: &str) -> (r: String)
    ensures
        r@ == root@ + "/libs/"@ + rel@,
{
    let mut s = root.to_owned();
    s.append("/libs/");
    s.append(rel);
    s
}

/// Where a library archive lives: `{root}/libs/{rel}/{basename(url)}`.
pub fn library_path(root: &str, rel: &str, url: &str) -> (r: String)
    ensures
        r@ == root@ + "/libs/"@ + rel@ + "/"@ + basename(url@),
{
    let mut s = library_dir(root, rel);
    s.append("/");
    let name = basename_of(url);
    s.append(name.as_str());
    s
}

} // verus!
