//! The reconciliation engine. It walks every entry class of the manifest —
//! the asset index, each asset object, the client jar, each library artifact
//! and the native classifier of the running platform — and turns each into a
//! check: a resolved local path, the destination directory, the source URL,
//! and the expected content digest. A caller probes each path (the only I/O
//! of the walk) and hands the probes back; the engine then decides
//! keep-vs-fetch per entry and builds the download plan.

use vstd::prelude::*;

use crate::hash::{content_matches, is_well_formed_digest, check_digest_format, verify_content};
use crate::manifest::{
    AssetIndexEntry, AssetObjectEntry, ClientArtifact, Library, Manifest, Platform, RemoteArtifact,
    native_of,
};
use crate::paths::{
    asset_index_dir, asset_index_path, asset_object_dir, asset_object_path, asset_object_url,
    basename, client_jar_path, library_dir, library_path, profile_dir,
};
use crate::plan::DownloadPlan;

verus! {

/// What one check is, mathematically: the resolved path, its parent
/// directory, the source URL, and the expected digest (`None` for the asset
/// index, which has no published digest and is gated on existence alone).
pub ghost struct CheckV {
    pub path: Seq<char>,
    pub dir: Seq<char>,
    pub url: Seq<char>,
    pub expected: Option<Seq<char>>,
}

/// One planned verification: where the entry must live, the directory a
/// fetched copy lands in, where to fetch it from, and the digest its bytes
/// must have.
pub struct CheckItem {
    pub path: String,
    pub dir: String,
    pub url: String,
    pub expected: Option<String>,
}

impl View for CheckItem {
    type V = CheckV;

    open spec fn view(&self) -> CheckV {
        CheckV {
            path: self.path@,
            dir: self.dir@,
            url: self.url@,
            expected: self.expected.deep_view(),
        }
    }
}

/// The views of a sequence of checks.
pub open spec fn checks_view(s: Seq<CheckItem>) -> Seq<CheckV> {
    s.map_values(|c: CheckItem| c@)
}

/// The check for the asset index document. The index has no published
/// digest, so an existing file is taken as valid: the expected digest is
/// `None` and only absence triggers a fetch. (The historical behaviour of
/// comparing the path against itself is deliberately not kept.)
pub open spec fn index_check(root: Seq<char>, ai: AssetIndexEntry) -> CheckV {
    CheckV {
        path: root + "/assets/indexes/"@ + ai.id@,
        dir: root + "/assets/indexes"@,
        url: ai.url@,
        expected: None,
    }
}

/// The check for one asset object: path and URL are functions of the hash
/// alone, under the two-character sharding prefix.
pub open spec fn asset_check(root: Seq<char>, base: Seq<char>, a: AssetObjectEntry) -> CheckV {
    CheckV {
        path: root + "/assets/objects/"@ + a.hash@.subrange(0, 2) + "/"@ + a.hash@,
        dir: root + "/assets/objects/"@ + a.hash@.subrange(0, 2),
        url: base + "/"@ + a.hash@.subrange(0, 2) + "/"@ + a.hash@,
        expected: Some(a.hash@),
    }
}

/// The check for the client jar of the given profile.
pub open spec fn client_check(root: Seq<char>, profile: Seq<char>, c: ClientArtifact) -> CheckV {
    CheckV {
        path: root + "/profiles/"@ + profile + "/client.jar"@,
        dir: root + "/profiles/"@ + profile,
        url: c.url@,
        expected: Some(c.sha1@),
    }
}

/// The check for a library artifact or native classifier, placed under its
/// declared relative path and named by the last segment of its URL.
pub open spec fn artifact_check(root: Seq<char>, a: RemoteArtifact) -> CheckV
    recommends
        a.path is Some,
{
    CheckV {
        path: root + "/libs/"@ + a.path.unwrap()@ + "/"@ + basename(a.url@),
        dir: root + "/libs/"@ + a.path.unwrap()@,
        url: a.url@,
        expected: Some(a.sha1@),
    }
}

/// The checks one library contributes on platform `p`: its artifact, if it
/// declares one, then the classifier for `p`, if it declares one. The other
/// platforms' classifiers contribute nothing.
pub open spec fn one_lib_checks(root: Seq<char>, lib: Library, p: Platform) -> Seq<CheckV> {
    (match lib.artifact {
        Some(a) => seq![artifact_check(root, a)],
        None => Seq::empty(),
    }) + (match native_of(lib, p) {
        Some(a) => seq![artifact_check(root, a)],
        None => Seq::empty(),
    })
}

/// The checks all libraries contribute, in manifest order.
pub open spec fn lib_checks(root: Seq<char>, libs: Seq<Library>, p: Platform) -> Seq<CheckV>
    decreases libs.len(),
{
    if libs.len() == 0 {
        Seq::empty()
    } else {
        lib_checks(root, libs.drop_last(), p) + one_lib_checks(root, libs.last(), p)
    }
}

/// Every check a reconciliation run performs, in walk order: the asset
/// index, each asset object, the client jar, then the libraries.
pub open spec fn all_checks(
    root: Seq<char>,
    base: Seq<char>,
    profile: Seq<char>,
    m: Manifest,
    assets: Seq<AssetObjectEntry>,
    p: Platform,
) -> Seq<CheckV> {
    seq![index_check(root, m.asset_index)] + assets.map_values(
        |a: AssetObjectEntry| asset_check(root, base, a),
    ) + seq![client_check(root, profile, m.client)] + lib_checks(root, m.libraries@, p)
}

/// Every artifact a library declares that matters on `p` carries the
/// relative path required for placing it.
pub open spec fn lib_paths_ok(lib: Library, p: Platform) -> bool {
    &&& (lib.artifact matches Some(a) ==> a.path is Some)
    &&& (native_of(lib, p) matches Some(a) ==> a.path is Some)
}

/// Every digest a library declares that matters on `p` is well-formed.
pub open spec fn lib_digests_ok(lib: Library, p: Platform) -> bool {
    &&& (lib.artifact matches Some(a) ==> is_well_formed_digest(a.sha1@))
    &&& (native_of(lib, p) matches Some(a) ==> is_well_formed_digest(a.sha1@))
}

/// Every required relative path is present.
pub open spec fn paths_ok(m: Manifest, p: Platform) -> bool {
    forall|i: int| 0 <= i < m.libraries@.len() ==> lib_paths_ok(#[trigger] m.libraries@[i], p)
}

/// Every declared digest the walk will rely on is forty lowercase hex
/// characters.
pub open spec fn digests_ok(m: Manifest, assets: Seq<AssetObjectEntry>, p: Platform) -> bool {
    &&& is_well_formed_digest(m.client.sha1@)
    &&& (forall|i: int| 0 <= i < assets.len() ==> is_well_formed_digest(#[trigger] assets[i].hash@))
    &&& (forall|i: int|
        0 <= i < m.libraries@.len() ==> lib_digests_ok(#[trigger] m.libraries@[i], p))
}

/// A manifest the reconciler accepts: nothing required is absent and no
/// digest is malformed.
pub open spec fn manifest_ok(m: Manifest, assets: Seq<AssetObjectEntry>, p: Platform) -> bool {
    digests_ok(m, assets, p) && paths_ok(m, p)
}

/// Why a reconciliation run was aborted before any download: the manifest
/// itself is unusable. Fatal, unlike any per-file condition.
#[derive(Clone, Copy, Debug, PartialEq, Eq, Structural)]
pub enum ManifestError {
    /// A library declares a downloadable artifact but no relative path to
    /// place it under.
    MissingArtifactPath,
    /// A declared content digest is not forty lowercase hex characters.
    MalformedDigest,
}

/// Walks the manifest and produces the checks of this run, in walk order.
/// Succeeds exactly on manifests with nothing required absent and no
/// malformed digest; performs no I/O.
pub fn plan_checks(
    root: &str,
    resources_base: &str,
    profile: &str,
    m: &Manifest,
    assets: &Vec<AssetObjectEntry>,
    platform: Platform,
) -> (r: Result<Vec<CheckItem>, ManifestError>)
    ensures
        r is Ok <==> manifest_ok(*m, assets@, platform),
        r matches Ok(items) ==> checks_view(items@) == all_checks(
            root@,
            resources_base@,
            profile@,
            *m,
            assets@,
            platform,
        ),
        r == Err::<Vec<CheckItem>, ManifestError>(ManifestError::MissingArtifactPath)
            ==> !paths_ok(*m, platform),
        r == Err::<Vec<CheckItem>, ManifestError>(ManifestError::MalformedDigest) ==> !digests_ok(
            *m,
            assets@,
            platform,
        ),
{
    let ghost cv_index = index_check(root@, m.asset_index);
    let ghost asset_cv = assets@.map_values(
        |a: AssetObjectEntry| asset_check(root@, resources_base@, a),
    );
    let mut items: Vec<CheckItem> = Vec::new();

    items.push(
        CheckItem {
            path: asset_index_path(root, m.asset_index.id.as_str()),
            dir: asset_index_dir(root),
            url: m.asset_index.url.clone(),
            expected: None,
        },
    );
    proof {
        assert(checks_view(items@) =~= seq![cv_index]);
    }

    let n = assets.len();
    let mut i: usize = 0;
    while i < n
        invariant
            0 <= i <= n,
            n == assets@.len(),
            asset_cv == assets@.map_values(
                |a: AssetObjectEntry| asset_check(root@, resources_base@, a),
            ),
            checks_view(items@) == seq![cv_index] + asset_cv.subrange(0, i as int),
            forall|j: int| 0 <= j < i ==> is_well_formed_digest(#[trigger] assets@[j].hash@),
        decreases n - i,
    {
        let ghost before = items@;
        let a = &assets[i];
        if !check_digest_format(a.hash.as_str()) {
            return Err(ManifestError::MalformedDigest);
        }
        items.push(
            CheckItem {
                path: asset_object_path(root, a.hash.as_str()),
                dir: asset_object_dir(root, a.hash.as_str()),
                url: asset_object_url(resources_base, a.hash.as_str()),
                expected: Some(a.hash.clone()),
            },
        );
        proof {
            assert(checks_view(items@) =~= checks_view(before).push(
                asset_check(root@, resources_base@, assets@[i as int]),
            ));
            assert(asset_cv.subrange(0, i + 1) =~= asset_cv.subrange(0, i as int).push(
                asset_cv[i as int],
            ));
            assert(checks_view(items@) =~= seq![cv_index] + asset_cv.subrange(0, i + 1));
        }
        i = i + 1;
    }
    proof {
        assert(asset_cv.subrange(0, n as int) =~= asset_cv);
    }

    if !check_digest_format(m.client.sha1.as_str()) {
        return Err(ManifestError::MalformedDigest);
    }
    let ghost before_client = items@;
    items.push(
        CheckItem {
            path: client_jar_path(root, profile),
            dir: profile_dir(root, profile),
            url: m.client.url.clone(),
            expected: Some(m.client.sha1.clone()),
        },
    );
    let ghost head = seq![cv_index] + asset_cv + seq![client_check(root@, profile@, m.client)];
    proof {
        assert(checks_view(items@) =~= checks_view(before_client).push(
            client_check(root@, profile@, m.client),
        ));
        assert(checks_view(items@) =~= head);
    }

    let nl = m.libraries.len();
    let mut k: usize = 0;
    while k < nl
        invariant
            0 <= k <= nl,
            nl == m.libraries@.len(),
            head == seq![cv_index] + asset_cv + seq![client_check(root@, profile@, m.client)],
            checks_view(items@) == head + lib_checks(
                root@,
                m.libraries@.subrange(0, k as int),
                platform,
            ),
            forall|j: int|
                0 <= j < k ==> lib_paths_ok(#[trigger] m.libraries@[j], platform) && lib_digests_ok(
                    m.libraries@[j],
                    platform,
                ),
        decreases nl - k,
    {
        let ghost before_lib = items@;
        let lib = &m.libraries[k];
        match &lib.artifact {
            Some(a) => {
                let rel = match &a.path {
                    Some(p) => p,
                    None => {
                        return Err(ManifestError::MissingArtifactPath);
                    },
                };
                if !check_digest_format(a.sha1.as_str()) {
                    return Err(ManifestError::MalformedDigest);
                }
                items.push(
                    CheckItem {
                        path: library_path(root, rel.as_str(), a.url.as_str()),
                        dir: library_dir(root, rel.as_str()),
                        url: a.url.clone(),
                        expected: Some(a.sha1.clone()),
                    },
                );
                proof {
                    assert(checks_view(items@) =~= checks_view(before_lib).push(
                        artifact_check(root@, lib.artifact.unwrap()),
                    ));
                }
            },
            None => {},
        }
        let ghost mid = items@;
        match lib.native_for(platform) {
            Some(a) => {
                let rel = match &a.path {
                    Some(p) => p,
                    None => {
                        return Err(ManifestError::MissingArtifactPath);
                    },
                };
                if !check_digest_format(a.sha1.as_str()) {
                    return Err(ManifestError::MalformedDigest);
                }
                items.push(
                    CheckItem {
                        path: library_path(root, rel.as_str(), a.url.as_str()),
                        dir: library_dir(root, rel.as_str()),
                        url: a.url.clone(),
                        expected: Some(a.sha1.clone()),
                    },
                );
                proof {
                    assert(checks_view(items@) =~= checks_view(mid).push(
                        artifact_check(root@, native_of(*lib, platform).unwrap()),
                    ));
                }
            },
            None => {},
        }
        proof {
            assert(checks_view(items@) =~= checks_view(before_lib) + one_lib_checks(
                root@,
                m.libraries@[k as int],
                platform,
            ));
            assert(m.libraries@.subrange(0, k + 1).drop_last() =~= m.libraries@.subrange(
                0,
                k as int,
            ));
            assert(m.libraries@.subrange(0, k + 1).last() == m.libraries@[k as int]);
            assert(checks_view(items@) =~= head + lib_checks(
                root@,
                m.libraries@.subrange(0, k + 1),
                platform,
            ));
        }
        k = k + 1;
    }
    proof {
        assert(m.libraries@.subrange(0, nl as int) =~= m.libraries@);
        assert(checks_view(items@) =~= all_checks(
            root@,
            resources_base@,
            profile@,
            *m,
            assets@,
            platform,
        ));
    }
    Ok(items)
}

/// What probing one resolved path found. Anything but readable content —
/// a missing file, a directory in the way, an unreadable file — is never
/// fatal: it resolves to "needs fetch".
pub enum FileProbe {
    Missing,
    Directory,
    Unreadable,
    Content(Vec<u8>),
}

/// The keep-vs-fetch rule for one entry: fetch when no readable content is
/// there, or when content is there but its digest is not the expected one.
/// An entry without an expected digest (the asset index) is kept whenever
/// readable content exists, whatever its bytes.
pub open spec fn needs_fetch(expected: Option<Seq<char>>, probe: FileProbe) -> bool {
    match probe {
        FileProbe::Content(b) => match expected {
            Some(h) => !content_matches(b@, h),
            None => false,
        },
        _ => true,
    }
}

/// Decides one entry. Its only work beyond the rule itself is the digest
/// computation.
pub fn decide(item: &CheckItem, probe: &FileProbe) -> (r: bool)
    ensures
        r == needs_fetch(item@.expected, *probe),
{
    match probe {
        FileProbe::Content(b) => match &item.expected {
            Some(h) => !verify_content(b.as_slice(), h.as_str()),
            None => false,
        },
        _ => true,
    }
}

/// Whether the `i`-th of the checks came out stale under the probes.
pub open spec fn stale_at(items: Seq<CheckV>, probes: Seq<FileProbe>, i: int) -> bool {
    needs_fetch(items[i].expected, probes[i])
}

/// The URLs of the first `n` checks that came out stale.
pub open spec fn required_urls_upto(
    items: Seq<CheckV>,
    probes: Seq<FileProbe>,
    n: int,
) -> Set<Seq<char>> {
    Set::new(
        |u: Seq<char>|
            exists|i: int| 0 <= i < n && #[trigger] stale_at(items, probes, i) && items[i].url == u,
    )
}

/// The URLs the run must fetch: those of every stale check.
pub open spec fn required_urls(items: Seq<CheckV>, probes: Seq<FileProbe>) -> Set<Seq<char>> {
    required_urls_upto(items, probes, items.len() as int)
}

/// Builds the download plan from the checks and what probing each one's
/// path found. The plan's keys are exactly the stale checks' URLs — a URL
/// referenced by several stale entries appears once — and each URL maps to
/// the destination directory of a stale check that carries it.
pub fn build_plan(items: &Vec<CheckItem>, probes: &Vec<FileProbe>) -> (r: DownloadPlan)
    requires
        items@.len() == probes@.len(),
    ensures
        r.wf(),
        r@.dom() =~= required_urls(checks_view(items@), probes@),
        forall|u: Seq<char>| #[trigger]
            r@.dom().contains(u) ==> exists|i: int|
                0 <= i < items@.len() && #[trigger] stale_at(checks_view(items@), probes@, i)
                    && checks_view(items@)[i].url == u && r@[u] == checks_view(items@)[i].dir,
{
    let ghost cv = checks_view(items@);
    let mut plan = DownloadPlan::new();
    let n = items.len();
    let mut i: usize = 0;
    while i < n
        invariant
            0 <= i <= n,
            n == items@.len(),
            items@.len() == probes@.len(),
            cv == checks_view(items@),
            plan.wf(),
            plan@.dom() =~= required_urls_upto(cv, probes@, i as int),
            forall|u: Seq<char>| #[trigger]
                plan@.dom().contains(u) ==> exists|j: int|
                    0 <= j < i && #[trigger] stale_at(cv, probes@, j) && cv[j].url == u && plan@[u]
                        == cv[j].dir,
        decreases n - i,
    {
        let ghost dom_before = plan@.dom();
        if decide(&items[i], &probes[i]) {
            assert(stale_at(cv, probes@, i as int));
            plan.insert(items[i].url.clone(), items[i].dir.clone());
        }
        proof {
            assert forall|u: Seq<char>|
                required_urls_upto(cv, probes@, i + 1).contains(u) implies plan@.dom().contains(
                u,
            ) by {
                let j = choose|j: int|
                    0 <= j < i + 1 && #[trigger] stale_at(cv, probes@, j) && cv[j].url == u;
                if j < i {
                    assert(required_urls_upto(cv, probes@, i as int).contains(u));
                    assert(dom_before.contains(u));
                }
            }
            assert(plan@.dom() =~= required_urls_upto(cv, probes@, i + 1));
        }
        i = i + 1;
    }
    plan
}

/// Idempotence of reconciliation: when no check is stale — as after a run
/// whose fetches all landed, with no intervening mutation — the set of
/// required URLs is empty, so the plan built from those probes is the empty
/// map.
pub proof fn lemma_no_stale_checks_empty_plan(items: Seq<CheckV>, probes: Seq<FileProbe>)
    requires
        items.len() == probes.len(),
        forall|i: int| 0 <= i < items.len() ==> !stale_at(items, probes, i),
    ensures
        required_urls(items, probes) =~= Set::<Seq<char>>::empty(),
{
}

/// Idempotence across two runs: if every entry the first run found stale
/// now holds verifying content — its fetch landed — and every entry the
/// first run kept is untouched, the second run requires nothing.
pub proof fn lemma_reconcile_idempotent(
    items: Seq<CheckV>,
    before: Seq<FileProbe>,
    after: Seq<FileProbe>,
)
    requires
        items.len() == before.len(),
        items.len() == after.len(),
        forall|i: int|
            0 <= i < items.len() ==> if stale_at(items, before, i) {
                !stale_at(items, after, i)
            } else {
                after[i] == before[i]
            },
    ensures
        required_urls(items, after) =~= Set::<Seq<char>>::empty(),
{
    assert forall|i: int| 0 <= i < items.len() implies !stale_at(items, after, i) by {
        if !stale_at(items, before, i) {
            assert(after[i] == before[i]);
        }
    }
    lemma_no_stale_checks_empty_plan(items, after);
}

/// Sharding: the check for an asset object is a function of its hash
/// alone. Two logical names declaring one hash produce one check — the same
/// path, the same URL — and so one plan entry at most.
pub proof fn lemma_shared_hash_same_target(
    root: Seq<char>,
    base: Seq<char>,
    a1: AssetObjectEntry,
    a2: AssetObjectEntry,
)
    requires
        a1.hash@ == a2.hash@,
    ensures
        asset_check(root, base, a1) == asset_check(root, base, a2),
{
}

/// Two asset entries of one walk that declare the same hash contribute the
/// same check — the same path, directory and URL — at their two positions,
/// so the plan, a map keyed by URL, carries the content once.
pub proof fn lemma_duplicate_assets_share_one_check(
    root: Seq<char>,
    base: Seq<char>,
    profile: Seq<char>,
    m: Manifest,
    assets: Seq<AssetObjectEntry>,
    p: Platform,
    i: int,
    j: int,
)
    requires
        0 <= i < assets.len(),
        0 <= j < assets.len(),
        assets[i].hash@ == assets[j].hash@,
    ensures
        all_checks(root, base, profile, m, assets, p)[1 + i] == all_checks(
            root,
            base,
            profile,
            m,
            assets,
            p,
        )[1 + j],
{
    let cv = all_checks(root, base, profile, m, assets, p);
    assert(cv[1 + i] == asset_check(root, base, assets[i]));
    assert(cv[1 + j] == asset_check(root, base, assets[j]));
    lemma_shared_hash_same_target(root, base, assets[i], assets[j]);
}

/// Two libraries that agree on their artifact and on the classifier of the
/// running platform — whatever the other platforms' classifiers hold.
pub open spec fn same_on_platform(l1: Library, l2: Library, p: Platform) -> bool {
    l1.artifact == l2.artifact && native_of(l1, p) == native_of(l2, p)
}

/// Platform isolation: the checks the libraries contribute depend only on
/// their artifacts and on the classifiers of the running platform. The
/// other two platforms' classifiers never reach the plan — nor the probes,
/// since only planned checks are ever probed.
pub proof fn lemma_platform_isolation(
    root: Seq<char>,
    libs1: Seq<Library>,
    libs2: Seq<Library>,
    p: Platform,
)
    requires
        libs1.len() == libs2.len(),
        forall|i: int| 0 <= i < libs1.len() ==> same_on_platform(libs1[i], libs2[i], p),
    ensures
        lib_checks(root, libs1, p) == lib_checks(root, libs2, p),
    decreases libs1.len(),
{
    if libs1.len() > 0 {
        assert(same_on_platform(libs1.last(), libs2.last(), p));
        lemma_platform_isolation(root, libs1.drop_last(), libs2.drop_last(), p);
        assert(one_lib_checks(root, libs1.last(), p) =~= one_lib_checks(root, libs2.last(), p));
    }
}

/// Platform isolation over the whole walk: two manifests that agree on the
/// asset index, the client and, library by library, on what matters for the
/// running platform produce the same checks — however their other
/// platforms' classifiers differ, corrupted local copies included.
pub proof fn lemma_walk_ignores_other_platforms(
    root: Seq<char>,
    base: Seq<char>,
    profile: Seq<char>,
    m1: Manifest,
    m2: Manifest,
    assets: Seq<AssetObjectEntry>,
    p: Platform,
)
    requires
        m1.asset_index == m2.asset_index,
        m1.client == m2.client,
        m1.libraries@.len() == m2.libraries@.len(),
        forall|i: int|
            0 <= i < m1.libraries@.len() ==> same_on_platform(
                m1.libraries@[i],
                m2.libraries@[i],
                p,
            ),
    ensures
        all_checks(root, base, profile, m1, assets, p) == all_checks(
            root,
            base,
            profile,
            m2,
            assets,
            p,
        ),
{
    lemma_platform_isolation(root, m1.libraries@, m2.libraries@, p);
}

/// Mismatch detection: a check whose path holds readable content with the
/// wrong digest is stale, so its URL is among the required ones.
pub proof fn lemma_mismatch_detected(
    items: Seq<CheckV>,
    probes: Seq<FileProbe>,
    i: int,
    b: Seq<u8>,
)
    requires
        items.len() == probes.len(),
        0 <= i < items.len(),
        probes[i] matches FileProbe::Content(c) && c@ == b,
        items[i].expected matches Some(h) && !content_matches(b, h),
    ensures
        required_urls(items, probes).contains(items[i].url),
{
    assert(stale_at(items, probes, i));
}

} // verus!
