//! Resolution of published data packages: which publication metadata is
//! still missing, and where each package member is fetched from.
use crate::bundle_map::{
    all_packages, duplicate_text, lemma_all_packages_append, lemma_same_entries_packages, same_entries, has_key, retained, sorted_insert, BundleManifest, BundleManifestMap,
    BundlePackageArtifact,
};
use crate::text::{string_texts, 
    joined_by, joined_with, owned, push_char, push_str, str_eq, str_is_empty, str_less,
    strip_prefix, strip_suffix, text_less, trim, trim_end_in, trim_end_seq, trim_in, trim_seq,
    trimmed, TrimSet, lemma_text_less_asymmetric, lemma_text_less_irreflexive,
    lemma_text_less_total, lemma_text_less_transitive,
};
use vstd::prelude::*;

verus! {

pub const CURRENT_ARTIFACTS_RESOURCE_ID: &'static str = "publication/current_artifacts";

/// How the core fetches package members.
#[derive(Clone, Copy, Debug, PartialEq, Eq, Structural)]
pub enum CoreResourcePolicy {
    PublicUnpacked,
    InstalledPackage,
}

/// Where one resource comes from.
#[derive(Clone, Debug, PartialEq, Eq)]
pub enum CoreResourceSource {
    PublicUrl { url: String },
    PackageMember { package_id: String, filename: String, member_path: String },
    InstalledArtifactMember { filename: String, member_path: String },
}

/// The text of a resource source.
pub enum SourceText {
    PublicUrl(Seq<char>),
    PackageMember(Seq<char>, Seq<char>, Seq<char>),
    InstalledArtifactMember(Seq<char>, Seq<char>),
}

impl View for CoreResourceSource {
    type V = SourceText;

    open spec fn view(&self) -> SourceText {
        match *self {
            CoreResourceSource::PublicUrl { url } => SourceText::PublicUrl(url@),
            CoreResourceSource::PackageMember { package_id, filename, member_path } => {
                SourceText::PackageMember(package_id@, filename@, member_path@)
            },
            CoreResourceSource::InstalledArtifactMember { filename, member_path } => {
                SourceText::InstalledArtifactMember(filename@, member_path@)
            },
        }
    }
}

/// A resource that the core asks its host to fetch.
#[derive(Clone, Debug, PartialEq, Eq)]
pub struct CoreResourceRequest {
    pub id: String,
    pub source: CoreResourceSource,
    pub optional: bool,
}

/// The text of a resource request.
pub struct RequestText {
    pub id: Seq<char>,
    pub source: SourceText,
    pub optional: bool,
}

impl View for CoreResourceRequest {
    type V = RequestText;

    open spec fn view(&self) -> RequestText {
        RequestText { id: self.id@, source: self.source@, optional: self.optional }
    }
}

/// The texts of a list of requests.
pub open spec fn requests_text(rs: Seq<CoreResourceRequest>) -> Seq<RequestText> {
    rs.map_values(|r: CoreResourceRequest| r@)
}

impl CoreResourceRequest {
    /// A request for a resource at a public URL.
    pub fn public_url(id: &str, url: String, optional: bool) -> (r: CoreResourceRequest)
        ensures
            r@ == (RequestText { id: id@, source: SourceText::PublicUrl(url@), optional }),
    {
        CoreResourceRequest { id: owned(id), source: CoreResourceSource::PublicUrl { url }, optional }
    }
}

/// Where the published packages live, relative to the public base.
#[derive(Clone, Debug, PartialEq, Eq)]
pub struct CurrentArtifactsArtifactRoots {
    pub packaged: String,
    pub unpacked: String,
}

/// A bundle that the current publication lists.
#[derive(Clone, Debug, PartialEq, Eq)]
pub struct CurrentArtifactsBundleRef {
    pub filename: String,
    pub relative_path: String,
}

/// The current publication: its roots, its date and its bundles.
#[derive(Clone, Debug, PartialEq, Eq)]
pub struct CurrentArtifactsManifest {
    pub artifact_roots: CurrentArtifactsArtifactRoots,
    pub as_of_utc: Option<String>,
    pub bundles: Vec<CurrentArtifactsBundleRef>,
}

/// A navigation database package that can be installed or opened.
#[derive(Clone, Debug, PartialEq, Eq)]
pub struct NavDbArtifactCandidate {
    pub package_id: String,
    pub filename: String,
    pub contract_id: Option<String>,
    pub cycle: Option<String>,
    pub cycle_version: Option<String>,
    pub effective_date: Option<String>,
    pub expiration_date: Option<String>,
    pub warning_text: Option<String>,
    pub root_source: Option<CoreResourceSource>,
}

/// An installed package file.
#[derive(Clone, Debug, PartialEq, Eq)]
pub struct InstalledArtifact {
    pub artifact_id: String,
    pub filename: String,
}

/// The package catalog cached for offline use. `discovery_manifests` holds
/// the discovered publications whose contracts this build supports.
#[derive(Debug, PartialEq, Eq)]
pub struct OfflinePackagesLibraryCache {
    pub package_source_base_url: String,
    pub fetched_at_epoch_ms: i64,
    pub discovery_manifests: Vec<CurrentArtifactsManifest>,
    pub bundle_manifests_by_filename: BundleManifestMap,
}

/// A resolved resource.
#[derive(Clone, Debug, PartialEq, Eq)]
pub struct PublicationResolvedResource {
    pub source: CoreResourceSource,
}

/// What resolving a resource gives: the metadata still to fetch, or the
/// resolved resource.
#[derive(Clone, Debug, PartialEq, Eq)]
pub enum PublicationOutcome {
    NeedResources { resources: Vec<CoreResourceRequest> },
    Complete { resolved: PublicationResolvedResource },
}

/// The kinds of publication resource that a resolver takes in.
#[derive(Clone, Debug, PartialEq, Eq)]
pub enum PublicationResource {
    CurrentArtifacts,
    Bundle { filename: String },
}

/// The text of a list of string slices.
pub open spec fn part_texts(parts: Seq<&str>) -> Seq<Seq<char>> {
    parts.map_values(|p: &str| p@)
}

/// One part of a URL: the first loses its trailing slashes, the others
/// lose leading and trailing slashes.
pub open spec fn url_piece(part: Seq<char>, first: bool) -> Seq<char> {
    if first {
        trim_end_seq(part, TrimSet::Slash)
    } else {
        trim_seq(part, TrimSet::Slash)
    }
}

/// The non-empty pieces of a URL's parts.
pub open spec fn url_pieces(parts: Seq<Seq<char>>) -> Seq<Seq<char>>
    decreases parts.len(),
{
    if parts.len() == 0 {
        Seq::empty()
    } else {
        let before = url_pieces(parts.drop_last());
        let piece = url_piece(parts.last(), parts.len() == 1);
        if piece.len() > 0 {
            before.push(piece)
        } else {
            before
        }
    }
}

/// The URL that joins the parts with single slashes.
pub open spec fn spec_join_url(parts: Seq<Seq<char>>) -> Seq<char> {
    joined_with(url_pieces(parts), '/')
}

/// Joins URL parts with single slashes, dropping empty parts.
pub fn join_url(parts: &Vec<&str>) -> (r: String)
    ensures
        r@ == spec_join_url(part_texts(parts@)),
{
    let ghost texts = part_texts(parts@);
    let mut s = String::new();
    let mut count: usize = 0;
    let mut i: usize = 0;
    while i < parts.len()
        invariant
            i <= parts@.len(),
            texts == part_texts(parts@),
            s@ == joined_with(url_pieces(texts.take(i as int)), '/'),
            count == url_pieces(texts.take(i as int)).len(),
            count <= i,
        decreases parts@.len() - i,
    {
        assert(texts.take(i + 1).drop_last() =~= texts.take(i as int));
        assert(texts.take(i + 1).last() == parts@[i as int]@);
        let piece = if i == 0 {
            trim_end_in(parts[i], TrimSet::Slash)
        } else {
            trim_in(parts[i], TrimSet::Slash)
        };
        if !str_is_empty(piece) {
            let ghost before = url_pieces(texts.take(i as int));
            if count > 0 {
                push_char(&mut s, '/');
            }
            push_str(&mut s, piece);
            count = count + 1;
            proof {
                let after = before.push(piece@);
                assert(after.drop_last() =~= before);
                if before.len() == 0 {
                    assert(s@ =~= joined_with(after, '/'));
                } else {
                    assert(s@ =~= joined_with(after, '/'));
                }
            }
        }
        i = i + 1;
    }
    assert(texts.take(parts@.len() as int) =~= texts);
    s
}

/// A public base URL: trimmed, without trailing slashes, `/` where nothing
/// is left.
pub open spec fn spec_trim_url_root(root: Seq<char>) -> Seq<char> {
    let t = trim_end_seq(trimmed(root), TrimSet::Slash);
    if t.len() == 0 {
        "/"@
    } else {
        t
    }
}

/// Normalizes a public base URL.
pub fn trim_url_root(root: &str) -> (r: String)
    ensures
        r@ == spec_trim_url_root(root@),
{
    let t = trim_end_in(trim(root), TrimSet::Slash);
    if str_is_empty(t) {
        owned("/")
    } else {
        owned(t)
    }
}

/// The URL of the current-publication manifest.
pub open spec fn current_artifacts_url(base: Seq<char>) -> Seq<char> {
    spec_join_url(seq![base, "current_artifacts.json"@])
}

/// The request for the current-publication manifest.
pub open spec fn current_artifacts_request(base: Seq<char>) -> RequestText {
    RequestText {
        id: CURRENT_ARTIFACTS_RESOURCE_ID@,
        source: SourceText::PublicUrl(current_artifacts_url(base)),
        optional: false,
    }
}

/// The request for a bundle manifest, from the publication's packaged root.
pub open spec fn bundle_request(
    base: Seq<char>,
    manifest: CurrentArtifactsManifest,
    bundle: CurrentArtifactsBundleRef,
) -> RequestText {
    RequestText {
        id: "publication/bundle/"@ + bundle.filename@,
        source: SourceText::PublicUrl(
            spec_join_url(seq![base, manifest.artifact_roots.packaged@, bundle.relative_path@]),
        ),
        optional: false,
    }
}

/// The requests for the listed bundles whose manifests are not loaded, in
/// the order the publication lists them.
pub open spec fn missing_bundle_requests(
    base: Seq<char>,
    manifest: CurrentArtifactsManifest,
    bundles: Seq<CurrentArtifactsBundleRef>,
    entries: Seq<(String, BundleManifest)>,
) -> Seq<RequestText>
    decreases bundles.len(),
{
    if bundles.len() == 0 {
        Seq::empty()
    } else {
        let before = missing_bundle_requests(base, manifest, bundles.drop_last(), entries);
        if has_key(entries, bundles.last().filename@) {
            before
        } else {
            before.push(bundle_request(base, manifest, bundles.last()))
        }
    }
}

/// The publication metadata still to fetch: the current-publication manifest
/// while there is none, else the manifests of listed bundles not yet loaded;
/// nothing once all are loaded.
pub open spec fn spec_missing_resources(
    base: Seq<char>,
    current: Option<CurrentArtifactsManifest>,
    entries: Seq<(String, BundleManifest)>,
) -> Option<Seq<RequestText>> {
    match current {
        None => Some(seq![current_artifacts_request(base)]),
        Some(m) => {
            let rs = missing_bundle_requests(base, m, m.bundles@, entries);
            if rs.len() == 0 {
                None
            } else {
                Some(rs)
            }
        },
    }
}

/// Resolves published package members for the core.
#[derive(Debug, PartialEq, Eq)]
pub struct PublicationResolver {
    public_base_url: String,
    resource_policy: CoreResourcePolicy,
    current_artifacts: Option<CurrentArtifactsManifest>,
    current_artifacts_checked_epoch_ms: Option<i64>,
    bundle_manifests_by_filename: BundleManifestMap,
}

/// The current publication that a list of publications names: the one with
/// the latest date, the later one in the list among equal dates, where a
/// date comes after no date.
pub open spec fn latest_manifest(ms: Seq<CurrentArtifactsManifest>) -> Option<
    CurrentArtifactsManifest,
>
    decreases ms.len(),
{
    if ms.len() == 0 {
        None
    } else {
        match latest_manifest(ms.drop_last()) {
            None => Some(ms.last()),
            Some(best) => if as_of_before(ms.last().as_of_utc, best.as_of_utc) {
                Some(best)
            } else {
                Some(ms.last())
            },
        }
    }
}

/// Whether one publication date comes strictly before another.
pub open spec fn as_of_before(a: Option<String>, b: Option<String>) -> bool {
    match (a, b) {
        (None, Some(_)) => true,
        (Some(x), Some(y)) => text_less(x@, y@),
        _ => false,
    }
}

/// The filenames of a list of bundles.
pub open spec fn bundle_filename_texts(bs: Seq<CurrentArtifactsBundleRef>) -> Seq<Seq<char>> {
    bs.map_values(|b: CurrentArtifactsBundleRef| b.filename@)
}

/// The filenames of the bundles that a publication lists.
pub open spec fn referenced_bundles(current: Option<CurrentArtifactsManifest>) -> Seq<Seq<char>> {
    match current {
        Some(m) => bundle_filename_texts(m.bundles@),
        None => Seq::empty(),
    }
}

fn option_as_of_before(a: &Option<String>, b: &Option<String>) -> (r: bool)
    ensures
        r == as_of_before(*a, *b),
{
    match (a, b) {
        (None, Some(_)) => true,
        (Some(x), Some(y)) => str_less(x.as_str(), y.as_str()),
        _ => false,
    }
}

fn take_latest_manifest(manifests: Vec<CurrentArtifactsManifest>) -> (r: Option<
    CurrentArtifactsManifest,
>)
    ensures
        r == latest_manifest(manifests@),
{
    let n = manifests.len();
    if n == 0 {
        return None;
    }
    let mut best: usize = 0;
    let mut i: usize = 1;
    assert(manifests@.take(1).drop_last() =~= manifests@.take(0));
    assert(manifests@.take(0) =~= Seq::<CurrentArtifactsManifest>::empty());
    assert(manifests@.take(1).last() == manifests@[0]);
    assert(latest_manifest(manifests@.take(0)) is None);
    while i < n
        invariant
            n == manifests@.len(),
            1 <= i <= n,
            best < i,
            latest_manifest(manifests@.take(i as int)) == Some(manifests@[best as int]),
        decreases n - i,
    {
        assert(manifests@.take(i + 1).drop_last() =~= manifests@.take(i as int));
        if !option_as_of_before(&manifests[i].as_of_utc, &manifests[best].as_of_utc) {
            best = i;
        }
        i = i + 1;
    }
    assert(manifests@.take(n as int) =~= manifests@);
    let mut manifests = manifests;
    Some(manifests.remove(best))
}

fn bundle_filenames(manifest: &Option<CurrentArtifactsManifest>) -> (r: Vec<String>)
    ensures
        string_texts(r@) == referenced_bundles(*manifest),
{
    let mut r: Vec<String> = Vec::new();
    match manifest {
        Some(m) => {
            let mut i: usize = 0;
            while i < m.bundles.len()
                invariant
                    i <= m.bundles@.len(),
                    r@.len() == i,
                    string_texts(r@) == bundle_filename_texts(m.bundles@.take(i as int)),
                decreases m.bundles@.len() - i,
            {
                let ghost before = r@;
                let f = m.bundles[i].filename.clone();
                r.push(f);
                assert forall|k: int| 0 <= k < i + 1 implies #[trigger] string_texts(r@)[k] == bundle_filename_texts(m.bundles@.take(i + 1))[k] by {
                    if k < i {
                        assert(r@[k] == before[k]);
                        assert(string_texts(before)[k] == bundle_filename_texts(m.bundles@.take(i as int))[k]);
                    }
                }
                assert(string_texts(r@) =~= bundle_filename_texts(m.bundles@.take(i + 1)));
                i = i + 1;
            }
            assert(m.bundles@.take(m.bundles@.len() as int) =~= m.bundles@);
        },
        None => {
            assert(string_texts(r@) =~= Seq::<Seq<char>>::empty());
        },
    }
    r
}

/// What a publication resource id names.
pub open spec fn spec_classify(resource_id: Seq<char>) -> Result<Seq<char>, Seq<char>> {
    let prefix = "publication/bundle/"@;
    if resource_id == CURRENT_ARTIFACTS_RESOURCE_ID@ {
        Ok(Seq::empty())
    } else if prefix.len() <= resource_id.len() && resource_id.subrange(0, prefix.len() as int)
        == prefix {
        Ok(resource_id.subrange(prefix.len() as int, resource_id.len() as int))
    } else {
        Err("unsupported publication resource id: "@ + resource_id)
    }
}

/// Tells the current-publication manifest from a bundle manifest by its id:
/// `publication/current_artifacts`, or `publication/bundle/` and a filename.
pub fn classify_publication_resource(resource_id: &str) -> (r: Result<PublicationResource, String>)
    ensures
        match r {
            Ok(PublicationResource::CurrentArtifacts) => resource_id@
                == CURRENT_ARTIFACTS_RESOURCE_ID@,
            Ok(PublicationResource::Bundle { filename }) => resource_id@
                != CURRENT_ARTIFACTS_RESOURCE_ID@ && spec_classify(resource_id@) == Ok::<
                Seq<char>,
                Seq<char>,
            >(filename@),
            Err(e) => spec_classify(resource_id@) == Err::<Seq<char>, Seq<char>>(e@),
        },
{
    if str_eq(resource_id, CURRENT_ARTIFACTS_RESOURCE_ID) {
        return Ok(PublicationResource::CurrentArtifacts);
    }
    match strip_prefix(resource_id, "publication/bundle/") {
        Some(filename) => Ok(PublicationResource::Bundle { filename: owned(filename) }),
        None => {
            let mut e = owned("unsupported publication resource id: ");
            push_str(&mut e, resource_id);
            Err(e)
        },
    }
}


/// The displayed text of the error that decoding bytes that are not UTF-8
/// gives: where the first invalid sequence starts, and how long it is.
pub uninterp spec fn utf8_error_text(bytes: Seq<u8>) -> Seq<char>;

/// The text that some bytes hold as UTF-8, or the text of the error that
/// decoding them gives.
pub open spec fn utf8_decoding(bytes: Seq<u8>) -> Result<Seq<char>, Seq<char>> {
    if vstd::utf8::valid_utf8(bytes) {
        Ok(vstd::utf8::decode_utf8(bytes))
    } else {
        Err(utf8_error_text(bytes))
    }
}

/// `std::str::from_utf8`, with the error in its displayed form: it succeeds
/// exactly on valid UTF-8, with the text that the bytes encode; the error's
/// text is only named.
#[verifier::external_body]
fn decode_utf8(bytes: &[u8]) -> (r: Result<String, String>)
    ensures
        (r is Ok) == vstd::utf8::valid_utf8(bytes@),
        r matches Ok(text) ==> text@ == vstd::utf8::decode_utf8(bytes@),
        r matches Err(why) ==> why@ == utf8_error_text(bytes@),
{
    match std::str::from_utf8(bytes) {
        Ok(text) => Ok(text.to_string()),
        Err(err) => Err(err.to_string()),
    }
}

/// A fetched publication resource: which one it is, and its text. An error
/// for bytes that are not UTF-8, and for an id that names no publication
/// resource.
pub fn read_publication_resource(resource_id: &str, resource_bytes: &[u8]) -> (r: Result<
    (PublicationResource, String),
    String,
>)
    ensures
        match utf8_decoding(resource_bytes@) {
            Err(why) => r matches Err(e) && e@ == "publication resource "@ + resource_id@
                + " is not utf-8: "@ + why,
            Ok(text) => match r {
                Ok((PublicationResource::CurrentArtifacts, payload)) => payload@ == text
                    && resource_id@ == CURRENT_ARTIFACTS_RESOURCE_ID@,
                Ok((PublicationResource::Bundle { filename }, payload)) => payload@ == text
                    && resource_id@ != CURRENT_ARTIFACTS_RESOURCE_ID@ && spec_classify(resource_id@)
                    == Ok::<Seq<char>, Seq<char>>(filename@),
                Err(e) => resource_id@ != CURRENT_ARTIFACTS_RESOURCE_ID@ && spec_classify(
                    resource_id@,
                ) == Err::<Seq<char>, Seq<char>>(e@),
            },
        },
{
    let payload = match decode_utf8(resource_bytes) {
        Ok(text) => text,
        Err(why) => {
            let mut e = owned("publication resource ");
            push_str(&mut e, resource_id);
            push_str(&mut e, " is not utf-8: ");
            push_str(&mut e, why.as_str());
            return Err(e);
        },
    };
    match classify_publication_resource(resource_id) {
        Ok(resource) => Ok((resource, payload)),
        Err(e) => Err(e),
    }
}

pub const URL_POLICY_MESSAGE: &'static str =
    "publication URL resolution requires public_unpacked resource policy";

pub const PACKAGE_NOT_FOUND_MESSAGE: &'static str =
    "package not found in active publication bundles";

/// How a lookup picks a package: by package id or by family id.
#[derive(Clone, Copy, Debug, PartialEq, Eq, Structural)]
pub enum PackageKey {
    Id,
    Family,
}

/// Whether a package has the id or family that a lookup names.
pub open spec fn selects(kind: PackageKey, key: Seq<char>, p: BundlePackageArtifact) -> bool {
    match kind {
        PackageKey::Id => p.id@ == key,
        PackageKey::Family => p.family_id@ == key,
    }
}

/// The first package, in bundle order, whose contract is supported and that
/// the lookup names.
pub open spec fn first_supported(pkgs: Seq<BundlePackageArtifact>, kind: PackageKey, key: Seq<char>) -> Option<BundlePackageArtifact>
    decreases pkgs.len(),
{
    if pkgs.len() == 0 {
        None
    } else {
        match first_supported(pkgs.drop_last(), kind, key) {
            Some(p) => Some(p),
            None => if pkgs.last().contract_supported && selects(kind, key, pkgs.last()) {
                Some(pkgs.last())
            } else {
                None
            },
        }
    }
}

proof fn lemma_first_supported_append(a: Seq<BundlePackageArtifact>, b: Seq<BundlePackageArtifact>, kind: PackageKey, key: Seq<char>)
    ensures
        first_supported(a + b, kind, key) == match first_supported(a, kind, key) {
            Some(p) => Some(p),
            None => first_supported(b, kind, key),
        },
    decreases b.len(),
{
    if b.len() == 0 {
        assert(a + b =~= a);
    } else {
        lemma_first_supported_append(a, b.drop_last(), kind, key);
        assert((a + b).drop_last() =~= a + b.drop_last());
        assert((a + b).last() == b.last());
    }
}

/// `path` without its `.zip` ending, where it has one.
pub open spec fn strip_zip(path: Seq<char>) -> Option<Seq<char>> {
    let suffix = ".zip"@;
    if suffix.len() <= path.len() && path.subrange(path.len() - suffix.len(), path.len() as int)
        == suffix {
        Some(path.subrange(0, path.len() - suffix.len()))
    } else {
        None
    }
}

/// The public URL of a package member: the package's directory (its path
/// without `.zip`) under the publication's unpacked root.
pub open spec fn spec_member_address(
    base: Seq<char>,
    current: Option<CurrentArtifactsManifest>,
    p: BundlePackageArtifact,
    member: Seq<char>,
) -> Result<Seq<char>, Seq<char>> {
    match strip_zip(p.relative_path@) {
        None => Err("package "@ + p.id@ + " relative_path is not a zip: "@ + p.relative_path@),
        Some(dir) => match current {
            None => Err("publication current_artifacts missing after load"@),
            Some(m) => Ok(spec_join_url(seq![base, m.artifact_roots.unpacked@, dir, member])),
        },
    }
}

/// Where a package member comes from: its public URL, or the installed
/// package.
pub open spec fn spec_member_source(
    policy: CoreResourcePolicy,
    base: Seq<char>,
    current: Option<CurrentArtifactsManifest>,
    p: BundlePackageArtifact,
    member: Seq<char>,
) -> Result<SourceText, Seq<char>> {
    match policy {
        CoreResourcePolicy::PublicUnpacked => match spec_member_address(base, current, p, member) {
            Ok(url) => Ok(SourceText::PublicUrl(url)),
            Err(e) => Err(e),
        },
        CoreResourcePolicy::InstalledPackage => Ok(
            SourceText::PackageMember(p.id@, p.filename@, member),
        ),
    }
}

/// The text of a resolution outcome.
pub enum OutcomeText {
    NeedResources(Seq<RequestText>),
    Complete(SourceText),
}

impl View for PublicationOutcome {
    type V = OutcomeText;

    open spec fn view(&self) -> OutcomeText {
        match *self {
            PublicationOutcome::NeedResources { resources } => OutcomeText::NeedResources(
                requests_text(resources@),
            ),
            PublicationOutcome::Complete { resolved } => OutcomeText::Complete(resolved.source@),
        }
    }
}

/// The ids of a list of requests.
pub open spec fn request_ids(rs: Seq<RequestText>) -> Seq<Seq<char>> {
    rs.map_values(|r: RequestText| r.id)
}

/// The text of a navigation database candidate.
pub struct CandidateText {
    pub package_id: Seq<char>,
    pub filename: Seq<char>,
    pub contract_id: Option<Seq<char>>,
    pub cycle: Option<Seq<char>>,
    pub cycle_version: Option<Seq<char>>,
    pub effective_date: Option<Seq<char>>,
    pub expiration_date: Option<Seq<char>>,
    pub warning_text: Option<Seq<char>>,
    pub root_source: Option<SourceText>,
}

/// The text of an optional string.
pub open spec fn text_of(s: Option<String>) -> Option<Seq<char>> {
    match s {
        Some(x) => Some(x@),
        None => None,
    }
}

impl View for NavDbArtifactCandidate {
    type V = CandidateText;

    open spec fn view(&self) -> CandidateText {
        CandidateText {
            package_id: self.package_id@,
            filename: self.filename@,
            contract_id: text_of(self.contract_id),
            cycle: text_of(self.cycle),
            cycle_version: text_of(self.cycle_version),
            effective_date: text_of(self.effective_date),
            expiration_date: text_of(self.expiration_date),
            warning_text: text_of(self.warning_text),
            root_source: match self.root_source {
                Some(s) => Some(s@),
                None => None,
            },
        }
    }
}

/// The texts of a list of candidates.
pub open spec fn candidates_text(cs: Seq<NavDbArtifactCandidate>) -> Seq<CandidateText> {
    cs.map_values(|c: NavDbArtifactCandidate| c@)
}

/// The candidate that a package makes, with its root member's source.
pub open spec fn package_candidate(p: BundlePackageArtifact, root: SourceText) -> CandidateText {
    CandidateText {
        package_id: p.id@,
        filename: p.filename@,
        contract_id: Some(p.contract_id@),
        cycle: text_of(p.cycle),
        cycle_version: text_of(p.cycle_version),
        effective_date: text_of(p.effective_date),
        expiration_date: text_of(p.expiration_date),
        warning_text: text_of(p.warning_text),
        root_source: Some(root),
    }
}

/// A navigation database package whose contract is supported.
pub open spec fn is_nav_db_package(p: BundlePackageArtifact) -> bool {
    p.family_id@ == "nav-db"@ && p.contract_supported
}

impl PublicationResolver {
    /// The public base URL, normalized.
    pub closed spec fn base(self) -> Seq<char> {
        self.public_base_url@
    }

    /// How package members are fetched.
    pub closed spec fn policy(self) -> CoreResourcePolicy {
        self.resource_policy
    }

    /// The current publication, once known.
    pub closed spec fn current(self) -> Option<CurrentArtifactsManifest> {
        self.current_artifacts
    }

    /// When the current publication was last checked.
    pub closed spec fn checked(self) -> Option<i64> {
        self.current_artifacts_checked_epoch_ms
    }

    /// The loaded bundle manifests, in filename order.
    pub closed spec fn bundles(self) -> Seq<(String, BundleManifest)> {
        self.bundle_manifests_by_filename.entries()
    }

    /// The publication metadata that this resolver still needs.
    pub open spec fn missing(self) -> Option<Seq<RequestText>> {
        spec_missing_resources(self.base(), self.current(), self.bundles())
    }

    /// A resolver that fetches package members from public unpacked URLs.
    pub fn new(public_base_url: &str) -> (r: PublicationResolver)
        ensures
            r.base() == spec_trim_url_root(public_base_url@),
            r.policy() == CoreResourcePolicy::PublicUnpacked,
            r.current() is None,
            r.checked() is None,
            r.bundles().len() == 0,
    {
        Self::with_resource_policy(public_base_url, CoreResourcePolicy::PublicUnpacked)
    }

    /// A resolver with the given fetch policy.
    pub fn with_resource_policy(public_base_url: &str, resource_policy: CoreResourcePolicy) -> (r:
        PublicationResolver)
        ensures
            r.base() == spec_trim_url_root(public_base_url@),
            r.policy() == resource_policy,
            r.current() is None,
            r.checked() is None,
            r.bundles().len() == 0,
    {
        PublicationResolver {
            public_base_url: trim_url_root(public_base_url),
            resource_policy,
            current_artifacts: None,
            current_artifacts_checked_epoch_ms: None,
            bundle_manifests_by_filename: BundleManifestMap::new(),
        }
    }

    /// Changes how package members are fetched.
    pub fn set_resource_policy(&mut self, resource_policy: CoreResourcePolicy)
        ensures
            final(self).policy() == resource_policy,
            final(self).base() == old(self).base(),
            final(self).current() == old(self).current(),
            final(self).checked() == old(self).checked(),
            final(self).bundles() == old(self).bundles(),
    {
        self.resource_policy = resource_policy;
    }

    /// The current publication.
    pub fn current_artifacts(&self) -> (r: Option<&CurrentArtifactsManifest>)
        ensures
            match r {
                Some(m) => self.current() == Some(*m),
                None => self.current() is None,
            },
    {
        match &self.current_artifacts {
            Some(m) => Some(m),
            None => None,
        }
    }

    /// When the current publication was last checked.
    pub fn current_artifacts_checked_epoch_ms(&self) -> (r: Option<i64>)
        ensures
            r == self.checked(),
    {
        self.current_artifacts_checked_epoch_ms
    }

    /// The number of loaded bundle manifests.
    pub fn loaded_bundle_manifest_count(&self) -> (r: usize)
        ensures
            r == self.bundles().len(),
    {
        self.bundle_manifests_by_filename.len()
    }

    /// How package members are fetched.
    pub fn resource_policy(&self) -> (r: CoreResourcePolicy)
        ensures
            r == self.policy(),
    {
        self.resource_policy
    }

    /// The request that refreshes the current publication; only public
    /// unpacked resolution refreshes.
    pub fn current_artifacts_refresh_request(&self) -> (r: Result<CoreResourceRequest, String>)
        ensures
            self.policy() == CoreResourcePolicy::PublicUnpacked ==> (r matches Ok(req) && req@
                == current_artifacts_request(self.base())),
            self.policy() != CoreResourcePolicy::PublicUnpacked ==> (r matches Err(e) && e@
                == "publication refresh requires public_unpacked resource policy"@),
    {
        if self.resource_policy != CoreResourcePolicy::PublicUnpacked {
            return Err(owned("publication refresh requires public_unpacked resource policy"));
        }
        Ok(self.current_artifacts_request())
    }

    fn current_artifacts_request(&self) -> (r: CoreResourceRequest)
        ensures
            r@ == current_artifacts_request(self.base()),
    {
        let parts = vec![self.public_base_url.as_str(), "current_artifacts.json"];
        assert(part_texts(parts@) =~= seq![self.base(), "current_artifacts.json"@]);
        CoreResourceRequest::public_url(CURRENT_ARTIFACTS_RESOURCE_ID, join_url(&parts), false)
    }

    /// The publication metadata still to fetch before resolution.
    pub fn missing_manifest_resources(&self) -> (r: Option<Vec<CoreResourceRequest>>)
        ensures
            match r {
                Some(rs) => self.missing() == Some(requests_text(rs@)),
                None => self.missing() is None,
            },
    {
        let current = match &self.current_artifacts {
            None => {
                let mut rs = Vec::new();
                rs.push(self.current_artifacts_request());
                assert(requests_text(rs@) =~= seq![current_artifacts_request(self.base())]);
                return Some(rs);
            },
            Some(m) => m,
        };
        let ghost entries = self.bundles();
        let mut rs: Vec<CoreResourceRequest> = Vec::new();
        let mut i: usize = 0;
        while i < current.bundles.len()
            invariant
                i <= current.bundles@.len(),
                entries == self.bundles(),
                self.current() == Some(*current),
                requests_text(rs@) == missing_bundle_requests(
                    self.base(),
                    *current,
                    current.bundles@.take(i as int),
                    entries,
                ),
            decreases current.bundles@.len() - i,
        {
            let bundle = &current.bundles[i];
            assert(current.bundles@.take(i + 1).drop_last() =~= current.bundles@.take(i as int));
            assert(current.bundles@.take(i + 1).last() == *bundle);
            if !self.bundle_manifests_by_filename.contains_key(bundle.filename.as_str()) {
                let mut id = owned("publication/bundle/");
                push_str(&mut id, bundle.filename.as_str());
                let parts = vec![
                    self.public_base_url.as_str(),
                    current.artifact_roots.packaged.as_str(),
                    bundle.relative_path.as_str(),
                ];
                assert(part_texts(parts@) =~= seq![
                    self.base(),
                    current.artifact_roots.packaged@,
                    bundle.relative_path@,
                ]);
                let url = join_url(&parts);
                let req = CoreResourceRequest {
                    id,
                    source: CoreResourceSource::PublicUrl { url },
                    optional: false,
                };
                rs.push(req);
                assert(requests_text(rs@) =~= missing_bundle_requests(
                    self.base(),
                    *current,
                    current.bundles@.take(i as int),
                    entries,
                ).push(req@));
            }
            i = i + 1;
        }
        assert(current.bundles@.take(current.bundles@.len() as int) =~= current.bundles@);
        if rs.len() == 0 {
            None
        } else {
            Some(rs)
        }
    }

    /// Where one of this resolver's packages' members comes from.
    pub open spec fn member_source(self, p: BundlePackageArtifact, member: Seq<char>) -> Result<
        SourceText,
        Seq<char>,
    > {
        spec_member_source(self.policy(), self.base(), self.current(), p, member)
    }

    /// The package that a lookup finds in the loaded bundles.
    pub open spec fn found(self, kind: PackageKey, key: Seq<char>) -> Option<BundlePackageArtifact> {
        first_supported(all_packages(self.bundles()), kind, key)
    }

    /// The candidates of the supported navigation database packages, in
    /// bundle order, or the first error in finding a root member.
    pub open spec fn nav_db_candidates_of(self, pkgs: Seq<BundlePackageArtifact>) -> Result<
        Seq<CandidateText>,
        Seq<char>,
    >
        decreases pkgs.len(),
    {
        if pkgs.len() == 0 {
            Ok(Seq::empty())
        } else {
            match self.nav_db_candidates_of(pkgs.drop_last()) {
                Err(e) => Err(e),
                Ok(cs) => if is_nav_db_package(pkgs.last()) {
                    match self.member_source(pkgs.last(), "root"@) {
                        Err(e) => Err(e),
                        Ok(root) => Ok(cs.push(package_candidate(pkgs.last(), root))),
                    }
                } else {
                    Ok(cs)
                },
            }
        }
    }

    /// Every package of the loaded bundles, in bundle order.
    pub fn loaded_bundle_packages(&self) -> (r: Vec<BundlePackageArtifact>)
        ensures
            r@ == all_packages(self.bundles()),
    {
        let entries = self.bundle_manifests_by_filename.entry_list();
        let mut r: Vec<BundlePackageArtifact> = Vec::new();
        let mut i: usize = 0;
        while i < entries.len()
            invariant
                entries@ == self.bundles(),
                i <= entries@.len(),
                r@ == all_packages(entries@.take(i as int)),
            decreases entries@.len() - i,
        {
            let pkgs = &entries[i].1.packages;
            let ghost before = r@;
            let mut j: usize = 0;
            while j < pkgs.len()
                invariant
                    j <= pkgs@.len(),
                    r@ == before + pkgs@.take(j as int),
                decreases pkgs@.len() - j,
            {
                r.push(pkgs[j].duplicate());
                assert(r@ =~= before + pkgs@.take(j + 1));
                j = j + 1;
            }
            assert(entries@.take(i + 1).drop_last() =~= entries@.take(i as int));
            assert(pkgs@.take(pkgs@.len() as int) =~= pkgs@);
            i = i + 1;
        }
        assert(entries@.take(entries@.len() as int) =~= entries@);
        r
    }

    /// The first supported package, in bundle order, that a lookup names.
    pub fn matching_package(&self, kind: PackageKey, key: &str) -> (r: Result<
        &BundlePackageArtifact,
        String,
    >)
        ensures
            match r {
                Ok(p) => self.found(kind, key@) == Some(*p),
                Err(e) => self.found(kind, key@) is None && e@ == PACKAGE_NOT_FOUND_MESSAGE@,
            },
    {
        let entries = self.bundle_manifests_by_filename.entry_list();
        let mut i: usize = 0;
        while i < entries.len()
            invariant
                entries@ == self.bundles(),
                i <= entries@.len(),
                first_supported(all_packages(entries@.take(i as int)), kind, key@) is None,
            decreases entries@.len() - i,
        {
            let pkgs = &entries[i].1.packages;
            let ghost before = all_packages(entries@.take(i as int));
            let mut j: usize = 0;
            while j < pkgs.len()
                invariant
                    j <= pkgs@.len(),
                    i < entries@.len(),
                    entries@ == self.bundles(),
                    pkgs@ == entries@[i as int].1.packages@,
                    before == all_packages(entries@.take(i as int)),
                    first_supported(before + pkgs@.take(j as int), kind, key@) is None,
                decreases pkgs@.len() - j,
            {
                let p = &pkgs[j];
                let hit = p.contract_supported && match kind {
                    PackageKey::Id => str_eq(p.id.as_str(), key),
                    PackageKey::Family => str_eq(p.family_id.as_str(), key),
                };
                assert((before + pkgs@.take(j + 1)).drop_last() =~= before + pkgs@.take(j as int));
                assert((before + pkgs@.take(j + 1)).last() == *p);
                if hit {
                    proof {
                        let whole = all_packages(entries@);
                        let prefix = before + pkgs@.take(j + 1);
                        assert(entries@ =~= entries@.take(i + 1) + entries@.skip(i + 1));
                        lemma_all_packages_append(entries@.take(i + 1), entries@.skip(i + 1));
                        assert(entries@.take(i + 1).drop_last() =~= entries@.take(i as int));
                        assert(all_packages(entries@.take(i + 1)) == before + pkgs@);
                        assert(pkgs@ =~= pkgs@.take(j + 1) + pkgs@.skip(j + 1));
                        assert(whole =~= prefix + (pkgs@.skip(j + 1) + all_packages(entries@.skip(i + 1))));
                        lemma_first_supported_append(prefix, pkgs@.skip(j + 1) + all_packages(entries@.skip(i + 1)), kind, key@);
                    }
                    return Ok(p);
                }
                j = j + 1;
            }
            assert(pkgs@.take(pkgs@.len() as int) =~= pkgs@);
            assert(entries@.take(i + 1).drop_last() =~= entries@.take(i as int));
            i = i + 1;
        }
        assert(entries@.take(entries@.len() as int) =~= entries@);
        Err(owned(PACKAGE_NOT_FOUND_MESSAGE))
    }

    /// The public URL of a package member.
    pub fn package_member_address(&self, package: &BundlePackageArtifact, member_path: &str) -> (r:
        Result<String, String>)
        ensures
            match r {
                Ok(url) => spec_member_address(self.base(), self.current(), *package, member_path@)
                    == Ok::<Seq<char>, Seq<char>>(url@),
                Err(e) => spec_member_address(self.base(), self.current(), *package, member_path@)
                    == Err::<Seq<char>, Seq<char>>(e@),
            },
    {
        let package_dir = match strip_suffix(package.relative_path.as_str(), ".zip") {
            Some(dir) => dir,
            None => {
                let mut e = owned("package ");
                push_str(&mut e, package.id.as_str());
                push_str(&mut e, " relative_path is not a zip: ");
                push_str(&mut e, package.relative_path.as_str());
                return Err(e);
            },
        };
        let current = match &self.current_artifacts {
            Some(m) => m,
            None => return Err(owned("publication current_artifacts missing after load")),
        };
        let parts = vec![
            self.public_base_url.as_str(),
            current.artifact_roots.unpacked.as_str(),
            package_dir,
            member_path,
        ];
        assert(part_texts(parts@) =~= seq![
            self.base(),
            current.artifact_roots.unpacked@,
            package_dir@,
            member_path@,
        ]);
        Ok(join_url(&parts))
    }

    /// Where a package member comes from under this resolver's policy.
    pub fn package_member_source(&self, package: &BundlePackageArtifact, member_path: &str) -> (r:
        Result<CoreResourceSource, String>)
        ensures
            match r {
                Ok(src) => self.member_source(*package, member_path@) == Ok::<
                    SourceText,
                    Seq<char>,
                >(src@),
                Err(e) => self.member_source(*package, member_path@) == Err::<
                    SourceText,
                    Seq<char>,
                >(e@),
            },
    {
        match self.resource_policy {
            CoreResourcePolicy::PublicUnpacked => match self.package_member_address(
                package,
                member_path,
            ) {
                Ok(url) => Ok(CoreResourceSource::PublicUrl { url }),
                Err(e) => Err(e),
            },
            CoreResourcePolicy::InstalledPackage => Ok(
                CoreResourceSource::PackageMember {
                    package_id: package.id.clone(),
                    filename: package.filename.clone(),
                    member_path: owned(member_path),
                },
            ),
        }
    }

    /// The requests that fetch a member of the package a lookup names: the
    /// missing publication metadata first, else the member itself.
    pub open spec fn spec_resource_requests(
        self,
        target: Seq<char>,
        kind: PackageKey,
        key: Seq<char>,
        member: Seq<char>,
        optional: bool,
    ) -> Result<Seq<RequestText>, Seq<char>> {
        match self.missing() {
            Some(rs) => Ok(rs),
            None => match self.found(kind, key) {
                None => Err(PACKAGE_NOT_FOUND_MESSAGE@),
                Some(p) => match self.member_source(p, member) {
                    Err(e) => Err(e),
                    Ok(src) => Ok(seq![RequestText { id: target, source: src, optional }]),
                },
            },
        }
    }

    /// The requests for a package member, by lookup.
    pub fn resource_requests(
        &self,
        target_resource_id: &str,
        kind: PackageKey,
        key: &str,
        member_path: &str,
        optional: bool,
    ) -> (r: Result<Vec<CoreResourceRequest>, String>)
        ensures
            match r {
                Ok(rs) => self.spec_resource_requests(
                    target_resource_id@,
                    kind,
                    key@,
                    member_path@,
                    optional,
                ) == Ok::<Seq<RequestText>, Seq<char>>(requests_text(rs@)),
                Err(e) => self.spec_resource_requests(
                    target_resource_id@,
                    kind,
                    key@,
                    member_path@,
                    optional,
                ) == Err::<Seq<RequestText>, Seq<char>>(e@),
            },
    {
        if let Some(resources) = self.missing_manifest_resources() {
            return Ok(resources);
        }
        let package = self.matching_package(kind, key)?;
        let source = self.package_member_source(package, member_path)?;
        let mut rs = Vec::new();
        let req = CoreResourceRequest { id: owned(target_resource_id), source, optional };
        rs.push(req);
        assert(requests_text(rs@) =~= seq![req@]);
        Ok(rs)
    }

    /// The requests for a member of the package with this id.
    pub fn package_resource_requests(
        &self,
        target_resource_id: &str,
        package_id: &str,
        member_path: &str,
        optional: bool,
    ) -> (r: Result<Vec<CoreResourceRequest>, String>)
        ensures
            match r {
                Ok(rs) => self.spec_resource_requests(
                    target_resource_id@,
                    PackageKey::Id,
                    package_id@,
                    member_path@,
                    optional,
                ) == Ok::<Seq<RequestText>, Seq<char>>(requests_text(rs@)),
                Err(e) => self.spec_resource_requests(
                    target_resource_id@,
                    PackageKey::Id,
                    package_id@,
                    member_path@,
                    optional,
                ) == Err::<Seq<RequestText>, Seq<char>>(e@),
            },
    {
        self.resource_requests(target_resource_id, PackageKey::Id, package_id, member_path, optional)
    }

    /// The requests for a member of the first package of this family.
    pub fn family_resource_requests(
        &self,
        target_resource_id: &str,
        family_id: &str,
        member_path: &str,
        optional: bool,
    ) -> (r: Result<Vec<CoreResourceRequest>, String>)
        ensures
            match r {
                Ok(rs) => self.spec_resource_requests(
                    target_resource_id@,
                    PackageKey::Family,
                    family_id@,
                    member_path@,
                    optional,
                ) == Ok::<Seq<RequestText>, Seq<char>>(requests_text(rs@)),
                Err(e) => self.spec_resource_requests(
                    target_resource_id@,
                    PackageKey::Family,
                    family_id@,
                    member_path@,
                    optional,
                ) == Err::<Seq<RequestText>, Seq<char>>(e@),
            },
    {
        self.resource_requests(
            target_resource_id,
            PackageKey::Family,
            family_id,
            member_path,
            optional,
        )
    }

    /// Resolving a package member: the missing publication metadata first;
    /// then, under public unpacked resolution only, the member's source.
    pub open spec fn spec_resolve(self, kind: PackageKey, key: Seq<char>, member: Seq<char>) -> Result<
        OutcomeText,
        Seq<char>,
    > {
        match self.missing() {
            Some(rs) => Ok(OutcomeText::NeedResources(rs)),
            None => if self.policy() != CoreResourcePolicy::PublicUnpacked {
                Err(URL_POLICY_MESSAGE@)
            } else {
                match self.found(kind, key) {
                    None => Err(PACKAGE_NOT_FOUND_MESSAGE@),
                    Some(p) => match self.member_source(p, member) {
                        Err(e) => Err(e),
                        Ok(src) => Ok(OutcomeText::Complete(src)),
                    },
                }
            },
        }
    }

    /// Resolves a package member, by lookup.
    pub fn resolve_resource(&self, kind: PackageKey, key: &str, member_path: &str) -> (r: Result<
        PublicationOutcome,
        String,
    >)
        ensures
            match r {
                Ok(o) => self.spec_resolve(kind, key@, member_path@) == Ok::<OutcomeText, Seq<char>>(
                    o@,
                ),
                Err(e) => self.spec_resolve(kind, key@, member_path@) == Err::<
                    OutcomeText,
                    Seq<char>,
                >(e@),
            },
    {
        if let Some(resources) = self.missing_manifest_resources() {
            return Ok(PublicationOutcome::NeedResources { resources });
        }
        if self.resource_policy != CoreResourcePolicy::PublicUnpacked {
            return Err(owned(URL_POLICY_MESSAGE));
        }
        let package = self.matching_package(kind, key)?;
        let source = self.package_member_source(package, member_path)?;
        Ok(PublicationOutcome::Complete { resolved: PublicationResolvedResource { source } })
    }

    /// Resolves a member of the first package of a family.
    pub fn resolve_family_resource(&self, family_id: &str, member_path: &str) -> (r: Result<
        PublicationOutcome,
        String,
    >)
        ensures
            match r {
                Ok(o) => self.spec_resolve(PackageKey::Family, family_id@, member_path@) == Ok::<
                    OutcomeText,
                    Seq<char>,
                >(o@),
                Err(e) => self.spec_resolve(PackageKey::Family, family_id@, member_path@) == Err::<
                    OutcomeText,
                    Seq<char>,
                >(e@),
            },
    {
        self.resolve_resource(PackageKey::Family, family_id, member_path)
    }

    /// The public URL of a package member: public unpacked resolution only,
    /// and only once all publication metadata is loaded.
    pub open spec fn spec_public_url(self, package_id: Seq<char>, member: Seq<char>) -> Result<
        Seq<char>,
        Seq<char>,
    > {
        if self.policy() != CoreResourcePolicy::PublicUnpacked {
            Err(URL_POLICY_MESSAGE@)
        } else {
            match self.missing() {
                Some(rs) => Err(
                    "publication metadata missing for package URL resolution: "@ + joined_by(
                        request_ids(rs),
                        ", "@,
                    ),
                ),
                None => match self.found(PackageKey::Id, package_id) {
                    None => Err(PACKAGE_NOT_FOUND_MESSAGE@),
                    Some(p) => spec_member_address(self.base(), self.current(), p, member),
                },
            }
        }
    }

    /// The public URL of a member of the package with this id.
    pub fn package_member_public_url(&self, package_id: &str, member_path: &str) -> (r: Result<
        String,
        String,
    >)
        ensures
            match r {
                Ok(url) => self.spec_public_url(package_id@, member_path@) == Ok::<
                    Seq<char>,
                    Seq<char>,
                >(url@),
                Err(e) => self.spec_public_url(package_id@, member_path@) == Err::<
                    Seq<char>,
                    Seq<char>,
                >(e@),
            },
    {
        if self.resource_policy != CoreResourcePolicy::PublicUnpacked {
            return Err(owned(URL_POLICY_MESSAGE));
        }
        if let Some(resources) = self.missing_manifest_resources() {
            let ghost texts = requests_text(resources@);
            let mut e = owned("publication metadata missing for package URL resolution: ");
            let ghost start = e@;
            let mut i: usize = 0;
            while i < resources.len()
                invariant
                    i <= resources@.len(),
                    texts == requests_text(resources@),
                    e@ == start + joined_by(request_ids(texts.take(i as int)), ", "@),
                decreases resources@.len() - i,
            {
                let ghost before = request_ids(texts.take(i as int));
                if i > 0 {
                    push_str(&mut e, ", ");
                }
                push_str(&mut e, resources[i].id.as_str());
                proof {
                    let after = request_ids(texts.take(i + 1));
                    assert(after.drop_last() =~= before);
                    assert(after.last() == resources@[i as int].id@);
                    assert(e@ =~= start + joined_by(after, ", "@));
                }
                i = i + 1;
            }
            assert(texts.take(resources@.len() as int) =~= texts);
            return Err(e);
        }
        let package = self.matching_package(PackageKey::Id, package_id)?;
        self.package_member_address(package, member_path)
    }

    /// The navigation database candidates of the loaded bundles, or the
    /// publication metadata still to fetch.
    pub fn nav_db_artifact_candidates(&self) -> (r: Result<
        Result<Vec<NavDbArtifactCandidate>, Vec<CoreResourceRequest>>,
        String,
    >)
        ensures
            match self.missing() {
                Some(rs) => r matches Ok(Err(req)) && requests_text(req@) == rs,
                None => match self.nav_db_candidates_of(all_packages(self.bundles())) {
                    Ok(cs) => r matches Ok(Ok(c)) && candidates_text(c@) == cs,
                    Err(msg) => r matches Err(e) && e@ == msg,
                },
            },
    {
        if let Some(resources) = self.missing_manifest_resources() {
            return Ok(Err(resources));
        }
        let packages = self.loaded_bundle_packages();
        let mut candidates: Vec<NavDbArtifactCandidate> = Vec::new();
        let mut i: usize = 0;
        assert(packages@.take(0) =~= Seq::<BundlePackageArtifact>::empty());
        assert(candidates_text(candidates@) =~= Seq::<CandidateText>::empty());
        while i < packages.len()
            invariant
                i <= packages@.len(),
                self.missing() is None,
                packages@ == all_packages(self.bundles()),
                self.nav_db_candidates_of(packages@.take(i as int)) == Ok::<
                    Seq<CandidateText>,
                    Seq<char>,
                >(candidates_text(candidates@)),
            decreases packages@.len() - i,
        {
            let p = &packages[i];
            let ghost prev = candidates_text(candidates@);
            assert(packages@.take(i + 1).drop_last() =~= packages@.take(i as int));
            assert(packages@.take(i + 1).last() == *p);
            if str_eq(p.family_id.as_str(), "nav-db") && p.contract_supported {
                let root = match self.package_member_source(p, "root") {
                    Ok(src) => src,
                    Err(e) => {
                        proof {
                            assert(self.nav_db_candidates_of(packages@.take(i + 1)) == Err::<Seq<CandidateText>, Seq<char>>(e@));
                            lemma_candidates_error_stays(*self, packages@, i as int + 1);
                        }
                        return Err(e);
                    },
                };
                let c = NavDbArtifactCandidate {
                    package_id: p.id.clone(),
                    filename: p.filename.clone(),
                    contract_id: Some(p.contract_id.clone()),
                    cycle: duplicate_text(&p.cycle),
                    cycle_version: duplicate_text(&p.cycle_version),
                    effective_date: duplicate_text(&p.effective_date),
                    expiration_date: duplicate_text(&p.expiration_date),
                    warning_text: duplicate_text(&p.warning_text),
                    root_source: Some(root),
                };
                assert(c@ == package_candidate(*p, root@));
                candidates.push(c);
                assert(candidates_text(candidates@) =~= prev.push(c@));
                assert(self.nav_db_candidates_of(packages@.take(i + 1)) == Ok::<Seq<CandidateText>, Seq<char>>(prev.push(package_candidate(*p, root@))));
            } else {
                assert(!is_nav_db_package(*p));
                assert(self.nav_db_candidates_of(packages@.take(i + 1)) == Ok::<Seq<CandidateText>, Seq<char>>(prev));
            }
            i = i + 1;
        }
        assert(packages@.take(packages@.len() as int) =~= packages@);
        Ok(Ok(candidates))
    }

    /// Loads the offline package catalog: its latest publication becomes
    /// current, checked at the catalog's fetch time, and its bundle
    /// manifests replace the loaded ones.
    pub fn load_offline_library_cache(&mut self, cache: &OfflinePackagesLibraryCache) -> (r: Result<
        (),
        String,
    >)
        ensures
            r is Ok,
            same_manifest_opt(final(self).current(), latest_manifest(cache.discovery_manifests@)),
            final(self).checked() == if latest_manifest(cache.discovery_manifests@) is Some {
                Some(cache.fetched_at_epoch_ms)
            } else {
                None
            },
            same_entries(final(self).bundles(), cache.bundle_manifests_by_filename.entries()),
            final(self).base() == old(self).base(),
            final(self).policy() == old(self).policy(),
    {
        let mut manifests: Vec<CurrentArtifactsManifest> = Vec::new();
        let mut i: usize = 0;
        while i < cache.discovery_manifests.len()
            invariant
                i <= cache.discovery_manifests@.len(),
                manifests@.len() == i,
                forall|k: int| 0 <= k < i ==> same_manifest(#[trigger] manifests@[k], cache.discovery_manifests@[k]),
            decreases cache.discovery_manifests@.len() - i,
        {
            manifests.push(cache.discovery_manifests[i].duplicate());
            i = i + 1;
        }
        proof {
            lemma_latest_same(manifests@, cache.discovery_manifests@);
        }
        let latest = take_latest_manifest(manifests);
        self.current_artifacts_checked_epoch_ms = if latest.is_some() {
            Some(cache.fetched_at_epoch_ms)
        } else {
            None
        };
        self.current_artifacts = latest;
        self.bundle_manifests_by_filename = cache.bundle_manifests_by_filename.duplicate();
        Ok(())
    }

    /// Takes in the supported publications that were just fetched: the
    /// latest becomes current, loaded bundle manifests that it does not list
    /// are forgotten, and the check time is kept when there is a publication.
    pub fn ingest_current_artifacts_manifests(
        &mut self,
        manifests: Vec<CurrentArtifactsManifest>,
        checked_epoch_ms: Option<i64>,
    )
        ensures
            final(self).current() == latest_manifest(manifests@),
            final(self).bundles() == retained(
                old(self).bundles(),
                referenced_bundles(latest_manifest(manifests@)),
            ),
            final(self).checked() == if latest_manifest(manifests@) is Some {
                checked_epoch_ms
            } else {
                None
            },
            final(self).base() == old(self).base(),
            final(self).policy() == old(self).policy(),
    {
        let latest = take_latest_manifest(manifests);
        let keep = bundle_filenames(&latest);
        self.bundle_manifests_by_filename.retain_keys(&keep);
        self.current_artifacts_checked_epoch_ms = if latest.is_some() {
            checked_epoch_ms
        } else {
            None
        };
        self.current_artifacts = latest;
    }

    /// Takes in a bundle manifest that was just fetched.
    pub fn ingest_bundle_manifest(&mut self, filename: String, bundle: BundleManifest)
        ensures
            final(self).bundles() == sorted_insert(old(self).bundles(), filename, bundle),
            final(self).current() == old(self).current(),
            final(self).checked() == old(self).checked(),
            final(self).base() == old(self).base(),
            final(self).policy() == old(self).policy(),
    {
        self.bundle_manifests_by_filename.insert(filename, bundle);
    }
}

/// A fetched publication resource, decoded: the list of current
/// publications this build supports, or one bundle manifest.
pub enum FetchedPublication {
    CurrentArtifacts { manifests: Vec<CurrentArtifactsManifest> },
    Bundle { filename: String, manifest: BundleManifest },
}

/// `after` is `before` once it has taken in `fetched`, the check time being
/// `checked` for a list of publications.
pub open spec fn ingested(
    before: PublicationResolver,
    fetched: FetchedPublication,
    checked: Option<i64>,
    after: PublicationResolver,
) -> bool {
    &&& after.base() == before.base()
    &&& after.policy() == before.policy()
    &&& match fetched {
        FetchedPublication::CurrentArtifacts { manifests } => {
            &&& after.current() == latest_manifest(manifests@)
            &&& after.bundles() == retained(
                before.bundles(),
                referenced_bundles(latest_manifest(manifests@)),
            )
            &&& after.checked() == if latest_manifest(manifests@) is Some {
                checked
            } else {
                None
            }
        },
        FetchedPublication::Bundle { filename, manifest } => {
            &&& after.bundles() == sorted_insert(before.bundles(), filename, manifest)
            &&& after.current() == before.current()
            &&& after.checked() == before.checked()
        },
    }
}

impl PublicationResolver {
    /// Takes in a fetched publication resource.
    pub fn ingest_resource(&mut self, fetched: FetchedPublication)
        ensures
            ingested(*old(self), fetched, None, *final(self)),
    {
        self.ingest_fetched(fetched, None)
    }

    /// Takes in a fetched publication resource, noting when the list of
    /// current publications was checked.
    pub fn ingest_resource_at_epoch_ms(&mut self, fetched: FetchedPublication, epoch_ms: i64)
        ensures
            ingested(*old(self), fetched, Some(epoch_ms), *final(self)),
    {
        self.ingest_fetched(fetched, Some(epoch_ms))
    }

    fn ingest_fetched(&mut self, fetched: FetchedPublication, checked_epoch_ms: Option<i64>)
        ensures
            ingested(*old(self), fetched, checked_epoch_ms, *final(self)),
    {
        match fetched {
            FetchedPublication::CurrentArtifacts { manifests } => {
                self.ingest_current_artifacts_manifests(manifests, checked_epoch_ms);
            },
            FetchedPublication::Bundle { filename, manifest } => {
                self.ingest_bundle_manifest(filename, manifest);
            },
        }
    }
}

/// Two publications with the same roots, date and bundles.
pub open spec fn same_manifest(a: CurrentArtifactsManifest, b: CurrentArtifactsManifest) -> bool {
    a.artifact_roots == b.artifact_roots && a.as_of_utc == b.as_of_utc && a.bundles@ == b.bundles@
}

/// Both absent, or both present and the same.
pub open spec fn same_manifest_opt(a: Option<CurrentArtifactsManifest>, b: Option<CurrentArtifactsManifest>) -> bool {
    match (a, b) {
        (None, None) => true,
        (Some(x), Some(y)) => same_manifest(x, y),
        _ => false,
    }
}

proof fn lemma_latest_same(a: Seq<CurrentArtifactsManifest>, b: Seq<CurrentArtifactsManifest>)
    requires
        a.len() == b.len(),
        forall|k: int| 0 <= k < a.len() ==> same_manifest(#[trigger] a[k], b[k]),
    ensures
        same_manifest_opt(latest_manifest(a), latest_manifest(b)),
    decreases a.len(),
{
    if a.len() > 0 {
        assert forall|k: int| 0 <= k < a.drop_last().len() implies same_manifest(#[trigger] a.drop_last()[k], b.drop_last()[k]) by {
            assert(a.drop_last()[k] == a[k]);
            assert(b.drop_last()[k] == b[k]);
        }
        lemma_latest_same(a.drop_last(), b.drop_last());
        assert(same_manifest(a[a.len() - 1], b[a.len() - 1]));
    }
}

impl CurrentArtifactsBundleRef {
    /// A copy of this bundle reference.
    pub fn duplicate(&self) -> (r: CurrentArtifactsBundleRef)
        ensures
            r == *self,
    {
        CurrentArtifactsBundleRef {
            filename: self.filename.clone(),
            relative_path: self.relative_path.clone(),
        }
    }
}

impl CurrentArtifactsManifest {
    /// A copy of this publication.
    pub fn duplicate(&self) -> (r: CurrentArtifactsManifest)
        ensures
            same_manifest(r, *self),
    {
        let mut bundles: Vec<CurrentArtifactsBundleRef> = Vec::new();
        let mut i: usize = 0;
        while i < self.bundles.len()
            invariant
                i <= self.bundles@.len(),
                bundles@ == self.bundles@.take(i as int),
            decreases self.bundles@.len() - i,
        {
            bundles.push(self.bundles[i].duplicate());
            assert(bundles@ =~= self.bundles@.take(i + 1));
            i = i + 1;
        }
        assert(bundles@ =~= self.bundles@);
        CurrentArtifactsManifest {
            artifact_roots: CurrentArtifactsArtifactRoots {
                packaged: self.artifact_roots.packaged.clone(),
                unpacked: self.artifact_roots.unpacked.clone(),
            },
            as_of_utc: duplicate_text(&self.as_of_utc),
            bundles,
        }
    }
}

/// Whether some installed file has this filename.
pub open spec fn installed_has(installed: Seq<InstalledArtifact>, filename: Seq<char>) -> bool {
    exists|i: int| 0 <= i < installed.len() && #[trigger] installed[i].filename@ == filename
}

/// The candidate of an installed package: its root member inside the
/// installed file.
pub open spec fn installed_package_candidate(p: BundlePackageArtifact) -> CandidateText {
    package_candidate(p, SourceText::InstalledArtifactMember(p.filename@, "root"@))
}

/// The candidate of an installed package.
pub fn installed_nav_db_package_candidate(package: &BundlePackageArtifact) -> (r: NavDbArtifactCandidate)
    ensures
        r@ == installed_package_candidate(*package),
{
    NavDbArtifactCandidate {
        package_id: package.id.clone(),
        filename: package.filename.clone(),
        contract_id: Some(package.contract_id.clone()),
        cycle: duplicate_text(&package.cycle),
        cycle_version: duplicate_text(&package.cycle_version),
        effective_date: duplicate_text(&package.effective_date),
        expiration_date: duplicate_text(&package.expiration_date),
        warning_text: duplicate_text(&package.warning_text),
        root_source: Some(CoreResourceSource::InstalledArtifactMember {
            filename: package.filename.clone(),
            member_path: owned("root"),
        }),
    }
}

/// The candidates of the installed, supported navigation database packages
/// of a catalog, in catalog order.
pub open spec fn installed_catalog_candidates(
    pkgs: Seq<BundlePackageArtifact>,
    installed: Seq<InstalledArtifact>,
) -> Seq<CandidateText>
    decreases pkgs.len(),
{
    if pkgs.len() == 0 {
        Seq::empty()
    } else {
        let before = installed_catalog_candidates(pkgs.drop_last(), installed);
        if is_nav_db_package(pkgs.last()) && installed_has(installed, pkgs.last().filename@) {
            before.push(installed_package_candidate(pkgs.last()))
        } else {
            before
        }
    }
}

/// The candidate of an installed file known only by its name.
pub open spec fn bare_installed_candidate(a: InstalledArtifact) -> CandidateText {
    CandidateText {
        package_id: a.artifact_id@,
        filename: a.filename@,
        contract_id: None,
        cycle: None,
        cycle_version: None,
        effective_date: None,
        expiration_date: None,
        warning_text: None,
        root_source: Some(SourceText::InstalledArtifactMember(a.filename@, "root"@)),
    }
}

/// Whether one optional text comes strictly before another (absent first).
pub open spec fn opt_text_less(a: Option<Seq<char>>, b: Option<Seq<char>>) -> bool {
    match (a, b) {
        (None, Some(_)) => true,
        (Some(x), Some(y)) => text_less(x, y),
        _ => false,
    }
}

/// Candidate order: by effective date, then expiration date, then filename.
pub open spec fn candidate_less(a: CandidateText, b: CandidateText) -> bool {
    opt_text_less(a.effective_date, b.effective_date) || (a.effective_date == b.effective_date && (
    opt_text_less(a.expiration_date, b.expiration_date) || (a.expiration_date == b.expiration_date
        && text_less(a.filename, b.filename))))
}

/// `sorted` with `c` put after every candidate that does not come after it.
pub open spec fn insert_in_order(sorted: Seq<CandidateText>, c: CandidateText) -> Seq<CandidateText>
    decreases sorted.len(),
{
    if sorted.len() == 0 {
        seq![c]
    } else if candidate_less(c, sorted.last()) {
        insert_in_order(sorted.drop_last(), c).push(sorted.last())
    } else {
        sorted.push(c)
    }
}

/// The candidates in candidate order, equal candidates in their given order.
pub open spec fn stable_sorted(s: Seq<CandidateText>) -> Seq<CandidateText>
    decreases s.len(),
{
    if s.len() == 0 {
        Seq::empty()
    } else {
        insert_in_order(stable_sorted(s.drop_last()), s.last())
    }
}

proof fn lemma_insert_position(s: Seq<CandidateText>, c: CandidateText, p: int)
    requires
        0 <= p <= s.len(),
        forall|k: int| p <= k < s.len() ==> candidate_less(c, #[trigger] s[k]),
        p == 0 || !candidate_less(c, s[p - 1]),
    ensures
        insert_in_order(s, c) == s.take(p).push(c) + s.skip(p),
    decreases s.len(),
{
    if s.len() == p {
        if p == 0 {
            assert(s.take(0).push(c) + s.skip(0) =~= seq![c]);
        } else {
            assert(s.take(p).push(c) + s.skip(p) =~= s.push(c));
        }
    } else {
        assert(candidate_less(c, s[s.len() - 1]));
        let d = s.drop_last();
        assert forall|k: int| p <= k < d.len() implies candidate_less(c, #[trigger] d[k]) by {
            assert(d[k] == s[k]);
        }
        if p > 0 {
            assert(d[p - 1] == s[p - 1]);
        }
        lemma_insert_position(d, c, p);
        assert(d.take(p) =~= s.take(p));
        assert((d.take(p).push(c) + d.skip(p)).push(s.last()) =~= s.take(p).push(c) + s.skip(p));
    }
}

fn opt_text_less_exec(a: &Option<String>, b: &Option<String>) -> (r: bool)
    ensures
        r == opt_text_less(text_of(*a), text_of(*b)),
{
    match (a, b) {
        (None, Some(_)) => true,
        (Some(x), Some(y)) => str_less(x.as_str(), y.as_str()),
        _ => false,
    }
}

fn opt_text_eq(a: &Option<String>, b: &Option<String>) -> (r: bool)
    ensures
        r == (text_of(*a) == text_of(*b)),
{
    match (a, b) {
        (None, None) => true,
        (Some(x), Some(y)) => str_eq(x.as_str(), y.as_str()),
        _ => false,
    }
}

fn candidate_less_exec(a: &NavDbArtifactCandidate, b: &NavDbArtifactCandidate) -> (r: bool)
    ensures
        r == candidate_less(a@, b@),
{
    opt_text_less_exec(&a.effective_date, &b.effective_date) || (opt_text_eq(
        &a.effective_date,
        &b.effective_date,
    ) && (opt_text_less_exec(&a.expiration_date, &b.expiration_date) || (opt_text_eq(
        &a.expiration_date,
        &b.expiration_date,
    ) && str_less(a.filename.as_str(), b.filename.as_str()))))
}

fn sort_candidates(items: Vec<NavDbArtifactCandidate>) -> (r: Vec<NavDbArtifactCandidate>)
    ensures
        candidates_text(r@) == stable_sorted(candidates_text(items@)),
{
    let ghost texts = candidates_text(items@);
    let mut items = items;
    let mut sorted: Vec<NavDbArtifactCandidate> = Vec::new();
    let n = items.len();
    let mut i: usize = 0;
    while i < n
        invariant
            n == texts.len(),
            i <= n,
            items@.len() == n - i,
            forall|k: int| 0 <= k < items@.len() ==> #[trigger] items@[k]@ == texts[i + k],
            candidates_text(sorted@) == stable_sorted(texts.take(i as int)),
        decreases n - i,
    {
        let ghost before = items@;
        assert(before[0]@ == texts[i as int]);
        let c = items.remove(0);
        assert(c@ == texts[i as int]);
        assert forall|k: int| 0 <= k < items@.len() implies #[trigger] items@[k]@ == texts[i + 1 + k] by {
            assert(items@[k] == before[k + 1]);
            assert(before[k + 1]@ == texts[i + (k + 1)]);
        }
        let ghost st = candidates_text(sorted@);
        let mut p: usize = sorted.len();
        while p > 0 && candidate_less_exec(&c, &sorted[p - 1])
            invariant
                p <= sorted@.len(),
                st == candidates_text(sorted@),
                forall|k: int| p <= k < sorted@.len() ==> candidate_less(c@, #[trigger] st[k]),
            decreases p,
        {
            p = p - 1;
        }
        proof {
            lemma_insert_position(st, c@, p as int);
            assert(texts.take(i + 1).drop_last() =~= texts.take(i as int));
            assert(texts.take(i + 1).last() == c@);
        }
        sorted.insert(p, c);
        assert(candidates_text(sorted@) =~= st.take(p as int).push(c@) + st.skip(p as int));
        i = i + 1;
    }
    assert(texts.take(n as int) =~= texts);
    sorted
}

/// The navigation database candidates among installed files: from the
/// offline catalog, sorted, when the catalog knows any installed package;
/// otherwise one bare candidate for each installed file.
pub fn nav_db_artifact_candidates_from_installed_artifacts(
    installed: &[InstalledArtifact],
    library_cache: Option<&OfflinePackagesLibraryCache>,
) -> (r: Result<Vec<NavDbArtifactCandidate>, String>)
    ensures
        r matches Ok(cs) && candidates_text(cs@) == match library_cache {
            Some(cache) if stable_sorted(
                installed_catalog_candidates(
                    all_packages(cache.bundle_manifests_by_filename.entries()),
                    installed@,
                ),
            ).len() > 0 => stable_sorted(
                installed_catalog_candidates(
                    all_packages(cache.bundle_manifests_by_filename.entries()),
                    installed@,
                ),
            ),
            _ => installed@.map_values(|a: InstalledArtifact| bare_installed_candidate(a)),
        },
{
    if let Some(cache) = library_cache {
        let mut resolver = PublicationResolver::with_resource_policy(
            cache.package_source_base_url.as_str(),
            CoreResourcePolicy::InstalledPackage,
        );
        let _ = resolver.load_offline_library_cache(cache);
        let packages = resolver.loaded_bundle_packages();
        proof {
            lemma_same_entries_packages(resolver.bundles(), cache.bundle_manifests_by_filename.entries());
        }
        let mut candidates: Vec<NavDbArtifactCandidate> = Vec::new();
        let mut i: usize = 0;
        while i < packages.len()
            invariant
                i <= packages@.len(),
                candidates_text(candidates@) == installed_catalog_candidates(packages@.take(i as int), installed@),
            decreases packages@.len() - i,
        {
            let p = &packages[i];
            assert(packages@.take(i + 1).drop_last() =~= packages@.take(i as int));
            assert(packages@.take(i + 1).last() == *p);
            let ghost prev = candidates_text(candidates@);
            if str_eq(p.family_id.as_str(), "nav-db") && p.contract_supported && installed_contains(installed, p.filename.as_str()) {
                let c = installed_nav_db_package_candidate(p);
                candidates.push(c);
                assert(candidates_text(candidates@) =~= prev.push(c@));
            }
            i = i + 1;
        }
        assert(packages@.take(packages@.len() as int) =~= packages@);
        let sorted = sort_candidates(candidates);
        if sorted.len() > 0 {
            return Ok(sorted);
        }
    }
    let mut r: Vec<NavDbArtifactCandidate> = Vec::new();
    let mut i: usize = 0;
    while i < installed.len()
        invariant
            i <= installed@.len(),
            r@.len() == i,
            forall|k: int| 0 <= k < i ==> #[trigger] r@[k]@ == bare_installed_candidate(installed@[k]),
        decreases installed@.len() - i,
    {
        let a = &installed[i];
        let c = NavDbArtifactCandidate {
            package_id: a.artifact_id.clone(),
            filename: a.filename.clone(),
            contract_id: None,
            cycle: None,
            cycle_version: None,
            effective_date: None,
            expiration_date: None,
            warning_text: None,
            root_source: Some(CoreResourceSource::InstalledArtifactMember {
                filename: a.filename.clone(),
                member_path: owned("root"),
            }),
        };
        assert(c@ == bare_installed_candidate(installed@[i as int]));
        r.push(c);
        i = i + 1;
    }
    assert(candidates_text(r@) =~= installed@.map_values(|a: InstalledArtifact| bare_installed_candidate(a)));
    Ok(r)
}

fn installed_contains(installed: &[InstalledArtifact], filename: &str) -> (r: bool)
    ensures
        r == installed_has(installed@, filename@),
{
    let mut i: usize = 0;
    while i < installed.len()
        invariant
            i <= installed@.len(),
            forall|k: int| 0 <= k < i ==> installed@[k].filename@ != filename@,
        decreases installed@.len() - i,
    {
        if str_eq(installed[i].filename.as_str(), filename) {
            assert(installed@[i as int].filename@ == filename@);
            return true;
        }
        i = i + 1;
    }
    false
}

proof fn lemma_candidates_error_stays(r: PublicationResolver, pkgs: Seq<BundlePackageArtifact>, k: int)
    requires
        0 <= k <= pkgs.len(),
        r.nav_db_candidates_of(pkgs.take(k)) is Err,
    ensures
        r.nav_db_candidates_of(pkgs) == r.nav_db_candidates_of(pkgs.take(k)),
    decreases pkgs.len() - k,
{
    if k < pkgs.len() {
        assert(pkgs.take(k + 1).drop_last() =~= pkgs.take(k));
        lemma_candidates_error_stays(r, pkgs, k + 1);
    } else {
        assert(pkgs.take(k) =~= pkgs);
    }
}

} // verus!

verus! {

/// The data contracts that this build can read, by id.
pub struct SupportedContracts {
    pub contract_ids: Vec<String>,
}

/// `id` is among the supported contract ids `ids`.
pub open spec fn supports_contract(ids: Seq<Seq<char>>, id: Seq<char>) -> bool {
    exists|k: int| 0 <= k < ids.len() && #[trigger] ids[k] == id
}

impl SupportedContracts {
    /// Whether this build reads the contract `contract_id`.
    pub fn supports(&self, contract_id: &str) -> (r: bool)
        ensures
            r == supports_contract(string_texts(self.contract_ids@), contract_id@),
    {
        let ghost ids = string_texts(self.contract_ids@);
        let mut i: usize = 0;
        while i < self.contract_ids.len()
            invariant
                i <= self.contract_ids.len(),
                ids == string_texts(self.contract_ids@),
                forall|k: int| 0 <= k < i ==> ids[k] != contract_id@,
            decreases self.contract_ids.len() - i,
        {
            if str_eq(self.contract_ids[i].as_str(), contract_id) {
                assert(ids[i as int] == contract_id@);
                return true;
            }
            i = i + 1;
        }
        false
    }
}

/// A publication listed as current, with the ids of the data contracts it
/// declares.
pub struct ManifestCandidate {
    pub contract_ids: Vec<String>,
    pub manifest: CurrentArtifactsManifest,
}

/// Every contract in `contracts` is among `supported`.
pub open spec fn all_contracts_supported(supported: Seq<Seq<char>>, contracts: Seq<Seq<char>>) -> bool {
    forall|k: int| 0 <= k < contracts.len() ==> supports_contract(supported, #[trigger] contracts[k])
}

/// The publications of `cs` whose declared contracts are all supported, in
/// their order.
pub open spec fn supported_manifest_list(supported: Seq<Seq<char>>, cs: Seq<ManifestCandidate>) -> Seq<
    CurrentArtifactsManifest,
>
    decreases cs.len(),
{
    if cs.len() == 0 {
        Seq::empty()
    } else {
        let rest = supported_manifest_list(supported, cs.drop_last());
        if all_contracts_supported(supported, string_texts(cs.last().contract_ids@)) {
            rest.push(cs.last().manifest)
        } else {
            rest
        }
    }
}

/// Whether this build reads every contract of `contract_ids`.
pub fn supports_all(supported: &SupportedContracts, contract_ids: &Vec<String>) -> (r: bool)
    ensures
        r == all_contracts_supported(string_texts(supported.contract_ids@), string_texts(contract_ids@)),
{
    let ghost cs = string_texts(contract_ids@);
    let mut i: usize = 0;
    while i < contract_ids.len()
        invariant
            i <= contract_ids.len(),
            cs == string_texts(contract_ids@),
            forall|k: int| 0 <= k < i ==> supports_contract(string_texts(supported.contract_ids@), #[trigger] cs[k]),
        decreases contract_ids.len() - i,
    {
        if !supported.supports(contract_ids[i].as_str()) {
            assert(!supports_contract(string_texts(supported.contract_ids@), cs[i as int]));
            return false;
        }
        i = i + 1;
    }
    true
}

/// The publications listed as current that this build can read: those whose
/// declared contracts it all supports, in their order.
pub fn select_supported_manifests(supported: &SupportedContracts, candidates: &Vec<ManifestCandidate>) -> (r:
    Vec<CurrentArtifactsManifest>)
    ensures
        r@.len() == supported_manifest_list(string_texts(supported.contract_ids@), candidates@).len(),
        forall|k: int|
            0 <= k < r@.len() ==> same_manifest(
                #[trigger] r@[k],
                supported_manifest_list(string_texts(supported.contract_ids@), candidates@)[k],
            ),
{
    let ghost s = string_texts(supported.contract_ids@);
    let mut r: Vec<CurrentArtifactsManifest> = Vec::new();
    let mut i: usize = 0;
    while i < candidates.len()
        invariant
            i <= candidates.len(),
            s == string_texts(supported.contract_ids@),
            r@.len() == supported_manifest_list(s, candidates@.take(i as int)).len(),
            forall|k: int|
                0 <= k < r@.len() ==> same_manifest(
                    #[trigger] r@[k],
                    supported_manifest_list(s, candidates@.take(i as int))[k],
                ),
        decreases candidates.len() - i,
    {
        let ghost prev = supported_manifest_list(s, candidates@.take(i as int));
        assert(candidates@.take(i + 1).drop_last() =~= candidates@.take(i as int));
        if supports_all(supported, &candidates[i].contract_ids) {
            r.push(candidates[i].manifest.duplicate());
        }
        i = i + 1;
    }
    assert(candidates@.take(candidates@.len() as int) =~= candidates@);
    r
}

} // verus!

verus! {

proof fn lemma_opt_text_order(a: Option<Seq<char>>, b: Option<Seq<char>>, c: Option<Seq<char>>)
    ensures
        !opt_text_less(a, a),
        a == b || opt_text_less(a, b) || opt_text_less(b, a),
        opt_text_less(a, b) ==> !opt_text_less(b, a),
        opt_text_less(a, b) && opt_text_less(b, c) ==> opt_text_less(a, c),
{
    match (a, b, c) {
        (Some(x), Some(y), Some(z)) => {
            lemma_text_less_irreflexive(x);
            lemma_text_less_total(x, y);
            lemma_text_less_asymmetric(x, y);
            if text_less(x, y) && text_less(y, z) {
                lemma_text_less_transitive(x, y, z);
            }
        },
        (Some(x), Some(y), None) => {
            lemma_text_less_irreflexive(x);
            lemma_text_less_total(x, y);
            lemma_text_less_asymmetric(x, y);
        },
        (Some(x), None, _) => {
            lemma_text_less_irreflexive(x);
        },
        _ => {},
    }
}

/// Candidate order is a strict weak order: never both ways, and what comes
/// before a candidate comes before anything that does not come before it.
proof fn lemma_candidate_order(a: CandidateText, b: CandidateText, c: CandidateText)
    ensures
        candidate_less(a, b) ==> !candidate_less(b, a),
        !candidate_less(a, b) && !candidate_less(b, c) ==> !candidate_less(a, c),
{
    lemma_opt_text_order(a.effective_date, b.effective_date, c.effective_date);
    lemma_opt_text_order(b.effective_date, c.effective_date, a.effective_date);
    lemma_opt_text_order(c.effective_date, a.effective_date, b.effective_date);
    lemma_opt_text_order(a.effective_date, c.effective_date, b.effective_date);
    lemma_opt_text_order(b.effective_date, a.effective_date, c.effective_date);
    lemma_opt_text_order(c.effective_date, b.effective_date, a.effective_date);
    lemma_opt_text_order(a.expiration_date, b.expiration_date, c.expiration_date);
    lemma_opt_text_order(b.expiration_date, c.expiration_date, a.expiration_date);
    lemma_opt_text_order(c.expiration_date, a.expiration_date, b.expiration_date);
    lemma_opt_text_order(a.expiration_date, c.expiration_date, b.expiration_date);
    lemma_opt_text_order(b.expiration_date, a.expiration_date, c.expiration_date);
    lemma_opt_text_order(c.expiration_date, b.expiration_date, a.expiration_date);
    lemma_opt_text_order(Some(a.filename), Some(b.filename), Some(c.filename));
    lemma_opt_text_order(Some(b.filename), Some(c.filename), Some(a.filename));
    lemma_opt_text_order(Some(c.filename), Some(a.filename), Some(b.filename));
    lemma_opt_text_order(Some(a.filename), Some(c.filename), Some(b.filename));
    lemma_opt_text_order(Some(b.filename), Some(a.filename), Some(c.filename));
    lemma_opt_text_order(Some(c.filename), Some(b.filename), Some(a.filename));
}

/// No candidate of `s` comes before an earlier one.
pub open spec fn candidates_in_order(s: Seq<CandidateText>) -> bool {
    forall|i: int, j: int| 0 <= i < j < s.len() ==> !candidate_less(#[trigger] s[j], #[trigger] s[i])
}

proof fn lemma_insert_in_order(s: Seq<CandidateText>, c: CandidateText)
    requires
        candidates_in_order(s),
    ensures
        candidates_in_order(insert_in_order(s, c)),
        insert_in_order(s, c).len() == s.len() + 1,
        forall|k: int|
            0 <= k < insert_in_order(s, c).len() ==> #[trigger] insert_in_order(s, c)[k] == c || s.contains(
                insert_in_order(s, c)[k],
            ),
    decreases s.len(),
{
    if s.len() > 0 {
        let last = s.last();
        let d = s.drop_last();
        if candidate_less(c, last) {
            assert(candidates_in_order(d));
            lemma_insert_in_order(d, c);
            let t = insert_in_order(d, c);
            let u = t.push(last);
            assert forall|k: int| 0 <= k < u.len() implies #[trigger] u[k] == c || s.contains(u[k]) by {
                if k < t.len() {
                    if t[k] != c {
                        let m = choose|m: int| 0 <= m < d.len() && d[m] == t[k];
                        assert(s[m] == t[k]);
                    }
                } else {
                    assert(s[s.len() - 1] == last);
                }
            }
            assert forall|i: int, j: int| 0 <= i < j < u.len() implies !candidate_less(
                #[trigger] u[j],
                #[trigger] u[i],
            ) by {
                if j == t.len() {
                    assert(u[j] == last);
                    assert(u[i] == t[i]);
                    if t[i] == c {
                        lemma_candidate_order(c, last, c);
                    } else {
                        let m = choose|m: int| 0 <= m < d.len() && d[m] == t[i];
                        assert(s[m] == t[i]);
                        assert(!candidate_less(s[s.len() - 1], s[m]));
                    }
                } else {
                    assert(u[i] == t[i] && u[j] == t[j]);
                }
            }
        } else {
            let u = s.push(c);
            assert forall|i: int, j: int| 0 <= i < j < u.len() implies !candidate_less(
                #[trigger] u[j],
                #[trigger] u[i],
            ) by {
                if j == s.len() {
                    if i < s.len() - 1 {
                        assert(!candidate_less(s[s.len() - 1], s[i]));
                        lemma_candidate_order(c, last, s[i]);
                    }
                } else {
                    assert(u[i] == s[i] && u[j] == s[j]);
                }
            }
            assert forall|k: int| 0 <= k < u.len() implies #[trigger] u[k] == c || s.contains(u[k]) by {
                if k < s.len() {
                    assert(u[k] == s[k]);
                }
            }
        }
    }
}

proof fn lemma_stable_sorted(s: Seq<CandidateText>)
    ensures
        candidates_in_order(stable_sorted(s)),
        stable_sorted(s).len() == s.len(),
        forall|k: int| 0 <= k < stable_sorted(s).len() ==> s.contains(#[trigger] stable_sorted(s)[k]),
    decreases s.len(),
{
    if s.len() > 0 {
        let d = s.drop_last();
        lemma_stable_sorted(d);
        lemma_insert_in_order(stable_sorted(d), s.last());
        let u = stable_sorted(s);
        assert forall|k: int| 0 <= k < u.len() implies s.contains(#[trigger] u[k]) by {
            if u[k] == s.last() {
                assert(s[s.len() - 1] == s.last());
            } else {
                let m = choose|m: int| 0 <= m < stable_sorted(d).len() && stable_sorted(d)[m] == u[k];
                let n = choose|n: int| 0 <= n < d.len() && d[n] == stable_sorted(d)[m];
                assert(s[n] == d[n]);
            }
        }
    }
}

proof fn lemma_catalog_candidates_installed(pkgs: Seq<BundlePackageArtifact>, installed: Seq<InstalledArtifact>)
    ensures
        forall|k: int|
            0 <= k < installed_catalog_candidates(pkgs, installed).len() ==> installed_has(
                installed,
                (#[trigger] installed_catalog_candidates(pkgs, installed)[k]).filename,
            ),
    decreases pkgs.len(),
{
    if pkgs.len() > 0 {
        lemma_catalog_candidates_installed(pkgs.drop_last(), installed);
        let before = installed_catalog_candidates(pkgs.drop_last(), installed);
        let all = installed_catalog_candidates(pkgs, installed);
        assert forall|k: int| 0 <= k < all.len() implies installed_has(installed, (#[trigger] all[k]).filename) by {
            if k < before.len() {
                assert(all[k] == before[k]);
            }
        }
    }
}

/// The installed navigation databases that a library catalogue knows come
/// ordered by effective date, then expiration date, then file name, and
/// each is a file that is installed.
pub proof fn law_installed_candidates_are_ordered_and_installed(
    pkgs: Seq<BundlePackageArtifact>,
    installed: Seq<InstalledArtifact>,
)
    ensures
        candidates_in_order(stable_sorted(installed_catalog_candidates(pkgs, installed))),
        forall|k: int|
            0 <= k < stable_sorted(installed_catalog_candidates(pkgs, installed)).len() ==> installed_has(
                installed,
                (#[trigger] stable_sorted(installed_catalog_candidates(pkgs, installed))[k]).filename,
            ),
{
    let c = installed_catalog_candidates(pkgs, installed);
    lemma_stable_sorted(c);
    lemma_catalog_candidates_installed(pkgs, installed);
    let s = stable_sorted(c);
    assert forall|k: int| 0 <= k < s.len() implies installed_has(installed, (#[trigger] s[k]).filename) by {
        let m = choose|m: int| 0 <= m < c.len() && c[m] == s[k];
        assert(installed_has(installed, c[m].filename));
    }
}

} // verus!

verus! {

proof fn lemma_missing_bundle_requests(
    base: Seq<char>,
    manifest: CurrentArtifactsManifest,
    bundles: Seq<CurrentArtifactsBundleRef>,
    entries: Seq<(String, BundleManifest)>,
)
    ensures
        missing_bundle_requests(base, manifest, bundles, entries).len() == 0 <==> forall|k: int|
            0 <= k < bundles.len() ==> has_key(entries, (#[trigger] bundles[k]).filename@),
        forall|i: int|
            0 <= i < missing_bundle_requests(base, manifest, bundles, entries).len() ==> exists|k: int|
                0 <= k < bundles.len() && !has_key(entries, (#[trigger] bundles[k]).filename@)
                    && #[trigger] missing_bundle_requests(base, manifest, bundles, entries)[i] == bundle_request(
                    base,
                    manifest,
                    bundles[k],
                ),
    decreases bundles.len(),
{
    if bundles.len() > 0 {
        let d = bundles.drop_last();
        lemma_missing_bundle_requests(base, manifest, d, entries);
        let before = missing_bundle_requests(base, manifest, d, entries);
        let all = missing_bundle_requests(base, manifest, bundles, entries);
        let n = bundles.len() - 1;
        if before.len() == 0 && has_key(entries, bundles[n].filename@) {
            assert forall|k: int| 0 <= k < bundles.len() implies has_key(entries, (#[trigger] bundles[k]).filename@) by {
                if k < n {
                    assert(bundles[k] == d[k]);
                }
            }
        }
        assert forall|i: int| 0 <= i < all.len() implies exists|k: int|
            0 <= k < bundles.len() && !has_key(entries, (#[trigger] bundles[k]).filename@) && #[trigger] all[i]
                == bundle_request(base, manifest, bundles[k]) by {
            if i < before.len() {
                let k = choose|k: int| 0 <= k < d.len() && !has_key(entries, (#[trigger] d[k]).filename@) && before[i]
                    == bundle_request(base, manifest, d[k]);
                assert(d[k] == bundles[k]);
                assert(all[i] == before[i]);
            } else {
                assert(all[i] == bundle_request(base, manifest, bundles[n]));
            }
        }
    }
}

/// The metadata a resolver still asks for: the current-publication list
/// while it has none; else a manifest request for each listed bundle that is
/// not loaded, and nothing exactly when every listed bundle is loaded.
pub proof fn law_missing_resources_name_what_is_not_loaded(
    base: Seq<char>,
    current: Option<CurrentArtifactsManifest>,
    entries: Seq<(String, BundleManifest)>,
)
    ensures
        current is None ==> spec_missing_resources(base, current, entries) == Some(
            seq![current_artifacts_request(base)],
        ),
        current is Some ==> (spec_missing_resources(base, current, entries) is None <==> forall|k: int|
            0 <= k < current->0.bundles@.len() ==> has_key(
                entries,
                (#[trigger] current->0.bundles@[k]).filename@,
            )),
        current is Some && spec_missing_resources(base, current, entries) is Some ==> forall|i: int|
            0 <= i < spec_missing_resources(base, current, entries)->0.len() ==> exists|k: int|
                0 <= k < current->0.bundles@.len() && !has_key(
                    entries,
                    (#[trigger] current->0.bundles@[k]).filename@,
                ) && #[trigger] spec_missing_resources(base, current, entries)->0[i] == bundle_request(
                    base,
                    current->0,
                    current->0.bundles@[k],
                ),
{
    if current is Some {
        let m = current->0;
        lemma_missing_bundle_requests(base, m, m.bundles@, entries);
    }
}

} // verus!

verus! {

proof fn lemma_as_of_order(a: Option<String>, b: Option<String>, c: Option<String>)
    ensures
        as_of_before(a, b) ==> !as_of_before(b, a),
        !as_of_before(a, b) && !as_of_before(b, c) ==> !as_of_before(a, c),
{
    let t = |x: Option<String>|
        match x {
            Some(s) => Some(s@),
            None => None::<Seq<char>>,
        };
    lemma_opt_text_order(t(a), t(b), t(c));
    lemma_opt_text_order(t(b), t(c), t(a));
    lemma_opt_text_order(t(c), t(a), t(b));
    lemma_opt_text_order(t(a), t(c), t(b));
    lemma_opt_text_order(t(b), t(a), t(c));
    lemma_opt_text_order(t(c), t(b), t(a));
    assert(as_of_before(a, b) == opt_text_less(t(a), t(b)));
    assert(as_of_before(b, a) == opt_text_less(t(b), t(a)));
    assert(as_of_before(b, c) == opt_text_less(t(b), t(c)));
    assert(as_of_before(a, c) == opt_text_less(t(a), t(c)));
    if !as_of_before(a, b) && !as_of_before(b, c) && as_of_before(a, c) {
        if t(a) == t(b) {
            assert(opt_text_less(t(b), t(c)));
        } else {
            assert(opt_text_less(t(b), t(a)));
        }
    }
}

/// The publication taken as current out of a list is one of the list, and
/// none of the list is dated after it; there is one exactly when the list
/// is not empty.
pub proof fn law_latest_manifest_is_the_latest(ms: Seq<CurrentArtifactsManifest>)
    ensures
        latest_manifest(ms) is None <==> ms.len() == 0,
        latest_manifest(ms) matches Some(m) ==> ms.contains(m),
        latest_manifest(ms) matches Some(m) ==> forall|k: int|
            0 <= k < ms.len() ==> !as_of_before(m.as_of_utc, #[trigger] ms[k].as_of_utc),
        latest_manifest(ms) matches Some(m) ==> exists|j: int|
            0 <= j < ms.len() && ms[j] == m && forall|k: int|
                j < k < ms.len() ==> as_of_before(#[trigger] ms[k].as_of_utc, m.as_of_utc),
    decreases ms.len(),
{
    if ms.len() > 0 {
        let d = ms.drop_last();
        let x = ms.last();
        law_latest_manifest_is_the_latest(d);
        assert(ms[ms.len() - 1] == x);
        match latest_manifest(d) {
            None => {
                assert forall|k: int| 0 <= k < ms.len() implies !as_of_before(x.as_of_utc, #[trigger] ms[k].as_of_utc) by {
                    lemma_as_of_order(x.as_of_utc, x.as_of_utc, x.as_of_utc);
                }
                assert(ms[ms.len() - 1] == x);
            },
            Some(best) => {
                let j = choose|j: int| 0 <= j < d.len() && d[j] == best;
                assert(ms[j] == best);
                if as_of_before(x.as_of_utc, best.as_of_utc) {
                    let j2 = choose|j: int|
                        0 <= j < d.len() && d[j] == best && forall|k: int|
                            j < k < d.len() ==> as_of_before(#[trigger] d[k].as_of_utc, best.as_of_utc);
                    assert(ms[j2] == best);
                    assert forall|k: int| j2 < k < ms.len() implies as_of_before(#[trigger] ms[k].as_of_utc, best.as_of_utc) by {
                        if k < d.len() {
                            assert(ms[k] == d[k]);
                        }
                    }
                    assert forall|k: int| 0 <= k < ms.len() implies !as_of_before(best.as_of_utc, #[trigger] ms[k].as_of_utc) by {
                        if k < d.len() {
                            assert(ms[k] == d[k]);
                        } else {
                            lemma_as_of_order(x.as_of_utc, best.as_of_utc, x.as_of_utc);
                        }
                    }
                } else {
                    assert(ms[ms.len() - 1] == x);
                    assert forall|k: int| 0 <= k < ms.len() implies !as_of_before(x.as_of_utc, #[trigger] ms[k].as_of_utc) by {
                        if k < d.len() {
                            assert(ms[k] == d[k]);
                            lemma_as_of_order(x.as_of_utc, best.as_of_utc, d[k].as_of_utc);
                        } else {
                            lemma_as_of_order(x.as_of_utc, x.as_of_utc, x.as_of_utc);
                        }
                    }
                }
            },
        }
    }
}

/// Taking in the list of current publications makes the latest of them
/// current: one of the list, with none of the list dated after it.
pub proof fn law_ingesting_publications_makes_the_latest_current(
    before: PublicationResolver,
    manifests: Vec<CurrentArtifactsManifest>,
    checked: Option<i64>,
    after: PublicationResolver,
)
    requires
        ingested(before, FetchedPublication::CurrentArtifacts { manifests }, checked, after),
    ensures
        after.current() is Some <==> manifests@.len() > 0,
        after.current() matches Some(m) ==> manifests@.contains(m) && forall|k: int|
            0 <= k < manifests@.len() ==> !as_of_before(m.as_of_utc, #[trigger] manifests@[k].as_of_utc),
        after.current() matches Some(m) ==> exists|j: int|
            0 <= j < manifests@.len() && manifests@[j] == m && forall|k: int|
                j < k < manifests@.len() ==> as_of_before(#[trigger] manifests@[k].as_of_utc, m.as_of_utc),
{
    law_latest_manifest_is_the_latest(manifests@);
}

} // verus!

verus! {

/// Loading an offline library makes the latest of its listed publications
/// current: the same as one of them, with none of them dated after it.
pub proof fn law_loading_a_library_makes_the_latest_current(
    manifests: Seq<CurrentArtifactsManifest>,
    current: Option<CurrentArtifactsManifest>,
)
    requires
        same_manifest_opt(current, latest_manifest(manifests)),
    ensures
        current is Some <==> manifests.len() > 0,
        current matches Some(m) ==> (exists|j: int| 0 <= j < manifests.len() && same_manifest(m, #[trigger] manifests[j]))
            && forall|k: int| 0 <= k < manifests.len() ==> !as_of_before(m.as_of_utc, #[trigger] manifests[k].as_of_utc),
{
    law_latest_manifest_is_the_latest(manifests);
    if current is Some {
        let m = current->0;
        let best = latest_manifest(manifests)->0;
        let j = choose|j: int| 0 <= j < manifests.len() && manifests[j] == best;
        assert(same_manifest(m, manifests[j]));
    }
}

} // verus!
