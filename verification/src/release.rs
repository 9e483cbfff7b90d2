//! Releases as the hosting service lists them: choosing the release to install
//! and the asset to download; and what is recorded of it once it is installed.

use vstd::prelude::*;
use vstd::relations::{antisymmetric, reflexive, sorted_by, strongly_connected, total_ordering, transitive};

use crate::decimal::{decimal, is_digit, lemma_decimal};
use crate::text::{
    chars_of, ends_with, has_prefix, has_suffix, join_texts, joined, opt_string, same_text, starts_with, texts, trim,
    trim_end, trim_start, trimmed, white_space,
};
use crate::version::{law_version_round_trip, Version};

verus! {

pub const REPO_OWNER: &'static str = "soteria-tools";

pub const REPO_NAME: &'static str = "soteria";

// ── the data ──────────────────────────────────────────────────────────────────

/// A file attached to a release.
#[derive(Debug)]
pub struct GhAsset {
    pub name: String,
    pub browser_download_url: String,
    pub size: u64,
}

/// A release. A draft release has no `published_at`.
#[derive(Debug)]
pub struct GhRelease {
    pub id: u64,
    pub tag_name: String,
    pub published_at: Option<String>,
    pub assets: Vec<GhAsset>,
}

/// What an asset holds.
#[verifier::ext_equal]
pub struct AssetModel {
    pub name: Seq<char>,
    pub browser_download_url: Seq<char>,
    pub size: u64,
}

/// What a release holds.
#[verifier::ext_equal]
pub struct ReleaseModel {
    pub id: u64,
    pub tag_name: Seq<char>,
    pub published_at: Option<Seq<char>>,
    pub assets: Seq<AssetModel>,
}

impl View for GhAsset {
    type V = AssetModel;

    open spec fn view(&self) -> AssetModel {
        AssetModel {
            name: self.name@,
            browser_download_url: self.browser_download_url@,
            size: self.size,
        }
    }
}

impl View for GhRelease {
    type V = ReleaseModel;

    open spec fn view(&self) -> ReleaseModel {
        ReleaseModel {
            id: self.id,
            tag_name: self.tag_name@,
            published_at: opt_string(self.published_at),
            assets: self.assets@.map_values(|a: GhAsset| a@),
        }
    }
}

/// What a list of releases holds.
pub open spec fn release_models(releases: Seq<GhRelease>) -> Seq<ReleaseModel> {
    releases.map_values(|r: GhRelease| r@)
}

impl Clone for GhAsset {
    fn clone(&self) -> (r: GhAsset)
        ensures
            r@ == self@,
    {
        GhAsset {
            name: self.name.clone(),
            browser_download_url: self.browser_download_url.clone(),
            size: self.size,
        }
    }
}

impl Clone for GhRelease {
    fn clone(&self) -> (r: GhRelease)
        ensures
            r@ == self@,
    {
        let mut assets: Vec<GhAsset> = Vec::new();
        let n: usize = self.assets.len();
        for i in 0..n
            invariant
                n == self.assets@.len(),
                assets@.len() == i,
                forall|j: int| 0 <= j < i ==> (#[trigger] assets@[j])@ == self.assets@[j]@,
        {
            assets.push(self.assets[i].clone());
        }
        let r = GhRelease {
            id: self.id,
            tag_name: self.tag_name.clone(),
            published_at: match &self.published_at {
                Some(p) => Some(p.clone()),
                None => None,
            },
            assets,
        };
        assert(r@.assets == self@.assets);
        r
    }
}

// ── versions among the releases ───────────────────────────────────────────────

/// The versions that the tags of some releases denote, in the order of the
/// releases. A tag that denotes none, such as `nightly`, is passed over.
pub open spec fn listed_versions(releases: Seq<ReleaseModel>) -> Seq<Version>
    decreases releases.len(),
{
    if releases.len() == 0 {
        seq![]
    } else {
        let before = listed_versions(releases.drop_last());
        match Version::parsed(releases.last().tag_name) {
            Some(v) => before.push(v),
            None => before,
        }
    }
}

/// The numeric order on versions.
pub open spec fn version_order() -> spec_fn(Version, Version) -> bool {
    |a: Version, b: Version| !b.before(a)
}

/// The versions that the tags of some releases denote, ascending.
pub open spec fn sorted_versions(releases: Seq<ReleaseModel>) -> Seq<Version> {
    listed_versions(releases).sort_by(version_order())
}

proof fn lemma_version_order_total()
    ensures
        total_ordering(version_order()),
{
    let leq = version_order();
    assert(reflexive(leq));
    assert(antisymmetric(leq));
    assert(transitive(leq));
    assert(strongly_connected(leq));
}

/// Put `v` in its place in an ascending list.
fn insert_sorted(sorted: &mut Vec<Version>, v: Version)
    requires
        sorted_by(old(sorted)@, version_order()),
    ensures
        sorted_by(final(sorted)@, version_order()),
        final(sorted)@.to_multiset() == old(sorted)@.to_multiset().insert(v),
{
    let n: usize = sorted.len();
    let mut at: usize = n;
    let ghost leq = version_order();
    while at > 0 && v.is_before(&sorted[at - 1])
        invariant
            n == sorted@.len(),
            at <= n,
            leq == version_order(),
            sorted@ == old(sorted)@,
            sorted_by(sorted@, leq),
            forall|j: int| at <= j < n ==> v.before(#[trigger] sorted@[j]),
        decreases at,
    {
        at = at - 1;
    }
    proof {
        assert forall|j: int| 0 <= j < at implies leq(#[trigger] sorted@[j], v) by {
            if j < at - 1 {
                assert(leq(sorted@[j], sorted@[at - 1]));
            }
        }
        broadcast use vstd::seq_lib::group_to_multiset_ensures;

    }
    let ghost prior = sorted@;
    sorted.insert(at, v);
    proof {
        broadcast use vstd::seq_lib::group_to_multiset_ensures;

        let s = sorted@;
        assert forall|i: int, j: int| 0 <= i < j < s.len() implies #[trigger] leq(s[i], s[j]) by {
            let pi = if i < at { i } else { i - 1 };
            let pj = if j < at { j } else { j - 1 };
            if i != at && j != at {
                assert(s[i] == prior[pi] && s[j] == prior[pj]);
                assert(leq(prior[pi], prior[pj]));
            }
        }
    }
}

/// The parseable versions among a set of releases, ascending, for error text.
pub fn available_versions(releases: &[GhRelease]) -> (r: Vec<Version>)
    ensures
        r@ == sorted_versions(release_models(releases@)),
        sorted_by(r@, version_order()),
        r@.to_multiset() == listed_versions(release_models(releases@)).to_multiset(),
{
    let mut out: Vec<Version> = Vec::new();
    let n: usize = releases.len();
    let ghost models = release_models(releases@);
    proof {
        broadcast use vstd::seq_lib::group_to_multiset_ensures;

        assert(models.take(0) == Seq::<ReleaseModel>::empty());
        assert(out@ == listed_versions(models.take(0)));
    }
    for i in 0..n
        invariant
            n == releases@.len(),
            models == release_models(releases@),
            sorted_by(out@, version_order()),
            out@.to_multiset() == listed_versions(models.take(i as int)).to_multiset(),
    {
        proof {
            broadcast use vstd::seq_lib::group_to_multiset_ensures;

            let next = models.take(i as int + 1);
            assert(next.drop_last() == models.take(i as int));
            assert(next.last().tag_name == releases@[i as int].tag_name@);
        }
        if let Some(v) = Version::parse(releases[i].tag_name.as_str()) {
            insert_sorted(&mut out, v);
        }
    }
    proof {
        assert(models.take(n as int) == models);
        lemma_version_order_total();
        let listed = listed_versions(models);
        listed.lemma_sort_by_ensures(version_order());
        vstd::seq_lib::lemma_sorted_unique(out@, listed.sort_by(version_order()), version_order());
    }
    out
}

// ── choosing the release ──────────────────────────────────────────────────────

/// The first release whose tag denotes exactly `want`.
pub open spec fn exact_release(releases: Seq<ReleaseModel>, want: Version) -> Option<ReleaseModel>
    decreases releases.len(),
{
    if releases.len() == 0 {
        None
    } else if Version::parsed(releases[0].tag_name) == Some(want) {
        Some(releases[0])
    } else {
        exact_release(releases.skip(1), want)
    }
}

/// What an optional reference to a release holds.
pub open spec fn opt_release(r: Option<&GhRelease>) -> Option<ReleaseModel> {
    match r {
        Some(release) => Some(release@),
        None => None,
    }
}

/// Find the release whose tag parses to exactly `want`.
#[verifier::rlimit(40)]
pub fn find_exact(releases: &[GhRelease], want: Version) -> (r: Option<&GhRelease>)
    ensures
        opt_release(r) == exact_release(release_models(releases@), want),
{
    let n: usize = releases.len();
    let ghost models = release_models(releases@);
    assert(models.skip(0) == models);
    for i in 0..n
        invariant
            n == releases@.len(),
            models == release_models(releases@),
            exact_release(models.skip(i as int), want) == exact_release(models, want),
    {
        assert(models.skip(i as int)[0] == releases@[i as int]@);
        if let Some(v) = Version::parse(releases[i].tag_name.as_str()) {
            if v == want {
                return Some(&releases[i]);
            }
        }
        assert(models.skip(i as int).skip(1) == models.skip(i as int + 1));
    }
    None
}

/// An exact release was found where there is one: it stands in the list, its tag
/// denotes the version asked for, and no release before it has such a tag.
pub proof fn law_exact_release(releases: Seq<ReleaseModel>, want: Version)
    ensures
        match exact_release(releases, want) {
            Some(found) => exists|i: int|
                0 <= i < releases.len() && releases[i] == found && Version::parsed(
                    #[trigger] releases[i].tag_name,
                ) == Some(want) && forall|j: int|
                    0 <= j < i ==> Version::parsed(#[trigger] releases[j].tag_name) != Some(want),
            None => forall|j: int|
                0 <= j < releases.len() ==> Version::parsed(#[trigger] releases[j].tag_name) != Some(
                    want,
                ),
        },
    decreases releases.len(),
{
    if releases.len() > 0 && Version::parsed(releases[0].tag_name) != Some(want) {
        let rest = releases.skip(1);
        law_exact_release(rest, want);
        assert forall|j: int| 1 <= j < releases.len() implies #[trigger] releases[j] == rest[j - 1] by {}
        if let Some(found) = exact_release(releases, want) {
            let i = choose|i: int|
                0 <= i < rest.len() && rest[i] == found && Version::parsed(#[trigger] rest[i].tag_name)
                    == Some(want) && forall|j: int|
                    0 <= j < i ==> Version::parsed(#[trigger] rest[j].tag_name) != Some(want);
            assert(releases[i + 1].tag_name == rest[i].tag_name);
            assert forall|j: int| 0 <= j < i + 1 implies Version::parsed(
                #[trigger] releases[j].tag_name,
            ) != Some(want) by {
                if j > 0 {
                    assert(rest[j - 1].tag_name == releases[j].tag_name);
                }
            }
        } else {
            assert forall|j: int| 0 <= j < releases.len() implies Version::parsed(
                #[trigger] releases[j].tag_name,
            ) != Some(want) by {
                if j > 0 {
                    assert(rest[j - 1].tag_name == releases[j].tag_name);
                }
            }
        }
    }
}

/// The version of a release, where its tag denotes one in the supported window.
pub open spec fn supported_version(release: ReleaseModel) -> Option<Version> {
    match Version::parsed(release.tag_name) {
        Some(v) => if v.supported() {
            Some(v)
        } else {
            None
        },
        None => None,
    }
}

/// The release with the highest supported version; of several with that
/// version, the last.
pub open spec fn default_release(releases: Seq<ReleaseModel>) -> Option<(Version, ReleaseModel)>
    decreases releases.len(),
{
    if releases.len() == 0 {
        None
    } else {
        let best = default_release(releases.drop_last());
        match (supported_version(releases.last()), best) {
            (None, _) => best,
            (Some(v), None) => Some((v, releases.last())),
            (Some(v), Some(b)) => if v.before(b.0) {
                best
            } else {
                Some((v, releases.last()))
            },
        }
    }
}

/// What an optional version with its release holds.
pub open spec fn opt_choice(r: Option<(Version, &GhRelease)>) -> Option<(Version, ReleaseModel)> {
    match r {
        Some((v, release)) => Some((v, release@)),
        None => None,
    }
}

/// The highest supported stable release (highest version whose series is inside
/// the window). Tags that do not parse, `nightly` among them, are ignored.
pub fn pick_default(releases: &[GhRelease]) -> (r: Option<(Version, &GhRelease)>)
    ensures
        opt_choice(r) == default_release(release_models(releases@)),
{
    let n: usize = releases.len();
    let ghost models = release_models(releases@);
    let mut best: Option<(Version, &GhRelease)> = None;
    for i in 0..n
        invariant
            n == releases@.len(),
            models == release_models(releases@),
            opt_choice(best) == default_release(models.take(i as int)),
    {
        proof {
            let next = models.take(i as int + 1);
            assert(next.drop_last() == models.take(i as int));
            assert(next.last() == releases@[i as int]@);
        }
        if let Some(v) = Version::parse(releases[i].tag_name.as_str()) {
            if v.is_supported() {
                match best {
                    None => {
                        best = Some((v, &releases[i]));
                    },
                    Some((b, _)) => {
                        if !v.is_before(&b) {
                            best = Some((v, &releases[i]));
                        }
                    },
                }
            }
        }
    }
    assert(models.take(n as int) == models);
    best
}

/// Whether `release` stands at `i` and is the highest supported one, at version
/// `v`: no supported release has a higher version, and no later one the same.
pub open spec fn highest_at(
    releases: Seq<ReleaseModel>,
    i: int,
    v: Version,
    release: ReleaseModel,
) -> bool {
    &&& 0 <= i < releases.len()
    &&& releases[i] == release
    &&& supported_version(releases[i]) == Some(v)
    &&& forall|j: int| 0 <= j < releases.len() ==> ranks_below(#[trigger] releases[j], v, j > i)
}

/// Whether a release has no supported version above `v`, nor `v` itself where
/// the order has to be strict.
pub open spec fn ranks_below(release: ReleaseModel, v: Version, strict: bool) -> bool {
    match supported_version(release) {
        Some(w) => !v.before(w) && (strict ==> w.before(v)),
        None => true,
    }
}

/// The default release is the highest supported one, at the version that its tag
/// denotes; there is none only where no release is supported.
pub proof fn law_default_is_highest_supported(releases: Seq<ReleaseModel>)
    ensures
        default_release(releases) matches Some(choice) ==> exists|i: int|
            highest_at(releases, i, choice.0, choice.1),
        default_release(releases) is None ==> forall|j: int|
            0 <= j < releases.len() ==> supported_version(#[trigger] releases[j]) is None,
    decreases releases.len(),
{
    if releases.len() > 0 {
        let prior = releases.drop_last();
        let n = prior.len() as int;
        law_default_is_highest_supported(prior);
        let best = default_release(prior);
        assert forall|j: int| 0 <= j < n implies #[trigger] releases[j] == prior[j] by {}
        assert(releases.last() == releases[n]);
        if best is Some {
            let (b, release) = best->0;
            let i = choose|i: int| highest_at(prior, i, b, release);
            match supported_version(releases[n]) {
                Some(v) => {
                    if v.before(b) {
                        let choice = default_release(releases)->0;
                        assert(choice.0 == b && choice.1 == release);
                        assert(highest_at(releases, i, choice.0, choice.1));
                    } else {
                        assert forall|j: int| 0 <= j < releases.len() implies ranks_below(
                            #[trigger] releases[j],
                            v,
                            j > n,
                        ) by {
                            if j < n {
                                assert(ranks_below(prior[j], b, j > i));
                            }
                        }
                        let choice = default_release(releases)->0;
                assert(choice.0 == v && choice.1 == releases[n]);
                        assert(highest_at(releases, n, choice.0, choice.1));
                    }
                },
                None => {
                    let choice = default_release(releases)->0;
                    assert(choice.0 == b && choice.1 == release);
                    assert(highest_at(releases, i, choice.0, choice.1));
                },
            }
        } else {
            if let Some(v) = supported_version(releases[n]) {
                let choice = default_release(releases)->0;
                assert(choice.0 == v && choice.1 == releases[n]);
                assert forall|j: int| 0 <= j < releases.len() implies ranks_below(
                    #[trigger] releases[j],
                    v,
                    j > n,
                ) by {
                    if j < n {
                        assert(supported_version(prior[j]) is None);
                    }
                }
                assert(highest_at(releases, n, choice.0, choice.1));
            } else {
                assert(default_release(releases) is None);
                assert forall|j: int| 0 <= j < releases.len() implies supported_version(
                    #[trigger] releases[j],
                ) is None by {
                    if j < n {
                        assert(supported_version(prior[j]) is None);
                    }
                }
            }
        }
    }
}

// ── the nightly's label ───────────────────────────────────────────────────────

/// `s` without the `Z`s that it ends in.
pub open spec fn strip_zulu(s: Seq<char>) -> Seq<char>
    decreases s.len(),
{
    if s.len() > 0 && s.last() == 'Z' {
        strip_zulu(s.drop_last())
    } else {
        s
    }
}

/// `c`, or `-` in place of the separators of a timestamp.
pub open spec fn dashed(c: char) -> char {
    if c == 'T' || c == ':' {
        '-'
    } else {
        c
    }
}

/// A timestamp with dashes in place of `T` and `:` and without the `Z`s at its
/// end.
pub open spec fn sanitized_timestamp(ts: Seq<char>) -> Seq<char> {
    strip_zulu(ts).map_values(|c: char| dashed(c))
}

/// Turn a `published_at` (`2026-03-05T21:59:50Z`) into a filename-safe stamp
/// (`2026-03-05-21-59-50`) for the nightly's VERSION label.
pub fn sanitize_timestamp(ts: &str) -> (r: String)
    ensures
        r@ == sanitized_timestamp(ts@),
{
    let cs = chars_of(ts);
    let mut n: usize = cs.len();
    assert(cs@.take(n as int) == ts@);
    while n > 0 && cs[n - 1] == 'Z'
        invariant
            n <= cs@.len(),
            cs@ == ts@,
            strip_zulu(cs@.take(n as int)) == strip_zulu(ts@),
        decreases n,
    {
        assert(cs@.take(n as int).drop_last() == cs@.take(n as int - 1));
        n = n - 1;
    }
    let ghost kept = cs@.take(n as int);
    let mut out = String::new();
    for i in 0..n
        invariant
            n <= cs@.len(),
            kept == cs@.take(n as int),
            out@ == kept.take(i as int).map_values(|c: char| dashed(c)),
    {
        let c: char = cs[i];
        if c == 'T' || c == ':' {
            out.push('-');
        } else {
            out.push(c);
        }
        assert(kept.take(i as int + 1) == kept.take(i as int).push(c));
    }
    assert(kept.take(n as int) == kept);
    out
}

proof fn lemma_strip_zulu(s: Seq<char>)
    ensures
        exists|n: int| 0 <= n <= s.len() && strip_zulu(s) == #[trigger] s.take(n),
    decreases s.len(),
{
    if s.len() > 0 && s.last() == 'Z' {
        let t = s.drop_last();
        lemma_strip_zulu(t);
        let n = choose|n: int| 0 <= n <= t.len() && strip_zulu(t) == #[trigger] t.take(n);
        assert(t.take(n) == s.take(n));
    } else {
        assert(s.take(s.len() as int) == s);
    }
}

/// The stamp of a timestamp is safe in a file name: it holds no `:`, and no `/`
/// unless the timestamp did.
pub proof fn law_stamp_is_filename_safe(ts: Seq<char>)
    ensures
        !sanitized_timestamp(ts).contains(':'),
        !sanitized_timestamp(ts).contains('T'),
        !ts.contains('/') ==> !sanitized_timestamp(ts).contains('/'),
{
    lemma_strip_zulu(ts);
    let n = choose|n: int| 0 <= n <= ts.len() && strip_zulu(ts) == #[trigger] ts.take(n);
    let r = sanitized_timestamp(ts);
    assert forall|i: int| 0 <= i < r.len() implies #[trigger] r[i] == dashed(ts[i]) by {}
    if !ts.contains('/') && r.contains('/') {
        let i = choose|i: int| 0 <= i < r.len() && r[i] == '/';
        assert(ts[i] == '/');
    }
}

/// A stamp keeps every character of the timestamp in its place, but for a dash in place
/// of each `T` and `:`; all that is missing are the `Z`s at the end.
pub proof fn law_stamp_keeps_the_rest(ts: Seq<char>, i: int)
    ensures
        sanitized_timestamp(ts).len() <= ts.len(),
        0 <= i < sanitized_timestamp(ts).len() ==> sanitized_timestamp(ts)[i] == (if ts[i] == 'T'
            || ts[i] == ':' {
            '-'
        } else {
            ts[i]
        }),
        sanitized_timestamp(ts).len() <= i < ts.len() ==> ts[i] == 'Z',
        sanitized_timestamp(ts).len() > 0 ==> sanitized_timestamp(ts).last() != 'Z',
    decreases ts.len(),
{
    if ts.len() > 0 && ts.last() == 'Z' {
        law_stamp_keeps_the_rest(ts.drop_last(), i);
        assert(sanitized_timestamp(ts) == sanitized_timestamp(ts.drop_last()));
    }
}

// ── the asset for a platform ──────────────────────────────────────────────────

/// The suffix of the bundle for a platform, where there is one.
pub open spec fn asset_suffix(os: Seq<char>, arch: Seq<char>) -> Option<Seq<char>> {
    if os == "macos"@ && arch == "aarch64"@ {
        Some("macos-arm64.zip"@)
    } else if os == "linux"@ && arch == "x86_64"@ {
        Some("linux-x86_64.zip"@)
    } else {
        None
    }
}

/// The message for a platform without a bundle.
pub open spec fn unsupported_platform(os: Seq<char>, arch: Seq<char>) -> Seq<char> {
    "Unsupported platform: "@ + os + "/"@ + arch
        + ". Pre-built binaries are available for macOS ARM64 (aarch64-apple-darwin) and Linux x86_64 (x86_64-unknown-linux-gnu). See https://github.com/"@
        + REPO_OWNER@ + "/"@ + REPO_NAME@ + " for updates."@
}

/// The platform-specific suffix of the soteria-rust bundle asset, such as
/// `macos-arm64.zip`. Both the nightly (`soteria-rust-macos-arm64.zip`) and a
/// versioned (`soteria-rust-v0.1.0-macos-arm64.zip`) asset end with it.
pub fn platform_asset_suffix(os: &str, arch: &str) -> (r: Result<&'static str, String>)
    ensures
        match asset_suffix(os@, arch@) {
            Some(suffix) => r matches Ok(s) && s@ == suffix,
            None => r matches Err(e) && e@ == unsupported_platform(os@, arch@),
        },
{
    if same_text(os, "macos") && same_text(arch, "aarch64") {
        return Ok("macos-arm64.zip");
    }
    if same_text(os, "linux") && same_text(arch, "x86_64") {
        proof {
            reveal_strlit("macos");
            reveal_strlit("linux");
            assert("macos"@[0] != "linux"@[0]);
        }
        return Ok("linux-x86_64.zip");
    }
    let mut msg = "Unsupported platform: ".to_owned();
    msg.append(os);
    msg.append("/");
    msg.append(arch);
    msg.append(
        ". Pre-built binaries are available for macOS ARM64 (aarch64-apple-darwin) and Linux x86_64 (x86_64-unknown-linux-gnu). See https://github.com/",
    );
    msg.append(REPO_OWNER);
    msg.append("/");
    msg.append(REPO_NAME);
    msg.append(" for updates.");
    Err(msg)
}

/// Whether an asset is the soteria-rust bundle for the platform with this suffix.
pub open spec fn is_bundle(name: Seq<char>, suffix: Seq<char>) -> bool {
    starts_with(name, "soteria-rust-"@) && ends_with(name, suffix)
}

/// The first bundle with this suffix among some assets.
pub open spec fn bundle(assets: Seq<AssetModel>, suffix: Seq<char>) -> Option<AssetModel>
    decreases assets.len(),
{
    if assets.len() == 0 {
        None
    } else if is_bundle(assets[0].name, suffix) {
        Some(assets[0])
    } else {
        bundle(assets.skip(1), suffix)
    }
}

/// The message for a release without a bundle for the platform.
pub open spec fn no_bundle(release: ReleaseModel, suffix: Seq<char>) -> Seq<char> {
    "No soteria-rust bundle for '"@ + suffix + "' found in the '"@ + release.tag_name
        + "' release.\nAvailable: "@ + joined(release.assets.map_values(|a: AssetModel| a.name), ", "@)
}

/// Find the soteria-rust bundle for a platform among a release's assets.
/// Versioned releases embed the version in the filename
/// (`soteria-rust-v0.1.0-macos-arm64.zip`) while nightly does not
/// (`soteria-rust-macos-arm64.zip`), so match on the `soteria-rust-` prefix plus
/// the platform suffix rather than an exact name. The prefix guard avoids
/// picking the sibling `soteria-c-…` bundle, which shares the platform suffix.
pub fn find_platform_asset<'a>(release: &'a GhRelease, suffix: &str) -> (r: Result<&'a GhAsset, String>)
    ensures
        match bundle(release@.assets, suffix@) {
            Some(asset) => r matches Ok(a) && a@ == asset,
            None => r matches Err(e) && e@ == no_bundle(release@, suffix@),
        },
{
    let n: usize = release.assets.len();
    let ghost models = release@.assets;
    let mut names: Vec<String> = Vec::new();
    assert(models.skip(0) == models);
    for i in 0..n
        invariant
            n == release.assets@.len() == models.len(),
            models == release@.assets,
            bundle(models.skip(i as int), suffix@) == bundle(models, suffix@),
            texts(names@) == models.map_values(|a: AssetModel| a.name).take(i as int),
    {
        let asset = &release.assets[i];
        assert(models.skip(i as int)[0] == asset@);
        if has_prefix(asset.name.as_str(), "soteria-rust-") && has_suffix(asset.name.as_str(), suffix) {
            return Ok(asset);
        }
        assert(models.skip(i as int).skip(1) == models.skip(i as int + 1));
        let ghost before = names@;
        let name = asset.name.clone();
        names.push(name);
        assert(texts(names@) == texts(before).push(name@));
        assert(models.map_values(|a: AssetModel| a.name).take(i as int + 1) == models.map_values(
            |a: AssetModel| a.name,
        ).take(i as int).push(name@));
    }
    assert(models.map_values(|a: AssetModel| a.name).take(n as int) == models.map_values(
        |a: AssetModel| a.name,
    ));
    let mut msg = "No soteria-rust bundle for '".to_owned();
    msg.append(suffix);
    msg.append("' found in the '");
    msg.append(release.tag_name.as_str());
    msg.append("' release.\nAvailable: ");
    msg.append(join_texts(names.as_slice(), ", ").as_str());
    Err(msg)
}

/// The asset that is found is the first bundle for the platform; there is none only
/// where no asset is one.
pub proof fn law_first_bundle(assets: Seq<AssetModel>, suffix: Seq<char>)
    ensures
        bundle(assets, suffix) matches Some(found) ==> exists|i: int|
            0 <= i < assets.len() && #[trigger] assets[i] == found && is_bundle(found.name, suffix)
                && forall|j: int| 0 <= j < i ==> !is_bundle((#[trigger] assets[j]).name, suffix),
        bundle(assets, suffix) is None ==> forall|j: int|
            0 <= j < assets.len() ==> !is_bundle((#[trigger] assets[j]).name, suffix),
    decreases assets.len(),
{
    if assets.len() > 0 && !is_bundle(assets[0].name, suffix) {
        let rest = assets.skip(1);
        law_first_bundle(rest, suffix);
        assert forall|j: int| 1 <= j < assets.len() implies #[trigger] assets[j] == rest[j - 1] by {}
        if bundle(assets, suffix) is Some {
            let found = bundle(assets, suffix)->0;
            let i = choose|i: int|
                0 <= i < rest.len() && #[trigger] rest[i] == found && is_bundle(found.name, suffix)
                    && forall|j: int| 0 <= j < i ==> !is_bundle((#[trigger] rest[j]).name, suffix);
            assert(assets[i + 1] == found);
            assert forall|j: int| 0 <= j < i + 1 implies !is_bundle(
                (#[trigger] assets[j]).name,
                suffix,
            ) by {
                if j > 0 {
                    assert(!is_bundle(rest[j - 1].name, suffix));
                }
            }
        }
    }
}

/// The bundle of the nightly has no version in its name, the bundle of a version
/// has: both are recognised. The sibling bundle for C never is.
pub proof fn law_bundle_names(middle: Seq<char>, suffix: Seq<char>)
    ensures
        is_bundle("soteria-rust-"@ + suffix, suffix),
        is_bundle("soteria-rust-"@ + middle + "-"@ + suffix, suffix),
        !is_bundle("soteria-c-"@ + middle + suffix, suffix),
{
    reveal_strlit("soteria-rust-");
    reveal_strlit("soteria-c-");
    let prefix = "soteria-rust-"@;
    let nightly = prefix + suffix;
    assert(nightly.take(prefix.len() as int) == prefix);
    assert(nightly.skip(nightly.len() - suffix.len()) == suffix);
    let versioned = prefix + middle + "-"@ + suffix;
    assert(versioned.take(prefix.len() as int) == prefix);
    assert(versioned.skip(versioned.len() - suffix.len()) == suffix);
    let other = "soteria-c-"@ + middle + suffix;
    if starts_with(other, prefix) {
        assert(other.take(prefix.len() as int)[8] == prefix[8]);
    }
}

/// The default release stands in the list, its tag denotes the version given with it,
/// which lies in the window, and no version in the window that a tag in the list denotes is
/// higher. There is one wherever some tag denotes a version in the window.
pub proof fn law_default_release(releases: Seq<ReleaseModel>, j: int, w: Version)
    requires
        0 <= j < releases.len(),
    ensures
        default_release(releases) matches Some((v, release)) ==> releases.contains(release)
            && Version::parsed(release.tag_name) == Some(v) && v.supported(),
        Version::parsed(releases[j].tag_name) == Some(w) && w.supported() ==> default_release(
            releases,
        ) is Some && !(default_release(releases)->0).0.before(w),
    decreases releases.len(),
{
    let prior = releases.drop_last();
    let last = releases.last();
    if prior.len() > 0 {
        let i = if j < prior.len() {
            j
        } else {
            0
        };
        law_default_release(prior, i, w);
        assert(prior[i] == releases[i]);
        if let Some((v, release)) = default_release(prior) {
            let k = choose|k: int| 0 <= k < prior.len() && prior[k] == release;
            assert(releases[k] == release);
        }
    } else {
        assert(default_release(prior) is None);
    }
    assert(releases[releases.len() - 1] == last);
    assert(releases.contains(last));
}

/// The versions that are shown as available are those of the list, each as often as it
/// occurs there, the lower ones first.
pub proof fn law_available_versions(releases: Seq<ReleaseModel>, i: int, j: int)
    requires
        0 <= i < j < sorted_versions(releases).len(),
    ensures
        !sorted_versions(releases)[j].before(sorted_versions(releases)[i]),
        sorted_versions(releases).to_multiset() == listed_versions(releases).to_multiset(),
{
    lemma_version_order_total();
    let leq = version_order();
    listed_versions(releases).lemma_sort_by_ensures(leq);
    let sorted = sorted_versions(releases);
    assert(leq(sorted[i], sorted[j]));
}

/// What is said where nothing fits names what was asked for: the platform, or the suffix
/// and the release together with every asset that there is.
pub proof fn law_missing_bundles(
    os: Seq<char>,
    arch: Seq<char>,
    release: ReleaseModel,
    suffix: Seq<char>,
)
    ensures
        starts_with(unsupported_platform(os, arch), "Unsupported platform: "@ + os + "/"@ + arch),
        ends_with(
            no_bundle(release, suffix),
            "\nAvailable: "@ + joined(release.assets.map_values(|a: AssetModel| a.name), ", "@),
        ),
        starts_with(
            no_bundle(release, suffix),
            "No soteria-rust bundle for '"@ + suffix + "' found in the '"@ + release.tag_name
                + "'"@,
        ),
{
    reveal_strlit("'");
    reveal_strlit("\nAvailable: ");
    reveal_strlit("' release.\nAvailable: ");
    let a = unsupported_platform(os, arch);
    let head = "Unsupported platform: "@ + os + "/"@ + arch;
    assert(a.take(head.len() as int) =~= head);
    let b = no_bundle(release, suffix);
    let end = "\nAvailable: "@ + joined(
        release.assets.map_values(|a: AssetModel| a.name),
        ", "@,
    );
    assert(b.skip(b.len() - end.len()) =~= end);
    let front = "No soteria-rust bundle for '"@ + suffix + "' found in the '"@
        + release.tag_name + "'"@;
    assert(b.take(front.len() as int) =~= front);
}

/// A name that does not begin with `soteria-rust-`, or does not end like the suffix, is
/// no bundle: a single character that differs is enough.
pub proof fn law_other_names_are_no_bundles(name: Seq<char>, suffix: Seq<char>, i: int)
    ensures
        name.len() < 13 ==> !is_bundle(name, suffix),
        name.len() >= 13 && 0 <= i < 13 && name[i] != "soteria-rust-"@[i] ==> !is_bundle(
            name,
            suffix,
        ),
        name.len() < suffix.len() ==> !is_bundle(name, suffix),
        name.len() >= suffix.len() && 0 <= i < suffix.len() && name[name.len() - suffix.len() + i]
            != suffix[i] ==> !is_bundle(name, suffix),
{
    reveal_strlit("soteria-rust-");
    let prefix = "soteria-rust-"@;
    if is_bundle(name, suffix) {
        assert(name.take(13) == prefix);
        if 0 <= i < 13 {
            assert(name.take(13)[i] == name[i]);
        }
        let tail = name.skip(name.len() - suffix.len());
        if 0 <= i < suffix.len() {
            assert(tail[i] == name[name.len() - suffix.len() + i]);
        }
    }
}

/// There are bundles for two platforms, each with its own suffix, and for no other.
pub proof fn law_platforms(os: Seq<char>, arch: Seq<char>)
    ensures
        os == "macos"@ && arch == "aarch64"@ ==> asset_suffix(os, arch) == Some(
            "macos-arm64.zip"@,
        ),
        os == "linux"@ && arch == "x86_64"@ ==> asset_suffix(os, arch) == Some(
            "linux-x86_64.zip"@,
        ),
        asset_suffix(os, arch) is Some ==> (os == "macos"@ && arch == "aarch64"@) || (os
            == "linux"@ && arch == "x86_64"@),
{
    reveal_strlit("macos");
    reveal_strlit("linux");
    assert("macos"@[0] != "linux"@[0]);
}

/// The versions of a list of releases are those of its parts: a tag that denotes one
/// gives that, and any other gives none.
pub proof fn law_listed_versions(a: Seq<ReleaseModel>, b: Seq<ReleaseModel>, one: ReleaseModel)
    ensures
        listed_versions(a + b) == listed_versions(a) + listed_versions(b),
        listed_versions(seq![one]) == match Version::parsed(one.tag_name) {
            Some(v) => seq![v],
            None => seq![],
        },
    decreases b.len(),
{
    let single = seq![one];
    assert(single.drop_last() == Seq::<ReleaseModel>::empty());
    assert(listed_versions(single.drop_last()) == Seq::<Version>::empty());
    if b.len() == 0 {
        assert(a + b == a);
    } else {
        law_listed_versions(a, b.drop_last(), one);
        assert((a + b).drop_last() == a + b.drop_last());
        assert((a + b).last() == b.last());
    }
}

// ── what is recorded of an installation ───────────────────────────────────────

/// What is recorded of the installed release.
#[derive(Debug)]
pub struct VersionInfo {
    /// Tag name of the release that was installed (such as `nightly`).
    pub release_tag: String,
    /// The `published_at` timestamp of the release.
    pub published_at: String,
    /// The numeric release ID, used to detect updates.
    pub release_id: u64,
}

/// What the human-readable `VERSION` file holds for a release name (such as
/// `0.3.0` or `nightly-2026-03-05-21-59-50`).
pub open spec fn name_contents(name: Seq<char>) -> Seq<char> {
    name + "\n"@
}

/// The release name in the contents of a `VERSION` file, if there is one.
pub open spec fn recorded_name(contents: Seq<char>) -> Option<Seq<char>> {
    if trimmed(contents).len() == 0 {
        None
    } else {
        Some(trimmed(contents))
    }
}

/// What to write to the `VERSION` file for a release name, so that users and
/// `unsetup` can see what is installed.
pub fn write_version_name(name: &str) -> (r: String)
    ensures
        r@ == name_contents(name@),
{
    let mut out = name.to_owned();
    out.append("\n");
    out
}

/// The release name in the contents of the `VERSION` file, if there is one.
pub fn read_version_name(contents: &str) -> (r: Option<String>)
    ensures
        opt_string(r) == recorded_name(contents@),
{
    let name = trim(contents);
    if name.is_empty() {
        None
    } else {
        Some(name.to_owned())
    }
}

/// A release name reads back as it was written. Only a name that is empty, or
/// that begins or ends in white space, would not.
pub proof fn law_version_name_round_trip(name: Seq<char>)
    requires
        name.len() > 0,
        !white_space(name[0]),
        !white_space(name.last()),
    ensures
        recorded_name(name_contents(name)) == Some(name),
{
    reveal_strlit("\n");
    let contents = name_contents(name);
    assert(contents[0] == name[0]);
    assert(trim_start(contents) == contents);
    assert(contents.last() == '\n');
    assert(contents.drop_last() == name);
    assert(trim_end(name) == name);
}

/// The name of a version release reads back as it was written, and denotes the
/// version that was installed.
pub proof fn law_installed_version_reads_back(v: Version)
    ensures
        recorded_name(name_contents(v.shown())) == Some(v.shown()),
        Version::parsed(v.shown()) == Some(v),
{
    law_version_round_trip(v);
    lemma_decimal(v.major as nat);
    lemma_decimal(v.patch as nat);
    let s = v.shown();
    assert(s[0] == decimal(v.major as nat)[0]);
    assert(is_digit(s[0]));
    assert(s.last() == decimal(v.patch as nat).last());
    let c = decimal(v.patch as nat);
    assert(is_digit(c[c.len() - 1]));
    law_version_name_round_trip(s);
}

} // verus!
