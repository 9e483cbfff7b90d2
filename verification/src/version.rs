//! Release versions, and what the user may ask `setup` to install.

use core::cmp::Ordering;
use vstd::prelude::*;
use vstd::std_specs::cmp::PartialOrdSpec;

use crate::decimal::{
    all_digits, decimal, decimal_text, is_digit, law_decimal_round_trip, lemma_decimal, parse_u64, parsed_u64,
};
use crate::text::{
    ascii_lower, eq_ignore_ascii_case, join_texts, joined, law_joined_front, law_split_pieces, law_trimmed,
    lemma_split_cons, lemma_split_one, lemma_trimmed_unchanged, opt_text, same_ignoring_case, split, split_text, texts,
    trim, trimmed, white_space,
};

verus! {

/// The moving tag of the rolling nightly release.
pub const RELEASE_TAG: &'static str = "nightly";

/// Inclusive window of soteria-rust minor series that this cargo-soteria is
/// tested against, as `(major, minor)`. Installing anything outside it, or the
/// nightly, prints a "no guarantee it will work" warning and asks to confirm.
pub const MIN_SUPPORTED_MINOR: (u64, u64) = (0, 1);

pub const MAX_SUPPORTED_MINOR: (u64, u64) = (0, 1);

/// A `major.minor.patch` release version, ordered numerically: by `major`, then
/// by `minor`, then by `patch`.
#[derive(Debug, Clone, Copy, PartialEq, Eq, Ord, Structural)]
pub struct Version {
    pub major: u64,
    pub minor: u64,
    pub patch: u64,
}

/// Whether the series `a` comes before the series `b`.
pub open spec fn series_before(a: (u64, u64), b: (u64, u64)) -> bool {
    a.0 < b.0 || (a.0 == b.0 && a.1 < b.1)
}

impl Version {
    /// Whether `self` comes before `other` in the numeric order.
    pub open spec fn before(self, other: Version) -> bool {
        ||| series_before((self.major, self.minor), (other.major, other.minor))
        ||| self.major == other.major && self.minor == other.minor && self.patch < other.patch
    }

    /// The version that a tag denotes: `X.Y.Z` between white space, with an
    /// optional leading `v`, where `X`, `Y` and `Z` are `u64` numbers.
    pub open spec fn parsed(s: Seq<char>) -> Option<Version> {
        let t = trimmed(s);
        let body = if t.len() > 0 && t[0] == 'v' {
            t.skip(1)
        } else {
            t
        };
        let parts = split(body, '.');
        if parts.len() == 3 {
            match (parsed_u64(parts[0]), parsed_u64(parts[1]), parsed_u64(parts[2])) {
                (Some(major), Some(minor), Some(patch)) => Some(Version { major, minor, patch }),
                _ => None,
            }
        } else {
            None
        }
    }

    /// The version as text, `major.minor.patch`.
    pub open spec fn shown(self) -> Seq<char> {
        decimal(self.major as nat) + "."@ + decimal(self.minor as nat) + "."@ + decimal(
            self.patch as nat,
        )
    }

    /// Whether the series of this version lies inside the supported window.
    pub open spec fn supported(self) -> bool {
        let s = (self.major, self.minor);
        !series_before(s, MIN_SUPPORTED_MINOR) && !series_before(MAX_SUPPORTED_MINOR, s)
    }

    /// Parse a clean `X.Y.Z`, tolerating white space around it and a single
    /// leading `v`. Anything that is not exactly three integer components
    /// (`nightly`, `0.3`, `0.3.5-rc1`, `1.2.3.4`) is rejected, which is what
    /// filters the nightly tag out of the stable releases.
    pub fn parse(s: &str) -> (r: Option<Version>)
        ensures
            r == Version::parsed(s@),
    {
        let t = trim(s);
        let n: usize = t.unicode_len();
        let body: &str = if n > 0 && t.get_char(0) == 'v' {
            proof {
                assert(t@.subrange(1, t@.len() as int) == t@.skip(1));
            }
            t.substring_char(1, n)
        } else {
            t
        };
        let parts = split_text(body, '.');
        proof {
            assert(texts(parts@).len() == parts@.len());
            assert(forall|i: int| 0 <= i < parts@.len() ==> texts(parts@)[i] == (#[trigger] parts@[i])@);
        }
        if parts.len() != 3 {
            return None;
        }
        match (parse_u64(parts[0].as_str()), parse_u64(parts[1].as_str()), parse_u64(parts[2].as_str())) {
            (Some(major), Some(minor), Some(patch)) => Some(Version { major, minor, patch }),
            _ => None,
        }
    }

    /// The `(major, minor)` series this version belongs to.
    pub fn minor_series(&self) -> (r: (u64, u64))
        ensures
            r == (self.major, self.minor),
    {
        (self.major, self.minor)
    }

    /// Whether this version's series lies inside the supported window.
    pub fn is_supported(&self) -> (r: bool)
        ensures
            r == self.supported(),
    {
        let s = self.minor_series();
        let min = MIN_SUPPORTED_MINOR;
        let max = MAX_SUPPORTED_MINOR;
        let below = s.0 < min.0 || (s.0 == min.0 && s.1 < min.1);
        let above = max.0 < s.0 || (max.0 == s.0 && max.1 < s.1);
        !below && !above
    }

    /// Whether this version comes before `other` in the numeric order.
    pub fn is_before(&self, other: &Version) -> (r: bool)
        ensures
            r == self.before(*other),
    {
        self.major < other.major || (self.major == other.major && (self.minor < other.minor || (
        self.minor == other.minor && self.patch < other.patch)))
    }

    /// The version as text, `major.minor.patch`.
    pub fn to_string(&self) -> (r: String)
        ensures
            r@ == self.shown(),
    {
        let mut out = decimal_text(self.major);
        out.append(".");
        out.append(decimal_text(self.minor).as_str());
        out.append(".");
        out.append(decimal_text(self.patch).as_str());
        out
    }
}

impl PartialOrd for Version {
    fn partial_cmp(&self, other: &Version) -> (r: Option<Ordering>) {
        if self.is_before(other) {
            Some(Ordering::Less)
        } else if other.is_before(self) {
            Some(Ordering::Greater)
        } else {
            Some(Ordering::Equal)
        }
    }
}

impl vstd::std_specs::cmp::PartialOrdSpecImpl for Version {
    open spec fn obeys_partial_cmp_spec() -> bool {
        true
    }

    open spec fn partial_cmp_spec(&self, other: &Version) -> Option<Ordering> {
        if self.before(*other) {
            Some(Ordering::Less)
        } else if other.before(*self) {
            Some(Ordering::Greater)
        } else {
            Some(Ordering::Equal)
        }
    }
}

/// The order on versions is a strict total order: of two versions exactly one
/// comes first unless they are the same, and coming before is transitive.
pub proof fn law_versions_totally_ordered(a: Version, b: Version, c: Version)
    ensures
        !a.before(a),
        a.before(b) || b.before(a) || a == b,
        !(a.before(b) && b.before(a)),
        a.before(b) && b.before(c) ==> a.before(c),
{
}

/// Reading back the text of a version gives that version, with or without the
/// leading `v` that a tag may have.
pub proof fn law_version_round_trip(v: Version)
    ensures
        Version::parsed(v.shown()) == Some(v),
        Version::parsed("v"@ + v.shown()) == Some(v),
{
    reveal_strlit(".");
    reveal_strlit("v");
    let a = decimal(v.major as nat);
    let b = decimal(v.minor as nat);
    let c = decimal(v.patch as nat);
    lemma_decimal(v.major as nat);
    lemma_decimal(v.minor as nat);
    lemma_decimal(v.patch as nat);
    law_decimal_round_trip(v.major);
    law_decimal_round_trip(v.minor);
    law_decimal_round_trip(v.patch);
    let s = v.shown();
    assert forall|x: Seq<char>, j: int| #![trigger x[j]] all_digits(x) && 0 <= j < x.len() implies x[j]
        != '.' && x[j] != 'v' && !white_space(x[j]) by {
        assert(is_digit(x[j]));
    }
    assert("."@ == seq!['.']);
    let bc = b + seq!['.'] + c;
    assert(s == a + seq!['.'] + bc);
    lemma_split_cons(a, '.', bc);
    lemma_split_cons(b, '.', c);
    lemma_split_one(c, '.');
    assert(split(s, '.') == seq![a, b, c]);
    assert(s[0] == a[0] && s.last() == c.last());
    lemma_trimmed_unchanged(s);
    let t = "v"@ + s;
    assert(t[0] == 'v' && t.last() == s.last());
    lemma_trimmed_unchanged(t);
    assert(t.skip(1) == s);
}

// ── what to install ───────────────────────────────────────────────────────────

/// Which release the user asked `setup` to install.
#[derive(Debug, Clone, Copy, PartialEq, Eq, Structural)]
pub enum ReleaseSpec {
    /// No `--release`: the latest patch of the highest supported minor.
    Default,
    /// `--release nightly`: the rolling nightly build.
    Nightly,
    /// `--release X.Y.Z`: that exact version.
    Exact(Version),
}

/// What a `--release` argument asks for, if it asks for anything valid.
pub open spec fn requested_release(arg: Option<Seq<char>>) -> Option<ReleaseSpec> {
    match arg {
        None => Some(ReleaseSpec::Default),
        Some(s) => if same_ignoring_case(s, RELEASE_TAG@) {
            Some(ReleaseSpec::Nightly)
        } else {
            match Version::parsed(s) {
                Some(v) => Some(ReleaseSpec::Exact(v)),
                None => None,
            }
        },
    }
}

/// The message for a `--release` argument that asks for nothing valid.
pub open spec fn invalid_release(s: Seq<char>) -> Seq<char> {
    "Invalid --release value '"@ + s
        + "'. Expected 'nightly' or a version like '0.3.5'."@
}

/// Parse the `--release` argument. `Err` carries a user-facing message.
pub fn parse_release_spec(arg: Option<&str>) -> (r: Result<ReleaseSpec, String>)
    ensures
        match requested_release(opt_text(arg)) {
            Some(spec) => r == Ok::<ReleaseSpec, String>(spec),
            None => r matches Err(e) && arg matches Some(s) && e@ == invalid_release(s@),
        },
{
    match arg {
        None => Ok(ReleaseSpec::Default),
        Some(s) => {
            if eq_ignore_ascii_case(s, RELEASE_TAG) {
                return Ok(ReleaseSpec::Nightly);
            }
            match Version::parse(s) {
                Some(v) => Ok(ReleaseSpec::Exact(v)),
                None => {
                    let mut msg = "Invalid --release value '".to_owned();
                    msg.append(s);
                    msg.append("'. Expected 'nightly' or a version like '0.3.5'.");
                    Err(msg)
                },
            }
        },
    }
}

/// Asking for a version by its text, with or without the leading `v`, asks for
/// exactly that version.
pub proof fn law_exact_release_requested(v: Version)
    ensures
        requested_release(Some(v.shown())) == Some(ReleaseSpec::Exact(v)),
        requested_release(Some("v"@ + v.shown())) == Some(ReleaseSpec::Exact(v)),
{
    law_version_round_trip(v);
    reveal_strlit("nightly");
    reveal_strlit("v");
    let s = v.shown();
    lemma_decimal(v.major as nat);
    assert(s[0] == decimal(v.major as nat)[0]);
    assert(is_digit(s[0]));
    assert(ascii_lower(s[0]) != ascii_lower(RELEASE_TAG@[0]));
    let t = "v"@ + s;
    assert(ascii_lower(t[0]) != ascii_lower(RELEASE_TAG@[0]));
}

// ── rendering ─────────────────────────────────────────────────────────────────

/// A series as text, `major.minor`.
pub open spec fn series_shown(s: (u64, u64)) -> Seq<char> {
    decimal(s.0 as nat) + "."@ + decimal(s.1 as nat)
}

/// Render `(major, minor)` as `major.minor` for messages.
pub fn fmt_series(s: (u64, u64)) -> (r: String)
    ensures
        r@ == series_shown(s),
{
    let mut out = decimal_text(s.0);
    out.append(".");
    out.append(decimal_text(s.1).as_str());
    out
}

/// The texts of some versions.
pub open spec fn versions_shown(versions: Seq<Version>) -> Seq<Seq<char>> {
    versions.map_values(|v: Version| v.shown())
}

/// The versions as text with commas between them, or `none`.
pub open spec fn versions_joined(versions: Seq<Version>) -> Seq<char> {
    if versions.len() == 0 {
        "none"@
    } else {
        joined(versions_shown(versions), ", "@)
    }
}

/// Comma-join versions for an "available: …" message, or `none`.
pub fn join_versions(versions: &[Version]) -> (r: String)
    ensures
        r@ == versions_joined(versions@),
{
    let n: usize = versions.len();
    if n == 0 {
        return "none".to_owned();
    }
    let mut shown: Vec<String> = Vec::new();
    for i in 0..n
        invariant
            n == versions@.len(),
            texts(shown@) == versions_shown(versions@).take(i as int),
    {
        let ghost before = shown@;
        let text = versions[i].to_string();
        shown.push(text);
        proof {
            assert(texts(shown@) == texts(before).push(text@));
            assert(versions_shown(versions@).take(i as int + 1) == versions_shown(versions@).take(
                i as int,
            ).push(text@));
        }
    }
    assert(versions_shown(versions@).take(n as int) == versions_shown(versions@));
    join_texts(shown.as_slice(), ", ")
}

// ── what versions mean ────────────────────────────────────────────────────────

/// The order is numeric, and an earlier number goes before every later one.
pub proof fn law_versions_ordered_by_number(a: Version, b: Version)
    ensures
        a.major < b.major ==> a.before(b),
        a.major == b.major && a.minor < b.minor ==> a.before(b),
        a.major == b.major && a.minor == b.minor ==> (a.before(b) <==> a.patch < b.patch),
{
}

/// Whether a version is supported is a matter of its series alone: it lies between the
/// lowest and the highest supported series, both included.
pub proof fn law_support_window(v: Version, patch: u64)
    ensures
        v.supported() == (Version { major: v.major, minor: v.minor, patch }).supported(),
        v.supported() <==> {
            let low = Version {
                major: MIN_SUPPORTED_MINOR.0,
                minor: MIN_SUPPORTED_MINOR.1,
                patch: 0,
            };
            let high = Version {
                major: MAX_SUPPORTED_MINOR.0,
                minor: MAX_SUPPORTED_MINOR.1,
                patch: u64::MAX,
            };
            !v.before(low) && !high.before(v)
        },
{
}

/// Three numbers with dots between them are a version, with white space around it and a
/// `v` in front or without; where one of the three is no number, they are none.
pub proof fn law_version_of_three_numbers(
    front: Seq<char>,
    a: Seq<char>,
    b: Seq<char>,
    c: Seq<char>,
    back: Seq<char>,
)
    requires
        plain(a) && plain(b) && plain(c),
        forall|i: int| 0 <= i < front.len() ==> white_space(#[trigger] front[i]),
        forall|i: int| 0 <= i < back.len() ==> white_space(#[trigger] back[i]),
    ensures
        ({
            let text = a + seq!['.'] + b + seq!['.'] + c;
            let version = match (parsed_u64(a), parsed_u64(b), parsed_u64(c)) {
                (Some(major), Some(minor), Some(patch)) => Some(Version { major, minor, patch }),
                _ => None,
            };
            &&& Version::parsed(front + text + back) == version
            &&& Version::parsed(front + (seq!['v'] + text) + back) == version
        }),
{
    let text = a + seq!['.'] + b + seq!['.'] + c;
    let bc = b + seq!['.'] + c;
    assert(text == a + seq!['.'] + bc);
    lemma_split_cons(a, '.', bc);
    lemma_split_cons(b, '.', c);
    lemma_split_one(c, '.');
    assert(split(text, '.') == seq![a, b, c]);
    assert(text[0] == a[0] && text.last() == c.last());
    assert(c.last() == c[c.len() - 1]);
    law_trimmed(front, text, back);
    let tagged = seq!['v'] + text;
    assert(tagged.last() == text.last());
    law_trimmed(front, tagged, back);
    assert(tagged.skip(1) == text);
}

/// Whether a piece of a version is not empty and holds no dot, no white space and no
/// `v`.
pub open spec fn plain(piece: Seq<char>) -> bool {
    &&& piece.len() > 0
    &&& forall|i: int|
        0 <= i < piece.len() ==> #[trigger] piece[i] != '.' && piece[i] != 'v' && !white_space(
            piece[i],
        )
}

/// What is a version has exactly two dots in it, and a number on each side of them.
pub proof fn law_nothing_else_is_a_version(s: Seq<char>)
    ensures
        Version::parsed(s) is Some ==> {
            let t = trimmed(s);
            let body = if t.len() > 0 && t[0] == 'v' {
                t.skip(1)
            } else {
                t
            };
            exists|a: Seq<char>, b: Seq<char>, c: Seq<char>|
                body == a + seq!['.'] + b + seq!['.'] + c && !a.contains('.') && !b.contains('.')
                    && !c.contains('.') && #[trigger] numbers(a, b, c, Version::parsed(s)->0)
        },
{
    if Version::parsed(s) is Some {
        let t = trimmed(s);
        let body = if t.len() > 0 && t[0] == 'v' {
            t.skip(1)
        } else {
            t
        };
        let parts = split(body, '.');
        law_split_pieces(body, '.');
        let (a, b, c) = (parts[0], parts[1], parts[2]);
        assert(parts == seq![a] + seq![b, c]);
        law_joined_front(a, seq![b, c], seq!['.']);
        assert(seq![b, c] == seq![b] + seq![c]);
        law_joined_front(b, seq![c], seq!['.']);
        law_joined_front(c, seq![], seq!['.']);
        assert(body == a + seq!['.'] + b + seq!['.'] + c);
        assert(numbers(a, b, c, Version::parsed(s)->0));
    }
}

/// Whether three texts are the numbers of a version.
pub open spec fn numbers(a: Seq<char>, b: Seq<char>, c: Seq<char>, v: Version) -> bool {
    parsed_u64(a) == Some(v.major) && parsed_u64(b) == Some(v.minor) && parsed_u64(c) == Some(
        v.patch,
    )
}

/// Without an argument the default is asked for; `nightly` in any letter case asks for
/// the nightly; anything else asks for the version that it denotes, or for nothing.
pub proof fn law_release_argument(s: Seq<char>)
    ensures
        requested_release(None) == Some(ReleaseSpec::Default),
        same_ignoring_case(s, "nightly"@) ==> requested_release(Some(s)) == Some(
            ReleaseSpec::Nightly,
        ),
        !same_ignoring_case(s, "nightly"@) && Version::parsed(s) is Some ==> requested_release(
            Some(s),
        ) == Some(ReleaseSpec::Exact(Version::parsed(s)->0)),
        !same_ignoring_case(s, "nightly"@) && Version::parsed(s) is None ==> requested_release(
            Some(s),
        ) is None,
{
}

/// A series is shown as its two numbers, and a version as the series and the patch.
pub proof fn law_series_in_version(v: Version)
    ensures
        v.shown() == series_shown((v.major, v.minor)) + "."@ + decimal(v.patch as nat),
        split(series_shown((v.major, v.minor)), '.') == seq![
            decimal(v.major as nat),
            decimal(v.minor as nat),
        ],
{
    reveal_strlit(".");
    assert("."@ == seq!['.']);
    lemma_decimal(v.major as nat);
    lemma_decimal(v.minor as nat);
    let a = decimal(v.major as nat);
    let b = decimal(v.minor as nat);
    assert forall|j: int| 0 <= j < a.len() implies a[j] != '.' by {
        assert(is_digit(a[j]));
    }
    assert forall|j: int| 0 <= j < b.len() implies b[j] != '.' by {
        assert(is_digit(b[j]));
    }
    lemma_split_cons(a, '.', b);
    lemma_split_one(b, '.');
}

/// Every version of a list is in the text for it, in order, with commas between; an empty
/// list is `none`.
pub proof fn law_versions_joined(first: Version, others: Seq<Version>)
    ensures
        versions_joined(seq![]) == "none"@,
        versions_joined(seq![first]) == first.shown(),
        others.len() > 0 ==> versions_joined(seq![first] + others) == first.shown() + ", "@
            + versions_joined(others),
{
    assert(versions_shown(seq![first]) == seq![first.shown()]);
    assert(versions_shown(seq![first] + others) == seq![first.shown()] + versions_shown(others));
    law_joined_front(first.shown(), versions_shown(others), ", "@);
}

/// Comparing two versions tells which comes first, by number; they are equal exactly where
/// all three numbers are.
pub proof fn law_comparison(a: Version, b: Version)
    ensures
        a.partial_cmp_spec(&b) == Some(Ordering::Less) <==> a.before(b),
        a.partial_cmp_spec(&b) == Some(Ordering::Greater) <==> b.before(a),
        a.partial_cmp_spec(&b) == Some(Ordering::Equal) <==> a.major == b.major && a.minor
            == b.minor && a.patch == b.patch,
{
}

/// The versions that this program is tested with are those of the series 0.1, whatever
/// their patch, and no others.
pub proof fn law_supported_series(v: Version)
    ensures
        v.supported() <==> v.major == 0 && v.minor == 1,
{
}

} // verus!
