//! Which cargo target a test binary stands for, and which targets of a package
//! hold proofs.

use vstd::prelude::*;

use crate::json::{find_member, member, Json};
use crate::nextest::BINARY_ID_ENV;
use crate::text::{
    chars_of, find_char, has_text, lemma_position_unique, opt_text, opt_texts, position, same_text,
    starts_with, texts,
};

verus! {

// ── what a probed binary stands for ───────────────────────────────────────────

/// Which kind of cargo target a probed binary is.
#[derive(Debug)]
pub enum TargetKind {
    /// `pkg`: the library or proc-macro unit-test binary; analysed as crate
    /// source.
    Lib,
    /// `pkg::name`: the integration-test target `tests/name/`.
    IntegrationTest(String),
    /// `pkg::kind/name`: a bin, example or bench unit-test binary. The string is
    /// the kind. soteria-rust cannot analyse these.
    Other(String),
}

/// The cargo target a probed binary represents, parsed from its binary ID.
#[derive(Debug)]
pub struct ProbedBinary {
    pub package: String,
    pub target: TargetKind,
}

/// What a target kind holds.
pub enum TargetModel {
    Lib,
    IntegrationTest(Seq<char>),
    Other(Seq<char>),
}

/// What a probed binary holds.
pub struct BinaryModel {
    pub package: Seq<char>,
    pub target: TargetModel,
}

impl View for TargetKind {
    type V = TargetModel;

    open spec fn view(&self) -> TargetModel {
        match self {
            TargetKind::Lib => TargetModel::Lib,
            TargetKind::IntegrationTest(name) => TargetModel::IntegrationTest(name@),
            TargetKind::Other(kind) => TargetModel::Other(kind@),
        }
    }
}

impl View for ProbedBinary {
    type V = BinaryModel;

    open spec fn view(&self) -> BinaryModel {
        BinaryModel { package: self.package@, target: self.target@ }
    }
}

/// The index of the first `::` in `s`, or the length of `s` where there is none.
pub open spec fn double_colon(s: Seq<char>) -> nat
    decreases s.len(),
{
    if s.len() < 2 {
        s.len()
    } else if s[0] == ':' && s[1] == ':' {
        0
    } else {
        1 + double_colon(s.skip(1))
    }
}

/// What a binary ID stands for.
pub open spec fn parsed_binary(id: Seq<char>) -> BinaryModel {
    let i = double_colon(id) as int;
    if i >= id.len() {
        BinaryModel { package: id, target: TargetModel::Lib }
    } else {
        let rest = id.skip(i + 2);
        let slash = position(rest, '/') as int;
        BinaryModel {
            package: id.take(i),
            target: if slash >= rest.len() {
                TargetModel::IntegrationTest(rest)
            } else {
                TargetModel::Other(rest.take(slash))
            },
        }
    }
}

proof fn lemma_double_colon(s: Seq<char>, i: int)
    requires
        0 <= i <= s.len(),
        forall|j: int| 0 <= j < i && j + 1 < s.len() ==> !(s[j] == ':' && #[trigger] s[j + 1] == ':'),
        i == s.len() || (i + 1 < s.len() && s[i] == ':' && s[i + 1] == ':'),
    ensures
        double_colon(s) == i,
    decreases s.len(),
{
    if s.len() >= 2 && i > 0 {
        let t = s.skip(1);
        assert(!(s[0] == ':' && s[0int + 1] == ':'));
        assert forall|j: int| 0 <= j < i - 1 && j + 1 < t.len() implies !(t[j] == ':' && #[trigger] t[j
            + 1] == ':') by {
            assert(t[j] == s[j + 1] && t[j + 1] == s[j + 1 + 1]);
        }
        lemma_double_colon(t, i - 1);
    }
}

/// The message for a run without a binary ID.
pub open spec fn missing_binary_id() -> Seq<char> {
    BINARY_ID_ENV@
        + " is not set while listing tests.\n  `cargo soteria nextest` requires cargo-nextest 0.9.138 or newer; see https://nexte.st/docs/installation/pre-built-binaries/ or install from source with `cargo install cargo-nextest --locked`."@
}

/// The message for a target that soteria-rust cannot analyse.
pub open spec fn unsupported_target(kind: Seq<char>, package: Seq<char>) -> Seq<char> {
    "cargo-soteria can't analyse "@ + kind + " targets (in package `"@ + package
        + "`); only the library and integration tests are supported."@
}

/// The soteria `--test` profile of a target: `None` for the library, the name of
/// an integration test, or the message for any other target.
pub open spec fn profile_of(binary: BinaryModel) -> Result<Option<Seq<char>>, Seq<char>> {
    match binary.target {
        TargetModel::Lib => Ok(None),
        TargetModel::IntegrationTest(name) => Ok(Some(name)),
        TargetModel::Other(kind) => Err(unsupported_target(kind, binary.package)),
    }
}

impl ProbedBinary {
    /// The probed binary, from the value of [`BINARY_ID_ENV`].
    pub fn from_env(id: Option<&str>) -> (r: Result<ProbedBinary, String>)
        ensures
            match id {
                Some(text) => r matches Ok(b) && b@ == parsed_binary(text@),
                None => r matches Err(e) && e@ == missing_binary_id(),
            },
    {
        match id {
            Some(text) => Ok(ProbedBinary::parse(text)),
            None => {
                let mut msg = BINARY_ID_ENV.to_owned();
                msg.append(
                    " is not set while listing tests.\n  `cargo soteria nextest` requires cargo-nextest 0.9.138 or newer; see https://nexte.st/docs/installation/pre-built-binaries/ or install from source with `cargo install cargo-nextest --locked`.",
                );
                Err(msg)
            },
        }
    }

    /// Parse the binary ID format: `pkg`, `pkg::name` or `pkg::kind/name`.
    pub fn parse(id: &str) -> (r: ProbedBinary)
        ensures
            r@ == parsed_binary(id@),
    {
        let cs = chars_of(id);
        let n: usize = cs.len();
        let mut i: usize = 0;
        while i < n && !(i + 1 < n && cs[i] == ':' && cs[i + 1] == ':')
            invariant
                n == cs@.len(),
                i <= n,
                forall|j: int|
                    0 <= j < i && j + 1 < n ==> !(cs@[j] == ':' && #[trigger] cs@[j + 1] == ':'),
            decreases n - i,
        {
            i = i + 1;
        }
        proof {
            lemma_double_colon(id@, i as int);
        }
        if i >= n {
            return ProbedBinary { package: id.to_owned(), target: TargetKind::Lib };
        }
        assert(id@.subrange(i as int + 2, n as int) == id@.skip(i as int + 2));
        assert(id@.subrange(0, i as int) == id@.take(i as int));
        let package = id.substring_char(0, i).to_owned();
        let rest = id.substring_char(i + 2, n);
        let slash: usize = find_char(rest, '/');
        let target = if slash >= rest.unicode_len() {
            TargetKind::IntegrationTest(rest.to_owned())
        } else {
            proof {
                assert(rest@.subrange(0, slash as int) == rest@.take(slash as int));
            }
            TargetKind::Other(rest.substring_char(0, slash).to_owned())
        };
        ProbedBinary { package, target }
    }

    /// The soteria `--test` profile: `None` means the library target,
    /// `Some(name)` the integration-test target `name`. Soteria does not support
    /// other targets like `bin` or `example`: those give the message to fail
    /// with.
    pub fn test_target(&self) -> (r: Result<Option<&str>, String>)
        ensures
            match profile_of(self@) {
                Ok(profile) => r matches Ok(p) && opt_text(p) == profile,
                Err(message) => r matches Err(e) && e@ == message,
            },
    {
        match &self.target {
            TargetKind::Lib => Ok(None),
            TargetKind::IntegrationTest(name) => Ok(Some(name.as_str())),
            TargetKind::Other(kind) => {
                let mut msg = "cargo-soteria can't analyse ".to_owned();
                msg.append(kind.as_str());
                msg.append(" targets (in package `");
                msg.append(self.package.as_str());
                msg.append("`); only the library and integration tests are supported.");
                Err(msg)
            },
        }
    }
}

/// The three forms of a binary ID: a package name alone stands for the library,
/// `pkg::name` for an integration test, `pkg::kind/name` for another kind of
/// target. A package name has no colon in it, a target name no slash.
pub proof fn law_binary_id_forms(package: Seq<char>, name: Seq<char>, kind: Seq<char>)
    requires
        !package.contains(':'),
        !name.contains('/'),
        !kind.contains('/'),
    ensures
        parsed_binary(package) == (BinaryModel { package, target: TargetModel::Lib }),
        parsed_binary(package + "::"@ + name) == (BinaryModel {
            package,
            target: TargetModel::IntegrationTest(name),
        }),
        parsed_binary(package + "::"@ + kind + "/"@ + name) == (BinaryModel {
            package,
            target: TargetModel::Other(kind),
        }),
{
    reveal_strlit("::");
    reveal_strlit("/");
    let n = package.len() as int;
    assert forall|j: int| 0 <= j < n implies package[j] != ':' by {
        assert(package.contains(package[j]));
    }
    lemma_double_colon(package, n);
    let a = package + "::"@ + name;
    lemma_double_colon(a, n);
    assert(a.skip(n + 2) == name);
    assert(a.take(n) == package);
    assert forall|j: int| 0 <= j < name.len() implies name[j] != '/' by {
        assert(name.contains(name[j]));
    }
    lemma_position_unique(name, '/', name.len() as int);
    let b = package + "::"@ + kind + "/"@ + name;
    lemma_double_colon(b, n);
    let rest = kind + "/"@ + name;
    assert(b.skip(n + 2) == rest);
    assert(b.take(n) == package);
    assert forall|j: int| 0 <= j < kind.len() implies rest[j] != '/' by {
        assert(kind.contains(kind[j]));
    }
    lemma_position_unique(rest, '/', kind.len() as int);
    assert(rest.take(kind.len() as int) == kind);
}

// ── default target selection ──────────────────────────────────────────────────

/// The crate's declared default proof targets, as they stand in
/// `[package.metadata.soteria.default-targets]`:
///
/// ```toml
/// [package.metadata.soteria.default-targets]
/// lib = true            # analyse src/ `#[soteria::test]` proofs (the default)
/// test = ["soteria"]    # integration-test targets that are proof harnesses
/// ```
///
/// Both keys are optional.
#[derive(Debug)]
pub struct DefaultTargets {
    pub lib: bool,
    pub test: Vec<String>,
}

/// What the declared default targets hold.
#[verifier::ext_equal]
pub struct TargetsModel {
    pub lib: bool,
    pub test: Seq<Seq<char>>,
}

impl View for DefaultTargets {
    type V = TargetsModel;

    open spec fn view(&self) -> TargetsModel {
        TargetsModel { lib: self.lib, test: texts(self.test@) }
    }
}

/// The default value for `lib`: true.
pub fn default_lib() -> (r: bool)
    ensures
        r,
{
    true
}

/// The targets of a package without a declaration: the library is analysed, and
/// no integration test.
pub open spec fn undeclared_targets() -> TargetsModel {
    TargetsModel { lib: true, test: seq![] }
}

impl Default for DefaultTargets {
    /// A package with no `default-targets` table behaves like an empty one:
    /// analyse the library, but do not look at integration-test targets.
    fn default() -> (r: DefaultTargets)
        ensures
            r@ == undeclared_targets(),
    {
        DefaultTargets { lib: default_lib(), test: Vec::new() }
    }
}

/// The value of `lib` in a declaration: a boolean, by default true.
pub open spec fn declared_lib(value: Option<Json>) -> Option<bool> {
    match value {
        None => Some(true),
        Some(Json::Bool(b)) => Some(b),
        Some(_) => None,
    }
}

/// The value of `test` in a declaration: an array of strings, by default empty.
pub open spec fn declared_test(value: Option<Json>) -> Option<Seq<Seq<char>>> {
    match value {
        None => Some(seq![]),
        Some(Json::Array(items)) => if forall|i: int|
            0 <= i < items@.len() ==> (#[trigger] items@[i]) is Str {
            Some(items@.map_values(|j: Json| j->Str_0@))
        } else {
            None
        },
        Some(_) => None,
    }
}

/// Whether every member of a declaration has a key that is known there.
pub open spec fn keys_known(fields: Seq<(String, Json)>) -> bool {
    forall|i: int|
        0 <= i < fields.len() ==> (#[trigger] fields[i]).0@ == "lib"@ || fields[i].0@ == "test"@
}

/// The element of an array at an index, where it has one.
pub open spec fn element(items: Seq<Json>, i: int) -> Option<Json> {
    if 0 <= i < items.len() {
        Some(items[i])
    } else {
        None
    }
}

/// The targets that `lib` and `test` declare together.
pub open spec fn both_declared(lib: Option<bool>, test: Option<Seq<Seq<char>>>) -> Option<
    TargetsModel,
> {
    match (lib, test) {
        (Some(l), Some(t)) => Some(TargetsModel { lib: l, test: t }),
        _ => None,
    }
}

/// The targets that a declaration declares, where it is valid: a table with no
/// keys but `lib` and `test`, or the values of the two in an array.
pub open spec fn declared_targets(declaration: Json) -> Option<TargetsModel> {
    match declaration {
        Json::Object(fields) => if keys_known(fields@) {
            both_declared(
                declared_lib(member(fields@, "lib"@)),
                declared_test(member(fields@, "test"@)),
            )
        } else {
            None
        },
        Json::Array(items) => if items@.len() <= 2 {
            both_declared(declared_lib(element(items@, 0)), declared_test(element(items@, 1)))
        } else {
            None
        },
        _ => None,
    }
}

fn read_lib(value: Option<&Json>) -> (r: Option<bool>)
    ensures
        r == declared_lib(match value {
            Some(v) => Some(*v),
            None => None,
        }),
{
    match value {
        None => Some(default_lib()),
        Some(Json::Bool(b)) => Some(*b),
        Some(_) => None,
    }
}

fn read_test(value: Option<&Json>) -> (r: Option<Vec<String>>)
    ensures
        opt_texts(r) == declared_test(match value {
            Some(v) => Some(*v),
            None => None,
        }),
{
    match value {
        None => {
            let out: Vec<String> = Vec::new();
            assert(texts(out@) == Seq::<Seq<char>>::empty());
            Some(out)
        },
        Some(Json::Array(items)) => {
            let mut out: Vec<String> = Vec::new();
            let n: usize = items.len();
            let ghost views = items@.map_values(|j: Json| j->Str_0@);
            for i in 0..n
                invariant
                    n == items@.len(),
                    value == Some(&Json::Array(*items)),
                    views == items@.map_values(|j: Json| j->Str_0@),
                    forall|j: int| 0 <= j < i ==> (#[trigger] items@[j]) is Str,
                    texts(out@) == views.take(i as int),
            {
                match &items[i] {
                    Json::Str(s) => {
                        let ghost before = out@;
                        let text = s.clone();
                        out.push(text);
                        assert(texts(out@) == texts(before).push(text@));
                        assert(views.take(i as int + 1) == views.take(i as int).push(text@));
                    },
                    _ => {
                        assert(!(items@[i as int] is Str));
                        return None;
                    },
                }
            }
            assert(views.take(n as int) == views);
            Some(out)
        },
        Some(_) => None,
    }
}

impl DefaultTargets {
    /// Read a declaration. A key that is not known is rejected rather than
    /// silently ignored.
    pub fn from_json(declaration: &Json) -> (r: Option<DefaultTargets>)
        ensures
            match r {
                Some(t) => declared_targets(*declaration) == Some(t@),
                None => declared_targets(*declaration) is None,
            },
    {
        let (lib, test) = match declaration {
            Json::Object(fields) => {
                let n: usize = fields.len();
                for i in 0..n
                    invariant
                        n == fields@.len(),
                        *declaration == Json::Object(*fields),
                        forall|j: int|
                            0 <= j < i ==> (#[trigger] fields@[j]).0@ == "lib"@ || fields@[j].0@
                                == "test"@,
                {
                    let key = fields[i].0.as_str();
                    if !same_text(key, "lib") && !same_text(key, "test") {
                        assert(!keys_known(fields@));
                        return None;
                    }
                }
                (read_lib(find_member(fields, "lib")), read_test(find_member(fields, "test")))
            },
            Json::Array(items) => {
                if items.len() > 2 {
                    return None;
                }
                let first = if items.len() > 0 {
                    Some(&items[0])
                } else {
                    None
                };
                let second = if items.len() > 1 {
                    Some(&items[1])
                } else {
                    None
                };
                (read_lib(first), read_test(second))
            },
            _ => {
                return None;
            },
        };
        match (lib, test) {
            (Some(lib), Some(test)) => Some(DefaultTargets { lib, test }),
            _ => None,
        }
    }
}

/// One entry of `cargo metadata`'s `packages` array, as far as it is read.
pub struct MetadataPackage {
    pub name: String,
    pub id: String,
    /// The `[package.metadata]` table, if there is one.
    pub metadata: Option<Json>,
}

/// The subset of the shared cargo metadata the runner reads.
pub struct RunnerCargoMetadata {
    pub packages: Vec<MetadataPackage>,
    pub workspace_members: Vec<String>,
}

/// Why a package has no default targets.
pub enum TargetsError<'a> {
    /// No workspace package has that name.
    UnknownPackage,
    /// The package's declaration is not valid.
    InvalidDeclaration(&'a Json),
}

/// The first package with this name that is a member of the workspace.
pub open spec fn workspace_package(
    packages: Seq<MetadataPackage>,
    members: Seq<Seq<char>>,
    package: Seq<char>,
) -> Option<MetadataPackage>
    decreases packages.len(),
{
    if packages.len() == 0 {
        None
    } else if packages[0].name@ == package && members.contains(packages[0].id@) {
        Some(packages[0])
    } else {
        workspace_package(packages.skip(1), members, package)
    }
}

/// The declaration of a package: what stands at `soteria.default-targets` in its
/// `[package.metadata]` table.
pub open spec fn declaration_of(package: MetadataPackage) -> Option<Json> {
    match package.metadata {
        Some(m) => match m.at("soteria"@) {
            Some(s) => s.at("default-targets"@),
            None => None,
        },
        None => None,
    }
}

/// The effective targets of a package: those it declares, or else the default;
/// `None` where its declaration is not valid.
pub open spec fn effective_targets(package: MetadataPackage) -> Option<TargetsModel> {
    match declaration_of(package) {
        Some(declaration) => declared_targets(declaration),
        None => Some(undeclared_targets()),
    }
}

impl RunnerCargoMetadata {
    /// The workspace package with this name.
    pub open spec fn package_named(self, package: Seq<char>) -> Option<MetadataPackage> {
        workspace_package(self.packages@, texts(self.workspace_members@), package)
    }

    /// The named package's effective `default-targets`.
    ///
    /// The lookup is restricted to workspace members so a same-named transitive
    /// dependency cannot shadow the workspace package that nextest probed.
    pub fn default_targets_for(&self, package: &str) -> (r: Result<DefaultTargets, TargetsError<'_>>)
        ensures
            match self.package_named(package@) {
                None => r matches Err(TargetsError::UnknownPackage),
                Some(p) => match effective_targets(p) {
                    Some(targets) => r matches Ok(t) && t@ == targets,
                    None => r matches Err(TargetsError::InvalidDeclaration(d)) && declaration_of(p)
                        == Some(*d),
                },
            },
    {
        let n: usize = self.packages.len();
        let ghost members = texts(self.workspace_members@);
        assert(self.packages@.skip(0) == self.packages@);
        let mut i: usize = 0;
        while i < n
            invariant
                n == self.packages@.len(),
                i <= n,
                members == texts(self.workspace_members@),
                workspace_package(self.packages@.skip(i as int), members, package@)
                    == self.package_named(package@),
            decreases n - i,
        {
            let p = &self.packages[i];
            assert(self.packages@.skip(i as int)[0] == *p);
            if same_text(p.name.as_str(), package) && has_text(
                self.workspace_members.as_slice(),
                p.id.as_str(),
            ) {
                return package_targets(p);
            }
            assert(self.packages@.skip(i as int).skip(1) == self.packages@.skip(i as int + 1));
            i = i + 1;
        }
        Err(TargetsError::UnknownPackage)
    }
}

/// The effective targets of a package, or its declaration where that is not
/// valid.
fn package_targets(p: &MetadataPackage) -> (r: Result<DefaultTargets, TargetsError<'_>>)
    ensures
        match effective_targets(*p) {
            Some(targets) => r matches Ok(t) && t@ == targets,
            None => r matches Err(TargetsError::InvalidDeclaration(d)) && declaration_of(*p) == Some(*d),
        },
{
    if let Some(m) = &p.metadata {
        if let Some(s) = m.get("soteria") {
            if let Some(declaration) = s.get("default-targets") {
                return match DefaultTargets::from_json(declaration) {
                    Some(t) => Ok(t),
                    None => Err(TargetsError::InvalidDeclaration(declaration)),
                };
            }
        }
    }
    Ok(DefaultTargets::default())
}

/// Whether a target is among some default targets.
pub open spec fn target_declared(targets: TargetsModel, target: TargetModel) -> bool {
    match target {
        TargetModel::Lib => targets.lib,
        TargetModel::IntegrationTest(name) => targets.test.contains(name),
        TargetModel::Other(_) => false,
    }
}

impl ProbedBinary {
    /// Whether this binary is a default target of its package.
    pub fn is_default_target<'a>(&self, metadata: &'a RunnerCargoMetadata) -> (r: Result<
        bool,
        TargetsError<'a>,
    >)
        ensures
            match metadata.package_named(self@.package) {
                None => r matches Err(TargetsError::UnknownPackage),
                Some(p) => match effective_targets(p) {
                    Some(targets) => r matches Ok(b) && b == target_declared(targets, self@.target),
                    None => r matches Err(TargetsError::InvalidDeclaration(d)) && declaration_of(p)
                        == Some(*d),
                },
            },
    {
        match metadata.default_targets_for(self.package.as_str()) {
            Err(e) => Err(e),
            Ok(declared) => match &self.target {
                TargetKind::Lib => Ok(declared.lib),
                TargetKind::IntegrationTest(name) => Ok(
                    has_text(declared.test.as_slice(), name.as_str()),
                ),
                TargetKind::Other(_) => Ok(false),
            },
        }
    }
}

/// A package that is no member of the workspace has no say in what a name stands
/// for: dropping it from the metadata changes nothing.
pub proof fn law_dependencies_are_ignored(
    before: Seq<MetadataPackage>,
    dependency: MetadataPackage,
    after: Seq<MetadataPackage>,
    members: Seq<Seq<char>>,
    package: Seq<char>,
)
    requires
        !members.contains(dependency.id@),
    ensures
        workspace_package(before + seq![dependency] + after, members, package)
            == workspace_package(before + after, members, package),
    decreases before.len(),
{
    let with = before + seq![dependency] + after;
    let without = before + after;
    if before.len() == 0 {
        assert(with.skip(1) == without);
    } else {
        law_dependencies_are_ignored(before.skip(1), dependency, after, members, package);
        assert(with.skip(1) == before.skip(1) + seq![dependency] + after);
        assert(without.skip(1) == before.skip(1) + after);
        assert(with[0] == before[0] && without[0] == before[0]);
    }
}

/// The message for a probed package that is not in the metadata.
pub open spec fn unknown_package(package: Seq<char>) -> Seq<char> {
    "Workspace package `"@ + package + "` (from "@ + BINARY_ID_ENV@
        + ") is not in the cargo metadata. This is a bug in `cargo soteria nextest`."@
}

/// The message for a package whose declaration is not valid.
pub open spec fn invalid_declaration(package: Seq<char>, reason: Seq<char>) -> Seq<char> {
    "Invalid `[package.metadata.soteria.default-targets]` for package `"@ + package + "`: "@
        + reason
        + "\n  Expected `lib` (a boolean) and/or `test` (an array of integration-test target names)."@
}

/// The messages name the package, and the reason where there is one.
pub proof fn law_messages_name_the_package(package: Seq<char>, reason: Seq<char>)
    ensures
        starts_with(unknown_package(package), "Workspace package `"@ + package + "`"@),
        starts_with(
            invalid_declaration(package, reason),
            "Invalid `[package.metadata.soteria.default-targets]` for package `"@ + package
                + "`: "@ + reason + "\n"@,
        ),
{
    reveal_strlit("`");
    reveal_strlit("` (from ");
    reveal_strlit("\n");
    reveal_strlit(
        "\n  Expected `lib` (a boolean) and/or `test` (an array of integration-test target names).",
    );
    let a = unknown_package(package);
    let head = "Workspace package `"@ + package + "`"@;
    assert("` (from "@[0] == '`');
    assert(a.len() >= head.len());
    assert(a.take(head.len() as int) =~= head);
    let b = invalid_declaration(package, reason);
    let front = "Invalid `[package.metadata.soteria.default-targets]` for package `"@ + package
        + "`: "@ + reason + "\n"@;
    assert(b.len() >= front.len());
    assert(b.take(front.len() as int) =~= front);
}

/// The message for a probed package that is not in the metadata.
pub fn unknown_package_message(package: &str) -> (r: String)
    ensures
        r@ == "Workspace package `"@ + package@ + "` (from "@ + BINARY_ID_ENV@
            + ") is not in the cargo metadata. This is a bug in `cargo soteria nextest`."@,
        r@ == unknown_package(package@),
{
    let mut msg = "Workspace package `".to_owned();
    msg.append(package);
    msg.append("` (from ");
    msg.append(BINARY_ID_ENV);
    msg.append(") is not in the cargo metadata. This is a bug in `cargo soteria nextest`.");
    msg
}

/// The message for a package whose declaration is not valid, for the reason
/// given.
pub fn invalid_declaration_message(package: &str, reason: &str) -> (r: String)
    ensures
        r@ == "Invalid `[package.metadata.soteria.default-targets]` for package `"@ + package@
            + "`: "@ + reason@
            + "\n  Expected `lib` (a boolean) and/or `test` (an array of integration-test target names)."@,
        r@ == invalid_declaration(package@, reason@),
{
    let mut msg = "Invalid `[package.metadata.soteria.default-targets]` for package `".to_owned();
    msg.append(package);
    msg.append("`: ");
    msg.append(reason);
    msg.append(
        "\n  Expected `lib` (a boolean) and/or `test` (an array of integration-test target names).",
    );
    msg
}

// ── what a declaration means ──────────────────────────────────────────────────

/// Every test target that is declared, at whatever place in the list, is a default
/// target, and no other is. The library is one exactly where it is declared so, and no
/// other kind of target ever is.
pub proof fn law_every_declared_test_counts(targets: TargetsModel, i: int, name: Seq<char>)
    ensures
        0 <= i < targets.test.len() ==> target_declared(
            targets,
            TargetModel::IntegrationTest(targets.test[i]),
        ),
        target_declared(targets, TargetModel::IntegrationTest(name)) ==> exists|k: int|
            0 <= k < targets.test.len() && #[trigger] targets.test[k] == name,
        target_declared(targets, TargetModel::Lib) == targets.lib,
        !target_declared(targets, TargetModel::Other(name)),
{
    if 0 <= i < targets.test.len() {
        assert(targets.test.contains(targets.test[i]));
    }
    if target_declared(targets, TargetModel::IntegrationTest(name)) {
        let k = choose|k: int| 0 <= k < targets.test.len() && targets.test[k] == name;
        assert(targets.test[k] == name);
    }
}

/// A table that declares test targets declares each of them, and the library unless it
/// says otherwise.
pub proof fn law_declared_in_metadata(
    package: MetadataPackage,
    fields: Vec<(String, Json)>,
    items: Vec<Json>,
    k: int,
    name: Seq<char>,
)
    requires
        declaration_of(package) == Some(Json::Object(fields)),
        forall|i: int|
            0 <= i < fields@.len() ==> (#[trigger] fields@[i]).0@ == "lib"@ || fields@[i].0@
                == "test"@,
        member(fields@, "lib"@) matches Some(lib) ==> lib is Bool,
        member(fields@, "test"@) == Some(Json::Array(items)),
        forall|i: int| 0 <= i < items@.len() ==> (#[trigger] items@[i]) is Str,
    ensures
        effective_targets(package) is Some,
        0 <= k < items@.len() ==> target_declared(
            effective_targets(package)->0,
            TargetModel::IntegrationTest(items@[k]->Str_0@),
        ),
        target_declared(effective_targets(package)->0, TargetModel::IntegrationTest(name))
            ==> exists|j: int| 0 <= j < items@.len() && (#[trigger] items@[j])->Str_0@ == name,
        target_declared(effective_targets(package)->0, TargetModel::Lib) == match member(
            fields@,
            "lib"@,
        ) {
            Some(lib) => lib->Bool_0,
            None => true,
        },
{
    let t = effective_targets(package)->0;
    assert(keys_known(fields@));
    if 0 <= k < items@.len() {
        assert(t.test[k] == items@[k]->Str_0@);
        assert(t.test.contains(t.test[k]));
    }
    if target_declared(t, TargetModel::IntegrationTest(name)) {
        let j = choose|j: int| 0 <= j < t.test.len() && t.test[j] == name;
        assert(items@[j]->Str_0@ == name);
    }
}

/// A table without test targets declares none, and one without anything the library
/// alone; so does a package without a table.
pub proof fn law_nothing_declared(package: MetadataPackage, name: Seq<char>)
    requires
        declaration_of(package) is None || (declaration_of(package) matches Some(
            Json::Object(fields),
        ) && fields@.len() == 0),
    ensures
        effective_targets(package) is Some,
        target_declared(effective_targets(package)->0, TargetModel::Lib),
        !target_declared(effective_targets(package)->0, TargetModel::IntegrationTest(name)),
{
}

/// A declaration with a key that is not known, or with a value of another type, is
/// refused.
pub proof fn law_bad_declarations_are_refused(fields: Vec<(String, Json)>, i: int)
    requires
        0 <= i < fields@.len(),
    ensures
        fields@[i].0@ != "lib"@ && fields@[i].0@ != "test"@ ==> declared_targets(
            Json::Object(fields),
        ) is None,
        member(fields@, "lib"@) matches Some(lib) && !(lib is Bool) ==> declared_targets(
            Json::Object(fields),
        ) is None,
        member(fields@, "test"@) matches Some(test) && !(test is Array) ==> declared_targets(
            Json::Object(fields),
        ) is None,
        member(fields@, "test"@) matches Some(Json::Array(items)) && (exists|j: int|
            0 <= j < items@.len() && !((#[trigger] items@[j]) is Str)) ==> declared_targets(
            Json::Object(fields),
        ) is None,
        declared_targets(Json::Null) is None,
        declared_targets(Json::Bool(true)) is None,
        declared_targets(Json::Bool(false)) is None,
{
}

/// The declaration is what stands under `default-targets` in the table under `soteria`
/// in the package's metadata.
pub proof fn law_declaration_place(
    package: MetadataPackage,
    outer: Vec<(String, Json)>,
    inner: Vec<(String, Json)>,
)
    requires
        package.metadata == Some(Json::Object(outer)),
    ensures
        member(outer@, "soteria"@) is None ==> declaration_of(package) is None,
        member(outer@, "soteria"@) == Some(Json::Object(inner)) ==> declaration_of(package)
            == member(inner@, "default-targets"@),
{
}

/// The package that a name stands for is the first of that name in the workspace; there
/// is none only where no package of the workspace has that name.
pub proof fn law_first_workspace_package(
    packages: Seq<MetadataPackage>,
    members: Seq<Seq<char>>,
    package: Seq<char>,
)
    ensures
        workspace_package(packages, members, package) matches Some(found) ==> exists|i: int|
            0 <= i < packages.len() && #[trigger] packages[i] == found && found.name@ == package
                && members.contains(found.id@) && forall|j: int|
                0 <= j < i ==> !((#[trigger] packages[j]).name@ == package && members.contains(
                    packages[j].id@,
                )),
        workspace_package(packages, members, package) is None ==> forall|j: int|
            0 <= j < packages.len() ==> !((#[trigger] packages[j]).name@ == package
                && members.contains(packages[j].id@)),
    decreases packages.len(),
{
    if packages.len() > 0 && !(packages[0].name@ == package && members.contains(packages[0].id@)) {
        let rest = packages.skip(1);
        law_first_workspace_package(rest, members, package);
        assert forall|j: int| 1 <= j < packages.len() implies #[trigger] packages[j] == rest[j
            - 1] by {}
        if workspace_package(packages, members, package) is Some {
            let found = workspace_package(packages, members, package)->0;
            let i = choose|i: int|
                0 <= i < rest.len() && #[trigger] rest[i] == found && found.name@ == package
                    && members.contains(found.id@) && forall|j: int|
                    0 <= j < i ==> !((#[trigger] rest[j]).name@ == package && members.contains(
                        rest[j].id@,
                    ));
            assert(packages[i + 1] == found);
            assert forall|j: int| 0 <= j < i + 1 implies !((#[trigger] packages[j]).name@ == package
                && members.contains(packages[j].id@)) by {
                if j > 0 {
                    assert(!(rest[j - 1].name@ == package && members.contains(rest[j - 1].id@)));
                }
            }
        }
    }
}

/// The library is analysed without a target selection and an integration test with its
/// name, whatever the package; other kinds of targets are refused, with the kind and
/// the package in the message.
pub proof fn law_profiles(package: Seq<char>, name: Seq<char>)
    ensures
        profile_of(BinaryModel { package, target: TargetModel::Lib }) == Ok::<
            Option<Seq<char>>,
            Seq<char>,
        >(None),
        profile_of(BinaryModel { package, target: TargetModel::IntegrationTest(name) }) == Ok::<
            Option<Seq<char>>,
            Seq<char>,
        >(Some(name)),
        profile_of(BinaryModel { package, target: TargetModel::Other(name) }) == Err::<
            Option<Seq<char>>,
            Seq<char>,
        >(
            "cargo-soteria can't analyse "@ + name + " targets (in package `"@ + package
                + "`); only the library and integration tests are supported."@,
        ),
{
}

/// The package of a binary ID is everything in front of its first `::`. What follows is an
/// integration test where there is no slash in it, and otherwise another kind of target,
/// whose kind is what stands in front of the first slash.
pub proof fn law_first_double_colon(package: Seq<char>, kind: Seq<char>, rest: Seq<char>)
    requires
        forall|j: int|
            0 <= j && j + 1 < package.len() ==> !(package[j] == ':' && #[trigger] package[j + 1]
                == ':'),
        package.len() > 0 ==> package.last() != ':',
        !kind.contains('/'),
    ensures
        parsed_binary(package) == (BinaryModel { package, target: TargetModel::Lib }),
        parsed_binary(package + "::"@ + kind) == (BinaryModel {
            package,
            target: TargetModel::IntegrationTest(kind),
        }),
        parsed_binary(package + "::"@ + (kind + "/"@ + rest)) == (BinaryModel {
            package,
            target: TargetModel::Other(kind),
        }),
{
    reveal_strlit("::");
    reveal_strlit("/");
    let n = package.len() as int;
    lemma_double_colon(package, n);
    assert forall|j: int| 0 <= j < kind.len() implies kind[j] != '/' by {
        assert(kind.contains(kind[j]));
    }
    let a = package + "::"@ + kind;
    lemma_colons_behind(package, kind);
    assert(a.skip(n + 2) == kind);
    assert(a.take(n) == package);
    lemma_position_unique(kind, '/', kind.len() as int);
    let named = kind + "/"@ + rest;
    let b = package + "::"@ + named;
    lemma_colons_behind(package, named);
    assert(b.skip(n + 2) == named);
    assert(b.take(n) == package);
    assert forall|j: int| 0 <= j < kind.len() implies named[j] != '/' by {
        assert(named[j] == kind[j]);
    }
    lemma_position_unique(named, '/', kind.len() as int);
    assert(named.take(kind.len() as int) == kind);
}

proof fn lemma_colons_behind(package: Seq<char>, rest: Seq<char>)
    requires
        forall|j: int|
            0 <= j && j + 1 < package.len() ==> !(package[j] == ':' && #[trigger] package[j + 1]
                == ':'),
        package.len() > 0 ==> package.last() != ':',
    ensures
        double_colon(package + "::"@ + rest) == package.len(),
{
    reveal_strlit("::");
    let id = package + "::"@ + rest;
    let n = package.len() as int;
    assert forall|j: int| 0 <= j < n && j + 1 < id.len() implies !(id[j] == ':' && #[trigger] id[j
        + 1] == ':') by {
        if j + 1 < n {
            assert(id[j] == package[j] && id[j + 1] == package[j + 1]);
        } else {
            assert(id[j] == package.last());
        }
    }
    lemma_double_colon(id, n);
}

/// A declaration may also be an array of the two values, of which the later ones can be
/// left out.
pub proof fn law_declared_by_position(items: Vec<Json>, names: Vec<Json>, k: int)
    requires
        forall|i: int| 0 <= i < names@.len() ==> (#[trigger] names@[i]) is Str,
    ensures
        items@.len() > 2 ==> declared_targets(Json::Array(items)) is None,
        items@.len() == 0 ==> declared_targets(Json::Array(items)) == Some(
            TargetsModel { lib: true, test: seq![] },
        ),
        items@.len() == 1 && items@[0] is Bool ==> declared_targets(Json::Array(items)) == Some(
            TargetsModel { lib: items@[0]->Bool_0, test: seq![] },
        ),
        items@.len() >= 1 && !(items@[0] is Bool) ==> declared_targets(Json::Array(items)) is None,
        items@.len() == 2 && items@[0] is Bool && items@[1] == Json::Array(names) ==> (
        declared_targets(Json::Array(items)) matches Some(targets) && targets.lib
            == items@[0]->Bool_0 && targets.test.len() == names@.len() && (0 <= k < names@.len()
            ==> targets.test[k] == names@[k]->Str_0@)),
        items@.len() == 2 && !(items@[1] is Array) ==> declared_targets(Json::Array(items)) is None,
{
}

/// Without metadata, or with metadata that is no table, nothing is declared; and what
/// stands in another place is no declaration.
pub proof fn law_no_declaration(package: MetadataPackage)
    ensures
        package.metadata is None ==> declaration_of(package) is None,
        package.metadata matches Some(m) ==> !(m is Object) ==> declaration_of(package) is None,
        package.metadata matches Some(Json::Object(outer)) ==> (member(outer@, "soteria"@)
            matches Some(s) ==> !(s is Object) ==> declaration_of(package) is None),
{
}

/// The package that a name stands for in some metadata is a package of that name which the
/// workspace has among its members; and there is one wherever there is such a package.
pub proof fn law_package_of_the_workspace(
    metadata: RunnerCargoMetadata,
    package: Seq<char>,
    i: int,
    k: int,
)
    ensures
        metadata.package_named(package) matches Some(found) ==> found.name@ == package && (exists|
            m: int,
        |
            0 <= m < metadata.workspace_members@.len()
                && (#[trigger] metadata.workspace_members@[m])@ == found.id@),
        0 <= i < metadata.packages@.len() && 0 <= k < metadata.workspace_members@.len()
            && metadata.packages@[i].name@ == package && metadata.packages@[i].id@
            == metadata.workspace_members@[k]@ ==> metadata.package_named(package) is Some,
{
    let members = texts(metadata.workspace_members@);
    law_first_workspace_package(metadata.packages@, members, package);
    if metadata.package_named(package) is Some {
        let found = metadata.package_named(package)->0;
        let m = choose|m: int| 0 <= m < members.len() && members[m] == found.id@;
        assert(metadata.workspace_members@[m]@ == found.id@);
    }
    if 0 <= k < members.len() {
        assert(members[k] == metadata.workspace_members@[k]@);
        assert(members.contains(members[k]));
    }
}

} // verus!
