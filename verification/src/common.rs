//! Where things are installed: the path of the install tree and of what lies in
//! it. Paths are `/`-separated text.

use vstd::prelude::*;

use crate::text::opt_text;

verus! {

/// Name of the single directory the installed soteria-rust toolchain lives in.
/// A fixed name (rather than a per-version folder) keeps only one copy on disk;
/// the release that is installed is recorded in the `VERSION` file inside it.
pub const RELEASE_DIR: &'static str = "soteria-release";

/// The path `name` taken relative to `base`. An absolute `name` stands for
/// itself.
pub open spec fn path_joined(base: Seq<char>, name: Seq<char>) -> Seq<char> {
    if name.len() > 0 && name[0] == '/' {
        name
    } else if base.len() == 0 || base.last() == '/' {
        base + name
    } else {
        base + "/"@ + name
    }
}

/// The path `name` taken relative to `base`.
pub fn path_join(base: &str, name: &str) -> (r: String)
    ensures
        r@ == path_joined(base@, name@),
{
    let b: usize = base.unicode_len();
    if name.unicode_len() > 0 && name.get_char(0) == '/' {
        return name.to_owned();
    }
    let mut out = base.to_owned();
    if b > 0 && base.get_char(b - 1) != '/' {
        out.append("/");
    }
    out.append(name);
    out
}

/// The root of the install tree: `$SOTERIA_HOME` if set, else `~/.soteria`.
pub open spec fn base_dir(soteria_home: Option<Seq<char>>, home: Option<Seq<char>>) -> Seq<char> {
    match soteria_home {
        Some(h) => h,
        None => path_joined(home->0, ".soteria"@),
    }
}

/// The root of the install tree, from the values of `SOTERIA_HOME` and `HOME`:
/// `$SOTERIA_HOME` if set, else `~/.soteria`.
pub fn soteria_base_dir(soteria_home: Option<&str>, home: Option<&str>) -> (r: String)
    requires
        soteria_home is Some || home is Some,
    ensures
        r@ == base_dir(opt_text(soteria_home), opt_text(home)),
{
    match soteria_home {
        Some(h) => h.to_owned(),
        None => path_join(home.unwrap(), ".soteria"),
    }
}

/// The install directory under the root `base`.
pub open spec fn package_path(base: Seq<char>) -> Seq<char> {
    path_joined(base, RELEASE_DIR@)
}

/// The install directory for the toolchain this binary manages:
/// `<base>/soteria-release`. A fixed folder that is overwritten on each install.
pub fn package_dir(base: &str) -> (r: String)
    ensures
        r@ == package_path(base@),
{
    path_join(base, RELEASE_DIR)
}

/// The staging directory under the root `base`.
pub open spec fn staging_path(base: Seq<char>) -> Seq<char> {
    package_path(base) + ".installing"@
}

/// The place for the old installation under the root `base`.
pub open spec fn aside_path(base: Seq<char>) -> Seq<char> {
    package_path(base) + ".previous"@
}

/// The file with what is recorded of an installation.
pub open spec fn record_path(package: Seq<char>) -> Seq<char> {
    path_joined(package, "version.json"@)
}

/// The file with the name of an installation.
pub open spec fn name_path(package: Seq<char>) -> Seq<char> {
    path_joined(package, "VERSION"@)
}

/// Where a new installation is put together before it takes the place of the
/// old one: next to the install directory, with the extension `installing`.
pub fn staging_dir(base: &str) -> (r: String)
    ensures
        r@ == package_path(base@) + ".installing"@,
        r@ == staging_path(base@),
{
    let mut out = package_dir(base);
    out.append(".installing");
    out
}

/// Where the old installation is kept while the new one takes its place: next to
/// the install directory, with the extension `previous`.
pub fn aside_dir(base: &str) -> (r: String)
    ensures
        r@ == package_path(base@) + ".previous"@,
        r@ == aside_path(base@),
{
    let mut out = package_dir(base);
    out.append(".previous");
    out
}

/// Path of the file that records the installed release for update detection,
/// inside the install directory `package`.
pub fn version_file(package: &str) -> (r: String)
    ensures
        r@ == path_joined(package@, "version.json"@),
        r@ == record_path(package@),
{
    path_join(package, "version.json")
}

/// Path of the human-readable `VERSION` file inside the install directory
/// `package`.
pub fn version_name_file(package: &str) -> (r: String)
    ensures
        r@ == path_joined(package@, "VERSION"@),
        r@ == name_path(package@),
{
    path_join(package, "VERSION")
}

/// The path of one of the installed programs.
pub open spec fn tool_path(package: Seq<char>, tool: Seq<char>) -> Seq<char> {
    path_joined(path_joined(package, "bin"@), tool)
}

/// The path of the program `tool` inside the install directory `package`.
pub fn installed_tool(package: &str, tool: &str) -> (r: String)
    ensures
        r@ == tool_path(package@, tool@),
{
    path_join(path_join(package, "bin").as_str(), tool)
}

/// The install directory, the staging directory and the place for the old
/// installation are three directories directly under the root, so that one can be
/// renamed to another.
pub proof fn law_install_paths(base: Seq<char>)
    ensures
        package_path(base) == path_joined(base, RELEASE_DIR@),
        package_path(base) + ".installing"@ == path_joined(base, RELEASE_DIR@ + ".installing"@),
        package_path(base) + ".previous"@ == path_joined(base, RELEASE_DIR@ + ".previous"@),
        package_path(base) != package_path(base) + ".installing"@,
        package_path(base) != package_path(base) + ".previous"@,
        package_path(base) + ".installing"@ != package_path(base) + ".previous"@,
        !RELEASE_DIR@.contains('/'),
        !(RELEASE_DIR@ + ".installing"@).contains('/'),
        !(RELEASE_DIR@ + ".previous"@).contains('/'),
{
    reveal_strlit(".installing");
    reveal_strlit(".previous");
    reveal_strlit("soteria-release");
    reveal_strlit("/");
    let package = package_path(base);
    let staging = RELEASE_DIR@ + ".installing"@;
    let aside = RELEASE_DIR@ + ".previous"@;
    assert(staging[0] == 's' && aside[0] == 's');
    assert(package + ".installing"@ == path_joined(base, staging));
    assert(package + ".previous"@ == path_joined(base, aside));
    assert((package + ".installing"@).len() == package.len() + 11);
    assert((package + ".previous"@).len() == package.len() + 9);
}

/// A path below a directory is the directory's path, a single separator, and the rest;
/// an absolute path stands for itself.
pub proof fn law_path_join(base: Seq<char>, name: Seq<char>)
    ensures
        name.len() > 0 && name[0] == '/' ==> path_joined(base, name) == name,
        (name.len() > 0 ==> name[0] != '/') && base.len() > 0 && base.last() != '/' ==> path_joined(
            base,
            name,
        ) == base + seq!['/'] + name && path_joined(base + seq!['/'], name) == base + seq!['/'] + name,
        (name.len() > 0 ==> name[0] != '/') && base.len() == 0 ==> path_joined(base, name) == name,
{
    reveal_strlit("/");
    assert("/"@ == seq!['/']);
}

/// `SOTERIA_HOME` goes before `HOME`, whatever that is; without it, the tree is the
/// directory `.soteria` in the home directory.
pub proof fn law_base_dir(chosen: Seq<char>, home: Option<Seq<char>>, h: Seq<char>)
    ensures
        base_dir(Some(chosen), home) == chosen,
        h.len() > 0 && h.last() != '/' ==> base_dir(None, Some(h)) == h + "/.soteria"@,
{
    reveal_strlit("/");
    reveal_strlit(".soteria");
    reveal_strlit("/.soteria");
    assert(h + "/"@ + ".soteria"@ == h + "/.soteria"@);
}

/// The toolchain is installed in `soteria-release` below the root, and its programs in
/// `bin` below that.
pub proof fn law_install_tree(base: Seq<char>, tool: Seq<char>)
    requires
        base.len() > 0,
        base.last() != '/',
        tool.len() > 0,
        tool[0] != '/',
    ensures
        package_path(base) == base + "/soteria-release"@,
        tool_path(package_path(base), tool) == base + "/soteria-release/bin/"@ + tool,
{
    reveal_strlit("/");
    reveal_strlit("bin");
    reveal_strlit("soteria-release");
    reveal_strlit("/soteria-release");
    reveal_strlit("/soteria-release/bin/");
    let package = package_path(base);
    assert(package == base + "/soteria-release"@);
    let bin = path_joined(package, "bin"@);
    assert(bin == package + "/"@ + "bin"@);
    assert(bin.last() == 'n');
    assert(path_joined(bin, tool) == bin + "/"@ + tool);
    assert(bin + "/"@ + tool == base + "/soteria-release/bin/"@ + tool);
}

/// The staging directory and the place for the old installation lie next to the install
/// directory, each under a name of its own; and what is recorded lies in it.
pub proof fn law_places(base: Seq<char>)
    requires
        base.len() > 0,
        base.last() != '/',
    ensures
        staging_path(base) == base + "/soteria-release.installing"@,
        aside_path(base) == base + "/soteria-release.previous"@,
        record_path(package_path(base)) == base + "/soteria-release/version.json"@,
        name_path(package_path(base)) == base + "/soteria-release/VERSION"@,
        staging_path(base) != aside_path(base) && staging_path(base) != package_path(base)
            && aside_path(base) != package_path(base),
{
    reveal_strlit("/");
    reveal_strlit("soteria-release");
    reveal_strlit("/soteria-release.installing");
    reveal_strlit("/soteria-release.previous");
    reveal_strlit("/soteria-release/version.json");
    reveal_strlit("/soteria-release/VERSION");
    reveal_strlit(".installing");
    reveal_strlit(".previous");
    reveal_strlit("version.json");
    reveal_strlit("VERSION");
    let package = package_path(base);
    assert(package == base + "/"@ + "soteria-release"@);
    assert(package.last() == 'e');
    assert(staging_path(base) =~= base + "/soteria-release.installing"@);
    assert(aside_path(base) =~= base + "/soteria-release.previous"@);
    assert(record_path(package) == package + "/"@ + "version.json"@);
    assert(name_path(package) == package + "/"@ + "VERSION"@);
    assert(record_path(package) =~= base + "/soteria-release/version.json"@);
    assert(name_path(package) =~= base + "/soteria-release/VERSION"@);
    assert(staging_path(base).len() == package.len() + 11);
    assert(aside_path(base).len() == package.len() + 9);
}

} // verus!
