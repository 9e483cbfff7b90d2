//! What goes into the staging directory: the files of a local build, and which of
//! them are programs. File names are bytes here: they need not be text.

use vstd::prelude::*;

use crate::common::{path_join, path_joined, tool_path};

verus! {

// ── paths as bytes ────────────────────────────────────────────────────────────

/// The path of what lies in the directory `dir` under `name`.
pub open spec fn entry_path(dir: Seq<u8>, name: Seq<u8>) -> Seq<u8> {
    if dir.len() == 0 || dir.last() == '/' as u8 {
        dir + name
    } else {
        dir.push('/' as u8) + name
    }
}

/// The same bytes once more.
fn copied(bytes: &[u8]) -> (r: Vec<u8>)
    ensures
        r@ == bytes@,
{
    let mut out: Vec<u8> = Vec::new();
    out.extend_from_slice(bytes);
    out
}

/// The path of what lies in the directory `dir` under `name`.
pub fn join_entry(dir: &[u8], name: &[u8]) -> (r: Vec<u8>)
    ensures
        r@ == entry_path(dir@, name@),
{
    let n: usize = dir.len();
    let mut out = copied(dir);
    if n > 0 && dir[n - 1] != '/' as u8 {
        out.push('/' as u8);
    }
    out.extend_from_slice(name);
    out
}

/// The path that some names lead to from `dir`.
pub open spec fn path_from(dir: Seq<u8>, names: Seq<Seq<u8>>) -> Seq<u8>
    decreases names.len(),
{
    if names.len() == 0 {
        dir
    } else {
        entry_path(path_from(dir, names.drop_last()), names.last())
    }
}

/// Whether a name is an ordinary one: not empty, no `.` or `..`, and without a
/// separator in it.
pub open spec fn is_entry_name(name: Seq<u8>) -> bool {
    &&& name.len() > 0
    &&& !name.contains('/' as u8)
    &&& name != seq!['.' as u8]
    &&& name != seq!['.' as u8, '.' as u8]
}

pub open spec fn all_entry_names(names: Seq<Seq<u8>>) -> bool {
    forall|i: int| 0 <= i < names.len() ==> is_entry_name(#[trigger] names[i])
}

/// The bytes in each of some vectors.
pub open spec fn byte_views(v: Seq<Vec<u8>>) -> Seq<Seq<u8>> {
    v.map_values(|b: Vec<u8>| b@)
}

// ── copying ───────────────────────────────────────────────────────────────────

/// A file, or a directory with what lies in it.
pub enum SourceTree {
    File,
    Dir(Vec<SourceEntry>),
}

/// What lies in a directory under a name.
pub struct SourceEntry {
    pub name: Vec<u8>,
    pub tree: SourceTree,
}

/// One thing to do on disk.
#[derive(Debug, PartialEq, Eq)]
pub enum CopyStep {
    /// Create a directory and its parents.
    MakeDirs(Vec<u8>),
    /// Copy a file.
    CopyFile { from: Vec<u8>, to: Vec<u8> },
}

/// What a step holds.
pub enum CopyModel {
    MakeDirs(Seq<u8>),
    CopyFile { from: Seq<u8>, to: Seq<u8> },
}

impl View for CopyStep {
    type V = CopyModel;

    open spec fn view(&self) -> CopyModel {
        match self {
            CopyStep::MakeDirs(path) => CopyModel::MakeDirs(path@),
            CopyStep::CopyFile { from, to } => CopyModel::CopyFile { from: from@, to: to@ },
        }
    }
}

pub open spec fn copy_models(steps: Seq<CopyStep>) -> Seq<CopyModel> {
    steps.map_values(|s: CopyStep| s@)
}

impl SourceTree {
    /// The steps that copy this tree from `src` to `dst`.
    pub open spec fn copying(self, src: Seq<u8>, dst: Seq<u8>) -> Seq<CopyModel>
        decreases self,
    {
        match self {
            SourceTree::File => seq![CopyModel::CopyFile { from: src, to: dst }],
            SourceTree::Dir(entries) => seq![CopyModel::MakeDirs(dst)] + SourceTree::copying_all(
                entries@,
                src,
                dst,
            ),
        }
    }

    /// The steps that copy some entries of the directory `src` to the directory
    /// `dst`.
    pub open spec fn copying_all(
        entries: Seq<SourceEntry>,
        src: Seq<u8>,
        dst: Seq<u8>,
    ) -> Seq<CopyModel>
        decreases entries,
    {
        if entries.len() == 0 {
            seq![]
        } else {
            entries[0].tree.copying(
                entry_path(src, entries[0].name@),
                entry_path(dst, entries[0].name@),
            ) + SourceTree::copying_all(entries.subrange(1, entries.len() as int), src, dst)
        }
    }

    /// Whether every entry in this tree has an ordinary name.
    pub open spec fn well_named(self) -> bool
        decreases self,
    {
        match self {
            SourceTree::File => true,
            SourceTree::Dir(entries) => SourceTree::all_well_named(entries@),
        }
    }

    /// Whether some entries, and all entries in them, have ordinary names.
    pub open spec fn all_well_named(entries: Seq<SourceEntry>) -> bool
        decreases entries,
    {
        entries.len() == 0 || {
            &&& is_entry_name(entries[0].name@)
            &&& entries[0].tree.well_named()
            &&& SourceTree::all_well_named(entries.subrange(1, entries.len() as int))
        }
    }
}

/// Copy a directory and everything under it: what to do on disk, in order.
pub fn copy_dir_all(tree: &SourceTree, src: &[u8], dst: &[u8]) -> (r: Vec<CopyStep>)
    ensures
        copy_models(r@) == tree.copying(src@, dst@),
    decreases tree,
{
    let mut steps: Vec<CopyStep> = Vec::new();
    match tree {
        SourceTree::File => {
            steps.push(CopyStep::CopyFile { from: copied(src), to: copied(dst) });
        },
        SourceTree::Dir(entries) => {
            steps.push(CopyStep::MakeDirs(copied(dst)));
            let n: usize = entries.len();
            let mut i: usize = 0;
            assert(copy_models(steps@) == seq![CopyModel::MakeDirs(dst@)]);
            assert(entries@.subrange(0, n as int) == entries@);
            while i < n
                invariant
                    n == entries@.len(),
                    i <= n,
                    *tree == SourceTree::Dir(*entries),
                    copy_models(steps@) + SourceTree::copying_all(
                        entries@.subrange(i as int, n as int),
                        src@,
                        dst@,
                    ) == tree.copying(src@, dst@),
                decreases n - i,
            {
                let entry = &entries[i];
                let from = join_entry(src, entry.name.as_slice());
                let to = join_entry(dst, entry.name.as_slice());
                let ghost before = steps@;
                let mut inner = copy_dir_all(&entry.tree, from.as_slice(), to.as_slice());
                let ghost added = inner@;
                steps.append(&mut inner);
                proof {
                    let rest = entries@.subrange(i as int, n as int);
                    let later = entries@.subrange(i as int + 1, n as int);
                    assert(rest[0] == entries@[i as int]);
                    assert(rest.subrange(1, rest.len() as int) == later);
                    assert(copy_models(steps@) == copy_models(before) + copy_models(added));
                    assert(copy_models(before) + (copy_models(added) + SourceTree::copying_all(
                        later,
                        src@,
                        dst@,
                    )) == copy_models(steps@) + SourceTree::copying_all(later, src@, dst@));
                }
                i = i + 1;
            }
            assert(SourceTree::copying_all(entries@.subrange(n as int, n as int), src@, dst@)
                == Seq::<CopyModel>::empty());
        },
    }
    steps
}

/// Whether a step works at the place that `rel` leads to: it creates that place
/// below `dst`, or copies what lies there below `src`.
pub open spec fn works_at(
    step: CopyModel,
    src: Seq<u8>,
    dst: Seq<u8>,
    rel: Seq<Seq<u8>>,
) -> bool {
    &&& all_entry_names(rel)
    &&& match step {
        CopyModel::MakeDirs(path) => path == path_from(dst, rel),
        CopyModel::CopyFile { from, to } => from == path_from(src, rel) && to == path_from(
            dst,
            rel,
        ),
    }
}

/// A copy is a mirror image: every step works at one place below the source and at
/// the same place below the destination, and nowhere else.
pub proof fn law_copy_mirrors_the_source(tree: SourceTree, src: Seq<u8>, dst: Seq<u8>, k: int)
    requires
        tree.well_named(),
        0 <= k < tree.copying(src, dst).len(),
    ensures
        exists|rel: Seq<Seq<u8>>| works_at(tree.copying(src, dst)[k], src, dst, rel),
{
    let top = Seq::<Seq<u8>>::empty();
    assert(path_from(src, top) == src);
    assert(path_from(dst, top) == dst);
    lemma_copying(tree, src, dst, top, k);
}

proof fn lemma_copying(
    tree: SourceTree,
    src: Seq<u8>,
    dst: Seq<u8>,
    at: Seq<Seq<u8>>,
    k: int,
)
    requires
        tree.well_named(),
        all_entry_names(at),
        0 <= k < tree.copying(path_from(src, at), path_from(dst, at)).len(),
    ensures
        exists|rel: Seq<Seq<u8>>|
            works_at(tree.copying(path_from(src, at), path_from(dst, at))[k], src, dst, rel),
    decreases tree,
{
    let steps = tree.copying(path_from(src, at), path_from(dst, at));
    match tree {
        SourceTree::File => {
            assert(works_at(steps[k], src, dst, at));
        },
        SourceTree::Dir(entries) => {
            if k == 0 {
                assert(works_at(steps[k], src, dst, at));
            } else {
                lemma_copying_all(entries@, src, dst, at, k - 1);
                assert(steps[k] == SourceTree::copying_all(
                    entries@,
                    path_from(src, at),
                    path_from(dst, at),
                )[k - 1]);
            }
        },
    }
}

proof fn lemma_copying_all(
    entries: Seq<SourceEntry>,
    src: Seq<u8>,
    dst: Seq<u8>,
    at: Seq<Seq<u8>>,
    k: int,
)
    requires
        SourceTree::all_well_named(entries),
        all_entry_names(at),
        0 <= k < SourceTree::copying_all(entries, path_from(src, at), path_from(dst, at)).len(),
    ensures
        exists|rel: Seq<Seq<u8>>|
            works_at(
                SourceTree::copying_all(entries, path_from(src, at), path_from(dst, at))[k],
                src,
                dst,
                rel,
            ),
    decreases entries,
{
    let steps = SourceTree::copying_all(entries, path_from(src, at), path_from(dst, at));
    let entry = entries[0];
    let inside = at.push(entry.name@);
    assert(inside.drop_last() == at);
    let first = entry.tree.copying(path_from(src, inside), path_from(dst, inside));
    let rest = entries.subrange(1, entries.len() as int);
    if k < first.len() {
        lemma_copying(entry.tree, src, dst, inside, k);
        assert(steps[k] == first[k]);
    } else {
        lemma_copying_all(rest, src, dst, at, k - first.len());
        assert(steps[k] == SourceTree::copying_all(rest, path_from(src, at), path_from(dst, at))[k
            - first.len()]);
    }
}

/// What lies in a tree where some names lead to, if anything does.
pub open spec fn lies_at(tree: SourceTree, rel: Seq<Seq<u8>>, found: SourceTree) -> bool
    decreases rel.len(),
{
    if rel.len() == 0 {
        tree == found
    } else {
        match tree {
            SourceTree::File => false,
            SourceTree::Dir(entries) => exists|i: int|
                0 <= i < entries@.len() && (#[trigger] entries@[i]).name@ == rel[0] && lies_at(
                    entries@[i].tree,
                    rel.skip(1),
                    found,
                ),
        }
    }
}

/// The first of some names leads to an entry, and the others on from there.
proof fn lemma_path_front(dir: Seq<u8>, rel: Seq<Seq<u8>>)
    requires
        rel.len() > 0,
    ensures
        path_from(dir, rel) == path_from(entry_path(dir, rel[0]), rel.skip(1)),
    decreases rel.len(),
{
    if rel.len() == 1 {
        assert(rel.drop_last() == Seq::<Seq<u8>>::empty());
        assert(rel.skip(1) == Seq::<Seq<u8>>::empty());
        assert(path_from(dir, rel.drop_last()) == dir);
    } else {
        lemma_path_front(dir, rel.drop_last());
        assert(rel.drop_last().skip(1) == rel.skip(1).drop_last());
        assert(rel.drop_last()[0] == rel[0]);
        assert(rel.skip(1).last() == rel.last());
    }
}

/// The steps for one entry stand among the steps for all of them.
proof fn lemma_entry_copied(
    entries: Seq<SourceEntry>,
    src: Seq<u8>,
    dst: Seq<u8>,
    i: int,
    step: CopyModel,
)
    requires
        0 <= i < entries.len(),
        entries[i].tree.copying(
            entry_path(src, entries[i].name@),
            entry_path(dst, entries[i].name@),
        ).contains(step),
    ensures
        SourceTree::copying_all(entries, src, dst).contains(step),
    decreases entries.len(),
{
    let first = entries[0].tree.copying(
        entry_path(src, entries[0].name@),
        entry_path(dst, entries[0].name@),
    );
    let rest = entries.subrange(1, entries.len() as int);
    let later = SourceTree::copying_all(rest, src, dst);
    let all = SourceTree::copying_all(entries, src, dst);
    assert(all == first + later);
    if i == 0 {
        let k = choose|k: int| 0 <= k < first.len() && first[k] == step;
        assert(all[k] == step);
    } else {
        assert(rest[i - 1] == entries[i]);
        lemma_entry_copied(rest, src, dst, i - 1, step);
        let k = choose|k: int| 0 <= k < later.len() && later[k] == step;
        assert(all[first.len() + k] == step);
    }
}

/// A copy is complete: whatever file lies in the source, at whatever place, is copied
/// to that place below the destination, and every directory there is created.
pub proof fn law_copy_is_complete(
    tree: SourceTree,
    src: Seq<u8>,
    dst: Seq<u8>,
    rel: Seq<Seq<u8>>,
    found: SourceTree,
)
    requires
        lies_at(tree, rel, found),
    ensures
        tree.copying(src, dst).contains(
            match found {
                SourceTree::File => CopyModel::CopyFile {
                    from: path_from(src, rel),
                    to: path_from(dst, rel),
                },
                SourceTree::Dir(_) => CopyModel::MakeDirs(path_from(dst, rel)),
            },
        ),
    decreases rel.len(),
{
    let steps = tree.copying(src, dst);
    if rel.len() == 0 {
        assert(path_from(src, rel) == src && path_from(dst, rel) == dst);
        match tree {
            SourceTree::File => {
                assert(steps[0] == CopyModel::CopyFile { from: src, to: dst });
            },
            SourceTree::Dir(_) => {
                assert(steps[0] == CopyModel::MakeDirs(dst));
            },
        }
    } else {
        let step = match found {
            SourceTree::File => CopyModel::CopyFile {
                from: path_from(src, rel),
                to: path_from(dst, rel),
            },
            SourceTree::Dir(_) => CopyModel::MakeDirs(path_from(dst, rel)),
        };
        let entries = tree->Dir_0@;
        let i = choose|i: int|
            0 <= i < entries.len() && (#[trigger] entries[i]).name@ == rel[0] && lies_at(
                entries[i].tree,
                rel.skip(1),
                found,
            );
        let from = entry_path(src, rel[0]);
        let to = entry_path(dst, rel[0]);
        lemma_path_front(src, rel);
        lemma_path_front(dst, rel);
        law_copy_is_complete(entries[i].tree, from, to, rel.skip(1), found);
        lemma_entry_copied(entries, src, dst, i, step);
        let inner = SourceTree::copying_all(entries, src, dst);
        let k = choose|k: int| 0 <= k < inner.len() && inner[k] == step;
        assert(steps[k + 1] == step);
    }
}

/// How many files and directories there are in a tree, the tree itself included.
pub open spec fn node_count(tree: SourceTree) -> nat
    decreases tree,
{
    match tree {
        SourceTree::File => 1,
        SourceTree::Dir(entries) => 1 + node_count_of(entries@),
    }
}

/// How many files and directories there are in some entries.
pub open spec fn node_count_of(entries: Seq<SourceEntry>) -> nat
    decreases entries,
{
    if entries.len() == 0 {
        0
    } else {
        node_count(entries[0].tree) + node_count_of(entries.subrange(1, entries.len() as int))
    }
}

/// A copy does nothing twice: it has one step for each file and each directory.
pub proof fn law_copy_has_one_step_each(tree: SourceTree, src: Seq<u8>, dst: Seq<u8>)
    ensures
        tree.copying(src, dst).len() == node_count(tree),
    decreases tree,
{
    if let SourceTree::Dir(entries) = tree {
        lemma_one_step_each(entries@, src, dst);
    }
}

proof fn lemma_one_step_each(entries: Seq<SourceEntry>, src: Seq<u8>, dst: Seq<u8>)
    ensures
        SourceTree::copying_all(entries, src, dst).len() == node_count_of(entries),
    decreases entries,
{
    if entries.len() > 0 {
        law_copy_has_one_step_each(
            entries[0].tree,
            entry_path(src, entries[0].name@),
            entry_path(dst, entries[0].name@),
        );
        lemma_one_step_each(entries.subrange(1, entries.len() as int), src, dst);
    }
}

/// A directory is created before anything is put into it: in front of every step
/// below the destination itself stands one that creates the directory it works in.
pub proof fn law_directories_come_first(tree: SourceTree, src: Seq<u8>, dst: Seq<u8>, k: int)
    requires
        tree is Dir,
        0 < k < tree.copying(src, dst).len(),
    ensures
        exists|j: int, name: Seq<u8>|
            0 <= j < k && works_in(tree.copying(src, dst)[k], tree.copying(src, dst)[j], name),
    decreases tree,
{
    let entries = tree->Dir_0@;
    let steps = tree.copying(src, dst);
    lemma_directories_come_first(entries, src, dst, k - 1);
    let inner = SourceTree::copying_all(entries, src, dst);
    let last = inner[k - 1];
    assert(steps[k] == last);
    if exists|j: int, name: Seq<u8>| 0 <= j < k - 1 && works_in(last, inner[j], name) {
        let (j, name) = choose|j: int, name: Seq<u8>|
            0 <= j < k - 1 && works_in(last, inner[j], name);
        assert(steps[j + 1] == inner[j]);
        assert(works_in(steps[k], steps[j + 1], name));
    } else {
        let name = choose|name: Seq<u8>| works_in(last, CopyModel::MakeDirs(dst), name);
        assert(works_in(steps[k], steps[0], name));
    }
}

/// Whether the place at which a step works lies under `name` in the directory that
/// another step creates.
pub open spec fn works_in(step: CopyModel, creating: CopyModel, name: Seq<u8>) -> bool {
    creating matches CopyModel::MakeDirs(dir) && entry_path(dir, name) == match step {
        CopyModel::MakeDirs(path) => path,
        CopyModel::CopyFile { to, .. } => to,
    }
}

proof fn lemma_directories_come_first(
    entries: Seq<SourceEntry>,
    src: Seq<u8>,
    dst: Seq<u8>,
    k: int,
)
    requires
        0 <= k < SourceTree::copying_all(entries, src, dst).len(),
    ensures
        ({
            let steps = SourceTree::copying_all(entries, src, dst);
            (exists|j: int, name: Seq<u8>| 0 <= j < k && works_in(steps[k], steps[j], name)) || (
            exists|name: Seq<u8>| works_in(steps[k], CopyModel::MakeDirs(dst), name))
        }),
    decreases entries,
{
    let steps = SourceTree::copying_all(entries, src, dst);
    let name0 = entries[0].name@;
    let tree = entries[0].tree;
    let first = tree.copying(entry_path(src, name0), entry_path(dst, name0));
    let rest = entries.subrange(1, entries.len() as int);
    let later = SourceTree::copying_all(rest, src, dst);
    assert(steps == first + later);
    if k == 0 && first.len() > 0 {
        assert(works_in(steps[0], CopyModel::MakeDirs(dst), name0));
    } else if k < first.len() {
        law_directories_come_first(tree, entry_path(src, name0), entry_path(dst, name0), k);
        let (j, name) = choose|j: int, name: Seq<u8>|
            0 <= j < k && works_in(first[k], first[j], name);
        assert(steps[j] == first[j] && steps[k] == first[k]);
        assert(works_in(steps[k], steps[j], name));
    } else {
        let m = k - first.len();
        lemma_directories_come_first(rest, src, dst, m);
        assert(steps[k] == later[m]);
        if exists|j: int, name: Seq<u8>| 0 <= j < m && works_in(later[m], later[j], name) {
            let (j, name) = choose|j: int, name: Seq<u8>|
                0 <= j < m && works_in(later[m], later[j], name);
            assert(steps[first.len() + j] == later[j]);
            assert(works_in(steps[k], steps[first.len() + j], name));
        }
    }
}

/// What lies in a directory has the directory's path in front, a single separator and
/// then its name.
pub proof fn law_entry_path(dir: Seq<u8>, name: Seq<u8>)
    requires
        dir.len() > 0,
        dir.last() != '/' as u8,
    ensures
        entry_path(dir, name) == dir + seq!['/' as u8] + name,
        entry_path(dir + seq!['/' as u8], name) == entry_path(dir, name),
{
}

// ── programs ──────────────────────────────────────────────────────────────────

/// What lies in the directory of programs under a name.
pub struct BinEntry {
    pub name: Vec<u8>,
    pub is_file: bool,
}

/// The directory of programs below `dest`.
pub open spec fn programs_path(dest: Seq<char>) -> Seq<char> {
    path_joined(dest, "bin"@)
}

/// The programs of an installation lie in the directory in which they are marked as
/// executable.
pub proof fn law_programs_path(package: Seq<char>, tool: Seq<char>)
    ensures
        tool_path(package, tool) == path_joined(programs_path(package), tool),
        package.len() > 0 && package.last() != '/' ==> programs_path(package) == package + "/bin"@,
{
    reveal_strlit("/");
    reveal_strlit("bin");
    reveal_strlit("/bin");
    assert(package + "/"@ + "bin"@ == package + "/bin"@);
}

/// The directory of programs below `dest`.
pub fn bin_dir(dest: &str) -> (r: String)
    ensures
        r@ == path_joined(dest@, "bin"@),
        r@ == programs_path(dest@),
{
    path_join(dest, "bin")
}

/// The paths of the files among some entries of the directory `bin`.
pub open spec fn files_in(bin: Seq<u8>, entries: Seq<BinEntry>) -> Seq<Seq<u8>>
    decreases entries.len(),
{
    if entries.len() == 0 {
        seq![]
    } else {
        let before = files_in(bin, entries.drop_last());
        if entries.last().is_file {
            before.push(entry_path(bin, entries.last().name@))
        } else {
            before
        }
    }
}

/// The files to mark as executable: all files directly in the directory of programs
/// `bin`, given what lies there.
pub fn make_bins_executable(bin: &[u8], entries: &[BinEntry]) -> (r: Vec<Vec<u8>>)
    ensures
        byte_views(r@) == files_in(bin@, entries@),
{
    let n: usize = entries.len();
    let mut files: Vec<Vec<u8>> = Vec::new();
    assert(byte_views(files@) == files_in(bin@, entries@.take(0)));
    for i in 0..n
        invariant
            n == entries@.len(),
            byte_views(files@) == files_in(bin@, entries@.take(i as int)),
    {
        let ghost next = entries@.take(i as int + 1);
        assert(next.drop_last() == entries@.take(i as int));
        if entries[i].is_file {
            let ghost before = files@;
            let path = join_entry(bin, entries[i].name.as_slice());
            files.push(path);
            assert(byte_views(files@) == byte_views(before).push(path@));
        }
    }
    assert(entries@.take(n as int) == entries@);
    files
}

/// Whether a path is that of a file among some entries of the directory `bin`.
pub open spec fn is_program(bin: Seq<u8>, entries: Seq<BinEntry>, path: Seq<u8>) -> bool {
    exists|j: int|
        0 <= j < entries.len() && (#[trigger] entries[j]).is_file && path == entry_path(
            bin,
            entries[j].name@,
        )
}

/// Every file there is, and nothing else, is marked as executable.
pub proof fn law_every_program_is_marked(bin: Seq<u8>, entries: Seq<BinEntry>, path: Seq<u8>)
    ensures
        files_in(bin, entries).contains(path) <==> is_program(bin, entries, path),
        files_in(bin, entries).len() <= entries.len(),
{
    if files_in(bin, entries).contains(path) {
        let k = choose|k: int|
            0 <= k < files_in(bin, entries).len() && files_in(bin, entries)[k] == path;
        lemma_marked(bin, entries, k);
    }
    if is_program(bin, entries, path) {
        let j = choose|j: int|
            0 <= j < entries.len() && (#[trigger] entries[j]).is_file && path == entry_path(
                bin,
                entries[j].name@,
            );
        lemma_is_marked(bin, entries, j);
    }
    lemma_marked_count(bin, entries);
}

proof fn lemma_marked_count(bin: Seq<u8>, entries: Seq<BinEntry>)
    ensures
        files_in(bin, entries).len() <= entries.len(),
    decreases entries.len(),
{
    if entries.len() > 0 {
        lemma_marked_count(bin, entries.drop_last());
    }
}

proof fn lemma_is_marked(bin: Seq<u8>, entries: Seq<BinEntry>, i: int)
    requires
        0 <= i < entries.len(),
        entries[i].is_file,
    ensures
        files_in(bin, entries).contains(entry_path(bin, entries[i].name@)),
    decreases entries.len(),
{
    let prior = entries.drop_last();
    let all = files_in(bin, entries);
    let path = entry_path(bin, entries[i].name@);
    if i == prior.len() {
        assert(all[all.len() - 1] == path);
    } else {
        lemma_is_marked(bin, prior, i);
        let before = files_in(bin, prior);
        let k = choose|k: int| 0 <= k < before.len() && before[k] == path;
        assert(all[k] == path);
    }
}

proof fn lemma_marked(bin: Seq<u8>, entries: Seq<BinEntry>, k: int)
    requires
        0 <= k < files_in(bin, entries).len(),
    ensures
        is_program(bin, entries, files_in(bin, entries)[k]),
    decreases entries.len(),
{
    let prior = entries.drop_last();
    let all = files_in(bin, entries);
    let before = files_in(bin, prior);
    if k < before.len() {
        lemma_marked(bin, prior, k);
        assert(all[k] == before[k]);
        let j = choose|j: int|
            0 <= j < prior.len() && (#[trigger] prior[j]).is_file && before[k] == entry_path(
                bin,
                prior[j].name@,
            );
        assert(entries[j] == prior[j]);
    } else {
        assert(entries[entries.len() - 1].is_file);
    }
}

} // verus!
