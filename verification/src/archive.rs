//! Unpacking a release bundle: what to create on disk for the entries of a zip
//! archive.

use std::io::Read;
use vstd::prelude::*;

use crate::common::{path_join, path_joined};
use crate::text::{
    joined, law_split_pieces, lemma_position, lemma_split_cons, lemma_split_one, position, split,
    split_text, starts_with, texts,
};

verus! {

// ── the zip reader ────────────────────────────────────────────────────────────

/// The zip archive reader.
#[verifier::external_type_specification]
#[verifier::external_body]
#[verifier::reject_recursive_types(R)]
pub struct ExZipArchive<R>(zip::ZipArchive<R>);

/// Bytes in memory, to be read like a file.
#[verifier::external_type_specification]
#[verifier::external_body]
#[verifier::reject_recursive_types(T)]
pub struct ExCursor<T>(std::io::Cursor<T>);

/// What is wrong with an archive.
#[verifier::external_type_specification]
#[verifier::external_body]
pub struct ExZipError(zip::result::ZipError);

/// What went wrong while reading.
#[verifier::external_type_specification]
#[verifier::external_body]
pub struct ExIoError(std::io::Error);

/// The entries of an opened archive, in order. Of each: its mangled name and whether
/// it is a directory, unless the entry cannot be opened; and its contents, unless
/// they cannot be read.
pub uninterp spec fn archive_entries(archive: zip::ZipArchive<std::io::Cursor<Vec<u8>>>) -> Seq<
    (Option<(Seq<char>, bool)>, Option<Seq<u8>>),
>;

/// The entries of the archive that some bytes are, unless they are none.
pub uninterp spec fn zip_listing(data: Seq<u8>) -> Option<
    Seq<(Option<(Seq<char>, bool)>, Option<Seq<u8>>)>,
>;

/// Whether a path component is an ordinary name: not empty, no `.` or `..`, and
/// without a separator in it.
pub open spec fn is_normal(component: Seq<char>) -> bool {
    &&& component.len() > 0
    &&& !component.contains('/')
    &&& component != "."@
    &&& component != ".."@
}

/// Whether all components of a path are ordinary names.
pub open spec fn all_normal(components: Seq<Seq<char>>) -> bool {
    forall|i: int| 0 <= i < components.len() ==> is_normal(#[trigger] components[i])
}

/// `ZipArchive::new` on bytes in memory: whether they are an archive, and with
/// which entries, is a function of the bytes.
#[verifier::external_body]
fn open_archive(data: Vec<u8>) -> (r: Result<
    zip::ZipArchive<std::io::Cursor<Vec<u8>>>,
    zip::result::ZipError,
>)
    ensures
        match r {
            Ok(archive) => zip_listing(data@) == Some(archive_entries(archive)),
            Err(_) => zip_listing(data@) is None,
        },
{
    zip::ZipArchive::new(std::io::Cursor::new(data))
}

/// `ZipArchive::len`: the number of entries.
#[verifier::external_body]
fn entry_count(archive: &zip::ZipArchive<std::io::Cursor<Vec<u8>>>) -> (r: usize)
    ensures
        r == archive_entries(*archive).len(),
{
    archive.len()
}

/// The components of a relative path.
pub open spec fn components(name: Seq<char>) -> Seq<Seq<char>> {
    if name.len() == 0 {
        seq![]
    } else {
        split(name, '/')
    }
}

/// `ZipArchive::by_index`, with `ZipFile::mangled_name` and `ZipFile::is_dir` of
/// the entry: opens an entry, without changing what the archive holds. The
/// mangled name is made of ordinary components alone, with `/` between them, as it
/// is where that is the separator of paths.
#[verifier::external_body]
fn entry_header(archive: &mut zip::ZipArchive<std::io::Cursor<Vec<u8>>>, i: usize) -> (r: Result<
    (String, bool),
    zip::result::ZipError,
>)
    requires
        i < archive_entries(*old(archive)).len(),
    ensures
        archive_entries(*final(archive)) == archive_entries(*old(archive)),
        match r {
            Ok((name, is_dir)) => archive_entries(*old(archive))[i as int].0 == Some((name@, is_dir)),
            Err(_) => archive_entries(*old(archive))[i as int].0 is None,
        },
        r matches Ok((name, is_dir)) ==> all_normal(components(name@)),
{
    let file = archive.by_index(i)?;
    Ok((file.mangled_name().to_string_lossy().into_owned(), file.is_dir()))
}

/// What was read of an entry, and what stopped the reading, if anything did.
pub struct EntryRead {
    pub bytes: Vec<u8>,
    pub failure: Option<std::io::Error>,
}

/// `ZipArchive::by_index`, with `Read::read_to_end` of the entry: the contents of an
/// entry, without changing what the archive holds. Where they cannot be read, the
/// bytes are those that were read so far. How many that are depends on how the
/// reader hands them out, so nothing is claimed of them.
#[verifier::external_body]
fn entry_contents(archive: &mut zip::ZipArchive<std::io::Cursor<Vec<u8>>>, i: usize) -> (r:
    EntryRead)
    requires
        i < archive_entries(*old(archive)).len(),
    ensures
        archive_entries(*final(archive)) == archive_entries(*old(archive)),
        match r.failure {
            None => archive_entries(*old(archive))[i as int].1 == Some(r.bytes@),
            Some(_) => archive_entries(*old(archive))[i as int].1 is None,
        },
{
    let mut bytes = Vec::new();
    let failure = match archive.by_index(i) {
        Ok(mut file) => file.read_to_end(&mut bytes).err(),
        Err(e) => Some(e.into()),
    };
    EntryRead { bytes, failure }
}

// ── what to create on disk ────────────────────────────────────────────────────

/// One thing to do on disk.
pub enum ExtractStep {
    /// Create a directory and its parents.
    MakeDirs(String),
    /// Create a file with these contents.
    WriteFile(String, Vec<u8>),
}

/// Why an extraction stops.
pub enum ExtractError {
    /// The bytes are no archive.
    Open(zip::result::ZipError),
    /// An entry cannot be opened.
    Entry(zip::result::ZipError),
    /// The contents of an entry cannot be read.
    Contents(std::io::Error),
}

/// The steps of an extraction, and why it stops after them, if it does.
pub struct Extraction {
    pub steps: Vec<ExtractStep>,
    pub failure: Option<ExtractError>,
}

/// What a step holds.
pub enum StepModel {
    MakeDirs(Seq<char>),
    WriteFile(Seq<char>, Seq<u8>),
}

/// Which kind of failure stops an extraction.
pub enum FailureModel {
    Open,
    Entry,
    Contents,
}

impl View for ExtractStep {
    type V = StepModel;

    open spec fn view(&self) -> StepModel {
        match self {
            ExtractStep::MakeDirs(path) => StepModel::MakeDirs(path@),
            ExtractStep::WriteFile(path, contents) => StepModel::WriteFile(path@, contents@),
        }
    }
}

impl StepModel {
    /// The path at which a step creates something.
    pub open spec fn path(self) -> Seq<char> {
        match self {
            StepModel::MakeDirs(path) => path,
            StepModel::WriteFile(path, _) => path,
        }
    }
}

pub open spec fn step_models(steps: Seq<ExtractStep>) -> Seq<StepModel> {
    steps.map_values(|s: ExtractStep| s@)
}

pub open spec fn failure_model(failure: Option<ExtractError>) -> Option<FailureModel> {
    match failure {
        None => None,
        Some(ExtractError::Open(_)) => Some(FailureModel::Open),
        Some(ExtractError::Entry(_)) => Some(FailureModel::Entry),
        Some(ExtractError::Contents(_)) => Some(FailureModel::Contents),
    }
}

/// The path that some components lead to from `dest`.
pub open spec fn path_under(dest: Seq<char>, components: Seq<Seq<char>>) -> Seq<char>
    decreases components.len(),
{
    if components.len() == 0 {
        dest
    } else {
        path_joined(path_under(dest, components.drop_last()), components.last())
    }
}

/// What an entry amounts to below the top-level directory of the archive.
pub enum EntryPlan {
    /// The top-level directory itself: nothing to create.
    Nothing,
    /// A directory to create.
    Directory(String),
    /// A file to create, and the directory it goes into.
    File { parent: String, target: String },
}

/// What an entry with this name amounts to: the top-level directory is stripped
/// from its path.
pub fn plan_entry(dest: &str, name: &str, is_dir: bool) -> (r: EntryPlan)
    ensures
        ({
            let stripped = components(name@).skip(1);
            if components(name@).len() <= 1 {
                r is Nothing
            } else if is_dir {
                r matches EntryPlan::Directory(target) && target@ == path_under(dest@, stripped)
            } else {
                r matches EntryPlan::File { parent, target } && target@ == path_under(
                    dest@,
                    stripped,
                ) && parent@ == path_under(dest@, stripped.drop_last())
            }
        }),
{
    if name.is_empty() {
        return EntryPlan::Nothing;
    }
    let path = split_text(name, '/');
    let len: usize = path.len();
    assert(texts(path@).len() == len);
    if len <= 1 {
        return EntryPlan::Nothing;
    }
    assert(texts(path@).subrange(1, len as int) == texts(path@).skip(1));
    assert(texts(path@).subrange(1, len as int - 1) == texts(path@).skip(1).drop_last());
    let target = join_components(dest, &path, 1, len);
    if is_dir {
        EntryPlan::Directory(target)
    } else {
        EntryPlan::File { parent: join_components(dest, &path, 1, len - 1), target }
    }
}

/// The steps for one entry, and the failure that it ends in, if it does. The
/// top-level directory of the archive is stripped from the entry's path; the
/// top-level directory itself needs no step. A file whose contents cannot be read
/// is left with what was read of them, which is `partial`.
pub open spec fn entry_steps(
    dest: Seq<char>,
    entry: (Option<(Seq<char>, bool)>, Option<Seq<u8>>),
    partial: Seq<u8>,
) -> (Seq<StepModel>, Option<FailureModel>) {
    match entry.0 {
        None => (seq![], Some(FailureModel::Entry)),
        Some((name, is_dir)) => {
            if components(name).len() <= 1 {
                (seq![], None)
            } else {
                let stripped = components(name).skip(1);
                let target = path_under(dest, stripped);
                let parent = path_under(dest, stripped.drop_last());
                if is_dir {
                    (seq![StepModel::MakeDirs(target)], None)
                } else {
                    match entry.1 {
                        Some(contents) => (
                            seq![StepModel::MakeDirs(parent), StepModel::WriteFile(target, contents)],
                            None,
                        ),
                        None => (
                            seq![StepModel::MakeDirs(parent), StepModel::WriteFile(target, partial)],
                            Some(FailureModel::Contents),
                        ),
                    }
                }
            }
        },
    }
}

/// The steps for some entries, in order, up to the first failure. Where that is a
/// failure to read a file, `partial` is what was read of it.
pub open spec fn extraction(
    dest: Seq<char>,
    entries: Seq<(Option<(Seq<char>, bool)>, Option<Seq<u8>>)>,
    partial: Seq<u8>,
) -> (Seq<StepModel>, Option<FailureModel>)
    decreases entries.len(),
{
    if entries.len() == 0 {
        (seq![], None)
    } else {
        let before = extraction(dest, entries.drop_last(), partial);
        let last = entry_steps(dest, entries.last(), partial);
        if before.1 is Some {
            before
        } else {
            (before.0 + last.0, last.1)
        }
    }
}

/// The steps that extract an archive given as bytes. Where a file in it cannot be
/// read, `partial` is what was read of it.
pub open spec fn zip_extraction(dest: Seq<char>, data: Seq<u8>, partial: Seq<u8>) -> (
    Seq<StepModel>,
    Option<FailureModel>,
) {
    match zip_listing(data) {
        None => (seq![], Some(FailureModel::Open)),
        Some(entries) => extraction(dest, entries, partial),
    }
}

/// Whether a path is `dest` itself or lies under it: ordinary names lead to it
/// from `dest`.
pub open spec fn lies_under(dest: Seq<char>, path: Seq<char>) -> bool {
    exists|components: Seq<Seq<char>>|
        path == #[trigger] path_under(dest, components) && all_normal(components)
}

/// A failure at one entry is the failure of every longer list of entries.
proof fn lemma_extraction_stops(
    dest: Seq<char>,
    entries: Seq<(Option<(Seq<char>, bool)>, Option<Seq<u8>>)>,
    partial: Seq<u8>,
    n: int,
)
    requires
        0 <= n <= entries.len(),
        extraction(dest, entries.take(n), partial).1 is Some,
    ensures
        extraction(dest, entries, partial) == extraction(dest, entries.take(n), partial),
    decreases entries.len() - n,
{
    if n < entries.len() {
        let next = entries.take(n + 1);
        assert(next.drop_last() == entries.take(n));
        lemma_extraction_stops(dest, entries, partial, n + 1);
    } else {
        assert(entries.take(n) == entries);
    }
}

/// The path that `path` leads to from `dest`, from its component `from` up to its
/// component `to`.
fn join_components(dest: &str, path: &Vec<String>, from: usize, to: usize) -> (r: String)
    requires
        from <= to <= path@.len(),
    ensures
        r@ == path_under(dest@, texts(path@).subrange(from as int, to as int)),
{
    let mut out = dest.to_owned();
    for i in from..to
        invariant
            from <= to <= path@.len(),
            out@ == path_under(dest@, texts(path@).subrange(from as int, i as int)),
    {
        out = path_join(out.as_str(), path[i].as_str());
        proof {
            let next = texts(path@).subrange(from as int, i as int + 1);
            assert(next.drop_last() == texts(path@).subrange(from as int, i as int));
            assert(next.last() == path@[i as int]@);
        }
    }
    out
}

/// Entries that were all extracted were so whatever would have been read of a file
/// that cannot be read.
proof fn lemma_partial_unused(
    dest: Seq<char>,
    entries: Seq<(Option<(Seq<char>, bool)>, Option<Seq<u8>>)>,
    a: Seq<u8>,
    b: Seq<u8>,
)
    requires
        extraction(dest, entries, a).1 is None,
    ensures
        extraction(dest, entries, b) == extraction(dest, entries, a),
    decreases entries.len(),
{
    if entries.len() > 0 {
        lemma_partial_unused(dest, entries.drop_last(), a, b);
    }
}

/// What was read of the file at which an extraction stopped: it is what the last
/// step writes.
pub open spec fn read_so_far(r: Extraction) -> Seq<u8> {
    match r.failure {
        Some(ExtractError::Contents(_)) => r.steps@.last()->WriteFile_1@,
        _ => seq![],
    }
}

/// Write what was read of an entry to its file, and stop there if not all of it
/// could be read.
pub fn write_entry(target: String, read: EntryRead) -> (r: (ExtractStep, Option<ExtractError>))
    ensures
        r.0@ == StepModel::WriteFile(target@, read.bytes@),
        r.1 == match read.failure {
            Some(e) => Some(ExtractError::Contents(e)),
            None => None,
        },
{
    let failure = match read.failure {
        Some(e) => Some(ExtractError::Contents(e)),
        None => None,
    };
    (ExtractStep::WriteFile(target, read.bytes), failure)
}

/// Extract a zip archive into `dest`, stripping the top-level directory: what to
/// create on disk, and whether the extraction stops short. The archive is
/// expected to contain a single top-level directory (such as `soteria-rust/`)
/// whose contents are placed directly into `dest`.
pub fn extract_zip(data: Vec<u8>, dest: &str) -> (r: Extraction)
    ensures
        (step_models(r.steps@), failure_model(r.failure)) == zip_extraction(
            dest@,
            data@,
            read_so_far(r),
        ),
        forall|k: int|
            0 <= k < r.steps@.len() ==> lies_under(dest@, (#[trigger] r.steps@[k])@.path()),
{
    let ghost none = Seq::<u8>::empty();
    let mut steps: Vec<ExtractStep> = Vec::new();
    let mut archive = match open_archive(data) {
        Ok(archive) => archive,
        Err(e) => {
            assert(step_models(steps@) == Seq::<StepModel>::empty());
            return Extraction { steps, failure: Some(ExtractError::Open(e)) };
        },
    };
    let n: usize = entry_count(&archive);
    let ghost entries = archive_entries(archive);
    assert(step_models(steps@) == Seq::<StepModel>::empty());
    let mut i: usize = 0;
    while i < n
        invariant
            n == entries.len(),
            i <= n,
            none == Seq::<u8>::empty(),
            entries == archive_entries(archive),
            zip_listing(data@) == Some(entries),
            (step_models(steps@), None::<FailureModel>) == extraction(
                dest@,
                entries.take(i as int),
                none,
            ),
            forall|k: int|
                0 <= k < steps@.len() ==> lies_under(dest@, (#[trigger] steps@[k])@.path()),
        decreases n - i,
    {
        let ghost next = entries.take(i as int + 1);
        proof {
            assert(next.drop_last() == entries.take(i as int));
            assert(next.last() == entries[i as int]);
        }
        let (name, is_dir) = match entry_header(&mut archive, i) {
            Ok(header) => header,
            Err(e) => {
                proof {
                    assert(step_models(steps@) + Seq::<StepModel>::empty() == step_models(steps@));
                    lemma_extraction_stops(dest@, entries, none, i as int + 1);
                }
                return Extraction { steps, failure: Some(ExtractError::Entry(e)) };
            },
        };
        let ghost path = components(name@);
        let ghost stripped = path.skip(1);
        let ghost before = steps@;
        proof {
            if path.len() > 1 {
                assert forall|j: int| 0 <= j < stripped.len() implies is_normal(
                    #[trigger] stripped[j],
                ) by {
                    assert(stripped[j] == path[j + 1]);
                }
                assert(all_normal(stripped) && all_normal(stripped.drop_last()));
                assert(lies_under(dest@, path_under(dest@, stripped)));
                assert(lies_under(dest@, path_under(dest@, stripped.drop_last())));
            }
        }
        match plan_entry(dest, name.as_str(), is_dir) {
            EntryPlan::Nothing => {
                assert(step_models(steps@) + Seq::<StepModel>::empty() == step_models(steps@));
            },
            EntryPlan::Directory(target) => {
                steps.push(ExtractStep::MakeDirs(target));
                assert(step_models(steps@) == step_models(before) + seq![
                    StepModel::MakeDirs(target@),
                ]);
            },
            EntryPlan::File { parent, target } => {
                steps.push(ExtractStep::MakeDirs(parent));
                let read = entry_contents(&mut archive, i);
                let ghost bytes = read.bytes@;
                let (step, failure) = write_entry(target, read);
                steps.push(step);
                assert(step_models(steps@) == step_models(before) + seq![
                    StepModel::MakeDirs(parent@),
                    StepModel::WriteFile(target@, bytes),
                ]);
                if failure.is_some() {
                    proof {
                        lemma_partial_unused(dest@, entries.take(i as int), none, bytes);
                        lemma_extraction_stops(dest@, entries, bytes, i as int + 1);
                        assert(steps@.last()@ == StepModel::WriteFile(target@, bytes));
                        assert(steps@.last()->WriteFile_1@ == bytes);
                    }
                    return Extraction { steps, failure };
                }
            },
        }
        i = i + 1;
    }
    assert(entries.take(n as int) == entries);
    Extraction { steps, failure: None }
}

/// What lies under a directory has the path of that directory in front, with a
/// separator behind it unless the path ends in one.
pub proof fn law_paths_under_stay_under(dest: Seq<char>, path: Seq<char>)
    requires
        lies_under(dest, path),
    ensures
        starts_with(path, dest),
        path != dest && dest.len() > 0 && dest.last() != '/' ==> starts_with(path, dest + "/"@),
{
    let components = choose|components: Seq<Seq<char>>|
        path == #[trigger] path_under(dest, components) && all_normal(components);
    lemma_path_under_extends(dest, components);
}

proof fn lemma_path_under_extends(dest: Seq<char>, components: Seq<Seq<char>>)
    requires
        all_normal(components),
    ensures
        starts_with(path_under(dest, components), dest),
        components.len() > 0 && dest.len() > 0 && dest.last() != '/' ==> starts_with(
            path_under(dest, components),
            dest + "/"@,
        ),
    decreases components.len(),
{
    let path = path_under(dest, components);
    reveal_strlit("/");
    if components.len() == 0 {
        assert(path.take(dest.len() as int) == dest);
    } else {
        let prior = path_under(dest, components.drop_last());
        assert forall|i: int| 0 <= i < components.drop_last().len() implies is_normal(
            #[trigger] components.drop_last()[i],
        ) by {
            assert(components.drop_last()[i] == components[i]);
        }
        lemma_path_under_extends(dest, components.drop_last());
        let c = components.last();
        assert(is_normal(components[components.len() - 1]));
        assert(c[0] != '/') by {
            if c[0] == '/' {
                assert(c.contains(c[0]));
            }
        }
        assert(path.take(prior.len() as int) == prior);
        assert(path.take(dest.len() as int) == prior.take(dest.len() as int));
        if dest.len() > 0 && dest.last() != '/' {
            if components.len() == 1 {
                assert(prior == dest);
                assert(path.take(dest.len() as int + 1) == dest + "/"@);
            } else {
                assert(path.take(dest.len() as int + 1) == prior.take(dest.len() as int + 1));
            }
        }
    }
}

// ── what an extraction leaves ─────────────────────────────────────────────────

/// Ordinary names lead from a directory to what lies below it, with a separator in front
/// of each.
pub proof fn law_path_under(dest: Seq<char>, names: Seq<Seq<char>>)
    requires
        dest.len() > 0,
        dest.last() != '/',
        all_normal(names),
    ensures
        names.len() == 0 ==> path_under(dest, names) == dest,
        names.len() > 0 ==> path_under(dest, names) == dest + seq!['/'] + joined(names, seq!['/']),
    decreases names.len(),
{
    reveal_strlit("/");
    assert("/"@ == seq!['/']);
    if names.len() > 0 {
        let front = names.drop_last();
        assert forall|i: int| 0 <= i < front.len() implies is_normal(#[trigger] front[i]) by {
            assert(front[i] == names[i]);
        }
        law_path_under(dest, front);
        let prior = path_under(dest, front);
        let name = names.last();
        assert(is_normal(names[names.len() - 1]));
        assert(name[0] != '/') by {
            if name[0] == '/' {
                assert(name.contains(name[0]));
            }
        }
        if front.len() > 0 {
            let last = front.last();
            assert(is_normal(front[front.len() - 1]));
            assert(last.last() != '/') by {
                if last.last() == '/' {
                    assert(last.contains(last[last.len() - 1]));
                }
            }
            lemma_joined_end(front, seq!['/']);
            assert(prior.last() == last.last());
            assert(path_under(dest, names) == prior + "/"@ + name);
            assert(dest + seq!['/'] + joined(front, seq!['/']) + seq!['/'] + name == dest + seq![
                '/',
            ] + (joined(front, seq!['/']) + seq!['/'] + name));
        }
    }
}

/// Joined pieces end like the last of them.
proof fn lemma_joined_end(pieces: Seq<Seq<char>>, sep: Seq<char>)
    requires
        pieces.len() > 0,
        pieces.last().len() > 0,
    ensures
        joined(pieces, sep).len() > 0,
        joined(pieces, sep).last() == pieces.last().last(),
{
}

/// Where an entry goes: what follows the first separator of its name is its path below
/// the destination.
pub proof fn law_top_directory_is_stripped(
    dest: Seq<char>,
    top: Seq<char>,
    rest: Seq<char>,
    contents: Seq<u8>,
    partial: Seq<u8>,
)
    requires
        dest.len() > 0,
        dest.last() != '/',
        is_normal(top),
        all_normal(split(rest, '/')),
    ensures
        ({
            let name = top + seq!['/'] + rest;
            let target = dest + seq!['/'] + rest;
            let file = entry_steps(dest, (Some((name, false)), Some(contents)), partial);
            let damaged = entry_steps(dest, (Some((name, false)), None), partial);
            &&& entry_steps(dest, (Some((name, true)), Some(contents)), partial) == (
                seq![StepModel::MakeDirs(target)],
                None::<FailureModel>,
            )
            &&& file.0.len() == 2
            &&& file.0[0] is MakeDirs
            &&& file.0[1] == StepModel::WriteFile(target, contents)
            &&& file.1 is None
            &&& damaged.0 == seq![file.0[0], StepModel::WriteFile(target, partial)]
            &&& damaged.1 == Some(FailureModel::Contents)
        }),
{
    let name = top + seq!['/'] + rest;
    assert forall|j: int| 0 <= j < top.len() implies top[j] != '/' by {
        assert(top.contains(top[j]));
    }
    lemma_split_cons(top, '/', rest);
    law_split_pieces(rest, '/');
    assert(components(name).skip(1) == split(rest, '/'));
    law_path_under(dest, split(rest, '/'));
    let file = entry_steps(dest, (Some((name, false)), Some(contents)), partial);
    let damaged = entry_steps(dest, (Some((name, false)), None), partial);
    assert(damaged.0 == seq![file.0[0], StepModel::WriteFile(dest + seq!['/'] + rest, partial)]);
}

/// The directory that a file goes into is the file's path without its last name.
pub proof fn law_parent_comes_first(
    dest: Seq<char>,
    top: Seq<char>,
    middle: Seq<char>,
    last: Seq<char>,
    contents: Seq<u8>,
    partial: Seq<u8>,
)
    requires
        dest.len() > 0,
        dest.last() != '/',
        is_normal(top),
        all_normal(split(middle, '/')),
        is_normal(last),
    ensures
        entry_steps(
            dest,
            (Some((top + seq!['/'] + last, false)), Some(contents)),
            partial,
        ).0[0] == StepModel::MakeDirs(dest),
        entry_steps(
            dest,
            (Some((top + seq!['/'] + (middle + seq!['/'] + last), false)), Some(contents)),
            partial,
        ).0[0] == StepModel::MakeDirs(dest + seq!['/'] + middle),
{
    assert forall|j: int| 0 <= j < top.len() implies top[j] != '/' by {
        assert(top.contains(top[j]));
    }
    assert forall|j: int| 0 <= j < last.len() implies last[j] != '/' by {
        assert(last.contains(last[j]));
    }
    let rest = middle + seq!['/'] + last;
    lemma_split_cons(top, '/', last);
    lemma_split_cons(top, '/', rest);
    lemma_split_one(last, '/');
    assert(components(top + seq!['/'] + last).skip(1).drop_last() == Seq::<Seq<char>>::empty());
    lemma_split_back(middle, '/', last);
    law_split_pieces(middle, '/');
    let names = components(top + seq!['/'] + rest);
    assert(names.skip(1).drop_last() == split(middle, '/'));
    law_path_under(dest, split(middle, '/'));
}

/// A piece without separators behind one is the last piece.
proof fn lemma_split_back(front: Seq<char>, sep: char, piece: Seq<char>)
    requires
        forall|j: int| 0 <= j < piece.len() ==> piece[j] != sep,
    ensures
        split(front + seq![sep] + piece, sep) == split(front, sep) + seq![piece],
    decreases front.len(),
{
    lemma_position(front, sep);
    lemma_split_one(piece, sep);
    let i = position(front, sep) as int;
    if i >= front.len() {
        lemma_split_cons(front, sep, piece);
    } else {
        let first = front.take(i);
        let rest = front.skip(i + 1);
        lemma_split_back(rest, sep, piece);
        assert(front + seq![sep] + piece == first + seq![sep] + (rest + seq![sep] + piece));
        lemma_split_cons(first, sep, rest + seq![sep] + piece);
        assert(seq![first] + (split(rest, sep) + seq![piece]) == seq![first] + split(rest, sep)
            + seq![piece]);
    }
}

/// An entry without a name below the top-level directory leaves nothing.
pub proof fn law_top_entries_leave_nothing(
    dest: Seq<char>,
    top: Seq<char>,
    is_dir: bool,
    contents: Option<Seq<u8>>,
    partial: Seq<u8>,
)
    requires
        !top.contains('/'),
    ensures
        entry_steps(dest, (Some((top, is_dir)), contents), partial) == (
            Seq::<StepModel>::empty(),
            None::<FailureModel>,
        ),
{
    assert forall|j: int| 0 <= j < top.len() implies top[j] != '/' by {
        assert(top.contains(top[j]));
    }
    lemma_split_one(top, '/');
}

/// Whether an entry can be extracted: it can be opened, and where it is a file below the
/// top-level directory, its contents can be read.
pub open spec fn readable(entry: (Option<(Seq<char>, bool)>, Option<Seq<u8>>)) -> bool {
    match entry.0 {
        None => false,
        Some((name, is_dir)) => is_dir || !name.contains('/') || entry.1 is Some,
    }
}

/// An extraction fails exactly where some entry cannot be extracted; where none is
/// missing, the steps for entries are those for the first ones and then those for the
/// others.
pub proof fn law_extraction_is_complete(
    dest: Seq<char>,
    front: Seq<(Option<(Seq<char>, bool)>, Option<Seq<u8>>)>,
    one: (Option<(Seq<char>, bool)>, Option<Seq<u8>>),
    back: Seq<(Option<(Seq<char>, bool)>, Option<Seq<u8>>)>,
    partial: Seq<u8>,
)
    requires
        forall|i: int| 0 <= i < front.len() ==> readable(#[trigger] front[i]),
    ensures
        extraction(dest, front, partial).1 is None,
        readable(one) ==> extraction(dest, front + seq![one] + back, partial) == (
            extraction(dest, front, partial).0 + entry_steps(dest, one, partial).0 + extraction(
                dest,
                back,
                partial,
            ).0,
            extraction(dest, back, partial).1,
        ),
        !readable(one) ==> extraction(dest, front + seq![one] + back, partial) == (
            extraction(dest, front, partial).0 + entry_steps(dest, one, partial).0,
            entry_steps(dest, one, partial).1,
        ) && entry_steps(dest, one, partial).1 is Some,
    decreases front.len(), back.len(),
{
    lemma_readable(dest, one, partial);
    if front.len() > 0 {
        law_extraction_is_complete(dest, front.drop_last(), front.last(), seq![], partial);
        assert(front.drop_last() + seq![front.last()] + Seq::empty() == front);
        assert(readable(front[front.len() - 1]));
        lemma_readable(dest, front.last(), partial);
    }
    let all = front + seq![one] + back;
    let start = front + seq![one];
    assert(start.drop_last() == front);
    if back.len() == 0 {
        assert(all == start);
        let given = extraction(dest, front, partial).0 + entry_steps(dest, one, partial).0;
        assert(given + Seq::<StepModel>::empty() == given);
    } else {
        law_extraction_is_complete(dest, front, one, back.drop_last(), partial);
        assert(all.drop_last() == front + seq![one] + back.drop_last());
        assert(all.last() == back.last());
        let given = extraction(dest, front, partial).0 + entry_steps(dest, one, partial).0;
        let more = extraction(dest, back.drop_last(), partial).0;
        let last = entry_steps(dest, back.last(), partial).0;
        assert(given + more + last == given + (more + last));
    }
}

proof fn lemma_readable(
    dest: Seq<char>,
    entry: (Option<(Seq<char>, bool)>, Option<Seq<u8>>),
    partial: Seq<u8>,
)
    ensures
        readable(entry) <==> entry_steps(dest, entry, partial).1 is None,
{
    if let Some((name, is_dir)) = entry.0 {
        lemma_position(name, '/');
        if name.contains('/') {
            let i = position(name, '/') as int;
            law_split_pieces(name.skip(i + 1), '/');
            assert(split(name, '/').len() == 1 + split(name.skip(i + 1), '/').len());
        } else if name.len() > 0 {
            assert forall|j: int| 0 <= j < name.len() implies name[j] != '/' by {
                assert(name.contains(name[j]));
            }
            lemma_split_one(name, '/');
        }
    }
}

/// Bytes that are no archive leave nothing and fail; an archive leaves what its entries
/// do.
pub proof fn law_archive_or_not(dest: Seq<char>, data: Seq<u8>, partial: Seq<u8>)
    ensures
        zip_listing(data) is None ==> zip_extraction(dest, data, partial) == (
            Seq::<StepModel>::empty(),
            Some(FailureModel::Open),
        ),
        zip_listing(data) matches Some(entries) ==> zip_extraction(dest, data, partial)
            == extraction(dest, entries, partial) && zip_extraction(dest, data, partial).1 != Some(
            FailureModel::Open,
        ),
{
    if let Some(entries) = zip_listing(data) {
        lemma_not_open(dest, entries, partial);
    }
}

proof fn lemma_not_open(
    dest: Seq<char>,
    entries: Seq<(Option<(Seq<char>, bool)>, Option<Seq<u8>>)>,
    partial: Seq<u8>,
)
    ensures
        extraction(dest, entries, partial).1 != Some(FailureModel::Open),
    decreases entries.len(),
{
    if entries.len() > 0 {
        lemma_not_open(dest, entries.drop_last(), partial);
    }
}

} // verus!
