//! Turns an in-memory zip archive into an ordered list of filesystem actions,
//! rejecting any entry whose stored path would land outside the target
//! directory. The zip crate parses the container; everything decided about an
//! entry — safety, destination, parent directory, ordering — is verified here.

use vstd::prelude::*;
use crate::error::InstallError;
use crate::bytes::clone_bytes;
use crate::bytes::copy_range;
use crate::bytes::push_all;
use crate::resolve::last_byte_at;
use crate::resolve::lemma_last_byte_at;
use crate::resolve::rfind_byte;

verus! {

/// A zip archive opened over bytes held in memory.
pub type InMemoryArchive = zip::ZipArchive<std::io::Cursor<Vec<u8>>>;

#[verifier::external_type_specification]
#[verifier::external_body]
#[verifier::reject_recursive_types(T)]
pub struct ExCursor<T>(std::io::Cursor<T>);

#[verifier::external_type_specification]
#[verifier::external_body]
#[verifier::reject_recursive_types(R)]
pub struct ExZipArchive<R>(zip::ZipArchive<R>);

/// The entries an opened archive holds, in archive order: for each, its
/// stored relative path, whether its bytes can be read out (an unsupported
/// compression method or corrupt data makes an entry unreadable, a
/// deterministic property of the archive), and its decompressed contents —
/// unconstrained when the entry is unreadable.
pub uninterp spec fn archive_entries(a: InMemoryArchive) -> Seq<(Seq<u8>, bool, Seq<u8>)>;

/// What `zip::ZipArchive::new` makes of a byte string: `None` when the bytes
/// are not a valid zip container, else the entries of the archive they hold.
pub uninterp spec fn zip_entries(bytes: Seq<u8>) -> Option<Seq<(Seq<u8>, bool, Seq<u8>)>>;

/// The zip crate treats an entry as a directory marker exactly when its
/// stored name ends in a separator.
pub open spec fn entry_is_dir(name: Seq<u8>) -> bool {
    name.len() > 0 && (name.last() == ('/' as u8) || name.last() == ('\\' as u8))
}

/// Relies on `zip::ZipArchive::new` over an in-memory cursor: it parses the
/// central directory of `bytes` and fails exactly on an invalid container.
#[verifier::external_body]
fn zip_open(bytes: Vec<u8>) -> (r: Result<InMemoryArchive, InstallError>)
    ensures
        match r {
            Ok(a) => zip_entries(bytes@) is Some && archive_entries(a) == zip_entries(
                bytes@,
            ).unwrap(),
            Err(e) => e == InstallError::ArchiveOpen && zip_entries(bytes@) is None,
        },
{
    match zip::ZipArchive::new(std::io::Cursor::new(bytes)) {
        Ok(a) => Ok(a),
        Err(_) => Err(InstallError::ArchiveOpen),
    }
}

/// Relies on `zip::ZipArchive::len`: the number of entries in the archive.
#[verifier::external_body]
fn zip_len(a: &InMemoryArchive) -> (n: usize)
    ensures
        n == archive_entries(*a).len(),
{
    a.len()
}

/// Relies on `zip::ZipArchive::by_index` and the entry accessors `name`,
/// `is_dir` and `Read::read_to_end`: together they hand entry `i` out as
/// plain values, succeeding exactly when the entry's bytes can be read.
/// `is_dir` is, per the crate's source, a test on the name's final character
/// alone; a failure to open or read the entry is the entry-copy error.
#[verifier::external_body]
fn zip_entry(a: &mut InMemoryArchive, i: usize) -> (r: Result<(Vec<u8>, bool, Vec<u8>), InstallError>)
    requires
        i < archive_entries(*old(a)).len(),
    ensures
        archive_entries(*final(a)) == archive_entries(*old(a)),
        r is Ok <==> archive_entries(*old(a))[i as int].1,
        match r {
            Ok(e) => {
                &&& e.0@ == archive_entries(*old(a))[i as int].0
                &&& e.2@ == archive_entries(*old(a))[i as int].2
                &&& e.1 == entry_is_dir(e.0@)
            },
            Err(err) => err == InstallError::Copy,
        },
{
    let mut f = match a.by_index(i) {
        Ok(f) => f,
        Err(_) => return Err(InstallError::Copy),
    };
    let name = f.name().as_bytes().to_vec();
    let dir = f.is_dir();
    let mut data: Vec<u8> = Vec::new();
    match std::io::Read::read_to_end(&mut f, &mut data) {
        Ok(_) => Ok((name, dir, data)),
        Err(_) => Err(InstallError::Copy),
    }
}

/// Every entry's bytes can be read out.
pub open spec fn all_entries_readable(es: Seq<(Seq<u8>, bool, Seq<u8>)>) -> bool {
    forall|i: int| 0 <= i < es.len() ==> (#[trigger] es[i]).1
}

/// How walking the entries in order ends: `None` for success, else the error
/// of the first entry that stops the walk — an unreadable entry is the
/// entry-copy error, a readable entry with an unsafe stored path the
/// unsafe-path error.
pub open spec fn spec_extract_outcome(es: Seq<(Seq<u8>, bool, Seq<u8>)>) -> Option<InstallError>
    decreases es.len(),
{
    if es.len() == 0 {
        None
    } else if !es[0].1 {
        Some(InstallError::Copy)
    } else if !is_safe_entry_name(es[0].0) {
        Some(InstallError::UnsafePath)
    } else {
        spec_extract_outcome(es.skip(1))
    }
}

/// What the walk's outcome means: it succeeds exactly when every entry is
/// readable and safe; it is the unsafe-path error whenever the entries are
/// readable but one is unsafe, and only when one is unsafe; it is the
/// entry-copy error only when an entry is unreadable; and no other error can
/// come out of the walk.
pub proof fn lemma_extract_outcome_characterized(es: Seq<(Seq<u8>, bool, Seq<u8>)>)
    ensures
        spec_extract_outcome(es) is None <==> (all_entries_readable(es) && all_entries_safe(es)),
        spec_extract_outcome(es) is Some ==> (spec_extract_outcome(es) == Some(InstallError::Copy)
            || spec_extract_outcome(es) == Some(InstallError::UnsafePath)),
        all_entries_readable(es) && !all_entries_safe(es) ==> spec_extract_outcome(es) == Some(
            InstallError::UnsafePath,
        ),
        spec_extract_outcome(es) == Some(InstallError::UnsafePath) ==> !all_entries_safe(es),
        spec_extract_outcome(es) == Some(InstallError::Copy) ==> !all_entries_readable(es),
    decreases es.len(),
{
    if es.len() == 0 {
    } else if !es[0].1 {
        assert(!all_entries_readable(es));
    } else if !is_safe_entry_name(es[0].0) {
        assert(!all_entries_safe(es));
    } else {
        lemma_extract_outcome_characterized(es.skip(1));
        assert(all_entries_readable(es) == all_entries_readable(es.skip(1))) by {
            if all_entries_readable(es) {
                assert forall|j: int| 0 <= j < es.skip(1).len() implies (#[trigger] es.skip(1)[j]).1 by {
                    assert(es.skip(1)[j] == es[j + 1]);
                }
            } else if all_entries_readable(es.skip(1)) {
                assert forall|i: int| 0 <= i < es.len() implies (#[trigger] es[i]).1 by {
                    if i > 0 {
                        assert(es.skip(1)[i - 1] == es[i]);
                    }
                }
            }
        }
        assert(all_entries_safe(es) == all_entries_safe(es.skip(1))) by {
            if all_entries_safe(es) {
                assert forall|j: int| 0 <= j < es.skip(1).len() implies is_safe_entry_name(
                    (#[trigger] es.skip(1)[j]).0,
                ) by {
                    assert(es.skip(1)[j] == es[j + 1]);
                }
            } else if all_entries_safe(es.skip(1)) {
                assert forall|i: int| 0 <= i < es.len() implies is_safe_entry_name(
                    (#[trigger] es[i]).0,
                ) by {
                    if i > 0 {
                        assert(es.skip(1)[i - 1] == es[i]);
                    }
                }
            }
        }
    }
}

/// A `..` path segment begins at position `i` of `s`: two dots bounded on
/// each side by a separator or an end of the string.
pub open spec fn dotdot_segment_at(s: Seq<u8>, i: int) -> bool {
    &&& 0 <= i
    &&& i + 2 <= s.len()
    &&& s[i] == ('.' as u8)
    &&& s[i + 1] == ('.' as u8)
    &&& (i == 0 || s[i - 1] == ('/' as u8))
    &&& (i + 2 == s.len() || s[i + 2] == ('/' as u8))
}

/// A stored entry path that cannot escape the directory it is joined under:
/// non-empty, relative, and without any parent-directory segment.
pub open spec fn is_safe_entry_name(name: Seq<u8>) -> bool {
    &&& name.len() > 0
    &&& name[0] != ('/' as u8)
    &&& forall|i: int| !dotdot_segment_at(name, i)
}

/// Decide `is_safe_entry_name` for a concrete name.
pub fn entry_name_is_safe(name: &Vec<u8>) -> (r: bool)
    ensures
        r == is_safe_entry_name(name@),
{
    let n = name.len();
    if n == 0 {
        return false;
    }
    if name[0] == ('/' as u8) {
        return false;
    }
    let mut i: usize = 0;
    while i < n
        invariant
            i <= n == name@.len(),
            forall|j: int| j < i ==> !dotdot_segment_at(name@, j),
        decreases n - i,
    {
        if name[i] == ('.' as u8) && n - i >= 2 && name[i + 1] == ('.' as u8) && (i == 0 || name[i
            - 1] == ('/' as u8)) && (n - i == 2 || name[i + 2] == ('/' as u8)) {
            assert(dotdot_segment_at(name@, i as int));
            return false;
        }
        assert(!dotdot_segment_at(name@, i as int));
        i = i + 1;
    }
    assert(forall|j: int| j >= n ==> !dotdot_segment_at(name@, j));
    true
}

/// One step the extractor asks of the filesystem, in order.
pub enum FsAction {
    /// Create this directory and any missing parent of it.
    MakeDir(Vec<u8>),
    /// Create this file, overwriting any existing one, with these contents.
    WriteFile(Vec<u8>, Vec<u8>),
}

/// The ghost shape of one filesystem action.
pub enum FsActionModel {
    MakeDir(Seq<u8>),
    WriteFile(Seq<u8>, Seq<u8>),
}

impl FsAction {
    /// The ghost shape of this action.
    pub open spec fn model(&self) -> FsActionModel {
        match self {
            FsAction::MakeDir(p) => FsActionModel::MakeDir(p@),
            FsAction::WriteFile(p, d) => FsActionModel::WriteFile(p@, d@),
        }
    }
}

/// The path an action touches.
pub open spec fn action_path(a: FsActionModel) -> Seq<u8> {
    match a {
        FsActionModel::MakeDir(p) => p,
        FsActionModel::WriteFile(p, _) => p,
    }
}

/// The ghost shapes of a list of actions.
pub open spec fn actions_model(v: Seq<FsAction>) -> Seq<FsActionModel> {
    v.map_values(|a: FsAction| a.model())
}

/// `dir` joined with relative path `rel` by a single separator.
pub open spec fn spec_join(dir: Seq<u8>, rel: Seq<u8>) -> Seq<u8> {
    dir + seq![('/' as u8)] + rel
}

/// Join `rel` under `dir`.
pub fn join_under(dir: &Vec<u8>, rel: &Vec<u8>) -> (r: Vec<u8>)
    ensures
        r@ == spec_join(dir@, rel@),
{
    let mut r = clone_bytes(dir);
    r.push('/' as u8);
    push_all(&mut r, rel);
    assert(r@ =~= spec_join(dir@, rel@));
    r
}

/// Where a file entry's parent directory lies: the target itself when the
/// entry name has no separator, else the name's directory part joined under
/// the target.
pub open spec fn spec_file_parent(target: Seq<u8>, name: Seq<u8>) -> Seq<u8> {
    if last_byte_at(name, ('/' as u8)) < 0 {
        target
    } else {
        spec_join(target, name.subrange(0, last_byte_at(name, ('/' as u8))))
    }
}

/// Compute `spec_file_parent` for a concrete entry name.
fn file_parent(target: &Vec<u8>, name: &Vec<u8>) -> (r: Vec<u8>)
    ensures
        r@ == spec_file_parent(target@, name@),
{
    proof {
        lemma_last_byte_at(name@, ('/' as u8));
    }
    match rfind_byte(name, '/' as u8) {
        Some(k) => {
            let rel = copy_range(name, 0, k);
            join_under(target, &rel)
        },
        None => clone_bytes(target),
    }
}

/// The actions one entry asks for: its directory for a directory marker; for
/// a file, its parent directory and then the file itself.
pub open spec fn spec_entry_actions(target: Seq<u8>, name: Seq<u8>, data: Seq<u8>) -> Seq<
    FsActionModel,
> {
    if entry_is_dir(name) {
        seq![FsActionModel::MakeDir(spec_join(target, name))]
    } else {
        seq![
            FsActionModel::MakeDir(spec_file_parent(target, name)),
            FsActionModel::WriteFile(spec_join(target, name), data),
        ]
    }
}

/// The actions a list of entries asks for, in entry order.
pub open spec fn spec_plan_actions(target: Seq<u8>, es: Seq<(Seq<u8>, bool, Seq<u8>)>) -> Seq<
    FsActionModel,
>
    decreases es.len(),
{
    if es.len() == 0 {
        Seq::empty()
    } else {
        spec_plan_actions(target, es.drop_last()) + spec_entry_actions(
            target,
            es.last().0,
            es.last().2,
        )
    }
}

/// The whole plan for a list of entries: the target directory first, then
/// each entry's actions in order.
pub open spec fn spec_full_plan(target: Seq<u8>, es: Seq<(Seq<u8>, bool, Seq<u8>)>) -> Seq<
    FsActionModel,
> {
    seq![FsActionModel::MakeDir(target)] + spec_plan_actions(target, es)
}

/// Every entry's stored path is safe to join under the target.
pub open spec fn all_entries_safe(es: Seq<(Seq<u8>, bool, Seq<u8>)>) -> bool {
    forall|i: int| 0 <= i < es.len() ==> is_safe_entry_name(#[trigger] es[i].0)
}

/// Walk an opened archive and produce the ordered action list that installs
/// its entries under `target`. Succeeds exactly when every entry is safe and
/// readable; the first unsafe entry aborts the whole plan with `UnsafePath`,
/// an unreadable one with `Copy`; nothing else can stop it.
pub fn plan_from_archive(a: &mut InMemoryArchive, target: &Vec<u8>) -> (r: Result<
    Vec<FsAction>,
    InstallError,
>)
    ensures
        archive_entries(*final(a)) == archive_entries(*old(a)),
        r is Ok <==> spec_extract_outcome(archive_entries(*old(a))) is None,
        match r {
            Ok(acts) => {
                &&& all_entries_safe(archive_entries(*old(a)))
                &&& all_entries_readable(archive_entries(*old(a)))
                &&& actions_model(acts@) == spec_full_plan(target@, archive_entries(*old(a)))
            },
            Err(e) => spec_extract_outcome(archive_entries(*old(a))) == Some(e),
        },
{
    proof {
        lemma_extract_outcome_characterized(archive_entries(*a));
    }
    let ghost es = archive_entries(*a);
    let n = zip_len(a);
    let mut acts: Vec<FsAction> = Vec::new();
    acts.push(FsAction::MakeDir(clone_bytes(target)));
    proof {
        assert(es.take(0) =~= Seq::<(Seq<u8>, bool, Seq<u8>)>::empty());
        assert(actions_model(acts@) =~= spec_full_plan(target@, es.take(0)));
        assert(es.skip(0) =~= es);
    }
    let mut i: usize = 0;
    while i < n
        invariant
            es == archive_entries(*old(a)),
            archive_entries(*a) == es,
            i <= n == es.len(),
            forall|j: int| 0 <= j < i ==> is_safe_entry_name(#[trigger] es[j].0),
            forall|j: int| 0 <= j < i ==> (#[trigger] es[j]).1,
            spec_extract_outcome(es) == spec_extract_outcome(es.skip(i as int)),
            actions_model(acts@) == spec_full_plan(target@, es.take(i as int)),
        decreases n - i,
    {
        let ghost suffix = es.skip(i as int);
        proof {
            assert(suffix[0] == es[i as int]);
        }
        let entry = match zip_entry(a, i) {
            Ok(e) => e,
            Err(err) => {
                proof {
                    assert(!es[i as int].1);
                    assert(spec_extract_outcome(suffix) == Some(InstallError::Copy));
                }
                return Err(err);
            },
        };
        let (name, dirflag, data) = entry;
        if !entry_name_is_safe(&name) {
            proof {
                assert(es[i as int].1);
                assert(!is_safe_entry_name(es[i as int].0));
                assert(spec_extract_outcome(suffix) == Some(InstallError::UnsafePath));
            }
            return Err(InstallError::UnsafePath);
        }
        proof {
            assert(es[i as int].1 && is_safe_entry_name(es[i as int].0));
            assert(suffix.skip(1) =~= es.skip(i as int + 1));
            assert(spec_extract_outcome(suffix) == spec_extract_outcome(es.skip(i as int + 1)));
        }
        let ghost pre_acts = acts@;
        let ghost entry_acts = spec_entry_actions(target@, es[i as int].0, es[i as int].2);
        proof {
            assert(es.take(i as int + 1).drop_last() =~= es.take(i as int));
            assert(es.take(i as int + 1).last() == es[i as int]);
            assert(spec_plan_actions(target@, es.take(i as int + 1)) == spec_plan_actions(
                target@,
                es.take(i as int),
            ) + entry_acts);
        }
        if dirflag {
            acts.push(FsAction::MakeDir(join_under(target, &name)));
            proof {
                assert(actions_model(acts@) =~= actions_model(pre_acts) + entry_acts);
            }
        } else {
            acts.push(FsAction::MakeDir(file_parent(target, &name)));
            acts.push(FsAction::WriteFile(join_under(target, &name), data));
            proof {
                assert(actions_model(acts@) =~= actions_model(pre_acts) + entry_acts);
            }
        }
        proof {
            assert(actions_model(acts@) =~= spec_full_plan(target@, es.take(i as int + 1)));
        }
        i = i + 1;
    }
    proof {
        assert(es.take(n as int) =~= es);
        assert(es.skip(n as int) =~= Seq::<(Seq<u8>, bool, Seq<u8>)>::empty());
        assert(spec_extract_outcome(es) is None);
        lemma_extract_outcome_characterized(es);
    }
    Ok(acts)
}

/// Open the archive held in `bytes` and plan its extraction under `target`:
/// the composition of the zip container parse and `plan_from_archive`.
/// Succeeds exactly when the container parses and every entry is readable
/// and safe; the open error comes exactly on an invalid container, and a
/// parsed container's error is the entry walk's outcome: `UnsafePath` for
/// the first unsafe entry, `Copy` for the first unreadable one.
pub fn extract_plan(bytes: Vec<u8>, target: &Vec<u8>) -> (r: Result<Vec<FsAction>, InstallError>)
    ensures
        r is Ok <==> (zip_entries(bytes@) is Some && spec_extract_outcome(
            zip_entries(bytes@).unwrap(),
        ) is None),
        match r {
            Ok(acts) => {
                &&& all_entries_safe(zip_entries(bytes@).unwrap())
                &&& all_entries_readable(zip_entries(bytes@).unwrap())
                &&& actions_model(acts@) == spec_full_plan(target@, zip_entries(bytes@).unwrap())
            },
            Err(e) => {
                &&& (e == InstallError::ArchiveOpen <==> zip_entries(bytes@) is None)
                &&& (zip_entries(bytes@) is Some ==> spec_extract_outcome(
                    zip_entries(bytes@).unwrap(),
                ) == Some(e))
            },
        },
{
    let mut a = match zip_open(bytes) {
        Ok(a) => a,
        Err(e) => {
            return Err(e);
        },
    };
    let r = plan_from_archive(&mut a, target);
    proof {
        lemma_extract_outcome_characterized(zip_entries(bytes@).unwrap());
    }
    r
}

/// Containment: `p` is the target directory itself, or lies below it through
/// a separator and a remainder that is itself a safe relative path.
pub open spec fn path_within(target: Seq<u8>, p: Seq<u8>) -> bool {
    ||| p == target
    ||| (p.len() > target.len() + 1 && p.subrange(0, target.len() as int) == target && p[target.len() as int]
        == ('/' as u8) && is_safe_entry_name(p.subrange(target.len() as int + 1, p.len() as int)))
}

/// The security property of the extractor: when every entry is safe, every
/// action of the plan touches only the target directory or a path below it.
pub proof fn lemma_plan_stays_within(target: Seq<u8>, es: Seq<(Seq<u8>, bool, Seq<u8>)>)
    requires
        all_entries_safe(es),
    ensures
        forall|k: int|
            0 <= k < spec_full_plan(target, es).len() ==> path_within(
                target,
                action_path(#[trigger] spec_full_plan(target, es)[k]),
            ),
    decreases es.len(),
{
    if es.len() == 0 {
    } else {
        assert(all_entries_safe(es.drop_last())) by {
            assert(forall|i: int|
                0 <= i < es.len() - 1 ==> es.drop_last()[i] == #[trigger] es[i]);
        }
        lemma_plan_stays_within(target, es.drop_last());
        let name = es.last().0;
        let data = es.last().2;
        assert(is_safe_entry_name(name));
        lemma_join_within(target, name);
        if !entry_is_dir(name) {
            lemma_parent_within(target, name);
        }
        assert forall|k: int| 0 <= k < spec_full_plan(target, es).len() implies path_within(
            target,
            action_path(#[trigger] spec_full_plan(target, es)[k]),
        ) by {
            let prior = spec_full_plan(target, es.drop_last());
            if k < prior.len() {
                assert(spec_full_plan(target, es)[k] == prior[k]);
            } else {
                assert(spec_full_plan(target, es)[k] == spec_entry_actions(target, name, data)[k
                    - prior.len()]);
            }
        }
    }
}

/// A safe name joined under the target stays within it.
proof fn lemma_join_within(target: Seq<u8>, name: Seq<u8>)
    requires
        is_safe_entry_name(name),
    ensures
        path_within(target, spec_join(target, name)),
{
    let p = spec_join(target, name);
    assert(p.subrange(0, target.len() as int) =~= target);
    assert(p.subrange(target.len() as int + 1, p.len() as int) =~= name);
}

/// A safe file name's parent directory stays within the target.
proof fn lemma_parent_within(target: Seq<u8>, name: Seq<u8>)
    requires
        is_safe_entry_name(name),
    ensures
        path_within(target, spec_file_parent(target, name)),
{
    let ls = last_byte_at(name, ('/' as u8));
    lemma_last_byte_at(name, ('/' as u8));
    if ls >= 0 {
        let rel = name.subrange(0, ls);
        assert(ls >= 1) by {
            assert(name[ls] == ('/' as u8));
            assert(name[0] != ('/' as u8));
        }
        assert(is_safe_entry_name(rel)) by {
            assert(rel[0] == name[0]);
            assert forall|i: int| !dotdot_segment_at(rel, i) by {
                if 0 <= i && i + 2 <= rel.len() {
                    assert(rel[i] == name[i] && rel[i + 1] == name[i + 1]);
                    if i > 0 {
                        assert(rel[i - 1] == name[i - 1]);
                    }
                    if i + 2 < rel.len() {
                        assert(rel[i + 2] == name[i + 2]);
                    }
                    assert(i + 2 == rel.len() ==> name[i + 2] == ('/' as u8));
                    assert(!dotdot_segment_at(name, i));
                }
            }
        }
        lemma_join_within(target, rel);
    }
}

} // verus!
