//! Which engine is run. There is one answer for every command that asks.
//!
//! Paths are the bytes that the system has them as, with a colon between the
//! directories of a search path and a slash between the parts of a path.
use vstd::prelude::*;
use vstd::utf8::encode_utf8;
use crate::drill::persist::copy_bytes;
use crate::drill::step::Step;

verus! {

/// The name that the engine is installed under.
pub const ENGINE_NAME: &'static str = "kafka-backup";

/// Where an image keeps the engine.
pub const WELL_KNOWN: &'static str = "/usr/local/bin/kafka-backup";

/// Where a checkout keeps the engine.
pub const REPO_LOCAL: &'static str = ".engine/kafka-backup";

/// What stands between two directories of a search path: a colon.
pub const COLON: u8 = 58;

/// What stands between two parts of a path: a slash.
pub const SLASH: u8 = 47;

/// What is known of a file that is there.
#[derive(Clone, Copy, Debug)]
pub struct FileFacts {
    pub is_file: bool,
    /// The permission bits.
    pub mode: u32,
}

/// The file is there, is a plain file, and someone may run it.
pub open spec fn runs(facts: Option<FileFacts>) -> bool {
    facts matches Some(f) && f.is_file && f.mode & 0o111 != 0
}

/// Whether a file can be run.
pub fn is_executable(facts: Option<FileFacts>) -> (r: bool)
    ensures
        r == runs(facts),
{
    match facts {
        Some(f) => f.is_file && f.mode & 0o111 != 0,
        None => false,
    }
}

/// The directories of a search path, in order.
pub open spec fn directories(v: Seq<u8>) -> Seq<Seq<u8>>
    decreases v.len(),
{
    if v.len() == 0 {
        seq![Seq::empty()]
    } else {
        let before = directories(v.drop_last());
        if v.last() == COLON {
            before.push(Seq::empty())
        } else {
            before.drop_last().push(before.last().push(v.last()))
        }
    }
}

/// A name in a directory: a name that starts at the root stands for itself, and
/// no slash is put where one is.
pub open spec fn in_dir(dir: Seq<u8>, name: Seq<u8>) -> Seq<u8> {
    if name.len() > 0 && name[0] == SLASH {
        name
    } else if dir.len() == 0 || dir.last() == SLASH {
        dir + name
    } else {
        dir.push(SLASH) + name
    }
}

/// What is looked at for a name, in order.
pub open spec fn candidates(path: Seq<u8>, name: Seq<u8>) -> Seq<Seq<u8>> {
    directories(path).map_values(|d: Seq<u8>| in_dir(d, name))
}

/// The first of the files looked at so far that can be run.
pub open spec fn first_runnable(facts: Seq<Option<FileFacts>>) -> Option<int>
    decreases facts.len(),
{
    if facts.len() == 0 {
        None
    } else {
        match first_runnable(facts.drop_last()) {
            Some(i) => Some(i),
            None => if runs(facts.last()) {
                Some(facts.len() - 1)
            } else {
                None
            },
        }
    }
}

/// The contents of some paths.
pub open spec fn path_bytes(v: Seq<Vec<u8>>) -> Seq<Seq<u8>> {
    v.map_values(|b: Vec<u8>| b@)
}

/// A search path has a directory, if only an empty one.
proof fn directories_are_some(v: Seq<u8>)
    ensures
        directories(v).len() > 0,
    decreases v.len(),
{
    if v.len() > 0 {
        directories_are_some(v.drop_last());
    }
}

/// A name in a directory.
fn join(dir: &Vec<u8>, name: &[u8]) -> (r: Vec<u8>)
    ensures
        r@ == in_dir(dir@, name@),
{
    let mut out: Vec<u8> = Vec::new();
    if !(name.len() > 0 && name[0] == SLASH) {
        out = copy_bytes(dir);
        if dir.len() > 0 && dir[dir.len() - 1] != SLASH {
            out.push(SLASH);
        }
    }
    let ghost opening = out@;
    let mut i: usize = 0;
    proof {
        assert(opening + name@.take(0) =~= opening);
    }
    while i < name.len()
        invariant
            0 <= i <= name.len(),
            out@ == opening + name@.take(i as int),
        decreases name.len() - i,
    {
        out.push(name[i]);
        proof {
            assert(name@.take(i + 1) =~= name@.take(i as int).push(name@[i as int]));
        }
        i += 1;
    }
    proof {
        assert(name@.take(name.len() as int) =~= name@);
        assert(Seq::empty() + name@ =~= name@);
    }
    out
}

/// The files to look at for a name, in order.
fn list_candidates(path: &Vec<u8>, name: &[u8]) -> (r: Vec<Vec<u8>>)
    ensures
        path_bytes(r@) == candidates(path@, name@),
{
    let mut out: Vec<Vec<u8>> = Vec::new();
    let mut dir: Vec<u8> = Vec::new();
    let mut i: usize = 0;
    proof {
        assert(dir@ =~= Seq::empty());
        assert(directories(path@.take(0)) =~= seq![Seq::empty()]);
        assert(path_bytes(out@) =~= Seq::empty());
        assert(directories(path@.take(0)).drop_last().map_values(|d: Seq<u8>| in_dir(d, name@))
            =~= Seq::empty());
    }
    while i < path.len()
        invariant
            0 <= i <= path.len(),
            directories(path@.take(i as int)).len() > 0,
            dir@ == directories(path@.take(i as int)).last(),
            path_bytes(out@) == directories(path@.take(i as int)).drop_last().map_values(
                |d: Seq<u8>| in_dir(d, name@),
            ),
        decreases path.len() - i,
    {
        let b = path[i];
        let ghost before = directories(path@.take(i as int));
        let ghost listed = path_bytes(out@);
        let ghost joining = |d: Seq<u8>| in_dir(d, name@);
        proof {
            assert(path@.take(i + 1).drop_last() =~= path@.take(i as int));
            directories_are_some(path@.take(i + 1));
        }
        if b == COLON {
            let joined = join(&dir, name);
            out.push(joined);
            proof {
                assert(path_bytes(out@) =~= listed.push(joined@));
                assert(before.push(Seq::empty()).drop_last() =~= before);
                assert(before.map_values(joining) =~= before.drop_last().map_values(joining).push(
                    joining(before.last()),
                ));
            }
            dir = Vec::new();
            proof {
                assert(dir@ =~= Seq::empty());
            }
        } else {
            dir.push(b);
            proof {
                assert(before.drop_last().push(before.last().push(b)).drop_last()
                    =~= before.drop_last());
            }
        }
        i += 1;
    }
    let joined = join(&dir, name);
    let ghost listed = path_bytes(out@);
    out.push(joined);
    proof {
        assert(path@.take(path.len() as int) =~= path@);
        let all = directories(path@);
        let joining = |d: Seq<u8>| in_dir(d, name@);
        assert(path_bytes(out@) =~= listed.push(joined@));
        assert(all.map_values(joining) =~= all.drop_last().map_values(joining).push(
            joining(all.last()),
        ));
    }
    out
}

/// Looks for a file that can be run: what was looked at so far is the first
/// candidates, in order.
pub open spec fn search_is(
    r: Step<Vec<u8>, Option<Vec<u8>>>,
    path: Seq<u8>,
    name: Seq<u8>,
    looked: Seq<Option<FileFacts>>,
) -> bool {
    let all = candidates(path, name);
    let known = if looked.len() < all.len() {
        looked
    } else {
        looked.take(all.len() as int)
    };
    match first_runnable(known) {
        Some(i) => r matches Step::Done(Some(p)) && p@ == all[i],
        None => if looked.len() < all.len() {
            r matches Step::Ask(p) && p@ == all[looked.len() as int]
        } else {
            r matches Step::Done(None)
        },
    }
}

/// The first file that can be run is one of those looked at.
proof fn first_runnable_is_one(facts: Seq<Option<FileFacts>>)
    ensures
        first_runnable(facts) matches Some(i) ==> 0 <= i < facts.len() && runs(facts[i]) && forall|
            j: int,
        |
            0 <= j < i ==> !runs(#[trigger] facts[j]),
        first_runnable(facts) is None ==> forall|j: int|
            0 <= j < facts.len() ==> !runs(#[trigger] facts[j]),
    decreases facts.len(),
{
    if facts.len() > 0 {
        let before = facts.drop_last();
        first_runnable_is_one(before);
        assert(forall|j: int| 0 <= j < before.len() ==> #[trigger] facts[j] == before[j]);
    }
}

/// The first of the files looked at stays the first.
proof fn first_runnable_stays(facts: Seq<Option<FileFacts>>, n: int)
    requires
        0 <= n <= facts.len(),
        first_runnable(facts.take(n)) is Some,
    ensures
        first_runnable(facts) == first_runnable(facts.take(n)),
    decreases facts.len(),
{
    if n == facts.len() {
        assert(facts.take(n) =~= facts);
    } else {
        assert(facts.drop_last().take(n) =~= facts.take(n));
        first_runnable_stays(facts.drop_last(), n);
    }
}

/// Looks for a name along a search path, as the system looks for a bare
/// command: the first directory that holds a file that can be run.
pub fn find_on_path(path: &Vec<u8>, name: &str, looked: &Vec<Option<FileFacts>>) -> (r: Step<
    Vec<u8>,
    Option<Vec<u8>>,
>)
    ensures
        search_is(r, path@, encode_utf8(name@), looked@),
{
    let all = list_candidates(path, name.as_bytes());
    let ghost known = if looked.len() < all.len() {
        looked@
    } else {
        looked@.take(all.len() as int)
    };
    let mut i: usize = 0;
    proof {
        assert(all.len() == path_bytes(all@).len());
        assert(known.take(0) =~= Seq::empty());
    }
    while i < all.len() && i < looked.len()
        invariant
            0 <= i <= all.len(),
            i <= looked.len(),
            all.len() == candidates(path@, encode_utf8(name@)).len(),
            path_bytes(all@) == candidates(path@, encode_utf8(name@)),
            known == if looked.len() < all.len() {
                looked@
            } else {
                looked@.take(all.len() as int)
            },
            first_runnable(known.take(i as int)) is None,
        decreases all.len() - i,
    {
        proof {
            assert(known.take(i + 1).drop_last() =~= known.take(i as int));
            assert(known.take(i + 1).last() == looked@[i as int]);
        }
        if is_executable(looked[i]) {
            proof {
                first_runnable_stays(known, i + 1);
                assert(path_bytes(all@)[i as int] == all@[i as int]@);
            }
            return Step::Done(Some(copy_bytes(&all[i])));
        }
        i += 1;
    }
    proof {
        assert(known.take(i as int) =~= known);
    }
    if i < all.len() {
        proof {
            assert(path_bytes(all@)[i as int] == all@[i as int]@);
        }
        Step::Ask(copy_bytes(&all[i]))
    } else {
        Step::Done(None)
    }
}

/// What was answered so far.
#[derive(Debug)]
pub struct EngineReads {
    /// Whether the checkout's engine is there.
    pub repo_local: Option<bool>,
    /// Whether the image's engine is there.
    pub well_known: Option<bool>,
    /// What is known of the candidates on the search path, in order.
    pub looked: Vec<Option<FileFacts>>,
}

/// What is needed next.
#[derive(Debug)]
pub enum EngineQuestion {
    /// Whether anything is at that path.
    Exists(Vec<u8>),
    /// What is known of the file at that path.
    Look(Vec<u8>),
}

/// The path of the engine, or what is needed to tell.
pub open spec fn engine_is(
    r: Step<EngineQuestion, Vec<u8>>,
    named: Option<Vec<u8>>,
    path: Option<Vec<u8>>,
    reads: EngineReads,
) -> bool {
    let local = encode_utf8(REPO_LOCAL@);
    let known = encode_utf8(WELL_KNOWN@);
    let bare = encode_utf8(ENGINE_NAME@);
    if named matches Some(p) && p@.len() > 0 {
        r matches Step::Done(p) && p@ == named->0@
    } else {
        match reads.repo_local {
            None => r matches Step::Ask(EngineQuestion::Exists(p)) && p@ == local,
            Some(true) => r matches Step::Done(p) && p@ == local,
            Some(false) => match reads.well_known {
                None => r matches Step::Ask(EngineQuestion::Exists(p)) && p@ == known,
                Some(true) => r matches Step::Done(p) && p@ == known,
                Some(false) => match path {
                    None => r matches Step::Done(p) && p@ == bare,
                    Some(v) => exists|s: Step<Vec<u8>, Option<Vec<u8>>>| #[trigger]
                        search_is(s, v@, bare, reads.looked@) && match s {
                            Step::Ask(p) => r matches Step::Ask(EngineQuestion::Look(q)) && q@
                                == p@,
                            Step::Done(Some(p)) => r matches Step::Done(q) && q@ == p@,
                            Step::Done(None) => r matches Step::Done(q) && q@ == bare,
                        },
                },
            },
        }
    }
}

/// Resolves the engine: the one that was named, even where nothing is there;
/// then the checkout's, the image's, and the first along the search path; and
/// else its bare name, which a failure can then tell.
pub fn resolve(named: &Option<Vec<u8>>, path: &Option<Vec<u8>>, reads: &EngineReads) -> (r: Step<
    EngineQuestion,
    Vec<u8>,
>)
    ensures
        engine_is(r, *named, *path, *reads),
{
    if let Some(p) = named {
        if p.len() > 0 {
            return Step::Done(copy_bytes(p));
        }
    }
    match reads.repo_local {
        None => {
            return Step::Ask(EngineQuestion::Exists(bytes_of(REPO_LOCAL)));
        },
        Some(true) => {
            return Step::Done(bytes_of(REPO_LOCAL));
        },
        Some(false) => {},
    }
    match reads.well_known {
        None => {
            return Step::Ask(EngineQuestion::Exists(bytes_of(WELL_KNOWN)));
        },
        Some(true) => {
            return Step::Done(bytes_of(WELL_KNOWN));
        },
        Some(false) => {},
    }
    let v = match path {
        None => {
            return Step::Done(bytes_of(ENGINE_NAME));
        },
        Some(v) => v,
    };
    let s = find_on_path(v, ENGINE_NAME, &reads.looked);
    let ghost said = s;
    assert(search_is(said, v@, encode_utf8(ENGINE_NAME@), reads.looked@));
    match s {
        Step::Ask(p) => Step::Ask(EngineQuestion::Look(p)),
        Step::Done(Some(p)) => Step::Done(p),
        Step::Done(None) => Step::Done(bytes_of(ENGINE_NAME)),
    }
}

/// The bytes of a text.
fn bytes_of(s: &str) -> (r: Vec<u8>)
    ensures
        r@ == encode_utf8(s@),
{
    let b = s.as_bytes();
    let mut out: Vec<u8> = Vec::new();
    let mut i: usize = 0;
    while i < b.len()
        invariant
            0 <= i <= b.len(),
            out@ == b@.take(i as int),
        decreases b.len() - i,
    {
        out.push(b[i]);
        proof {
            assert(b@.take(i + 1) =~= b@.take(i as int).push(b@[i as int]));
        }
        i += 1;
    }
    proof {
        assert(b@.take(b.len() as int) =~= b@);
    }
    out
}

// ---- what follows for every resolution ---------------------------------------------------

/// What is found along a search path can be run, and nothing before it can.
pub proof fn the_first_that_runs_is_found(
    r: Step<Vec<u8>, Option<Vec<u8>>>,
    path: Seq<u8>,
    name: Seq<u8>,
    looked: Seq<Option<FileFacts>>,
)
    requires
        search_is(r, path, name, looked),
    ensures
        r matches Step::Done(Some(p)) ==> exists|i: int|
            0 <= i < looked.len() && i < candidates(path, name).len() && #[trigger] candidates(
                path,
                name,
            )[i] == p@ && runs(looked[i]) && forall|j: int|
                0 <= j < i ==> !runs(#[trigger] looked[j]),
        r matches Step::Done(None) ==> forall|j: int|
            0 <= j < candidates(path, name).len() ==> !runs(#[trigger] looked[j]),
{
    let all = candidates(path, name);
    let known = if looked.len() < all.len() {
        looked
    } else {
        looked.take(all.len() as int)
    };
    first_runnable_is_one(known);
    if let Some(i) = first_runnable(known) {
        assert(known[i] == looked[i]);
        assert forall|j: int| 0 <= j < i implies !runs(#[trigger] looked[j]) by {
            assert(known[j] == looked[j]);
        }
        assert(all[i] == all[i]);
    } else if looked.len() >= all.len() {
        assert forall|j: int| 0 <= j < all.len() implies !runs(#[trigger] looked[j]) by {
            assert(known[j] == looked[j]);
        }
    }
}

/// An engine that was named is the answer, whatever is there; an empty name
/// names none.
pub proof fn a_named_engine_wins(
    r: Step<EngineQuestion, Vec<u8>>,
    named: Option<Vec<u8>>,
    path: Option<Vec<u8>>,
    reads: EngineReads,
)
    requires
        engine_is(r, named, path, reads),
    ensures
        named matches Some(p) ==> p@.len() > 0 ==> (r matches Step::Done(q) && q@ == p@),
        named matches Some(p) ==> p@.len() == 0 ==> engine_is(r, None, path, reads),
{
}

/// The directories of a search path are what its colons part: a path made of two
/// with a colon between them has the directories of the one and then those of the
/// other, and one without a colon is one directory.
pub proof fn a_colon_parts_a_path(a: Seq<u8>, b: Seq<u8>)
    ensures
        directories(a + seq![58u8] + b) == directories(a) + directories(b),
        !a.contains(58u8) ==> directories(a) == seq![a],
    decreases a.len() + b.len(),
{
    let whole = a + seq![58u8] + b;
    directories_are_some(b);
    if b.len() == 0 {
        assert(whole.drop_last() =~= a);
        assert(whole.last() == 58u8);
        assert(directories(a).push(Seq::empty()) =~= directories(a) + directories(b));
    } else {
        let rest = b.drop_last();
        a_colon_parts_a_path(a, rest);
        directories_are_some(rest);
        assert(whole.drop_last() =~= a + seq![58u8] + rest);
        assert(whole.last() == b.last());
        let (p, q) = (directories(a), directories(rest));
        assert((p + q).last() == q.last());
        assert((p + q).drop_last() =~= p + q.drop_last());
        if b.last() == 58u8 {
            assert((p + q).push(Seq::empty()) =~= p + q.push(Seq::empty()));
        } else {
            let last = q.last().push(b.last());
            assert((p + q.drop_last()).push(last) =~= p + q.drop_last().push(last));
        }
    }
    if !a.contains(58u8) {
        if a.len() == 0 {
            assert(a =~= Seq::empty());
        } else {
            let rest = a.drop_last();
            assert(!rest.contains(58u8)) by {
                if rest.contains(58u8) {
                    let i = choose|i: int| 0 <= i < rest.len() && rest[i] == 58u8;
                    assert(a[i] == 58u8);
                }
            }
            assert(a[a.len() - 1] == a.last());
            a_colon_parts_a_path(rest, Seq::empty());
            assert(rest.push(a.last()) =~= a);
            assert(directories(a) =~= seq![a]);
        }
    }
}

/// An engine is looked for in every directory of the path, in their order; its
/// name stands behind the directory, with one slash between them.
pub proof fn an_engine_is_looked_for_in_every_directory(path: Seq<u8>, name: Seq<u8>, i: int)
    requires
        name.len() > 0,
        name[0] != 47u8,
        0 <= i < directories(path).len(),
    ensures
        candidates(path, name).len() == directories(path).len(),
        ({
            let dir = directories(path)[i];
            let at = candidates(path, name)[i];
            &&& dir.len() == 0 || dir[dir.len() - 1] == 47u8 ==> at == dir + name
            &&& dir.len() > 0 && dir[dir.len() - 1] != 47u8 ==> at == dir + seq![47u8] + name
        }),
{
    let dir = directories(path)[i];
    assert(dir.push(47u8) =~= dir + seq![47u8]);
}

/// A file can be run exactly where it is a file and anyone may run it.
pub proof fn what_anyone_may_run_can_be_run(f: FileFacts)
    ensures
        runs(Some(f)) <==> f.is_file && (f.mode & 0o100 != 0 || f.mode & 0o010 != 0 || f.mode & 0o001
            != 0),
        !runs(None),
{
    let m = f.mode;
    assert((m & 0o111 != 0) <==> (m & 0o100 != 0 || m & 0o010 != 0 || m & 0o001 != 0)) by (
        bit_vector);
}

/// The engine is the one that is named, then the one beside the project, then the
/// one where it is usually installed, then the first on the path that can be
/// run; where there is none it is its bare name.
pub proof fn the_nearest_engine_is_used(
    r: Step<EngineQuestion, Vec<u8>>,
    named: Option<Vec<u8>>,
    path: Option<Vec<u8>>,
    reads: EngineReads,
)
    requires
        engine_is(r, named, path, reads),
    ensures
        ({
            let given = named matches Some(p) && p@.len() > 0;
            &&& given ==> (r matches Step::Done(p) && p@ == named->0@)
            &&& !given && reads.repo_local == Some(true) ==> (r matches Step::Done(p) && p@
                == encode_utf8(".engine/kafka-backup"@))
            &&& !given && reads.repo_local == Some(false) && reads.well_known == Some(true) ==> (
            r matches Step::Done(p) && p@ == encode_utf8("/usr/local/bin/kafka-backup"@))
            &&& !given && reads.repo_local == Some(false) && reads.well_known == Some(false)
                && path is None ==> (r matches Step::Done(p) && p@ == encode_utf8("kafka-backup"@))
            &&& !given && reads.repo_local == Some(false) && reads.well_known == Some(false) ==> (
            path matches Some(v) ==> {
                let all = candidates(v@, encode_utf8("kafka-backup"@));
                &&& r matches Step::Done(p) ==> (p@ == encode_utf8("kafka-backup"@) || exists|i: int|
                    0 <= i < reads.looked@.len() && i < all.len() && #[trigger] all[i] == p@ && runs(
                        reads.looked@[i],
                    ) && forall|j: int| 0 <= j < i ==> !runs(#[trigger] reads.looked@[j]))
                &&& r matches Step::Ask(EngineQuestion::Look(p)) ==> reads.looked@.len() < all.len()
                    && p@ == all[reads.looked@.len() as int]
            })
        }),
{
    let given = named matches Some(p) && p@.len() > 0;
    if !given && reads.repo_local == Some(false) && reads.well_known == Some(false) {
        if let Some(v) = path {
            let bare = encode_utf8("kafka-backup"@);
            let s = choose|s: Step<Vec<u8>, Option<Vec<u8>>>| #[trigger]
                search_is(s, v@, bare, reads.looked@) && match s {
                    Step::Ask(p) => r matches Step::Ask(EngineQuestion::Look(q)) && q@ == p@,
                    Step::Done(Some(p)) => r matches Step::Done(q) && q@ == p@,
                    Step::Done(None) => r matches Step::Done(q) && q@ == bare,
                };
            the_first_that_runs_is_found(s, v@, bare, reads.looked@);
        }
    }
}

} // verus!
