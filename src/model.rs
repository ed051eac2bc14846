use vstd::prelude::*;
use crate::descriptor::Descriptor;
use crate::path_plan::{all_succeed, duplications, lemma_failed_open, lemma_successful_run, run, Action, Stage};
use crate::status::OsError;

verus! {

/// What a process's descriptor table and the kernel objects behind it hold: each open
/// descriptor refers to an object, each object holds the bytes written to it, and each
/// path names the object of the file stored there.
pub struct Kernel {
    pub table: Map<Descriptor, nat>,
    pub contents: Map<nat, Seq<u8>>,
    pub files: Map<Seq<char>, nat>,
}

/// Descriptor `fd` is open and refers to an object that exists.
pub open spec fn is_open(k: Kernel, fd: Descriptor) -> bool {
    k.table.contains_key(fd) && k.contents.contains_key(k.table[fd])
}

/// The effect of `dup2(from, onto)`: `onto` now refers to the object behind `from`.
pub open spec fn duplicate(k: Kernel, from: Descriptor, onto: Descriptor) -> Kernel {
    Kernel { table: k.table.insert(onto, k.table[from]), contents: k.contents, files: k.files }
}

/// The effect of writing `bytes` through `fd`: they are appended to its object.
pub open spec fn write(k: Kernel, fd: Descriptor, bytes: Seq<u8>) -> Kernel {
    Kernel {
        table: k.table,
        contents: k.contents.insert(k.table[fd], k.contents[k.table[fd]] + bytes),
        files: k.files,
    }
}

/// The effect of opening the file at `path` for writing as descriptor `fd`: a file that
/// is absent is created empty as object `fresh`; one that exists is emptied unless
/// `append` holds.
pub open spec fn open_path(k: Kernel, path: Seq<char>, fd: Descriptor, fresh: nat, append: bool) -> Kernel {
    if k.files.contains_key(path) {
        let object = k.files[path];
        Kernel {
            table: k.table.insert(fd, object),
            contents: if append { k.contents } else { k.contents.insert(object, Seq::empty()) },
            files: k.files,
        }
    } else {
        Kernel {
            table: k.table.insert(fd, fresh),
            contents: k.contents.insert(fresh, Seq::empty()),
            files: k.files.insert(path, fresh),
        }
    }
}

/// The bytes stored at `path`, none when no file is there.
pub open spec fn stored(k: Kernel, path: Seq<char>) -> Seq<u8> {
    if k.files.contains_key(path) {
        k.contents[k.files[path]]
    } else {
        Seq::empty()
    }
}

/// Every path names an object that exists.
pub open spec fn files_exist(k: Kernel) -> bool {
    forall|p: Seq<char>| k.files.contains_key(p) ==> k.contents.contains_key(#[trigger] k.files[p])
}

/// The effect of a procedure's action on the descriptor table.
pub open spec fn perform(k: Kernel, a: Action) -> Kernel {
    match a {
        Action::Duplicate { from, onto } => duplicate(k, from, onto),
        _ => k,
    }
}

/// The effect of a sequence of actions, in order.
pub open spec fn perform_all(k: Kernel, actions: Seq<Action>) -> Kernel
    decreases actions.len(),
{
    if actions.len() == 0 {
        k
    } else {
        perform_all(perform(k, actions[0]), actions.drop_first())
    }
}

/// After `source` is redirected to `destination`, bytes written through `source` and then
/// through `destination` both land in the destination's object, in the order written,
/// after what it held before; the destination's own descriptor keeps its object.
pub proof fn lemma_redirected_writes_reach_destination(
    k: Kernel,
    source: Descriptor,
    destination: Descriptor,
    first: Seq<u8>,
    second: Seq<u8>,
)
    requires
        is_open(k, source),
        is_open(k, destination),
    ensures
        ({
            let redirected = duplicate(k, destination, source);
            let after = write(write(redirected, source, first), destination, second);
            &&& redirected.table[destination] == k.table[destination]
            &&& redirected.table[source] == k.table[destination]
            &&& after.contents[k.table[destination]] == k.contents[k.table[destination]] + first + second
        }),
{
    let redirected = duplicate(k, destination, source);
    let mid = write(redirected, source, first);
    assert(mid.contents[k.table[destination]] == k.contents[k.table[destination]] + first);
    assert(k.contents[k.table[destination]] + first + second
        == (k.contents[k.table[destination]] + first) + second);
}

/// Redirecting `source` leaves the object it referred to before as it was, and writes
/// through `source` afterwards do not reach that object, unless it is the destination's.
pub proof fn lemma_redirect_keeps_original_contents(
    k: Kernel,
    source: Descriptor,
    destination: Descriptor,
    bytes: Seq<u8>,
)
    requires
        is_open(k, source),
        is_open(k, destination),
        k.table[source] != k.table[destination],
    ensures
        ({
            let redirected = duplicate(k, destination, source);
            let after = write(redirected, source, bytes);
            &&& redirected.contents == k.contents
            &&& after.contents[k.table[source]] == k.contents[k.table[source]]
        }),
{
}

/// Opening a path without `append` leaves its file empty, and opening it with `append`
/// keeps what it held; two writers that open the same path with `append` both add to it,
/// in the order they write.
pub proof fn lemma_open_modes(
    k: Kernel,
    path: Seq<char>,
    first: Descriptor,
    second: Descriptor,
    fresh: nat,
    a: Seq<u8>,
    b: Seq<u8>,
)
    requires
        files_exist(k),
        !k.contents.contains_key(fresh),
    ensures
        stored(open_path(k, path, first, fresh, false), path) == Seq::<u8>::empty(),
        stored(open_path(k, path, first, fresh, true), path) == stored(k, path),
        ({
            let opened = open_path(open_path(k, path, first, fresh, true), path, second, fresh, true);
            let after = write(write(opened, first, a), second, b);
            stored(after, path) == stored(k, path) + a + b
        }),
{
    let once = open_path(k, path, first, fresh, true);
    let opened = open_path(once, path, second, fresh, true);
    assert(once.files.contains_key(path));
    assert(opened.table[first] == opened.files[path]);
    assert(opened.table[second] == opened.files[path]);
    assert(stored(opened, path) == stored(k, path));
    let mid = write(opened, first, a);
    assert(stored(mid, path) == stored(k, path) + a);
    assert(stored(k, path) + a + b == (stored(k, path) + a) + b);
}

/// Duplications of `opened` onto `sources[from..to]`, then an action that duplicates
/// nothing, point each of those sources at the object behind `opened`.
proof fn lemma_perform_duplications(k: Kernel, sources: Seq<Descriptor>, opened: Descriptor, from: int, to: int, last: Action)
    requires
        0 <= from <= to <= sources.len(),
        k.table.contains_key(opened),
        !(last is Duplicate),
    ensures
        ({
            let after = perform_all(k, duplications(sources, opened, from, to) + seq![last]);
            &&& after.contents == k.contents
            &&& after.table.contains_key(opened) && after.table[opened] == k.table[opened]
            &&& forall|x: Descriptor| #![trigger k.table[x]]
                k.table.contains_key(x) && k.table[x] == k.table[opened]
                    ==> after.table.contains_key(x) && after.table[x] == k.table[opened]
            &&& forall|i: int| #![trigger sources[i]]
                from <= i < to ==> after.table.contains_key(sources[i]) && after.table[sources[i]] == k.table[opened]
        }),
    decreases to - from,
{
    let actions = duplications(sources, opened, from, to) + seq![last];
    if from == to {
        assert(actions =~= seq![last]);
        assert(actions.drop_first() =~= Seq::<Action>::empty());
        assert(perform(k, last) == k);
        assert(perform_all(k, actions) == perform_all(perform(k, actions[0]), actions.drop_first()));
        assert(perform_all(k, Seq::<Action>::empty()) == k);
    } else {
        let next = duplicate(k, opened, sources[from]);
        assert(actions[0] == Action::Duplicate { from: opened, onto: sources[from] });
        assert(actions.drop_first() =~= duplications(sources, opened, from + 1, to) + seq![last]);
        lemma_perform_duplications(next, sources, opened, from + 1, to, last);
        assert(next.table[opened] == k.table[opened]);
        assert(next.table[sources[from]] == k.table[opened]);
        let after = perform_all(next, actions.drop_first());
        assert(perform_all(k, actions) == after);
        assert forall|x: Descriptor| #![trigger k.table[x]]
            k.table.contains_key(x) && k.table[x] == k.table[opened]
                implies after.table.contains_key(x) && after.table[x] == k.table[opened] by {
            assert(next.table.contains_key(x) && next.table[x] == next.table[opened]);
        }
        assert forall|i: int| #![trigger sources[i]]
            from <= i < to implies after.table.contains_key(sources[i]) && after.table[sources[i]] == k.table[opened] by {
            if i == from {
                assert(next.table.contains_key(sources[i]) && next.table[sources[i]] == next.table[opened]);
            }
        }
    }
}

/// When the destination cannot be opened, the procedure leaves the descriptor table and
/// every object as they were.
pub proof fn lemma_failed_open_changes_nothing(
    k: Kernel,
    sources: Seq<Descriptor>,
    e: OsError,
    replies: Seq<Result<Descriptor, OsError>>,
)
    requires
        replies.len() > 0,
        replies[0] == Err::<Descriptor, OsError>(e),
    ensures
        perform_all(k, run(sources, Stage::Opening, replies)) == k,
{
    lemma_failed_open(sources, e, replies);
    let actions = run(sources, Stage::Opening, replies);
    assert(actions.drop_first() =~= Seq::<Action>::empty());
    assert(perform_all(k, actions) == perform_all(perform(k, actions[0]), actions.drop_first()));
}

/// When the destination opens as `opened` and every duplication succeeds, each source
/// refers afterwards to the object behind `opened`, which stays open, and no object's
/// contents changed: everything written through any source lands in the destination.
pub proof fn lemma_successful_run_redirects_every_source(
    k: Kernel,
    sources: Seq<Descriptor>,
    opened: Descriptor,
    replies: Seq<Result<Descriptor, OsError>>,
)
    requires
        0 < sources.len() <= usize::MAX,
        replies.len() == sources.len() + 1,
        replies[0] == Ok::<Descriptor, OsError>(opened),
        all_succeed(replies),
        is_open(k, opened),
    ensures
        ({
            let after = perform_all(k, run(sources, Stage::Opening, replies));
            &&& after.contents == k.contents
            &&& after.table[opened] == k.table[opened]
            &&& forall|i: int| 0 <= i < sources.len() ==> is_open(after, #[trigger] sources[i])
                && after.table[sources[i]] == k.table[opened]
        }),
{
    lemma_successful_run(sources, opened, replies);
    lemma_perform_duplications(
        k,
        sources,
        opened,
        0,
        sources.len() as int,
        Action::Finish { disposal: crate::path_plan::Disposal::Release(opened), result: Ok(()) },
    );
}

} // verus!
