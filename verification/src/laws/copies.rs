//! What the copying of outputs promises.

use vstd::prelude::*;
use crate::json::{JsonView, NumberView};
use crate::outputs;
use crate::outputs::{CopyTask, CopyView};
use crate::paths;

verus! {

/// The keys of a copy differ.
proof fn lemma_file_keys()
    ensures
        "index"@ != "path"@,
        "index"@ != "bytes"@,
        "index"@ != "files"@,
        "path"@ != "bytes"@,
        "path"@ != "files"@,
        "bytes"@ != "files"@,
{
    reveal_strlit("index");
    reveal_strlit("path");
    reveal_strlit("bytes");
    reveal_strlit("files");
    assert("index"@.len() != "path"@.len());
    assert("index"@[0] != "bytes"@[0]);
    assert("index"@[0] != "files"@[0]);
    assert("path"@.len() != "bytes"@.len());
    assert("path"@.len() != "files"@.len());
    assert("bytes"@[0] != "files"@[0]);
}

/// Where a job lists outputs, those are its outputs, all of them and in their
/// order, whatever single output it names besides.
pub proof fn listed_outputs_are_all_taken(job: JsonView, listed: Seq<JsonView>)
    requires
        job.get("outputs"@) == Some(JsonView::Array(listed)),
        listed.len() > 0,
    ensures
        outputs::output_files(job) == listed,
{
}

/// Where a job lists no outputs, its only output is the single one it names, as
/// number zero; where it names none either, it has none.
pub proof fn a_single_output_is_taken_for_want_of_others(job: JsonView, path: Seq<char>)
    requires
        !(job.get("outputs"@) matches Some(JsonView::Array(listed)) && listed.len() > 0),
    ensures
        job.get("output_path"@) == Some(JsonView::Str(path)) ==> ({
            let files = outputs::output_files(job);
            &&& files.len() == 1
            &&& files[0].get("path"@) == Some(JsonView::Str(path))
            &&& files[0].get("index"@) == Some(JsonView::Number(NumberView::Unsigned(0)))
        }),
        !(job.get("output_path"@) is Some && job.get("output_path"@)->0 is Str)
            ==> outputs::output_files(job).len() == 0,
{
    lemma_file_keys();
}

/// How many of the first `n` files have a path.
pub open spec fn with_path(files: Seq<JsonView>, n: nat) -> nat
    decreases n,
{
    if n == 0 {
        0
    } else {
        with_path(files, (n - 1) as nat) + if files[n - 1].get("path"@) is Some && files[n
            - 1].get("path"@)->0 is Str {
            1nat
        } else {
            0
        }
    }
}

/// Every file that has a path is copied once, in its turn, from that path to
/// the destination of its place, under its own number or else that of its
/// place; no other file is.
pub proof fn every_file_with_a_path_is_copied(
    files: Seq<JsonView>,
    dests: Seq<Seq<char>>,
    n: nat,
    k: int,
    source: Seq<char>,
)
    requires
        n <= files.len() <= u64::MAX,
    ensures
        outputs::tasks_for(files, dests, n).len() == with_path(files, n),
        0 <= k < n && files[k].get("path"@) == Some(JsonView::Str(source)) ==> ({
            let tasks = outputs::tasks_for(files, dests, n);
            let at = with_path(files, k as nat) as int;
            &&& at < tasks.len()
            &&& tasks[at].source == source
            &&& tasks[at].dest == dests[k]
            &&& files[k].get("index"@) is Some ==> tasks[at].index == files[k].get("index"@)->0
            &&& files[k].get("index"@) is None ==> tasks[at].index == JsonView::Number(
                NumberView::Unsigned(k as u64),
            )
        }),
    decreases n,
{
    if n > 0 {
        every_file_with_a_path_is_copied(files, dests, (n - 1) as nat, k, source);
    }
}

/// The outputs that a job lists are copied each from its own path: a single one
/// to the path that was asked for, several to the destinations of their places.
pub proof fn listed_outputs_are_copied(
    job: JsonView,
    listed: Seq<JsonView>,
    dests: Seq<Seq<char>>,
    out: Seq<char>,
    k: int,
    source: Seq<char>,
)
    requires
        job.get("outputs"@) == Some(JsonView::Array(listed)),
        0 < listed.len() <= u64::MAX,
        outputs::destinations(dests, out, outputs::output_files(job).len()),
        0 <= k < listed.len(),
        listed[k].get("path"@) == Some(JsonView::Str(source)),
    ensures
        ({
            let files = outputs::output_files(job);
            let tasks = outputs::tasks_for(files, dests, files.len());
            let at = with_path(listed, k as nat) as int;
            &&& dests.len() == listed.len()
            &&& tasks.len() == with_path(listed, listed.len())
            &&& 0 <= at < tasks.len()
            &&& tasks[at].source == source
            &&& tasks[at].dest == dests[k]
            &&& listed.len() == 1 ==> tasks[at].dest == out
        }),
{
    listed_outputs_are_all_taken(job, listed);
    every_file_with_a_path_is_copied(listed, dests, listed.len(), k, source);
}

/// A single output goes to the path that was asked for; several go into its
/// directory, numbered from one by their places.
pub proof fn outputs_go_where_they_were_asked_for(
    dests: Seq<Seq<char>>,
    out: Seq<char>,
    n: nat,
    k: int,
)
    requires
        outputs::destinations(dests, out, n),
        0 <= k < n,
    ensures
        dests.len() == n,
        n == 1 ==> dests[k] == out,
        n > 1 && paths::named_alike(out) && paths::placed_alike(out) && (paths::final_name(
            out,
        ) matches Some(name) ==> paths::simple_name(name)) ==> paths::inside(
            dests[k],
            paths::home(out),
            paths::numbered(
                paths::stem_of(paths::final_name(out)),
                paths::extension_of(paths::final_name(out)),
                k,
            ),
        ),
{
    if n > 1 {
        let parts = choose|parts: paths::OutView| #[trigger]
            paths::takes_apart(parts, out) && outputs::numbered_row(dests, parts);
        assert(paths::stands_at(dests[k], parts, k));
        assert(paths::numbered_beside(dests[k], out, k));
        if paths::named_alike(out) && paths::placed_alike(out) && (paths::final_name(
            out,
        ) matches Some(name) ==> paths::simple_name(name)) {
            paths::outputs_stay_beside(dests[k], out, k);
        }
    }
}

/// A directory is made exactly where there is something to copy and the path
/// has a parent that is not empty.
pub proof fn the_directory_is_the_parent(dir: Seq<char>, n: nat)
    ensures
        n > 0 && dir.len() > 0 ==> outputs::directory_for(Some(dir), n) == Some(dir),
        n == 0 || dir.len() == 0 ==> outputs::directory_for(Some(dir), n) is None,
        outputs::directory_for(None, n) is None,
{
}

/// Every copy is reported in its turn, with its number, its place and its size.
pub proof fn every_copy_is_reported(tasks: Seq<CopyView>, bytes: Seq<u64>, k: int)
    requires
        bytes.len() == tasks.len(),
        0 <= k < tasks.len(),
    ensures
        ({
            let report = outputs::copies_report(tasks, bytes);
            let list = report.get("files"@)->0->Array_0;
            &&& report.get("files"@) == Some(JsonView::Array(list))
            &&& list.len() == tasks.len()
            &&& list[k].get("index"@) == Some(tasks[k].index)
            &&& list[k].get("path"@) == Some(JsonView::Str(tasks[k].dest))
            &&& list[k].get("bytes"@) == Some(JsonView::Number(NumberView::Unsigned(bytes[k])))
        }),
{
    lemma_file_keys();
}

/// The path that a report names is that of the first copy with number zero, or
/// else of the first copy, and null where there is none.
pub proof fn the_main_copy_is_named(tasks: Seq<CopyView>, bytes: Seq<u64>, k: int)
    ensures
        ({
            let zero = |t: CopyView| t.index == JsonView::Number(NumberView::Unsigned(0));
            let path = outputs::copies_report(tasks, bytes).get("path"@);
            &&& 0 <= k < tasks.len() && zero(tasks[k]) && (forall|j: int|
                0 <= j < k ==> !zero(#[trigger] tasks[j])) ==> path == Some(
                JsonView::Str(tasks[k].dest),
            )
            &&& tasks.len() > 0 && (forall|j: int|
                0 <= j < tasks.len() ==> !zero(#[trigger] tasks[j])) ==> path == Some(
                JsonView::Str(tasks[0].dest),
            )
            &&& tasks.len() == 0 ==> path == Some(JsonView::Null)
        }),
{
    lemma_file_keys();
    lemma_first_zero(tasks, 0, k);
}

proof fn lemma_first_zero(tasks: Seq<CopyView>, from: int, k: int)
    requires
        0 <= from,
    ensures
        ({
            let zero = |t: CopyView| t.index == JsonView::Number(NumberView::Unsigned(0));
            &&& from <= k < tasks.len() && zero(tasks[k]) && (forall|j: int|
                from <= j < k ==> !zero(#[trigger] tasks[j])) ==> outputs::first_zero(tasks, from)
                == Some(tasks[k].dest)
            &&& (forall|j: int| from <= j < tasks.len() ==> !zero(#[trigger] tasks[j]))
                ==> outputs::first_zero(tasks, from) is None
        }),
    decreases tasks.len() - from,
{
    if from < tasks.len() {
        lemma_first_zero(tasks, from + 1, k);
        assert(tasks[from].index.unsigned() == Some(0u64) <==> tasks[from].index
            == JsonView::Number(NumberView::Unsigned(0)));
    }
}

/// The copying fails exactly where some copy does, and the first that does says
/// why.
pub proof fn the_first_failed_copy_says_why(
    tasks: Seq<CopyView>,
    outcomes: Seq<Result<u64, String>>,
    k: int,
)
    ensures
        0 <= k < outcomes.len() && outcomes[k] is Err && (forall|j: int|
            0 <= j < k ==> (#[trigger] outcomes[j]) is Ok) ==> outputs::first_failed(
            tasks,
            outcomes,
            0,
        ) == Some(
            "Unable to copy "@ + tasks[k].source + " -> "@ + tasks[k].dest + ": "@
                + outcomes[k]->Err_0@,
        ),
        (forall|j: int| 0 <= j < outcomes.len() ==> (#[trigger] outcomes[j]) is Ok)
            <==> outputs::first_failed(tasks, outcomes, 0) is None,
{
    lemma_first_failed(tasks, outcomes, 0, k);
}

proof fn lemma_first_failed(
    tasks: Seq<CopyView>,
    outcomes: Seq<Result<u64, String>>,
    from: int,
    k: int,
)
    requires
        0 <= from,
    ensures
        from <= k < outcomes.len() && outcomes[k] is Err && (forall|j: int|
            from <= j < k ==> (#[trigger] outcomes[j]) is Ok) ==> outputs::first_failed(
            tasks,
            outcomes,
            from,
        ) == Some(
            "Unable to copy "@ + tasks[k].source + " -> "@ + tasks[k].dest + ": "@
                + outcomes[k]->Err_0@,
        ),
        (forall|j: int| from <= j < outcomes.len() ==> (#[trigger] outcomes[j]) is Ok)
            <==> outputs::first_failed(tasks, outcomes, from) is None,
    decreases outcomes.len() - from,
{
    if from < outcomes.len() {
        lemma_first_failed(tasks, outcomes, from + 1, k);
        assert(outcomes[from] is Ok || outcomes[from] is Err);
    }
}

/// The sizes are those of the copies, and a task is viewed as it is.
pub proof fn sizes_and_tasks_are_viewed_as_they_are(
    outcomes: Seq<Result<u64, String>>,
    tasks: Seq<CopyTask>,
    k: int,
)
    ensures
        0 <= k < outcomes.len() && outcomes[k] is Ok ==> outputs::sizes(outcomes)[k]
            == outcomes[k]->Ok_0,
        outputs::sizes(outcomes).len() == outcomes.len(),
        outputs::copies(tasks).len() == tasks.len(),
        0 <= k < tasks.len() ==> outputs::copies(tasks)[k].source == tasks[k].source@
            && outputs::copies(tasks)[k].dest == tasks[k].dest@ && outputs::copies(tasks)[k].index
            == tasks[k].index@,
{
}

} // verus!
