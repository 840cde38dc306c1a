//! The outputs of a finished job: which files are copied where, and how the
//! copies are reported.

use vstd::prelude::*;
use vstd::string::StringExecFns;
use crate::json;
use crate::json::{Json, JsonView};
use crate::paths;
use crate::paths::OutParts;
use crate::text;
use crate::text::owned;

verus! {

/// One output file as a job with a single output names it.
pub open spec fn single_output(path: Seq<char>) -> JsonView {
    JsonView::Object(map!["index"@ => json::count(0), "path"@ => JsonView::Str(path)])
}

/// The output files of a job: those it lists, or else the single one it names.
pub open spec fn output_files(job: JsonView) -> Seq<JsonView> {
    let listed = match job.get("outputs"@) {
        Some(JsonView::Array(files)) => files,
        _ => Seq::empty(),
    };
    match job.string_at("output_path"@) {
        Some(path) => if listed.len() == 0 {
            seq![single_output(path)]
        } else {
            listed
        },
        None => listed,
    }
}

/// One file to copy, and the number under which it is reported.
pub struct CopyTask {
    pub source: String,
    pub dest: String,
    pub index: Json,
}

/// A copy task as mathematics.
pub struct CopyView {
    pub source: Seq<char>,
    pub dest: Seq<char>,
    pub index: JsonView,
}

impl View for CopyTask {
    type V = CopyView;

    open spec fn view(&self) -> CopyView {
        CopyView { source: self.source@, dest: self.dest@, index: self.index@ }
    }
}

/// What is to be done to copy the outputs of a job: the directory to make, if
/// any, and the files to copy.
pub struct CopyPlan {
    pub dir: Option<String>,
    pub tasks: Vec<CopyTask>,
}

/// The copy tasks as mathematics.
pub open spec fn copies(tasks: Seq<CopyTask>) -> Seq<CopyView> {
    tasks.map_values(|task: CopyTask| task@)
}

/// The tasks for the first `n` files: one for each file that has a path, to
/// the destination at its place.
pub open spec fn tasks_for(files: Seq<JsonView>, dests: Seq<Seq<char>>, n: nat) -> Seq<CopyView>
    decreases n,
{
    if n == 0 {
        Seq::empty()
    } else {
        let k = n - 1;
        let before = tasks_for(files, dests, (n - 1) as nat);
        match files[k].string_at("path"@) {
            Some(source) => before.push(
                CopyView {
                    source,
                    dest: dests[k],
                    index: match files[k].get("index"@) {
                        Some(index) => index,
                        None => json::count(k),
                    },
                },
            ),
            None => before,
        }
    }
}

/// Whether the destinations are numbered paths in one directory.
pub open spec fn numbered_row(dests: Seq<Seq<char>>, parts: paths::OutView) -> bool {
    forall|k: int| 0 <= k < dests.len() ==> paths::stands_at(#[trigger] dests[k], parts, k)
}

/// Where the outputs go: a single one to `out` itself, several to numbered
/// paths beside it.
pub open spec fn destinations(dests: Seq<Seq<char>>, out: Seq<char>, n: nat) -> bool {
    &&& dests.len() == n
    &&& n == 1 ==> dests[0] == out
    &&& n > 1 ==> exists|parts: paths::OutView| #[trigger]
        paths::takes_apart(parts, out) && numbered_row(dests, parts)
}

/// The directory to make before outputs are copied to a path with this parent.
pub open spec fn directory_for(parent: Option<Seq<char>>, n: nat) -> Option<Seq<char>> {
    match parent {
        Some(dir) => if n > 0 && dir.len() > 0 {
            Some(dir)
        } else {
            None
        },
        None => None,
    }
}

/// The output files of a job.
fn list_outputs(job: &Json) -> (files: Vec<Json>)
    ensures
        json::trees(files@) == output_files(job@),
{
    let mut files: Vec<Json> = Vec::new();
    if let Some(Json::Array(listed)) = job.get("outputs") {
        let mut i: usize = 0;
        while i < listed.len()
            invariant
                i <= listed@.len(),
                files@.len() == i,
                forall|k: int| 0 <= k < i ==> (#[trigger] files@[k]).tree() == listed@[k].tree(),
            decreases listed@.len() - i,
        {
            files.push(listed[i].copy());
            i = i + 1;
        }
        assert(json::trees(files@) =~= json::trees(listed@));
    } else {
        assert(json::trees(files@) =~= Seq::<JsonView>::empty());
    }
    if files.len() == 0 {
        if let Some(path) = job.str_at("output_path") {
            files.push(
                Json::object().with("index", Json::unsigned(0)).with("path", Json::text(path)),
            );
            assert(json::trees(files@) =~= seq![single_output(path@)]);
        }
    }
    files
}

/// The copy tasks for output files, given where each would go.
pub fn plan_tasks(files: &Vec<Json>, dests: &Vec<String>) -> (tasks: Vec<CopyTask>)
    requires
        files@.len() == dests@.len(),
    ensures
        copies(tasks@) == tasks_for(
            json::trees(files@),
            text::texts(dests@),
            files@.len(),
        ),
{
    let ghost trees = json::trees(files@);
    let ghost places = text::texts(dests@);
    let mut tasks: Vec<CopyTask> = Vec::new();
    let mut i: usize = 0;
    assert(copies(tasks@) =~= Seq::empty());
    while i < files.len()
        invariant
            i <= files@.len(),
            files@.len() == dests@.len(),
            trees == json::trees(files@),
            places == text::texts(dests@),
            copies(tasks@) == tasks_for(trees, places, i as nat),
        decreases files@.len() - i,
    {
        let file: &Json = &files[i];
        assert(trees[i as int] == file@);
        let ghost before = tasks@;
        if let Some(source) = file.str_at("path") {
            let index: Json = match file.get("index") {
                Some(index) => index.copy(),
                None => Json::unsigned(i as u64),
            };
            tasks.push(
                CopyTask { source: owned(source), dest: owned(dests[i].as_str()), index },
            );
            assert(copies(tasks@) =~= copies(before).push(tasks@[tasks@.len() - 1]@));
        }
        i = i + 1;
    }
    tasks
}

/// What is to be done to copy the outputs of a job to `out`.
pub fn plan_copies(job: &Json, out: &str) -> (plan: CopyPlan)
    ensures
        exists|dests: Seq<Seq<char>>| #[trigger]
            destinations(dests, out@, output_files(job@).len()) && copies(plan.tasks@)
                == tasks_for(output_files(job@), dests, output_files(job@).len()),
        output_files(job@).len() == 0 ==> plan.dir is None,
        !paths::doubled(out@) ==> ({
            let n = output_files(job@).len();
            ||| text::opt_text(plan.dir) == directory_for(paths::parent_of(out@), n)
            ||| text::opt_text(plan.dir) == directory_for(paths::driven_parent(out@), n)
        }),
        plan.dir matches Some(dir) ==> dir@.len() > 0 && dir@.is_prefix_of(out@),
{
    let files: Vec<Json> = list_outputs(job);
    let ghost n = output_files(job@).len();
    let parts: OutParts = OutParts::of(out);
    let mut dests: Vec<String> = Vec::new();
    let mut i: usize = 0;
    while i < files.len()
        invariant
            i <= files@.len(),
            n == files@.len(),
            dests@.len() == i,
            n == 1 && i == 1 ==> dests@[0]@ == out@,
            n > 1 ==> forall|k: int|
                0 <= k < i ==> paths::stands_at((#[trigger] dests@[k])@, parts@, k),
        decreases files@.len() - i,
    {
        if files.len() == 1 {
            dests.push(owned(out));
        } else {
            dests.push(parts.at(i));
        }
        i = i + 1;
    }
    proof {
        let places = text::texts(dests@);
        assert(destinations(places, out@, n)) by {
            if n > 1 {
                assert(numbered_row(places, parts@)) by {
                    assert forall|k: int| 0 <= k < n implies paths::stands_at(
                        #[trigger] places[k],
                        parts@,
                        k,
                    ) by {
                        assert(places[k] == dests@[k]@);
                    }
                }
                assert(paths::takes_apart(parts@, out@));
            }
        }
    }
    let mut dir: Option<String> = None;
    if files.len() > 0 {
        if let Some(parent) = paths::parent(out) {
            if !parent.as_str().is_empty() {
                dir = Some(parent);
            }
        }
    }
    let tasks: Vec<CopyTask> = plan_tasks(&files, &dests);
    CopyPlan { dir, tasks }
}

/// The message for a file that could not be copied.
pub fn copy_failed(source: &str, dest: &str, error: &str) -> (message: String)
    ensures
        message@ == "Unable to copy "@ + source@ + " -> "@ + dest@ + ": "@ + error@,
{
    owned("Unable to copy ").concat(source).concat(" -> ").concat(dest).concat(": ").concat(error)
}

/// How one copy is reported.
pub open spec fn copy_entry(task: CopyView, bytes: u64) -> JsonView {
    JsonView::Object(
        map![
            "index"@ => task.index,
            "path"@ => JsonView::Str(task.dest),
            "bytes"@ => json::count(bytes as int),
        ],
    )
}

/// The first of the copies from place `from` on that is reported as number
/// zero.
pub open spec fn first_zero(tasks: Seq<CopyView>, from: int) -> Option<Seq<char>>
    decreases tasks.len() - from,
{
    if from < 0 || from >= tasks.len() {
        None
    } else if tasks[from].index.unsigned() == Some(0u64) {
        Some(tasks[from].dest)
    } else {
        first_zero(tasks, from + 1)
    }
}

/// The path of the main copy: of the one with number zero, or else the first.
pub open spec fn primary(tasks: Seq<CopyView>) -> Option<Seq<char>> {
    match first_zero(tasks, 0) {
        Some(path) => Some(path),
        None => if tasks.len() > 0 {
            Some(tasks[0].dest)
        } else {
            None
        },
    }
}

/// How the copies are reported.
pub open spec fn copies_report(tasks: Seq<CopyView>, bytes: Seq<u64>) -> JsonView {
    JsonView::Object(
        map![
            "path"@ => json::opt_string(primary(tasks)),
            "files"@ => JsonView::Array(
                Seq::new(tasks.len(), |k: int| copy_entry(tasks[k], bytes[k])),
            ),
        ],
    )
}

/// The report on copies that were made, each with its size.
pub fn copied(tasks: &Vec<CopyTask>, bytes: &Vec<u64>) -> (payload: Json)
    requires
        bytes@.len() == tasks@.len(),
    ensures
        payload@ == copies_report(copies(tasks@), bytes@),
{
    let ghost list = copies(tasks@);
    let mut files: Vec<Json> = Vec::new();
    let mut main: Option<String> = None;
    let mut i: usize = 0;
    while i < tasks.len()
        invariant
            i <= tasks@.len(),
            bytes@.len() == tasks@.len(),
            list == copies(tasks@),
            files@.len() == i,
            forall|k: int|
                0 <= k < i ==> (#[trigger] files@[k])@ == copy_entry(list[k], bytes@[k]),
            match main {
                Some(path) => first_zero(list, 0) == Some(path@),
                None => first_zero(list, 0) == first_zero(list, i as int),
            },
        decreases tasks@.len() - i,
    {
        let task: &CopyTask = &tasks[i];
        assert(list[i as int] == task@);
        let number: Option<u64> = task.index.as_u64();
        let zero: bool = match number {
            Some(n) => n == 0,
            None => false,
        };
        if main.is_none() && zero {
            main = Some(owned(task.dest.as_str()));
        }
        let entry: Json = Json::object().with("index", task.index.copy()).with(
            "path",
            Json::text(task.dest.as_str()),
        ).with("bytes", Json::unsigned(bytes[i]));
        files.push(entry);
        i = i + 1;
    }
    if main.is_none() && tasks.len() > 0 {
        assert(list[0] == tasks@[0]@);
        main = Some(owned(tasks[0].dest.as_str()));
    }
    proof {
        assert(json::trees(files@) =~= Seq::new(
            list.len(),
            |k: int| copy_entry(list[k], bytes@[k]),
        ));
    }
    Json::object().with("path", Json::opt_text(&main)).with("files", Json::Array(files))
}

/// Whether the copying went on until it failed or was done: a copy for each
/// task, or fewer of which the last failed.
pub open spec fn went_on(outcomes: Seq<Result<u64, String>>, n: nat) -> bool {
    &&& outcomes.len() <= n
    &&& outcomes.len() < n ==> outcomes.len() > 0 && outcomes.last() is Err
}

/// The first copy from place `from` on that failed, and why.
pub open spec fn first_failed(
    tasks: Seq<CopyView>,
    outcomes: Seq<Result<u64, String>>,
    from: int,
) -> Option<Seq<char>>
    decreases outcomes.len() - from,
{
    if from < 0 || from >= outcomes.len() {
        None
    } else {
        match outcomes[from] {
            Err(error) => Some(
                "Unable to copy "@ + tasks[from].source + " -> "@ + tasks[from].dest + ": "@
                    + error@,
            ),
            Ok(_) => first_failed(tasks, outcomes, from + 1),
        }
    }
}

/// The sizes of copies that were all made.
pub open spec fn sizes(outcomes: Seq<Result<u64, String>>) -> Seq<u64> {
    outcomes.map_values(|outcome: Result<u64, String>| outcome->Ok_0)
}

/// What came of copying the outputs of a job: the report, or why the directory
/// or the first copy that failed could not be made.
pub fn copy_outputs_to(
    plan: &CopyPlan,
    made_dir: Result<(), String>,
    outcomes: &Vec<Result<u64, String>>,
) -> (payload: Result<Json, String>)
    requires
        made_dir is Ok ==> went_on(outcomes@, plan.tasks@.len()),
    ensures
        match (made_dir, payload) {
            (Err(error), Err(message)) => message@ == error@,
            (Err(_), Ok(_)) => false,
            (Ok(_), Err(message)) => first_failed(copies(plan.tasks@), outcomes@, 0) == Some(
                message@,
            ),
            (Ok(_), Ok(report)) => {
                &&& first_failed(copies(plan.tasks@), outcomes@, 0) is None
                &&& report@ == copies_report(copies(plan.tasks@), sizes(outcomes@))
            },
        },
{
    if let Err(error) = made_dir {
        return Err(error);
    }
    let ghost list = copies(plan.tasks@);
    let mut bytes: Vec<u64> = Vec::new();
    let mut i: usize = 0;
    while i < outcomes.len()
        invariant
            i <= outcomes@.len(),
            made_dir is Ok,
            list == copies(plan.tasks@),
            went_on(outcomes@, plan.tasks@.len()),
            first_failed(list, outcomes@, 0) == first_failed(list, outcomes@, i as int),
            bytes@.len() == i,
            forall|k: int| 0 <= k < i ==> outcomes@[k] == Ok::<u64, String>(#[trigger] bytes@[k]),
        decreases outcomes@.len() - i,
    {
        assert(list[i as int] == plan.tasks@[i as int]@);
        match &outcomes[i] {
            Ok(size) => {
                bytes.push(*size);
            },
            Err(error) => {
                let task: &CopyTask = &plan.tasks[i];
                return Err(copy_failed(task.source.as_str(), task.dest.as_str(), error.as_str()));
            },
        }
        i = i + 1;
    }
    proof {
        if outcomes@.len() > 0 {
            assert(outcomes@[outcomes@.len() - 1] == Ok::<u64, String>(
                bytes@[outcomes@.len() - 1],
            ));
        }
        assert(sizes(outcomes@) =~= bytes@);
    }
    Ok(copied(&plan.tasks, &bytes))
}

/// No two of the files that are copied go to the same path.
pub open spec fn apart(tasks: Seq<CopyView>) -> bool {
    forall|a: int, b: int|
        0 <= a < b < tasks.len() ==> (#[trigger] tasks[a]).dest != (#[trigger] tasks[b]).dest
}

/// The files of a job are copied to different paths, as long as the path that
/// they stand beside is not verbatim.
pub proof fn copies_go_apart(files: Seq<JsonView>, dests: Seq<Seq<char>>, out: Seq<char>)
    requires
        !paths::verbatim(out),
        destinations(dests, out, files.len()),
    ensures
        apart(tasks_for(files, dests, files.len())),
{
    assert forall|i: int, j: int| 0 <= i < j < dests.len() implies (#[trigger] dests[i]) != (
    #[trigger] dests[j]) by {
        destinations_differ(dests, out, i, j);
    }
    lemma_tasks_apart(files, dests, files.len());
}

proof fn lemma_tasks_apart(files: Seq<JsonView>, dests: Seq<Seq<char>>, n: nat)
    requires
        n <= dests.len(),
        forall|i: int, j: int|
            0 <= i < j < dests.len() ==> (#[trigger] dests[i]) != (#[trigger] dests[j]),
    ensures
        apart(tasks_for(files, dests, n)),
        forall|a: int|
            0 <= a < tasks_for(files, dests, n).len() ==> exists|k: int|
                0 <= k < n && #[trigger] dests[k] == (#[trigger] tasks_for(files, dests, n)[a]).dest,
    decreases n,
{
    if n > 0 {
        let m = (n - 1) as nat;
        let before = tasks_for(files, dests, m);
        let tasks = tasks_for(files, dests, n);
        lemma_tasks_apart(files, dests, m);
        assert forall|a: int| 0 <= a < tasks.len() implies exists|k: int|
            0 <= k < n && #[trigger] dests[k] == (#[trigger] tasks[a]).dest by {
            if a < before.len() {
                assert(tasks[a] == before[a]);
                let k = choose|k: int| 0 <= k < m && #[trigger] dests[k] == before[a].dest;
                assert(dests[k] == tasks[a].dest);
            } else {
                assert(dests[m as int] == tasks[a].dest);
            }
        }
        assert forall|a: int, b: int| 0 <= a < b < tasks.len() implies (#[trigger] tasks[a]).dest
            != (#[trigger] tasks[b]).dest by {
            assert(tasks[a] == before[a]);
            let k = choose|k: int| 0 <= k < m && #[trigger] dests[k] == before[a].dest;
            if b < before.len() {
                assert(tasks[b] == before[b]);
            } else {
                assert(tasks[b].dest == dests[m as int]);
                assert(dests[k] != dests[m as int]);
            }
        }
    }
}

/// Several outputs go to different paths, as long as the path that they stand
/// beside is not verbatim.
pub proof fn destinations_differ(dests: Seq<Seq<char>>, out: Seq<char>, i: int, j: int)
    requires
        !paths::verbatim(out),
        destinations(dests, out, dests.len()),
        0 <= i < j < dests.len(),
    ensures
        dests[i] != dests[j],
{
    let parts = choose|parts: paths::OutView| #[trigger]
        paths::takes_apart(parts, out) && numbered_row(dests, parts);
    paths::lemma_dir_not_verbatim(parts, out);
    assert(paths::stands_at(dests[i], parts, i) && paths::stands_at(dests[j], parts, j));
    paths::numbered_outs_differ(parts, dests[i], i as nat, parts, dests[j], j as nat);
}

} // verus!
