//! The store of tickets: for each job that nobody waited for, where its output
//! is to go.

use vstd::prelude::*;
use crate::json;
use crate::json::{Json, JsonView};
use crate::paths;
use crate::text;
use crate::text::owned;

verus! {

/// The file, inside the configuration directory, that holds the tickets.
pub fn ticket_store_path(config_dir: &str) -> (path: String)
    ensures
        !paths::verbatim(config_dir@) ==> paths::inside(path@, config_dir@, "client-outs.json"@),
        "client-outs.json"@.is_suffix_of(path@),
{
    proof {
        reveal_strlit("client-outs.json");
    }
    paths::join(config_dir, "client-outs.json")
}

/// The store that JSON stands for: an object as it is, and nothing else at all.
pub open spec fn store_of(parsed: Option<JsonView>) -> JsonView {
    match parsed {
        Some(JsonView::Object(map)) => JsonView::Object(map),
        _ => JsonView::Object(Map::empty()),
    }
}

/// The store that a file stands for; a file that is missing or is no JSON
/// object stands for an empty store.
pub open spec fn store_in(file: Option<Seq<char>>) -> JsonView {
    store_of(
        match file {
            Some(content) => json::json_of_text(content),
            None => None,
        },
    )
}

/// Where a store says that the output of a job is to go.
pub open spec fn noted_out(store: JsonView, job_id: Seq<char>) -> Option<Seq<char>> {
    store.string_at(job_id)
}

/// The store with one more ticket, which replaces any other for the job.
pub open spec fn with_ticket(store: JsonView, job_id: Seq<char>, out: Seq<char>) -> JsonView {
    JsonView::Object(store->Object_0.insert(job_id, JsonView::Str(out)))
}

/// A ticket tells where its own job's output goes, and nothing about others.
pub proof fn ticket_is_found(
    store: JsonView,
    job_id: Seq<char>,
    out: Seq<char>,
    other: Seq<char>,
)
    requires
        store is Object,
    ensures
        noted_out(with_ticket(store, job_id, out), job_id) == Some(out),
        other != job_id ==> noted_out(with_ticket(store, job_id, out), other) == noted_out(
            store,
            other,
        ),
{
}

/// Where the new file holds exactly the old store with the ticket, noting the
/// same ticket again writes the same file.
pub proof fn remembering_again_changes_nothing(
    before: Option<Seq<char>>,
    after: Seq<char>,
    job_id: Seq<char>,
    out: Seq<char>,
)
    requires
        json::pretty_text(with_ticket(store_in(before), job_id, out)) == Some(after),
        store_in(Some(after)) == with_ticket(store_in(before), job_id, out),
    ensures
        with_ticket(store_in(Some(after)), job_id, out) == store_in(Some(after)),
        json::pretty_text(with_ticket(store_in(Some(after)), job_id, out)) == Some(after),
{
    let map = store_in(before)->Object_0;
    assert(map.insert(job_id, JsonView::Str(out)).insert(job_id, JsonView::Str(out)) =~= map.insert(
        job_id,
        JsonView::Str(out),
    ));
}

/// The store that JSON stands for.
pub fn store_from(parsed: Option<Json>) -> (store: Json)
    ensures
        store@ == store_of(
            match parsed {
                Some(j) => Some(j@),
                None => None,
            },
        ),
{
    match parsed {
        Some(Json::Object(entries)) => Json::Object(entries),
        _ => Json::object(),
    }
}

/// The store that the content of a file stands for.
pub fn read_ticket_map(file: Option<&str>) -> (store: Json)
    ensures
        store@ == store_in(text::opt_str(file)),
        store@ is Object,
        store@.nested_within(json::nesting_limit()),
{
    let parsed: Option<Json> = match file {
        Some(content) => Json::parse(content),
        None => None,
    };
    store_from(parsed)
}

/// Where a store says that the output of a job is to go.
pub fn ticket_out(store: &Json, job_id: &str) -> (out: Option<String>)
    ensures
        text::opt_text(out) == noted_out(store@, job_id@),
{
    match store.str_at(job_id) {
        Some(out) => Some(owned(out)),
        None => None,
    }
}

/// Where the ticket for a job, in a store file, says that its output is to go.
pub fn lookup_ticket_out(file: Option<&str>, job_id: &str) -> (out: Option<String>)
    ensures
        text::opt_text(out) == noted_out(store_in(text::opt_str(file)), job_id@),
{
    let store: Json = read_ticket_map(file);
    ticket_out(&store, job_id)
}

/// The store with one more ticket.
pub fn add_ticket(store: Json, job_id: &str, out: &str) -> (more: Json)
    requires
        store@ is Object,
    ensures
        more@ == with_ticket(store@, job_id@, out@),
{
    store.with(job_id, Json::text(out))
}

/// Whether a file holds a store that can be read.
pub open spec fn readable(content: Seq<char>) -> bool {
    json::json_of_text(content) is Some
}

/// Whether a file tells of one more ticket than another, and of all others the
/// same.
pub open spec fn tells_one_more(
    after: Seq<char>,
    before: Option<Seq<char>>,
    job_id: Seq<char>,
    out: Seq<char>,
) -> bool {
    &&& noted_out(store_in(Some(after)), job_id) == Some(out)
    &&& forall|other: Seq<char>|
        other != job_id ==> noted_out(store_in(Some(after)), other) == #[trigger] noted_out(
            store_in(before),
            other,
        )
}

/// The new content of the store file after a ticket is added. Whoever reads the
/// new file finds the ticket, and finds every other ticket as it was. A file
/// without floats in it stays readable, and the new store is then exactly the
/// old one with the ticket.
pub fn remember_ticket(file: Option<&str>, job_id: &str, out: &str) -> (content: Option<String>)
    ensures
        text::opt_text(content) == json::pretty_text(
            with_ticket(store_in(text::opt_str(file)), job_id@, out@),
        ),
        content is Some,
        store_in(text::opt_str(file)).float_free() ==> readable(content->0@) && store_in(
            Some(content->0@),
        ) == with_ticket(store_in(text::opt_str(file)), job_id@, out@),
        readable(content->0@) ==> tells_one_more(
            content->0@,
            text::opt_str(file),
            job_id@,
            out@,
        ),
{
    let store: Json = read_ticket_map(file);
    let ghost before = store@;
    let more: Json = add_ticket(store, job_id, out);
    let content: Option<String> = more.pretty();
    proof {
        let tree = more@;
        assert(tree.nested_within(json::nesting_limit())) by {
            let map = tree->Object_0;
            assert forall|key: Seq<char>| map.dom().contains(key) implies (
            #[trigger] map[key]).nested_within((json::nesting_limit() - 1) as nat) by {
                if key != job_id@ {
                    assert(before->Object_0.dom().contains(key));
                    assert(map[key] == before->Object_0[key]);
                }
            }
        }
        if before.float_free() {
            let map = tree->Object_0;
            assert forall|key: Seq<char>| map.dom().contains(key) implies (
            #[trigger] map[key]).float_free() by {
                if key != job_id@ {
                    assert(before->Object_0.dom().contains(key));
                    assert(map[key] == before->Object_0[key]);
                }
            }
        }
        if readable(content->0@) {
            let read = json::json_of_text(content->0@)->0;
            assert(json::same_keys_and_strings(tree, read));
            assert(store_in(Some(content->0@)) == read);
            assert(read.string_at(job_id@) == tree.string_at(job_id@));
            assert forall|other: Seq<char>| other != job_id@ implies noted_out(
                store_in(Some(content->0@)),
                other,
            ) == #[trigger] noted_out(store_in(text::opt_str(file)), other) by {
                assert(read.string_at(other) == tree.string_at(other));
            }
        }
    }
    content
}

} // verus!
