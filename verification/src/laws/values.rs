//! What values, stores and names of files promise.

use vstd::prelude::*;
use crate::jobs;
use crate::jobs::Ticket;
use crate::json;
use crate::json::{Json, JsonView, NumberView, Reply};
use crate::paths;
use crate::paths::OutView;
use crate::text;
use crate::tickets;

verus! {

/// The entries of an object are found under their keys; nothing else has any.
pub proof fn objects_hold_their_entries(
    map: Map<Seq<char>, JsonView>,
    key: Seq<char>,
    entry: JsonView,
    items: Seq<JsonView>,
    s: Seq<char>,
    b: bool,
    number: NumberView,
)
    ensures
        map.dom().contains(key) ==> JsonView::Object(map).get(key) == Some(map[key]),
        !map.dom().contains(key) ==> JsonView::Object(map).get(key) is None,
        JsonView::Object(map.insert(key, entry)).get(key) == Some(entry),
        JsonView::Null.get(key) is None,
        JsonView::Bool(b).get(key) is None,
        JsonView::Number(number).get(key) is None,
        JsonView::Str(s).get(key) is None,
        JsonView::Array(items).get(key) is None,
{
}

/// What is asked of an entry is answered from the entry alone.
pub proof fn entries_are_read_by_their_kind(object: JsonView, key: Seq<char>, s: Seq<char>)
    ensures
        object.get_or_null(key) == if object.get(key) is Some {
            object.get(key)->0
        } else {
            JsonView::Null
        },
        object.true_at(key) <==> object.get(key) == Some(JsonView::Bool(true)),
        object.string_at(key) == Some(s) <==> object.get(key) == Some(JsonView::Str(s)),
{
}

/// A value is read as what it is and as nothing else.
pub proof fn values_are_read_as_what_they_are(
    s: Seq<char>,
    n: u64,
    m: i64,
    float: Seq<char>,
    items: Seq<JsonView>,
    map: Map<Seq<char>, JsonView>,
    b: bool,
)
    ensures
        JsonView::Str(s).string() == Some(s),
        JsonView::Null.string() is None && JsonView::Bool(b).string() is None,
        JsonView::Array(items).string() is None && JsonView::Object(map).string() is None,
        JsonView::Number(NumberView::Unsigned(n)).string() is None,
        JsonView::Number(NumberView::Unsigned(n)).unsigned() == Some(n),
        JsonView::Number(NumberView::Negative(m)).unsigned() is None,
        JsonView::Number(NumberView::Float(float)).unsigned() is None,
        JsonView::Str(s).unsigned() is None && JsonView::Null.unsigned() is None,
        JsonView::Array(items).items() == Some(items),
        JsonView::Object(map).items() is None && JsonView::Null.items() is None,
        JsonView::Str(s).items() is None && JsonView::Bool(b).items() is None,
{
}

/// A value holds what it was made of: a list its elements one for one, and an
/// object under each key the last entry.
pub proof fn values_hold_what_they_are_made_of(
    b: bool,
    s: String,
    items: Vec<Json>,
    entries: Seq<(String, Json)>,
    key: String,
    entry: Json,
    i: int,
)
    ensures
        Json::Null@ == JsonView::Null,
        Json::Bool(b)@ == JsonView::Bool(b),
        Json::Str(s)@ == JsonView::Str(s@),
        Json::Array(items)@ == JsonView::Array(json::trees(items@)),
        json::trees(items@).len() == items@.len(),
        0 <= i < items@.len() ==> json::trees(items@)[i] == items@[i]@,
        json::entry_map(Seq::empty()) == Map::<Seq<char>, JsonView>::empty(),
        json::entry_map(entries.push((key, entry))) == json::entry_map(entries).insert(
            key@,
            entry@,
        ),
{
    assert(entries.push((key, entry)).drop_last() =~= entries);
}

/// Texts and numbers are written as what they are.
pub proof fn plain_values_are_written_as_they_are(s: Seq<char>, n: u64, m: i32)
    ensures
        json::opt_string(Some(s)) == JsonView::Str(s),
        json::opt_string(None) == JsonView::Null,
        json::count(n as int) == JsonView::Number(NumberView::Unsigned(n)),
        m >= 0 ==> json::signed_form(m as int) == NumberView::Unsigned(m as u64),
        m < 0 ==> json::signed_form(m as int) == NumberView::Negative(m as i64),
{
}

/// A reply shows the written payload, and the fallback only where there is
/// none; its status is the one that was given.
pub proof fn a_reply_shows_its_payload(
    reply: Reply,
    payload: JsonView,
    fallback: Seq<char>,
    code: int,
)
    requires
        reply.shows(payload, fallback, code),
    ensures
        reply.code == code,
        json::pretty_text(payload) is Some ==> reply.text@ == json::pretty_text(payload)->0,
        json::pretty_text(payload) is None ==> reply.text@ == fallback,
{
}

/// A store of tickets is the object that its file holds, and empty where the
/// file holds none; a ticket is the text under its job.
pub proof fn stores_are_objects(
    map: Map<Seq<char>, JsonView>,
    content: Seq<char>,
    job_id: Seq<char>,
    out: Seq<char>,
    other: Seq<char>,
)
    ensures
        json::json_of_text(content) == Some(JsonView::Object(map)) ==> tickets::store_in(
            Some(content),
        ) == JsonView::Object(map),
        !(json::json_of_text(content) is Some && json::json_of_text(content)->0 is Object)
            ==> tickets::store_in(Some(content)) == JsonView::Object(
            Map::<Seq<char>, JsonView>::empty(),
        ),
        tickets::store_in(None) == JsonView::Object(Map::<Seq<char>, JsonView>::empty()),
        map.dom().contains(job_id) && map[job_id] == JsonView::Str(out) ==> tickets::noted_out(
            JsonView::Object(map),
            job_id,
        ) == Some(out),
        !map.dom().contains(job_id) ==> tickets::noted_out(JsonView::Object(map), job_id) is None,
        tickets::with_ticket(JsonView::Object(map), job_id, out).get(job_id) == Some(
            JsonView::Str(out),
        ),
        other != job_id ==> tickets::with_ticket(JsonView::Object(map), job_id, out).get(other)
            == JsonView::Object(map).get(other),
{
}

/// A ticket is read from an object that names its job by a text; its place and
/// its name may be missing or null, and are texts otherwise.
pub proof fn tickets_are_read_from_their_entries(entry: JsonView)
    ensures
        ({
            let job = entry.get("job_id"@);
            let out = entry.get("out"@);
            let name = entry.get("name"@);
            let empty = |e: Option<JsonView>| e is None || e == Some(JsonView::Null);
            let text = |e: Option<JsonView>| e is Some && e->0 is Str;
            &&& jobs::ticket_in(entry) is Some <==> text(job) && (empty(out) || text(out)) && (
            empty(name) || text(name))
            &&& jobs::ticket_in(entry) matches Some(ticket) ==> {
                &&& JsonView::Str(ticket.job_id) == job->0
                &&& ticket.out is Some <==> text(out)
                &&& ticket.out is Some ==> JsonView::Str(ticket.out->0) == out->0
                &&& ticket.name is Some <==> text(name)
                &&& ticket.name is Some ==> JsonView::Str(ticket.name->0) == name->0
            }
        }),
{
}

/// A ticket is viewed as it is.
pub proof fn tickets_are_viewed_as_they_are(ticket: Ticket, list: Seq<Ticket>, i: int)
    requires
        0 <= i < list.len(),
    ensures
        ticket@.job_id == ticket.job_id@,
        ticket@.out == text::opt_text(ticket.out),
        ticket@.name == text::opt_text(ticket.name),
        jobs::ticket_views(list).len() == list.len(),
        jobs::ticket_views(list)[i] == list[i]@,
{
}

/// The name of a file is its stem, a dot and its extension, and the extension
/// has no dot; without a dot but at the start the name is all stem.
pub proof fn names_are_stems_with_extensions(name: Seq<char>)
    ensures
        paths::name_extension(name) matches Some(ext) ==> {
            &&& name == paths::name_stem(name) + seq!['.'] + ext
            &&& paths::name_stem(name).len() > 0
            &&& forall|i: int| 0 <= i < ext.len() ==> ext[i] != '.'
        },
        paths::name_extension(name) is None ==> paths::name_stem(name) == name && forall|i: int|
            1 <= i < name.len() ==> name[i] != '.',
        paths::stem_of(Some(name)) == Some(paths::name_stem(name)),
        paths::extension_of(Some(name)) == paths::name_extension(name),
        paths::stem_of(None) is None && paths::extension_of(None) is None,
{
    paths::head_and_tail(name, '.');
    paths::lemma_head_ends(name, '.');
    let front = paths::head(name, '.');
    let ext = paths::tail(name, '.');
    if front.len() > 1 {
        assert(name =~= front.drop_last() + seq!['.'] + ext);
    } else {
        assert forall|i: int| 1 <= i < name.len() implies name[i] != '.' by {
            assert(ext[i - front.len()] == name[i]);
        }
    }
}

/// The name of an output is the stem, a dash, the number counted from one, and
/// the extension, `.png` where there is none.
pub proof fn outputs_are_numbered_from_one(
    stem: Seq<char>,
    ext: Seq<char>,
    index: nat,
)
    ensures
        ({
            let name = paths::numbered(Some(stem), Some(ext), index as int);
            let number = name.subrange(stem.len() as int + 1, name.len() - ext.len() - 1);
            &&& stem.len() + 2 + ext.len() < name.len()
            &&& name.take(stem.len() as int) == stem
            &&& name[stem.len() as int] == '-'
            &&& text::digits_value(number) == Some(index + 1)
            &&& number.len() > 1 ==> number[0] != '0'
            &&& name[name.len() - ext.len() - 1] == '.'
            &&& name.skip(name.len() - ext.len()) == ext
        }),
        paths::numbered(Some(stem), None, index as int) == paths::numbered(
            Some(stem),
            Some(seq!['p', 'n', 'g']),
            index as int,
        ),
        paths::numbered(None, Some(ext), index as int) == paths::numbered(
            Some(seq!['i', 'm', 'a', 'g', 'e']),
            Some(ext),
            index as int,
        ),
        paths::numbered(None, None, index as int) == paths::numbered(
            Some(seq!['i', 'm', 'a', 'g', 'e']),
            Some(seq!['p', 'n', 'g']),
            index as int,
        ),
{
    reveal_strlit("-");
    reveal_strlit(".");
    reveal_strlit("image");
    reveal_strlit(".png");
    let number = text::decimal(index + 1);
    text::lemma_decimal_digits(index + 1);
    lemma_no_leading_zero(index + 1);
    let name = paths::numbered(Some(stem), Some(ext), index as int);
    assert(name =~= stem + seq!['-'] + number + seq!['.'] + ext);
    assert(name.subrange(stem.len() as int + 1, name.len() - ext.len() - 1) =~= number);
    assert(name.take(stem.len() as int) =~= stem);
    assert(name.skip(name.len() - ext.len()) =~= ext);
    assert(".png"@ =~= "."@ + seq!['p', 'n', 'g']);
    assert("image"@ =~= seq!['i', 'm', 'a', 'g', 'e']);
}

proof fn lemma_no_leading_zero(n: nat)
    requires
        n > 0,
    ensures
        text::decimal(n).len() > 0,
        text::decimal(n)[0] != '0',
    decreases n,
{
    if n >= 10 {
        lemma_no_leading_zero(n / 10);
    }
}

/// The last name of a path is what stands after its last slash; slashes and
/// single dots behind it change nothing, and two dots are no name.
pub proof fn names_stand_after_the_last_slash(dir: Seq<char>, name: Seq<char>)
    requires
        dir.len() == 0 || dir.last() == '/',
        name.len() > 0,
        forall|i: int| 0 <= i < name.len() ==> name[i] != '/',
    ensures
        name != seq!['.'] && name != seq!['.', '.'] ==> paths::final_name(dir + name) == Some(name),
        name == seq!['.', '.'] ==> paths::final_name(dir + name) is None,
        paths::final_name(dir + name + seq!['/']) == paths::final_name(dir + name),
        paths::final_name(dir + name + seq!['/', '.']) == paths::final_name(dir + name),
        paths::final_name(Seq::empty()) is None,
{
    paths::lemma_end(dir, name);
    let whole = dir + name;
    let empty: Seq<char> = Seq::empty();
    assert(whole + seq!['/'] + empty =~= whole + seq!['/']);
    paths::lemma_end(whole + seq!['/'], empty);
    assert((whole + seq!['/']).drop_last() =~= whole);
    assert(whole + seq!['/'] + seq!['.'] =~= whole + seq!['/', '.']);
    paths::lemma_end(whole + seq!['/'], seq!['.']);
}

/// The parent of a path is what stands before the slash and the name at its end:
/// the directory, the root, or nothing.
pub proof fn parents_stand_before_the_last_name(base: Seq<char>, part: Seq<char>, name: Seq<char>)
    requires
        base.len() == 0 || base.last() == '/',
        part.len() > 0 && part != seq!['.'],
        forall|i: int| 0 <= i < part.len() ==> part[i] != '/',
        name.len() > 0 && name != seq!['.'],
        forall|i: int| 0 <= i < name.len() ==> name[i] != '/',
    ensures
        paths::parent_of(base + part + seq!['/'] + name) == Some(base + part),
        paths::parent_of(seq!['/'] + name) == Some(seq!['/']),
        paths::parent_of(name) == Some(Seq::<char>::empty()),
        paths::parent_of(Seq::empty()) is None,
        paths::parent_of(seq!['/']) is None,
        paths::parent_of(seq!['.']) == Some(Seq::<char>::empty()),
{
    let dir = base + part;
    let empty: Seq<char> = Seq::empty();
    paths::lemma_end(base, part);
    paths::lemma_end(dir + seq!['/'], name);
    paths::lemma_end(seq!['/'], name);
    paths::lemma_end(empty, name);
    assert((dir + seq!['/']).drop_last() =~= dir);
    assert(empty + name =~= name);
    assert(paths::lead(name) == 0) by {
        assert(name.len() == 1 && name[0] == '.' ==> name =~= seq!['.']);
    }
    assert(paths::shorn(name) == name);
    assert(paths::cut(name) =~= empty);
    assert(paths::shorn(dir) == dir);
    assert(paths::shorn(empty) == empty);
    assert(paths::shorn(seq!['/']) == seq!['/']);
    assert(paths::shorn(seq!['.']) == seq!['.']);
}

/// A path that every system reads alike is taken apart at its last slash; where
/// there is no parent, the current directory takes its place.
pub proof fn a_path_is_taken_apart_at_its_last_slash(
    parts: OutView,
    base: Seq<char>,
    part: Seq<char>,
    name: Seq<char>,
    path: Seq<char>,
)
    requires
        base.len() == 0 || base.last() == '/',
        part.len() > 0 && part != seq!['.'],
        forall|i: int| 0 <= i < part.len() ==> part[i] != '/',
        name.len() > 0 && name != seq!['.'] && name != seq!['.', '.'],
        forall|i: int| 0 <= i < name.len() ==> name[i] != '/',
        paths::portable(base + part + seq!['/'] + name),
        paths::takes_apart(parts, base + part + seq!['/'] + name),
    ensures
        parts.dir == base + part,
        parts.name == Some(name),
        paths::parent_of(path) is None ==> paths::home(path) == seq!['.'],
        paths::parent_of(path) is Some ==> paths::home(path) == paths::parent_of(path)->0,
{
    reveal_strlit(".");
    assert("."@ =~= seq!['.']);
    let dir = base + part + seq!['/'];
    parents_stand_before_the_last_name(base, part, name);
    names_stand_after_the_last_slash(dir, name);
    paths::portable_paths_read_alike(dir + name);
}

/// A path without a parent is taken to stand in the current directory.
pub proof fn a_path_without_a_parent_stands_here(parts: OutView, out: Seq<char>)
    requires
        paths::takes_apart(parts, out),
        paths::portable(out),
        paths::parent_of(out) is None,
    ensures
        parts.dir == seq!['.'],
{
    reveal_strlit(".");
    assert("."@ =~= seq!['.']);
    paths::portable_paths_read_alike(out);
}

/// The path of a file in a directory is the directory, at most one separator and
/// the name.
pub proof fn a_file_stands_in_its_directory(path: Seq<char>, dir: Seq<char>, name: Seq<char>)
    requires
        paths::joined(path, dir, name),
        paths::simple_name(name),
        !(dir.len() > 2 && dir[0] == '\\' && dir[1] == '\\' && dir[2] == '?'),
    ensures
        dir.len() + name.len() <= path.len() <= dir.len() + 1 + name.len(),
        path.take(dir.len() as int) == dir,
        path.skip(path.len() - name.len()) == name,
        path.len() == dir.len() + 1 + name.len() ==> path[dir.len() as int] == '/'
            || path[dir.len() as int] == '\\',
        path.len() == dir.len() + name.len() ==> dir.len() == 0 || dir.last() == '/' || dir.last()
            == '\\' || dir.last() == ':',
        dir.len() == 0 || dir.last() == '/' ==> path.len() == dir.len() + name.len(),
{
}

/// A value holds a float wherever one stands in it, and in no other place.
pub proof fn floats_are_found_wherever_they_stand(
    items: Seq<JsonView>,
    map: Map<Seq<char>, JsonView>,
    n: u64,
    m: i64,
    float: Seq<char>,
    b: bool,
)
    ensures
        !JsonView::Number(NumberView::Float(float)).float_free(),
        JsonView::Number(NumberView::Unsigned(n)).float_free(),
        JsonView::Number(NumberView::Negative(m)).float_free(),
        JsonView::Str(float).float_free(),
        JsonView::Bool(b).float_free(),
        JsonView::Null.float_free(),
        JsonView::Array(items).float_free() <==> forall|i: int|
            0 <= i < items.len() ==> (#[trigger] items[i]).float_free(),
        JsonView::Object(map).float_free() <==> forall|key: Seq<char>|
            map.dom().contains(key) ==> (#[trigger] map[key]).float_free(),
{
    let array = JsonView::Array(items);
    let object = JsonView::Object(map);
    if array.float_free() {
        assert forall|i: int| 0 <= i < items.len() implies (#[trigger] items[i]).float_free() by {
            assert(array->Array_0[i].float_free());
        }
    }
    if object.float_free() {
        assert forall|key: Seq<char>| map.dom().contains(key) implies (
        #[trigger] map[key]).float_free() by {
            assert(object->Object_0[key].float_free());
        }
    }
}

/// An array or object nests one level deeper than the deepest value in it, and
/// text is read to a depth of a hundred and twenty-seven levels.
pub proof fn values_nest_by_levels(
    items: Seq<JsonView>,
    map: Map<Seq<char>, JsonView>,
    levels: nat,
    s: Seq<char>,
)
    ensures
        JsonView::Str(s).nested_within(levels),
        JsonView::Null.nested_within(levels),
        !JsonView::Array(items).nested_within(0),
        !JsonView::Object(map).nested_within(0),
        JsonView::Array(items).nested_within(levels + 1) <==> forall|i: int|
            0 <= i < items.len() ==> (#[trigger] items[i]).nested_within(levels),
        JsonView::Object(map).nested_within(levels + 1) <==> forall|key: Seq<char>|
            map.dom().contains(key) ==> (#[trigger] map[key]).nested_within(levels),
        json::nesting_limit() == 127,
{
    let array = JsonView::Array(items);
    let object = JsonView::Object(map);
    assert((levels + 1 - 1) as nat == levels);
    if array.nested_within(levels + 1) {
        assert forall|i: int| 0 <= i < items.len() implies (#[trigger] items[i]).nested_within(
            levels,
        ) by {
            assert(array->Array_0[i].nested_within(levels));
        }
    }
    if object.nested_within(levels + 1) {
        assert forall|key: Seq<char>| map.dom().contains(key) implies (
        #[trigger] map[key]).nested_within(levels) by {
            assert(object->Object_0[key].nested_within(levels));
        }
    }
}

/// Two objects with the same keys and strings have an entry under the same keys,
/// and the same strings among them.
pub proof fn the_same_strings_are_read(a: JsonView, b: JsonView, key: Seq<char>, s: Seq<char>)
    requires
        json::same_keys_and_strings(a, b),
    ensures
        a.get(key) is Some <==> b.get(key) is Some,
        a.get(key) == Some(JsonView::Str(s)) <==> b.get(key) == Some(JsonView::Str(s)),
{
    assert(a.string_at(key) == b.string_at(key));
}

} // verus!
