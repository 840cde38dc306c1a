//! What the requests to the daemon promise.

use vstd::prelude::*;
use crate::client;
use crate::client::{EditArgs, GenerateRequest, ImageArgs};
use crate::laws::words;
use crate::paths;
use crate::text;

verus! {

/// A request asks for what the command says: every option that is set stands in
/// it with the same value, and one that is not set is absent.
pub proof fn a_request_asks_for_every_option(
    request: GenerateRequest,
    provider: Seq<char>,
    shared: ImageArgs,
)
    requires
        request.asks(provider, shared),
    ensures
        request.prompt@ == shared.prompt@,
        same_option(request.size, shared.size),
        same_option(request.format, shared.output_format),
        same_option(request.quality, shared.quality),
        same_option(request.moderation, shared.moderation),
        request.background is Some && request.background->0@ == shared.background@,
        request.n == shared.n,
        request.compression == shared.output_compression,
        request.storage_targets is None,
        request.fallback_targets is None,
{
}

/// Whether two options are both set, with the same text, or both not set.
pub open spec fn same_option(a: Option<String>, b: Option<String>) -> bool {
    &&& a is Some <==> b is Some
    &&& a is Some && b is Some ==> a->0@ == b->0@
}

/// Two requests for the same command ask for the same, and requests for
/// commands that differ in an option differ in it.
pub proof fn requests_tell_commands_apart(
    first: GenerateRequest,
    second: GenerateRequest,
    provider: Seq<char>,
    a: ImageArgs,
    b: ImageArgs,
)
    requires
        first.asks(provider, a),
        second.asks(provider, b),
    ensures
        first.prompt@ == second.prompt@ <==> a.prompt@ == b.prompt@,
        same_option(first.size, second.size) <==> same_option(a.size, b.size),
        same_option(first.format, second.format) <==> same_option(
            a.output_format,
            b.output_format,
        ),
        same_option(first.quality, second.quality) <==> same_option(a.quality, b.quality),
        same_option(first.moderation, second.moderation) <==> same_option(
            a.moderation,
            b.moderation,
        ),
        same_option(first.background, second.background) <==> a.background@ == b.background@,
        first.n == second.n <==> a.n == b.n,
        first.compression == second.compression <==> a.output_compression == b.output_compression,
        same_option(first.provider, second.provider),
{
}

/// The provider is named without the white space around it, unless it is blank
/// or left open by the word for that.
pub proof fn the_provider_is_named_where_it_is_chosen(
    request: GenerateRequest,
    before: Seq<char>,
    core: Seq<char>,
    after: Seq<char>,
    shared: ImageArgs,
)
    requires
        forall|k: int| 0 <= k < before.len() ==> text::white_space(before[k]),
        forall|k: int| 0 <= k < after.len() ==> text::white_space(after[k]),
        core.len() > 0 ==> !text::white_space(core[0]) && !text::white_space(core.last()),
        request.asks(before + core + after, shared),
    ensures
        core.len() == 0 || core == seq!['a', 'u', 't', 'o'] ==> request.provider is None,
        core.len() > 0 && core != seq!['a', 'u', 't', 'o'] ==> request.provider is Some
            && request.provider->0@ == core,
{
    words::trimming_leaves_the_core(before, core, after);
    reveal_strlit("auto");
    assert("auto"@ =~= seq!['a', 'u', 't', 'o']);
}

/// A file is sent under its own name, and under a common one where it has none.
pub proof fn a_file_is_sent_under_its_name(name: Seq<char>, sent: Seq<char>, path: Seq<char>)
    ensures
        client::upload_name(Some(name)) == name,
        client::upload_name(None) == "image.png"@,
        client::sent_as(sent, path) && paths::named_alike(path) && paths::final_name(path) == Some(
            name,
        ) ==> sent == name,
        client::sent_as(sent, path) && paths::named_alike(path) && paths::final_name(path) is None
            ==> sent == "image.png"@,
{
}

/// Files are refused exactly where one was not read, and the first such file
/// says why.
pub proof fn the_first_unread_file_says_why(
    files: Seq<Seq<char>>,
    contents: Seq<Result<Vec<u8>, String>>,
    k: int,
)
    requires
        files.len() == contents.len(),
    ensures
        0 <= k < files.len() && contents[k] is Err && (forall|j: int|
            0 <= j < k ==> (#[trigger] contents[j]) is Ok) ==> client::first_unread(
            files,
            contents,
            0,
        ) == Some("Unable to read "@ + files[k] + ": "@ + contents[k]->Err_0@),
        (forall|j: int| 0 <= j < contents.len() ==> (#[trigger] contents[j]) is Ok)
            <==> client::first_unread(files, contents, 0) is None,
{
    lemma_first_unread(files, contents, 0, k);
}

proof fn lemma_first_unread(
    files: Seq<Seq<char>>,
    contents: Seq<Result<Vec<u8>, String>>,
    from: int,
    k: int,
)
    requires
        files.len() == contents.len(),
        0 <= from,
    ensures
        from <= k < files.len() && contents[k] is Err && (forall|j: int|
            from <= j < k ==> (#[trigger] contents[j]) is Ok) ==> client::first_unread(
            files,
            contents,
            from,
        ) == Some("Unable to read "@ + files[k] + ": "@ + contents[k]->Err_0@),
        (forall|j: int| from <= j < contents.len() ==> (#[trigger] contents[j]) is Ok)
            <==> client::first_unread(files, contents, from) is None,
    decreases files.len() - from,
{
    if from < files.len() {
        lemma_first_unread(files, contents, from + 1, k);
        assert(contents[from] is Ok || contents[from] is Err);
    }
}

/// An edit is refused exactly where a reference image or the mask was not read;
/// the reference images come first.
pub proof fn an_edit_needs_all_its_files(
    edit: EditArgs,
    contents: Seq<Result<Vec<u8>, String>>,
    mask: Option<Result<Vec<u8>, String>>,
)
    requires
        contents.len() == edit.ref_image@.len(),
    ensures
        client::edit_refusal(edit, contents, mask) is None <==> (forall|j: int|
            0 <= j < contents.len() ==> (#[trigger] contents[j]) is Ok) && !(mask is Some
            && mask->0 is Err),
        (exists|j: int| 0 <= j < contents.len() && (#[trigger] contents[j]) is Err)
            ==> client::edit_refusal(edit, contents, mask) == client::first_unread(
            text::texts(edit.ref_image@),
            contents,
            0,
        ),
        (forall|j: int| 0 <= j < contents.len() ==> (#[trigger] contents[j]) is Ok) && mask is Some
            && mask->0 is Err ==> client::edit_refusal(edit, contents, mask) == Some(
            "Unable to read "@ + edit.mask->0@ + ": "@ + mask->0->Err_0@,
        ),
{
    the_first_unread_file_says_why(text::texts(edit.ref_image@), contents, 0);
    assert(forall|j: int|
        0 <= j < contents.len() ==> (#[trigger] contents[j]) is Ok || contents[j] is Err);
}

/// The commands have their own names.
pub proof fn commands_have_their_names()
    ensures
        client::spec_command_name(true) == "images edit"@,
        client::spec_command_name(false) == "images generate"@,
{
}

} // verus!
