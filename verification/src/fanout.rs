//! The `images fanout` command: its arguments, its jobs, and what it replies.

use vstd::prelude::*;
use vstd::string::StringExecFns;
use crate::args;
use crate::args::has_positional;
use crate::json::{Json, JsonView, Reply};
use crate::paths;
use crate::tasks;
use crate::text;
use crate::text::{begins_with_dash, copy_opt, decimal_text, owned, parse_decimal, same_text, trim};

verus! {

/// How many jobs run side by side unless the caller says otherwise.
pub const DEFAULT_MAX_PARALLEL: usize = 10;

/// The most jobs that ever run side by side.
pub const MAX_PARALLEL_CAP: usize = 10;

/// How often a failed job is run again unless the caller says otherwise.
pub const DEFAULT_RETRIES: u32 = 2;

/// The command line is one of `images fanout`.
pub open spec fn names_fanout(argv: Seq<Seq<char>>) -> bool {
    args::positional_is(argv, 0, "images"@) && args::positional_is(argv, 1, "fanout"@)
}

/// Whether the first two positional arguments are `images` and `fanout`.
pub fn is_command(argv: &[String]) -> (found: bool)
    ensures
        found == names_fanout(text::texts(argv@)),
{
    has_positional(argv, 0, "images") && has_positional(argv, 1, "fanout")
}

/// One reading of a `fanout` argument, or of a flag with its value.
pub enum Token {
    Word,
    Jobs(Seq<char>),
    MaxParallel(Seq<char>),
    Retries(Seq<char>),
    Events,
    Global(Seq<char>, Seq<char>),
    Lacking(Seq<char>),
    Unknown(Seq<char>),
}

/// The flags that are handed on, with their values, to every child.
pub open spec fn is_global(flag: Seq<char>) -> bool {
    ||| flag == "--provider"@
    ||| flag == "--api-key"@
    ||| flag == "--config"@
    ||| flag == "--auth-file"@
    ||| flag == "--endpoint"@
    ||| flag == "--openai-api-base"@
    ||| flag == "--model"@
    ||| flag == "-m"@
}

/// The flags that are followed by a value.
pub open spec fn takes_value(flag: Seq<char>) -> bool {
    ||| flag == "--jobs"@
    ||| flag == "--max-parallel"@
    ||| flag == "--retries"@
    ||| is_global(flag)
}

/// A flag with its value.
pub open spec fn valued(flag: Seq<char>, value: Seq<char>) -> Token {
    if flag == "--jobs"@ {
        Token::Jobs(value)
    } else if flag == "--max-parallel"@ {
        Token::MaxParallel(value)
    } else if flag == "--retries"@ {
        Token::Retries(value)
    } else {
        Token::Global(flag, value)
    }
}

/// An argument that takes no value.
pub open spec fn single(arg: Seq<char>) -> Token {
    if arg == "--json-events"@ {
        Token::Events
    } else if arg == "--json"@ || !text::is_flag(arg) {
        Token::Word
    } else {
        Token::Unknown(arg)
    }
}

/// The arguments read from left to right.
pub open spec fn tokens(list: Seq<Seq<char>>) -> Seq<Token>
    decreases list.len(),
{
    if list.len() == 0 {
        Seq::empty()
    } else if !takes_value(list[0]) {
        seq![single(list[0])] + tokens(list.skip(1))
    } else if list.len() == 1 {
        seq![Token::Lacking(list[0])]
    } else {
        seq![valued(list[0], list[1])] + tokens(list.skip(2))
    }
}

/// What is wrong with a token, if anything is.
pub open spec fn complaint(token: Token) -> Option<Seq<char>> {
    match token {
        Token::Lacking(flag) => Some(
            if flag == "--jobs"@ {
                "--jobs requires a file path"@
            } else if flag == "--max-parallel"@ || flag == "--retries"@ {
                flag + " requires a number"@
            } else {
                flag + " requires a value"@
            },
        ),
        Token::MaxParallel(value) => if text::bounded_value(value, usize::MAX as int) is None {
            Some("Invalid --max-parallel: "@ + value)
        } else {
            None
        },
        Token::Retries(value) => if text::bounded_value(value, u32::MAX as int) is None {
            Some("Invalid --retries: "@ + value)
        } else {
            None
        },
        Token::Unknown(flag) => Some("Unknown fanout flag: "@ + flag),
        _ => None,
    }
}

/// What is wrong with the first token with which anything is wrong.
pub open spec fn first_complaint(list: Seq<Token>) -> Option<Seq<char>>
    decreases list.len(),
{
    if list.len() == 0 {
        None
    } else if complaint(list[0]) is Some {
        complaint(list[0])
    } else {
        first_complaint(list.skip(1))
    }
}

/// The jobs file: what the last `--jobs` names.
pub open spec fn jobs_file(list: Seq<Token>) -> Option<Seq<char>>
    decreases list.len(),
{
    if list.len() == 0 {
        None
    } else {
        match list.last() {
            Token::Jobs(value) => Some(value),
            _ => jobs_file(list.drop_last()),
        }
    }
}

/// A number brought into the range from one to the cap.
pub open spec fn capped(n: int) -> int {
    if n < 1 {
        1
    } else if n > MAX_PARALLEL_CAP {
        MAX_PARALLEL_CAP as int
    } else {
        n
    }
}

/// How many jobs run side by side: what the last `--max-parallel` says, capped.
pub open spec fn parallelism(list: Seq<Token>) -> int
    decreases list.len(),
{
    if list.len() == 0 {
        DEFAULT_MAX_PARALLEL as int
    } else {
        match list.last() {
            Token::MaxParallel(value) => capped(
                text::bounded_value(value, usize::MAX as int)->0,
            ),
            _ => parallelism(list.drop_last()),
        }
    }
}

/// How often a failed job is run again: what the last `--retries` says.
pub open spec fn retry_limit(list: Seq<Token>) -> int
    decreases list.len(),
{
    if list.len() == 0 {
        DEFAULT_RETRIES as int
    } else {
        match list.last() {
            Token::Retries(value) => text::bounded_value(value, u32::MAX as int)->0,
            _ => retry_limit(list.drop_last()),
        }
    }
}

/// Whether events are asked for.
pub open spec fn wants_events(list: Seq<Token>) -> bool {
    list.contains(Token::Events)
}

/// The flags and values that are handed on, in their order.
pub open spec fn handed_on(list: Seq<Token>) -> Seq<Seq<char>>
    decreases list.len(),
{
    if list.len() == 0 {
        Seq::empty()
    } else {
        match list.last() {
            Token::Global(flag, value) => handed_on(list.drop_last()) + seq![flag, value],
            _ => handed_on(list.drop_last()),
        }
    }
}

/// What every child is given: the flags that are handed on, and last the wish
/// for events.
pub open spec fn child_globals(list: Seq<Token>) -> Seq<Seq<char>> {
    if wants_events(list) {
        handed_on(list).push("--json-events"@)
    } else {
        handed_on(list)
    }
}

/// The arguments of one `images fanout`, read.
pub struct FanoutView {
    pub globals: Seq<Seq<char>>,
    pub jobs_path: Seq<char>,
    pub max_parallel: int,
    pub retries: int,
}

/// What a command line asks for, or the message that refuses it.
pub open spec fn asked(argv: Seq<Seq<char>>) -> Result<FanoutView, Seq<char>> {
    let list = tokens(args::arguments(argv));
    match first_complaint(list) {
        Some(message) => Err(message),
        None => match jobs_file(list) {
            None => Err("images fanout requires --jobs <file.json>"@),
            Some(path) => Ok(
                FanoutView {
                    globals: child_globals(list),
                    jobs_path: path,
                    max_parallel: parallelism(list),
                    retries: retry_limit(list),
                },
            ),
        },
    }
}

/// Reading stops at the first complaint: a clean start changes nothing.
proof fn lemma_clean_start(start: Seq<Token>, rest: Seq<Token>)
    requires
        first_complaint(start) is None,
    ensures
        first_complaint(start + rest) == first_complaint(rest),
    decreases start.len(),
{
    if start.len() == 0 {
        assert(start + rest =~= rest);
    } else {
        assert((start + rest).skip(1) =~= start.skip(1) + rest);
        lemma_clean_start(start.skip(1), rest);
    }
}

/// The reading is clean up to and with one more token.
pub(crate) proof fn lemma_clean_push(start: Seq<Token>, token: Token)
    requires
        first_complaint(start) is None,
        complaint(token) is None,
    ensures
        first_complaint(start.push(token)) is None,
{
    lemma_clean_start(start, seq![token]);
    assert(start.push(token) =~= start + seq![token]);
    assert(seq![token].skip(1) =~= Seq::empty());
    assert(first_complaint(Seq::<Token>::empty()) is None);
    assert(first_complaint(seq![token]) is None);
}

/// The first token that is wrong decides.
pub(crate) proof fn lemma_first_wrong(start: Seq<Token>, token: Token, rest: Seq<Token>)
    requires
        first_complaint(start) is None,
        complaint(token) is Some,
    ensures
        first_complaint(start + (seq![token] + rest)) == complaint(token),
{
    lemma_clean_start(start, seq![token] + rest);
}

fn is_global_flag(arg: &str) -> (found: bool)
    ensures
        found == is_global(arg@),
{
    same_text(arg, "--provider") || same_text(arg, "--api-key") || same_text(arg, "--config")
        || same_text(arg, "--auth-file") || same_text(arg, "--endpoint") || same_text(
        arg,
        "--openai-api-base",
    ) || same_text(arg, "--model") || same_text(arg, "-m")
}

/// Where the reading stands after some tokens.
struct Progress {
    globals: Vec<String>,
    jobs_path: Option<String>,
    max_parallel: usize,
    retries: u32,
    json_events: bool,
}

impl Progress {
    /// The settings are those of the tokens read so far, all of them clean.
    spec fn after(self, seen: Seq<Token>) -> bool {
        &&& first_complaint(seen) is None
        &&& text::texts(self.globals@) == handed_on(seen)
        &&& text::opt_text(self.jobs_path) == jobs_file(seen)
        &&& self.max_parallel == parallelism(seen)
        &&& self.retries == retry_limit(seen)
        &&& self.json_events == wants_events(seen)
    }
}

proof fn lemma_events(seen: Seq<Token>, token: Token)
    ensures
        wants_events(seen.push(token)) == (wants_events(seen) || token == Token::Events),
{
    let more = seen.push(token);
    if wants_events(seen) {
        let i = choose|i: int| 0 <= i < seen.len() && seen[i] == Token::Events;
        assert(more[i] == Token::Events);
    }
    if token == Token::Events {
        assert(more[seen.len() as int] == Token::Events);
    }
    if wants_events(more) {
        let i = choose|i: int| 0 <= i < more.len() && more[i] == Token::Events;
        if i < seen.len() {
            assert(seen[i] == Token::Events);
        }
    }
}

/// Takes in a flag with its value.
fn take_valued(progress: &mut Progress, flag: &str, value: &String, seen: Ghost<Seq<Token>>) -> (wrong:
    Option<String>)
    requires
        old(progress).after(seen@),
        takes_value(flag@),
    ensures
        text::opt_text(wrong) == complaint(valued(flag@, value@)),
        wrong is None ==> final(progress).after(seen@.push(valued(flag@, value@))),
{
    let ghost token = valued(flag@, value@);
    proof {
        lemma_events(seen@, token);
        if complaint(token) is None {
            lemma_clean_push(seen@, token);
        }
        assert(seen@.push(token).drop_last() =~= seen@);
        reveal_strlit("--jobs");
        reveal_strlit("--max-parallel");
        reveal_strlit("--retries");
    }
    if same_text(flag, "--jobs") {
        progress.jobs_path = Some(owned(value.as_str()));
    } else if same_text(flag, "--max-parallel") {
        match parse_decimal(value.as_str(), usize::MAX as u64) {
            Some(parsed) => {
                progress.max_parallel = if parsed < 1 {
                    1
                } else if parsed > MAX_PARALLEL_CAP as u64 {
                    MAX_PARALLEL_CAP
                } else {
                    parsed as usize
                };
            },
            None => {
                return Some(owned("Invalid --max-parallel: ").concat(value.as_str()));
            },
        }
    } else if same_text(flag, "--retries") {
        match parse_decimal(value.as_str(), u32::MAX as u64) {
            Some(parsed) => {
                progress.retries = parsed as u32;
            },
            None => {
                return Some(owned("Invalid --retries: ").concat(value.as_str()));
            },
        }
    } else {
        let ghost before = progress.globals@;
        progress.globals.push(owned(flag));
        progress.globals.push(owned(value.as_str()));
        assert(text::texts(progress.globals@) =~= text::texts(before) + seq![flag@, value@]);
    }
    None
}

/// The message for a flag whose value is missing.
fn lacking_value(flag: &str) -> (message: String)
    ensures
        Some(message@) == complaint(Token::Lacking(flag@)),
{
    if same_text(flag, "--jobs") {
        owned("--jobs requires a file path")
    } else if same_text(flag, "--max-parallel") || same_text(flag, "--retries") {
        owned(flag).concat(" requires a number")
    } else {
        owned(flag).concat(" requires a value")
    }
}

/// Reads the arguments of `images fanout`: the flags for the children, the
/// jobs file, how many jobs run side by side, and how often a failed one is run
/// again.
pub fn parse_args(argv: &[String]) -> (parsed: Result<(Vec<String>, String, usize, u32), String>)
    ensures
        match parsed {
            Ok((globals, jobs_path, max_parallel, retries)) => asked(text::texts(argv@)) == Ok::<
                FanoutView,
                Seq<char>,
            >(
                FanoutView {
                    globals: text::texts(globals@),
                    jobs_path: jobs_path@,
                    max_parallel: max_parallel as int,
                    retries: retries as int,
                },
            ),
            Err(message) => asked(text::texts(argv@)) == Err::<FanoutView, Seq<char>>(message@),
        },
{
    let ghost list = args::arguments(text::texts(argv@));
    let ghost mut seen: Seq<Token> = Seq::empty();
    let mut progress: Progress = Progress {
        globals: Vec::new(),
        jobs_path: None,
        max_parallel: DEFAULT_MAX_PARALLEL,
        retries: DEFAULT_RETRIES,
        json_events: false,
    };
    let mut i: usize = 1;
    proof {
        assert(text::texts(progress.globals@) =~= handed_on(seen));
        if argv@.len() > 0 {
            assert(list.skip(0) =~= list);
        }
        assert(seen + tokens(list) =~= tokens(list));
    }
    while i < argv.len()
        invariant
            list == args::arguments(text::texts(argv@)),
            1 <= i,
            argv@.len() > 0 ==> i <= argv@.len() && seen + tokens(list.skip(i - 1)) == tokens(list),
            argv@.len() == 0 ==> seen + tokens(list) == tokens(list) && i == 1,
            progress.after(seen),
        decreases argv@.len() - i,
    {
        let arg: &str = argv[i].as_str();
        let ghost rest = list.skip(i - 1);
        assert(rest[0] == arg@);
        let valued_flag: bool = same_text(arg, "--jobs") || same_text(arg, "--max-parallel")
            || same_text(arg, "--retries") || is_global_flag(arg);
        if valued_flag {
            if i + 1 >= argv.len() {
                proof {
                    lemma_first_wrong(seen, Token::Lacking(arg@), Seq::empty());
                    assert(seq![Token::Lacking(arg@)] + Seq::<Token>::empty() =~= seq![
                        Token::Lacking(arg@),
                    ]);
                }
                return Err(lacking_value(arg));
            }
            let value: &String = &argv[i + 1];
            let ghost token = valued(arg@, value@);
            proof {
                assert(rest[1] == value@);
                assert(rest.skip(2) =~= list.skip(i + 1));
                assert(seen.push(token) + tokens(list.skip(i + 1)) =~= seen + (seq![token]
                    + tokens(list.skip(i + 1))));
            }
            match take_valued(&mut progress, arg, value, Ghost(seen)) {
                Some(message) => {
                    proof {
                        lemma_first_wrong(seen, token, tokens(list.skip(i + 1)));
                    }
                    return Err(message);
                },
                None => {},
            }
            proof {
                seen = seen.push(token);
            }
            i = i + 2;
        } else {
            let ghost token = single(arg@);
            proof {
                assert(rest.skip(1) =~= list.skip(i as int));
                assert(seen.push(token) + tokens(list.skip(i as int)) =~= seen + (seq![token]
                    + tokens(list.skip(i as int))));
                lemma_events(seen, token);
                assert(seen.push(token).drop_last() =~= seen);
            }
            if same_text(arg, "--json-events") {
                progress.json_events = true;
            } else if !same_text(arg, "--json") && begins_with_dash(arg) {
                proof {
                    lemma_first_wrong(seen, token, tokens(list.skip(i as int)));
                }
                return Err(owned("Unknown fanout flag: ").concat(arg));
            }
            proof {
                lemma_clean_push(seen, token);
                seen = seen.push(token);
            }
            i = i + 1;
        }
    }
    proof {
        if argv@.len() > 0 {
            assert(list.skip(i - 1).len() == 0);
        }
        assert(seen + Seq::<Token>::empty() =~= seen);
    }
    let mut globals: Vec<String> = progress.globals;
    if progress.json_events {
        let ghost before = globals@;
        globals.push(owned("--json-events"));
        assert(text::texts(globals@) =~= text::texts(before).push("--json-events"@));
    }
    match progress.jobs_path {
        Some(jobs_path) => Ok((globals, jobs_path, progress.max_parallel, progress.retries)),
        None => Err(owned("images fanout requires --jobs <file.json>")),
    }
}

/// However it is asked for, from one to ten jobs run side by side, and the
/// number of retries fits its type.
pub proof fn asked_settings_in_range(argv: Seq<Seq<char>>)
    ensures
        asked(argv) matches Ok(view) ==> 1 <= view.max_parallel <= MAX_PARALLEL_CAP && 0
            <= view.retries <= u32::MAX,
{
    let list = tokens(args::arguments(argv));
    if first_complaint(list) is None {
        lemma_settings_in_range(list);
    }
}

proof fn lemma_settings_in_range(list: Seq<Token>)
    requires
        first_complaint(list) is None,
    ensures
        1 <= parallelism(list) <= MAX_PARALLEL_CAP,
        0 <= retry_limit(list) <= u32::MAX,
    decreases list.len(),
{
    if list.len() > 0 {
        lemma_clean_parts(list);
        lemma_settings_in_range(list.drop_last());
    }
}

/// In a clean reading every part is clean.
proof fn lemma_clean_parts(list: Seq<Token>)
    requires
        first_complaint(list) is None,
        list.len() > 0,
    ensures
        first_complaint(list.drop_last()) is None,
        complaint(list.last()) is None,
    decreases list.len(),
{
    if list.len() > 1 {
        lemma_clean_parts(list.skip(1));
        assert(list.skip(1).drop_last() =~= list.drop_last().skip(1));
    }
}

/// The reference images of a job: none, one, or a list.
pub enum RefImages {
    Absent,
    One(String),
    Many(Vec<String>),
}

impl RefImages {
    /// The paths that are not empty, in order.
    pub open spec fn spec_paths(self) -> Seq<Seq<char>> {
        (match self {
            RefImages::Absent => Seq::empty(),
            RefImages::One(path) => seq![path@],
            RefImages::Many(list) => text::texts(list@),
        }).filter(|path: Seq<char>| path.len() > 0)
    }

    /// The paths that are not empty, in order.
    pub fn paths(&self) -> (list: Vec<String>)
        ensures
            text::texts(list@) == self.spec_paths(),
    {
        let ghost keep = |path: Seq<char>| path.len() > 0;
        let mut list: Vec<String> = Vec::new();
        match self {
            RefImages::Absent => {
                proof {
                    reveal(Seq::filter);
                    assert(text::texts(list@) =~= self.spec_paths());
                }
            },
            RefImages::One(path) => {
                proof {
                    reveal(Seq::filter);
                    assert(seq![path@].drop_last() =~= Seq::empty());
                }
                if !path.as_str().is_empty() {
                    list.push(owned(path.as_str()));
                }
                proof {
                    reveal_with_fuel(Seq::<_>::filter, 2);
                    assert(text::texts(list@) =~= self.spec_paths());
                }
            },
            RefImages::Many(all) => {
                let ghost names = text::texts(all@);
                let mut i: usize = 0;
                proof {
                    reveal(Seq::filter);
                    assert(text::texts(list@) =~= names.take(0).filter(keep));
                }
                while i < all.len()
                    invariant
                        i <= all@.len(),
                        names == text::texts(all@),
                        keep == (|path: Seq<char>| path.len() > 0),
                        text::texts(list@) == names.take(i as int).filter(keep),
                    decreases all@.len() - i,
                {
                    let ghost before = list@;
                    proof {
                        reveal(Seq::filter);
                        assert(names.take(i + 1).drop_last() =~= names.take(i as int));
                    }
                    if !all[i].as_str().is_empty() {
                        list.push(owned(all[i].as_str()));
                        assert(text::texts(list@) =~= text::texts(before).push(names[i as int]));
                    }
                    i = i + 1;
                }
                assert(names.take(i as int) =~= names);
            },
        }
        list
    }
}

/// One entry of the jobs file.
pub struct FanoutJob {
    pub name: Option<String>,
    pub prompt: String,
    pub ref_image: RefImages,
    pub out: String,
    pub size: Option<String>,
    pub format: Option<String>,
    pub quality: Option<String>,
    pub input_fidelity: Option<String>,
    pub background: Option<String>,
    pub mask: Option<String>,
    pub compression: Option<u8>,
    pub moderation: Option<String>,
}

/// A job that is ready to run: the arguments of its child process, and where
/// its result belongs.
pub struct PreparedJob {
    pub index: usize,
    pub name: String,
    pub out: String,
    pub child_args: Vec<String>,
}

/// A flag with its value, where there is one.
pub open spec fn opt_arg(flag: Seq<char>, value: Option<Seq<char>>) -> Seq<Seq<char>> {
    match value {
        Some(v) => seq![flag, v],
        None => Seq::empty(),
    }
}

/// The reference images as arguments.
pub open spec fn ref_args(refs: Seq<Seq<char>>) -> Seq<Seq<char>>
    decreases refs.len(),
{
    if refs.len() == 0 {
        Seq::empty()
    } else {
        ref_args(refs.drop_last()) + seq!["--ref-image"@, refs.last()]
    }
}

/// The command of a child: an edit where there are reference images.
pub open spec fn child_command(refs: Seq<Seq<char>>) -> Seq<Seq<char>> {
    if refs.len() == 0 {
        seq!["images"@, "generate"@]
    } else {
        seq!["images"@, "edit"@] + ref_args(refs)
    }
}

/// The arguments of a job's child process.
pub open spec fn child_arguments(job: FanoutJob, globals: Seq<Seq<char>>) -> Seq<Seq<char>> {
    seq!["--json"@] + globals + child_command(job.ref_image.spec_paths()) + seq![
        "--prompt"@,
        job.prompt@,
        "--out"@,
        job.out@,
    ] + opt_arg("--size"@, text::opt_text(job.size)) + opt_arg(
        "--format"@,
        text::opt_text(job.format),
    ) + opt_arg("--quality"@, text::opt_text(job.quality)) + opt_arg(
        "--input-fidelity"@,
        text::opt_text(job.input_fidelity),
    ) + opt_arg("--background"@, text::opt_text(job.background)) + opt_arg(
        "--mask"@,
        text::opt_text(job.mask),
    ) + opt_arg("--moderation"@, text::opt_text(job.moderation)) + opt_arg(
        "--compression"@,
        match job.compression {
            Some(level) => Some(text::decimal(level as nat)),
            None => None,
        },
    )
}

/// Why a job is refused, if it is.
pub open spec fn refusal(index: int, job: FanoutJob) -> Option<Seq<char>> {
    if text::trimmed(job.prompt@).len() == 0 {
        Some("Job "@ + text::decimal(index as nat) + " is missing prompt."@)
    } else if text::trimmed(job.out@).len() == 0 {
        Some("Job "@ + text::decimal(index as nat) + " is missing out."@)
    } else {
        None
    }
}

/// The name of a job: its own, or that of the file it writes.
pub open spec fn job_name(own: Option<Seq<char>>, file_name: Option<Seq<char>>) -> Seq<char> {
    match (own, file_name) {
        (Some(name), _) => name,
        (None, Some(name)) => name,
        (None, None) => "job"@,
    }
}

impl PreparedJob {
    /// Whether this is `job` made ready, where its output has the file name
    /// `file_name`.
    pub open spec fn readies(
        self,
        index: int,
        job: FanoutJob,
        globals: Seq<Seq<char>>,
        file_name: Option<Seq<char>>,
    ) -> bool {
        &&& self.index == index
        &&& self.name@ == job_name(text::opt_text(job.name), file_name)
        &&& self.out@ == job.out@
        &&& text::texts(self.child_args@) == child_arguments(job, globals)
    }
}

/// What is the same on every system about the file name of an output.
pub open spec fn names_output(out: Seq<char>, file_name: Option<Seq<char>>) -> bool {
    paths::names(file_name, out)
}

impl PreparedJob {
    /// Whether this is `job` made ready.
    pub open spec fn made_from(self, index: int, job: FanoutJob, globals: Seq<Seq<char>>) -> bool {
        exists|file_name: Option<Seq<char>>| #[trigger]
            names_output(job.out@, file_name) && self.readies(index, job, globals, file_name)
    }
}

/// Adds a flag and its value, where there is one.
pub fn push_opt(list: &mut Vec<String>, flag: &str, value: &Option<String>)
    ensures
        text::texts(final(list)@) == text::texts(old(list)@) + opt_arg(
            flag@,
            text::opt_text(*value),
        ),
{
    let ghost before = list@;
    if let Some(value) = value {
        list.push(owned(flag));
        list.push(owned(value.as_str()));
    }
    assert(text::texts(list@) =~= text::texts(before) + opt_arg(flag@, text::opt_text(*value)));
}

fn push_text(list: &mut Vec<String>, arg: &str)
    ensures
        text::texts(final(list)@) == text::texts(old(list)@) + seq![arg@],
{
    let ghost before = list@;
    list.push(owned(arg));
    assert(text::texts(list@) =~= text::texts(before) + seq![arg@]);
}

/// The arguments of a job's child process.
fn child_args(job: &FanoutJob, globals: &[String]) -> (list: Vec<String>)
    ensures
        text::texts(list@) == child_arguments(*job, text::texts(globals@)),
{
    let refs: Vec<String> = job.ref_image.paths();
    let mut list: Vec<String> = Vec::new();
    assert(text::texts(list@) =~= Seq::<Seq<char>>::empty());
    push_text(&mut list, "--json");
    let ghost names = text::texts(globals@);
    let ghost start = text::texts(list@);
    let mut i: usize = 0;
    assert(start =~= start + names.take(0));
    while i < globals.len()
        invariant
            i <= globals@.len(),
            names == text::texts(globals@),
            text::texts(list@) == start + names.take(i as int),
        decreases globals@.len() - i,
    {
        push_text(&mut list, globals[i].as_str());
        assert(start + names.take(i as int) + seq![names[i as int]] =~= start + names.take(i + 1));
        i = i + 1;
    }
    assert(names.take(i as int) =~= names);
    let ghost before = text::texts(list@);
    let ghost paths = text::texts(refs@);
    push_text(&mut list, "images");
    if refs.len() == 0 {
        push_text(&mut list, "generate");
        assert(text::texts(list@) =~= before + child_command(paths));
    } else {
        push_text(&mut list, "edit");
        let ghost command = text::texts(list@);
        let mut k: usize = 0;
        assert(command =~= command + ref_args(paths.take(0)));
        while k < refs.len()
            invariant
                k <= refs@.len(),
                paths == text::texts(refs@),
                text::texts(list@) == command + ref_args(paths.take(k as int)),
            decreases refs@.len() - k,
        {
            let ghost upto = text::texts(list@);
            push_text(&mut list, "--ref-image");
            push_text(&mut list, refs[k].as_str());
            proof {
                assert(paths.take(k + 1).drop_last() =~= paths.take(k as int));
                assert(text::texts(list@) =~= command + ref_args(paths.take(k + 1)));
            }
            k = k + 1;
        }
        assert(paths.take(k as int) =~= paths);
        assert(text::texts(list@) =~= before + child_command(paths));
    }
    let ghost middle = text::texts(list@);
    push_text(&mut list, "--prompt");
    push_text(&mut list, job.prompt.as_str());
    push_text(&mut list, "--out");
    push_text(&mut list, job.out.as_str());
    assert(text::texts(list@) =~= middle + seq!["--prompt"@, job.prompt@, "--out"@, job.out@]);
    push_opt(&mut list, "--size", &job.size);
    push_opt(&mut list, "--format", &job.format);
    push_opt(&mut list, "--quality", &job.quality);
    push_opt(&mut list, "--input-fidelity", &job.input_fidelity);
    push_opt(&mut list, "--background", &job.background);
    push_opt(&mut list, "--mask", &job.mask);
    push_opt(&mut list, "--moderation", &job.moderation);
    let level: Option<String> = match job.compression {
        Some(level) => Some(decimal_text(level as u64)),
        None => None,
    };
    push_opt(&mut list, "--compression", &level);
    list
}

/// Makes a job ready, given the file name of its output.
pub fn prepare_named(
    index: usize,
    job: &FanoutJob,
    globals: &[String],
    file_name: Option<String>,
) -> (prepared: Result<PreparedJob, String>)
    ensures
        match prepared {
            Ok(ready) => refusal(index as int, *job) is None && ready.readies(
                index as int,
                *job,
                text::texts(globals@),
                text::opt_text(file_name),
            ),
            Err(message) => refusal(index as int, *job) == Some(message@),
        },
{
    if trim(job.prompt.as_str()).is_empty() {
        let number: String = decimal_text(index as u64);
        return Err(owned("Job ").concat(number.as_str()).concat(" is missing prompt."));
    }
    if trim(job.out.as_str()).is_empty() {
        let number: String = decimal_text(index as u64);
        return Err(owned("Job ").concat(number.as_str()).concat(" is missing out."));
    }
    let name: String = match (copy_opt(&job.name), file_name) {
        (Some(name), _) => name,
        (None, Some(name)) => name,
        (None, None) => owned("job"),
    };
    Ok(
        PreparedJob {
            index,
            name,
            out: owned(job.out.as_str()),
            child_args: child_args(job, globals),
        },
    )
}

/// Makes a job ready. A job without a name is named after the file that it
/// writes.
pub fn prepare_job(index: usize, job: &FanoutJob, globals: &[String]) -> (prepared: Result<
    PreparedJob,
    String,
>)
    ensures
        match prepared {
            Ok(ready) => refusal(index as int, *job) is None && ready.made_from(
                index as int,
                *job,
                text::texts(globals@),
            ),
            Err(message) => refusal(index as int, *job) == Some(message@),
        },
{
    let file_name: Option<String> = paths::file_name(job.out.as_str());
    assert(names_output(job.out@, text::opt_text(file_name)));
    prepare_named(index, job, globals, file_name)
}

/// Why a whole jobs file is refused, if it is: it is empty, or some job in it
/// is refused, and then the first such job says why.
pub open spec fn batch_refusal(jobs: Seq<FanoutJob>) -> Option<Seq<char>> {
    if jobs.len() == 0 {
        Some("Jobs file is empty."@)
    } else {
        first_refusal(jobs, 0)
    }
}

/// Why the first refused job from place `from` on is refused.
pub open spec fn first_refusal(jobs: Seq<FanoutJob>, from: int) -> Option<Seq<char>>
    decreases jobs.len() - from,
{
    if from < 0 || from >= jobs.len() {
        None
    } else if refusal(from, jobs[from]) is Some {
        refusal(from, jobs[from])
    } else {
        first_refusal(jobs, from + 1)
    }
}

/// Makes all jobs of a jobs file ready, or says why none is run.
pub fn prepare_batch(jobs: &[FanoutJob], globals: &[String]) -> (prepared: Result<
    Vec<PreparedJob>,
    String,
>)
    ensures
        match prepared {
            Ok(ready) => {
                &&& batch_refusal(jobs@) is None
                &&& ready@.len() == jobs@.len()
                &&& forall|i: int|
                    0 <= i < jobs@.len() ==> (#[trigger] ready@[i]).made_from(
                        i,
                        jobs@[i],
                        text::texts(globals@),
                    )
            },
            Err(message) => batch_refusal(jobs@) == Some(message@),
        },
{
    if jobs.len() == 0 {
        return Err(owned("Jobs file is empty."));
    }
    let mut ready: Vec<PreparedJob> = Vec::new();
    let mut i: usize = 0;
    while i < jobs.len()
        invariant
            0 < jobs@.len(),
            i <= jobs@.len(),
            ready@.len() == i,
            batch_refusal(jobs@) == first_refusal(jobs@, i as int),
            forall|k: int|
                0 <= k < i ==> (#[trigger] ready@[k]).made_from(
                    k,
                    jobs@[k],
                    text::texts(globals@),
                ),
        decreases jobs@.len() - i,
    {
        match prepare_job(i, &jobs[i], globals) {
            Ok(job) => {
                ready.push(job);
            },
            Err(message) => {
                return Err(message);
            },
        }
        i = i + 1;
    }
    Ok(ready)
}

/// The message for a file that cannot be read.
pub fn unreadable(path: &str, error: &str) -> (message: String)
    ensures
        message@ == "Unable to read "@ + path@ + ": "@ + error@,
{
    owned("Unable to read ").concat(path).concat(": ").concat(error)
}

/// The message for a jobs file that is not a list of jobs.
pub fn not_a_job_list(error: &str) -> (message: String)
    ensures
        message@ == "Jobs file must be a JSON array: "@ + error@,
{
    owned("Jobs file must be a JSON array: ").concat(error)
}

/// What a fanout that could not be carried out replies.
pub open spec fn fanout_failure(message: Seq<char>) -> JsonView {
    JsonView::Object(
        map![
            "ok"@ => JsonView::Bool(false),
            "command"@ => JsonView::Str("images fanout"@),
            "error"@ => tasks::error_entry("fanout_failed"@, message),
        ],
    )
}

/// The reply to `images fanout`: the report, or why there is none. The status
/// is zero only if the report says that all went well.
pub fn dispatch(outcome: Result<Json, String>) -> (reply: Reply)
    ensures
        match outcome {
            Ok(payload) => reply.shows(
                payload@,
                "{\"ok\":false}"@,
                if payload@.true_at("ok"@) {
                    0
                } else {
                    1
                },
            ),
            Err(message) => reply.shows(fanout_failure(message@), ""@, 1),
        },
{
    match outcome {
        Ok(payload) => {
            let code: i32 = if payload.is_true_at("ok") {
                0
            } else {
                1
            };
            Reply::new(&payload, "{\"ok\":false}", code)
        },
        Err(message) => {
            let payload: Json = Json::object().with("ok", Json::Bool(false)).with(
                "command",
                Json::text("images fanout"),
            ).with("error", tasks::error_json("fanout_failed", message.as_str()));
            Reply::new(&payload, "", 1)
        },
    }
}

} // verus!
