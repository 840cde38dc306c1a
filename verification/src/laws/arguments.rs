//! What the arguments of commands and of children promise.

use vstd::prelude::*;
use crate::args;
use crate::fanout;
use crate::fanout::{FanoutJob, FanoutView, PreparedJob, RefImages, Token};
use crate::jobs;
use crate::jobs::Ask;
use crate::laws::words;
use crate::paths;
use crate::text;

verus! {

/// The flags of a fanout differ.
proof fn lemma_fanout_flags()
    ensures
        "--jobs"@ != "--max-parallel"@,
        "--jobs"@ != "--retries"@,
        "--jobs"@ != "--provider"@,
        "--jobs"@ != "--api-key"@,
        "--jobs"@ != "--config"@,
        "--jobs"@ != "--auth-file"@,
        "--jobs"@ != "--endpoint"@,
        "--jobs"@ != "--openai-api-base"@,
        "--jobs"@ != "--model"@,
        "--jobs"@ != "-m"@,
        "--jobs"@ != "--json"@,
        "--jobs"@ != "--json-events"@,
        "--max-parallel"@ != "--retries"@,
        "--max-parallel"@ != "--provider"@,
        "--max-parallel"@ != "--api-key"@,
        "--max-parallel"@ != "--config"@,
        "--max-parallel"@ != "--auth-file"@,
        "--max-parallel"@ != "--endpoint"@,
        "--max-parallel"@ != "--openai-api-base"@,
        "--max-parallel"@ != "--model"@,
        "--max-parallel"@ != "-m"@,
        "--max-parallel"@ != "--json"@,
        "--max-parallel"@ != "--json-events"@,
        "--retries"@ != "--provider"@,
        "--retries"@ != "--api-key"@,
        "--retries"@ != "--config"@,
        "--retries"@ != "--auth-file"@,
        "--retries"@ != "--endpoint"@,
        "--retries"@ != "--openai-api-base"@,
        "--retries"@ != "--model"@,
        "--retries"@ != "-m"@,
        "--retries"@ != "--json"@,
        "--retries"@ != "--json-events"@,
        "--provider"@ != "--api-key"@,
        "--provider"@ != "--config"@,
        "--provider"@ != "--auth-file"@,
        "--provider"@ != "--endpoint"@,
        "--provider"@ != "--openai-api-base"@,
        "--provider"@ != "--model"@,
        "--provider"@ != "-m"@,
        "--provider"@ != "--json"@,
        "--provider"@ != "--json-events"@,
        "--api-key"@ != "--config"@,
        "--api-key"@ != "--auth-file"@,
        "--api-key"@ != "--endpoint"@,
        "--api-key"@ != "--openai-api-base"@,
        "--api-key"@ != "--model"@,
        "--api-key"@ != "-m"@,
        "--api-key"@ != "--json"@,
        "--api-key"@ != "--json-events"@,
        "--config"@ != "--auth-file"@,
        "--config"@ != "--endpoint"@,
        "--config"@ != "--openai-api-base"@,
        "--config"@ != "--model"@,
        "--config"@ != "-m"@,
        "--config"@ != "--json"@,
        "--config"@ != "--json-events"@,
        "--auth-file"@ != "--endpoint"@,
        "--auth-file"@ != "--openai-api-base"@,
        "--auth-file"@ != "--model"@,
        "--auth-file"@ != "-m"@,
        "--auth-file"@ != "--json"@,
        "--auth-file"@ != "--json-events"@,
        "--endpoint"@ != "--openai-api-base"@,
        "--endpoint"@ != "--model"@,
        "--endpoint"@ != "-m"@,
        "--endpoint"@ != "--json"@,
        "--endpoint"@ != "--json-events"@,
        "--openai-api-base"@ != "--model"@,
        "--openai-api-base"@ != "-m"@,
        "--openai-api-base"@ != "--json"@,
        "--openai-api-base"@ != "--json-events"@,
        "--model"@ != "-m"@,
        "--model"@ != "--json"@,
        "--model"@ != "--json-events"@,
        "-m"@ != "--json"@,
        "-m"@ != "--json-events"@,
        "--json"@ != "--json-events"@,
{
    reveal_strlit("--jobs");
    reveal_strlit("--max-parallel");
    reveal_strlit("--retries");
    reveal_strlit("--provider");
    reveal_strlit("--api-key");
    reveal_strlit("--config");
    reveal_strlit("--auth-file");
    reveal_strlit("--endpoint");
    reveal_strlit("--openai-api-base");
    reveal_strlit("--model");
    reveal_strlit("-m");
    reveal_strlit("--json");
    reveal_strlit("--json-events");
    assert("--jobs"@.len() != "--max-parallel"@.len());
    assert("--jobs"@.len() != "--retries"@.len());
    assert("--jobs"@.len() != "--provider"@.len());
    assert("--jobs"@.len() != "--api-key"@.len());
    assert("--jobs"@.len() != "--config"@.len());
    assert("--jobs"@.len() != "--auth-file"@.len());
    assert("--jobs"@.len() != "--endpoint"@.len());
    assert("--jobs"@.len() != "--openai-api-base"@.len());
    assert("--jobs"@.len() != "--model"@.len());
    assert("--jobs"@.len() != "-m"@.len());
    assert("--jobs"@[3] != "--json"@[3]);
    assert("--jobs"@.len() != "--json-events"@.len());
    assert("--max-parallel"@.len() != "--retries"@.len());
    assert("--max-parallel"@.len() != "--provider"@.len());
    assert("--max-parallel"@.len() != "--api-key"@.len());
    assert("--max-parallel"@.len() != "--config"@.len());
    assert("--max-parallel"@.len() != "--auth-file"@.len());
    assert("--max-parallel"@.len() != "--endpoint"@.len());
    assert("--max-parallel"@.len() != "--openai-api-base"@.len());
    assert("--max-parallel"@.len() != "--model"@.len());
    assert("--max-parallel"@.len() != "-m"@.len());
    assert("--max-parallel"@.len() != "--json"@.len());
    assert("--max-parallel"@.len() != "--json-events"@.len());
    assert("--retries"@.len() != "--provider"@.len());
    assert("--retries"@[2] != "--api-key"@[2]);
    assert("--retries"@.len() != "--config"@.len());
    assert("--retries"@.len() != "--auth-file"@.len());
    assert("--retries"@.len() != "--endpoint"@.len());
    assert("--retries"@.len() != "--openai-api-base"@.len());
    assert("--retries"@.len() != "--model"@.len());
    assert("--retries"@.len() != "-m"@.len());
    assert("--retries"@.len() != "--json"@.len());
    assert("--retries"@.len() != "--json-events"@.len());
    assert("--provider"@.len() != "--api-key"@.len());
    assert("--provider"@.len() != "--config"@.len());
    assert("--provider"@.len() != "--auth-file"@.len());
    assert("--provider"@[2] != "--endpoint"@[2]);
    assert("--provider"@.len() != "--openai-api-base"@.len());
    assert("--provider"@.len() != "--model"@.len());
    assert("--provider"@.len() != "-m"@.len());
    assert("--provider"@.len() != "--json"@.len());
    assert("--provider"@.len() != "--json-events"@.len());
    assert("--api-key"@.len() != "--config"@.len());
    assert("--api-key"@.len() != "--auth-file"@.len());
    assert("--api-key"@.len() != "--endpoint"@.len());
    assert("--api-key"@.len() != "--openai-api-base"@.len());
    assert("--api-key"@.len() != "--model"@.len());
    assert("--api-key"@.len() != "-m"@.len());
    assert("--api-key"@.len() != "--json"@.len());
    assert("--api-key"@.len() != "--json-events"@.len());
    assert("--config"@.len() != "--auth-file"@.len());
    assert("--config"@.len() != "--endpoint"@.len());
    assert("--config"@.len() != "--openai-api-base"@.len());
    assert("--config"@.len() != "--model"@.len());
    assert("--config"@.len() != "-m"@.len());
    assert("--config"@.len() != "--json"@.len());
    assert("--config"@.len() != "--json-events"@.len());
    assert("--auth-file"@.len() != "--endpoint"@.len());
    assert("--auth-file"@.len() != "--openai-api-base"@.len());
    assert("--auth-file"@.len() != "--model"@.len());
    assert("--auth-file"@.len() != "-m"@.len());
    assert("--auth-file"@.len() != "--json"@.len());
    assert("--auth-file"@.len() != "--json-events"@.len());
    assert("--endpoint"@.len() != "--openai-api-base"@.len());
    assert("--endpoint"@.len() != "--model"@.len());
    assert("--endpoint"@.len() != "-m"@.len());
    assert("--endpoint"@.len() != "--json"@.len());
    assert("--endpoint"@.len() != "--json-events"@.len());
    assert("--openai-api-base"@.len() != "--model"@.len());
    assert("--openai-api-base"@.len() != "-m"@.len());
    assert("--openai-api-base"@.len() != "--json"@.len());
    assert("--openai-api-base"@.len() != "--json-events"@.len());
    assert("--model"@.len() != "-m"@.len());
    assert("--model"@.len() != "--json"@.len());
    assert("--model"@.len() != "--json-events"@.len());
    assert("-m"@.len() != "--json"@.len());
    assert("-m"@.len() != "--json-events"@.len());
    assert("--json"@.len() != "--json-events"@.len());
}

/// The flags of a fanout begin with a dash.
proof fn lemma_fanout_dashes()
    ensures
        text::is_flag("--jobs"@),
        text::is_flag("--max-parallel"@),
        text::is_flag("--retries"@),
        text::is_flag("--provider"@),
        text::is_flag("--api-key"@),
        text::is_flag("--config"@),
        text::is_flag("--auth-file"@),
        text::is_flag("--endpoint"@),
        text::is_flag("--openai-api-base"@),
        text::is_flag("--model"@),
        text::is_flag("-m"@),
        text::is_flag("--json"@),
        text::is_flag("--json-events"@),
{
    reveal_strlit("--jobs");
    assert("--jobs"@[0] == '-');
    reveal_strlit("--max-parallel");
    assert("--max-parallel"@[0] == '-');
    reveal_strlit("--retries");
    assert("--retries"@[0] == '-');
    reveal_strlit("--provider");
    assert("--provider"@[0] == '-');
    reveal_strlit("--api-key");
    assert("--api-key"@[0] == '-');
    reveal_strlit("--config");
    assert("--config"@[0] == '-');
    reveal_strlit("--auth-file");
    assert("--auth-file"@[0] == '-');
    reveal_strlit("--endpoint");
    assert("--endpoint"@[0] == '-');
    reveal_strlit("--openai-api-base");
    assert("--openai-api-base"@[0] == '-');
    reveal_strlit("--model");
    assert("--model"@[0] == '-');
    reveal_strlit("-m");
    assert("-m"@[0] == '-');
    reveal_strlit("--json");
    assert("--json"@[0] == '-');
    reveal_strlit("--json-events");
    assert("--json-events"@[0] == '-');
}

/// Arguments that are read to their end without a fault are read the same
/// whatever follows.
proof fn lemma_tokens_append(a: Seq<Seq<char>>, b: Seq<Seq<char>>)
    requires
        fanout::first_complaint(fanout::tokens(a)) is None,
    ensures
        fanout::tokens(a + b) == fanout::tokens(a) + fanout::tokens(b),
    decreases a.len(),
{
    if a.len() == 0 {
        assert(a + b =~= b);
        assert(fanout::tokens(a) + fanout::tokens(b) =~= fanout::tokens(b));
    } else {
        let list = fanout::tokens(a);
        assert((a + b)[0] == a[0]);
        if !fanout::takes_value(a[0]) {
            let rest = a.skip(1);
            assert(list.skip(1) =~= fanout::tokens(rest));
            assert((a + b).skip(1) =~= rest + b);
            lemma_tokens_append(rest, b);
            assert(fanout::tokens(a + b) =~= list + fanout::tokens(b));
        } else {
            assert(a.len() > 1) by {
                if a.len() == 1 {
                    assert(list[0] == Token::Lacking(a[0]));
                }
            }
            let rest = a.skip(2);
            assert((a + b)[1] == a[1]);
            assert(list.skip(1) =~= fanout::tokens(rest));
            assert((a + b).skip(2) =~= rest + b);
            lemma_tokens_append(rest, b);
            assert(fanout::tokens(a + b) =~= list + fanout::tokens(b));
        }
    }
}

/// One more flag with its value.
proof fn lemma_one_more(argv: Seq<Seq<char>>, flag: Seq<char>, value: Seq<char>)
    requires
        argv.len() > 0,
        fanout::asked(argv) is Ok,
        fanout::takes_value(flag),
    ensures
        ({
            let before = fanout::tokens(args::arguments(argv));
            let after = fanout::tokens(args::arguments(argv + seq![flag, value]));
            let token = fanout::valued(flag, value);
            &&& fanout::first_complaint(before) is None
            &&& after == before.push(token)
            &&& after.drop_last() == before
            &&& fanout::complaint(token) is None ==> fanout::first_complaint(after) is None
            &&& fanout::complaint(token) is Some ==> fanout::first_complaint(after)
                == fanout::complaint(token)
            &&& token != Token::Events ==> fanout::wants_events(after) == fanout::wants_events(
                before,
            )
        }),
{
    let list = args::arguments(argv);
    let pair = seq![flag, value];
    let before = fanout::tokens(list);
    let token = fanout::valued(flag, value);
    let none: Seq<Token> = Seq::empty();
    assert(args::arguments(argv + pair) =~= list + pair);
    lemma_tokens_append(list, pair);
    assert(pair.skip(2) =~= Seq::empty());
    assert(fanout::tokens(pair.skip(2)) =~= none);
    assert(fanout::tokens(pair) =~= seq![token]);
    assert(before + seq![token] =~= before.push(token));
    assert(before.push(token).drop_last() =~= before);
    if fanout::complaint(token) is None {
        fanout::lemma_clean_push(before, token);
    } else {
        fanout::lemma_first_wrong(before, token, none);
        assert(before + (seq![token] + none) =~= before.push(token));
    }
    if token != Token::Events {
        lemma_events_kept(before, token);
    }
}

proof fn lemma_events_kept(before: Seq<Token>, token: Token)
    requires
        token != Token::Events,
    ensures
        fanout::wants_events(before.push(token)) == fanout::wants_events(before),
{
    let after = before.push(token);
    if fanout::wants_events(before) {
        let k = choose|k: int| 0 <= k < before.len() && before[k] == Token::Events;
        assert(after[k] == Token::Events);
    }
    if fanout::wants_events(after) {
        let k = choose|k: int| 0 <= k < after.len() && after[k] == Token::Events;
        assert(before[k] == Token::Events);
    }
}

/// One more argument without a value.
proof fn lemma_one_word(argv: Seq<Seq<char>>, arg: Seq<char>)
    requires
        argv.len() > 0,
        fanout::asked(argv) is Ok,
    ensures
        ({
            let before = fanout::tokens(args::arguments(argv));
            let after = fanout::tokens(args::arguments(argv.push(arg)));
            let token = if fanout::takes_value(arg) {
                Token::Lacking(arg)
            } else {
                fanout::single(arg)
            };
            &&& fanout::first_complaint(before) is None
            &&& after == before.push(token)
            &&& after.drop_last() == before
            &&& fanout::complaint(token) is None ==> fanout::first_complaint(after) is None
            &&& fanout::complaint(token) is Some ==> fanout::first_complaint(after)
                == fanout::complaint(token)
            &&& token != Token::Events ==> fanout::wants_events(after) == fanout::wants_events(
                before,
            )
            &&& token == Token::Events ==> fanout::wants_events(after)
        }),
{
    let list = args::arguments(argv);
    let one = seq![arg];
    let before = fanout::tokens(list);
    let token = if fanout::takes_value(arg) {
        Token::Lacking(arg)
    } else {
        fanout::single(arg)
    };
    let none: Seq<Token> = Seq::empty();
    assert(args::arguments(argv.push(arg)) =~= list + one);
    lemma_tokens_append(list, one);
    assert(one.skip(1) =~= Seq::empty());
    assert(fanout::tokens(one.skip(1)) =~= none);
    assert(fanout::tokens(one) =~= seq![token]);
    assert(before + seq![token] =~= before.push(token));
    assert(before.push(token).drop_last() =~= before);
    if fanout::complaint(token) is None {
        fanout::lemma_clean_push(before, token);
    } else {
        fanout::lemma_first_wrong(before, token, none);
        assert(before + (seq![token] + none) =~= before.push(token));
    }
    if token != Token::Events {
        lemma_events_kept(before, token);
    } else {
        assert(before.push(token)[before.len() as int] == Token::Events);
    }
}

/// A batch needs a jobs file; with nothing else said, ten jobs run side by side
/// and each may be run twice again.
pub proof fn a_batch_has_defaults(program: Seq<char>, path: Seq<char>)
    ensures
        fanout::asked(seq![program]) == Err::<FanoutView, Seq<char>>(
            "images fanout requires --jobs <file.json>"@,
        ),
        ({
            let argv = seq![program, "--jobs"@, path];
            &&& fanout::asked(argv) is Ok
            &&& fanout::asked(argv)->Ok_0.jobs_path == path
            &&& fanout::asked(argv)->Ok_0.max_parallel == 10
            &&& fanout::asked(argv)->Ok_0.retries == 2
            &&& fanout::asked(argv)->Ok_0.globals.len() == 0
        }),
{
    lemma_fanout_flags();
    let none: Seq<Token> = Seq::empty();
    assert(args::arguments(seq![program]) =~= Seq::empty());
    assert(fanout::tokens(args::arguments(seq![program])) =~= none);
    let list = args::arguments(seq![program, "--jobs"@, path]);
    assert(list =~= seq!["--jobs"@, path]);
    assert(list.skip(2) =~= Seq::empty());
    assert(fanout::tokens(list.skip(2)) =~= none);
    let tokens = fanout::tokens(list);
    assert(tokens =~= seq![Token::Jobs(path)]);
    assert(tokens.drop_last() =~= none);
    assert(tokens.skip(1) =~= none);
    assert(fanout::first_complaint(none) is None);
    assert(fanout::parallelism(none) == 10);
    assert(fanout::retry_limit(none) == 2);
    assert(fanout::handed_on(none).len() == 0);
    assert(!fanout::wants_events(tokens)) by {
        assert forall|k: int| 0 <= k < tokens.len() implies tokens[k] != Token::Events by {}
    }
}

/// A later jobs file takes the place of an earlier one and changes nothing else.
pub proof fn the_last_jobs_file_counts(argv: Seq<Seq<char>>, path: Seq<char>)
    requires
        argv.len() > 0,
        fanout::asked(argv) is Ok,
    ensures
        fanout::asked(argv + seq!["--jobs"@, path]) == Ok::<FanoutView, Seq<char>>(
            FanoutView { jobs_path: path, ..fanout::asked(argv)->Ok_0 },
        ),
{
    lemma_fanout_flags();
    lemma_one_more(argv, "--jobs"@, path);
}

/// A later number of retries takes the place of an earlier one, if it is a
/// number of its kind; else the arguments are refused, whatever follows.
pub proof fn the_last_retries_count(
    argv: Seq<Seq<char>>,
    value: Seq<char>,
    rest: Seq<Seq<char>>,
)
    requires
        argv.len() > 0,
        fanout::asked(argv) is Ok,
    ensures
        text::decimal_value(value) is Some && text::decimal_value(value)->0 <= u32::MAX
            ==> fanout::asked(argv + seq!["--retries"@, value]) == Ok::<FanoutView, Seq<char>>(
            FanoutView {
                retries: text::decimal_value(value)->0 as int,
                ..fanout::asked(argv)->Ok_0
            },
        ),
        text::decimal_value(value) is None || text::decimal_value(value)->0 > u32::MAX
            ==> fanout::asked(argv + seq!["--retries"@, value] + rest) == Err::<
            FanoutView,
            Seq<char>,
        >("Invalid --retries: "@ + value),
{
    lemma_fanout_flags();
    lemma_one_more(argv, "--retries"@, value);
    if text::decimal_value(value) is None || text::decimal_value(value)->0 > u32::MAX {
        lemma_fault_stays(argv, "--retries"@, value, rest);
    }
}

/// A later number of jobs side by side takes the place of an earlier one, never
/// less than one nor more than ten, if it is a number; else the arguments are
/// refused, whatever follows.
pub proof fn the_last_parallelism_counts(
    argv: Seq<Seq<char>>,
    value: Seq<char>,
    rest: Seq<Seq<char>>,
)
    requires
        argv.len() > 0,
        fanout::asked(argv) is Ok,
    ensures
        text::decimal_value(value) is Some && text::decimal_value(value)->0 <= usize::MAX ==> ({
            let n = text::decimal_value(value)->0 as int;
            let asked = fanout::asked(argv + seq!["--max-parallel"@, value]);
            let side_by_side = asked->Ok_0.max_parallel;
            &&& asked is Ok
            &&& 1 <= n <= 10 ==> side_by_side == n
            &&& n == 0 ==> side_by_side == 1
            &&& n > 10 ==> side_by_side == 10
            &&& asked->Ok_0 == (FanoutView {
                max_parallel: side_by_side,
                ..fanout::asked(argv)->Ok_0
            })
        }),
        text::decimal_value(value) is None || text::decimal_value(value)->0 > usize::MAX
            ==> fanout::asked(argv + seq!["--max-parallel"@, value] + rest) == Err::<
            FanoutView,
            Seq<char>,
        >("Invalid --max-parallel: "@ + value),
{
    lemma_fanout_flags();
    lemma_one_more(argv, "--max-parallel"@, value);
    if text::decimal_value(value) is None || text::decimal_value(value)->0 > usize::MAX {
        lemma_fault_stays(argv, "--max-parallel"@, value, rest);
    }
}

/// A fault is answered before anything behind it.
proof fn lemma_fault_stays(
    argv: Seq<Seq<char>>,
    flag: Seq<char>,
    value: Seq<char>,
    rest: Seq<Seq<char>>,
)
    requires
        argv.len() > 0,
        fanout::asked(argv) is Ok,
        fanout::takes_value(flag),
        fanout::complaint(fanout::valued(flag, value)) is Some,
    ensures
        fanout::asked(argv + seq![flag, value] + rest) == Err::<FanoutView, Seq<char>>(
            fanout::complaint(fanout::valued(flag, value))->0,
        ),
{
    let list = args::arguments(argv);
    let more = seq![flag, value] + rest;
    let token = fanout::valued(flag, value);
    assert(args::arguments(argv + seq![flag, value] + rest) =~= list + more);
    lemma_tokens_append(list, more);
    assert(more[0] == flag && more[1] == value);
    assert(more.skip(2) =~= rest);
    assert(fanout::tokens(more) =~= seq![token] + fanout::tokens(rest));
    fanout::lemma_first_wrong(fanout::tokens(list), token, fanout::tokens(rest));
}

/// The eight flags that choose how images are made are handed on with their
/// values, in their order, before the wish for events; they change nothing else.
pub proof fn eight_flags_are_handed_on(argv: Seq<Seq<char>>, flag: Seq<char>, value: Seq<char>)
    requires
        argv.len() > 0,
        fanout::asked(argv) is Ok,
        flag == "--provider"@
            || flag == "--api-key"@
            || flag == "--config"@
            || flag == "--auth-file"@
            || flag == "--endpoint"@
            || flag == "--openai-api-base"@
            || flag == "--model"@
            || flag == "-m"@,
    ensures
        ({
            let old = fanout::asked(argv)->Ok_0;
            let asked = fanout::asked(argv + seq![flag, value]);
            let new = asked->Ok_0;
            &&& asked is Ok
            &&& new.jobs_path == old.jobs_path
            &&& new.max_parallel == old.max_parallel
            &&& new.retries == old.retries
            &&& new.globals == old.globals + seq![flag, value] || (old.globals.len() > 0
                && old.globals.last() == "--json-events"@ && new.globals == old.globals.drop_last()
                + seq![flag, value, "--json-events"@])
        }),
{
    lemma_fanout_flags();
    lemma_one_more(argv, flag, value);
    let before = fanout::tokens(args::arguments(argv));
    let passed = fanout::handed_on(before);
    if fanout::wants_events(before) {
        let old = passed.push("--json-events"@);
        assert(old.drop_last() =~= passed);
        assert((passed + seq![flag, value]).push("--json-events"@) =~= passed + seq![
            flag,
            value,
            "--json-events"@,
        ]);
    }
}

/// The wish for events is handed on last, once; the wish for JSON and plain
/// words change nothing.
pub proof fn words_change_nothing(argv: Seq<Seq<char>>, word: Seq<char>)
    requires
        argv.len() > 0,
        fanout::asked(argv) is Ok,
    ensures
        !(word.len() > 0 && word[0] == '-') ==> fanout::asked(argv.push(word)) == fanout::asked(
            argv,
        ),
        fanout::asked(argv.push("--json"@)) == fanout::asked(argv),
        ({
            let old = fanout::asked(argv)->Ok_0;
            let asked = fanout::asked(argv.push("--json-events"@));
            let new = asked->Ok_0;
            &&& asked is Ok
            &&& new.jobs_path == old.jobs_path
            &&& new.max_parallel == old.max_parallel
            &&& new.retries == old.retries
            &&& new.globals.len() > 0
            &&& new.globals.last() == "--json-events"@
            &&& new.globals == old.globals || new.globals == old.globals.push("--json-events"@)
        }),
{
    lemma_fanout_flags();
    lemma_fanout_dashes();
    lemma_one_word(argv, word);
    lemma_one_word(argv, "--json"@);
    lemma_one_word(argv, "--json-events"@);
}

/// A flag that is not known is refused by its name, whatever follows.
pub proof fn unknown_flags_are_refused(
    argv: Seq<Seq<char>>,
    flag: Seq<char>,
    rest: Seq<Seq<char>>,
)
    requires
        argv.len() > 0,
        fanout::asked(argv) is Ok,
        flag.len() > 0,
        flag[0] == '-',
        flag != "--jobs"@ && flag != "--max-parallel"@ && flag != "--retries"@,
        flag != "--json"@ && flag != "--json-events"@,
        !(flag == "--provider"@
            || flag == "--api-key"@
            || flag == "--config"@
            || flag == "--auth-file"@
            || flag == "--endpoint"@
            || flag == "--openai-api-base"@
            || flag == "--model"@
            || flag == "-m"@),
    ensures
        fanout::asked(argv + seq![flag] + rest) == Err::<FanoutView, Seq<char>>(
            "Unknown fanout flag: "@ + flag,
        ),
{
    let list = args::arguments(argv);
    let more = seq![flag] + rest;
    let token = Token::Unknown(flag);
    assert(args::arguments(argv + seq![flag] + rest) =~= list + more);
    assert(fanout::first_complaint(fanout::tokens(list)) is None);
    lemma_tokens_append(list, more);
    assert(more[0] == flag);
    assert(more.skip(1) =~= rest);
    assert(fanout::tokens(more) =~= seq![token] + fanout::tokens(rest));
    fanout::lemma_first_wrong(fanout::tokens(list), token, fanout::tokens(rest));
}

/// A flag that ends the arguments without its value is refused by its name.
pub proof fn flags_need_their_values(argv: Seq<Seq<char>>, flag: Seq<char>)
    requires
        argv.len() > 0,
        fanout::asked(argv) is Ok,
    ensures
        fanout::asked(argv.push("--jobs"@)) == Err::<FanoutView, Seq<char>>(
            "--jobs requires a file path"@,
        ),
        fanout::asked(argv.push("--max-parallel"@)) == Err::<FanoutView, Seq<char>>(
            "--max-parallel"@ + " requires a number"@,
        ),
        fanout::asked(argv.push("--retries"@)) == Err::<FanoutView, Seq<char>>(
            "--retries"@ + " requires a number"@,
        ),
        (flag == "--provider"@
            || flag == "--api-key"@
            || flag == "--config"@
            || flag == "--auth-file"@
            || flag == "--endpoint"@
            || flag == "--openai-api-base"@
            || flag == "--model"@
            || flag == "-m"@) ==> fanout::asked(argv.push(flag)) == Err::<FanoutView, Seq<char>>(
            flag + " requires a value"@,
        ),
{
    lemma_fanout_flags();
    lemma_one_word(argv, "--jobs"@);
    lemma_one_word(argv, "--max-parallel"@);
    lemma_one_word(argv, "--retries"@);
    lemma_one_word(argv, flag);
}

/// Two for an option that is set, none for one that is not.
pub open spec fn room(set: bool) -> int {
    if set {
        2
    } else {
        0
    }
}

/// The child of a job is given all that the job says: the flags that are handed
/// on, the command, the reference images, the prompt and the place of the
/// output, and then each option that is set, with its value, in one order; and
/// it is given nothing else.
pub proof fn a_child_is_given_its_job(job: FanoutJob, globals: Seq<Seq<char>>, k: int)
    ensures
        ({
            let list = fanout::child_arguments(job, globals);
            let refs = job.ref_image.spec_paths();
            let c = 1 + globals.len() as int;
            let p = c + 2 + 2 * refs.len() as int;
            let o1 = p + 4;
            let o2 = o1 + room(job.size is Some);
            let o3 = o2 + room(job.format is Some);
            let o4 = o3 + room(job.quality is Some);
            let o5 = o4 + room(job.input_fidelity is Some);
            let o6 = o5 + room(job.background is Some);
            let o7 = o6 + room(job.mask is Some);
            let o8 = o7 + room(job.moderation is Some);
            let o9 = o8 + room(job.compression is Some);
            &&& list.len() == o9
            &&& list[0] == "--json"@
            &&& 0 <= k < globals.len() ==> list[1 + k] == globals[k]
            &&& list[c] == "images"@
            &&& refs.len() == 0 ==> list[c + 1] == "generate"@
            &&& refs.len() > 0 ==> list[c + 1] == "edit"@
            &&& 0 <= k < refs.len() ==> list[c + 2 + 2 * k] == "--ref-image"@ && list[c + 3 + 2 * k]
                == refs[k]
            &&& list[p] == "--prompt"@ && list[p + 1] == job.prompt@
            &&& list[p + 2] == "--out"@ && list[p + 3] == job.out@
            &&& job.size is Some ==> list[o1] == "--size"@ && list[o1 + 1]
                == job.size->0@
            &&& job.format is Some ==> list[o2] == "--format"@ && list[o2 + 1]
                == job.format->0@
            &&& job.quality is Some ==> list[o3] == "--quality"@ && list[o3 + 1]
                == job.quality->0@
            &&& job.input_fidelity is Some ==> list[o4] == "--input-fidelity"@ && list[o4 + 1]
                == job.input_fidelity->0@
            &&& job.background is Some ==> list[o5] == "--background"@ && list[o5 + 1]
                == job.background->0@
            &&& job.mask is Some ==> list[o6] == "--mask"@ && list[o6 + 1]
                == job.mask->0@
            &&& job.moderation is Some ==> list[o7] == "--moderation"@ && list[o7 + 1]
                == job.moderation->0@
            &&& job.compression is Some ==> list[o8] == "--compression"@ && text::digits_value(
                list[o8 + 1],
            ) == Some(job.compression->0 as nat)
        }),
{
    let refs = job.ref_image.spec_paths();
    let command = fanout::child_command(refs);
    lemma_ref_args(refs, k);
    let start = seq!["--json"@] + globals + command;
    assert(command.len() == 2 + 2 * refs.len());
    assert(start.len() == 3 + globals.len() + 2 * refs.len());
    assert(start[0] == "--json"@);
    assert(start[1 + globals.len() as int] == command[0]);
    assert(start[2 + globals.len() as int] == command[1]);
    if 0 <= k < globals.len() {
        assert(start[1 + k] == globals[k]);
    }
    if 0 <= k < refs.len() {
        assert(command[2 + 2 * k] == fanout::ref_args(refs)[2 * k]);
        assert(command[3 + 2 * k] == fanout::ref_args(refs)[2 * k + 1]);
        assert(start[3 + globals.len() as int + 2 * k] == command[2 + 2 * k]);
        assert(start[4 + globals.len() as int + 2 * k] == command[3 + 2 * k]);
    }
    let s1 = start + seq!["--prompt"@, job.prompt@, "--out"@, job.out@];
    assert(s1.len() == start.len() + 4);
    assert(forall|i: int| 0 <= i < start.len() ==> s1[i] == start[i]);
    let s2 = lemma_option(s1, "--size"@, text::opt_text(job.size));
    let s3 = lemma_option(s2, "--format"@, text::opt_text(job.format));
    let s4 = lemma_option(s3, "--quality"@, text::opt_text(job.quality));
    let s5 = lemma_option(s4, "--input-fidelity"@, text::opt_text(job.input_fidelity));
    let s6 = lemma_option(s5, "--background"@, text::opt_text(job.background));
    let s7 = lemma_option(s6, "--mask"@, text::opt_text(job.mask));
    let s8 = lemma_option(s7, "--moderation"@, text::opt_text(job.moderation));
    let level = match job.compression {
        Some(level) => Some(text::decimal(level as nat)),
        None => None,
    };
    let s9 = lemma_option(s8, "--compression"@, level);
    assert(s9 == fanout::child_arguments(job, globals));
    if job.compression is Some {
        text::lemma_decimal_digits(job.compression->0 as nat);
    }
}

/// An option adds its flag and its value, if it is set.
proof fn lemma_option(s: Seq<Seq<char>>, flag: Seq<char>, value: Option<Seq<char>>) -> (t: Seq<
    Seq<char>,
>)
    ensures
        t == s + fanout::opt_arg(flag, value),
        t.len() == s.len() + room(value is Some),
        value is Some ==> t[s.len() as int] == flag && t[s.len() as int + 1] == value->0,
        forall|i: int| 0 <= i < s.len() ==> t[i] == s[i],
{
    s + fanout::opt_arg(flag, value)
}

/// Each reference image is named behind its flag.
proof fn lemma_ref_args(refs: Seq<Seq<char>>, k: int)
    ensures
        fanout::ref_args(refs).len() == 2 * refs.len(),
        0 <= k < refs.len() ==> fanout::ref_args(refs)[2 * k] == "--ref-image"@
            && fanout::ref_args(refs)[2 * k + 1] == refs[k],
    decreases refs.len(),
{
    if refs.len() > 0 {
        lemma_ref_args(refs.drop_last(), k);
    }
}

/// The reference images are the paths that are not empty, in their order.
pub proof fn empty_paths_are_no_images(one: String, many: Vec<String>)
    ensures
        RefImages::Absent.spec_paths().len() == 0,
        one@.len() == 0 ==> RefImages::One(one).spec_paths().len() == 0,
        one@.len() > 0 ==> RefImages::One(one).spec_paths() == seq![one@],
        RefImages::Many(many).spec_paths() == text::texts(many@).filter(
            |path: Seq<char>| path.len() > 0,
        ),
{
    reveal_with_fuel(Seq::<_>::filter, 2);
    assert(seq![one@].drop_last() =~= Seq::empty());
    if one@.len() > 0 {
        assert(RefImages::One(one).spec_paths() =~= seq![one@]);
    }
}

/// A job is refused exactly if its prompt or the place of its output is blank.
pub proof fn blank_jobs_are_refused(index: nat, job: FanoutJob)
    ensures
        ({
            let blank = |s: Seq<char>|
                forall|k: int| 0 <= k < s.len() ==> text::white_space(#[trigger] s[k]);
            let number = text::decimal(index);
            &&& blank(job.prompt@) ==> fanout::refusal(index as int, job) == Some(
                "Job "@ + number + " is missing prompt."@,
            )
            &&& !blank(job.prompt@) && blank(job.out@) ==> fanout::refusal(index as int, job)
                == Some("Job "@ + number + " is missing out."@)
            &&& !blank(job.prompt@) && !blank(job.out@) ==> fanout::refusal(
                index as int,
                job,
            ) is None
        }),
{
    lemma_blank(job.prompt@);
    lemma_blank(job.out@);
}

proof fn lemma_blank(s: Seq<char>)
    ensures
        text::trimmed(s).len() == 0 <==> forall|k: int|
            0 <= k < s.len() ==> text::white_space(#[trigger] s[k]),
{
    let empty: Seq<char> = Seq::empty();
    words::trimming_takes_white_space_only(s);
    let (i, j) = choose|i: int, j: int| #[trigger]
        words::white_around(s, i, j) && text::trimmed(s) == s.subrange(i, j);
    if forall|k: int| 0 <= k < s.len() ==> text::white_space(#[trigger] s[k]) {
        assert(s + empty + empty =~= s);
        words::trimming_leaves_the_core(s, empty, empty);
    }
}

/// A whole batch is refused exactly if it is empty or one of its jobs is
/// refused, and the first such job says why.
pub proof fn the_first_refused_job_says_why(jobs: Seq<FanoutJob>, k: int)
    ensures
        jobs.len() == 0 ==> fanout::batch_refusal(jobs) == Some("Jobs file is empty."@),
        0 <= k < jobs.len() && fanout::refusal(k, jobs[k]) is Some && (forall|j: int|
            0 <= j < k ==> fanout::refusal(j, #[trigger] jobs[j]) is None)
            ==> fanout::batch_refusal(jobs) == fanout::refusal(k, jobs[k]),
        fanout::batch_refusal(jobs) is None <==> jobs.len() > 0 && forall|j: int|
            0 <= j < jobs.len() ==> fanout::refusal(j, #[trigger] jobs[j]) is None,
{
    lemma_first_refusal(jobs, 0, k);
}

proof fn lemma_first_refusal(jobs: Seq<FanoutJob>, from: int, k: int)
    requires
        0 <= from,
    ensures
        from <= k < jobs.len() && fanout::refusal(k, jobs[k]) is Some && (forall|j: int|
            from <= j < k ==> fanout::refusal(j, #[trigger] jobs[j]) is None)
            ==> fanout::first_refusal(jobs, from) == fanout::refusal(k, jobs[k]),
        fanout::first_refusal(jobs, from) is None <==> forall|j: int|
            from <= j < jobs.len() ==> fanout::refusal(j, #[trigger] jobs[j]) is None,
    decreases jobs.len() - from,
{
    if from < jobs.len() {
        lemma_first_refusal(jobs, from + 1, k);
        assert(fanout::refusal(from, jobs[from]) is None || fanout::refusal(
            from,
            jobs[from],
        ) is Some);
    }
}

/// A job that is made ready is that job: its own name or that of its file, its
/// place, and the arguments of its child.
pub proof fn a_ready_job_is_the_job(
    ready: PreparedJob,
    index: int,
    job: FanoutJob,
    globals: Seq<Seq<char>>,
    name: Seq<char>,
)
    requires
        ready.made_from(index, job, globals),
    ensures
        ready.index == index,
        ready.out@ == job.out@,
        text::texts(ready.child_args@) == fanout::child_arguments(job, globals),
        job.name is Some ==> ready.name@ == job.name->0@,
        job.name is None && paths::named_alike(job.out@) && paths::final_name(job.out@) == Some(
            name,
        ) ==> ready.name@ == name,
        job.name is None && paths::named_alike(job.out@) && paths::final_name(job.out@) is None
            ==> ready.name@ == "job"@,
        fanout::job_name(Some(name), None) == name,
        fanout::job_name(None, Some(name)) == name,
        fanout::job_name(None, None) == "job"@,
{
}

/// The flags that name tickets differ.
proof fn lemma_ticket_flags()
    ensures
        "--id"@ != "--job-id"@,
        "--id"@ != "--file"@,
        "--id"@ != "--jobs"@,
        "--job-id"@ != "--file"@,
        "--job-id"@ != "--jobs"@,
        "--file"@ != "--jobs"@,
{
    reveal_strlit("--id");
    reveal_strlit("--job-id");
    reveal_strlit("--file");
    reveal_strlit("--jobs");
    assert("--id"@.len() != "--job-id"@.len());
    assert("--id"@.len() != "--file"@.len());
    assert("--id"@.len() != "--jobs"@.len());
    assert("--job-id"@.len() != "--file"@.len());
    assert("--job-id"@.len() != "--jobs"@.len());
    assert("--file"@[2] != "--jobs"@[2]);
}

/// Arguments about tickets that are read to their end are read the same whatever
/// follows.
proof fn lemma_asks_append(a: Seq<Seq<char>>, b: Seq<Seq<char>>)
    requires
        jobs::ask_refusal(jobs::asks(a)) is None,
    ensures
        jobs::asks(a + b) == jobs::asks(a) + jobs::asks(b),
    decreases a.len(),
{
    let list = jobs::asks(a);
    if a.len() == 0 {
        assert(a + b =~= b);
        assert(list + jobs::asks(b) =~= jobs::asks(b));
    } else {
        assert((a + b)[0] == a[0]);
        if jobs::names_id(a[0]) || jobs::names_file(a[0]) {
            assert(a.len() > 1) by {
                if a.len() == 1 {
                    assert(list.last() == list[0]);
                }
            }
            let rest = a.skip(2);
            let more = jobs::asks(rest);
            assert((a + b)[1] == a[1]);
            assert((a + b).skip(2) =~= rest + b);
            assert(more.len() > 0 ==> list.last() == more.last());
            lemma_asks_append(rest, b);
            assert(jobs::asks(a + b) =~= list + jobs::asks(b));
        } else {
            let rest = a.skip(1);
            assert((a + b).skip(1) =~= rest + b);
            lemma_asks_append(rest, b);
        }
    }
}

/// Every job that is named is asked about, in order, and the last file counts;
/// other arguments are passed over.
pub proof fn every_named_ticket_is_asked_about(
    list: Seq<Seq<char>>,
    flag: Seq<char>,
    value: Seq<char>,
)
    requires
        jobs::ask_refusal(jobs::asks(list)) is None,
    ensures
        ({
            let none: Seq<Seq<char>> = Seq::empty();
            &&& jobs::named_tickets(jobs::asks(none)).len() == 0
            &&& jobs::ticket_file(jobs::asks(none)) is None
            &&& jobs::ask_refusal(jobs::asks(none)) is None
        }),
        flag == "--id"@ || flag == "--job-id"@ ==> ({
            let old = jobs::asks(list);
            let new = jobs::asks(list + seq![flag, value]);
            &&& jobs::ask_refusal(new) is None
            &&& jobs::named_tickets(new).len() == jobs::named_tickets(old).len() + 1
            &&& jobs::named_tickets(new).drop_last() == jobs::named_tickets(old)
            &&& jobs::named_tickets(new).last().job_id == value
            &&& jobs::named_tickets(new).last().out is None
            &&& jobs::named_tickets(new).last().name is None
            &&& jobs::ticket_file(new) == jobs::ticket_file(old)
            &&& jobs::ask_refusal(jobs::asks(list.push(flag))) == Some("--id requires a job id"@)
        }),
        flag == "--file"@ || flag == "--jobs"@ ==> ({
            let old = jobs::asks(list);
            let new = jobs::asks(list + seq![flag, value]);
            &&& jobs::ask_refusal(new) is None
            &&& jobs::named_tickets(new) == jobs::named_tickets(old)
            &&& jobs::ticket_file(new) == Some(value)
            &&& jobs::ask_refusal(jobs::asks(list.push(flag))) == Some("--file requires a path"@)
        }),
        flag != "--id"@ && flag != "--job-id"@ && flag != "--file"@ && flag != "--jobs"@
            ==> jobs::asks(list.push(flag)) == jobs::asks(list),
{
    lemma_ticket_flags();
    let old = jobs::asks(list);
    let none: Seq<Ask> = Seq::empty();
    let pair = seq![flag, value];
    let one = seq![flag];
    lemma_asks_append(list, pair);
    lemma_asks_append(list, one);
    assert(list.push(flag) =~= list + one);
    assert(pair.skip(2) =~= Seq::empty());
    assert(one.skip(1) =~= Seq::empty());
    assert(jobs::asks(pair.skip(2)) =~= none);
    assert(jobs::asks(one.skip(1)) =~= none);
    assert(jobs::asks(Seq::<Seq<char>>::empty()) =~= none);
    if jobs::names_id(flag) {
        assert(jobs::asks(pair) =~= seq![Ask::Id(value)]);
        let new = old + seq![Ask::Id(value)];
        assert(new.drop_last() =~= old);
        assert(new.last() == Ask::Id(value));
        let tickets = jobs::named_tickets(old);
        assert(tickets.push(jobs::bare(value)).drop_last() =~= tickets);
        assert((old + seq![Ask::NoId]).last() == Ask::NoId);
    } else if jobs::names_file(flag) {
        assert(jobs::asks(pair) =~= seq![Ask::File(value)]);
        let new = old + seq![Ask::File(value)];
        assert(new.drop_last() =~= old);
        assert(new.last() == Ask::File(value));
        assert((old + seq![Ask::NoFile]).last() == Ask::NoFile);
    } else {
        assert(old + none =~= old);
    }
}

/// The arguments are what follows the program's own name.
pub proof fn arguments_follow_the_program(program: Seq<char>, list: Seq<Seq<char>>)
    ensures
        args::arguments(seq![program] + list) == list,
        args::arguments(Seq::empty()).len() == 0,
{
    assert((seq![program] + list).drop_first() =~= list);
}

} // verus!
