//! What texts, numerals and command lines promise.

use vstd::prelude::*;
use crate::args;
use crate::daemon;
use crate::fanout;
use crate::jobs;
use crate::text;

verus! {

/// Whether a text has nothing but white space before `i` and from `j` on.
pub open spec fn white_around(s: Seq<char>, i: int, j: int) -> bool {
    &&& 0 <= i <= j <= s.len()
    &&& forall|k: int| 0 <= k < i ==> text::white_space(#[trigger] s[k])
    &&& forall|k: int| j <= k < s.len() ==> text::white_space(#[trigger] s[k])
}

/// Trimming takes white space from the two ends and nothing else.
pub proof fn trimming_takes_white_space_only(s: Seq<char>)
    ensures
        exists|i: int, j: int| #[trigger]
            white_around(s, i, j) && text::trimmed(s) == s.subrange(i, j),
        text::trimmed(s).len() > 0 ==> !text::white_space(text::trimmed(s)[0])
            && !text::white_space(text::trimmed(s).last()),
{
    let (i, j) = lemma_trimmed(s);
    assert(white_around(s, i, j));
}

proof fn lemma_trimmed(s: Seq<char>) -> (at: (int, int))
    ensures
        white_around(s, at.0, at.1),
        text::trimmed(s) == s.subrange(at.0, at.1),
        text::trimmed(s).len() > 0 ==> !text::white_space(text::trimmed(s)[0])
            && !text::white_space(text::trimmed(s).last()),
    decreases s.len(),
{
    if s.len() == 0 {
        assert(text::trimmed(s) =~= s.subrange(0, 0));
        (0, 0)
    } else if text::white_space(s[0]) {
        let (i, j) = lemma_trimmed(s.drop_first());
        lemma_white_front(s, i, j);
        (i + 1, j + 1)
    } else if text::white_space(s.last()) {
        let (i, j) = lemma_trimmed(s.drop_last());
        lemma_white_back(s, i, j);
        (i, j)
    } else {
        assert(s.subrange(0, s.len() as int) =~= s);
        (0, s.len() as int)
    }
}

proof fn lemma_white_front(s: Seq<char>, i: int, j: int)
    requires
        s.len() > 0,
        text::white_space(s[0]),
        white_around(s.drop_first(), i, j),
    ensures
        white_around(s, i + 1, j + 1),
        s.drop_first().subrange(i, j) == s.subrange(i + 1, j + 1),
{
    let rest = s.drop_first();
    assert(rest.subrange(i, j) =~= s.subrange(i + 1, j + 1));
    assert forall|k: int| 0 <= k < i + 1 implies text::white_space(#[trigger] s[k]) by {
        if k > 0 {
            assert(rest[k - 1] == s[k]);
        }
    }
    assert forall|k: int| j + 1 <= k < s.len() implies text::white_space(#[trigger] s[k]) by {
        assert(rest[k - 1] == s[k]);
    }
}

proof fn lemma_white_back(s: Seq<char>, i: int, j: int)
    requires
        s.len() > 0,
        text::white_space(s.last()),
        white_around(s.drop_last(), i, j),
    ensures
        white_around(s, i, j),
        s.drop_last().subrange(i, j) == s.subrange(i, j),
{
    let rest = s.drop_last();
    assert(rest.subrange(i, j) =~= s.subrange(i, j));
    assert forall|k: int| 0 <= k < i implies text::white_space(#[trigger] s[k]) by {
        assert(rest[k] == s[k]);
    }
    assert forall|k: int| j <= k < s.len() implies text::white_space(#[trigger] s[k]) by {
        if k < s.len() - 1 {
            assert(rest[k] == s[k]);
        }
    }
}

/// White space around a text that neither begins nor ends with any is what
/// trimming takes.
pub proof fn trimming_leaves_the_core(before: Seq<char>, core: Seq<char>, after: Seq<char>)
    requires
        forall|k: int| 0 <= k < before.len() ==> text::white_space(before[k]),
        forall|k: int| 0 <= k < after.len() ==> text::white_space(after[k]),
        core.len() > 0 ==> !text::white_space(core[0]) && !text::white_space(core.last()),
    ensures
        text::trimmed(before + core + after) == core,
    decreases before.len() + after.len(),
{
    let whole = before + core + after;
    if before.len() > 0 {
        assert(whole[0] == before[0]);
        assert(whole.drop_first() =~= before.drop_first() + core + after);
        trimming_leaves_the_core(before.drop_first(), core, after);
    } else if after.len() > 0 {
        if core.len() > 0 {
            assert(whole[0] == core[0]);
            assert(whole.last() == after.last());
            assert(whole.drop_last() =~= before + core + after.drop_last());
            trimming_leaves_the_core(before, core, after.drop_last());
        } else {
            assert(whole[0] == after[0]);
            assert(whole.drop_first() =~= before + core + after.drop_first());
            trimming_leaves_the_core(before, core, after.drop_first());
        }
    } else {
        assert(whole =~= core);
    }
}

/// White space is what Unicode says, which in ASCII is the space and the five
/// characters from the tab to the carriage return.
pub proof fn white_space_in_ascii(c: char)
    requires
        (c as int) < 128,
    ensures
        text::white_space(c) <==> c == ' ' || c == '\t' || c == '\n' || c == '\r' || c as int == 11
            || c as int == 12,
{
}

/// Letters lose their case and nothing else changes.
pub proof fn lowering_changes_capitals_only(s: Seq<char>, i: int)
    requires
        0 <= i < s.len(),
    ensures
        text::lowered(s).len() == s.len(),
        'A' <= s[i] <= 'Z' ==> text::lowered(s)[i] as int == s[i] as int + 'a' as int - 'A' as int,
        !('A' <= s[i] <= 'Z') ==> text::lowered(s)[i] == s[i],
{
}

/// A numeral is its last digit behind the numeral of ten times less.
pub proof fn numerals_are_decimal(n: nat)
    ensures
        text::decimal(n).len() > 0,
        text::decimal(n).last() as int == '0' as int + n % 10,
        n < 10 ==> text::decimal(n).len() == 1,
        n >= 10 ==> text::decimal(n).drop_last() == text::decimal(n / 10),
{
    if n >= 10 {
        assert(text::decimal(n).drop_last() =~= text::decimal(n / 10));
    }
}

/// A digit behind a numeral makes it ten times as much and the digit; anything
/// else makes it no numeral.
pub proof fn numerals_are_read_digit_by_digit(s: Seq<char>, c: char)
    ensures
        text::digits_value(Seq::empty()) is None,
        !('0' <= c <= '9') ==> text::digits_value(s.push(c)) is None,
        '0' <= c <= '9' && s.len() == 0 ==> text::digits_value(s.push(c)) == Some(
            (c as int - '0' as int) as nat,
        ),
        '0' <= c <= '9' && text::digits_value(s) is Some ==> text::digits_value(s.push(c)) == Some(
            (10 * text::digits_value(s)->0 + (c as int - '0' as int)) as nat,
        ),
        s.len() > 0 && text::digits_value(s) is None ==> text::digits_value(s.push(c)) is None,
{
    assert(s.push(c).drop_last() =~= s);
}

/// A plus sign before a numeral changes nothing, and a number counts only up to
/// its bound.
pub proof fn numbers_may_be_signed_and_are_bounded(s: Seq<char>, max: int)
    ensures
        s.len() == 0 || s[0] != '+' ==> text::decimal_value(s) == text::digits_value(s),
        text::decimal_value(seq!['+'] + s) == text::digits_value(s),
        text::bounded_value(s, max) is Some <==> text::decimal_value(s) is Some
            && text::decimal_value(s)->0 <= max,
        text::bounded_value(s, max) is Some ==> text::bounded_value(s, max)->0
            == text::decimal_value(s)->0,
{
    assert((seq!['+'] + s).drop_first() =~= s);
}

/// An argument is a flag exactly if its first character is a dash.
pub proof fn flags_begin_with_a_dash(rest: Seq<char>, c: char)
    ensures
        text::is_flag(seq!['-'] + rest),
        c != '-' ==> !text::is_flag(seq![c] + rest),
        !text::is_flag(Seq::empty()),
{
    assert((seq!['-'] + rest)[0] == '-');
    assert((seq![c] + rest)[0] == c);
}

/// The program's own name is no argument, a flag is passed over, and every
/// other argument stands in its order.
pub proof fn positional_arguments_stand_in_order(argv: Seq<Seq<char>>, arg: Seq<char>)
    ensures
        args::positional(seq![arg]) == Seq::<Seq<char>>::empty(),
        argv.len() > 0 && arg.len() > 0 && arg[0] == '-' ==> args::positional(argv.push(arg))
            == args::positional(argv),
        argv.len() > 0 && !(arg.len() > 0 && arg[0] == '-') ==> args::positional(argv.push(arg))
            == args::positional(argv).push(arg),
{
    reveal(Seq::filter);
    let keep = |a: Seq<char>| !text::is_flag(a);
    assert(args::arguments(seq![arg]) =~= Seq::empty());
    if argv.len() > 0 {
        let list = args::arguments(argv);
        assert(args::arguments(argv.push(arg)) =~= list.push(arg));
        assert(list.push(arg).drop_last() =~= list);
    }
}

/// The commands are told by their words.
pub proof fn commands_are_told_by_their_words(argv: Seq<Seq<char>>)
    ensures
        ({
            let words = args::positional(argv);
            &&& crate::names_daemon(argv) <==> words.len() > 0 && words[0] == "daemon"@
            &&& jobs::names_jobs(argv) <==> words.len() > 0 && words[0] == "jobs"@
            &&& fanout::names_fanout(argv) <==> words.len() > 1 && words[0] == "images"@ && words[1]
                == "fanout"@
            &&& daemon::daemon_word(argv) == if words.len() > 1 {
                words[1]
            } else {
                "foreground"@
            }
            &&& jobs::jobs_word(argv) == if words.len() > 1 {
                words[1]
            } else {
                "status"@
            }
        }),
{
}

/// The texts of strings are the strings, one for one.
pub proof fn texts_are_the_strings(list: Seq<String>, i: int, s: String, t: &str)
    requires
        0 <= i < list.len(),
    ensures
        text::texts(list).len() == list.len(),
        text::texts(list)[i] == list[i]@,
        text::opt_text(Some(s)) == Some(s@),
        text::opt_text(None) is None,
        text::opt_str(Some(t)) == Some(t@),
        text::opt_str(None) is None,
{
}

} // verus!
