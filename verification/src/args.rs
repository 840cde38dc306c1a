//! Command lines: the words that are not flags.

use vstd::prelude::*;
use crate::text;
use crate::text::{begins_with_dash, same_text};

verus! {

/// The arguments after the program's own name.
pub open spec fn arguments(argv: Seq<Seq<char>>) -> Seq<Seq<char>> {
    if argv.len() == 0 {
        argv
    } else {
        argv.drop_first()
    }
}

/// The arguments that are not flags, in order.
pub open spec fn positional(argv: Seq<Seq<char>>) -> Seq<Seq<char>> {
    arguments(argv).filter(|arg: Seq<char>| !text::is_flag(arg))
}

/// Whether the positional argument at place `k` is `word`.
pub open spec fn positional_is(argv: Seq<Seq<char>>, k: int, word: Seq<char>) -> bool {
    k < positional(argv).len() && positional(argv)[k] == word
}

/// The positional argument at place `k`, if there are that many.
pub fn positional_at(argv: &[String], k: usize) -> (found: Option<&String>)
    ensures
        match found {
            Some(word) => k < positional(text::texts(argv@)).len() && word@ == positional(
                text::texts(argv@),
            )[k as int],
            None => positional(text::texts(argv@)).len() <= k,
        },
{
    let ghost all = text::texts(argv@);
    let ghost keep = |arg: Seq<char>| !text::is_flag(arg);
    let mut seen: usize = 0;
    let mut i: usize = 1;
    assert(all.skip(1).take(0).filter(keep) =~= Seq::<Seq<char>>::empty()) by {
        reveal(Seq::filter);
    }
    while i < argv.len()
        invariant
            all == text::texts(argv@),
            keep == (|arg: Seq<char>| !text::is_flag(arg)),
            1 <= i,
            argv@.len() > 0 ==> i <= argv@.len(),
            argv@.len() > 0 ==> seen == all.skip(1).take(i - 1).filter(keep).len(),
            argv@.len() == 0 ==> i == 1 && seen == 0,
            seen <= k,
            seen < i,
        decreases argv@.len() - i,
    {
        proof {
            lemma_filter_step(all.skip(1), keep, i - 1);
            assert(all.skip(1)[i - 1] == argv@[i as int]@);
        }
        if !begins_with_dash(argv[i].as_str()) {
            if seen == k {
                proof {
                    lemma_filter_prefix(all.skip(1), keep, i as int);
                    assert(arguments(all) =~= all.skip(1));
                }
                return Some(&argv[i]);
            }
            seen = seen + 1;
        }
        i = i + 1;
    }
    proof {
        reveal(Seq::filter);
        if argv@.len() > 0 {
            assert(all.skip(1).take(i - 1) =~= all.skip(1));
            assert(arguments(all) =~= all.skip(1));
        }
    }
    None
}

/// Keeping one more element of a sequence keeps what was kept before.
proof fn lemma_filter_step<A>(s: Seq<A>, keep: spec_fn(A) -> bool, i: int)
    requires
        0 <= i < s.len(),
    ensures
        s.take(i + 1).filter(keep) == if keep(s[i]) {
            s.take(i).filter(keep).push(s[i])
        } else {
            s.take(i).filter(keep)
        },
{
    reveal(Seq::filter);
    assert(s.take(i + 1).drop_last() =~= s.take(i));
}

/// What is kept of a prefix begins what is kept of the whole.
proof fn lemma_filter_prefix<A>(s: Seq<A>, keep: spec_fn(A) -> bool, i: int)
    requires
        0 <= i <= s.len(),
    ensures
        s.take(i).filter(keep).len() <= s.filter(keep).len(),
        forall|j: int|
            0 <= j < s.take(i).filter(keep).len() ==> s.take(i).filter(keep)[j] == #[trigger] s.filter(
                keep,
            )[j],
    decreases s.len() - i,
{
    if i < s.len() {
        lemma_filter_step(s, keep, i);
        lemma_filter_prefix(s, keep, i + 1);
    } else {
        assert(s.take(i) =~= s);
    }
}

/// Tests whether the positional argument at place `k` is `word`.
pub fn has_positional(argv: &[String], k: usize, word: &str) -> (found: bool)
    ensures
        found == positional_is(text::texts(argv@), k as int, word@),
{
    match positional_at(argv, k) {
        Some(arg) => same_text(arg.as_str(), word),
        None => false,
    }
}

} // verus!
