//! The decisions of the `gpt-image-2-skill` command: which part of it a command
//! line is for, how a shared daemon is brought up and asked for images, how many
//! jobs run side by side, and what is replied.

use vstd::prelude::*;
use crate::args::has_positional;

pub mod args;
pub mod client;
pub mod daemon;
pub mod fanout;
pub mod jobs;
pub mod json;
pub mod laws;
pub mod outputs;
pub mod paths;
pub mod pool;
pub mod tasks;
pub mod text;
pub mod tickets;

verus! {

/// Whether a command line is for the `daemon` command.
pub open spec fn names_daemon(argv: Seq<Seq<char>>) -> bool {
    args::positional_is(argv, 0, "daemon"@)
}

/// Whether a command line is for the `daemon` command.
pub fn is_daemon_command(argv: &[String]) -> (found: bool)
    ensures
        found == names_daemon(text::texts(argv@)),
{
    has_positional(argv, 0, "daemon")
}

/// The part that a command line is for.
pub enum Route {
    /// The `daemon` command.
    Daemon,
    /// The `jobs` command.
    Jobs,
    /// The `images fanout` command.
    Fanout,
    /// A command that makes images, by way of the daemon.
    Client,
    /// Any other command, or one that is to leave the daemon alone.
    Core,
}

/// Whether a command line is for one of the commands that are told by their
/// words alone.
pub open spec fn has_own_words(argv: Seq<Seq<char>>) -> bool {
    names_daemon(argv) || jobs::names_jobs(argv) || fanout::names_fanout(argv)
}

/// The part that a command line is for, given the value of the variable that
/// switches the daemon off, and whether the command line makes images.
pub fn run(argv: &[String], skip: Option<&str>, makes_images: bool) -> (route: Route)
    ensures
        ({
            let words = text::texts(argv@);
            let skips = daemon::switched_on(text::opt_str(skip));
            &&& route is Daemon <==> names_daemon(words)
            &&& route is Jobs <==> jobs::names_jobs(words)
            &&& route is Fanout <==> fanout::names_fanout(words)
            &&& route is Client <==> !has_own_words(words) && !skips && makes_images
            &&& route is Core <==> !has_own_words(words) && (skips || !makes_images)
        }),
{
    proof {
        reveal_strlit("daemon");
        reveal_strlit("jobs");
        reveal_strlit("images");
        assert("daemon"@.len() == 6 && "jobs"@.len() == 4 && "images"@.len() == 6);
        assert("daemon"@[0] == 'd' && "images"@[0] == 'i');
    }
    if is_daemon_command(argv) {
        Route::Daemon
    } else if jobs::is_command(argv) {
        Route::Jobs
    } else if fanout::is_command(argv) {
        Route::Fanout
    } else if daemon::skip_daemon(skip) || !makes_images {
        Route::Core
    } else {
        Route::Client
    }
}

/// A command line is for at most one of the commands that are told by their
/// words.
pub proof fn commands_do_not_overlap(argv: Seq<Seq<char>>)
    ensures
        !(names_daemon(argv) && jobs::names_jobs(argv)),
        !(names_daemon(argv) && fanout::names_fanout(argv)),
        !(jobs::names_jobs(argv) && fanout::names_fanout(argv)),
{
    reveal_strlit("daemon");
    reveal_strlit("jobs");
    reveal_strlit("images");
    assert("daemon"@.len() == 6 && "jobs"@.len() == 4 && "images"@.len() == 6);
    assert("daemon"@[0] == 'd' && "images"@[0] == 'i');
}

} // verus!
