//! The restart of the managed model runtime: when it is allowed, and when the
//! new process counts as clean.

use crate::html::{keeps_utf8, lossy_text, text_of_bytes};
use crate::text::{
    begins, chars_of, number_of, parse_number, push_text, same, slice, split, split_of,
    starts_with, string_of, trim, trimmed,
};
use vstd::prelude::*;

verus! {

/// How long a restart may take, in milliseconds.
pub const RESTART_DEADLINE_MS: u64 = 10_000;

/// The name of the service of a user.
pub open spec fn service_target(uid: Seq<char>) -> Seq<char> {
    "gui/"@ + uid + "/com.bagent.basert"@
}

pub fn launch_target(uid: &str) -> (r: String)
    ensures
        r@ == service_target(uid@),
{
    let mut out = chars_of("gui/");
    push_text(&mut out, uid);
    push_text(&mut out, "/com.bagent.basert");
    string_of(&out)
}

/// What follows `pid = ` on the first line that begins so.
pub open spec fn pid_text(lines: Seq<Seq<char>>) -> Option<Seq<char>>
    decreases lines.len(),
{
    if lines.len() == 0 {
        None
    } else if starts_with(trim(lines[0]), "pid = "@) {
        Some(trim(lines[0]).skip("pid = "@.len() as int))
    } else {
        pid_text(lines.drop_first())
    }
}

pub open spec fn listed_pid(text: Seq<char>) -> Option<nat> {
    match pid_text(split(text, '\n')) {
        Some(value) => match number_of(value) {
            Some(n) => if n <= u32::MAX {
                Some(n)
            } else {
                None
            },
            None => None,
        },
        None => None,
    }
}

fn parse_pid(value: &Vec<char>) -> (r: Option<u32>)
    ensures
        match r {
            Some(n) => number_of(value@) == Some(n as nat),
            None => match number_of(value@) {
                Some(n) => n > u32::MAX,
                None => true,
            },
        },
{
    match parse_number(value, u32::MAX as u64) {
        Some(n) => Some(n as u32),
        None => None,
    }
}

/// The process that a listing of the service names.
pub fn pid_in_listing(text: &str) -> (r: Option<u32>)
    ensures
        match r {
            Some(n) => listed_pid(text@) == Some(n as nat),
            None => listed_pid(text@) is None,
        },
{
    let chars = chars_of(text);
    let lines = split_of(&chars, '\n');
    let ghost all = split(text@, '\n');
    let prefix = chars_of("pid = ");
    let mut i: usize = 0;
    proof {
        assert(all.skip(0) =~= all);
    }
    while i < lines.len()
        invariant
            i <= lines@.len(),
            crate::text::texts(lines@) == all,
            prefix@ == "pid = "@,
            all == split(text@, '\n'),
            pid_text(all) == pid_text(all.skip(i as int)),
        decreases lines@.len() - i,
    {
        let line = trimmed(&lines[i]);
        proof {
            assert(all[i as int] == lines@[i as int]@);
            assert(all.skip(i as int)[0] == all[i as int]);
            assert(all.skip(i as int).drop_first() =~= all.skip(i + 1));
        }
        if begins(&line, "pid = ") {
            let value = slice(&line, prefix.len(), line.len());
            proof {
                assert(value@ =~= line@.skip(prefix@.len() as int));
            }
            return parse_pid(&value);
        }
        i = i + 1;
    }
    None
}

/// The managed process, from the output of the service manager; none where the
/// command failed.
pub fn managed_pid(succeeded: bool, output: &[u8]) -> (r: Option<u32>)
    ensures
        match r {
            Some(n) => succeeded && listed_pid(lossy_text(output@)) == Some(n as nat),
            None => !succeeded || listed_pid(lossy_text(output@)) is None,
        },
        succeeded ==> keeps_utf8(output@),
{
    if !succeeded {
        return None;
    }
    let text = text_of_bytes(output);
    pid_in_listing(text.as_str())
}

/// A restart is supported for the managed endpoint alone.
pub fn restart_supported(endpoint: &str, managed_endpoint: &str) -> (r: bool)
    ensures
        r == (endpoint@ == managed_endpoint@),
{
    same(endpoint, managed_endpoint)
}

/// Another process runs than before.
pub open spec fn is_new_process(previous: Option<u32>, current: Option<u32>) -> bool {
    current is Some && current != previous
}

pub fn new_process(previous: Option<u32>, current: Option<u32>) -> (r: bool)
    ensures
        r == is_new_process(previous, current),
{
    match current {
        Some(now) => match previous {
            Some(before) => now != before,
            None => true,
        },
        None => false,
    }
}

#[derive(Clone, Copy, Debug, PartialEq, Eq, Structural)]
pub enum RestartStep {
    /// The runtime runs anew and holds no model.
    Clean,
    /// Look again after a while.
    Wait,
    /// The runtime did not become clean in time.
    GiveUp,
}

/// What follows a look at the runtime. `loaded` says of each model whether it
/// is loaded; it is asked for only where the runtime is up.
pub fn restart_step(
    previous: Option<u32>,
    current: Option<u32>,
    loaded: Option<&Vec<bool>>,
    elapsed_ms: u64,
) -> (r: RestartStep)
    ensures
        (r is Clean) == (is_new_process(previous, current) && match loaded {
            Some(flags) => !flags@.contains(true),
            None => false,
        }),
        !(r is Clean) ==> (r is GiveUp) == (elapsed_ms >= RESTART_DEADLINE_MS),
{
    if new_process(previous, current) {
        match loaded {
            Some(flags) => {
                let mut i: usize = 0;
                let mut any = false;
                while i < flags.len() && !any
                    invariant
                        i <= flags@.len(),
                        any ==> flags@.contains(true),
                        !any ==> forall|j: int| 0 <= j < i ==> !#[trigger] flags@[j],
                    decreases flags@.len() - i,
                {
                    if flags[i] {
                        proof {
                            assert(flags@[i as int] == true);
                        }
                        any = true;
                    }
                    i = i + 1;
                }
                if !any {
                    return RestartStep::Clean;
                }
            },
            None => {},
        }
    }
    if elapsed_ms >= RESTART_DEADLINE_MS {
        RestartStep::GiveUp
    } else {
        RestartStep::Wait
    }
}

} // verus!
