//! The dispatcher: splits a finalized line into whitespace-separated tokens
//! and decides what the shell must do with it — nothing, a graceful exit, the
//! `cd` built-in, spawning a resolved alias, or an unknown-command report.
//! The caller performs the decided action; no command outside the alias table
//! is ever resolved to an executable.

use vstd::prelude::*;
use crate::aliases::AliasTable;
use crate::aliases::spec_lookup;
use crate::text::views;
use crate::text::chars_to_string;
use crate::text::is_space;
use crate::text::slice_chars;
use crate::text::space_char;
use crate::text::str_eq;
use crate::text::str_to_chars;

verus! {

/// Length of the maximal leading run of non-whitespace characters.
pub open spec fn word_len(s: Seq<char>) -> nat
    decreases s.len(),
{
    if s.len() == 0 || is_space(s[0]) {
        0
    } else {
        1 + word_len(s.drop_first())
    }
}

proof fn lemma_word_len_le(s: Seq<char>)
    ensures
        word_len(s) <= s.len(),
    decreases s.len(),
{
    if !(s.len() == 0 || is_space(s[0])) {
        lemma_word_len_le(s.drop_first());
    }
}

/// The whitespace-separated tokens of `s`, in order.
pub open spec fn tokens_spec(s: Seq<char>) -> Seq<Seq<char>>
    decreases s.len(),
    via tokens_spec_decreases
{
    if s.len() == 0 {
        Seq::empty()
    } else if is_space(s[0]) {
        tokens_spec(s.drop_first())
    } else {
        seq![s.subrange(0, word_len(s) as int)] + tokens_spec(s.skip(word_len(s) as int))
    }
}

#[via_fn]
proof fn tokens_spec_decreases(s: Seq<char>) {
    if s.len() > 0 && !is_space(s[0]) {
        lemma_word_len_le(s);
        assert(word_len(s) >= 1);
    }
}

proof fn lemma_word_len_exact(s: Seq<char>, w: nat)
    requires
        w <= s.len(),
        forall|k: int| 0 <= k < w ==> !is_space(s[k]),
        w == s.len() || is_space(s[w as int]),
    ensures
        word_len(s) == w,
    decreases w,
{
    if w > 0 {
        lemma_word_len_exact(s.drop_first(), (w - 1) as nat);
    }
}

/// The whitespace-separated tokens of `line`, in order.
pub fn tokenize(line: &str) -> (ts: Vec<String>)
    ensures
        views(ts@) == tokens_spec(line@),
{
    let v = str_to_chars(line);
    let n = v.len();
    let mut ts: Vec<String> = Vec::new();
    let mut i: usize = 0;
    proof {
        assert(v@.skip(0) =~= v@);
    }
    while i < n
        invariant
            i <= n,
            n == v@.len(),
            v@ == line@,
            tokens_spec(line@) == views(ts@) + tokens_spec(v@.skip(i as int)),
        decreases n - i,
    {
        if space_char(v[i]) {
            proof {
                assert(v@.skip(i as int).drop_first() =~= v@.skip(i + 1));
            }
            i += 1;
        } else {
            let start = i;
            let mut j = i;
            while j < n && !space_char(v[j])
                invariant
                    start <= j <= n,
                    n == v@.len(),
                    forall|k: int| start <= k < j ==> !is_space(v@[k]),
                decreases n - j,
            {
                j += 1;
            }
            proof {
                lemma_word_len_exact(v@.skip(start as int), (j - start) as nat);
                assert(v@.skip(start as int).subrange(0, (j - start) as int) =~= v@.subrange(
                    start as int,
                    j as int,
                ));
                assert(v@.skip(start as int).skip((j - start) as int) =~= v@.skip(j as int));
            }
            let w = slice_chars(&v, start, j);
            let tok = chars_to_string(&w);
            let ghost pre = ts@;
            ts.push(tok);
            proof {
                assert(views(ts@) =~= views(pre).push(tok@));
                assert(views(pre) + (seq![tok@] + tokens_spec(v@.skip(j as int))) =~= views(
                    pre,
                ).push(tok@) + tokens_spec(v@.skip(j as int)));
            }
            i = j;
        }
    }
    proof {
        assert(v@.skip(n as int) =~= Seq::<char>::empty());
        assert(views(ts@) + tokens_spec(v@.skip(n as int)) =~= views(ts@));
    }
    ts
}

/// What the shell must do with a finalized line.
pub enum Action {
    /// Blank line: nothing to do, show the prompt again.
    Empty,
    /// The `exit` command: leave the main loop gracefully.
    Exit,
    /// The `cd` built-in with its directory argument.
    ChangeDir { dir: String },
    /// `cd` without an argument: report usage.
    CdUsage,
    /// Spawn the resolved executable with the remaining tokens as arguments.
    Spawn { path: String, args: Vec<String> },
    /// A command outside the alias table: report it, spawn nothing.
    Unknown { command: String },
}

/// Ghost mirror of [`Action`], over character sequences.
pub enum SpecAction {
    Empty,
    Exit,
    ChangeDir(Seq<char>),
    CdUsage,
    Spawn(Seq<char>, Seq<Seq<char>>),
    Unknown(Seq<char>),
}

impl View for Action {
    type V = SpecAction;

    open spec fn view(&self) -> SpecAction {
        match self {
            Action::Empty => SpecAction::Empty,
            Action::Exit => SpecAction::Exit,
            Action::ChangeDir { dir } => SpecAction::ChangeDir(dir@),
            Action::CdUsage => SpecAction::CdUsage,
            Action::Spawn { path, args } => SpecAction::Spawn(path@, views(args@)),
            Action::Unknown { command } => SpecAction::Unknown(command@),
        }
    }
}

/// The decision for `line` against `aliases`: `exit` exactly ends the loop; a
/// line without tokens is a no-op; `cd` takes its first argument, or reports
/// usage without one; any other first token is spawned through the alias
/// table or reported unknown.
pub open spec fn spec_dispatch(line: Seq<char>, aliases: Seq<(Seq<char>, Seq<char>)>) -> SpecAction {
    let ts = tokens_spec(line);
    if line == "exit"@ {
        SpecAction::Exit
    } else if ts.len() == 0 {
        SpecAction::Empty
    } else if ts[0] == "cd"@ {
        if ts.len() >= 2 {
            SpecAction::ChangeDir(ts[1])
        } else {
            SpecAction::CdUsage
        }
    } else {
        match spec_lookup(aliases, ts[0]) {
            Option::Some(p) => SpecAction::Spawn(p, ts.drop_first()),
            Option::None => SpecAction::Unknown(ts[0]),
        }
    }
}

/// Decide what to do with the finalized line `line`.
pub fn dispatch(line: &str, aliases: &AliasTable) -> (a: Action)
    ensures
        a@ == spec_dispatch(line@, aliases@),
{
    if str_eq(line, "exit") {
        return Action::Exit;
    }
    let mut ts = tokenize(line);
    if ts.len() == 0 {
        return Action::Empty;
    }
    let ghost tsv = views(ts@);
    if str_eq(ts[0].as_str(), "cd") {
        if ts.len() >= 2 {
            let dir = ts[1].clone();
            return Action::ChangeDir { dir };
        } else {
            return Action::CdUsage;
        }
    }
    let path: String;
    match aliases.lookup(ts[0].as_str()) {
        Option::Some(p) => {
            path = p.clone();
        },
        Option::None => {
            let command = ts[0].clone();
            return Action::Unknown { command };
        },
    }
    let _first = ts.remove(0);
    proof {
        assert(views(ts@) =~= tsv.drop_first());
    }
    Action::Spawn { path, args: ts }
}

} // verus!
