//! The front-end modes and the decisions of the read–eval loop.
//!
//! The loop itself performs I/O — it reads lines, runs inference and
//! prints — so it lives outside the verified library; what stands here is
//! the decision it takes after every read.

use vstd::prelude::*;

verus! {

/// The front-end modes a user can pick.
#[derive(Debug, Copy, Clone, PartialEq, Eq, Structural)]
pub enum Mode {
    /// Run a read–eval loop that answers each line.
    Repl {
        /// Whether the flag was given on the command line.
        repl: bool,
    },
    /// Run an interactive conversation with a sliding context window.
    Interactive {
        /// Whether the flag was given on the command line.
        interactive: bool,
    },
}

/// What the line editor handed back for one read.
#[derive(Debug)]
pub enum ReplEvent {
    /// A complete input line.
    Line(String),
    /// The user interrupted the read.
    Interrupted,
    /// The input ended.
    Eof,
    /// Any other read failure.
    ReadFailed,
}

/// What the loop must do next.
#[derive(Debug)]
pub enum ReplAction {
    /// Run inference on the prompt built from this line.
    Infer(String),
    /// Leave the loop.
    Stop,
    /// Report the failure and read again.
    ReportError,
}

/// One decision of the read–eval loop: a line is answered by running
/// inference on it, the end of input or an interrupt leaves the loop, and
/// any other read failure is reported and the loop goes on.
pub fn repl_step(event: ReplEvent) -> (r: ReplAction)
    ensures
        event matches ReplEvent::Line(l) ==> r matches ReplAction::Infer(p) && p == l,
        event is Interrupted || event is Eof ==> r is Stop,
        event is ReadFailed ==> r is ReportError,
{
    match event {
        ReplEvent::Line(l) => ReplAction::Infer(l),
        ReplEvent::Interrupted => ReplAction::Stop,
        ReplEvent::Eof => ReplAction::Stop,
        ReplEvent::ReadFailed => ReplAction::ReportError,
    }
}

/// Replacing every occurrence of `pat` in `h`, left to right and without
/// overlap, by `rep`. An empty pattern matches nothing.
pub open spec fn spec_replace_all(h: Seq<u8>, pat: Seq<u8>, rep: Seq<u8>) -> Seq<u8>
    decreases h.len(),
{
    if pat.len() == 0 || h.len() < pat.len() {
        h
    } else if h.subrange(0, pat.len() as int) == pat {
        rep + spec_replace_all(h.skip(pat.len() as int), pat, rep)
    } else {
        seq![h[0]] + spec_replace_all(h.skip(1), pat, rep)
    }
}

/// Build the prompt for one line: replace every occurrence of the
/// placeholder `pat` in the template by the line's bytes.
pub fn substitute_prompt(template: &[u8], pat: &[u8], line: &[u8]) -> (r: Vec<u8>)
    ensures
        r@ == spec_replace_all(template@, pat@, line@),
{
    let mut out: Vec<u8> = Vec::new();
    let mut i: usize = 0;
    let hl = template.len();
    let pl = pat.len();
    proof {
        assert(template@.skip(0) =~= template@);
        assert(Seq::<u8>::empty() + spec_replace_all(template@, pat@, line@) =~= spec_replace_all(
            template@,
            pat@,
            line@,
        ));
    }
    while i < hl
        invariant
            i <= hl,
            hl == template@.len(),
            pl == pat@.len(),
            spec_replace_all(template@, pat@, line@) == out@ + spec_replace_all(
                template@.skip(i as int),
                pat@,
                line@,
            ),
        decreases hl - i,
    {
        let ghost pre = out@;
        let ghost rest = template@.skip(i as int);
        if pl != 0 && pl <= hl - i && crate::split::matches_at(template, pat, i) {
            proof {
                assert(rest.subrange(0, pl as int) =~= template@.subrange(i as int, i + pl));
                assert(rest.skip(pl as int) =~= template@.skip(i + pl));
            }
            let mut k: usize = 0;
            while k < line.len()
                invariant
                    k <= line@.len(),
                    out@ == pre + line@.subrange(0, k as int),
                decreases line@.len() - k,
            {
                out.push(line[k]);
                k = k + 1;
                proof {
                    assert(out@ =~= pre + line@.subrange(0, k as int));
                }
            }
            i = i + pl;
            proof {
                assert(line@.subrange(0, line@.len() as int) =~= line@);
                assert(out@ + spec_replace_all(template@.skip(i as int), pat@, line@) =~= pre + (
                line@ + spec_replace_all(template@.skip(i as int), pat@, line@)));
            }
        } else {
            out.push(template[i]);
            i = i + 1;
            proof {
                if pl != 0 && i - 1 + pl <= hl {
                    assert(rest.subrange(0, pl as int) =~= template@.subrange(i - 1, i - 1 + pl));
                }
                assert(rest.skip(1) =~= template@.skip(i as int));
                assert(seq![template@[i - 1]] =~= rest.subrange(0, 1));
                assert(out@ + spec_replace_all(template@.skip(i as int), pat@, line@) =~= pre + (
                seq![rest[0]] + spec_replace_all(template@.skip(i as int), pat@, line@)));
            }
        }
    }
    proof {
        assert(template@.skip(i as int) =~= Seq::<u8>::empty());
        assert(out@ + spec_replace_all(template@.skip(i as int), pat@, line@) =~= out@);
    }
    out
}

} // verus!
