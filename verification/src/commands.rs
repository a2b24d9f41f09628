//! The computing half of the test runner: turning a configured test command
//! into the words handed to the process spawner, and judging one finished
//! command.  Spawning itself happens outside the library.

use crate::json::bytes_seqs;
use vstd::prelude::*;

verus! {

broadcast use vstd::std_specs::vec::group_vec_axioms, vstd::seq::group_seq_axioms;

/// The pieces of a command split on single spaces, from position `i` on:
/// every space ends a piece, so consecutive spaces yield empty pieces, and
/// there is always at least the one piece.
pub open spec fn spec_split_from(s: Seq<u8>, i: int) -> Seq<Seq<u8>>
    decreases s.len() - i,
{
    if i < 0 || i >= s.len() {
        seq![Seq::<u8>::empty()]
    } else if s[i] == 32 {
        seq![Seq::<u8>::empty()] + spec_split_from(s, i + 1)
    } else {
        let rest = spec_split_from(s, i + 1);
        seq![seq![s[i]] + rest[0]] + rest.subrange(1, rest.len() as int)
    }
}

fn split_from(s: &[u8], i: usize) -> (r: Vec<Vec<u8>>)
    requires
        i <= s@.len(),
    ensures
        bytes_seqs(r@) == spec_split_from(s@, i as int),
        r@.len() >= 1,
    decreases s@.len() - i,
{
    if i >= s.len() {
        let mut out: Vec<Vec<u8>> = Vec::new();
        out.push(Vec::new());
        proof {
            assert(bytes_seqs(out@) =~= seq![Seq::<u8>::empty()]);
        }
        out
    } else if s[i] == 32 {
        let mut rest = split_from(s, i + 1);
        let ghost rest0 = bytes_seqs(rest@);
        let mut out: Vec<Vec<u8>> = Vec::new();
        out.push(Vec::new());
        out.append(&mut rest);
        proof {
            assert(bytes_seqs(out@) =~= seq![Seq::<u8>::empty()] + rest0);
        }
        out
    } else {
        let mut rest = split_from(s, i + 1);
        let ghost rest0 = bytes_seqs(rest@);
        let head = rest.remove(0);
        let mut first: Vec<u8> = Vec::new();
        first.push(s[i]);
        let mut old_head = head;
        first.append(&mut old_head);
        let mut out: Vec<Vec<u8>> = Vec::new();
        out.push(first);
        out.append(&mut rest);
        proof {
            assert(first@ =~= seq![s@[i as int]] + rest0[0]);
            assert(bytes_seqs(out@) =~= seq![seq![s@[i as int]] + rest0[0]] + rest0.subrange(
                1,
                rest0.len() as int,
            ));
        }
        out
    }
}

/// Splits a configured command line into the word that names the program and
/// the words handed to it, on single spaces, as the runner does.
pub fn split_command(cmd: &[u8]) -> (r: Vec<Vec<u8>>)
    ensures
        bytes_seqs(r@) == spec_split_from(cmd@, 0),
        r@.len() >= 1,
{
    split_from(cmd, 0)
}

/// A test command that exited unsuccessfully, by its configured text.
pub struct TestFailure {
    pub test: String,
}

/// Judges one finished test command: a successful exit passes; anything else
/// fails the whole run, naming the test.
pub fn command_verdict(test: &str, exit_ok: bool) -> (r: Result<(), TestFailure>)
    ensures
        r is Ok <==> exit_ok,
        r matches Err(f) ==> f.test@ == test@,
{
    if exit_ok {
        Ok(())
    } else {
        Err(TestFailure { test: test.to_owned() })
    }
}

} // verus!
