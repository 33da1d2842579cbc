//! The receiving ends of the channels that carry the audit tool's lines and
//! its exit code from the workers to the check.
//!
//! What a channel delivers is decided by the worker at its other end. What
//! was taken from a channel so far belongs to the state of its receiving
//! end, which only a wait on the channel changes: `taken_lines` and
//! `taken_codes` name it. The functions that wait on a channel say what
//! they took and what they made of it: `receive_stdout` and
//! `receive_stderr` take messages until the channel ends and return the
//! lines in the order in which they came, `receive_code` takes one
//! message.
use crate::field::text_of;
use crate::split::strings;
use std::sync::mpsc::Receiver;
use vstd::prelude::*;

verus! {

/// The exit code that stands for an audit tool that reported none.
pub const MISSING_CODE: i32 = -1;

/// Makes `std::sync::mpsc::Receiver` known as a type of which nothing is
/// seen but that it can be handed on.
#[verifier::external_type_specification]
#[verifier::external_body]
#[verifier::reject_recursive_types(T)]
pub struct ExReceiver<T>(Receiver<T>);

/// The messages that were taken from a channel of lines at its receiving
/// end `rx`, in the order in which they were taken. `None` stands for a
/// wait that found the channel at its end.
pub uninterp spec fn taken_lines(rx: Receiver<String>) -> Seq<Option<Seq<char>>>;

/// The messages that were taken from a channel of exit codes at its
/// receiving end `rx`, in the order in which they were taken. `None`
/// stands for a wait that found the channel at its end.
pub uninterp spec fn taken_codes(rx: Receiver<i32>) -> Seq<Option<i32>>;

/// Calls `Receiver::recv` of the standard library on a channel of lines:
/// waits for the next message and returns it, or returns `None` once every
/// sender is gone and nothing is left in the channel. Which of the two
/// happens lies with the senders; the contract only puts what was returned
/// at the end of what was taken.
#[verifier::external_body]
fn next_line(rx: &mut Receiver<String>) -> (message: Option<String>)
    ensures
        taken_lines(*final(rx)) == taken_lines(*old(rx)).push(text_of(message)),
{
    rx.recv().ok()
}

/// Calls `Receiver::recv` of the standard library on a channel of exit
/// codes, as `next_line` does on a channel of lines.
#[verifier::external_body]
fn next_code(rx: &mut Receiver<i32>) -> (message: Option<i32>)
    ensures
        taken_codes(*final(rx)) == taken_codes(*old(rx)).push(message),
{
    rx.recv().ok()
}

/// Takes in what a channel of lines delivered: a line is put at the end of
/// `buf`, and the end of the channel changes nothing. Returns whether more
/// may come.
pub fn keep(buf: &mut Vec<String>, message: Option<String>) -> (more: bool)
    ensures
        more == message is Some,
        match message {
            Some(line) => final(buf)@ == old(buf)@.push(line),
            None => final(buf)@ == old(buf)@,
        },
{
    match message {
        Some(line) => {
            buf.push(line);
            true
        },
        None => false,
    }
}

/// The exit code that a message of the code channel stands for: the code
/// that was sent, and `MISSING_CODE` for the end of the channel.
pub open spec fn code_of(message: Option<i32>) -> i32 {
    match message {
        Some(code) => code,
        None => MISSING_CODE,
    }
}

/// The exit code that the code channel delivered, and `MISSING_CODE` where
/// the channel ended without one.
pub fn code_or_missing(message: Option<i32>) -> (code: i32)
    ensures
        code == code_of(message),
{
    match message {
        Some(c) => c,
        None => MISSING_CODE,
    }
}

/// The lines as the messages that carried them.
pub open spec fn carried(lines: Seq<Seq<char>>) -> Seq<Option<Seq<char>>> {
    lines.map_values(|line: Seq<char>| Some(line))
}

/// What is taken from a channel when `lines` are gathered from it: the
/// messages that carried the lines, and then the end of the channel. Only a
/// gathering that filled its vector to the last place stops before the end.
pub open spec fn gathering(lines: Seq<Seq<char>>) -> Seq<Option<Seq<char>>> {
    if lines.len() < usize::MAX {
        carried(lines).push(None)
    } else {
        carried(lines)
    }
}

/// Gathers the lines that arrive on `rx`, in the order in which they
/// arrive, until the channel ends. Each message is taken in by `keep`.
fn receive_lines(rx: &mut Receiver<String>) -> (buf: Vec<String>)
    ensures
        taken_lines(*final(rx)) == taken_lines(*old(rx)) + gathering(strings(buf@)),
{
    let mut buf: Vec<String> = Vec::new();
    assert(strings(buf@) == Seq::<Seq<char>>::empty());
    assert(taken_lines(*old(rx)) + carried(strings(buf@)) == taken_lines(*old(rx)));
    // A vector never holds `usize::MAX` strings, so the bound only serves
    // to show that the loop is left.
    while buf.len() < usize::MAX
        invariant
            buf.len() <= usize::MAX,
            taken_lines(*rx) == taken_lines(*old(rx)) + carried(strings(buf@)),
        decreases usize::MAX - buf.len(),
    {
        let ghost before = taken_lines(*old(rx));
        let ghost held = strings(buf@);
        let message = next_line(rx);
        let ghost got = text_of(message);
        if !keep(&mut buf, message) {
            assert(before + carried(held).push(None) == (before + carried(held)).push(None));
            return buf;
        }
        assert(strings(buf@) == held.push(got->0));
        assert(carried(strings(buf@)) == carried(held).push(got));
        assert(before + carried(held).push(got) == (before + carried(held)).push(got));
    }
    buf
}

/// Gathers the lines of the audit tool's standard output as the relay
/// sends them, until the relay closes the channel: the messages are taken
/// from `rx` one after the other up to the end of the channel, and the
/// lines they carried are returned in the order in which they came.
pub fn receive_stdout(rx: &mut Receiver<String>) -> (buf: Vec<String>)
    ensures
        taken_lines(*final(rx)) == taken_lines(*old(rx)) + gathering(strings(buf@)),
{
    receive_lines(rx)
}

/// Gathers the lines of the audit tool's standard error as the relay sends
/// them, until the relay closes the channel: the messages are taken from
/// `rx` one after the other up to the end of the channel, and the lines
/// they carried are returned in the order in which they came.
pub fn receive_stderr(rx: &mut Receiver<String>) -> (buf: Vec<String>)
    ensures
        taken_lines(*final(rx)) == taken_lines(*old(rx)) + gathering(strings(buf@)),
{
    receive_lines(rx)
}

/// Waits for the exit code of the audit tool: takes one message from `rx`
/// and returns the code that it stands for. Where the channel ends without
/// a code, that is `MISSING_CODE`, which is no success.
pub fn receive_code(rx: &mut Receiver<i32>) -> (code: i32)
    ensures
        taken_codes(*final(rx)).len() == taken_codes(*old(rx)).len() + 1,
        taken_codes(*final(rx)) == taken_codes(*old(rx)).push(taken_codes(*final(rx)).last()),
        code == code_of(taken_codes(*final(rx)).last()),
{
    code_or_missing(next_code(rx))
}

} // verus!
