//! The relay that turns the bytes of one output stream of the audit tool
//! into lines of text.
//!
//! A relay takes the bytes in as they are read, in chunks of any size, and
//! hands out every line as soon as its line ending has arrived. The lines
//! it hands out depend on the bytes alone, not on how they were cut into
//! chunks; each stream has a relay of its own, so what arrives on the
//! other stream has no part in them.
use crate::split::{line_scan, split_lines, strings, strip_cr};
use vstd::prelude::*;
use vstd::utf8::{decode_utf8, valid_utf8};

verus! {

/// The byte that ends a line.
pub const LINE_FEED: u8 = 10;

/// The byte that may stand before a line feed and then belongs to the line
/// ending.
pub const CARRIAGE_RETURN: u8 = 13;

/// Calls `String::from_utf8` of the standard library, which returns the
/// text that the bytes encode in UTF-8, and an error where they encode
/// none. The contract says so with `valid_utf8` and `decode_utf8`.
#[verifier::external_body]
fn text_of_bytes(bytes: Vec<u8>) -> (text: Option<String>)
    ensures
        text is Some <==> valid_utf8(bytes@),
        text matches Some(t) ==> t@ == decode_utf8(bytes@),
{
    String::from_utf8(bytes).ok()
}

/// What a relay makes of the lines of a stream: the texts of the lines in
/// order, up to the first line that is no text, and whether there was such
/// a line. After a line that is no text nothing more is relayed.
pub open spec fn relay_lines(lines: Seq<Seq<u8>>) -> (Seq<Seq<char>>, bool)
    decreases lines.len(),
{
    if lines.len() == 0 {
        (Seq::empty(), false)
    } else {
        let (sent, stopped) = relay_lines(lines.drop_last());
        if stopped {
            (sent, true)
        } else if valid_utf8(lines.last()) {
            (sent.push(decode_utf8(lines.last())), false)
        } else {
            (sent, true)
        }
    }
}

/// The lines that a relay has handed out once it has taken in `seen`: the
/// lines that `seen` completes.
pub open spec fn relayed_so_far(seen: Seq<u8>) -> Seq<Seq<char>> {
    relay_lines(line_scan(seen, LINE_FEED, CARRIAGE_RETURN).0).0
}

/// The lines that a relay hands out for a stream that held `content` and
/// then ended: the lines of `content`, the last of them also where no line
/// ending follows it.
pub open spec fn relayed(content: Seq<u8>) -> Seq<Seq<char>> {
    relay_lines(split_lines(content, LINE_FEED, CARRIAGE_RETURN)).0
}

/// The texts of `lines`, each decoded on its own.
pub open spec fn decoded(lines: Seq<Seq<u8>>) -> Seq<Seq<char>> {
    lines.map_values(|line: Seq<u8>| decode_utf8(line))
}

/// Where every line of a stream is text, the relay hands out exactly the
/// lines of the stream, in order.
pub proof fn lemma_relay_of_text(lines: Seq<Seq<u8>>)
    requires
        forall|i: int| 0 <= i < lines.len() ==> valid_utf8(#[trigger] lines[i]),
    ensures
        relay_lines(lines) == (decoded(lines), false),
    decreases lines.len(),
{
    if lines.len() > 0 {
        let init = lines.drop_last();
        assert forall|i: int| 0 <= i < init.len() implies valid_utf8(#[trigger] init[i]) by {
            assert(init[i] == lines[i]);
        }
        lemma_relay_of_text(init);
        assert(decoded(lines) == decoded(init).push(decode_utf8(lines.last())));
    } else {
        assert(decoded(lines) == Seq::<Seq<char>>::empty());
    }
}

/// The relay of one stream.
pub struct StreamRelay {
    /// The bytes of the line that is still open.
    open: Vec<u8>,
    /// Whether a line was no text, so that nothing more is relayed.
    stopped: bool,
    /// Every byte taken in so far.
    seen: Ghost<Seq<u8>>,
    /// Every line handed out so far.
    sent: Ghost<Seq<Seq<char>>>,
}

impl StreamRelay {
    /// The bytes that the relay has taken in, in order.
    pub closed spec fn seen(&self) -> Seq<u8> {
        self.seen@
    }

    /// The lines that the relay has handed out, in order.
    pub closed spec fn sent(&self) -> Seq<Seq<char>> {
        self.sent@
    }

    /// Whether the relay has met a line that is no text.
    pub closed spec fn stopped(&self) -> bool {
        self.stopped
    }

    /// The relay's invariant: it has handed out what the bytes taken in
    /// call for, and holds the bytes of the open line.
    pub closed spec fn wf(&self) -> bool {
        let (lines, open) = line_scan(self.seen@, LINE_FEED, CARRIAGE_RETURN);
        &&& relay_lines(lines) == (self.sent@, self.stopped)
        &&& !self.stopped ==> self.open@ == open
    }

    /// What a well-formed relay has handed out is decided by the bytes it
    /// has taken in.
    pub proof fn lemma_sent_follows_seen(&self)
        requires
            self.wf(),
        ensures
            self.sent() == relayed_so_far(self.seen()),
            self.stopped() == relay_lines(
                line_scan(self.seen(), LINE_FEED, CARRIAGE_RETURN).0,
            ).1,
    {
    }

    /// A relay that has taken in nothing.
    pub fn new() -> (relay: StreamRelay)
        ensures
            relay.wf(),
            relay.seen() == Seq::<u8>::empty(),
            relay.sent() == Seq::<Seq<char>>::empty(),
            !relay.stopped(),
    {
        StreamRelay {
            open: Vec::new(),
            stopped: false,
            seen: Ghost(Seq::empty()),
            sent: Ghost(Seq::empty()),
        }
    }

    /// Whether the relay has met a line that is no text. Such a relay hands
    /// out nothing more, so its stream need not be read on.
    pub fn is_stopped(&self) -> (stopped: bool)
        ensures
            stopped == self.stopped(),
    {
        self.stopped
    }

    /// Takes in the next bytes of the stream and returns the lines that
    /// they complete, in order.
    pub fn feed(&mut self, chunk: &[u8]) -> (lines: Vec<String>)
        requires
            old(self).wf(),
        ensures
            final(self).wf(),
            final(self).seen() == old(self).seen() + chunk@,
            final(self).sent() == old(self).sent() + strings(lines@),
            final(self).sent() == relayed_so_far(final(self).seen()),
    {
        let mut lines: Vec<String> = Vec::new();
        let mut i: usize = 0;
        assert(strings(lines@) == Seq::<Seq<char>>::empty());
        assert(chunk@.take(0) == Seq::<u8>::empty());
        assert(self.seen@ + Seq::<u8>::empty() == self.seen@);
        assert(self.sent@ + Seq::<Seq<char>>::empty() == self.sent@);
        while i < chunk.len()
            invariant
                i <= chunk.len(),
                self.wf(),
                self.seen@ == old(self).seen@ + chunk@.take(i as int),
                self.sent@ == old(self).sent@ + strings(lines@),
            decreases chunk.len() - i,
        {
            let byte = chunk[i];
            let ghost before = self.seen@;
            let ghost after = before.push(byte);
            assert(after.drop_last() == before);
            assert(old(self).seen@ + chunk@.take(i + 1) == after);
            let ghost (done, open) = line_scan(before, LINE_FEED, CARRIAGE_RETURN);
            let ghost closed = strip_cr(open, CARRIAGE_RETURN);
            assert(done.push(closed).drop_last() == done);
            if self.stopped {
            } else if byte == LINE_FEED {
                let mut line: Vec<u8> = Vec::new();
                std::mem::swap(&mut line, &mut self.open);
                if line.len() > 0 && line[line.len() - 1] == CARRIAGE_RETURN {
                    let _ = line.pop();
                }
                assert(line@ == closed);
                match text_of_bytes(line) {
                    Some(text) => {
                        let ghost held = strings(lines@);
                        proof {
                            self.sent@ = self.sent@.push(text@);
                        }
                        lines.push(text);
                        assert(strings(lines@) == held.push(text@));
                        assert(old(self).sent@ + held.push(text@) == (old(self).sent@
                            + held).push(text@));
                    },
                    None => {
                        self.stopped = true;
                    },
                }
            } else {
                self.open.push(byte);
            }
            proof {
                self.seen@ = after;
            }
            i += 1;
        }
        assert(chunk@.take(chunk@.len() as int) == chunk@);
        lines
    }

    /// Ends the stream. Returns the line that was still open, where there
    /// is one to relay: with what was handed out before, it makes up the
    /// lines of the whole stream.
    pub fn close(self) -> (last: Option<String>)
        requires
            self.wf(),
        ensures
            relayed(self.seen()) == self.sent() + match last {
                Some(line) => seq![line@],
                None => Seq::empty(),
            },
    {
        let ghost (lines, open) = line_scan(self.seen@, LINE_FEED, CARRIAGE_RETURN);
        assert(self.sent@ + Seq::<Seq<char>>::empty() == self.sent@);
        if self.stopped {
            proof {
                if open.len() > 0 {
                    assert(lines.push(open).drop_last() == lines);
                }
            }
            None
        } else if self.open.len() == 0 {
            None
        } else {
            proof {
                assert(lines.push(open).drop_last() == lines);
            }
            let last = text_of_bytes(self.open);
            proof {
                if let Some(line) = &last {
                    assert(self.sent@ + seq![line@] == self.sent@.push(line@));
                }
            }
            last
        }
    }
}

} // verus!
