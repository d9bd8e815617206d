//! Building a rope from UTF-8 text that arrives in pieces: the bytes are checked and
//! buffered until they make whole scalars, and each valid run is appended to the rope.

use vstd::prelude::*;
use ropey::RopeBuilder as RopeyBuilder;
use vstd::utf8::*;
use vstd::string::StringExecFns;
use crate::utf8::{
    is_cut_scalar, lemma_decode_concat, lemma_valid_up_to_valid, str_from_utf8, valid_prefix_len,
    valid_up_to, ScalarScan,
};

verus! {

/// What the reader of a byte stream does next.
pub enum AssemblerAction {
    /// Append this text, the longest valid run of the bytes waiting.
    Append(String),
    /// Read more bytes.
    Read,
    /// The input has ended and every byte was taken.
    Finish,
    /// The bytes waiting begin with a sequence that is not UTF-8.
    InvalidData,
    /// The input ended in the middle of a scalar.
    UnexpectedEof,
}

/// The bytes read and not yet taken as text, and whether the input has ended.
pub struct Utf8Assembler {
    pending: Vec<u8>,
    seen_eof: bool,
}

/// The step from `before` to `after` that hands out `action`: the longest valid run of the
/// waiting bytes is appended; where there is none, the waiting bytes are invalid data, a
/// scalar cut by the end of the input, or a call for more bytes; with nothing waiting, the
/// input is finished once it has ended.
pub open spec fn assembler_step(before: Utf8Assembler, after: Utf8Assembler, action: AssemblerAction) -> bool {
    let p = before.pending();
    let v = valid_up_to(p);
    &&& after.has_seen_eof() == before.has_seen_eof()
    &&& (action is Append <==> v > 0)
    &&& (action is InvalidData <==> v == 0 && p.len() > 0 && !is_cut_scalar(p))
    &&& (action is UnexpectedEof <==> v == 0 && p.len() > 0 && is_cut_scalar(p) && before.has_seen_eof())
    &&& (action is Read <==> v == 0 && (p.len() == 0 || is_cut_scalar(p)) && !before.has_seen_eof())
    &&& (action is Finish <==> p.len() == 0 && before.has_seen_eof())
    &&& match action {
        AssemblerAction::Append(text) => {
            &&& valid_utf8(p.take(v as int))
            &&& text@ == decode_utf8(p.take(v as int))
            &&& after.pending() == p.skip(v as int)
        },
        _ => after.pending() == p,
    }
}

impl Utf8Assembler {
    /// The bytes read and not yet taken as text.
    pub closed spec fn pending(&self) -> Seq<u8> {
        self.pending@
    }

    /// Whether a read found the input's end.
    pub closed spec fn has_seen_eof(&self) -> bool {
        self.seen_eof
    }

    pub fn new() -> (res: Self)
        ensures
            res.pending() == Seq::<u8>::empty(),
            !res.has_seen_eof(),
    {
        Utf8Assembler { pending: Vec::new(), seen_eof: false }
    }

    /// Takes the bytes of a read; a read of no bytes marks the end of the input.
    pub fn on_read(&mut self, bytes: &[u8])
        ensures
            final(self).pending() == old(self).pending() + bytes@,
            final(self).has_seen_eof() == (bytes@.len() == 0),
    {
        let mut i: usize = 0;
        while i < bytes.len()
            invariant
                0 <= i <= bytes@.len(),
                self.pending@ == old(self).pending@ + bytes@.take(i as int),
            decreases bytes@.len() - i,
        {
            self.pending.push(bytes[i]);
            proof {
                assert(bytes@.take(i + 1) =~= bytes@.take(i as int).push(bytes@[i as int]));
            }
            i = i + 1;
        }
        proof {
            assert(bytes@.take(bytes@.len() as int) =~= bytes@);
        }
        self.seen_eof = bytes.len() == 0;
    }

    /// The next step: hands out the longest valid run of the waiting bytes as text, or says
    /// what to do when there is none.
    pub fn next_action(&mut self) -> (res: AssemblerAction)
        ensures
            assembler_step(*old(self), *final(self), res),
    {
        let ghost p = self.pending@;
        if self.pending.len() == 0 {
            proof {
                assert(valid_up_to(p) == 0);
            }
            return if self.seen_eof {
                AssemblerAction::Finish
            } else {
                AssemblerAction::Read
            };
        }
        let (valid_len, after) = valid_prefix_len(self.pending.as_slice());
        if valid_len == 0 {
            proof {
                assert(p.skip(0) =~= p);
            }
            return match after {
                Some(ScalarScan::Cut) => if self.seen_eof {
                    AssemblerAction::UnexpectedEof
                } else {
                    AssemblerAction::Read
                },
                _ => AssemblerAction::InvalidData,
            };
        }
        proof {
            lemma_valid_up_to_valid(p);
        }
        let rest = self.pending.split_off(valid_len);
        let text = match str_from_utf8(self.pending.as_slice()) {
            Some(text) => String::from_str(text),
            None => {
                proof {
                    assert(self.pending@ =~= p.take(valid_len as int));
                }
                String::new()
            },
        };
        proof {
            assert(self.pending@ =~= p.take(valid_len as int));
            assert(rest@ =~= p.skip(valid_len as int));
            encode_utf8_decode_utf8(text@);
        }
        self.pending = rest;
        AssemblerAction::Append(text)
    }
}

#[verifier::external_type_specification]
#[verifier::external_body]
pub struct ExRopeyBuilder(RopeyBuilder);

#[verifier::external_type_specification]
#[verifier::external_body]
pub struct ExRope(ropey::Rope);

/// The text appended so far to a `ropey::RopeBuilder`.
pub uninterp spec fn ropey_builder_text(builder: RopeyBuilder) -> Seq<char>;

/// The text that a `ropey::Rope` holds.
pub uninterp spec fn rope_text(rope: ropey::Rope) -> Seq<char>;

/// `ropey::RopeBuilder::new`: a builder that holds no text yet.
#[verifier::external_body]
fn ropey_builder_new() -> (res: RopeyBuilder)
    ensures
        ropey_builder_text(res) == Seq::<char>::empty(),
{
    RopeyBuilder::new()
}

/// `ropey::RopeBuilder::append`: the chunk goes at the end of the text built so far.
#[verifier::external_body]
fn ropey_builder_append(builder: &mut RopeyBuilder, chunk: &str)
    ensures
        ropey_builder_text(*final(builder)) == ropey_builder_text(*old(builder)) + chunk@,
{
    builder.append(chunk)
}

/// `ropey::RopeBuilder::finish`: the rope holds the text that was appended.
#[verifier::external_body]
fn ropey_builder_finish(builder: RopeyBuilder) -> (res: ropey::Rope)
    ensures
        rope_text(res) == ropey_builder_text(builder),
{
    builder.finish()
}

/// Builds a rope from the bytes of a stream, read in pieces: each valid run of UTF-8 is
/// appended as soon as it is whole.
pub struct RopeBuilder {
    assembler: Utf8Assembler,
    builder: RopeyBuilder,
    bytes_read: Ghost<Seq<u8>>,
}

impl RopeBuilder {
    /// Every byte read so far.
    pub closed spec fn bytes_read(&self) -> Seq<u8> {
        self.bytes_read@
    }

    /// The bytes read and not yet appended, and whether the input has ended.
    pub closed spec fn assembler(&self) -> Utf8Assembler {
        self.assembler
    }

    /// The text appended to the rope so far.
    pub closed spec fn text(&self) -> Seq<char> {
        ropey_builder_text(self.builder)
    }

    /// The bytes already taken as text.
    pub open spec fn taken(&self) -> Seq<u8> {
        self.bytes_read().take(self.bytes_read().len() - self.assembler().pending().len())
    }

    /// The bytes read are those taken, then those waiting; those taken are valid UTF-8 and
    /// the text is their decoding.
    pub open spec fn wf(&self) -> bool {
        &&& self.assembler().pending().len() <= self.bytes_read().len()
        &&& self.bytes_read() == self.taken() + self.assembler().pending()
        &&& valid_utf8(self.taken())
        &&& self.text() == decode_utf8(self.taken())
    }

    pub fn new() -> (res: Self)
        ensures
            res.wf(),
            res.bytes_read() == Seq::<u8>::empty(),
            res.assembler().pending() == Seq::<u8>::empty(),
            !res.assembler().has_seen_eof(),
            res.text() == Seq::<char>::empty(),
    {
        let res = RopeBuilder {
            assembler: Utf8Assembler::new(),
            builder: ropey_builder_new(),
            bytes_read: Ghost(Seq::empty()),
        };
        proof {
            assert(res.taken() =~= Seq::<u8>::empty());
            assert(res.bytes_read() =~= res.taken() + res.assembler().pending());
        }
        res
    }

    /// Takes the bytes of a read; a read of no bytes marks the end of the input.
    pub fn on_read(&mut self, bytes: &[u8])
        requires
            old(self).wf(),
        ensures
            final(self).wf(),
            final(self).bytes_read() == old(self).bytes_read() + bytes@,
            final(self).assembler().pending() == old(self).assembler().pending() + bytes@,
            final(self).assembler().has_seen_eof() == (bytes@.len() == 0),
            final(self).text() == old(self).text(),
    {
        self.assembler.on_read(bytes);
        self.bytes_read = Ghost(self.bytes_read@ + bytes@);
        proof {
            assert(self.taken() =~= old(self).taken());
            assert(self.bytes_read() =~= self.taken() + self.assembler().pending());
        }
    }

    /// The next step of the reading; a run of valid text is appended to the rope before it
    /// is handed out. When the input is finished, the rope's text is the decoding of every
    /// byte read; when the waiting bytes are invalid, no bytes that could follow make the
    /// input valid; when the input ended in the middle of a scalar, it is not valid.
    pub fn next_action(&mut self) -> (res: AssemblerAction)
        requires
            old(self).wf(),
        ensures
            final(self).wf(),
            assembler_step(old(self).assembler(), final(self).assembler(), res),
            final(self).bytes_read() == old(self).bytes_read(),
            match res {
                AssemblerAction::Append(text) => final(self).text() == old(self).text() + text@,
                _ => final(self).text() == old(self).text(),
            },
            res is Finish ==> valid_utf8(final(self).bytes_read()) && final(self).text() == decode_utf8(
                final(self).bytes_read(),
            ),
            res is InvalidData ==> forall|more: Seq<u8>| !valid_utf8(#[trigger] (final(self).bytes_read() + more)),
            res is UnexpectedEof ==> !valid_utf8(final(self).bytes_read()),
    {
        let ghost taken = self.taken();
        let ghost p = self.assembler().pending();
        let res = self.assembler.next_action();
        match &res {
            AssemblerAction::Append(text) => {
                ropey_builder_append(&mut self.builder, text.as_str());
                proof {
                    let v = valid_up_to(p) as int;
                    lemma_valid_up_to_valid(p);
                    lemma_decode_concat(taken, p.take(v));
                    assert(p =~= p.take(v) + p.skip(v));
                    assert(self.taken() =~= taken + p.take(v));
                    assert(self.bytes_read() =~= self.taken() + self.assembler().pending());
                }
            },
            _ => {
                proof {
                    assert(self.taken() == taken);
                }
            },
        }
        proof {
            if res is Finish {
                assert(self.bytes_read() =~= taken);
            }
            if res is InvalidData {
                assert forall|more: Seq<u8>| !valid_utf8(#[trigger] (self.bytes_read() + more)) by {
                    lemma_invalid_stays_invalid(taken, p, more);
                }
            }
            if res is UnexpectedEof {
                lemma_invalid_stays_invalid(taken, p, Seq::empty());
                assert(self.bytes_read() + Seq::<u8>::empty() =~= self.bytes_read());
            }
        }
        res
    }

    /// The rope, holding the text appended.
    pub fn finish(self) -> (res: ropey::Rope)
        ensures
            rope_text(res) == self.text(),
    {
        ropey_builder_finish(self.builder)
    }
}

/// After valid bytes, waiting bytes that begin no scalar and are no cut scalar leave the
/// input invalid whatever follows; so do waiting bytes that are a cut scalar, when nothing
/// follows.
proof fn lemma_invalid_stays_invalid(taken: Seq<u8>, p: Seq<u8>, more: Seq<u8>)
    requires
        valid_utf8(taken),
        p.len() > 0,
        valid_up_to(p) == 0,
        more.len() > 0 ==> !is_cut_scalar(p),
    ensures
        !valid_utf8(taken + p + more),
{
    let bytes = taken + p + more;
    let i = taken.len() as int;
    assert(bytes.subrange(0, i) =~= taken);
    let tail = bytes.subrange(i, bytes.len() as int);
    assert(tail =~= p + more);
    if valid_utf8(tail) {
        assert(valid_first_scalar(tail));
        let w = length_of_first_scalar(tail);
        if w <= p.len() {
            assert(tail.take(p.len() as int) =~= p);
            crate::utf8::lemma_first_scalar_prefix(tail, p.len() as int);
        } else {
            assert(valid_first_scalar(p + more) && p.len() < length_of_first_scalar(p + more));
            if more.len() == 0 {
                assert(p + more =~= p);
            }
        }
    }
    partial_valid_partial_invalid_utf8(bytes, i);
}

} // verus!
