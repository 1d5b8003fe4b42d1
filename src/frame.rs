use vstd::prelude::*;
use vstd::string::StringSliceAdditionalSpecFns;
use vstd::utf8::*;

verus! {

/// Delimiter byte (ASCII ETX) between fields and frames of the formatter's
/// wire protocol.
pub const SENTINEL: u8 = 3;

/// The bytes of a request: the path, a sentinel, the content, a sentinel.
pub open spec fn request_frame(path: Seq<u8>, content: Seq<u8>) -> Seq<u8> {
    path + seq![SENTINEL] + content + seq![SENTINEL]
}

/// Splits a byte stream at each sentinel: the completed frames, in order,
/// and the bytes after the last sentinel, which await more input.
pub open spec fn split_stream(s: Seq<u8>) -> (Seq<Seq<u8>>, Seq<u8>)
    decreases s.len(),
{
    if s.len() == 0 {
        (Seq::empty(), Seq::empty())
    } else {
        let (frames, rest) = split_stream(s.drop_last());
        if s.last() == SENTINEL {
            (frames.push(rest), Seq::empty())
        } else {
            (frames, rest.push(s.last()))
        }
    }
}

/// Text as it leaves a frame: the frame's bytes decoded as UTF-8, when valid.
pub open spec fn decoded(frame: Seq<u8>) -> Option<Seq<char>> {
    if valid_utf8(frame) {
        Some(decode_utf8(frame))
    } else {
        None
    }
}

proof fn lemma_split_without_sentinel(s: Seq<u8>)
    requires
        !s.contains(SENTINEL),
    ensures
        split_stream(s) == (Seq::<Seq<u8>>::empty(), s),
    decreases s.len(),
{
    if s.len() > 0 {
        assert(!s.drop_last().contains(SENTINEL)) by {
            if s.drop_last().contains(SENTINEL) {
                let i = choose|i: int| 0 <= i < s.drop_last().len() && s.drop_last()[i] == SENTINEL;
                assert(s[i] == SENTINEL);
            }
        }
        lemma_split_without_sentinel(s.drop_last());
        assert(s.last() != SENTINEL) by {
            assert(s[s.len() - 1] == s.last());
        }
        assert(s.drop_last().push(s.last()) =~= s);
    }
}

proof fn lemma_split_concat(a: Seq<u8>, b: Seq<u8>)
    requires
        split_stream(a).1.len() == 0,
    ensures
        split_stream(a + b) == (split_stream(a).0 + split_stream(b).0, split_stream(b).1),
    decreases b.len(),
{
    if b.len() == 0 {
        assert(a + b =~= a);
        assert(split_stream(a).0 + Seq::<Seq<u8>>::empty() =~= split_stream(a).0);
    } else {
        lemma_split_concat(a, b.drop_last());
        assert((a + b).drop_last() =~= a + b.drop_last());
        assert((a + b).last() == b.last());
        let fa = split_stream(a).0;
        let fb = split_stream(b.drop_last()).0;
        let rb = split_stream(b.drop_last()).1;
        assert((fa + fb).push(rb) =~= fa + fb.push(rb));
    }
}

proof fn lemma_split_field(a: Seq<u8>)
    requires
        !a.contains(SENTINEL),
    ensures
        split_stream(a + seq![SENTINEL]) == (seq![a], Seq::<u8>::empty()),
{
    lemma_split_without_sentinel(a);
    let s = a + seq![SENTINEL];
    assert(s.drop_last() =~= a);
    assert(Seq::<Seq<u8>>::empty().push(a) =~= seq![a]);
}

/// A request built from a path and a content with no sentinel byte in either
/// splits back into exactly those two fields, each decoding to its text.
pub proof fn lemma_request_round_trip(path: Seq<char>, content: Seq<char>)
    requires
        !encode_utf8(path).contains(SENTINEL),
        !encode_utf8(content).contains(SENTINEL),
    ensures
        split_stream(request_frame(encode_utf8(path), encode_utf8(content))) == (
            seq![encode_utf8(path), encode_utf8(content)],
            Seq::<u8>::empty(),
        ),
        decoded(encode_utf8(path)) == Some(path),
        decoded(encode_utf8(content)) == Some(content),
{
    let p = encode_utf8(path);
    let c = encode_utf8(content);
    lemma_split_field(p);
    lemma_split_field(c);
    let first = p + seq![SENTINEL];
    let second = c + seq![SENTINEL];
    lemma_split_concat(first, second);
    assert(request_frame(p, c) =~= first + second);
    assert(seq![p] + seq![c] =~= seq![p, c]);
    encode_utf8_valid_utf8(path);
    encode_utf8_valid_utf8(content);
    encode_utf8_decode_utf8(path);
    encode_utf8_decode_utf8(content);
}

fn append_bytes(out: &mut Vec<u8>, bytes: &[u8])
    ensures
        final(out)@ == old(out)@ + bytes@,
{
    let mut i: usize = 0;
    while i < bytes.len()
        invariant
            i <= bytes@.len(),
            out@ == old(out)@ + bytes@.subrange(0, i as int),
        decreases bytes@.len() - i,
    {
        out.push(bytes[i]);
        i = i + 1;
        assert(bytes@.subrange(0, i as int) =~= bytes@.subrange(0, i - 1).push(bytes@[i - 1]));
    }
    assert(bytes@.subrange(0, i as int) =~= bytes@);
}

/// The request bytes for formatting `content` as the file at `file_path`.
pub fn build_request(file_path: &str, content: &str) -> (r: Vec<u8>)
    ensures
        r@ == request_frame(file_path.spec_bytes(), content.spec_bytes()),
{
    let mut out: Vec<u8> = Vec::new();
    append_bytes(&mut out, file_path.as_bytes());
    out.push(SENTINEL);
    append_bytes(&mut out, content.as_bytes());
    out.push(SENTINEL);
    assert(out@ =~= request_frame(file_path.spec_bytes(), content.spec_bytes()));
    out
}

/// Relies on String::from_utf8: it succeeds exactly on valid UTF-8 and then
/// holds the decoded characters.
#[verifier::external_body]
fn string_from_utf8(bytes: Vec<u8>) -> (r: Option<String>)
    ensures
        match r {
            Some(s) => valid_utf8(bytes@) && s@ == decode_utf8(bytes@),
            None => !valid_utf8(bytes@),
        },
{
    String::from_utf8(bytes).ok()
}

#[derive(Clone, Copy, Debug, PartialEq, Eq)]
pub enum FrameError {
    /// A received frame is not valid UTF-8.
    InvalidUtf8,
}

/// Decodes one received frame as text.
pub fn decode_frame(frame: Vec<u8>) -> (r: Result<String, FrameError>)
    ensures
        match r {
            Ok(s) => decoded(frame@) == Some(s@),
            Err(e) => decoded(frame@) is None && e == FrameError::InvalidUtf8,
        },
{
    match string_from_utf8(frame) {
        Some(s) => Ok(s),
        None => Err(FrameError::InvalidUtf8),
    }
}

/// Reassembles frames from a byte stream that arrives in arbitrary chunks.
#[derive(Debug)]
pub struct FrameDecoder {
    pending: Vec<u8>,
}

impl FrameDecoder {
    /// Bytes received since the last sentinel.
    pub closed spec fn pending(&self) -> Seq<u8> {
        self.pending@
    }

    pub closed spec fn wf(&self) -> bool {
        !self.pending@.contains(SENTINEL)
    }

    pub fn new() -> (r: Self)
        ensures
            r.wf(),
            r.pending() == Seq::<u8>::empty(),
    {
        FrameDecoder { pending: Vec::new() }
    }

    /// Consumes a chunk of the stream and returns the frames it completes, in
    /// order; the bytes after the last sentinel stay pending.
    pub fn push(&mut self, chunk: &[u8]) -> (r: Vec<Vec<u8>>)
        requires
            old(self).wf(),
        ensures
            final(self).wf(),
            (r@.map_values(|f: Vec<u8>| f@), final(self).pending()) == split_stream(
                old(self).pending() + chunk@,
            ),
    {
        let ghost start = self.pending@;
        proof {
            lemma_split_without_sentinel(start);
        }
        let mut frames: Vec<Vec<u8>> = Vec::new();
        let mut i: usize = 0;
        while i < chunk.len()
            invariant
                i <= chunk@.len(),
                !self.pending@.contains(SENTINEL),
                (frames@.map_values(|f: Vec<u8>| f@), self.pending@) == split_stream(
                    start + chunk@.subrange(0, i as int),
                ),
            decreases chunk@.len() - i,
        {
            let ghost prev = start + chunk@.subrange(0, i as int);
            let ghost next = start + chunk@.subrange(0, i + 1);
            assert(next.drop_last() =~= prev);
            assert(next.last() == chunk@[i as int]);
            let b = chunk[i];
            if b == SENTINEL {
                let mut done: Vec<u8> = Vec::new();
                std::mem::swap(&mut self.pending, &mut done);
                let ghost old_frames = frames@;
                frames.push(done);
                assert(frames@.map_values(|f: Vec<u8>| f@) =~= old_frames.map_values(
                    |f: Vec<u8>| f@,
                ).push(done@));
                assert(!self.pending@.contains(SENTINEL)) by {
                    assert(self.pending@.len() == 0);
                }
                assert(self.pending@ =~= Seq::<u8>::empty());
            } else {
                let ghost old_pending = self.pending@;
                self.pending.push(b);
                assert(!self.pending@.contains(SENTINEL)) by {
                    if self.pending@.contains(SENTINEL) {
                        let j = choose|j: int|
                            0 <= j < self.pending@.len() && self.pending@[j] == SENTINEL;
                        if j < old_pending.len() {
                            assert(old_pending[j] == SENTINEL);
                        }
                    }
                }
            }
            i = i + 1;
        }
        assert(chunk@.subrange(0, i as int) =~= chunk@);
        frames
    }
}

} // verus!
