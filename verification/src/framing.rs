//! Cutting a character stream into frames that each end with a closing brace.

use std::collections::VecDeque;
use vstd::prelude::*;
use vstd::std_specs::iter::IteratorSpec;
use vstd::string::StringSliceAdditionalSpecFns;
use vstd::utf8::{decode_utf8, valid_utf8};

verus! {

/// Position of the first `mark` in `text`, or the length of `text` if it holds none.
pub open spec fn first_at(text: Seq<char>, mark: char) -> int
    decreases text.len(),
{
    if text.len() == 0 || text[0] == mark {
        0
    } else {
        1 + first_at(text.drop_first(), mark)
    }
}

/// `first_at` is within bounds, nothing before it is `mark`, and `mark`
/// stands at it unless it is the end.
pub proof fn lemma_first_at(text: Seq<char>, mark: char)
    ensures
        0 <= first_at(text, mark) <= text.len(),
        forall|j: int| 0 <= j < first_at(text, mark) ==> text[j] != mark,
        first_at(text, mark) < text.len() ==> text[first_at(text, mark)] == mark,
    decreases text.len(),
{
    if text.len() == 0 || text[0] == mark {
    } else {
        let rest = text.drop_first();
        lemma_first_at(rest, mark);
        assert forall|j: int| 0 <= j < first_at(text, mark) implies text[j] != mark by {
            if j > 0 {
                assert(text[j] == rest[j - 1]);
            }
        }
        if first_at(rest, mark) < rest.len() {
            assert(text[first_at(text, mark)] == rest[first_at(rest, mark)]);
        }
    }
}

/// Any position with the three properties of `lemma_first_at` is `first_at`.
pub proof fn lemma_first_at_unique(text: Seq<char>, mark: char, i: int)
    requires
        0 <= i <= text.len(),
        forall|j: int| 0 <= j < i ==> text[j] != mark,
        i < text.len() ==> text[i] == mark,
    ensures
        i == first_at(text, mark),
{
    lemma_first_at(text, mark);
}

/// The part of `text` in front of its first NUL character.
pub open spec fn before_nul(text: Seq<char>) -> Seq<char> {
    text.take(first_at(text, '\0'))
}

/// The character that ends a frame.
pub const FRAME_END: char = '}';

/// Whether `text` holds a complete frame, that is, a closing brace.
pub open spec fn has_frame(text: Seq<char>) -> bool {
    first_at(text, FRAME_END) < text.len()
}

/// The first frame of `text`: everything up to and including the first
/// closing brace.
pub open spec fn head_frame(text: Seq<char>) -> Seq<char> {
    text.take(first_at(text, FRAME_END) + 1)
}

/// What follows the first frame of `text`.
pub open spec fn after_frame(text: Seq<char>) -> Seq<char> {
    text.skip(first_at(text, FRAME_END) + 1)
}

/// All complete frames of `text`, in order.
pub open spec fn frames(text: Seq<char>) -> Seq<Seq<char>>
    decreases text.len(),
{
    if has_frame(text) {
        proof {
            lemma_first_at(text, FRAME_END);
        }
        seq![head_frame(text)] + frames(after_frame(text))
    } else {
        Seq::empty()
    }
}

/// What is left of `text` once all complete frames are taken: the start of
/// a frame whose closing brace has not arrived, or nothing.
pub open spec fn leftover(text: Seq<char>) -> Seq<char>
    decreases text.len(),
{
    if has_frame(text) {
        proof {
            lemma_first_at(text, FRAME_END);
        }
        leftover(after_frame(text))
    } else {
        text
    }
}

/// `std::str::from_utf8`: succeeds exactly on valid UTF-8, and the text it
/// returns is made of the very bytes it was given.
#[verifier::external_body]
fn text_of(bytes: &[u8]) -> (text: Option<&str>)
    ensures
        text is Some <==> valid_utf8(bytes@),
        text matches Some(s) ==> s.spec_bytes() == bytes@,
{
    match std::str::from_utf8(bytes) {
        Ok(s) => Some(s),
        Err(_) => None,
    }
}

/// `String::push`: appends one character to the end of the string.
#[verifier::external_body]
fn push_char(text: &mut String, c: char)
    ensures
        final(text)@ == old(text)@.push(c),
{
    text.push(c);
}

/// Characters received and not yet handed out as a frame.
pub struct FrameBuffer {
    queue: VecDeque<char>,
}

impl View for FrameBuffer {
    type V = Seq<char>;

    closed spec fn view(&self) -> Seq<char> {
        self.queue@
    }
}

impl FrameBuffer {
    /// An empty buffer.
    pub fn new() -> (buffer: FrameBuffer)
        ensures
            buffer@ == Seq::<char>::empty(),
    {
        FrameBuffer { queue: VecDeque::new() }
    }

    /// Appends the characters of `text` that stand in front of its first NUL.
    pub fn push_text(&mut self, text: &str)
        ensures
            final(self)@ == old(self)@ + before_nul(text@),
    {
        broadcast use vstd::string::group_string_axioms;

        let mut it = text.chars();
        let ghost mut taken: int = 0;
        loop
            invariant_except_break
                it.obeys_prophetic_iter_laws(),
                0 <= taken <= text@.len(),
                it.remaining() == text@.skip(taken),
                forall|j: int| 0 <= j < taken ==> text@[j] != '\0',
                self@ == old(self)@ + text@.take(taken),
            ensures
                0 <= taken <= text@.len(),
                forall|j: int| 0 <= j < taken ==> text@[j] != '\0',
                taken < text@.len() ==> text@[taken] == '\0',
                self@ == old(self)@ + text@.take(taken),
            decreases text@.len() - taken,
        {
            match it.next() {
                Some(c) => {
                    if c == '\0' {
                        break ;
                    }
                    self.queue.push_back(c);
                    proof {
                        assert(text@.take(taken + 1) =~= text@.take(taken).push(c));
                        taken = taken + 1;
                    }
                },
                None => {
                    break ;
                },
            }
        }
        proof {
            lemma_first_at_unique(text@, '\0', taken);
        }
    }

    /// Decodes `bytes` as UTF-8 and appends what stands in front of the
    /// first NUL. Bytes that are not valid UTF-8 are refused and leave the
    /// buffer as it was.
    pub fn push_bytes(&mut self, bytes: &[u8]) -> (accepted: bool)
        ensures
            accepted == valid_utf8(bytes@),
            accepted ==> final(self)@ == old(self)@ + before_nul(decode_utf8(bytes@)),
            !accepted ==> final(self)@ == old(self)@,
    {
        match text_of(bytes) {
            Some(text) => {
                proof {
                    vstd::utf8::encode_utf8_decode_utf8(text@);
                }
                self.push_text(text);
                true
            },
            None => false,
        }
    }

    /// Whether nothing is waiting in the buffer.
    pub fn is_empty(&self) -> (empty: bool)
        ensures
            empty == (self@.len() == 0),
    {
        self.queue.len() == 0
    }

    /// Takes the first complete frame out of the buffer, if there is one.
    pub fn next_frame(&mut self) -> (frame: Option<String>)
        ensures
            frame is Some == has_frame(old(self)@),
            frame matches Some(text) ==> text@ == head_frame(old(self)@) && final(self)@
                == after_frame(old(self)@),
            frame is None ==> final(self)@ == old(self)@,
    {
        let n = self.queue.len();
        let mut k: usize = 0;
        while k < n && self.queue[k] != FRAME_END
            invariant
                n == self@.len(),
                self@ == old(self)@,
                k <= n,
                forall|j: int| 0 <= j < k ==> self@[j] != FRAME_END,
            decreases n - k,
        {
            k += 1;
        }
        proof {
            lemma_first_at_unique(self@, FRAME_END, k as int);
        }
        if k == n {
            return None;
        }
        let mut text = String::new();
        let mut i: usize = 0;
        while i <= k
            invariant
                k < n,
                n == old(self)@.len(),
                i <= k + 1,
                text@ == old(self)@.take(i as int),
                self@ == old(self)@.skip(i as int),
            decreases k + 1 - i,
        {
            match self.queue.pop_front() {
                Some(c) => {
                    push_char(&mut text, c);
                    assert(old(self)@.take(i + 1) =~= old(self)@.take(i as int).push(c));
                    assert(self@ =~= old(self)@.skip(i + 1));
                },
                None => {},
            }
            i += 1;
        }
        Some(text)
    }

    /// Takes every complete frame out of the buffer, in order. What stays
    /// behind is the start of a frame that is not complete yet.
    pub fn drain_frames(&mut self) -> (taken: Vec<String>)
        ensures
            taken.deep_view() == frames(old(self)@),
            final(self)@ == leftover(old(self)@),
    {
        let mut taken: Vec<String> = Vec::new();
        loop
            invariant_except_break
                taken.deep_view() + frames(self@) == frames(old(self)@),
                leftover(self@) == leftover(old(self)@),
            ensures
                taken.deep_view() == frames(old(self)@),
                self@ == leftover(old(self)@),
            decreases self@.len(),
        {
            let ghost before = self@;
            let ghost so_far = taken.deep_view();
            match self.next_frame() {
                Some(frame) => {
                    proof {
                        lemma_first_at(before, FRAME_END);
                    }
                    taken.push(frame);
                    assert(taken.deep_view() =~= so_far.push(head_frame(before)));
                    assert(so_far.push(head_frame(before)) + frames(after_frame(before)) =~= so_far
                        + frames(before));
                },
                None => {
                    assert(taken.deep_view() + frames(self@) =~= taken.deep_view());
                    break ;
                },
            }
        }
        taken
    }
}

} // verus!
