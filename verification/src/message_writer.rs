//! Building the crash message of the error information page.

use crate::hcl::HCL_ERROR_INFORMATION_STRING_SIZE;
use vstd::prelude::*;

verus! {

/// Bytes of text that a message can hold: its last byte is kept for null
/// termination.
pub const MESSAGE_CAPACITY: usize = HCL_ERROR_INFORMATION_STRING_SIZE - 1;

/// What stands in a message for a byte that is not ASCII: a question mark.
pub const NON_ASCII_REPLACEMENT: u8 = 63;

/// `text` with each byte that is not ASCII replaced.
pub open spec fn ascii(text: Seq<u8>) -> Seq<u8> {
    Seq::new(
        text.len(),
        |i: int|
            if text[i] < 128 {
                text[i]
            } else {
                NON_ASCII_REPLACEMENT
            },
    )
}

/// The part of `text` that a message holds.
pub open spec fn truncated(text: Seq<u8>) -> Seq<u8> {
    if text.len() <= MESSAGE_CAPACITY {
        text
    } else {
        text.take(MESSAGE_CAPACITY as int)
    }
}

/// `text` cut to what a message holds, and filled up with zeros.
pub open spec fn null_terminated(text: Seq<u8>) -> Seq<u8> {
    let kept = truncated(text);
    Seq::new(
        HCL_ERROR_INFORMATION_STRING_SIZE as nat,
        |i: int|
            if i < kept.len() {
                kept[i]
            } else {
                0u8
            },
    )
}

/// The UTF-8 bytes of `fragments`, one after the other.
pub open spec fn fragments_text(fragments: Seq<&str>) -> Seq<u8>
    decreases fragments.len(),
{
    if fragments.len() == 0 {
        Seq::empty()
    } else {
        fragments_text(fragments.drop_last()) + vstd::utf8::encode_utf8(fragments.last()@)
    }
}

/// What a reader that stops at the first zero byte finds in `bytes`.
pub open spec fn c_string(bytes: Seq<u8>) -> Seq<u8>
    decreases bytes.len(),
{
    if bytes.len() == 0 || bytes[0] == 0 {
        Seq::empty()
    } else {
        seq![bytes[0]] + c_string(bytes.drop_first())
    }
}

/// Law: of a text of at most 255 bytes a message holds all, and of a longer one
/// exactly the first 255 bytes, whatever the bytes are.
pub proof fn lemma_text_is_kept_up_to_255_bytes(text: Seq<u8>)
    ensures
        text.len() <= 255 ==> truncated(text) == text,
        text.len() > 255 ==> truncated(text) == text.take(255),
{
}

/// Law: a byte that is ASCII stays as it is, and one that is not becomes a
/// question mark, each in its place.
pub proof fn lemma_ascii_byte_by_byte(text: Seq<u8>)
    ensures
        ascii(text).len() == text.len(),
        forall|i: int| 0 <= i < text.len() && text[i] < 128 ==> ascii(text)[i] == text[i],
        forall|i: int| 0 <= i < text.len() && text[i] >= 128 ==> ascii(text)[i] == 63,
{
}

/// Law: a message field takes 256 bytes: the first 255 bytes of the text, or as
/// many as it has, and zeros.
pub proof fn lemma_null_terminated_byte_by_byte(text: Seq<u8>)
    ensures
        null_terminated(text).len() == 256,
        forall|i: int|
            0 <= i < 255 && i < text.len() ==> null_terminated(text)[i] == text[i],
        forall|i: int| text.len() <= i < 256 ==> null_terminated(text)[i] == 0,
        null_terminated(text)[255] == 0,
{
}

/// Law: the text of fragments is theirs put together in order: no fragment gives
/// no text, and each further one adds all its bytes at the end.
pub proof fn lemma_fragments_add_up(fragments: Seq<&str>, next: &str)
    ensures
        fragments_text(Seq::empty()) == Seq::<u8>::empty(),
        fragments_text(fragments.push(next)) == fragments_text(fragments)
            + vstd::utf8::encode_utf8(next@),
{
    assert(fragments.push(next).drop_last() =~= fragments);
}

/// Law: a reader that stops at the first zero byte finds everything before it,
/// and nothing else.
pub proof fn lemma_c_string_is_what_precedes_the_terminator(bytes: Seq<u8>)
    ensures
        c_string(bytes).len() <= bytes.len(),
        forall|i: int|
            0 <= i < c_string(bytes).len() ==> c_string(bytes)[i] == bytes[i] && bytes[i] != 0,
        c_string(bytes).len() < bytes.len() ==> bytes[c_string(bytes).len() as int] == 0,
    decreases bytes.len(),
{
    if bytes.len() > 0 && bytes[0] != 0 {
        let rest = bytes.drop_first();
        lemma_c_string_is_what_precedes_the_terminator(rest);
        assert forall|i: int| 0 <= i < c_string(bytes).len() implies c_string(bytes)[i] == bytes[i]
            && bytes[i] != 0 by {
            if i > 0 {
                assert(c_string(rest)[i - 1] == rest[i - 1]);
            }
        }
    }
}

/// A reader that stops at the first zero byte does not see zeros at the end.
proof fn lemma_c_string_ignores_padding(text: Seq<u8>, padded: Seq<u8>)
    requires
        text.len() < padded.len(),
        forall|i: int| 0 <= i < text.len() ==> padded[i] == text[i],
        padded[text.len() as int] == 0,
    ensures
        c_string(padded) == c_string(text),
    decreases text.len(),
{
    if text.len() > 0 && text[0] != 0 {
        lemma_c_string_ignores_padding(text.drop_first(), padded.drop_first());
    }
}

/// A text without a zero byte is read to its end.
proof fn lemma_c_string_whole(text: Seq<u8>)
    requires
        !text.contains(0),
    ensures
        c_string(text) == text,
    decreases text.len(),
{
    if text.len() > 0 {
        assert(text.contains(text[0]));
        let rest = text.drop_first();
        assert forall|i: int| 0 <= i < rest.len() implies rest[i] != 0 by {
            assert(text.contains(text[i + 1]));
        }
        lemma_c_string_whole(rest);
        assert(c_string(text) =~= text);
    }
}

/// Law: a message is always null-terminated, and it reads as the text that was
/// written, cut to what fits, up to its first zero byte.
pub proof fn lemma_message_reads_as_text(text: Seq<u8>)
    ensures
        null_terminated(text).len() == HCL_ERROR_INFORMATION_STRING_SIZE,
        null_terminated(text).last() == 0,
        c_string(null_terminated(text)) == c_string(truncated(text)),
        !text.contains(0) ==> c_string(null_terminated(text)) == truncated(text),
{
    lemma_c_string_ignores_padding(truncated(text), null_terminated(text));
    if !text.contains(0) {
        assert forall|i: int| 0 <= i < truncated(text).len() implies truncated(text)[i] != 0 by {
            assert(text.contains(text[i]));
        }
        lemma_c_string_whole(truncated(text));
    }
}

/// Law: a message is ASCII, whatever the text, and an ASCII text is kept as it
/// is.
pub proof fn lemma_message_is_ascii(text: Seq<u8>)
    ensures
        forall|i: int|
            0 <= i < HCL_ERROR_INFORMATION_STRING_SIZE ==> null_terminated(ascii(text))[i] < 128,
        (forall|i: int| 0 <= i < text.len() ==> text[i] < 128) ==> ascii(text) == text,
{
    if forall|i: int| 0 <= i < text.len() ==> text[i] < 128 {
        assert(ascii(text) =~= text);
    }
}

/// Law: it makes no difference in how many pieces a text is written: replacing
/// and cutting piece by piece keeps what doing it once at the end keeps.
pub proof fn lemma_message_ignores_pieces(head: Seq<u8>, tail: Seq<u8>)
    ensures
        truncated(truncated(ascii(head)) + ascii(tail)) == truncated(ascii(head + tail)),
{
    assert(ascii(head + tail) =~= ascii(head) + ascii(tail));
    assert(truncated(truncated(ascii(head)) + ascii(tail)) =~= truncated(ascii(head + tail)));
}

/// Collects a crash message, keeping as much of it as fits.
pub struct MessageWriter {
    message: [u8; HCL_ERROR_INFORMATION_STRING_SIZE],
    pos: usize,
}

impl View for MessageWriter {
    type V = Seq<u8>;

    /// The text that was kept.
    closed spec fn view(&self) -> Seq<u8> {
        self.message@.take(self.pos as int)
    }
}

impl MessageWriter {
    #[verifier::type_invariant]
    closed spec fn wf(self) -> bool {
        &&& self.pos <= MESSAGE_CAPACITY
        &&& forall|i: int|
            self.pos <= i < HCL_ERROR_INFORMATION_STRING_SIZE ==> self.message@[i] == 0
    }

    /// A writer that holds no text yet.
    pub fn new() -> (writer: MessageWriter)
        ensures
            writer@ == Seq::<u8>::empty(),
    {
        let writer = MessageWriter { message: [0; HCL_ERROR_INFORMATION_STRING_SIZE], pos: 0 };
        assert(writer@ =~= Seq::<u8>::empty());
        writer
    }

    /// Appends `s` in ASCII, or as much of it as fits.
    pub fn write_str(&mut self, s: &str)
        ensures
            final(self)@ == truncated(old(self)@ + ascii(vstd::utf8::encode_utf8(s@))),
            old(self)@.len() + vstd::utf8::encode_utf8(s@).len() <= 255 ==> final(self)@.len()
                == old(self)@.len() + vstd::utf8::encode_utf8(s@).len(),
            old(self)@.len() + vstd::utf8::encode_utf8(s@).len() > 255 ==> final(self)@.len()
                == 255,
            forall|i: int| 0 <= i < old(self)@.len() ==> final(self)@[i] == old(self)@[i],
            forall|i: int|
                old(self)@.len() <= i < final(self)@.len() ==> final(self)@[i] == ({
                    let byte = vstd::utf8::encode_utf8(s@)[i - old(self)@.len()];
                    if byte < 128 {
                        byte
                    } else {
                        63u8
                    }
                }),
    {
        proof {
            use_type_invariant(&*self);
        }
        let bytes = s.as_bytes();
        let start = self.pos;
        let remaining = MESSAGE_CAPACITY - start;
        let to_copy = if bytes.len() < remaining {
            bytes.len()
        } else {
            remaining
        };
        let mut message = self.message;
        let mut i: usize = 0;
        while i < to_copy
            invariant
                i <= to_copy <= bytes@.len(),
                start + to_copy <= MESSAGE_CAPACITY,
                message@.len() == HCL_ERROR_INFORMATION_STRING_SIZE,
                forall|k: int| 0 <= k < start ==> message@[k] == old(self).message@[k],
                forall|k: int| 0 <= k < i ==> message@[start + k] == ascii(bytes@)[k],
                forall|k: int|
                    start + i <= k < HCL_ERROR_INFORMATION_STRING_SIZE ==> message@[k] == 0,
            decreases to_copy - i,
        {
            let byte = bytes[i];
            message[start + i] =
            if byte < 128 {
                byte
            } else {
                NON_ASCII_REPLACEMENT
            };
            i += 1;
        }
        *self = MessageWriter { message, pos: start + to_copy };
        proof {
            let want = truncated(old(self)@ + ascii(vstd::utf8::encode_utf8(s@)));
            assert forall|k: int| 0 <= k < want.len() implies self@[k] == want[k] by {
                if k >= start {
                    assert(message@[start + (k - start)] == ascii(bytes@)[k - start]);
                }
            }
            assert(self@ =~= want);
        }
    }

    /// The message field that holds the text.
    pub fn message(&self) -> (message: [u8; HCL_ERROR_INFORMATION_STRING_SIZE])
        ensures
            message@ == null_terminated(self@),
            self@.len() <= MESSAGE_CAPACITY,
            self@.len() <= 255,
            forall|i: int| 0 <= i < self@.len() ==> message@[i] == self@[i],
            forall|i: int| self@.len() <= i < 256 ==> message@[i] == 0,
    {
        proof {
            use_type_invariant(self);
            assert(self.message@ =~= null_terminated(self@));
        }
        self.message
    }
}

} // verus!
