//! UTF-8 decoding of bytes that arrive in arbitrary pieces.

use vstd::prelude::*;
use vstd::string::*;
use vstd::utf8::*;

use crate::error;
use crate::error::RuntimeError;

verus! {

/// Calls `std::str::from_utf8`: it succeeds exactly on valid UTF-8, and gives the
/// characters that the bytes encode.
#[verifier::external_body]
pub(crate) fn str_from_utf8(bytes: &Vec<u8>) -> (r: Option<String>)
    ensures
        match r {
            Some(s) => valid_utf8(bytes@) && s@ == decode_utf8(bytes@),
            None => !valid_utf8(bytes@),
        },
{
    std::str::from_utf8(bytes).ok().map(str::to_owned)
}

/// The number of bytes of the longest run of whole characters at the start.
pub open spec fn valid_prefix(bytes: Seq<u8>) -> nat
    decreases bytes.len(),
{
    if bytes.len() > 0 && valid_first_scalar(bytes) {
        (length_of_first_scalar(bytes) + valid_prefix(pop_first_scalar(bytes))) as nat
    } else {
        0
    }
}

/// The bytes are the start, but not the whole, of the encoding of a character.
pub open spec fn can_complete(bytes: Seq<u8>) -> bool {
    bytes.len() > 0 && exists|t: Seq<u8>| #[trigger]
        valid_first_scalar(bytes + t) && length_of_first_scalar(bytes + t) > bytes.len()
}

proof fn lemma_two_bytes(b0: u8, b1: u8)
    by (bit_vector)
    requires
        0xc0 <= b0 <= 0xdf,
        0x80 <= b1 <= 0xbf,
    ensures
        (((b0 & 0x1F) as u32) << 6) | ((b1 & 0x3f) as u32) <= 0x7ff,
        (((b0 & 0x1F) as u32) << 6) | ((b1 & 0x3f) as u32) >= 0x80 <==> b0 >= 0xc2,
{
}

proof fn lemma_three_bytes(b0: u8, b1: u8, b2: u8)
    by (bit_vector)
    requires
        0xe0 <= b0 <= 0xef,
        0x80 <= b1 <= 0xbf,
        0x80 <= b2 <= 0xbf,
    ensures
        (((b0 & 0x0F) as u32) << 12) | (((b1 & 0x3f) as u32) << 6) | ((b2 & 0x3f) as u32) >= 0x800
            <==> !(b0 == 0xe0 && b1 < 0xa0),
        (0xD800 <= (((b0 & 0x0F) as u32) << 12) | (((b1 & 0x3f) as u32) << 6) | ((b2
            & 0x3f) as u32) && (((b0 & 0x0F) as u32) << 12) | (((b1 & 0x3f) as u32) << 6) | ((b2
            & 0x3f) as u32) <= 0xDFFF) <==> (b0 == 0xed && b1 >= 0xa0),
{
}

proof fn lemma_four_bytes(b0: u8, b1: u8, b2: u8, b3: u8)
    by (bit_vector)
    requires
        0xf0 <= b0 <= 0xf7,
        0x80 <= b1 <= 0xbf,
        0x80 <= b2 <= 0xbf,
        0x80 <= b3 <= 0xbf,
    ensures
        (((b0 & 0x07) as u32) << 18) | (((b1 & 0x3f) as u32) << 12) | (((b2 & 0x3f) as u32) << 6)
            | ((b3 & 0x3f) as u32) >= 0x10000 <==> !(b0 == 0xf0 && b1 < 0x90),
        (((b0 & 0x07) as u32) << 18) | (((b1 & 0x3f) as u32) << 12) | (((b2 & 0x3f) as u32) << 6)
            | ((b3 & 0x3f) as u32) <= 0x10ffff <==> (b0 < 0xf4 || (b0 == 0xf4 && b1 < 0x90)),
{
}

/// The second byte of a character of three or four bytes, given its first.
pub open spec fn second_byte_fits(b0: u8, b1: u8) -> bool {
    &&& is_continuation_byte(b1)
    &&& b0 == 0xe0 ==> b1 >= 0xa0
    &&& b0 == 0xed ==> b1 < 0xa0
    &&& b0 == 0xf0 ==> b1 >= 0x90
    &&& b0 == 0xf4 ==> b1 < 0x90
}

/// The form of the bytes at whose start a whole character stands.
pub open spec fn starts_with_scalar(bytes: Seq<u8>) -> bool {
    ||| bytes.len() >= 1 && bytes[0] <= 0x7f
    ||| bytes.len() >= 2 && 0xc2 <= bytes[0] <= 0xdf && is_continuation_byte(bytes[1])
    ||| bytes.len() >= 3 && 0xe0 <= bytes[0] <= 0xef && second_byte_fits(bytes[0], bytes[1])
        && is_continuation_byte(bytes[2])
    ||| bytes.len() >= 4 && 0xf0 <= bytes[0] <= 0xf4 && second_byte_fits(bytes[0], bytes[1])
        && is_continuation_byte(bytes[2]) && is_continuation_byte(bytes[3])
}

proof fn lemma_starts_with_scalar(bytes: Seq<u8>)
    ensures
        valid_first_scalar(bytes) == starts_with_scalar(bytes),
{
    if bytes.len() >= 1 && bytes[0] <= 0x7f {
        let b0 = bytes[0];
        assert((b0 & 0x7f) <= 0x7f) by (bit_vector);
    } else if bytes.len() >= 2 && 0xc0 <= bytes[0] <= 0xdf && is_continuation_byte(bytes[1]) {
        lemma_two_bytes(bytes[0], bytes[1]);
    } else if bytes.len() >= 3 && 0xe0 <= bytes[0] <= 0xef && is_continuation_byte(bytes[1])
        && is_continuation_byte(bytes[2]) {
        lemma_three_bytes(bytes[0], bytes[1], bytes[2]);
    } else if bytes.len() >= 4 && 0xf0 <= bytes[0] <= 0xf7 && is_continuation_byte(bytes[1])
        && is_continuation_byte(bytes[2]) && is_continuation_byte(bytes[3]) {
        lemma_four_bytes(bytes[0], bytes[1], bytes[2], bytes[3]);
    }
}

/// The form of the bytes that are the start of a character.
pub open spec fn starts_scalar(bytes: Seq<u8>) -> bool {
    ||| bytes.len() == 1 && 0xc2 <= bytes[0] <= 0xf4
    ||| bytes.len() == 2 && 0xe0 <= bytes[0] <= 0xf4 && second_byte_fits(bytes[0], bytes[1])
    ||| bytes.len() == 3 && 0xf0 <= bytes[0] <= 0xf4 && second_byte_fits(bytes[0], bytes[1])
        && is_continuation_byte(bytes[2])
}

proof fn lemma_starts_scalar(bytes: Seq<u8>)
    ensures
        can_complete(bytes) == starts_scalar(bytes),
{
    if can_complete(bytes) {
        let t = choose|t: Seq<u8>| #[trigger]
            valid_first_scalar(bytes + t) && length_of_first_scalar(bytes + t) > bytes.len();
        lemma_starts_with_scalar(bytes + t);
        let all = bytes + t;
        assert(forall|i: int| 0 <= i < bytes.len() ==> all[i] == bytes[i]);
        assert(bytes.len() == 1 || bytes.len() == 2 || bytes.len() == 3);
    }
    if starts_scalar(bytes) {
        let b0 = bytes[0];
        let b1: u8 = if bytes.len() >= 2 {
            bytes[1]
        } else if b0 == 0xe0 {
            0xa0
        } else if b0 == 0xf0 {
            0x90
        } else {
            0x80
        };
        let b2: u8 = if bytes.len() >= 3 {
            bytes[2]
        } else {
            0x80
        };
        let whole = seq![b0, b1, b2, 0x80u8];
        let t = whole.skip(bytes.len() as int);
        assert(bytes + t =~= whole);
        lemma_starts_with_scalar(whole);
        assert(valid_first_scalar(bytes + t));
    }
}

/// The number of bytes of the character that starts at index `i`, or nothing.
fn scalar_at(bytes: &Vec<u8>, i: usize) -> (r: usize)
    requires
        i < bytes@.len(),
    ensures
        r == 0 <==> !valid_first_scalar(bytes@.skip(i as int)),
        r > 0 ==> r == length_of_first_scalar(bytes@.skip(i as int)) && i + r <= bytes@.len(),
{
    proof {
        lemma_starts_with_scalar(bytes@.skip(i as int));
    }
    let n = bytes.len() - i;
    let b0 = bytes[i];
    if b0 <= 0x7f {
        return 1;
    }
    if b0 < 0xc2 || b0 > 0xf4 || n < 2 {
        return 0;
    }
    let b1 = bytes[i + 1];
    if b1 < 0x80 || b1 > 0xbf {
        return 0;
    }
    if b0 <= 0xdf {
        return 2;
    }
    if (b0 == 0xe0 && b1 < 0xa0) || (b0 == 0xed && b1 >= 0xa0) || (b0 == 0xf0 && b1 < 0x90) || (b0
        == 0xf4 && b1 >= 0x90) || n < 3 {
        return 0;
    }
    let b2 = bytes[i + 2];
    if b2 < 0x80 || b2 > 0xbf {
        return 0;
    }
    if b0 <= 0xef {
        return 3;
    }
    if n < 4 {
        return 0;
    }
    let b3 = bytes[i + 3];
    if b3 < 0x80 || b3 > 0xbf {
        return 0;
    }
    4
}

/// Whether the bytes from index `i` on are the start of a character.
fn completes(bytes: &Vec<u8>, i: usize) -> (r: bool)
    requires
        i <= bytes@.len(),
    ensures
        r == can_complete(bytes@.skip(i as int)),
{
    proof {
        lemma_starts_scalar(bytes@.skip(i as int));
    }
    let n = bytes.len() - i;
    if n == 0 || n > 3 {
        return false;
    }
    let b0 = bytes[i];
    if b0 < 0xc2 || b0 > 0xf4 {
        return false;
    }
    if n == 1 {
        return true;
    }
    let b1 = bytes[i + 1];
    if b0 < 0xe0 || b1 < 0x80 || b1 > 0xbf || (b0 == 0xe0 && b1 < 0xa0) || (b0 == 0xed && b1
        >= 0xa0) || (b0 == 0xf0 && b1 < 0x90) || (b0 == 0xf4 && b1 >= 0x90) {
        return false;
    }
    if n == 2 {
        return true;
    }
    let b2 = bytes[i + 2];
    b0 >= 0xf0 && 0x80 <= b2 && b2 <= 0xbf
}

/// Keeps an incomplete character between reads. Reads end at byte boundaries,
/// which have no relation to the boundaries of characters.
pub struct IncrementalUtf8Decoder {
    pending: Vec<u8>,
}

/// What a decoder that holds `pending` makes of `bytes`: the text of the whole
/// characters, or nothing where the bytes are no UTF-8; and what it holds then.
pub open spec fn decode_step(pending: Seq<u8>, bytes: Seq<u8>) -> (Option<Seq<char>>, Seq<u8>) {
    let all = pending + bytes;
    let n = valid_prefix(all) as int;
    let rest = all.skip(n);
    if rest.len() == 0 || can_complete(rest) {
        (Some(decode_utf8(all.take(n))), rest)
    } else {
        (None, Seq::empty())
    }
}

proof fn lemma_valid_prefix(bytes: Seq<u8>)
    ensures
        valid_prefix(bytes) <= bytes.len(),
        valid_utf8(bytes.take(valid_prefix(bytes) as int)),
        !valid_first_scalar(bytes.skip(valid_prefix(bytes) as int)) || bytes.skip(
            valid_prefix(bytes) as int,
        ).len() == 0,
    decreases bytes.len(),
{
    if bytes.len() > 0 && valid_first_scalar(bytes) {
        let k = length_of_first_scalar(bytes);
        let rest = pop_first_scalar(bytes);
        lemma_valid_prefix(rest);
        let n = valid_prefix(rest) as int;
        let p = bytes.take(k + n);
        assert(pop_first_scalar(p) =~= rest.take(n));
        lemma_starts_with_scalar(bytes);
        lemma_starts_with_scalar(p);
        assert(bytes.skip(k + n) =~= rest.skip(n));
    } else {
        assert(bytes.take(0) =~= Seq::empty());
        assert(bytes.skip(0) =~= bytes);
    }
}

impl Default for IncrementalUtf8Decoder {
    fn default() -> (r: Self)
        ensures
            r@ == Seq::<u8>::empty(),
    {
        Self::new()
    }
}

impl IncrementalUtf8Decoder {
    pub closed spec fn view(&self) -> Seq<u8> {
        self.pending@
    }

    pub fn new() -> (r: Self)
        ensures
            r@ == Seq::<u8>::empty(),
    {
        IncrementalUtf8Decoder { pending: Vec::new() }
    }

    /// Takes more bytes and hands out the text of the characters that are whole.
    pub fn push(&mut self, bytes: &[u8]) -> (r: Result<String, RuntimeError>)
        ensures
            final(self)@ == decode_step(old(self)@, bytes@).1,
            match r {
                Ok(text) => decode_step(old(self)@, bytes@).0 == Some(text@),
                Err(e) => decode_step(old(self)@, bytes@).0 is None && e@
                    == error::ErrorView::Protocol("kun_protocol_error"@),
            },
    {
        let ghost all = self.pending@ + bytes@;
        let mut buffer: Vec<u8> = Vec::new();
        let mut k: usize = 0;
        while k < self.pending.len()
            invariant
                k <= self.pending@.len(),
                buffer@ == self.pending@.take(k as int),
            decreases self.pending@.len() - k,
        {
            buffer.push(self.pending[k]);
            k += 1;
            assert(buffer@ =~= self.pending@.take(k as int));
        }
        let mut k: usize = 0;
        assert(buffer@ =~= all.take(self.pending@.len() as int));
        while k < bytes.len()
            invariant
                k <= bytes@.len(),
                all == self.pending@ + bytes@,
                buffer@ == all.take(self.pending@.len() + k),
            decreases bytes@.len() - k,
        {
            buffer.push(bytes[k]);
            k += 1;
            assert(buffer@ =~= all.take(self.pending@.len() + k));
        }
        assert(buffer@ =~= all);
        let mut i: usize = 0;
        assert(all.skip(0) =~= all);
        while i < buffer.len()
            invariant
                i <= buffer@.len(),
                buffer@ == all,
                valid_prefix(all) == i + valid_prefix(all.skip(i as int)),
            ensures
                valid_prefix(all) == i,
                i <= buffer@.len(),
                buffer@ == all,
            decreases buffer@.len() - i,
        {
            let w = scalar_at(&buffer, i);
            if w == 0 {
                break;
            }
            proof {
                assert(pop_first_scalar(all.skip(i as int)) =~= all.skip(i + w));
            }
            i += w;
        }
        proof {
            lemma_valid_prefix(all);
        }
        let done = i == buffer.len() || completes(&buffer, i);
        let rest = buffer.split_off(i);
        assert(buffer@ =~= all.take(i as int));
        assert(rest@ =~= all.skip(i as int));
        if done {
            self.pending = rest;
            match str_from_utf8(&buffer) {
                Some(text) => Ok(text),
                None => Err(RuntimeError::protocol("kun_protocol_error")),
            }
        } else {
            self.pending = Vec::new();
            Err(RuntimeError::protocol("kun_protocol_error"))
        }
    }

    /// The end of the bytes: nothing may be left of a character.
    pub fn finish(&self) -> (r: Result<(), RuntimeError>)
        ensures
            match r {
                Ok(_) => self@.len() == 0,
                Err(e) => self@.len() > 0 && e@ == error::ErrorView::Protocol(
                    "kun_protocol_error"@,
                ),
            },
    {
        if self.pending.len() == 0 {
            Ok(())
        } else {
            Err(RuntimeError::protocol("kun_protocol_error"))
        }
    }
}

proof fn lemma_scalar_of_prefix(a: Seq<u8>, b: Seq<u8>)
    requires
        valid_first_scalar(a + b),
        length_of_first_scalar(a + b) <= a.len(),
    ensures
        valid_first_scalar(a),
        length_of_first_scalar(a) == length_of_first_scalar(a + b),
{
    lemma_starts_with_scalar(a);
    lemma_starts_with_scalar(a + b);
    assert(forall|i: int| 0 <= i < a.len() ==> (a + b)[i] == a[i]);
}

proof fn lemma_valid_prefix_of_valid(a: Seq<u8>, b: Seq<u8>)
    requires
        valid_utf8(a + b),
    ensures
        ({
            let n = valid_prefix(a) as int;
            &&& n <= a.len()
            &&& valid_utf8(a.skip(n) + b)
            &&& decode_utf8(a + b) == decode_utf8(a.take(n)) + decode_utf8(a.skip(n) + b)
            &&& a.skip(n).len() == 0 || can_complete(a.skip(n))
        }),
    decreases a.len(),
{
    let n = valid_prefix(a) as int;
    lemma_valid_prefix(a);
    if a.len() == 0 {
        assert(a + b =~= b);
        assert(a.skip(0) + b =~= b);
        assert(a.take(0) =~= Seq::empty());
        assert(decode_utf8(a + b) =~= decode_utf8(a.take(n)) + decode_utf8(a.skip(n) + b));
    } else if valid_first_scalar(a) {
        let k = length_of_first_scalar(a);
        lemma_starts_with_scalar(a);
        lemma_starts_with_scalar(a + b);
        assert(forall|i: int| 0 <= i < a.len() ==> (a + b)[i] == a[i]);
        let rest = pop_first_scalar(a);
        assert(pop_first_scalar(a + b) =~= rest + b);
        lemma_valid_prefix_of_valid(rest, b);
        let m = valid_prefix(rest) as int;
        assert(a.skip(n) =~= rest.skip(m));
        lemma_valid_prefix(rest);
        let p = a.take(n);
        lemma_starts_with_scalar(p);
        assert(pop_first_scalar(p) =~= rest.take(m));
        assert(decode_first_scalar(p) == decode_first_scalar(a + b));
        assert(decode_utf8(a + b) =~= decode_utf8(p) + decode_utf8(a.skip(n) + b));
    } else {
        assert(a.skip(0) =~= a);
        assert(a.take(0) =~= Seq::empty());
        assert(decode_utf8(a + b) =~= decode_utf8(a.take(n)) + decode_utf8(a.skip(n) + b));
        if length_of_first_scalar(a + b) <= a.len() {
            lemma_scalar_of_prefix(a, b);
        }
        assert(valid_first_scalar(a + b));
    }
}

/// Bytes may be cut anywhere: as long as what a decoder holds, the bytes that it
/// is given and the bytes still to come are UTF-8 together, it hands out text,
/// and what it has handed out, then what it would make of the rest, is the text
/// of all of them.
pub proof fn law_decoding_ignores_cuts(pending: Seq<u8>, bytes: Seq<u8>, rest: Seq<u8>)
    requires
        valid_utf8(pending + bytes + rest),
    ensures
        ({
            let (text, held) = decode_step(pending, bytes);
            &&& text is Some
            &&& valid_utf8(held + rest)
            &&& decode_utf8(pending + bytes + rest) == text->0 + decode_utf8(held + rest)
            &&& rest.len() == 0 ==> held.len() == 0
        }),
{
    let all = pending + bytes;
    lemma_valid_prefix_of_valid(all, rest);
    if rest.len() == 0 {
        let held = decode_step(pending, bytes).1;
        assert(held + rest =~= held);
        if held.len() > 0 {
            lemma_starts_scalar(held);
            lemma_starts_with_scalar(held);
        }
    }
}

} // verus!
