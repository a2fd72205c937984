use vstd::prelude::*;
use vstd::utf8::*;

verus! {

/// The bytes left after removing the last character's encoding from `bytes`:
/// trailing continuation bytes are dropped, then one more byte.
pub open spec fn drop_last_char(bytes: Seq<u8>) -> Seq<u8>
    decreases bytes.len(),
{
    if bytes.len() == 0 {
        bytes
    } else if is_continuation_byte(bytes.last()) {
        drop_last_char(bytes.drop_last())
    } else {
        bytes.drop_last()
    }
}

/// Number of characters in `bytes` when they are valid UTF-8, zero otherwise.
pub open spec fn char_count(bytes: Seq<u8>) -> nat {
    if valid_utf8(bytes) {
        decode_utf8(bytes).len()
    } else {
        0
    }
}

/// Lossy UTF-8 decoding of `bytes` as `String::from_utf8_lossy` performs it.
pub uninterp spec fn utf8_lossy(bytes: Seq<u8>) -> Seq<char>;

/// A decoded string has no more characters than bytes.
pub proof fn lemma_decode_len_le(bytes: Seq<u8>)
    requires
        valid_utf8(bytes),
    ensures
        decode_utf8(bytes).len() <= bytes.len(),
    decreases bytes.len(),
{
    if bytes.len() > 0 {
        lemma_decode_len_le(pop_first_scalar(bytes));
    }
}

/// Calls `std::str::from_utf8`. Its documentation promises `Ok` exactly when the
/// bytes are valid UTF-8, with the string those bytes encode.
#[verifier::external_body]
fn str_from_utf8(bytes: &[u8]) -> (res: Option<&str>)
    ensures
        res is Some <==> valid_utf8(bytes@),
        res matches Some(s) ==> s@ == decode_utf8(bytes@),
{
    std::str::from_utf8(bytes).ok()
}

/// Calls `String::from_utf8_lossy` and takes the owned string. The result is
/// named `utf8_lossy`; for valid UTF-8 the documentation promises the decoded
/// characters unchanged. What replaces invalid sequences is left to the name.
#[verifier::external_body]
pub(crate) fn string_from_utf8_lossy(bytes: &[u8]) -> (res: String)
    ensures
        res@ == utf8_lossy(bytes@),
        valid_utf8(bytes@) ==> res@ == decode_utf8(bytes@),
{
    String::from_utf8_lossy(bytes).into_owned()
}

/// A password typed so far, held as UTF-8 bytes.
#[derive(Debug)]
pub struct PasswordBuffer {
    pub bytes: Vec<u8>,
}

impl PasswordBuffer {
    pub fn new() -> (res: Self)
        ensures
            res.bytes@ == Seq::<u8>::empty(),
    {
        Self { bytes: Vec::with_capacity(128) }
    }

    /// Appends the UTF-8 encoding of `c`.
    pub fn insert_char(&mut self, c: char)
        ensures
            final(self).bytes@ == old(self).bytes@ + encode_scalar(c as u32),
    {
        let cp = c as u32;
        proof {
            char_is_scalar(c);
        }
        let ghost before = self.bytes@;
        if cp <= 0x7f {
            self.bytes.push((cp & 0x7f) as u8);
            assert(self.bytes@ == before + seq![leading_byte_width_1(cp)]);
        } else if cp <= 0x7ff {
            let b1 = 0xc0 | ((cp >> 6) & 0x1f) as u8;
            let b2 = 0x80 | (cp & 0x3f) as u8;
            self.bytes.push(b1);
            self.bytes.push(b2);
            assert(self.bytes@ == before + seq![leading_byte_width_2(cp), last_continuation_byte(cp)]);
        } else if cp <= 0xffff {
            let b1 = 0xe0 | ((cp >> 12) & 0x0f) as u8;
            let b2 = 0x80 | ((cp >> 6) & 0x3f) as u8;
            let b3 = 0x80 | (cp & 0x3f) as u8;
            self.bytes.push(b1);
            self.bytes.push(b2);
            self.bytes.push(b3);
            assert(self.bytes@ == before + seq![leading_byte_width_3(cp), second_last_continuation_byte(cp), last_continuation_byte(cp)]);
        } else {
            let b1 = 0xf0 | ((cp >> 18) & 0x07) as u8;
            let b2 = 0x80 | ((cp >> 12) & 0x3f) as u8;
            let b3 = 0x80 | ((cp >> 6) & 0x3f) as u8;
            let b4 = 0x80 | (cp & 0x3f) as u8;
            self.bytes.push(b1);
            self.bytes.push(b2);
            self.bytes.push(b3);
            self.bytes.push(b4);
            assert(self.bytes@ == before + seq![leading_byte_width_4(cp), third_last_continuation_byte(cp), second_last_continuation_byte(cp), last_continuation_byte(cp)]);
        }
    }

    /// Removes the last character's bytes; `false` when the buffer was empty.
    pub fn pop_char(&mut self) -> (res: bool)
        ensures
            res == (old(self).bytes@.len() > 0),
            final(self).bytes@ == drop_last_char(old(self).bytes@),
    {
        if self.bytes.len() == 0 {
            return false;
        }
        loop
            invariant_except_break
                drop_last_char(self.bytes@) == drop_last_char(old(self).bytes@),
            ensures
                self.bytes@ == drop_last_char(old(self).bytes@),
            decreases self.bytes@.len(),
        {
            match self.bytes.pop() {
                Some(byte) => {
                    if (byte & 0xc0) != 0x80 {
                        assert((byte & 0xc0) != 0x80 <==> !(0x80 <= byte <= 0xbf)) by (bit_vector);
                        break;
                    }
                    assert((byte & 0xc0) == 0x80 <==> (0x80 <= byte <= 0xbf)) by (bit_vector);
                },
                None => {
                    break;
                },
            }
        }
        true
    }

    /// Number of characters when the bytes are valid UTF-8, zero otherwise.
    pub fn len(&self) -> (res: usize)
        ensures
            res == char_count(self.bytes@),
    {
        match str_from_utf8(self.bytes.as_slice()) {
            Some(s) => {
                proof {
                    lemma_decode_len_le(self.bytes@);
                }
                let n = self.bytes.len();
                let mut count: usize = 0;
                for c in it: s.chars()
                    invariant
                        count == it.index(),
                        it.seq() == s@,
                        s@.len() <= n,
                {
                    count = count + 1;
                }
                count
            },
            None => 0,
        }
    }

    /// The bytes decoded as text, invalid sequences replaced as
    /// `String::from_utf8_lossy` replaces them.
    pub fn as_string(&self) -> (res: String)
        ensures
            res@ == utf8_lossy(self.bytes@),
            valid_utf8(self.bytes@) ==> res@ == decode_utf8(self.bytes@),
    {
        string_from_utf8_lossy(self.bytes.as_slice())
    }
}

/// The UTF-8 encoding of a character ends in a byte that starts no
/// continuation run of its own: it is a single byte, or a lead byte followed by
/// continuation bytes.
proof fn lemma_drop_encoding(b: Seq<u8>, c: char)
    ensures
        drop_last_char(b + encode_scalar(c as u32)) == b,
{
    char_is_scalar(c);
    let v = c as u32;
    let e = encode_scalar(v);
    let x = b + e;
    if has_width_1_encoding(v) {
        let l = leading_byte_width_1(v);
        assert(!is_continuation_byte(l)) by (bit_vector)
            requires
                0 <= v <= 0x7F,
                l == (v & 0x7F) as u8,
        ;
        assert(x == b + seq![l]);
        assert(x.last() == l);
        assert(x.drop_last() == b);
        assert(drop_last_char(x) == b);
    } else if has_width_2_encoding(v) {
        let l = leading_byte_width_2(v);
        let t1 = last_continuation_byte(v);
        assert(is_continuation_byte(t1)) by (bit_vector)
            requires t1 == 0x80 | (v & 0x3F) as u8;
        assert(!is_continuation_byte(l)) by (bit_vector)
            requires l == 0xC0 | ((v >> 6) & 0x1F) as u8;
        assert(x == b + seq![l, t1]);
        assert(x.last() == t1);
        let y = x.drop_last();
        assert(y == b + seq![l]);
        assert(y.last() == l);
        assert(y.drop_last() == b);
        assert(drop_last_char(y) == b);
        assert(drop_last_char(x) == drop_last_char(y));
    } else if has_width_3_encoding(v) {
        let l = leading_byte_width_3(v);
        let t2 = second_last_continuation_byte(v);
        let t1 = last_continuation_byte(v);
        assert(is_continuation_byte(t1)) by (bit_vector)
            requires t1 == 0x80 | (v & 0x3F) as u8;
        assert(is_continuation_byte(t2)) by (bit_vector)
            requires t2 == 0x80 | ((v >> 6) & 0x3F) as u8;
        assert(!is_continuation_byte(l)) by (bit_vector)
            requires l == 0xE0 | ((v >> 12) & 0x0F) as u8;
        assert(x == b + seq![l, t2, t1]);
        assert(x.last() == t1);
        let y = x.drop_last();
        assert(y == b + seq![l, t2]);
        assert(y.last() == t2);
        let z = y.drop_last();
        assert(z == b + seq![l]);
        assert(z.last() == l);
        assert(z.drop_last() == b);
        assert(drop_last_char(z) == b);
        assert(drop_last_char(y) == drop_last_char(z));
        assert(drop_last_char(x) == drop_last_char(y));
    } else {
        let l = leading_byte_width_4(v);
        let t3 = third_last_continuation_byte(v);
        let t2 = second_last_continuation_byte(v);
        let t1 = last_continuation_byte(v);
        assert(is_continuation_byte(t1)) by (bit_vector)
            requires t1 == 0x80 | (v & 0x3F) as u8;
        assert(is_continuation_byte(t2)) by (bit_vector)
            requires t2 == 0x80 | ((v >> 6) & 0x3F) as u8;
        assert(is_continuation_byte(t3)) by (bit_vector)
            requires t3 == 0x80 | ((v >> 12) & 0x3F) as u8;
        assert(!is_continuation_byte(l)) by (bit_vector)
            requires l == 0xF0 | ((v >> 18) & 0x07) as u8;
        assert(x == b + seq![l, t3, t2, t1]);
        assert(x.last() == t1);
        let y = x.drop_last();
        assert(y == b + seq![l, t3, t2]);
        assert(y.last() == t2);
        let z = y.drop_last();
        assert(z == b + seq![l, t3]);
        assert(z.last() == t3);
        let w = z.drop_last();
        assert(w == b + seq![l]);
        assert(w.last() == l);
        assert(w.drop_last() == b);
        assert(drop_last_char(w) == b);
        assert(drop_last_char(z) == drop_last_char(w));
        assert(drop_last_char(y) == drop_last_char(z));
        assert(drop_last_char(x) == drop_last_char(y));
    }
}

proof fn lemma_encode_one(c: char)
    ensures
        encode_utf8(seq![c]) == encode_scalar(c as u32),
{
    assert(seq![c].drop_first() == Seq::<char>::empty());
    assert(seq![c][0] == c);
    assert(encode_utf8(Seq::<char>::empty()) == Seq::<u8>::empty());
    assert(encode_scalar(c as u32) + Seq::<u8>::empty() == encode_scalar(c as u32));
}

/// Removing a character undoes adding it: after `insert_char(c)`,
/// `pop_char` gives back the bytes the buffer had before, whatever they were.
pub proof fn law_pop_undoes_insert(bytes: Seq<u8>, c: char)
    ensures
        drop_last_char(bytes + encode_scalar(c as u32)) == bytes,
{
    lemma_drop_encoding(bytes, c);
}

proof fn lemma_encode_concat(a: Seq<char>, b: Seq<char>)
    ensures
        encode_utf8(a + b) == encode_utf8(a) + encode_utf8(b),
    decreases a.len(),
{
    if a.len() > 0 {
        assert((a + b).drop_first() == a.drop_first() + b);
        lemma_encode_concat(a.drop_first(), b);
    } else {
        assert(a + b == b);
    }
}

/// Adding a character to valid UTF-8 keeps it valid and adds exactly that
/// character to the text, so the count grows by one.
pub proof fn law_insert_appends_char(bytes: Seq<u8>, c: char)
    requires
        valid_utf8(bytes),
    ensures
        valid_utf8(bytes + encode_scalar(c as u32)),
        decode_utf8(bytes + encode_scalar(c as u32)) == decode_utf8(bytes).push(c),
        char_count(bytes + encode_scalar(c as u32)) == char_count(bytes) + 1,
{
    let d = decode_utf8(bytes);
    decode_utf8_encode_utf8(bytes);
    lemma_encode_concat(d, seq![c]);
    lemma_encode_one(c);
    encode_utf8_valid_utf8(d.push(c));
    encode_utf8_decode_utf8(d.push(c));
    assert(d + seq![c] == d.push(c));
}

/// Removing a character from valid, non-empty UTF-8 keeps it valid and
/// removes exactly the last character of the text.
pub proof fn law_pop_removes_last_char(bytes: Seq<u8>)
    requires
        valid_utf8(bytes),
        bytes.len() > 0,
    ensures
        valid_utf8(drop_last_char(bytes)),
        decode_utf8(drop_last_char(bytes)) == decode_utf8(bytes).drop_last(),
        char_count(drop_last_char(bytes)) + 1 == char_count(bytes),
{
    let d = decode_utf8(bytes);
    decode_utf8_encode_utf8(bytes);
    assert(d.len() > 0) by {
        if d.len() == 0 {
            assert(encode_utf8(d) == Seq::<u8>::empty());
        }
    }
    let init = d.drop_last();
    let c = d.last();
    assert(init + seq![c] == d);
    lemma_encode_concat(init, seq![c]);
    lemma_encode_one(c);
    lemma_drop_encoding(encode_utf8(init), c);
    encode_utf8_valid_utf8(init);
    encode_utf8_decode_utf8(init);
}

/// The bytes a buffer holds after the characters `cs` were inserted, one
/// after another, into a new buffer.
pub open spec fn inserted(cs: Seq<char>) -> Seq<u8>
    decreases cs.len(),
{
    if cs.len() == 0 {
        Seq::empty()
    } else {
        inserted(cs.drop_last()) + encode_scalar(cs.last() as u32)
    }
}

/// A buffer filled by inserting characters holds their UTF-8 encoding, which
/// is valid and decodes to exactly those characters, so it counts one
/// character per insertion and reads back as the text typed.
pub proof fn law_inserts_spell_the_text(cs: Seq<char>)
    ensures
        inserted(cs) == encode_utf8(cs),
        valid_utf8(inserted(cs)),
        decode_utf8(inserted(cs)) == cs,
        char_count(inserted(cs)) == cs.len(),
    decreases cs.len(),
{
    if cs.len() == 0 {
        assert(encode_utf8(cs) == Seq::<u8>::empty());
        assert(decode_utf8(Seq::<u8>::empty()) == Seq::<char>::empty());
    } else {
        let init = cs.drop_last();
        law_inserts_spell_the_text(init);
        law_insert_appends_char(inserted(init), cs.last());
        assert(init.push(cs.last()) == cs);
        encode_utf8_decode_utf8(cs);
        encode_utf8_valid_utf8(cs);
        decode_utf8_encode_utf8(inserted(cs));
    }
}

} // verus!
