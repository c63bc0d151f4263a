use vstd::prelude::*;
use vstd::utf8::*;

verus! {

broadcast use {encode_utf8_valid_utf8, encode_utf8_decode_utf8};

/// Number of characters after which the next push discards the buffer.
pub const MAX_BUF_SIZE: usize = 500;

/// Capacity reserved when a buffer is created, so short credentials never reallocate.
pub const MIN_BUF_CAP: usize = 15;

/// The typed text could not be read back as UTF-8.
#[derive(Debug, Clone, Copy, PartialEq, Eq, Structural)]
pub enum DecodeError {
    InvalidUtf8,
}

/// The credential typed so far: an ordered, capacity-bounded run of characters.
pub struct CredentialBuffer {
    chars: Vec<char>,
}

/// The buffer after pushing `c` onto `s`: a full buffer is discarded first,
/// so the result is never a truncation of what was typed.
pub open spec fn pushed(s: Seq<char>, c: char) -> Seq<char> {
    if s.len() >= MAX_BUF_SIZE {
        seq![c]
    } else {
        s.push(c)
    }
}

/// The buffer after clearing: empty, whatever it held.
pub open spec fn cleared(s: Seq<char>) -> Seq<char> {
    Seq::empty()
}

/// The buffer after deleting its last character, if it has one.
pub open spec fn popped(s: Seq<char>) -> Seq<char> {
    if s.len() == 0 {
        s
    } else {
        s.drop_last()
    }
}

/// The buffer after pushing each character of `cs` onto `s`, in order.
pub open spec fn push_all(s: Seq<char>, cs: Seq<char>) -> Seq<char>
    decreases cs.len(),
{
    if cs.len() == 0 {
        s
    } else {
        push_all(pushed(s, cs[0]), cs.drop_first())
    }
}

impl View for CredentialBuffer {
    type V = Seq<char>;

    closed spec fn view(&self) -> Seq<char> {
        self.chars@
    }
}

/// Relies on `char::encode_utf8`: the bytes written are the UTF-8 encoding of the character.
#[verifier::external_body]
fn encode_char(c: char) -> (r: Vec<u8>)
    ensures
        r@ == encode_utf8(seq![c]),
{
    let mut buf = [0u8; 4];
    c.encode_utf8(&mut buf).as_bytes().to_vec()
}

/// Relies on `std::str::from_utf8`: it succeeds exactly on valid UTF-8 and then
/// holds the characters that the bytes encode.
#[verifier::external_body]
fn text_from_utf8(b: &[u8]) -> (r: Option<String>)
    ensures
        r is Some <==> valid_utf8(b@),
        r is Some ==> r->0@ == decode_utf8(b@),
{
    match std::str::from_utf8(b) {
        Ok(s) => Some(s.to_owned()),
        Err(_) => None,
    }
}

/// Encoding a sequence with one more character appends that character's encoding.
proof fn lemma_encode_push(s: Seq<char>, c: char)
    ensures
        encode_utf8(s.push(c)) == encode_utf8(s) + encode_utf8(seq![c]),
    decreases s.len(),
{
    assert(seq![c].drop_first() =~= Seq::<char>::empty());
    if s.len() == 0 {
        assert(s.push(c) =~= seq![c]);
        assert(encode_utf8(s) =~= Seq::<u8>::empty());
        assert(encode_utf8(s) + encode_utf8(seq![c]) =~= encode_utf8(seq![c]));
    } else {
        assert(s.push(c).drop_first() =~= s.drop_first().push(c));
        lemma_encode_push(s.drop_first(), c);
        assert(encode_utf8(s.push(c)) =~= encode_utf8(s) + encode_utf8(seq![c]));
    }
}

impl CredentialBuffer {
    /// Every buffer holds at most `MAX_BUF_SIZE` characters.
    pub open spec fn wf(&self) -> bool {
        self@.len() <= MAX_BUF_SIZE
    }

    /// An empty buffer.
    pub fn new() -> (r: Self)
        ensures
            r.wf(),
            r@ == Seq::<char>::empty(),
    {
        CredentialBuffer { chars: Vec::with_capacity(MIN_BUF_CAP) }
    }

    /// Number of characters held.
    pub fn len(&self) -> (r: usize)
        ensures
            r == self@.len(),
    {
        self.chars.len()
    }

    /// Whether nothing has been typed.
    pub fn is_empty(&self) -> (r: bool)
        ensures
            r <==> self@.len() == 0,
    {
        self.chars.len() == 0
    }

    /// Drops everything typed so far.
    pub fn clear(&mut self)
        ensures
            final(self).wf(),
            final(self)@ == cleared(old(self)@),
    {
        self.chars.clear();
    }

    /// Appends `c`; a buffer already at capacity is emptied first.
    pub fn push_char(&mut self, c: char)
        requires
            old(self).wf(),
        ensures
            final(self).wf(),
            final(self)@ == pushed(old(self)@, c),
    {
        if self.chars.len() >= MAX_BUF_SIZE {
            self.clear();
        }
        self.chars.push(c);
    }

    /// Removes the last character; does nothing on an empty buffer.
    pub fn pop_char(&mut self)
        requires
            old(self).wf(),
        ensures
            final(self).wf(),
            final(self)@ == popped(old(self)@),
    {
        let _ = self.chars.pop();
    }

    /// Reads the buffer back as text, through its UTF-8 encoding. The buffer
    /// holds whole characters only, so the decoding always succeeds and gives
    /// back exactly what was typed.
    pub fn build_str(&self) -> (r: Result<String, DecodeError>)
        ensures
            r is Ok,
            r is Ok ==> r->Ok_0@ == self@,
    {
        let mut bytes: Vec<u8> = Vec::new();
        let mut i: usize = 0;
        while i < self.chars.len()
            invariant
                i <= self.chars@.len(),
                bytes@ == encode_utf8(self.chars@.take(i as int)),
            decreases self.chars@.len() - i,
        {
            let mut enc = encode_char(self.chars[i]);
            proof {
                lemma_encode_push(self.chars@.take(i as int), self.chars@[i as int]);
                assert(self.chars@.take(i + 1) =~= self.chars@.take(i as int).push(
                    self.chars@[i as int],
                ));
            }
            bytes.append(&mut enc);
            i += 1;
        }
        proof {
            assert(self.chars@.take(i as int) =~= self.chars@);
        }
        match text_from_utf8(bytes.as_slice()) {
            Some(s) => Ok(s),
            None => Err(DecodeError::InvalidUtf8),
        }
    }
}

/// Pushes that stay within capacity lose nothing: pushing `cs` onto `s`
/// appends it.
proof fn lemma_push_all_appends(s: Seq<char>, cs: Seq<char>)
    requires
        s.len() + cs.len() <= MAX_BUF_SIZE,
    ensures
        push_all(s, cs) == s + cs,
    decreases cs.len(),
{
    if cs.len() == 0 {
        assert(s + cs =~= s);
    } else {
        lemma_push_all_appends(s.push(cs[0]), cs.drop_first());
        assert(s.push(cs[0]) + cs.drop_first() =~= s + cs);
    }
}

/// Up to capacity, an empty buffer that receives the characters `cs` one by
/// one holds exactly `cs`, in order, and reads back as exactly that text.
pub proof fn lemma_pushes_read_back(cs: Seq<char>)
    requires
        cs.len() <= MAX_BUF_SIZE,
    ensures
        push_all(Seq::empty(), cs) == cs,
        valid_utf8(encode_utf8(push_all(Seq::empty(), cs))),
        decode_utf8(encode_utf8(push_all(Seq::empty(), cs))) == cs,
{
    lemma_push_all_appends(Seq::empty(), cs);
    assert(Seq::<char>::empty() + cs =~= cs);
}

/// A push never empties a buffer and never takes it past capacity; on a full
/// buffer it leaves only the new character.
pub proof fn lemma_push_bounded(s: Seq<char>, c: char)
    requires
        s.len() <= MAX_BUF_SIZE,
    ensures
        1 <= pushed(s, c).len() <= MAX_BUF_SIZE,
        pushed(s, c).last() == c,
        s.len() == MAX_BUF_SIZE ==> pushed(s, c) == seq![c],
{
}

/// Deleting from an empty buffer leaves it empty, however often it is done.
pub proof fn lemma_pop_empty(s: Seq<char>)
    requires
        s.len() == 0,
    ensures
        popped(s) == s,
        popped(popped(s)) == s,
{
}

/// Clearing twice is clearing once, and a cleared buffer is empty, within
/// capacity, and reads back as valid, empty text.
pub proof fn lemma_clear_idempotent(s: Seq<char>)
    ensures
        cleared(cleared(s)) == cleared(s),
        cleared(s).len() == 0,
        valid_utf8(encode_utf8(cleared(s))),
        decode_utf8(encode_utf8(cleared(s))) == cleared(s),
{
}

} // verus!
