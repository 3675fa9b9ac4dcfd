//! Network messages: a header naming the kind of message and its total size,
//! and a body used as a stack of plain values.
//!
//! Values are pushed onto the end of the body and pulled back off the end, so
//! they come back in the reverse of the order they were pushed. Every value
//! takes as many bytes as it occupies in memory, and the header as many as a
//! `MessageHeader` does.
use crate::pod::{fit, push_fitted, Pod};
use vstd::layout::size_of;
use vstd::prelude::*;

verus! {

/// Errors of reading values back out of a message.
#[derive(Debug, Clone, Copy, PartialEq, Eq, Structural)]
pub enum MessageError {
    /// The requested type needs `type_size` bytes but the body only has
    /// `remaining`.
    NotEnoughBytes { type_size: usize, remaining: usize },
}

/// A kind of message: both sides agree on what the body of each kind holds.
pub trait Messageable: Pod {

}

/// The header of a message.
#[derive(Debug, Clone, Copy)]
pub struct MessageHeader<T: Messageable> {
    /// Type of message
    pub id: T,
    /// the length of the message in bytes, header included
    pub size: u32,
}

/// A message: its header and its body bytes.
#[derive(Debug, Clone)]
pub struct Message<T: Messageable> {
    pub header: MessageHeader<T>,
    pub body: Vec<u8>,
}

/// The mathematical content of a message.
pub struct MessageModel<T> {
    pub id: T,
    pub size: u32,
    pub body: Seq<u8>,
}

/// Number of bytes of a header: its size in memory.
pub open spec fn spec_header_size<T: Messageable>() -> nat {
    size_of::<MessageHeader<T>>()
}

/// Where the size field starts in the bytes of a header: after the kind,
/// aligned to four bytes, as a C struct of the two fields places it.
pub open spec fn spec_size_offset<T: Messageable>() -> nat {
    ((size_of::<T>() + 3) / 4 * 4) as nat
}

/// Where the size field starts, kept within the header.
pub open spec fn spec_size_field_start<T: Messageable>() -> nat {
    if spec_size_offset::<T>() <= spec_header_size::<T>() {
        spec_size_offset::<T>()
    } else {
        spec_header_size::<T>()
    }
}

/// Whether the kind and the size field fit side by side in the memory size
/// of a header, as they do in every Rust layout of it.
pub open spec fn spec_header_fits<T: Messageable>() -> bool {
    spec_size_offset::<T>() + 4 <= spec_header_size::<T>()
}

/// The bytes of a header: the kind's bytes, zeros up to the size field, the
/// size in the byte order of the machine, then zeros, all fitted to the
/// memory size of a header.
pub open spec fn spec_header_bytes<T: Messageable>(id: T, size: u32) -> Seq<u8> {
    fit(
        fit(T::spec_encode(id), spec_size_field_start::<T>()) + u32::spec_encode(size),
        spec_header_size::<T>(),
    )
}

/// The size recorded for a message whose body holds `body_len` bytes: header
/// and body together, kept to 32 bits.
pub open spec fn spec_message_size<T: Messageable>(body_len: nat) -> u32 {
    ((spec_header_size::<T>() + body_len) % 0x1_0000_0000) as u32
}

impl<T: Messageable> View for Message<T> {
    type V = MessageModel<T>;

    open spec fn view(&self) -> MessageModel<T> {
        MessageModel { id: self.header.id, size: self.header.size, body: self.body@ }
    }
}

impl<T: Messageable> MessageModel<T> {
    /// The header records the true size of the message.
    pub open spec fn size_is_current(self) -> bool {
        self.size == spec_message_size::<T>(self.body.len())
    }

    /// The message after `v` is pushed onto its body.
    pub open spec fn pushed<V: Pod>(self, v: V) -> MessageModel<T> {
        let body = self.body + V::spec_encode(v);
        MessageModel { id: self.id, size: spec_message_size::<T>(body.len()), body }
    }

    /// Whether a value of type `V` can be pulled off the body.
    pub open spec fn can_pull<V: Pod>(self) -> bool {
        size_of::<V>() <= self.body.len()
    }

    /// The message after a value of type `V` is pulled off its body; unchanged
    /// when the body is too short.
    pub open spec fn pulled<V: Pod>(self) -> MessageModel<T> {
        if self.can_pull::<V>() {
            let body = self.body.subrange(0, self.body.len() - size_of::<V>());
            MessageModel { id: self.id, size: spec_message_size::<T>(body.len()), body }
        } else {
            self
        }
    }

    /// What pulling a value of type `V` returns.
    pub open spec fn pull_result<V: Pod>(self) -> Result<V, MessageError> {
        if self.can_pull::<V>() {
            Ok(
                V::spec_decode(
                    self.body.subrange(
                        self.body.len() - size_of::<V>(),
                        self.body.len() as int,
                    ),
                ),
            )
        } else {
            Err(
                MessageError::NotEnoughBytes {
                    type_size: size_of::<V>() as usize,
                    remaining: self.body.len() as usize,
                },
            )
        }
    }

    /// The bytes that carry the message: the header, then the body.
    pub open spec fn wire_bytes(self) -> Seq<u8> {
        spec_header_bytes::<T>(self.id, self.size) + self.body
    }
}

/// The number of bytes of a header: its size in memory.
pub fn header_size<T: Messageable>() -> (n: usize)
    ensures
        n == spec_header_size::<T>(),
{
    core::mem::size_of::<MessageHeader<T>>()
}

/// Where the size field starts in the bytes of a header, kept within the
/// header.
fn size_field_start<T: Messageable>() -> (n: usize)
    ensures
        n == spec_size_field_start::<T>(),
{
    let k = core::mem::size_of::<T>();
    let h = core::mem::size_of::<MessageHeader<T>>();
    if k >= h {
        return h;
    }
    let r = k % 4;
    if r == 0 {
        k
    } else if 4 - r <= h - k {
        k + (4 - r)
    } else {
        h
    }
}

/// Whether `bytes` hold a whole header.
pub open spec fn spec_holds_header<T: Messageable>(bytes: Seq<u8>) -> bool {
    bytes.len() >= spec_header_size::<T>()
}

/// The header that the first bytes of `bytes` hold: the kind from the
/// kind's bytes, the size from the four bytes of the size field.
pub open spec fn spec_decode_header<T: Messageable>(bytes: Seq<u8>) -> (T, u32) {
    let h = bytes.subrange(0, spec_header_size::<T>() as int);
    let off = spec_size_field_start::<T>();
    (
        T::spec_decode(fit(h, size_of::<T>())),
        u32::spec_decode(fit(h.subrange(off as int, h.len() as int), 4)),
    )
}

/// Whether `bytes` are one whole message: a header whose recorded size is the
/// number of bytes.
pub open spec fn spec_is_frame<T: Messageable>(bytes: Seq<u8>) -> bool {
    &&& spec_holds_header::<T>(bytes)
    &&& spec_decode_header::<T>(bytes).1 == (bytes.len() % 0x1_0000_0000) as u32
}

impl<T: Messageable> MessageHeader<T> {
    /// Reads the header at the start of `bytes`.
    pub fn from_bytes(bytes: &[u8]) -> (header: Self)
        requires
            spec_holds_header::<T>(bytes@),
        ensures
            (header.id, header.size) == spec_decode_header::<T>(bytes@),
    {
        let hs = header_size::<T>();
        let h = slice_range(bytes, 0, hs);
        let off = size_field_start::<T>();
        let mut id_bytes: Vec<u8> = Vec::new();
        push_fitted(&mut id_bytes, h, core::mem::size_of::<T>());
        let mut size_bytes: Vec<u8> = Vec::new();
        push_fitted(&mut size_bytes, slice_range(h, off, hs), 4);
        proof {
            crate::pod::lemma_primitive_sizes();
            assert(id_bytes@ =~= fit(h@, size_of::<T>()));
            assert(size_bytes@ =~= fit(h@.subrange(off as int, h@.len() as int), 4));
        }
        let id = T::decode(id_bytes.as_slice());
        let size = u32::decode(size_bytes.as_slice());
        MessageHeader { id, size }
    }
}

/// The bytes `bytes[start..end]`.
pub(crate) fn slice_range(bytes: &[u8], start: usize, end: usize) -> (out: &[u8])
    requires
        start <= end <= bytes@.len(),
    ensures
        out@ == bytes@.subrange(start as int, end as int),
{
    let (front, _) = bytes.split_at(end);
    let (_, middle) = front.split_at(start);
    assert(middle@ =~= bytes@.subrange(start as int, end as int));
    middle
}

/// `(a + b) % 2^32`, computed without overflow.
fn size_of_parts(a: usize, b: usize) -> (r: u32)
    ensures
        r == (a + b) % 0x1_0000_0000,
{
    let a64: u64 = a as u64 % 0x1_0000_0000;
    let b64: u64 = b as u64 % 0x1_0000_0000;
    proof {
        vstd::arithmetic::div_mod::lemma_add_mod_noop(a as int, b as int, 0x1_0000_0000);
    }
    ((a64 + b64) % 0x1_0000_0000) as u32
}

impl<T: Messageable> Message<T> {
    /// A message of kind `id` with an empty body.
    pub fn new(id: T) -> (msg: Self)
        ensures
            msg@.id == id,
            msg@.body == Seq::<u8>::empty(),
            msg@.size == (spec_header_size::<T>() % 0x1_0000_0000) as u32,
            msg@.size_is_current(),
    {
        let hs = header_size::<T>();
        let header = MessageHeader { id, size: size_of_parts(hs, 0) };
        Message { header, body: Vec::new() }
    }

    /// The size of the message in bytes, header included, kept to 32 bits.
    pub fn size(&self) -> (size: u32)
        ensures
            size == spec_message_size::<T>(self.body@.len()),
    {
        size_of_parts(header_size::<T>(), self.body.len())
    }

    /// Pushes `data` onto the end of the body and records the new size.
    pub fn push<V: Pod>(&mut self, data: V)
        requires
            old(self).body@.len() + size_of::<V>() <= usize::MAX,
        ensures
            final(self)@ == old(self)@.pushed(data),
            final(self)@.body.len() == old(self)@.body.len() + size_of::<V>(),
    {
        proof {
            V::lemma_encoding(data);
        }
        data.encode(&mut self.body);
        self.header.size = self.size();
    }

    /// Pulls a value of type `V` off the end of the body and records the new
    /// size; when the body is too short, says so and changes nothing.
    pub fn pull<V: Pod>(&mut self) -> (res: Result<V, MessageError>)
        ensures
            res == old(self)@.pull_result::<V>(),
            final(self)@ == old(self)@.pulled::<V>(),
    {
        let bytes = core::mem::size_of::<V>();
        let len = self.body.len();
        if bytes > len {
            return Err(MessageError::NotEnoughBytes { type_size: bytes, remaining: len });
        }
        let new_len = len - bytes;
        let out = V::decode(slice_range(self.body.as_slice(), new_len, len));
        self.body.truncate(new_len);
        self.header.size = self.size();
        Ok(out)
    }

    /// The bytes that carry the message: header, then body.
    pub fn into_bytes(self) -> (bytes: Vec<u8>)
        ensures
            bytes@ == self@.wire_bytes(),
    {
        let mut id_bytes: Vec<u8> = Vec::new();
        self.header.id.encode(&mut id_bytes);
        let mut fields: Vec<u8> = Vec::new();
        push_fitted(&mut fields, id_bytes.as_slice(), size_field_start::<T>());
        self.header.size.encode(&mut fields);
        let mut out: Vec<u8> = Vec::new();
        push_fitted(&mut out, fields.as_slice(), header_size::<T>());
        let mut i: usize = 0;
        let ghost front = out@;
        while i < self.body.len()
            invariant
                i <= self.body@.len(),
                out@ == front + self.body@.subrange(0, i as int),
            decreases self.body@.len() - i,
        {
            out.push(self.body[i]);
            assert(self.body@.subrange(0, i + 1) =~= self.body@.subrange(0, i as int).push(self.body@[i as int]));
            i = i + 1;
        }
        assert(self.body@.subrange(0, i as int) =~= self.body@);
        out
    }

    /// Whether `bytes` are one whole message, as `from_bytes` needs.
    pub fn is_frame(bytes: &[u8]) -> (ok: bool)
        ensures
            ok == spec_is_frame::<T>(bytes@),
    {
        let hs = header_size::<T>();
        if bytes.len() < hs {
            return false;
        }
        let header = MessageHeader::<T>::from_bytes(bytes);
        header.size == size_of_parts(bytes.len(), 0)
    }

    /// Reads a whole message from `bytes`.
    pub fn from_bytes(bytes: &[u8]) -> (msg: Self)
        requires
            spec_is_frame::<T>(bytes@),
        ensures
            (msg@.id, msg@.size) == spec_decode_header::<T>(bytes@),
            msg@.body == bytes@.subrange(spec_header_size::<T>() as int, bytes@.len() as int),
    {
        let header = MessageHeader::<T>::from_bytes(bytes);
        let hs = header_size::<T>();
        let body_bytes = slice_range(bytes, hs, bytes.len());
        let mut body: Vec<u8> = Vec::new();
        let mut i: usize = 0;
        while i < body_bytes.len()
            invariant
                i <= body_bytes@.len(),
                body@ == body_bytes@.subrange(0, i as int),
            decreases body_bytes@.len() - i,
        {
            body.push(body_bytes[i]);
            assert(body_bytes@.subrange(0, i + 1) =~= body_bytes@.subrange(0, i as int).push(body_bytes@[i as int]));
            i = i + 1;
        }
        assert(body_bytes@.subrange(0, i as int) =~= body_bytes@);
        Message { header, body }
    }
}

/// Pulling a value of the type just pushed gives that value back and leaves
/// the message as it was before the push.
pub proof fn lemma_pull_undoes_push<T: Messageable, V: Pod>(m: MessageModel<T>, v: V)
    requires
        m.size_is_current(),
        V::spec_round_trips(),
    ensures
        m.pushed(v).pull_result::<V>() == Ok::<V, MessageError>(v),
        m.pushed(v).pulled::<V>() == m,
{
    V::lemma_encoding(v);
    let p = m.pushed(v);
    assert(p.body.subrange(0, p.body.len() - size_of::<V>()) =~= m.body);
    assert(p.body.subrange(p.body.len() - size_of::<V>(), p.body.len() as int)
        =~= V::spec_encode(v));
}

/// Values come back in the reverse of the order they were pushed: after
/// pushing `a` then `b`, pulling gives `b`, then `a`, then the original
/// message.
pub proof fn lemma_pull_order<T: Messageable, A: Pod, B: Pod>(m: MessageModel<T>, a: A, b: B)
    requires
        m.size_is_current(),
        A::spec_round_trips(),
        B::spec_round_trips(),
    ensures
        m.pushed(a).pushed(b).pull_result::<B>() == Ok::<B, MessageError>(b),
        m.pushed(a).pushed(b).pulled::<B>().pull_result::<A>() == Ok::<A, MessageError>(a),
        m.pushed(a).pushed(b).pulled::<B>().pulled::<A>() == m,
{
    lemma_pull_undoes_push(m, a);
    lemma_pull_undoes_push(m.pushed(a), b);
}

/// Pushing and pulling keep the size in the header equal to the true size of
/// the message; a failed pull changes nothing.
pub proof fn lemma_size_stays_current<T: Messageable, V: Pod>(m: MessageModel<T>, v: V)
    requires
        m.size_is_current(),
    ensures
        m.pushed(v).size_is_current(),
        m.pulled::<V>().size_is_current(),
        !m.can_pull::<V>() ==> m.pulled::<V>() == m,
{
}

/// The bytes of a message whose header records its size are one whole
/// message, and reading them back gives the same kind, size and body.
pub proof fn lemma_wire_round_trip<T: Messageable>(m: MessageModel<T>)
    requires
        m.size_is_current(),
        spec_header_fits::<T>(),
        T::spec_round_trips(),
    ensures
        spec_is_frame::<T>(m.wire_bytes()),
        spec_decode_header::<T>(m.wire_bytes()) == (m.id, m.size),
        m.wire_bytes().subrange(spec_header_size::<T>() as int, m.wire_bytes().len() as int)
            == m.body,
{
    T::lemma_encoding(m.id);
    u32::lemma_encoding(m.size);
    crate::pod::lemma_primitive_sizes();
    let w = m.wire_bytes();
    let hb = spec_header_bytes::<T>(m.id, m.size);
    let k = size_of::<T>() as int;
    let off = spec_size_offset::<T>() as int;
    let hs = spec_header_size::<T>() as int;
    assert(hb.len() == hs);
    assert(w.subrange(0, hs) =~= hb);
    assert(fit(hb, k as nat) =~= T::spec_encode(m.id));
    assert(fit(hb.subrange(off, hs), 4) =~= u32::spec_encode(m.size));
    assert(w.subrange(hs, w.len() as int) =~= m.body);
}

} // verus!

verus! {

/// Bytes are one whole message exactly when they hold a whole header and the
/// size that header records is the number of bytes (kept to 32 bits): the
/// message read from them then records its own size.
pub proof fn lemma_frame_records_its_length<T: Messageable>(bytes: Seq<u8>)
    ensures
        spec_is_frame::<T>(bytes) <==> (bytes.len() >= size_of::<MessageHeader<T>>()
            && spec_decode_header::<T>(bytes).1 as int == bytes.len() % 0x1_0000_0000),
        spec_is_frame::<T>(bytes) ==> (MessageModel {
            id: spec_decode_header::<T>(bytes).0,
            size: spec_decode_header::<T>(bytes).1,
            body: bytes.subrange(size_of::<MessageHeader<T>>() as int, bytes.len() as int),
        }).size_is_current(),
        bytes.len() >= size_of::<MessageHeader<T>>() && spec_decode_header::<T>(bytes).1 as int
            != bytes.len() % 0x1_0000_0000 ==> !spec_is_frame::<T>(bytes),
{
}

} // verus!
