//! XDR (RFC 1014): a big-endian, 4-byte-aligned encoder and a decode cursor
//! over a borrowed datagram. One UDP datagram carries exactly one RPC message.

use vstd::prelude::*;
use vstd::slice::slice_subrange;

verus! {

// ── byte-level model ────────────────────────────────────────────────────────

/// The four big-endian bytes of `v`.
pub open spec fn be32(v: u32) -> Seq<u8> {
    seq![(v >> 24u32) as u8, (v >> 16u32) as u8, (v >> 8u32) as u8, v as u8]
}

/// The `u32` whose big-endian bytes are `s[0..4]`.
pub open spec fn from_be32(s: Seq<u8>) -> u32 {
    ((s[0] as u32) << 24u32) | ((s[1] as u32) << 16u32) | ((s[2] as u32) << 8u32) | (
    s[3] as u32)
}

/// The eight big-endian bytes of `v`.
pub open spec fn be64(v: u64) -> Seq<u8> {
    seq![
        (v >> 56u64) as u8,
        (v >> 48u64) as u8,
        (v >> 40u64) as u8,
        (v >> 32u64) as u8,
        (v >> 24u64) as u8,
        (v >> 16u64) as u8,
        (v >> 8u64) as u8,
        v as u8,
    ]
}

/// The `u64` whose big-endian bytes are `s[0..8]`.
pub open spec fn from_be64(s: Seq<u8>) -> u64 {
    ((s[0] as u64) << 56u64) | ((s[1] as u64) << 48u64) | ((s[2] as u64) << 40u64) | ((
    s[3] as u64) << 32u64) | ((s[4] as u64) << 24u64) | ((s[5] as u64) << 16u64) | ((
    s[6] as u64) << 8u64) | (s[7] as u64)
}

/// Number of zero bytes that pad `n` bytes up to a 4-byte boundary.
pub open spec fn pad_len(n: int) -> int {
    (4 - n % 4) % 4
}

/// `n` zero bytes.
pub open spec fn zeros(n: int) -> Seq<u8> {
    Seq::new(n as nat, |i: int| 0u8)
}

/// A fixed-length opaque: the bytes, then zero padding to a 4-byte boundary.
pub open spec fn enc_fixed(b: Seq<u8>) -> Seq<u8> {
    b + zeros(pad_len(b.len() as int))
}

/// A variable-length opaque/string: the length word (truncated to 32 bits, as
/// the encoder writes it), then the padded bytes.
pub open spec fn enc_opaque(b: Seq<u8>) -> Seq<u8> {
    be32(b.len() as u32) + enc_fixed(b)
}

/// An XDR `bool`: 1 or 0 as a 32-bit word.
pub open spec fn enc_bool(v: bool) -> Seq<u8> {
    be32(if v { 1u32 } else { 0u32 })
}

pub proof fn lemma_be32_roundtrip(v: u32)
    ensures
        be32(v).len() == 4,
        from_be32(be32(v)) == v,
{
    let b0 = (v >> 24u32) as u8;
    let b1 = (v >> 16u32) as u8;
    let b2 = (v >> 8u32) as u8;
    let b3 = v as u8;
    assert((((b0 as u32) << 24u32) | ((b1 as u32) << 16u32) | ((b2 as u32) << 8u32) | (b3 as u32))
        == v) by (bit_vector)
        requires
            b0 == (v >> 24u32) as u8,
            b1 == (v >> 16u32) as u8,
            b2 == (v >> 8u32) as u8,
            b3 == v as u8,
    ;
}

pub proof fn lemma_be64_roundtrip(v: u64)
    ensures
        be64(v).len() == 8,
        from_be64(be64(v)) == v,
{
    let b0 = (v >> 56u64) as u8;
    let b1 = (v >> 48u64) as u8;
    let b2 = (v >> 40u64) as u8;
    let b3 = (v >> 32u64) as u8;
    let b4 = (v >> 24u64) as u8;
    let b5 = (v >> 16u64) as u8;
    let b6 = (v >> 8u64) as u8;
    let b7 = v as u8;
    assert((((b0 as u64) << 56u64) | ((b1 as u64) << 48u64) | ((b2 as u64) << 40u64) | ((
    b3 as u64) << 32u64) | ((b4 as u64) << 24u64) | ((b5 as u64) << 16u64) | ((b6 as u64)
        << 8u64) | (b7 as u64)) == v) by (bit_vector)
        requires
            b0 == (v >> 56u64) as u8,
            b1 == (v >> 48u64) as u8,
            b2 == (v >> 40u64) as u8,
            b3 == (v >> 32u64) as u8,
            b4 == (v >> 24u64) as u8,
            b5 == (v >> 16u64) as u8,
            b6 == (v >> 8u64) as u8,
            b7 == v as u8,
    ;
}

// ── encoder ─────────────────────────────────────────────────────────────────

/// Big-endian, 4-byte-aligned XDR encoder.
pub struct Xdr {
    buf: Vec<u8>,
}

impl View for Xdr {
    type V = Seq<u8>;

    closed spec fn view(&self) -> Seq<u8> {
        self.buf@
    }
}

impl Xdr {
    /// Everything written so far is a whole number of XDR words.
    #[verifier::type_invariant]
    closed spec fn aligned(self) -> bool {
        self.buf@.len() % 4 == 0
    }

    pub fn new() -> (x: Self)
        ensures
            x@ == Seq::<u8>::empty(),
    {
        Xdr { buf: Vec::new() }
    }

    /// Append already-aligned bytes in one step.
    fn put(&mut self, mut bytes: Vec<u8>)
        requires
            bytes@.len() % 4 == 0,
        ensures
            final(self)@ == old(self)@ + bytes@,
    {
        proof {
            use_type_invariant(&*self);
        }
        let mut buf: Vec<u8> = Vec::new();
        std::mem::swap(&mut buf, &mut self.buf);
        buf.append(&mut bytes);
        self.buf = buf;
    }

    pub fn u32(&mut self, v: u32)
        ensures
            final(self)@ == old(self)@ + be32(v),
    {
        let mut w: Vec<u8> = Vec::new();
        w.push((v >> 24u32) as u8);
        w.push((v >> 16u32) as u8);
        w.push((v >> 8u32) as u8);
        w.push(v as u8);
        assert(w@ =~= be32(v));
        self.put(w);
    }

    pub fn i32(&mut self, v: i32)
        ensures
            final(self)@ == old(self)@ + be32(v as u32),
    {
        self.u32(v as u32);
    }

    pub fn u64(&mut self, v: u64)
        ensures
            final(self)@ == old(self)@ + be64(v),
    {
        let mut w: Vec<u8> = Vec::new();
        w.push((v >> 56u64) as u8);
        w.push((v >> 48u64) as u8);
        w.push((v >> 40u64) as u8);
        w.push((v >> 32u64) as u8);
        w.push((v >> 24u64) as u8);
        w.push((v >> 16u64) as u8);
        w.push((v >> 8u64) as u8);
        w.push(v as u8);
        assert(w@ =~= be64(v));
        self.put(w);
    }

    pub fn bool(&mut self, v: bool)
        ensures
            final(self)@ == old(self)@ + enc_bool(v),
    {
        self.u32(if v { 1u32 } else { 0u32 });
    }

    /// Length-prefixed opaque/string, padded to a 4-byte boundary.
    pub fn opaque(&mut self, b: &[u8])
        ensures
            final(self)@ == old(self)@ + enc_opaque(b@),
    {
        self.u32(b.len() as u32);
        self.fixed(b);
        assert(final(self)@ =~= old(self)@ + enc_opaque(b@));
    }

    /// Fixed-length bytes (no length prefix), padded to 4 bytes.
    pub fn fixed(&mut self, b: &[u8])
        ensures
            final(self)@ == old(self)@ + enc_fixed(b@),
    {
        let pad: usize = (4 - (b.len() % 4)) % 4;
        let mut w: Vec<u8> = Vec::new();
        let mut i: usize = 0;
        while i < b.len()
            invariant
                i <= b@.len(),
                w@ =~= b@.subrange(0, i as int),
            decreases b@.len() - i,
        {
            w.push(b[i]);
            i = i + 1;
        }
        let mut j: usize = 0;
        while j < pad
            invariant
                j <= pad,
                pad == pad_len(b@.len() as int),
                w@ =~= b@ + zeros(j as int),
            decreases pad - j,
        {
            w.push(0u8);
            j = j + 1;
        }
        assert(w@ =~= enc_fixed(b@));
        self.put(w);
    }

    pub fn len(&self) -> (n: usize)
        ensures
            n == self@.len(),
            n % 4 == 0,
    {
        proof {
            use_type_invariant(self);
        }
        self.buf.len()
    }

    pub fn is_empty(&self) -> (e: bool)
        ensures
            e <==> self@.len() == 0,
    {
        self.buf.len() == 0
    }

    pub fn into_bytes(self) -> (bytes: Vec<u8>)
        ensures
            bytes@ == self@,
            bytes@.len() % 4 == 0,
    {
        proof {
            use_type_invariant(&self);
        }
        self.buf
    }
}

impl Default for Xdr {
    fn default() -> (x: Self)
        ensures
            x@ == Seq::<u8>::empty(),
    {
        Xdr::new()
    }
}

// ── decode cursor ───────────────────────────────────────────────────────────

/// The abstract state of a decode cursor: the datagram and the read position.
pub struct CurView {
    pub bytes: Seq<u8>,
    pub pos: int,
}

/// Read one big-endian `u32` at the cursor.
pub open spec fn dec_u32(c: CurView) -> Option<(u32, CurView)> {
    if c.pos + 4 <= c.bytes.len() {
        Some(
            (
                from_be32(c.bytes.subrange(c.pos, c.pos + 4)),
                CurView { bytes: c.bytes, pos: c.pos + 4 },
            ),
        )
    } else {
        None
    }
}

/// Read one big-endian `u64` at the cursor.
pub open spec fn dec_u64(c: CurView) -> Option<(u64, CurView)> {
    if c.pos + 8 <= c.bytes.len() {
        Some(
            (
                from_be64(c.bytes.subrange(c.pos, c.pos + 8)),
                CurView { bytes: c.bytes, pos: c.pos + 8 },
            ),
        )
    } else {
        None
    }
}

/// Take `len` bytes at the cursor and consume the pad to a 4-byte boundary; a
/// pad cut short by the end of the datagram is tolerated.
pub open spec fn dec_fixed(c: CurView, len: int) -> Option<(Seq<u8>, CurView)> {
    let e = c.pos + len;
    if e <= c.bytes.len() {
        let p = if e + pad_len(len) <= c.bytes.len() {
            e + pad_len(len)
        } else {
            c.bytes.len() as int
        };
        Some((c.bytes.subrange(c.pos, e), CurView { bytes: c.bytes, pos: p }))
    } else {
        None
    }
}

/// Skip `n` bytes.
pub open spec fn dec_skip(c: CurView, n: int) -> Option<CurView> {
    if c.pos + n <= c.bytes.len() {
        Some(CurView { bytes: c.bytes, pos: c.pos + n })
    } else {
        None
    }
}

/// A length-prefixed opaque/string.
pub open spec fn dec_opaque(c: CurView) -> Option<(Seq<u8>, CurView)> {
    match dec_u32(c) {
        Some((n, c2)) => dec_fixed(c2, n as int),
        None => None,
    }
}

/// The cursor position after reading just the length word of an opaque, which
/// is where the cursor stays when the body itself is cut short.
pub open spec fn after_opaque_len(c: CurView) -> CurView {
    match dec_u32(c) {
        Some((_, c2)) => c2,
        None => c,
    }
}

/// Big-endian XDR decode cursor over a borrowed datagram.
pub struct Cur<'a> {
    b: &'a [u8],
    pos: usize,
}

impl<'a> View for Cur<'a> {
    type V = CurView;

    closed spec fn view(&self) -> CurView {
        CurView { bytes: self.b@, pos: self.pos as int }
    }
}

impl<'a> Cur<'a> {
    /// The read position never passes the end of the datagram.
    #[verifier::type_invariant]
    closed spec fn in_bounds(self) -> bool {
        self.pos <= self.b@.len()
    }

    pub fn new(b: &'a [u8]) -> (c: Self)
        ensures
            c@ == (CurView { bytes: b@, pos: 0 }),
            c@.pos <= c@.bytes.len(),
    {
        Cur { b, pos: 0 }
    }

    pub fn u32(&mut self) -> (r: Option<u32>)
        ensures
            final(self)@.pos <= final(self)@.bytes.len(),
            final(self)@.bytes == old(self)@.bytes,
            dec_u32(old(self)@) == (match r {
                Some(v) => Some((v, final(self)@)),
                None => None::<(u32, CurView)>,
            }),
            r is None ==> final(self)@ == old(self)@,
    {
        proof {
            use_type_invariant(&*self);
        }
        if self.b.len() - self.pos < 4 {
            return None;
        }
        let p = self.pos;
        let v: u32 = ((self.b[p] as u32) << 24u32) | ((self.b[p + 1] as u32) << 16u32) | ((
        self.b[p + 2] as u32) << 8u32) | (self.b[p + 3] as u32);
        self.pos = p + 4;
        assert(self.b@.subrange(p as int, p + 4)[0] == self.b@[p as int]);
        assert(self.b@.subrange(p as int, p + 4)[1] == self.b@[p + 1]);
        assert(self.b@.subrange(p as int, p + 4)[2] == self.b@[p + 2]);
        assert(self.b@.subrange(p as int, p + 4)[3] == self.b@[p + 3]);
        Some(v)
    }

    pub fn u64(&mut self) -> (r: Option<u64>)
        ensures
            final(self)@.pos <= final(self)@.bytes.len(),
            final(self)@.bytes == old(self)@.bytes,
            dec_u64(old(self)@) == (match r {
                Some(v) => Some((v, final(self)@)),
                None => None::<(u64, CurView)>,
            }),
            r is None ==> final(self)@ == old(self)@,
    {
        proof {
            use_type_invariant(&*self);
        }
        if self.b.len() - self.pos < 8 {
            return None;
        }
        let p = self.pos;
        let v: u64 = ((self.b[p] as u64) << 56u64) | ((self.b[p + 1] as u64) << 48u64) | ((
        self.b[p + 2] as u64) << 40u64) | ((self.b[p + 3] as u64) << 32u64) | ((self.b[p
            + 4] as u64) << 24u64) | ((self.b[p + 5] as u64) << 16u64) | ((self.b[p
            + 6] as u64) << 8u64) | (self.b[p + 7] as u64);
        self.pos = p + 8;
        let ghost s = self.b@.subrange(p as int, p + 8);
        assert(s[0] == self.b@[p as int]);
        assert(s[1] == self.b@[p + 1]);
        assert(s[2] == self.b@[p + 2]);
        assert(s[3] == self.b@[p + 3]);
        assert(s[4] == self.b@[p + 4]);
        assert(s[5] == self.b@[p + 5]);
        assert(s[6] == self.b@[p + 6]);
        assert(s[7] == self.b@[p + 7]);
        Some(v)
    }

    pub fn i32(&mut self) -> (r: Option<i32>)
        ensures
            final(self)@.pos <= final(self)@.bytes.len(),
            final(self)@.bytes == old(self)@.bytes,
            dec_u32(old(self)@) == (match r {
                Some(v) => Some((v as u32, final(self)@)),
                None => None::<(u32, CurView)>,
            }),
            r is None ==> final(self)@ == old(self)@,
    {
        match self.u32() {
            Some(v) => {
                assert((v as i32) as u32 == v) by (bit_vector);
                Some(v as i32)
            },
            None => None,
        }
    }

    /// Length-prefixed opaque/string (returns the bytes; consumes the pad).
    pub fn opaque(&mut self) -> (r: Option<&'a [u8]>)
        ensures
            final(self)@.pos <= final(self)@.bytes.len(),
            final(self)@.bytes == old(self)@.bytes,
            dec_opaque(old(self)@) == (match r {
                Some(s) => Some((s@, final(self)@)),
                None => None::<(Seq<u8>, CurView)>,
            }),
            r is None ==> final(self)@ == after_opaque_len(old(self)@),
    {
        let len = match self.u32() {
            Some(n) => n as usize,
            None => return None,
        };
        self.fixed(len)
    }

    /// Fixed-length opaque of `len` bytes, consuming the pad to a 4-byte
    /// boundary (a missing trailing pad is tolerated).
    pub fn fixed(&mut self, len: usize) -> (r: Option<&'a [u8]>)
        ensures
            final(self)@.pos <= final(self)@.bytes.len(),
            final(self)@.bytes == old(self)@.bytes,
            dec_fixed(old(self)@, len as int) == (match r {
                Some(s) => Some((s@, final(self)@)),
                None => None::<(Seq<u8>, CurView)>,
            }),
            r is None ==> final(self)@ == old(self)@,
    {
        proof {
            use_type_invariant(&*self);
        }
        if len > self.b.len() - self.pos {
            return None;
        }
        let e = self.pos + len;
        let s = slice_subrange(self.b, self.pos, e);
        let pad: usize = (4 - (len % 4)) % 4;
        self.pos = if pad <= self.b.len() - e {
            e + pad
        } else {
            self.b.len()
        };
        Some(s)
    }

    pub fn skip(&mut self, n: usize) -> (r: Option<()>)
        ensures
            final(self)@.pos <= final(self)@.bytes.len(),
            final(self)@.bytes == old(self)@.bytes,
            dec_skip(old(self)@, n as int) == (match r {
                Some(_) => Some(final(self)@),
                None => None::<CurView>,
            }),
            r is None ==> final(self)@ == old(self)@,
    {
        proof {
            use_type_invariant(&*self);
        }
        if n > self.b.len() - self.pos {
            return None;
        }
        self.pos = self.pos + n;
        Some(())
    }

    /// Skip one RPC opaque_auth (`flavor` + length-prefixed `body`).
    pub fn skip_auth(&mut self) -> (r: Option<()>)
        ensures
            final(self)@.pos <= final(self)@.bytes.len(),
            final(self)@.bytes == old(self)@.bytes,
            dec_auth(old(self)@) == (match r {
                Some(_) => Some(final(self)@),
                None => None::<CurView>,
            }),
            r is None ==> final(self)@ == (match dec_u32(old(self)@) {
                Some((_, c2)) => after_opaque_len(c2),
                None => old(self)@,
            }),
    {
        let _flavor = match self.u32() {
            Some(f) => f,
            None => return None,
        };
        match self.opaque() {
            Some(_) => Some(()),
            None => None,
        }
    }

    /// The unread rest of the datagram.
    pub fn remaining(&self) -> (rest: &'a [u8])
        ensures
            rest@ == self@.bytes.subrange(self@.pos, self@.bytes.len() as int),
            self@.pos <= self@.bytes.len(),
    {
        proof {
            use_type_invariant(self);
        }
        slice_subrange(self.b, self.pos, self.b.len())
    }
}

/// Skip an RPC opaque_auth: a flavor word and a length-prefixed body.
pub open spec fn dec_auth(c: CurView) -> Option<CurView> {
    match dec_u32(c) {
        Some((_, c2)) => match dec_opaque(c2) {
            Some((_, c3)) => Some(c3),
            None => None,
        },
        None => None,
    }
}

/// Reading a `u32` where the bytes are `be32(v)` gives `v`.
pub proof fn lemma_u32_at(bytes: Seq<u8>, pos: int, v: u32)
    requires
        0 <= pos,
        pos + 4 <= bytes.len(),
        bytes.subrange(pos, pos + 4) == be32(v),
    ensures
        dec_u32(CurView { bytes, pos }) == Some((v, CurView { bytes, pos: pos + 4 })),
{
    lemma_be32_roundtrip(v);
}

/// Reading an opaque where the bytes are `enc_opaque(b)` gives `b`.
pub proof fn lemma_opaque_at(bytes: Seq<u8>, pos: int, b: Seq<u8>)
    requires
        0 <= pos,
        b.len() <= u32::MAX,
        pos + enc_opaque(b).len() <= bytes.len(),
        bytes.subrange(pos, pos + enc_opaque(b).len()) == enc_opaque(b),
    ensures
        dec_opaque(CurView { bytes, pos }) == Some(
            (b, CurView { bytes, pos: pos + enc_opaque(b).len() }),
        ),
{
    let prefix = bytes.subrange(0, pos);
    let rest = bytes.subrange(pos + enc_opaque(b).len(), bytes.len() as int);
    assert(bytes =~= prefix + enc_opaque(b) + rest);
    law_opaque_roundtrip(prefix, b, rest);
}

// ── laws: the cursor reads back what the encoder wrote ──────────────────────

/// A `u32` written by the encoder is read back unchanged by the cursor, which
/// then stands right after it, whatever precedes or follows it.
pub proof fn law_u32_roundtrip(prefix: Seq<u8>, v: u32, rest: Seq<u8>)
    ensures
        dec_u32(CurView { bytes: prefix + be32(v) + rest, pos: prefix.len() as int }) == Some(
            (v, CurView { bytes: prefix + be32(v) + rest, pos: prefix.len() + 4int }),
        ),
{
    lemma_be32_roundtrip(v);
    let bytes = prefix + be32(v) + rest;
    assert(bytes.subrange(prefix.len() as int, prefix.len() + 4int) =~= be32(v));
}

/// A `u64` written by the encoder is read back unchanged by the cursor.
pub proof fn law_u64_roundtrip(prefix: Seq<u8>, v: u64, rest: Seq<u8>)
    ensures
        dec_u64(CurView { bytes: prefix + be64(v) + rest, pos: prefix.len() as int }) == Some(
            (v, CurView { bytes: prefix + be64(v) + rest, pos: prefix.len() + 8int }),
        ),
{
    lemma_be64_roundtrip(v);
    let bytes = prefix + be64(v) + rest;
    assert(bytes.subrange(prefix.len() as int, prefix.len() + 8int) =~= be64(v));
}

/// Fixed-length bytes written by the encoder are read back unchanged, and
/// the cursor skips exactly the padding the encoder added.
pub proof fn law_fixed_roundtrip(prefix: Seq<u8>, b: Seq<u8>, rest: Seq<u8>)
    ensures
        dec_fixed(
            CurView { bytes: prefix + enc_fixed(b) + rest, pos: prefix.len() as int },
            b.len() as int,
        ) == Some(
            (
                b,
                CurView {
                    bytes: prefix + enc_fixed(b) + rest,
                    pos: (prefix.len() + enc_fixed(b).len()) as int,
                },
            ),
        ),
{
    let bytes = prefix + enc_fixed(b) + rest;
    assert(bytes.subrange(prefix.len() as int, (prefix.len() + b.len()) as int) =~= b);
}

/// A length-prefixed opaque written by the encoder is read back unchanged (for
/// any body whose length fits the 32-bit length word).
pub proof fn law_opaque_roundtrip(prefix: Seq<u8>, b: Seq<u8>, rest: Seq<u8>)
    requires
        b.len() <= u32::MAX,
    ensures
        dec_opaque(CurView { bytes: prefix + enc_opaque(b) + rest, pos: prefix.len() as int })
            == Some(
            (
                b,
                CurView {
                    bytes: prefix + enc_opaque(b) + rest,
                    pos: (prefix.len() + enc_opaque(b).len()) as int,
                },
            ),
        ),
{
    let n = b.len() as u32;
    assert(prefix + enc_opaque(b) + rest =~= prefix + be32(n) + (enc_fixed(b) + rest));
    law_u32_roundtrip(prefix, n, enc_fixed(b) + rest);
    assert(prefix + be32(n) + enc_fixed(b) + rest =~= prefix + be32(n) + (enc_fixed(b) + rest));
    law_fixed_roundtrip(prefix + be32(n), b, rest);
}

} // verus!
