//! Positional binary encoding of records: fields in declaration order, no tags.
//! A key is 32 raw bytes, a number 8 bytes little-endian, a text a 4-byte
//! little-endian length followed by its UTF-8 bytes, a fixed array its bytes.
use vstd::prelude::*;
use vstd::bytes::{
    spec_u32_from_le_bytes, spec_u32_to_le_bytes, spec_u64_from_le_bytes, spec_u64_to_le_bytes,
    lemma_auto_spec_u32_to_from_le_bytes, lemma_auto_spec_u64_to_from_le_bytes, u32_from_le_bytes,
    u32_to_le_bytes, u64_from_le_bytes, u64_to_le_bytes,
};
use vstd::slice::{slice_subrange, slice_to_vec};
use vstd::utf8::valid_utf8;
use crate::error::EngineError;

verus! {

/// Width in bytes of an account key.
pub const KEY_LEN: usize = 32;

/// The shape of one field of a record.
pub enum FieldKind {
    Key,
    Num,
    Text,
    Bytes(nat),
}

/// The abstract value of one field of a record.
pub enum FieldValue {
    Key(Seq<u8>),
    Num(u64),
    Text(Seq<u8>),
    Bytes(Seq<u8>),
}

/// A value that the encoding can carry for a field of kind `k`.
pub open spec fn field_fits(k: FieldKind, f: FieldValue) -> bool {
    match (k, f) {
        (FieldKind::Key, FieldValue::Key(b)) => b.len() == KEY_LEN,
        (FieldKind::Num, FieldValue::Num(_)) => true,
        (FieldKind::Text, FieldValue::Text(t)) => t.len() <= u32::MAX && valid_utf8(t),
        (FieldKind::Bytes(w), FieldValue::Bytes(b)) => b.len() == w,
        _ => false,
    }
}

pub open spec fn fields_fit(ks: Seq<FieldKind>, fs: Seq<FieldValue>) -> bool {
    &&& ks.len() == fs.len()
    &&& forall|i: int| 0 <= i < ks.len() ==> #[trigger] field_fits(ks[i], fs[i])
}

pub open spec fn field_bytes(f: FieldValue) -> Seq<u8> {
    match f {
        FieldValue::Key(b) => b,
        FieldValue::Num(v) => spec_u64_to_le_bytes(v),
        FieldValue::Text(t) => spec_u32_to_le_bytes(t.len() as u32) + t,
        FieldValue::Bytes(b) => b,
    }
}

/// The encoding of a record whose fields are `fs`.
pub open spec fn fields_bytes(fs: Seq<FieldValue>) -> Seq<u8>
    decreases fs.len(),
{
    if fs.len() == 0 {
        Seq::empty()
    } else {
        fields_bytes(fs.drop_last()) + field_bytes(fs.last())
    }
}

/// Reads one field of kind `k` at position `p` of `b`: its value and the
/// position after it, or `None` when the bytes run out or a text is not UTF-8.
pub open spec fn parse_field(k: FieldKind, b: Seq<u8>, p: int) -> Option<(FieldValue, int)> {
    match k {
        FieldKind::Key => if p + KEY_LEN <= b.len() {
            Some((FieldValue::Key(b.subrange(p, p + KEY_LEN)), p + KEY_LEN))
        } else {
            None
        },
        FieldKind::Num => if p + 8 <= b.len() {
            Some((FieldValue::Num(spec_u64_from_le_bytes(b.subrange(p, p + 8))), p + 8))
        } else {
            None
        },
        FieldKind::Text => if p + 4 <= b.len() {
            let end = p + 4 + spec_u32_from_le_bytes(b.subrange(p, p + 4));
            if end <= b.len() && valid_utf8(b.subrange(p + 4, end)) {
                Some((FieldValue::Text(b.subrange(p + 4, end)), end))
            } else {
                None
            }
        } else {
            None
        },
        FieldKind::Bytes(w) => if p + w <= b.len() {
            Some((FieldValue::Bytes(b.subrange(p, p + w)), p + w))
        } else {
            None
        },
    }
}

/// Reads the fields `ks` in order from the start of `b`: their values and the
/// number of bytes they took. Bytes after them are not looked at.
pub open spec fn parse_fields(ks: Seq<FieldKind>, b: Seq<u8>) -> Option<(Seq<FieldValue>, int)>
    decreases ks.len(),
{
    if ks.len() == 0 {
        Some((Seq::empty(), 0))
    } else {
        match parse_fields(ks.drop_last(), b) {
            Some((fs, p)) => match parse_field(ks.last(), b, p) {
                Some((f, q)) => Some((fs.push(f), q)),
                None => None,
            },
            None => None,
        }
    }
}

/// Like `parse_fields`, but every byte of `b` must be used.
pub open spec fn parse_exact(ks: Seq<FieldKind>, b: Seq<u8>) -> Option<Seq<FieldValue>> {
    match parse_fields(ks, b) {
        Some((fs, n)) => if n == b.len() {
            Some(fs)
        } else {
            None
        },
        None => None,
    }
}

proof fn lemma_parse_field_of_bytes(k: FieldKind, f: FieldValue, pre: Seq<u8>, tail: Seq<u8>)
    requires
        field_fits(k, f),
    ensures
        parse_field(k, pre + field_bytes(f) + tail, pre.len() as int) == Some(
            (f, pre.len() + field_bytes(f).len() as int),
        ),
{
    lemma_auto_spec_u64_to_from_le_bytes();
    lemma_auto_spec_u32_to_from_le_bytes();
    let b = pre + field_bytes(f) + tail;
    let p = pre.len() as int;
    match f {
        FieldValue::Key(x) => {
            assert(b.subrange(p, p + KEY_LEN) =~= x);
        },
        FieldValue::Num(v) => {
            assert(b.subrange(p, p + 8) =~= spec_u64_to_le_bytes(v));
        },
        FieldValue::Text(t) => {
            assert(b.subrange(p, p + 4) =~= spec_u32_to_le_bytes(t.len() as u32));
            assert(b.subrange(p + 4, p + 4 + t.len()) =~= t);
        },
        FieldValue::Bytes(x) => {
            assert(b.subrange(p, p + x.len()) =~= x);
        },
    }
}

/// Decoding the encoding of well-formed fields gives them back, whatever
/// bytes follow.
pub proof fn lemma_parse_fields_of_bytes(ks: Seq<FieldKind>, fs: Seq<FieldValue>, tail: Seq<u8>)
    requires
        fields_fit(ks, fs),
    ensures
        parse_fields(ks, fields_bytes(fs) + tail) == Some((fs, fields_bytes(fs).len() as int)),
    decreases ks.len(),
{
    if ks.len() > 0 {
        let ks0 = ks.drop_last();
        let fs0 = fs.drop_last();
        let f = fs.last();
        assert(field_fits(ks[ks.len() - 1], fs[fs.len() - 1]));
        assert(fields_fit(ks0, fs0)) by {
            assert forall|i: int| 0 <= i < ks0.len() implies #[trigger] field_fits(ks0[i], fs0[i]) by {
                assert(field_fits(ks[i], fs[i]));
            }
        }
        lemma_parse_fields_of_bytes(ks0, fs0, field_bytes(f) + tail);
        assert(fields_bytes(fs) + tail =~= fields_bytes(fs0) + (field_bytes(f) + tail));
        lemma_parse_field_of_bytes(ks.last(), f, fields_bytes(fs0), tail);
        assert(fields_bytes(fs0) + field_bytes(f) + tail =~= fields_bytes(fs) + tail);
        assert(fs0.push(f) =~= fs);
    }
}

/// What `parse_fields` returns fits the kinds and lies within the bytes.
pub proof fn lemma_parse_fields_fit(ks: Seq<FieldKind>, b: Seq<u8>)
    requires
        parse_fields(ks, b) is Some,
    ensures
        fields_fit(ks, parse_fields(ks, b)->Some_0.0),
        0 <= parse_fields(ks, b)->Some_0.1 <= b.len(),
    decreases ks.len(),
{
    if ks.len() > 0 {
        let ks0 = ks.drop_last();
        lemma_parse_fields_fit(ks0, b);
        let (fs0, p) = parse_fields(ks0, b)->Some_0;
        let (f, q) = parse_field(ks.last(), b, p)->Some_0;
        lemma_auto_spec_u64_to_from_le_bytes();
        let fs = fs0.push(f);
        assert forall|i: int| 0 <= i < ks.len() implies #[trigger] field_fits(ks[i], fs[i]) by {
            if i < ks0.len() {
                assert(field_fits(ks0[i], fs0[i]));
            }
        }
    }
}

/// A failure on the first fields is a failure on the whole record.
proof fn lemma_parse_prefix_none(ks: Seq<FieldKind>, n: int, b: Seq<u8>)
    requires
        0 <= n <= ks.len(),
        parse_fields(ks.subrange(0, n), b) is None,
    ensures
        parse_fields(ks, b) is None,
    decreases ks.len(),
{
    if ks.len() == n {
        assert(ks.subrange(0, n) =~= ks);
    } else {
        assert(ks.drop_last().subrange(0, n) =~= ks.subrange(0, n));
        lemma_parse_prefix_none(ks.drop_last(), n, b);
    }
}

/// Relies on core::str::from_utf8: it accepts exactly the well-formed UTF-8
/// byte sequences.
#[verifier::external_body]
fn is_utf8(b: &[u8]) -> (r: bool)
    ensures
        r == valid_utf8(b@),
{
    core::str::from_utf8(b).is_ok()
}

/// Reading position over a byte buffer, with the fields read so far against
/// the record's field kinds.
pub struct Cursor {
    pub pos: usize,
    pub kinds: Ghost<Seq<FieldKind>>,
    pub fields: Ghost<Seq<FieldValue>>,
}

impl Cursor {
    pub open spec fn inv(&self, b: Seq<u8>) -> bool {
        &&& self.fields@.len() <= self.kinds@.len()
        &&& parse_fields(self.kinds@.subrange(0, self.fields@.len() as int), b) == Some(
            (self.fields@, self.pos as int),
        )
    }

    /// The kind of the next field to read.
    pub open spec fn next_kind(&self) -> FieldKind {
        self.kinds@[self.fields@.len() as int]
    }

    pub open spec fn has_next(&self) -> bool {
        self.fields@.len() < self.kinds@.len()
    }

    pub fn new(kinds: Ghost<Seq<FieldKind>>, b: &[u8]) -> (c: Cursor)
        ensures
            c.inv(b@),
            c.kinds == kinds,
            c.fields@.len() == 0,
    {
        let c = Cursor { pos: 0, kinds, fields: Ghost(Seq::empty()) };
        assert(c.kinds@.subrange(0, 0) =~= Seq::<FieldKind>::empty());
        c
    }

    proof fn step(&self, b: Seq<u8>, f: FieldValue, q: int)
        requires
            self.inv(b),
            self.has_next(),
            parse_field(self.next_kind(), b, self.pos as int) == Some((f, q)),
        ensures
            parse_fields(self.kinds@.subrange(0, self.fields@.len() + 1 as int), b) == Some(
                (self.fields@.push(f), q),
            ),
    {
        let n = self.fields@.len() as int;
        let pre = self.kinds@.subrange(0, n + 1);
        assert(pre.drop_last() =~= self.kinds@.subrange(0, n));
    }

    proof fn fail(&self, b: Seq<u8>)
        requires
            self.inv(b),
            self.has_next(),
            parse_field(self.next_kind(), b, self.pos as int) is None,
        ensures
            parse_fields(self.kinds@, b) is None,
    {
        let n = self.fields@.len() as int;
        let pre = self.kinds@.subrange(0, n + 1);
        assert(pre.drop_last() =~= self.kinds@.subrange(0, n));
        lemma_parse_prefix_none(self.kinds@, n + 1, b);
    }

    proof fn in_bounds(&self, b: Seq<u8>)
        requires
            self.inv(b),
        ensures
            self.pos <= b.len(),
    {
        lemma_parse_fields_fit(self.kinds@.subrange(0, self.fields@.len() as int), b);
    }

    pub fn read_num(&mut self, b: &[u8]) -> (r: Option<u64>)
        requires
            old(self).inv(b@),
            old(self).has_next(),
            old(self).next_kind() == FieldKind::Num,
        ensures
            final(self).kinds == old(self).kinds,
            match r {
                Some(v) => final(self).inv(b@) && final(self).fields@ == old(self).fields@.push(
                    FieldValue::Num(v),
                ),
                None => parse_fields(old(self).kinds@, b@) is None,
            },
    {
        proof {
            self.in_bounds(b@);
        }
        if b.len() - self.pos < 8 {
            proof {
                self.fail(b@);
            }
            return None;
        }
        let v = u64_from_le_bytes(slice_subrange(b, self.pos, self.pos + 8));
        proof {
            self.step(b@, FieldValue::Num(v), self.pos + 8);
        }
        self.pos = self.pos + 8;
        self.fields = Ghost(self.fields@.push(FieldValue::Num(v)));
        Some(v)
    }

    pub fn read_key(&mut self, b: &[u8]) -> (r: Option<[u8; 32]>)
        requires
            old(self).inv(b@),
            old(self).has_next(),
            old(self).next_kind() == FieldKind::Key,
        ensures
            final(self).kinds == old(self).kinds,
            match r {
                Some(k) => final(self).inv(b@) && final(self).fields@ == old(self).fields@.push(
                    FieldValue::Key(k@),
                ),
                None => parse_fields(old(self).kinds@, b@) is None,
            },
    {
        proof {
            self.in_bounds(b@);
        }
        if b.len() - self.pos < KEY_LEN {
            proof {
                self.fail(b@);
            }
            return None;
        }
        let mut k = [0u8; 32];
        let mut i: usize = 0;
        while i < KEY_LEN
            invariant
                i <= KEY_LEN,
                self.pos + KEY_LEN <= b.len(),
                forall|j: int| 0 <= j < i ==> k@[j] == b@[self.pos + j],
            decreases KEY_LEN - i,
        {
            k[i] = b[self.pos + i];
            i = i + 1;
        }
        assert(k@ =~= b@.subrange(self.pos as int, self.pos + KEY_LEN));
        proof {
            self.step(b@, FieldValue::Key(k@), self.pos + KEY_LEN);
        }
        self.pos = self.pos + KEY_LEN;
        self.fields = Ghost(self.fields@.push(FieldValue::Key(k@)));
        Some(k)
    }

    pub fn read_text(&mut self, b: &[u8]) -> (r: Option<Vec<u8>>)
        requires
            old(self).inv(b@),
            old(self).has_next(),
            old(self).next_kind() == FieldKind::Text,
        ensures
            final(self).kinds == old(self).kinds,
            match r {
                Some(t) => final(self).inv(b@) && final(self).fields@ == old(self).fields@.push(
                    FieldValue::Text(t@),
                ),
                None => parse_fields(old(self).kinds@, b@) is None,
            },
    {
        proof {
            self.in_bounds(b@);
        }
        if b.len() - self.pos < 4 {
            proof {
                self.fail(b@);
            }
            return None;
        }
        let n = u32_from_le_bytes(slice_subrange(b, self.pos, self.pos + 4)) as usize;
        let start = self.pos + 4;
        if b.len() - start < n {
            proof {
                self.fail(b@);
            }
            return None;
        }
        let body = slice_subrange(b, start, start + n);
        if !is_utf8(body) {
            proof {
                self.fail(b@);
            }
            return None;
        }
        let t = slice_to_vec(body);
        proof {
            self.step(b@, FieldValue::Text(t@), start + n);
        }
        self.pos = start + n;
        self.fields = Ghost(self.fields@.push(FieldValue::Text(t@)));
        Some(t)
    }

    pub fn read_bytes128(&mut self, b: &[u8]) -> (r: Option<[u8; 128]>)
        requires
            old(self).inv(b@),
            old(self).has_next(),
            old(self).next_kind() == FieldKind::Bytes(128),
        ensures
            final(self).kinds == old(self).kinds,
            match r {
                Some(a) => final(self).inv(b@) && final(self).fields@ == old(self).fields@.push(
                    FieldValue::Bytes(a@),
                ),
                None => parse_fields(old(self).kinds@, b@) is None,
            },
    {
        proof {
            self.in_bounds(b@);
        }
        if b.len() - self.pos < 128 {
            proof {
                self.fail(b@);
            }
            return None;
        }
        let mut a = [0u8; 128];
        let mut i: usize = 0;
        while i < 128
            invariant
                i <= 128,
                self.pos + 128 <= b.len(),
                forall|j: int| 0 <= j < i ==> a@[j] == b@[self.pos + j],
            decreases 128 - i,
        {
            a[i] = b[self.pos + i];
            i = i + 1;
        }
        assert(a@ =~= b@.subrange(self.pos as int, self.pos + 128));
        proof {
            self.step(b@, FieldValue::Bytes(a@), self.pos + 128);
        }
        self.pos = self.pos + 128;
        self.fields = Ghost(self.fields@.push(FieldValue::Bytes(a@)));
        Some(a)
    }

    /// Once every kind has been read, the fields are what `parse_fields` gives.
    pub proof fn done(&self, b: Seq<u8>)
        requires
            self.inv(b),
            !self.has_next(),
        ensures
            parse_fields(self.kinds@, b) == Some((self.fields@, self.pos as int)),
    {
        assert(self.kinds@.subrange(0, self.kinds@.len() as int) =~= self.kinds@);
    }
}

/// Appends the encoding of a number.
pub fn put_num(out: &mut Vec<u8>, v: u64, fs: Ghost<Seq<FieldValue>>)
    requires
        old(out)@ == fields_bytes(fs@),
    ensures
        final(out)@ == fields_bytes(fs@.push(FieldValue::Num(v))),
{
    let mut bytes = u64_to_le_bytes(v);
    out.append(&mut bytes);
    assert(fs@.push(FieldValue::Num(v)).drop_last() =~= fs@);
}

/// Appends the encoding of a key.
pub fn put_key(out: &mut Vec<u8>, k: &[u8; 32], fs: Ghost<Seq<FieldValue>>)
    requires
        old(out)@ == fields_bytes(fs@),
    ensures
        final(out)@ == fields_bytes(fs@.push(FieldValue::Key(k@))),
{
    let mut i: usize = 0;
    while i < KEY_LEN
        invariant
            i <= KEY_LEN,
            out@ == fields_bytes(fs@) + k@.subrange(0, i as int),
        decreases KEY_LEN - i,
    {
        out.push(k[i]);
        assert(fields_bytes(fs@) + k@.subrange(0, i + 1) =~= (fields_bytes(fs@) + k@.subrange(
            0,
            i as int,
        )).push(k@[i as int]));
        i = i + 1;
    }
    assert(k@.subrange(0, 32) =~= k@);
    assert(fs@.push(FieldValue::Key(k@)).drop_last() =~= fs@);
}

/// Appends the encoding of a text; its length must fit the 4-byte prefix.
pub fn put_text(out: &mut Vec<u8>, t: &Vec<u8>, fs: Ghost<Seq<FieldValue>>)
    requires
        old(out)@ == fields_bytes(fs@),
        t@.len() <= u32::MAX,
    ensures
        final(out)@ == fields_bytes(fs@.push(FieldValue::Text(t@))),
{
    let mut len = u32_to_le_bytes(t.len() as u32);
    out.append(&mut len);
    let mut body = slice_to_vec(t.as_slice());
    out.append(&mut body);
    assert(fs@.push(FieldValue::Text(t@)).drop_last() =~= fs@);
    assert(fields_bytes(fs@) + spec_u32_to_le_bytes(t@.len() as u32) + t@ =~= fields_bytes(fs@)
        + (spec_u32_to_le_bytes(t@.len() as u32) + t@));
}

/// Appends a fixed array in place.
pub fn put_bytes128(out: &mut Vec<u8>, a: &[u8; 128], fs: Ghost<Seq<FieldValue>>)
    requires
        old(out)@ == fields_bytes(fs@),
    ensures
        final(out)@ == fields_bytes(fs@.push(FieldValue::Bytes(a@))),
{
    let mut i: usize = 0;
    while i < 128
        invariant
            i <= 128,
            out@ == fields_bytes(fs@) + a@.subrange(0, i as int),
        decreases 128 - i,
    {
        out.push(a[i]);
        assert(fields_bytes(fs@) + a@.subrange(0, i + 1) =~= (fields_bytes(fs@) + a@.subrange(
            0,
            i as int,
        )).push(a@[i as int]));
        i = i + 1;
    }
    assert(a@.subrange(0, 128) =~= a@);
    assert(fs@.push(FieldValue::Bytes(a@)).drop_last() =~= fs@);
}

/// `r` is what decoding a record of kinds `ks` from the start of `b` must give:
/// the fields and the number of bytes used, or `DecodeError`.
pub open spec fn decodes_as<T: View<V = Seq<FieldValue>>>(
    ks: Seq<FieldKind>,
    b: Seq<u8>,
    r: Result<(T, usize), EngineError>,
) -> bool {
    match parse_fields(ks, b) {
        Some((fs, n)) => r is Ok && r->Ok_0.0@ == fs && r->Ok_0.1 == n,
        None => r is Err && r->Err_0 == EngineError::DecodeError,
    }
}

/// `r` is what decoding a record of kinds `ks` from all of `b` must give.
pub open spec fn decodes_exactly_as<T: View<V = Seq<FieldValue>>>(
    ks: Seq<FieldKind>,
    b: Seq<u8>,
    r: Result<T, EngineError>,
) -> bool {
    match parse_exact(ks, b) {
        Some(fs) => r is Ok && r->Ok_0@ == fs,
        None => r is Err && r->Err_0 == EngineError::DecodeError,
    }
}

/// Round trip: the encoding of well-formed fields decodes, using every byte,
/// to those same fields.
pub proof fn law_round_trip(ks: Seq<FieldKind>, fs: Seq<FieldValue>)
    requires
        fields_fit(ks, fs),
    ensures
        parse_exact(ks, fields_bytes(fs)) == Some(fs),
{
    lemma_parse_fields_of_bytes(ks, fs, Seq::empty());
    assert(fields_bytes(fs) + Seq::<u8>::empty() =~= fields_bytes(fs));
}

/// Replacing a number by another number keeps the fields well-formed.
pub proof fn lemma_fits_update_num(ks: Seq<FieldKind>, fs: Seq<FieldValue>, i: int, v: u64)
    requires
        fields_fit(ks, fs),
        0 <= i < ks.len(),
        ks[i] == FieldKind::Num,
    ensures
        fields_fit(ks, fs.update(i, FieldValue::Num(v))),
{
    let gs = fs.update(i, FieldValue::Num(v));
    assert forall|j: int| 0 <= j < ks.len() implies #[trigger] field_fits(ks[j], gs[j]) by {
        assert(field_fits(ks[j], fs[j]));
    }
}

/// The number held by a field, or 0 for a field of another kind.
pub open spec fn num_of(f: FieldValue) -> u64 {
    match f {
        FieldValue::Num(v) => v,
        _ => 0,
    }
}

/// The key held by a field, or nothing for a field of another kind.
pub open spec fn key_of(f: FieldValue) -> Seq<u8> {
    match f {
        FieldValue::Key(k) => k,
        _ => Seq::empty(),
    }
}

proof fn lemma_parse_field_extends(k: FieldKind, p: Seq<u8>, b: Seq<u8>, pos: int)
    requires
        0 <= pos,
        p.len() <= b.len(),
        p == b.subrange(0, p.len() as int),
        parse_field(k, p, pos) is Some,
    ensures
        parse_field(k, b, pos) == parse_field(k, p, pos),
{
    match k {
        FieldKind::Key => {
            assert(p.subrange(pos, pos + KEY_LEN) =~= b.subrange(pos, pos + KEY_LEN));
        },
        FieldKind::Num => {
            assert(p.subrange(pos, pos + 8) =~= b.subrange(pos, pos + 8));
        },
        FieldKind::Text => {
            assert(p.subrange(pos, pos + 4) =~= b.subrange(pos, pos + 4));
            let end = pos + 4 + spec_u32_from_le_bytes(p.subrange(pos, pos + 4));
            assert(p.subrange(pos + 4, end) =~= b.subrange(pos + 4, end));
        },
        FieldKind::Bytes(w) => {
            assert(p.subrange(pos, pos + w) =~= b.subrange(pos, pos + w));
        },
    }
}

/// Decoding never looks past the bytes it uses: what decodes from a prefix
/// decodes the same from the whole.
pub proof fn lemma_parse_fields_extends(ks: Seq<FieldKind>, p: Seq<u8>, b: Seq<u8>)
    requires
        p.len() <= b.len(),
        p == b.subrange(0, p.len() as int),
        parse_fields(ks, p) is Some,
    ensures
        parse_fields(ks, b) == parse_fields(ks, p),
    decreases ks.len(),
{
    if ks.len() > 0 {
        let ks0 = ks.drop_last();
        lemma_parse_fields_extends(ks0, p, b);
        lemma_parse_fields_fit(ks0, p);
        let pos = parse_fields(ks0, p)->Some_0.1;
        lemma_parse_field_extends(ks.last(), p, b, pos);
    }
}

/// Cutting bytes off the end of a record's encoding leaves bytes that do
/// not decode exactly to any record of the same kinds.
pub proof fn lemma_truncated_fails(ks: Seq<FieldKind>, fs: Seq<FieldValue>, cut: int)
    requires
        fields_fit(ks, fs),
        0 <= cut < fields_bytes(fs).len(),
    ensures
        parse_exact(ks, fields_bytes(fs).subrange(0, cut)) is None,
{
    let b = fields_bytes(fs);
    let p = b.subrange(0, cut);
    lemma_parse_fields_of_bytes(ks, fs, Seq::empty());
    assert(b + Seq::<u8>::empty() =~= b);
    if parse_fields(ks, p) is Some {
        assert(p =~= b.subrange(0, p.len() as int));
        lemma_parse_fields_extends(ks, p, b);
    }
}

} // verus!
