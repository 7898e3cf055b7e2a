use vstd::prelude::*;

verus! {

/// A rational sampler: fires `freq2` times for every `freq1` ticks, by alternating between
/// gaps of `freq1 / freq2` and `freq1 / freq2 + 1` ticks according to an error budget.
pub struct Sampler {
    pub freq2: u32,
    pub q0: u32,
    pub r0: u32,
    pub ddl_q: u32,
    pub ddl_r: u32,
    pub cnt: u32,
    pub sec_cnt: u32,
}

impl Sampler {
    pub open spec fn wf(&self) -> bool {
        &&& 0 < self.freq2 <= 0x7fff_ffff
        &&& 1 <= self.q0
        &&& self.r0 < self.freq2
        &&& self.ddl_q <= self.q0
        &&& self.ddl_r <= self.freq2
        &&& self.cnt <= self.ddl_q
        &&& self.sec_cnt < self.freq2
    }

    pub fn new(freq1: u32, freq2: u32) -> (r: Self)
        requires
            0 < freq2 <= 0x7fff_ffff,
            freq2 <= freq1,
        ensures
            r.wf(),
            r.freq2 == freq2,
            r.q0 == freq1 / freq2,
            r.r0 == freq1 % freq2,
            r.ddl_q == r.q0,
            r.ddl_r == r.r0,
            r.cnt == 0,
            r.sec_cnt == 0,
    {
        let q0 = freq1 / freq2;
        proof {
            assert(freq1 / freq2 >= 1) by (nonlinear_arith)
                requires freq2 <= freq1, 0 < freq2;
            assert(freq1 == (freq1 / freq2) * freq2 + freq1 % freq2) by (nonlinear_arith)
                requires 0 < freq2;
            assert(freq1 % freq2 < freq2) by (nonlinear_arith)
                requires 0 < freq2;
            assert((freq1 / freq2) * freq2 <= freq1) by (nonlinear_arith)
                requires 0 < freq2;
        }
        let r0 = freq1 - q0 * freq2;
        Sampler { freq2, q0, r0, ddl_q: q0, ddl_r: r0, cnt: 0, sec_cnt: 0 }
    }

    /// One input tick: the state after it, and whether an output sample falls on it.
    pub open spec fn ticked(self) -> (Sampler, bool) {
        if self.cnt == self.ddl_q {
            let nr = self.ddl_r + self.r0;
            let sc = (self.sec_cnt + 1) as u32;
            (Sampler {
                ddl_q: if nr > self.freq2 { self.q0 } else { (self.q0 - 1) as u32 },
                ddl_r: if nr > self.freq2 { (nr - self.freq2) as u32 } else { nr as u32 },
                cnt: 0,
                sec_cnt: if sc == self.freq2 { 0 } else { sc },
                ..self
            }, true)
        } else {
            (Sampler { cnt: (self.cnt + 1) as u32, ..self }, false)
        }
    }

    /// Advances one input tick; returns whether an output sample falls on it.
    pub fn tick(&mut self) -> (fired: bool)
        requires
            old(self).wf(),
        ensures
            (*final(self), fired) == old(self).ticked(),
            final(self).wf(),
            fired == (old(self).cnt == old(self).ddl_q),
            final(self).freq2 == old(self).freq2,
            final(self).q0 == old(self).q0,
            final(self).r0 == old(self).r0,
            !fired ==> *final(self) == (Sampler { cnt: (old(self).cnt + 1) as u32, ..*old(self) }),
            fired ==> final(self).cnt == 0,
            fired && old(self).ddl_r + old(self).r0 > old(self).freq2 ==> final(self).ddl_q
                == old(self).q0 && final(self).ddl_r == old(self).ddl_r + old(self).r0
                - old(self).freq2,
            fired && old(self).ddl_r + old(self).r0 <= old(self).freq2 ==> final(self).ddl_q
                == old(self).q0 - 1 && final(self).ddl_r == old(self).ddl_r + old(self).r0,
            fired ==> final(self).sec_cnt == (if old(self).sec_cnt + 1 == old(self).freq2 { 0 } else {
                old(self).sec_cnt + 1
            }),
    {
        if self.cnt == self.ddl_q {
            let nr = self.ddl_r + self.r0;
            if nr > self.freq2 {
                self.ddl_q = self.q0;
                self.ddl_r = nr - self.freq2;
            } else {
                self.ddl_q = self.q0 - 1;
                self.ddl_r = nr;
            }
            self.cnt = 0;
            self.sec_cnt = self.sec_cnt + 1;
            if self.sec_cnt == self.freq2 {
                self.sec_cnt = 0;
            }
            true
        } else {
            self.cnt = self.cnt + 1;
            false
        }
    }
}

/// Bounds of the bit fields the registers decode from a data byte.
pub proof fn lemma_byte_fields(data: u8)
    ensures
        data >> 6u8 < 4,
        data >> 3u8 < 32,
        data & 0xf < 16,
        data & 7 < 8,
        data & 0x7f <= 127,
        data & 1 <= 1,
        data & 1 == 0 || data & 1 == 1,
{
    assert(data >> 6u8 < 4 && data >> 3u8 < 32 && data & 0xf < 16 && data & 7 < 8 && data & 0x7f
        <= 127 && data & 1 <= 1 && (data & 1 == 0 || data & 1 == 1)) by (bit_vector);
}

/// Little-endian bytes of a value, as the save format writes it.
pub open spec fn enc_u16(x: u16) -> Seq<u8> {
    seq![x as u8, (x >> 8u16) as u8]
}

pub open spec fn enc_u32(x: u32) -> Seq<u8> {
    seq![x as u8, (x >> 8u32) as u8, (x >> 16u32) as u8, (x >> 24u32) as u8]
}

pub open spec fn enc_bool(x: bool) -> Seq<u8> {
    seq![if x { 1u8 } else { 0u8 }]
}

pub open spec fn dec_u16(b: Seq<u8>, i: int) -> u16 {
    (b[i] as u16) | ((b[i + 1] as u16) << 8u16)
}

pub open spec fn dec_u32(b: Seq<u8>, i: int) -> u32 {
    (b[i] as u32) | ((b[i + 1] as u32) << 8u32) | ((b[i + 2] as u32) << 16u32) | ((b[i + 3] as u32)
        << 24u32)
}

pub open spec fn dec_bool(b: Seq<u8>, i: int) -> bool {
    b[i] != 0
}

/// Decoding what was encoded gives the value back.
pub proof fn lemma_codec(x16: u16, x32: u32)
    ensures
        dec_u16(enc_u16(x16), 0) == x16,
        dec_u32(enc_u32(x32), 0) == x32,
{
    let b0 = x16 as u8;
    let b1 = (x16 >> 8u16) as u8;
    assert((b0 as u16) | ((b1 as u16) << 8u16) == x16) by (bit_vector)
        requires b0 == x16 as u8, b1 == (x16 >> 8u16) as u8;
    let c0 = x32 as u8;
    let c1 = (x32 >> 8u32) as u8;
    let c2 = (x32 >> 16u32) as u8;
    let c3 = (x32 >> 24u32) as u8;
    assert((c0 as u32) | ((c1 as u32) << 8u32) | ((c2 as u32) << 16u32) | ((c3 as u32) << 24u32)
        == x32) by (bit_vector)
        requires
            c0 == x32 as u8,
            c1 == (x32 >> 8u32) as u8,
            c2 == (x32 >> 16u32) as u8,
            c3 == (x32 >> 24u32) as u8,
    ;
}

pub fn put_u8(out: &mut Vec<u8>, x: u8)
    ensures
        final(out)@ == old(out)@ + seq![x],
{
    out.push(x);
}

pub fn put_bool(out: &mut Vec<u8>, x: bool)
    ensures
        final(out)@ == old(out)@ + enc_bool(x),
{
    out.push(if x { 1u8 } else { 0u8 });
}

pub fn put_u16(out: &mut Vec<u8>, x: u16)
    ensures
        final(out)@ == old(out)@ + enc_u16(x),
{
    out.push(x as u8);
    out.push((x >> 8u16) as u8);
}

pub fn put_u32(out: &mut Vec<u8>, x: u32)
    ensures
        final(out)@ == old(out)@ + enc_u32(x),
{
    out.push(x as u8);
    out.push((x >> 8u32) as u8);
    out.push((x >> 16u32) as u8);
    out.push((x >> 24u32) as u8);
}

pub fn put_bytes(out: &mut Vec<u8>, v: &Vec<u8>)
    ensures
        final(out)@ == old(out)@ + v@,
{
    let mut i: usize = 0;
    while i < v.len()
        invariant
            0 <= i <= v@.len(),
            out@ == old(out)@ + v@.subrange(0, i as int),
        decreases v@.len() - i,
    {
        out.push(v[i]);
        i = i + 1;
        assert(v@.subrange(0, i as int) == v@.subrange(0, (i - 1) as int).push(v@[i - 1]));
    }
    assert(v@.subrange(0, v@.len() as int) == v@);
}

pub fn get_u8(buf: &Vec<u8>, pos: usize) -> (r: u8)
    requires
        pos < buf@.len(),
    ensures
        r == buf@[pos as int],
{
    buf[pos]
}

pub fn get_bool(buf: &Vec<u8>, pos: usize) -> (r: bool)
    requires
        pos < buf@.len(),
    ensures
        r == dec_bool(buf@, pos as int),
{
    buf[pos] != 0
}

pub fn get_u16(buf: &Vec<u8>, pos: usize) -> (r: u16)
    requires
        pos + 2 <= buf@.len(),
    ensures
        r == dec_u16(buf@, pos as int),
{
    let _n = buf.len();
    (buf[pos] as u16) | ((buf[pos + 1] as u16) << 8u16)
}

pub fn get_u32(buf: &Vec<u8>, pos: usize) -> (r: u32)
    requires
        pos + 4 <= buf@.len(),
    ensures
        r == dec_u32(buf@, pos as int),
{
    let _n = buf.len();
    (buf[pos] as u32) | ((buf[pos + 1] as u32) << 8u32) | ((buf[pos + 2] as u32) << 16u32) | ((buf[pos
        + 3] as u32) << 24u32)
}

/// Copies `n` bytes from `buf` at `pos` into a new vector.
pub fn get_bytes(buf: &Vec<u8>, pos: usize, n: usize) -> (r: Vec<u8>)
    requires
        pos + n <= buf@.len(),
    ensures
        r@ == buf@.subrange(pos as int, (pos + n) as int),
{
    let _len = buf.len();
    let mut r: Vec<u8> = Vec::new();
    let mut i: usize = 0;
    while i < n
        invariant
            0 <= i <= n,
            pos + n <= buf@.len(),
            _len == buf@.len(),
            r@ == buf@.subrange(pos as int, (pos + i) as int),
        decreases n - i,
    {
        r.push(buf[pos + i]);
        i = i + 1;
    }
    r
}


pub open spec fn enc_u64(x: u64) -> Seq<u8> {
    enc_u32(x as u32) + enc_u32((x >> 32u64) as u32)
}

pub open spec fn dec_u64(b: Seq<u8>, i: int) -> u64 {
    (dec_u32(b, i) as u64) | ((dec_u32(b, i + 4) as u64) << 32u64)
}

/// A sequence of 16-bit words, two little-endian bytes each.
pub open spec fn enc_words(v: Seq<u16>) -> Seq<u8> {
    Seq::new(2 * v.len(), |i: int| if i % 2 == 0 { v[i / 2] as u8 } else { (v[i / 2] >> 8u16) as u8 })
}

pub open spec fn dec_words(b: Seq<u8>) -> Seq<u16> {
    Seq::new(b.len() / 2, |i: int| dec_u16(b, 2 * i))
}

pub proof fn lemma_dec_u8(b: Seq<u8>, i: int, x: u8)
    requires
        0 <= i && i + 1 <= b.len(),
        b.subrange(i, i + 1) == seq![x],
    ensures
        b[i] == x,
{
    assert(b.subrange(i, i + 1)[0] == b[i]);
}

pub proof fn lemma_dec_bool(b: Seq<u8>, i: int, x: bool)
    requires
        0 <= i && i + 1 <= b.len(),
        b.subrange(i, i + 1) == enc_bool(x),
    ensures
        dec_bool(b, i) == x,
{
    assert(b.subrange(i, i + 1)[0] == b[i]);
}

pub proof fn lemma_dec_u16(b: Seq<u8>, i: int, x: u16)
    requires
        0 <= i && i + 2 <= b.len(),
        b.subrange(i, i + 2) == enc_u16(x),
    ensures
        dec_u16(b, i) == x,
{
    lemma_codec(x, 0);
    assert(b.subrange(i, i + 2)[0] == b[i] && b.subrange(i, i + 2)[1] == b[i + 1]);
}

pub proof fn lemma_dec_u32(b: Seq<u8>, i: int, x: u32)
    requires
        0 <= i && i + 4 <= b.len(),
        b.subrange(i, i + 4) == enc_u32(x),
    ensures
        dec_u32(b, i) == x,
{
    lemma_codec(0, x);
    let s = b.subrange(i, i + 4);
    assert(s[0] == b[i] && s[1] == b[i + 1] && s[2] == b[i + 2] && s[3] == b[i + 3]);
}

pub proof fn lemma_dec_i16(b: Seq<u8>, i: int, x: i16)
    requires
        0 <= i && i + 2 <= b.len(),
        b.subrange(i, i + 2) == enc_u16(x as u16),
    ensures
        dec_u16(b, i) as i16 == x,
{
    lemma_dec_u16(b, i, x as u16);
    assert((x as u16) as i16 == x) by (bit_vector);
}

pub proof fn lemma_dec_i32(b: Seq<u8>, i: int, x: i32)
    requires
        0 <= i && i + 4 <= b.len(),
        b.subrange(i, i + 4) == enc_u32(x as u32),
    ensures
        dec_u32(b, i) as i32 == x,
{
    lemma_dec_u32(b, i, x as u32);
    assert((x as u32) as i32 == x) by (bit_vector);
}

pub proof fn lemma_dec_u64(b: Seq<u8>, i: int, x: u64)
    requires
        0 <= i && i + 8 <= b.len(),
        b.subrange(i, i + 8) == enc_u64(x),
    ensures
        dec_u64(b, i) == x,
{
    let s8 = b.subrange(i, i + 8);
    let e = enc_u64(x);
    assert(e.subrange(0, 4) =~= enc_u32(x as u32));
    assert(e.subrange(4, 8) =~= enc_u32((x >> 32u64) as u32));
    assert(b.subrange(i, i + 4) =~= s8.subrange(0, 4));
    assert(b.subrange(i + 4, i + 8) =~= s8.subrange(4, 8));
    lemma_dec_u32(b, i, x as u32);
    lemma_dec_u32(b, i + 4, (x >> 32u64) as u32);
    let lo = x as u32;
    let hi = (x >> 32u64) as u32;
    assert((lo as u64) | ((hi as u64) << 32u64) == x) by (bit_vector)
        requires lo == x as u32, hi == (x >> 32u64) as u32;
}

pub proof fn lemma_words_own(v: Seq<u16>)
    ensures
        dec_words(enc_words(v)) =~= v,
{
    assert forall|k: int| 0 <= k < v.len() implies #[trigger] dec_words(enc_words(v))[k] == v[k] by {
        let e = enc_words(v);
        assert(e.subrange(2 * k, 2 * k + 2) =~= enc_u16(v[k]));
        lemma_dec_u16(e, 2 * k, v[k]);
    }
}

pub fn put_u64(out: &mut Vec<u8>, x: u64)
    ensures
        final(out)@ == old(out)@ + enc_u64(x),
{
    put_u32(out, x as u32);
    put_u32(out, (x >> 32u64) as u32);
    assert(final(out)@ =~= old(out)@ + enc_u64(x));
}

pub fn get_u64(buf: &Vec<u8>, pos: usize) -> (r: u64)
    requires
        pos + 8 <= buf@.len(),
    ensures
        r == dec_u64(buf@, pos as int),
{
    let _n = buf.len();
    (get_u32(buf, pos) as u64) | ((get_u32(buf, pos + 4) as u64) << 32u64)
}

pub fn put_words(out: &mut Vec<u8>, v: &Vec<u16>)
    ensures
        final(out)@ == old(out)@ + enc_words(v@),
{
    let mut i: usize = 0;
    while i < v.len()
        invariant
            0 <= i <= v@.len(),
            out@ == old(out)@ + enc_words(v@.subrange(0, i as int)),
        decreases v@.len() - i,
    {
        put_u16(out, v[i]);
        i = i + 1;
        assert(enc_words(v@.subrange(0, i as int)) =~= enc_words(v@.subrange(0, (i - 1) as int))
            + enc_u16(v@[i - 1]));
    }
    assert(v@.subrange(0, v@.len() as int) == v@);
}

pub fn get_words(buf: &Vec<u8>, pos: usize, n: usize) -> (r: Vec<u16>)
    requires
        pos + 2 * n <= buf@.len(),
    ensures
        r@ == dec_words(buf@.subrange(pos as int, pos + 2 * n)),
{
    let _len = buf.len();
    let mut r: Vec<u16> = Vec::new();
    let mut i: usize = 0;
    let ghost b = buf@.subrange(pos as int, pos + 2 * n);
    while i < n
        invariant
            0 <= i <= n,
            pos + 2 * n <= buf@.len(),
            _len == buf@.len(),
            b == buf@.subrange(pos as int, pos + 2 * n),
            r@.len() == i,
            forall|k: int| 0 <= k < i ==> r@[k] == dec_u16(b, 2 * k),
        decreases n - i,
    {
        let w = get_u16(buf, pos + 2 * i);
        assert(b[2 * i as int] == buf@[pos + 2 * i] && b[2 * i + 1] == buf@[pos + 2 * i + 1]);
        r.push(w);
        i = i + 1;
    }
    assert(r@ =~= dec_words(b));
    r
}

pub const SAMPLER_STATE_LEN: usize = 28;

impl Sampler {
    pub open spec fn encode_0(&self) -> Seq<u8> {
        enc_u32(self.freq2)
            + enc_u32(self.q0)
            + enc_u32(self.r0)
            + enc_u32(self.ddl_q)
    }

    pub open spec fn decodes_0(&self, b: Seq<u8>) -> bool {
        &&& b.len() == 16
        &&& self.freq2 == dec_u32(b, 0)
        &&& self.q0 == dec_u32(b, 4)
        &&& self.r0 == dec_u32(b, 8)
        &&& self.ddl_q == dec_u32(b, 12)
    }

    pub open spec fn encode_1(&self) -> Seq<u8> {
        enc_u32(self.ddl_r)
            + enc_u32(self.cnt)
            + enc_u32(self.sec_cnt)
    }

    pub open spec fn decodes_1(&self, b: Seq<u8>) -> bool {
        &&& b.len() == 12
        &&& self.ddl_r == dec_u32(b, 0)
        &&& self.cnt == dec_u32(b, 4)
        &&& self.sec_cnt == dec_u32(b, 8)
    }

    /// The saved form of this state, field by field.
    #[verifier::opaque]
    pub open spec fn encode(&self) -> Seq<u8> {
        self.encode_0() + self.encode_1()
    }

    /// Whether this state is the one the saved bytes `b` describe.
    #[verifier::opaque]
    pub open spec fn decodes(&self, b: Seq<u8>) -> bool {
        &&& b.len() == 28
        &&& self.decodes_0(b.subrange(0, 16))
        &&& self.decodes_1(b.subrange(16, 28))
    }

    /// Equal in every saved field.
    #[verifier::opaque]
    pub open spec fn same_as(&self, o: Self) -> bool {
        &&& self.freq2 == o.freq2
        &&& self.q0 == o.q0
        &&& self.r0 == o.r0
        &&& self.ddl_q == o.ddl_q
        &&& self.ddl_r == o.ddl_r
        &&& self.cnt == o.cnt
        &&& self.sec_cnt == o.sec_cnt
    }

    fn save_0(&self, out: &mut Vec<u8>)
        requires
            self.wf(),
        ensures
            final(out)@ == old(out)@ + self.encode_0(),
    {
        put_u32(out, self.freq2);
        put_u32(out, self.q0);
        put_u32(out, self.r0);
        put_u32(out, self.ddl_q);
        assert(final(out)@ =~= old(out)@ + self.encode_0());
    }

    fn save_1(&self, out: &mut Vec<u8>)
        requires
            self.wf(),
        ensures
            final(out)@ == old(out)@ + self.encode_1(),
    {
        put_u32(out, self.ddl_r);
        put_u32(out, self.cnt);
        put_u32(out, self.sec_cnt);
        assert(final(out)@ =~= old(out)@ + self.encode_1());
    }

    pub fn save(&self, out: &mut Vec<u8>)
        requires
            self.wf(),
        ensures
            final(out)@ == old(out)@ + self.encode(),
            self.encode().len() == SAMPLER_STATE_LEN,
    {
        proof {
            reveal(Sampler::encode);
        }
        let ghost start = out@;
        self.save_0(out);
        proof {
            lemma_sampler_own_0(*self);
        }
        self.save_1(out);
        proof {
            lemma_sampler_own_1(*self);
        }
        assert(out@ =~= start + self.encode());
    }

    /// The state saved at `pos`, or `None` when the bytes run short or describe no
    /// consistent state.
    pub fn decode(buf: &Vec<u8>, pos: usize) -> (r: Option<Self>)
        ensures
            r matches Some(t) ==> t.wf() && pos + SAMPLER_STATE_LEN <= buf@.len() && t.decodes(
                buf@.subrange(pos as int, pos + SAMPLER_STATE_LEN)),
            (pos + SAMPLER_STATE_LEN <= buf@.len() && exists|t: Self| t.wf() && #[trigger] t.decodes(
                buf@.subrange(pos as int, pos + SAMPLER_STATE_LEN))) ==> r is Some,
    {
        if buf.len() < SAMPLER_STATE_LEN || pos > buf.len() - SAMPLER_STATE_LEN {
            return None;
        }
        let ghost b = buf@.subrange(pos as int, pos + SAMPLER_STATE_LEN);
        proof {
            reveal(Sampler::decodes);
        }
        let ghost b0 = b.subrange(0, 16);
        assert(b0 =~= buf@.subrange(pos + 0, pos + 16));
        let freq2 = get_u32(buf, pos + 0);
        let q0 = get_u32(buf, pos + 4);
        let r0 = get_u32(buf, pos + 8);
        let ddl_q = get_u32(buf, pos + 12);
        let ghost b1 = b.subrange(16, 28);
        assert(b1 =~= buf@.subrange(pos + 16, pos + 28));
        let ddl_r = get_u32(buf, pos + 16);
        let cnt = get_u32(buf, pos + 20);
        let sec_cnt = get_u32(buf, pos + 24);
        let t = Sampler { freq2, q0, r0, ddl_q, ddl_r, cnt, sec_cnt };
        assert(t.decodes_0(b0));
        assert(t.decodes_1(b1));
        assert(t.decodes(b));
        if !t.check_wf() {
            proof {
                assert forall|u: Self| #[trigger] u.decodes(b) implies !u.wf() by {
                    lemma_sampler_unique(t, u, b);
                }
            }
            return None;
        }
        Some(t)
    }

    /// Restores the state saved at `pos`; on failure nothing changes.
    pub fn load(&mut self, buf: &Vec<u8>, pos: usize) -> (ok: bool)
        requires
            old(self).wf(),
        ensures
            final(self).wf(),
            ok ==> pos + SAMPLER_STATE_LEN <= buf@.len() && final(self).decodes(
                buf@.subrange(pos as int, pos + SAMPLER_STATE_LEN)),
            !ok ==> *final(self) == *old(self),
            (pos + SAMPLER_STATE_LEN <= buf@.len() && exists|t: Self| t.wf() && #[trigger] t.decodes(
                buf@.subrange(pos as int, pos + SAMPLER_STATE_LEN))) ==> ok,
    {
        match Self::decode(buf, pos) {
            Some(t) => {
                *self = t;
                true
            },
            None => false,
        }
    }
}

/// Round trip: what `save` writes decodes to the state saved, and any state decoding those
/// bytes equals it in every saved field.
pub proof fn lemma_sampler_round_trip(s: Sampler, t: Sampler)
    requires
        s.wf(),
        t.decodes(s.encode()),
    ensures
        s.decodes(s.encode()),
        t.same_as(s),
{
    lemma_sampler_decodes_own(s);
    lemma_sampler_unique(s, t, s.encode());
}

/// Two states decoding the same bytes agree in every saved field, and one is consistent
/// exactly when the other is.
pub proof fn lemma_sampler_unique(s: Sampler, t: Sampler, b: Seq<u8>)
    requires
        s.decodes(b),
        t.decodes(b),
    ensures
        t.same_as(s),
        t.wf() == s.wf(),
{
    reveal(Sampler::decodes);
    reveal(Sampler::same_as);
    lemma_sampler_unique_0(s, t, b.subrange(0, 16));
    lemma_sampler_unique_1(s, t, b.subrange(16, 28));
}

proof fn lemma_sampler_unique_0(s: Sampler, t: Sampler, b: Seq<u8>)
    requires
        s.decodes_0(b),
        t.decodes_0(b),
    ensures
        t.freq2 == s.freq2,
        t.q0 == s.q0,
        t.r0 == s.r0,
        t.ddl_q == s.ddl_q,
{
}

proof fn lemma_sampler_unique_1(s: Sampler, t: Sampler, b: Seq<u8>)
    requires
        s.decodes_1(b),
        t.decodes_1(b),
    ensures
        t.ddl_r == s.ddl_r,
        t.cnt == s.cnt,
        t.sec_cnt == s.sec_cnt,
{
}

pub proof fn lemma_sampler_decodes_own(s: Sampler)
    requires
        s.wf(),
    ensures
        s.decodes(s.encode()),
        s.encode().len() == 28,
{
    reveal(Sampler::decodes);
    reveal(Sampler::encode);
    lemma_sampler_own_0(s);
    lemma_sampler_own_1(s);
    let e = s.encode();
    assert(e.subrange(0, 16) =~= s.encode_0());
    assert(e.subrange(16, 28) =~= s.encode_1());
}

proof fn lemma_sampler_own_0(s: Sampler)
    requires
        s.wf(),
    ensures
        s.encode_0().len() == 16,
        s.decodes_0(s.encode_0()),
{
    let e = s.encode_0();
    assert(e.subrange(0, 4) =~= enc_u32(s.freq2));
    lemma_dec_u32(e, 0, s.freq2);
    assert(e.subrange(4, 8) =~= enc_u32(s.q0));
    lemma_dec_u32(e, 4, s.q0);
    assert(e.subrange(8, 12) =~= enc_u32(s.r0));
    lemma_dec_u32(e, 8, s.r0);
    assert(e.subrange(12, 16) =~= enc_u32(s.ddl_q));
    lemma_dec_u32(e, 12, s.ddl_q);
}

proof fn lemma_sampler_own_1(s: Sampler)
    requires
        s.wf(),
    ensures
        s.encode_1().len() == 12,
        s.decodes_1(s.encode_1()),
{
    let e = s.encode_1();
    assert(e.subrange(0, 4) =~= enc_u32(s.ddl_r));
    lemma_dec_u32(e, 0, s.ddl_r);
    assert(e.subrange(4, 8) =~= enc_u32(s.cnt));
    lemma_dec_u32(e, 4, s.cnt);
    assert(e.subrange(8, 12) =~= enc_u32(s.sec_cnt));
    lemma_dec_u32(e, 8, s.sec_cnt);
}

impl Sampler {
    pub fn check_wf(&self) -> (r: bool)
        ensures
            r == self.wf(),
    {
        0 < self.freq2 && self.freq2 <= 0x7fff_ffff && 1 <= self.q0 && self.r0 < self.freq2
            && self.ddl_q <= self.q0 && self.ddl_r <= self.freq2 && self.cnt <= self.ddl_q
            && self.sec_cnt < self.freq2
    }
}

} // verus!
