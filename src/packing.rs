use vstd::prelude::*;

verus! {

/// Every record is padded to at least this many bytes.
pub const MIN_RECORD_ALIGN: u64 = 32;

/// Bytes of payload in a base record: a colour of four `f32` and an offset of two.
pub const BASE_RECORD_BYTES: u64 = 24;

/// Bytes of payload in a per-frame record: the horizontal and vertical scale.
pub const EXTRA_RECORD_BYTES: u64 = 8;

/// The drawable parameters of one instance. Each float is held as its IEEE-754
/// bit pattern (`f32::to_bits`), which is what the device reads.
#[derive(Clone, Copy, Debug, PartialEq, Eq)]
pub struct InstanceParams {
    pub color: [u32; 4],
    pub offset: [u32; 2],
    pub scale: u32,
}

/// The unit every record size is rounded up to: the larger of 32 bytes and the
/// device's alignment.
pub open spec fn align_unit(device_align: int) -> int {
    if device_align > MIN_RECORD_ALIGN as int { device_align } else { MIN_RECORD_ALIGN as int }
}

/// `payload` rounded up to a multiple of the alignment unit.
pub open spec fn stride_spec(payload: int, device_align: int) -> int {
    let u = align_unit(device_align);
    ((payload + u - 1) / u) * u
}

/// The size one record occupies in a block, padding included.
pub fn record_stride(payload: u64, device_align: u64) -> (r: u64)
    requires
        payload <= u32::MAX,
        device_align <= u32::MAX,
    ensures
        r == stride_spec(payload as int, device_align as int),
{
    let unit: u64 = if device_align > MIN_RECORD_ALIGN { device_align } else { MIN_RECORD_ALIGN };
    let count: u64 = (payload + unit - 1) / unit;
    proof {
        vstd::arithmetic::div_mod::lemma_fundamental_div_mod((payload + unit - 1) as int, unit as int);
    }
    count * unit
}

/// A non-empty payload takes at least one alignment unit and at most one unit
/// more than itself, and keeps word alignment where the device's alignment does.
pub proof fn lemma_stride_bounds(payload: int, device_align: int)
    requires
        0 < payload <= u32::MAX,
        0 <= device_align <= u32::MAX,
        device_align % 4 == 0,
    ensures
        stride_spec(payload, device_align) >= align_unit(device_align),
        stride_spec(payload, device_align) >= payload,
        stride_spec(payload, device_align) < payload + align_unit(device_align),
        stride_spec(payload, device_align) % 4 == 0,
{
    let u = align_unit(device_align);
    let x = payload + u - 1;
    let q = x / u;
    vstd::arithmetic::div_mod::lemma_fundamental_div_mod(x, u);
    assert(q >= 1) by {
        vstd::arithmetic::div_mod::lemma_div_is_ordered(u, x, u);
        vstd::arithmetic::div_mod::lemma_div_by_self(u);
    }
    assert(q * u >= u) by (nonlinear_arith)
        requires q >= 1, u > 0;
    assert(u % 4 == 0);
    let k = u / 4;
    assert(u == 4 * k);
    assert(q * u == 4 * (q * k)) by (nonlinear_arith)
        requires u == 4 * k;
    vstd::arithmetic::div_mod::lemma_mod_multiples_basic(q * k, 4);
    assert(q * u == u * q) by (nonlinear_arith);
}

/// A payload of at most 32 bytes takes exactly one alignment unit: the larger
/// of 32 bytes and the device's alignment.
pub proof fn lemma_small_record_stride(payload: int, device_align: int)
    requires
        0 < payload <= MIN_RECORD_ALIGN as int,
    ensures
        stride_spec(payload, device_align) == align_unit(device_align),
{
    let u = align_unit(device_align);
    vstd::arithmetic::div_mod::lemma_fundamental_div_mod_converse(payload + u - 1, u, 1, payload - 1);
}

/// The little-endian reading of the four bytes of `b` at word `i`.
pub open spec fn le_word(b: Seq<u8>, i: int) -> int {
    b[4 * i] + 0x100 * b[4 * i + 1] + 0x1_0000 * b[4 * i + 2] + 0x100_0000 * b[4 * i + 3]
}

/// The big-endian reading of the four bytes of `b` at word `i`.
pub open spec fn be_word(b: Seq<u8>, i: int) -> int {
    b[4 * i + 3] + 0x100 * b[4 * i + 2] + 0x1_0000 * b[4 * i + 1] + 0x100_0000 * b[4 * i]
}

/// `b` is the in-memory representation of `w`: four bytes per word, all in the
/// machine's byte order (little-endian or big-endian).
pub open spec fn holds_words(b: Seq<u8>, w: Seq<u32>) -> bool {
    &&& b.len() == 4 * w.len()
    &&& {
        ||| forall|i: int| 0 <= i < w.len() ==> #[trigger] w[i] == le_word(b, i)
        ||| forall|i: int| 0 <= i < w.len() ==> #[trigger] w[i] == be_word(b, i)
    }
}

/// Relies on bytemuck::cast_slice from `u32` to `u8`: it reinterprets the words'
/// memory, so each word becomes its four bytes in the machine's byte order.
#[verifier::external_body]
pub(crate) fn words_to_bytes(w: &[u32]) -> (r: Vec<u8>)
    ensures
        holds_words(r@, w@),
{
    bytemuck::cast_slice::<u32, u8>(w).to_vec()
}

/// Word `k` of the base record of `p`: colour, then offset, then zero padding.
pub open spec fn base_word(p: InstanceParams, k: int) -> u32 {
    if k < 4 {
        p.color@[k]
    } else if k < 6 {
        p.offset@[k - 4]
    } else {
        0
    }
}

/// Word `k` of the per-frame record of an instance of scale bits `scale` whose
/// horizontal scale is `scale_x`: horizontal, vertical, then zero padding.
pub open spec fn extra_word(scale_x: u32, scale: u32, k: int) -> u32 {
    if k == 0 {
        scale_x
    } else if k == 1 {
        scale
    } else {
        0
    }
}

/// The base block: the base records of `ps` in order, `wpr` words each.
pub open spec fn base_words(ps: Seq<InstanceParams>, wpr: int) -> Seq<u32> {
    Seq::new((ps.len() * wpr) as nat, |m: int| base_word(ps[m / wpr], m % wpr))
}

/// The per-frame block: record `i` holds `scale_x[i]` and the scale of `ps[i]`.
pub open spec fn extra_words(scale_x: Seq<u32>, ps: Seq<InstanceParams>, wpr: int) -> Seq<u32> {
    Seq::new((ps.len() * wpr) as nat, |m: int| extra_word(scale_x[m / wpr], ps[m / wpr].scale, m % wpr))
}

/// Record `i` of a per-frame block starts with the horizontal scale handed in
/// for instance `i` and then the instance's own scale, its vertical scale.
pub proof fn lemma_extra_record_fields(scale_x: Seq<u32>, ps: Seq<InstanceParams>, wpr: int, i: int)
    requires
        2 <= wpr,
        0 <= i < ps.len(),
    ensures
        extra_words(scale_x, ps, wpr)[i * wpr] == scale_x[i],
        extra_words(scale_x, ps, wpr)[i * wpr + 1] == ps[i].scale,
{
    lemma_record_index(i, 0, wpr);
    lemma_record_index(i, 1, wpr);
    assert(i * wpr + 1 < ps.len() * wpr) by (nonlinear_arith)
        requires i < ps.len(), 2 <= wpr;
}

proof fn lemma_record_index(i: int, k: int, w: int)
    requires
        0 <= i,
        0 <= k < w,
    ensures
        (i * w + k) / w == i,
        (i * w + k) % w == k,
{
    vstd::arithmetic::div_mod::lemma_fundamental_div_mod_converse(i * w + k, w, i, k);
}

/// Packs the base block of `instances`, `stride` bytes per record, in order.
pub fn pack_base_block(instances: &Vec<InstanceParams>, stride: u64) -> (r: Vec<u8>)
    requires
        stride % 4 == 0,
        BASE_RECORD_BYTES <= stride <= usize::MAX,
        instances@.len() * stride <= usize::MAX,
    ensures
        holds_words(r@, base_words(instances@, (stride / 4) as int)),
{
    let wpr: usize = (stride / 4) as usize;
    let n: usize = instances.len();
    let mut words: Vec<u32> = Vec::new();
    let mut i: usize = 0;
    assert(n * wpr <= n * stride) by (nonlinear_arith)
        requires wpr <= stride;
    while i < n
        invariant
            i <= n,
            n == instances@.len(),
            wpr == stride / 4,
            6 <= wpr,
            n * wpr <= usize::MAX,
            words@.len() == i * wpr,
            forall|m: int| 0 <= m < words@.len() ==> #[trigger] words@[m] == base_word(instances@[m / wpr as int], m % wpr as int),
        decreases n - i,
    {
        let p = instances[i];
        let mut k: usize = 0;
        assert((i + 1) * wpr <= n * wpr) by (nonlinear_arith)
            requires i + 1 <= n;
        while k < wpr
            invariant
                i < n,
                k <= wpr,
                p == instances@[i as int],
                wpr == stride / 4,
                6 <= wpr,
                (i + 1) * wpr <= usize::MAX,
                words@.len() == i * wpr + k,
                forall|m: int| 0 <= m < words@.len() ==> #[trigger] words@[m] == base_word(instances@[m / wpr as int], m % wpr as int),
            decreases wpr - k,
        {
            let w: u32 = if k < 4 {
                p.color[k]
            } else if k < 6 {
                p.offset[k - 4]
            } else {
                0
            };
            proof {
                lemma_record_index(i as int, k as int, wpr as int);
            }
            words.push(w);
            assert((i * wpr + k + 1) <= (i + 1) * wpr) by (nonlinear_arith)
                requires k < wpr;
            k = k + 1;
        }
        assert(words@.len() == (i + 1) * wpr) by (nonlinear_arith)
            requires words@.len() == i * wpr + wpr;
        i = i + 1;
    }
    assert(words@ =~= base_words(instances@, (stride / 4) as int));
    words_to_bytes(words.as_slice())
}

/// Packs the per-frame block: record `i` holds `scale_x[i]` (the instance's
/// scale over the aspect ratio, computed by the caller in floating point) and
/// the instance's own scale, `stride` bytes per record, in order.
pub fn pack_extra_block(instances: &Vec<InstanceParams>, scale_x: &Vec<u32>, stride: u64) -> (r: Vec<u8>)
    requires
        scale_x@.len() == instances@.len(),
        stride % 4 == 0,
        EXTRA_RECORD_BYTES <= stride <= usize::MAX,
        instances@.len() * stride <= usize::MAX,
    ensures
        holds_words(r@, extra_words(scale_x@, instances@, (stride / 4) as int)),
{
    let wpr: usize = (stride / 4) as usize;
    let n: usize = instances.len();
    let mut words: Vec<u32> = Vec::new();
    let mut i: usize = 0;
    assert(n * wpr <= n * stride) by (nonlinear_arith)
        requires wpr <= stride;
    while i < n
        invariant
            i <= n,
            n == instances@.len(),
            n == scale_x@.len(),
            wpr == stride / 4,
            2 <= wpr,
            n * wpr <= usize::MAX,
            words@.len() == i * wpr,
            forall|m: int| 0 <= m < words@.len() ==> #[trigger] words@[m] == extra_word(scale_x@[m / wpr as int], instances@[m / wpr as int].scale, m % wpr as int),
        decreases n - i,
    {
        let s = instances[i].scale;
        let sx = scale_x[i];
        let mut k: usize = 0;
        assert((i + 1) * wpr <= n * wpr) by (nonlinear_arith)
            requires i + 1 <= n;
        while k < wpr
            invariant
                i < n,
                k <= wpr,
                s == instances@[i as int].scale,
                sx == scale_x@[i as int],
                wpr == stride / 4,
                (i + 1) * wpr <= usize::MAX,
                words@.len() == i * wpr + k,
                forall|m: int| 0 <= m < words@.len() ==> #[trigger] words@[m] == extra_word(scale_x@[m / wpr as int], instances@[m / wpr as int].scale, m % wpr as int),
            decreases wpr - k,
        {
            let w: u32 = if k == 0 {
                sx
            } else if k == 1 {
                s
            } else {
                0
            };
            proof {
                lemma_record_index(i as int, k as int, wpr as int);
            }
            words.push(w);
            assert((i * wpr + k + 1) <= (i + 1) * wpr) by (nonlinear_arith)
                requires k < wpr;
            k = k + 1;
        }
        assert(words@.len() == (i + 1) * wpr) by (nonlinear_arith)
            requires words@.len() == i * wpr + wpr;
        i = i + 1;
    }
    assert(words@ =~= extra_words(scale_x@, instances@, (stride / 4) as int));
    words_to_bytes(words.as_slice())
}

} // verus!
