//! Typed, strided views over raw little-endian buffers.
//!
//! Every component is handed out as its raw little-endian value: an IEEE-754
//! single travels as its bit pattern, an integer as its unsigned encoding.
use vstd::prelude::*;

use crate::error::ConvertError;

verus! {

/// Width and kind of one component of an accessor element.
#[derive(Debug, Clone, Copy, PartialEq, Eq, Structural)]
pub enum ComponentType {
    I8,
    U8,
    I16,
    U16,
    U32,
    F32,
}

/// Number of components in one accessor element.
#[derive(Debug, Clone, Copy, PartialEq, Eq, Structural)]
pub enum Dimensions {
    Scalar,
    Vec2,
    Vec3,
    Vec4,
    Mat2,
    Mat3,
    Mat4,
}

/// Width of the indices of a sparse accessor.
#[derive(Debug, Clone, Copy, PartialEq, Eq, Structural)]
pub enum IndexType {
    U8,
    U16,
    U32,
}

/// A region of one buffer: where it starts and how far apart its elements are.
#[derive(Debug, Clone, Copy, PartialEq, Eq, Structural)]
pub struct BufferView {
    pub buffer: usize,
    pub byte_offset: usize,
    pub byte_stride: Option<usize>,
}

/// Replacement of selected elements of an accessor.
#[derive(Debug, Clone, Copy, PartialEq, Eq, Structural)]
pub struct Sparse {
    pub count: usize,
    pub index_type: IndexType,
    pub indices: BufferView,
    pub values: BufferView,
}

/// Description of a typed element sequence stored in a buffer.
///
/// Without a view the dense elements are all zero; a sparse part then
/// overrides some of them.
#[derive(Debug, Clone, Copy, PartialEq, Eq, Structural)]
pub struct Accessor {
    pub view: Option<BufferView>,
    pub count: usize,
    pub component_type: ComponentType,
    pub dimensions: Dimensions,
    pub sparse: Option<Sparse>,
}

/// The raw bytes of all buffers of an asset, by buffer index.
pub struct Buffers {
    pub data: Vec<Vec<u8>>,
}

impl View for Buffers {
    type V = Seq<Seq<u8>>;

    open spec fn view(&self) -> Seq<Seq<u8>> {
        self.data@.map_values(|b: Vec<u8>| b@)
    }
}

impl Buffers {
    pub fn new() -> (r: Buffers)
        ensures
            r@ == Seq::<Seq<u8>>::empty(),
    {
        let r = Buffers { data: Vec::new() };
        assert(r@ =~= Seq::<Seq<u8>>::empty());
        r
    }

    /// Adds the next buffer, whose contents must have the declared length.
    pub fn push_checked(&mut self, declared_length: usize, contents: Vec<u8>) -> (r: Result<
        (),
        ConvertError,
    >)
        ensures
            match r {
                Ok(()) => contents@.len() == declared_length && final(self)@ == old(self)@.push(
                    contents@,
                ),
                Err(e) => e == ConvertError::InvalidBufferLength && contents@.len()
                    != declared_length && final(self)@ == old(self)@,
            },
    {
        if contents.len() != declared_length {
            return Err(ConvertError::InvalidBufferLength);
        }
        let ghost before = self@;
        let ghost added = contents@;
        self.data.push(contents);
        assert(self@ =~= before.push(added));
        Ok(())
    }
}

pub open spec fn component_size(ct: ComponentType) -> nat {
    match ct {
        ComponentType::I8 | ComponentType::U8 => 1,
        ComponentType::I16 | ComponentType::U16 => 2,
        ComponentType::U32 | ComponentType::F32 => 4,
    }
}

pub open spec fn arity(d: Dimensions) -> nat {
    match d {
        Dimensions::Scalar => 1,
        Dimensions::Vec2 => 2,
        Dimensions::Vec3 => 3,
        Dimensions::Vec4 => 4,
        Dimensions::Mat2 => 4,
        Dimensions::Mat3 => 9,
        Dimensions::Mat4 => 16,
    }
}

pub open spec fn element_size(ct: ComponentType, d: Dimensions) -> nat {
    component_size(ct) * arity(d)
}

/// The component type in which indices of the given width are stored.
pub open spec fn index_component(it: IndexType) -> ComponentType {
    match it {
        IndexType::U8 => ComponentType::U8,
        IndexType::U16 => ComponentType::U16,
        IndexType::U32 => ComponentType::U32,
    }
}

/// Distance between elements: the declared stride, else the element size.
pub open spec fn stride_of(v: BufferView, elem: nat) -> nat {
    match v.byte_stride {
        Some(s) => s as nat,
        None => elem,
    }
}

/// The unsigned little-endian integer held by `n` bytes of `s` from `start`.
pub open spec fn le_uint(s: Seq<u8>, start: int, n: nat) -> nat
    decreases n,
{
    if n == 0 {
        0
    } else {
        s[start] as nat + 256 * le_uint(s, start + 1, (n - 1) as nat)
    }
}

/// The components of the element whose bytes start at `start`.
pub open spec fn raw_element(s: Seq<u8>, start: int, ct: ComponentType, d: Dimensions) -> Seq<u32> {
    Seq::new(
        arity(d),
        |k: int| le_uint(s, start + k * component_size(ct), component_size(ct)) as u32,
    )
}

/// The `count` elements of a view, read from the bytes `s` of its buffer.
pub open spec fn dense_elements(
    s: Seq<u8>,
    v: BufferView,
    ct: ComponentType,
    d: Dimensions,
    count: nat,
) -> Seq<Seq<u32>> {
    Seq::new(
        count,
        |i: int| raw_element(s, v.byte_offset + i * stride_of(v, element_size(ct, d)), ct, d),
    )
}

/// Why `count` elements of `elem` bytes cannot be read through a view, if they cannot.
pub open spec fn region_error(bufs: Seq<Seq<u8>>, v: BufferView, elem: nat, count: nat) -> Option<
    ConvertError,
> {
    if v.buffer >= bufs.len() {
        Some(ConvertError::MissingBuffer)
    } else if stride_of(v, elem) < elem {
        Some(ConvertError::Other)
    } else if count > 0 && v.byte_offset + (count - 1) * stride_of(v, elem) + elem
        > bufs[v.buffer as int].len() {
        Some(ConvertError::MissingBuffer)
    } else {
        None
    }
}

/// What reading `count` elements through a view gives.
pub open spec fn dense_outcome(
    bufs: Seq<Seq<u8>>,
    v: BufferView,
    ct: ComponentType,
    d: Dimensions,
    count: nat,
) -> Result<Seq<Seq<u32>>, ConvertError> {
    match region_error(bufs, v, element_size(ct, d), count) {
        Some(e) => Err(e),
        None => Ok(dense_elements(bufs[v.buffer as int], v, ct, d, count)),
    }
}

fn component_size_of(ct: ComponentType) -> (r: usize)
    ensures
        r == component_size(ct),
{
    match ct {
        ComponentType::I8 | ComponentType::U8 => 1,
        ComponentType::I16 | ComponentType::U16 => 2,
        ComponentType::U32 | ComponentType::F32 => 4,
    }
}

fn arity_of(d: Dimensions) -> (r: usize)
    ensures
        r == arity(d),
{
    match d {
        Dimensions::Scalar => 1,
        Dimensions::Vec2 => 2,
        Dimensions::Vec3 => 3,
        Dimensions::Vec4 => 4,
        Dimensions::Mat2 => 4,
        Dimensions::Mat3 => 9,
        Dimensions::Mat4 => 16,
    }
}

/// Reads the little-endian integer of `n` bytes at `start`.
fn read_le(s: &Vec<u8>, start: usize, n: usize) -> (r: u32)
    requires
        n == 1 || n == 2 || n == 4,
        start + n <= s@.len(),
    ensures
        r as nat == le_uint(s@, start as int, n as nat),
{
    reveal_with_fuel(le_uint, 5);
    let len = s.len();
    assert(start + n <= len);
    let b0 = s[start] as u32;
    if n == 1 {
        b0
    } else if n == 2 {
        let b1 = s[start + 1] as u32;
        b0 + 256 * b1
    } else {
        let b1 = s[start + 1] as u32;
        let b2 = s[start + 2] as u32;
        let b3 = s[start + 3] as u32;
        b0 + 256 * (b1 + 256 * (b2 + 256 * b3))
    }
}

/// `count` elements of the given shape whose components are all zero.
pub open spec fn zero_elements(count: nat, d: Dimensions) -> Seq<Seq<u32>> {
    Seq::new(count, |i: int| Seq::new(arity(d), |k: int| 0u32))
}

/// `base` after element `idx[j][0]` was replaced by `vals[j]`, for each `j` in turn.
pub open spec fn overridden(base: Seq<Seq<u32>>, idx: Seq<Seq<u32>>, vals: Seq<Seq<u32>>) -> Seq<
    Seq<u32>,
>
    decreases idx.len(),
{
    if idx.len() == 0 {
        base
    } else {
        let n = idx.len() - 1;
        overridden(base, idx.take(n), vals.take(n)).update(idx[n][0] as int, vals[n])
    }
}

/// What decoding an accessor against the given buffers gives: its dense
/// elements (zero without a view), then the sparse replacements in order.
pub open spec fn decode_outcome(acc: Accessor, bufs: Seq<Seq<u8>>) -> Result<
    Seq<Seq<u32>>,
    ConvertError,
> {
    let base = match acc.view {
        Some(v) => dense_outcome(bufs, v, acc.component_type, acc.dimensions, acc.count as nat),
        None => Ok(zero_elements(acc.count as nat, acc.dimensions)),
    };
    match base {
        Err(e) => Err(e),
        Ok(b) => match acc.sparse {
            None => Ok(b),
            Some(sp) => match dense_outcome(
                bufs,
                sp.indices,
                index_component(sp.index_type),
                Dimensions::Scalar,
                sp.count as nat,
            ) {
                Err(e) => Err(e),
                Ok(idx) => match dense_outcome(
                    bufs,
                    sp.values,
                    acc.component_type,
                    acc.dimensions,
                    sp.count as nat,
                ) {
                    Err(e) => Err(e),
                    Ok(vals) => if exists|j: int| 0 <= j < idx.len() && idx[j][0] >= acc.count {
                        Err(ConvertError::Other)
                    } else {
                        Ok(overridden(b, idx, vals))
                    },
                },
            },
        },
    }
}

/// Decoding of an accessor that the caller reads with shape `d`, and whose
/// component type it takes when `accepted` holds.
pub open spec fn typed_outcome(acc: Accessor, bufs: Seq<Seq<u8>>, d: Dimensions, accepted: bool) -> Result<
    Seq<Seq<u32>>,
    ConvertError,
> {
    if acc.dimensions != d {
        Err(ConvertError::UnsupportedDimensions)
    } else if !accepted {
        Err(ConvertError::UnsupportedDataType)
    } else {
        decode_outcome(acc, bufs)
    }
}

/// Decoding of an accessor read as `F32` components of shape `d`.
pub open spec fn f32_outcome(acc: Accessor, bufs: Seq<Seq<u8>>, d: Dimensions) -> Result<
    Seq<Seq<u32>>,
    ConvertError,
> {
    typed_outcome(acc, bufs, d, acc.component_type == ComponentType::F32)
}

/// Decoding of an accessor read as floats or normalized integers of shape `d`.
pub open spec fn norm_outcome(acc: Accessor, bufs: Seq<Seq<u8>>, d: Dimensions) -> Result<
    Seq<Seq<u32>>,
    ConvertError,
> {
    typed_outcome(acc, bufs, d, normalizable(acc.component_type))
}

/// Decoding of an accessor read as floats or unsigned normalized integers of shape `d`.
pub open spec fn unorm_outcome(acc: Accessor, bufs: Seq<Seq<u8>>, d: Dimensions) -> Result<
    Seq<Seq<u32>>,
    ConvertError,
> {
    typed_outcome(acc, bufs, d, unit_normalizable(acc.component_type))
}

/// Decoding of an accessor read as `Vec4` joint indices of `U8` or `U16`.
pub open spec fn joints_outcome(acc: Accessor, bufs: Seq<Seq<u8>>) -> Result<
    Seq<Seq<u32>>,
    ConvertError,
> {
    typed_outcome(
        acc,
        bufs,
        Dimensions::Vec4,
        acc.component_type == ComponentType::U8 || acc.component_type == ComponentType::U16,
    )
}

/// Every element of `s` has `n` components.
pub open spec fn rows_of_len(s: Seq<Seq<u32>>, n: nat) -> bool {
    forall|i: int| 0 <= i < s.len() ==> #[trigger] s[i].len() == n
}

/// A number read from one accessor component.
#[derive(Debug, Clone, Copy, PartialEq, Eq, Structural)]
pub enum Value {
    /// The bit pattern of an IEEE-754 single.
    Float(u32),
    /// A normalized integer: exactly the fraction `num / den`.
    Norm { num: i32, den: u32 },
}

/// The component as a number: a float keeps its bits; an integer is mapped
/// onto [0, 1] (unsigned) or [-1, 1] (signed) by dividing by its largest
/// positive value. Only the types of `normalizable` are read this way.
pub open spec fn normalized(ct: ComponentType, raw: u32) -> Value {
    match ct {
        ComponentType::F32 => Value::Float(raw),
        ComponentType::U8 => Value::Norm { num: (raw as u8) as i32, den: 255 },
        ComponentType::U16 => Value::Norm { num: (raw as u16) as i32, den: 65535 },
        ComponentType::I8 => Value::Norm { num: (raw as u8 as i8) as i32, den: 127 },
        ComponentType::I16 => Value::Norm { num: (raw as u16 as i16) as i32, den: 32767 },
        ComponentType::U32 => Value::Norm { num: 0, den: 0 },
    }
}

/// The components of one element, each as a number.
pub open spec fn normalized_row(ct: ComponentType, e: Seq<u32>) -> Seq<Value> {
    e.map_values(|c: u32| normalized(ct, c))
}

/// Each array holds the components of the matching element.
pub open spec fn arrays_match<const N: usize>(v: Seq<[u32; N]>, s: Seq<Seq<u32>>) -> bool {
    v.len() == s.len() && forall|i: int| 0 <= i < s.len() ==> #[trigger] v[i]@ == s[i]
}

/// Each array holds the normalized components of the matching element.
pub open spec fn value_arrays_match<const N: usize>(
    v: Seq<[Value; N]>,
    s: Seq<Seq<u32>>,
    ct: ComponentType,
) -> bool {
    v.len() == s.len() && forall|i: int|
        0 <= i < s.len() ==> #[trigger] v[i]@ == normalized_row(ct, s[i])
}

/// Each array holds the components of the matching element as 16-bit integers.
pub open spec fn u16_arrays_match<const N: usize>(v: Seq<[u16; N]>, s: Seq<Seq<u32>>) -> bool {
    v.len() == s.len() && forall|i: int|
        0 <= i < s.len() ==> #[trigger] v[i]@ == s[i].map_values(|c: u32| c as u16)
}

/// The first (for scalars: the only) component of each element.
pub open spec fn firsts(s: Seq<Seq<u32>>) -> Seq<u32> {
    s.map_values(|e: Seq<u32>| e[0])
}

/// Component types that rotations and morph weights may use: floats, and
/// 8-bit unsigned, 16-bit unsigned or 16-bit signed normalized integers.
pub open spec fn normalizable(ct: ComponentType) -> bool {
    ct == ComponentType::F32 || ct == ComponentType::U8 || ct == ComponentType::U16 || ct
        == ComponentType::I16
}

/// Component types that texture coordinates and joint weights may use:
/// floats, and 8-bit or 16-bit unsigned normalized integers.
pub open spec fn unit_normalizable(ct: ComponentType) -> bool {
    ct == ComponentType::F32 || ct == ComponentType::U8 || ct == ComponentType::U16
}

/// Component types that hold unsigned integers.
pub open spec fn unsigned_integer(ct: ComponentType) -> bool {
    ct == ComponentType::U8 || ct == ComponentType::U16 || ct == ComponentType::U32
}

/// A decoded result agrees with what the specification says the decode gives.
pub open spec fn same_outcome(
    r: Result<Vec<Vec<u32>>, ConvertError>,
    o: Result<Seq<Seq<u32>>, ConvertError>,
) -> bool {
    match (r, o) {
        (Ok(v), Ok(s)) => v.deep_view() == s,
        (Err(e), Err(f)) => e == f,
        _ => false,
    }
}

proof fn lemma_deep_view_rows(v: Vec<Vec<u32>>)
    ensures
        v.deep_view().len() == v@.len(),
        forall|i: int| 0 <= i < v@.len() ==> #[trigger] v.deep_view()[i] == v@[i]@,
{
    assert forall|i: int| 0 <= i < v@.len() implies #[trigger] v.deep_view()[i] == v@[i]@ by {
        assert(v.deep_view()[i] =~= v@[i]@);
    }
}

/// Reads `count` elements of the given type and shape through a view.
pub fn read_dense(bufs: &Buffers, v: BufferView, ct: ComponentType, d: Dimensions, count: usize) -> (r:
    Result<Vec<Vec<u32>>, ConvertError>)
    ensures
        same_outcome(r, dense_outcome(bufs@, v, ct, d, count as nat)),
{
    let csize = component_size_of(ct);
    let ar = arity_of(d);
    let elem = csize * ar;
    if v.buffer >= bufs.data.len() {
        return Err(ConvertError::MissingBuffer);
    }
    let stride = match v.byte_stride {
        Some(s) => s,
        None => elem,
    };
    if stride < elem {
        return Err(ConvertError::Other);
    }
    let buf = &bufs.data[v.buffer];
    let len = buf.len();
    if count > 0 {
        let end = match (count - 1).checked_mul(stride) {
            Some(m) => match m.checked_add(v.byte_offset) {
                Some(a) => a.checked_add(elem),
                None => None,
            },
            None => None,
        };
        match end {
            Some(e) => {
                if e > len {
                    return Err(ConvertError::MissingBuffer);
                }
            },
            None => {
                return Err(ConvertError::MissingBuffer);
            },
        }
    }
    let ghost spec_elems = dense_elements(buf@, v, ct, d, count as nat);
    let mut out: Vec<Vec<u32>> = Vec::new();
    let mut i: usize = 0;
    while i < count
        invariant
            0 <= i <= count,
            stride == stride_of(v, elem as nat),
            elem == element_size(ct, d),
            csize == component_size(ct),
            ar == arity(d),
            len == buf@.len(),
            count > 0 ==> v.byte_offset + (count - 1) * stride + elem <= len,
            spec_elems == dense_elements(buf@, v, ct, d, count as nat),
            out@.len() == i,
            forall|j: int| 0 <= j < i ==> #[trigger] out@[j]@ == spec_elems[j],
        decreases count - i,
    {
        proof {
            vstd::arithmetic::mul::lemma_mul_inequality(i as int, (count - 1) as int, stride as int);
        }
        let start = v.byte_offset + i * stride;
        let mut e: Vec<u32> = Vec::new();
        let mut k: usize = 0;
        while k < ar
            invariant
                0 <= k <= ar,
                start + elem <= len,
                start == v.byte_offset + i * stride,
                i < count,
                stride == stride_of(v, elem as nat),
                elem == element_size(ct, d),
                elem == csize * ar,
                csize == component_size(ct),
                ar == arity(d),
                len == buf@.len(),
                e@.len() == k,
                forall|t: int| 0 <= t < k ==> #[trigger] e@[t] == raw_element(buf@, start as int, ct, d)[t],
            decreases ar - k,
        {
            proof {
                assert(k * csize + csize <= ar * csize) by (nonlinear_arith)
                    requires
                        k < ar,
                ;
            }
            let x = read_le(buf, start + k * csize, csize);
            e.push(x);
            k += 1;
        }
        assert(e@ =~= spec_elems[i as int]);
        out.push(e);
        i += 1;
    }
    proof {
        lemma_deep_view_rows(out);
        assert(out.deep_view() =~= spec_elems);
    }
    Ok(out)
}

proof fn lemma_overridden_rows(base: Seq<Seq<u32>>, idx: Seq<Seq<u32>>, vals: Seq<Seq<u32>>, n: nat)
    requires
        rows_of_len(base, n),
        rows_of_len(vals, n),
        vals.len() == idx.len(),
        forall|j: int| 0 <= j < idx.len() ==> #[trigger] idx[j][0] < base.len(),
    ensures
        rows_of_len(overridden(base, idx, vals), n),
        overridden(base, idx, vals).len() == base.len(),
    decreases idx.len(),
{
    if idx.len() > 0 {
        let m = idx.len() - 1;
        assert forall|j: int| 0 <= j < m implies #[trigger] idx.take(m)[j][0] < base.len() by {
            assert(idx.take(m)[j] == idx[j]);
        }
        assert forall|j: int| 0 <= j < m implies #[trigger] vals.take(m)[j].len() == n by {
            assert(vals.take(m)[j] == vals[j]);
        }
        lemma_overridden_rows(base, idx.take(m), vals.take(m), n);
        assert(idx[m][0] < base.len());
        assert(vals[m].len() == n);
    }
}

/// Every element that decoding an accessor gives has as many components as its shape.
proof fn lemma_decoded_rows(acc: Accessor, bufs: Seq<Seq<u8>>)
    requires
        decode_outcome(acc, bufs) is Ok,
    ensures
        rows_of_len(decode_outcome(acc, bufs)->Ok_0, arity(acc.dimensions)),
        decode_outcome(acc, bufs)->Ok_0.len() == acc.count,
{
    let base = match acc.view {
        Some(v) => dense_outcome(bufs, v, acc.component_type, acc.dimensions, acc.count as nat),
        None => Ok(zero_elements(acc.count as nat, acc.dimensions)),
    };
    let b = base->Ok_0;
    assert(rows_of_len(b, arity(acc.dimensions)));
    match acc.sparse {
        None => {},
        Some(sp) => {
            let idx = dense_outcome(
                bufs,
                sp.indices,
                index_component(sp.index_type),
                Dimensions::Scalar,
                sp.count as nat,
            )->Ok_0;
            let vals = dense_outcome(
                bufs,
                sp.values,
                acc.component_type,
                acc.dimensions,
                sp.count as nat,
            )->Ok_0;
            assert forall|j: int| 0 <= j < idx.len() implies #[trigger] idx[j][0] < b.len() by {
                if idx[j][0] >= acc.count {
                    assert(exists|j: int| 0 <= j < idx.len() && idx[j][0] >= acc.count);
                }
            }
            lemma_overridden_rows(b, idx, vals, arity(acc.dimensions));
        },
    }
}

fn index_component_of(it: IndexType) -> (r: ComponentType)
    ensures
        r == index_component(it),
{
    match it {
        IndexType::U8 => ComponentType::U8,
        IndexType::U16 => ComponentType::U16,
        IndexType::U32 => ComponentType::U32,
    }
}

fn copy_row(row: &Vec<u32>) -> (r: Vec<u32>)
    ensures
        r@ == row@,
{
    let mut r: Vec<u32> = Vec::new();
    let mut k: usize = 0;
    while k < row.len()
        invariant
            0 <= k <= row@.len(),
            r@ == row@.take(k as int),
        decreases row@.len() - k,
    {
        r.push(row[k]);
        k += 1;
        assert(r@ =~= row@.take(k as int));
    }
    assert(row@.take(k as int) =~= row@);
    r
}

fn zero_rows(count: usize, d: Dimensions) -> (r: Vec<Vec<u32>>)
    ensures
        r@.len() == count,
        forall|i: int| 0 <= i < count ==> #[trigger] r@[i]@ == zero_elements(count as nat, d)[i],
{
    let ar = arity_of(d);
    let mut out: Vec<Vec<u32>> = Vec::new();
    let mut i: usize = 0;
    while i < count
        invariant
            0 <= i <= count,
            ar == arity(d),
            out@.len() == i,
            forall|j: int| 0 <= j < i ==> #[trigger] out@[j]@ == zero_elements(count as nat, d)[j],
        decreases count - i,
    {
        let mut e: Vec<u32> = Vec::new();
        let mut k: usize = 0;
        while k < ar
            invariant
                0 <= k <= ar,
                e@.len() == k,
                forall|t: int| 0 <= t < k ==> #[trigger] e@[t] == 0u32,
            decreases ar - k,
        {
            e.push(0u32);
            k += 1;
        }
        assert(e@ =~= zero_elements(count as nat, d)[i as int]);
        out.push(e);
        i += 1;
    }
    out
}

/// Decodes every element of an accessor: the dense elements read through its
/// view (all zero without one), with the elements that its sparse part names
/// replaced, in order, by the sparse values.
pub fn decode(acc: &Accessor, bufs: &Buffers) -> (r: Result<Vec<Vec<u32>>, ConvertError>)
    ensures
        same_outcome(r, decode_outcome(*acc, bufs@)),
{
    let mut base = match acc.view {
        Some(v) => {
            let b = read_dense(bufs, v, acc.component_type, acc.dimensions, acc.count);
            match b {
                Ok(rows) => rows,
                Err(e) => {
                    return Err(e);
                },
            }
        },
        None => {
            let rows = zero_rows(acc.count, acc.dimensions);
            proof {
                lemma_deep_view_rows(rows);
                assert(rows.deep_view() =~= zero_elements(acc.count as nat, acc.dimensions));
            }
            rows
        },
    };
    let ghost b = base.deep_view();
    proof {
        lemma_deep_view_rows(base);
    }
    let sp = match acc.sparse {
        None => {
            return Ok(base);
        },
        Some(sp) => sp,
    };
    let idx = match read_dense(
        bufs,
        sp.indices,
        index_component_of(sp.index_type),
        Dimensions::Scalar,
        sp.count,
    ) {
        Ok(rows) => rows,
        Err(e) => {
            return Err(e);
        },
    };
    let vals = match read_dense(bufs, sp.values, acc.component_type, acc.dimensions, sp.count) {
        Ok(rows) => rows,
        Err(e) => {
            return Err(e);
        },
    };
    proof {
        lemma_deep_view_rows(idx);
        lemma_deep_view_rows(vals);
    }
    let ghost si = idx.deep_view();
    let ghost sv = vals.deep_view();
    proof {
        assert(si.len() == sp.count);
        assert(sv.len() == sp.count);
        assert forall|t: int| 0 <= t < si.len() implies #[trigger] si[t].len() == 1 by {}
        assert forall|t: int| 0 <= t < idx@.len() implies #[trigger] idx@[t]@.len() == 1 by {
            assert(si[t] == idx@[t]@);
        }
    }
    let mut j: usize = 0;
    while j < sp.count
        invariant
            0 <= j <= sp.count,
            si.len() == sp.count,
            si == idx.deep_view(),
            idx@.len() == sp.count,
            acc.sparse == Some(sp),
            same_outcome(Ok(idx), dense_outcome(bufs@, sp.indices, index_component(sp.index_type), Dimensions::Scalar, sp.count as nat)),
            same_outcome(Ok(vals), dense_outcome(bufs@, sp.values, acc.component_type, acc.dimensions, sp.count as nat)),
            sv == vals.deep_view(),
            match acc.view {
                Some(v) => dense_outcome(bufs@, v, acc.component_type, acc.dimensions, acc.count as nat) == Ok::<Seq<Seq<u32>>, ConvertError>(b),
                None => b == zero_elements(acc.count as nat, acc.dimensions),
            },
            forall|t: int| 0 <= t < si.len() ==> #[trigger] si[t] == idx@[t]@,
            forall|t: int| 0 <= t < si.len() ==> #[trigger] si[t].len() == 1,
            forall|t: int| 0 <= t < idx@.len() ==> #[trigger] idx@[t]@.len() == 1,
            forall|t: int| 0 <= t < j ==> #[trigger] si[t][0] < acc.count,
        decreases sp.count - j,
    {
        if idx[j][0] as usize >= acc.count {
            assert(si[j as int] == idx@[j as int]@);
            assert(0 <= j < si.len() && si[j as int][0] >= acc.count);
            return Err(ConvertError::Other);
        }
        j += 1;
    }
    proof {
        assert forall|t: int| 0 <= t < idx@.len() implies #[trigger] idx@[t]@[0] < acc.count by {
            assert(si[t] == idx@[t]@);
        }
    }
    let ghost cur = b;
    let mut j: usize = 0;
    while j < sp.count
        invariant
            0 <= j <= sp.count,
            si.len() == sp.count,
            sv.len() == sp.count,
            idx@.len() == sp.count,
            vals@.len() == sp.count,
            forall|t: int| 0 <= t < si.len() ==> #[trigger] si[t] == idx@[t]@,
            forall|t: int| 0 <= t < sv.len() ==> #[trigger] sv[t] == vals@[t]@,
            forall|t: int| 0 <= t < si.len() ==> #[trigger] si[t].len() == 1,
            forall|t: int| 0 <= t < si.len() ==> #[trigger] si[t][0] < acc.count,
            forall|t: int| 0 <= t < idx@.len() ==> #[trigger] idx@[t]@.len() == 1,
            forall|t: int| 0 <= t < idx@.len() ==> #[trigger] idx@[t]@[0] < acc.count,
            cur == overridden(b, si.take(j as int), sv.take(j as int)),
            base@.len() == acc.count,
            cur.len() == acc.count,
            forall|t: int| 0 <= t < acc.count ==> #[trigger] base@[t]@ == cur[t],
        decreases sp.count - j,
    {
        let at = idx[j][0] as usize;
        let row = copy_row(&vals[j]);
        base.set(at, row);
        proof {
            assert(si.take(j + 1).take(j as int) =~= si.take(j as int));
            assert(sv.take(j + 1).take(j as int) =~= sv.take(j as int));
            cur = cur.update(at as int, sv[j as int]);
        }
        j += 1;
    }
    proof {
        assert(si.take(sp.count as int) =~= si);
        assert(sv.take(sp.count as int) =~= sv);
        lemma_deep_view_rows(base);
        assert(base.deep_view() =~= cur);
    }
    Ok(base)
}

/// Decodes an accessor that the caller reads with shape `d` and whose
/// component type it takes when `accepted` holds.
fn decode_typed(acc: &Accessor, bufs: &Buffers, d: Dimensions, accepted: bool) -> (r: Result<
    Vec<Vec<u32>>,
    ConvertError,
>)
    ensures
        same_outcome(r, typed_outcome(*acc, bufs@, d, accepted)),
        r is Ok ==> r->Ok_0@.len() == acc.count,
        r is Ok ==> forall|i: int|
            0 <= i < r->Ok_0@.len() ==> (#[trigger] r->Ok_0@[i])@.len() == arity(d),
{
    if acc.dimensions != d {
        return Err(ConvertError::UnsupportedDimensions);
    }
    if !accepted {
        return Err(ConvertError::UnsupportedDataType);
    }
    let r = decode(acc, bufs);
    proof {
        if r is Ok {
            lemma_decoded_rows(*acc, bufs@);
            let v = r->Ok_0;
            lemma_deep_view_rows(v);
            assert forall|i: int| 0 <= i < v@.len() implies (#[trigger] v@[i])@.len() == arity(d) by {
                assert(v.deep_view()[i] == v@[i]@);
            }
        }
    }
    r
}

fn is_normalizable(ct: ComponentType) -> (r: bool)
    ensures
        r == normalizable(ct),
{
    match ct {
        ComponentType::F32 | ComponentType::U8 | ComponentType::U16 | ComponentType::I16 => true,
        ComponentType::I8 | ComponentType::U32 => false,
    }
}

fn is_unit_normalizable(ct: ComponentType) -> (r: bool)
    ensures
        r == unit_normalizable(ct),
{
    match ct {
        ComponentType::F32 | ComponentType::U8 | ComponentType::U16 => true,
        _ => false,
    }
}

fn is_unsigned_integer(ct: ComponentType) -> (r: bool)
    ensures
        r == unsigned_integer(ct),
{
    match ct {
        ComponentType::U8 | ComponentType::U16 | ComponentType::U32 => true,
        _ => false,
    }
}

/// The component as a number (see `normalized`).
pub fn normalize(ct: ComponentType, raw: u32) -> (v: Value)
    requires
        normalizable(ct),
    ensures
        v == normalized(ct, raw),
{
    match ct {
        ComponentType::F32 => Value::Float(raw),
        ComponentType::U8 => Value::Norm { num: (raw as u8) as i32, den: 255 },
        ComponentType::U16 => Value::Norm { num: (raw as u16) as i32, den: 65535 },
        ComponentType::I8 => Value::Norm { num: (raw as u8 as i8) as i32, den: 127 },
        ComponentType::I16 => Value::Norm { num: (raw as u16 as i16) as i32, den: 32767 },
        ComponentType::U32 => Value::Norm { num: 0, den: 0 },
    }
}

/// Reads a scalar `F32` accessor (e.g. keyframe times) as float bit patterns.
pub fn read_scalars_f32(acc: &Accessor, bufs: &Buffers) -> (r: Result<Vec<u32>, ConvertError>)
    ensures
        match r {
            Ok(v) => typed_outcome(*acc, bufs@, Dimensions::Scalar, acc.component_type == ComponentType::F32) is Ok && v@ == firsts(typed_outcome(*acc, bufs@, Dimensions::Scalar, acc.component_type == ComponentType::F32)->Ok_0),
            Err(e) => typed_outcome(*acc, bufs@, Dimensions::Scalar, acc.component_type == ComponentType::F32) == Err::<Seq<Seq<u32>>, ConvertError>(e),
        },
{
    let rows = match decode_typed(acc, bufs, Dimensions::Scalar, acc.component_type == ComponentType::F32) {
        Ok(rows) => rows,
        Err(e) => {
            return Err(e);
        },
    };
    let mut out: Vec<u32> = Vec::new();
    let mut i: usize = 0;
    while i < rows.len()
        invariant
            0 <= i <= rows@.len(),
            rows@.len() == acc.count,
            acc.component_type == ComponentType::F32,
            forall|j: int| 0 <= j < rows@.len() ==> (#[trigger] rows@[j])@.len() == 1,
            out@.len() == i,
            forall|j: int| 0 <= j < i ==> #[trigger] out@[j] == rows@[j]@[0],
        decreases rows@.len() - i,
    {
        let e = &rows[i];
        out.push(e[0]);
        proof {
            assert(out@[i as int] == rows@[i as int]@[0]);
        }
        i += 1;
    }
    proof {
        lemma_deep_view_rows(rows);
        assert(out@ =~= firsts(rows.deep_view()));
    }
    Ok(out)
}

/// Reads a `Vec2` accessor of `F32` components as float bit patterns.
pub fn read_vec2_f32(acc: &Accessor, bufs: &Buffers) -> (r: Result<Vec<[u32; 2]>, ConvertError>)
    ensures
        match r {
            Ok(v) => typed_outcome(*acc, bufs@, Dimensions::Vec2, acc.component_type == ComponentType::F32) is Ok && arrays_match(v@, typed_outcome(*acc, bufs@, Dimensions::Vec2, acc.component_type == ComponentType::F32)->Ok_0),
            Err(e) => typed_outcome(*acc, bufs@, Dimensions::Vec2, acc.component_type == ComponentType::F32) == Err::<Seq<Seq<u32>>, ConvertError>(e),
        },
{
    let rows = match decode_typed(acc, bufs, Dimensions::Vec2, acc.component_type == ComponentType::F32) {
        Ok(rows) => rows,
        Err(e) => {
            return Err(e);
        },
    };
    let mut out: Vec<[u32; 2]> = Vec::new();
    let mut i: usize = 0;
    while i < rows.len()
        invariant
            0 <= i <= rows@.len(),
            rows@.len() == acc.count,
            acc.component_type == ComponentType::F32,
            forall|j: int| 0 <= j < rows@.len() ==> (#[trigger] rows@[j])@.len() == 2,
            out@.len() == i,
            forall|j: int| 0 <= j < i ==> #[trigger] out@[j]@ == rows@[j]@,
        decreases rows@.len() - i,
    {
        let e = &rows[i];
        out.push([e[0], e[1]]);
        proof {
            assert(out@[i as int]@ =~= rows@[i as int]@);
        }
        i += 1;
    }
    proof {
        lemma_deep_view_rows(rows);
    }
    Ok(out)
}

/// Reads a `Vec3` accessor of `F32` components (positions, normals, translations, scales) as float bit patterns.
pub fn read_vec3_f32(acc: &Accessor, bufs: &Buffers) -> (r: Result<Vec<[u32; 3]>, ConvertError>)
    ensures
        match r {
            Ok(v) => typed_outcome(*acc, bufs@, Dimensions::Vec3, acc.component_type == ComponentType::F32) is Ok && arrays_match(v@, typed_outcome(*acc, bufs@, Dimensions::Vec3, acc.component_type == ComponentType::F32)->Ok_0),
            Err(e) => typed_outcome(*acc, bufs@, Dimensions::Vec3, acc.component_type == ComponentType::F32) == Err::<Seq<Seq<u32>>, ConvertError>(e),
        },
{
    let rows = match decode_typed(acc, bufs, Dimensions::Vec3, acc.component_type == ComponentType::F32) {
        Ok(rows) => rows,
        Err(e) => {
            return Err(e);
        },
    };
    let mut out: Vec<[u32; 3]> = Vec::new();
    let mut i: usize = 0;
    while i < rows.len()
        invariant
            0 <= i <= rows@.len(),
            rows@.len() == acc.count,
            acc.component_type == ComponentType::F32,
            forall|j: int| 0 <= j < rows@.len() ==> (#[trigger] rows@[j])@.len() == 3,
            out@.len() == i,
            forall|j: int| 0 <= j < i ==> #[trigger] out@[j]@ == rows@[j]@,
        decreases rows@.len() - i,
    {
        let e = &rows[i];
        out.push([e[0], e[1], e[2]]);
        proof {
            assert(out@[i as int]@ =~= rows@[i as int]@);
        }
        i += 1;
    }
    proof {
        lemma_deep_view_rows(rows);
    }
    Ok(out)
}

/// Reads a `Vec4` accessor of `F32` components (tangents) as float bit patterns.
pub fn read_vec4_f32(acc: &Accessor, bufs: &Buffers) -> (r: Result<Vec<[u32; 4]>, ConvertError>)
    ensures
        match r {
            Ok(v) => typed_outcome(*acc, bufs@, Dimensions::Vec4, acc.component_type == ComponentType::F32) is Ok && arrays_match(v@, typed_outcome(*acc, bufs@, Dimensions::Vec4, acc.component_type == ComponentType::F32)->Ok_0),
            Err(e) => typed_outcome(*acc, bufs@, Dimensions::Vec4, acc.component_type == ComponentType::F32) == Err::<Seq<Seq<u32>>, ConvertError>(e),
        },
{
    let rows = match decode_typed(acc, bufs, Dimensions::Vec4, acc.component_type == ComponentType::F32) {
        Ok(rows) => rows,
        Err(e) => {
            return Err(e);
        },
    };
    let mut out: Vec<[u32; 4]> = Vec::new();
    let mut i: usize = 0;
    while i < rows.len()
        invariant
            0 <= i <= rows@.len(),
            rows@.len() == acc.count,
            acc.component_type == ComponentType::F32,
            forall|j: int| 0 <= j < rows@.len() ==> (#[trigger] rows@[j])@.len() == 4,
            out@.len() == i,
            forall|j: int| 0 <= j < i ==> #[trigger] out@[j]@ == rows@[j]@,
        decreases rows@.len() - i,
    {
        let e = &rows[i];
        out.push([e[0], e[1], e[2], e[3]]);
        proof {
            assert(out@[i as int]@ =~= rows@[i as int]@);
        }
        i += 1;
    }
    proof {
        lemma_deep_view_rows(rows);
    }
    Ok(out)
}

/// Reads a `Mat4` accessor of `F32` components (column-major matrices) as float bit patterns.
pub fn read_mat4_f32(acc: &Accessor, bufs: &Buffers) -> (r: Result<Vec<[u32; 16]>, ConvertError>)
    ensures
        match r {
            Ok(v) => typed_outcome(*acc, bufs@, Dimensions::Mat4, acc.component_type == ComponentType::F32) is Ok && arrays_match(v@, typed_outcome(*acc, bufs@, Dimensions::Mat4, acc.component_type == ComponentType::F32)->Ok_0),
            Err(e) => typed_outcome(*acc, bufs@, Dimensions::Mat4, acc.component_type == ComponentType::F32) == Err::<Seq<Seq<u32>>, ConvertError>(e),
        },
{
    let rows = match decode_typed(acc, bufs, Dimensions::Mat4, acc.component_type == ComponentType::F32) {
        Ok(rows) => rows,
        Err(e) => {
            return Err(e);
        },
    };
    let mut out: Vec<[u32; 16]> = Vec::new();
    let mut i: usize = 0;
    while i < rows.len()
        invariant
            0 <= i <= rows@.len(),
            rows@.len() == acc.count,
            acc.component_type == ComponentType::F32,
            forall|j: int| 0 <= j < rows@.len() ==> (#[trigger] rows@[j])@.len() == 16,
            out@.len() == i,
            forall|j: int| 0 <= j < i ==> #[trigger] out@[j]@ == rows@[j]@,
        decreases rows@.len() - i,
    {
        let e = &rows[i];
        out.push([e[0], e[1], e[2], e[3], e[4], e[5], e[6], e[7], e[8], e[9], e[10], e[11], e[12], e[13], e[14], e[15]]);
        proof {
            assert(out@[i as int]@ =~= rows@[i as int]@);
        }
        i += 1;
    }
    proof {
        lemma_deep_view_rows(rows);
    }
    Ok(out)
}

/// Reads a scalar accessor of floats or normalized integers (e.g. morph weights).
pub fn read_scalars_norm(acc: &Accessor, bufs: &Buffers) -> (r: Result<Vec<Value>, ConvertError>)
    ensures
        match r {
            Ok(v) => typed_outcome(*acc, bufs@, Dimensions::Scalar, normalizable(acc.component_type)) is Ok && v@.len() == typed_outcome(*acc, bufs@, Dimensions::Scalar, normalizable(acc.component_type))->Ok_0.len() && forall|i: int| 0 <= i < typed_outcome(*acc, bufs@, Dimensions::Scalar, normalizable(acc.component_type))->Ok_0.len() ==> #[trigger] v@[i] == normalized(acc.component_type, typed_outcome(*acc, bufs@, Dimensions::Scalar, normalizable(acc.component_type))->Ok_0[i][0]),
            Err(e) => typed_outcome(*acc, bufs@, Dimensions::Scalar, normalizable(acc.component_type)) == Err::<Seq<Seq<u32>>, ConvertError>(e),
        },
{
    let rows = match decode_typed(acc, bufs, Dimensions::Scalar, is_normalizable(acc.component_type)) {
        Ok(rows) => rows,
        Err(e) => {
            return Err(e);
        },
    };
    let mut out: Vec<Value> = Vec::new();
    let mut i: usize = 0;
    while i < rows.len()
        invariant
            0 <= i <= rows@.len(),
            rows@.len() == acc.count,
            normalizable(acc.component_type),
            forall|j: int| 0 <= j < rows@.len() ==> (#[trigger] rows@[j])@.len() == 1,
            out@.len() == i,
            forall|j: int| 0 <= j < i ==> #[trigger] out@[j] == normalized(acc.component_type, rows@[j]@[0]),
        decreases rows@.len() - i,
    {
        let e = &rows[i];
        out.push(normalize(acc.component_type, e[0]));
        proof {
            assert(out@[i as int] == normalized(acc.component_type, rows@[i as int]@[0]));
        }
        i += 1;
    }
    proof {
        lemma_deep_view_rows(rows);
    }
    Ok(out)
}

/// Reads a `Vec2` accessor of floats or unsigned normalized integers (texture coordinates).
pub fn read_vec2_norm(acc: &Accessor, bufs: &Buffers) -> (r: Result<Vec<[Value; 2]>, ConvertError>)
    ensures
        match r {
            Ok(v) => typed_outcome(*acc, bufs@, Dimensions::Vec2, unit_normalizable(acc.component_type)) is Ok && value_arrays_match(v@, typed_outcome(*acc, bufs@, Dimensions::Vec2, unit_normalizable(acc.component_type))->Ok_0, acc.component_type),
            Err(e) => typed_outcome(*acc, bufs@, Dimensions::Vec2, unit_normalizable(acc.component_type)) == Err::<Seq<Seq<u32>>, ConvertError>(e),
        },
{
    let rows = match decode_typed(acc, bufs, Dimensions::Vec2, is_unit_normalizable(acc.component_type)) {
        Ok(rows) => rows,
        Err(e) => {
            return Err(e);
        },
    };
    let ct = acc.component_type;
    let mut out: Vec<[Value; 2]> = Vec::new();
    let mut i: usize = 0;
    while i < rows.len()
        invariant
            0 <= i <= rows@.len(),
            rows@.len() == acc.count,
            unit_normalizable(acc.component_type),
            ct == acc.component_type,
            forall|j: int| 0 <= j < rows@.len() ==> (#[trigger] rows@[j])@.len() == 2,
            out@.len() == i,
            forall|j: int| 0 <= j < i ==> #[trigger] out@[j]@ == normalized_row(acc.component_type, rows@[j]@),
        decreases rows@.len() - i,
    {
        let e = &rows[i];
        out.push([normalize(ct, e[0]), normalize(ct, e[1])]);
        proof {
            assert(out@[i as int]@ =~= normalized_row(acc.component_type, rows@[i as int]@));
        }
        i += 1;
    }
    proof {
        lemma_deep_view_rows(rows);
    }
    Ok(out)
}

/// Reads a `Vec4` accessor of floats or normalized integers (rotations).
pub fn read_vec4_norm(acc: &Accessor, bufs: &Buffers) -> (r: Result<Vec<[Value; 4]>, ConvertError>)
    ensures
        match r {
            Ok(v) => typed_outcome(*acc, bufs@, Dimensions::Vec4, normalizable(acc.component_type)) is Ok && value_arrays_match(v@, typed_outcome(*acc, bufs@, Dimensions::Vec4, normalizable(acc.component_type))->Ok_0, acc.component_type),
            Err(e) => typed_outcome(*acc, bufs@, Dimensions::Vec4, normalizable(acc.component_type)) == Err::<Seq<Seq<u32>>, ConvertError>(e),
        },
{
    let rows = match decode_typed(acc, bufs, Dimensions::Vec4, is_normalizable(acc.component_type)) {
        Ok(rows) => rows,
        Err(e) => {
            return Err(e);
        },
    };
    let ct = acc.component_type;
    let mut out: Vec<[Value; 4]> = Vec::new();
    let mut i: usize = 0;
    while i < rows.len()
        invariant
            0 <= i <= rows@.len(),
            rows@.len() == acc.count,
            normalizable(acc.component_type),
            ct == acc.component_type,
            forall|j: int| 0 <= j < rows@.len() ==> (#[trigger] rows@[j])@.len() == 4,
            out@.len() == i,
            forall|j: int| 0 <= j < i ==> #[trigger] out@[j]@ == normalized_row(acc.component_type, rows@[j]@),
        decreases rows@.len() - i,
    {
        let e = &rows[i];
        out.push([normalize(ct, e[0]), normalize(ct, e[1]), normalize(ct, e[2]), normalize(ct, e[3])]);
        proof {
            assert(out@[i as int]@ =~= normalized_row(acc.component_type, rows@[i as int]@));
        }
        i += 1;
    }
    proof {
        lemma_deep_view_rows(rows);
    }
    Ok(out)
}

/// Reads a `Vec4` accessor of floats or unsigned normalized integers (joint weights).
pub fn read_vec4_unorm(acc: &Accessor, bufs: &Buffers) -> (r: Result<Vec<[Value; 4]>, ConvertError>)
    ensures
        match r {
            Ok(v) => typed_outcome(*acc, bufs@, Dimensions::Vec4, unit_normalizable(acc.component_type)) is Ok && value_arrays_match(v@, typed_outcome(*acc, bufs@, Dimensions::Vec4, unit_normalizable(acc.component_type))->Ok_0, acc.component_type),
            Err(e) => typed_outcome(*acc, bufs@, Dimensions::Vec4, unit_normalizable(acc.component_type)) == Err::<Seq<Seq<u32>>, ConvertError>(e),
        },
{
    let rows = match decode_typed(acc, bufs, Dimensions::Vec4, is_unit_normalizable(acc.component_type)) {
        Ok(rows) => rows,
        Err(e) => {
            return Err(e);
        },
    };
    let ct = acc.component_type;
    let mut out: Vec<[Value; 4]> = Vec::new();
    let mut i: usize = 0;
    while i < rows.len()
        invariant
            0 <= i <= rows@.len(),
            rows@.len() == acc.count,
            unit_normalizable(acc.component_type),
            ct == acc.component_type,
            forall|j: int| 0 <= j < rows@.len() ==> (#[trigger] rows@[j])@.len() == 4,
            out@.len() == i,
            forall|j: int| 0 <= j < i ==> #[trigger] out@[j]@ == normalized_row(acc.component_type, rows@[j]@),
        decreases rows@.len() - i,
    {
        let e = &rows[i];
        out.push([normalize(ct, e[0]), normalize(ct, e[1]), normalize(ct, e[2]), normalize(ct, e[3])]);
        proof {
            assert(out@[i as int]@ =~= normalized_row(acc.component_type, rows@[i as int]@));
        }
        i += 1;
    }
    proof {
        lemma_deep_view_rows(rows);
    }
    Ok(out)
}

/// Reads a `Vec4` accessor of `U8` or `U16` components (joint indices), never normalized.
pub fn read_vec4_u16(acc: &Accessor, bufs: &Buffers) -> (r: Result<Vec<[u16; 4]>, ConvertError>)
    ensures
        match r {
            Ok(v) => typed_outcome(*acc, bufs@, Dimensions::Vec4, acc.component_type == ComponentType::U8 || acc.component_type == ComponentType::U16) is Ok && u16_arrays_match(v@, typed_outcome(*acc, bufs@, Dimensions::Vec4, acc.component_type == ComponentType::U8 || acc.component_type == ComponentType::U16)->Ok_0),
            Err(e) => typed_outcome(*acc, bufs@, Dimensions::Vec4, acc.component_type == ComponentType::U8 || acc.component_type == ComponentType::U16) == Err::<Seq<Seq<u32>>, ConvertError>(e),
        },
{
    let rows = match decode_typed(acc, bufs, Dimensions::Vec4, acc.component_type == ComponentType::U8 || acc.component_type == ComponentType::U16) {
        Ok(rows) => rows,
        Err(e) => {
            return Err(e);
        },
    };
    let mut out: Vec<[u16; 4]> = Vec::new();
    let mut i: usize = 0;
    while i < rows.len()
        invariant
            0 <= i <= rows@.len(),
            rows@.len() == acc.count,
            acc.component_type == ComponentType::U8 || acc.component_type == ComponentType::U16,
            forall|j: int| 0 <= j < rows@.len() ==> (#[trigger] rows@[j])@.len() == 4,
            out@.len() == i,
            forall|j: int| 0 <= j < i ==> #[trigger] out@[j]@ == rows@[j]@.map_values(|c: u32| c as u16),
        decreases rows@.len() - i,
    {
        let e = &rows[i];
        out.push([e[0] as u16, e[1] as u16, e[2] as u16, e[3] as u16]);
        proof {
            assert(out@[i as int]@ =~= rows@[i as int]@.map_values(|c: u32| c as u16));
        }
        i += 1;
    }
    proof {
        lemma_deep_view_rows(rows);
    }
    Ok(out)
}

/// Reads a scalar accessor of unsigned integers (vertex indices), never normalized.
pub fn read_indices_u32(acc: &Accessor, bufs: &Buffers) -> (r: Result<Vec<u32>, ConvertError>)
    ensures
        match r {
            Ok(v) => typed_outcome(*acc, bufs@, Dimensions::Scalar, unsigned_integer(acc.component_type)) is Ok && v@ == firsts(typed_outcome(*acc, bufs@, Dimensions::Scalar, unsigned_integer(acc.component_type))->Ok_0),
            Err(e) => typed_outcome(*acc, bufs@, Dimensions::Scalar, unsigned_integer(acc.component_type)) == Err::<Seq<Seq<u32>>, ConvertError>(e),
        },
{
    let rows = match decode_typed(acc, bufs, Dimensions::Scalar, is_unsigned_integer(acc.component_type)) {
        Ok(rows) => rows,
        Err(e) => {
            return Err(e);
        },
    };
    let mut out: Vec<u32> = Vec::new();
    let mut i: usize = 0;
    while i < rows.len()
        invariant
            0 <= i <= rows@.len(),
            rows@.len() == acc.count,
            unsigned_integer(acc.component_type),
            forall|j: int| 0 <= j < rows@.len() ==> (#[trigger] rows@[j])@.len() == 1,
            out@.len() == i,
            forall|j: int| 0 <= j < i ==> #[trigger] out@[j] == rows@[j]@[0],
        decreases rows@.len() - i,
    {
        let e = &rows[i];
        out.push(e[0]);
        proof {
            assert(out@[i as int] == rows@[i as int]@[0]);
        }
        i += 1;
    }
    proof {
        lemma_deep_view_rows(rows);
        assert(out@ =~= firsts(rows.deep_view()));
    }
    Ok(out)
}

} // verus!
