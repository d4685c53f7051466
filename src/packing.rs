//! Tightly packed little-endian encoding of element sequences, and what
//! decoding guarantees about it.
use vstd::prelude::*;

use crate::accessor::{
    arity, component_size, decode_outcome, dense_elements, dense_outcome, element_size, le_uint, stride_of,
    Accessor, BufferView, ComponentType, Dimensions,
};
use crate::error::ConvertError;

verus! {

/// 256 to the power `n`: the number of values that `n` bytes can hold.
pub open spec fn byte_limit(n: nat) -> nat
    decreases n,
{
    if n == 0 {
        1
    } else {
        256 * byte_limit((n - 1) as nat)
    }
}

/// The `n` little-endian bytes of `v`.
pub open spec fn le_bytes(v: nat, n: nat) -> Seq<u8>
    decreases n,
{
    if n == 0 {
        seq![]
    } else {
        seq![(v % 256) as u8] + le_bytes(v / 256, (n - 1) as nat)
    }
}

/// The components `cs`, one after the other, each in its component width.
pub open spec fn pack_components(ct: ComponentType, cs: Seq<u32>) -> Seq<u8>
    decreases cs.len(),
{
    if cs.len() == 0 {
        seq![]
    } else {
        pack_components(ct, cs.drop_last()) + le_bytes(
            cs[cs.len() - 1] as nat,
            component_size(ct),
        )
    }
}

/// The elements `es`, one after the other, tightly packed.
pub open spec fn pack_elements(ct: ComponentType, es: Seq<Seq<u32>>) -> Seq<u8>
    decreases es.len(),
{
    if es.len() == 0 {
        seq![]
    } else {
        pack_elements(ct, es.drop_last()) + pack_components(ct, es[es.len() - 1])
    }
}

/// Every element has the shape's arity and every component fits its width.
pub open spec fn well_shaped(ct: ComponentType, d: Dimensions, es: Seq<Seq<u32>>) -> bool {
    forall|i: int|
        0 <= i < es.len() ==> (#[trigger] es[i]).len() == arity(d) && forall|k: int|
            0 <= k < arity(d) ==> (#[trigger] es[i][k] as nat) < byte_limit(component_size(ct))
}

proof fn lemma_le_bytes_len(v: nat, n: nat)
    ensures
        le_bytes(v, n).len() == n,
    decreases n,
{
    if n > 0 {
        lemma_le_bytes_len(v / 256, (n - 1) as nat);
    }
}

/// Where element `i` of a view starts.
pub open spec fn element_start(v: BufferView, elem: nat, i: int) -> int {
    v.byte_offset + i * stride_of(v, elem)
}

/// Byte `t` after position `p`.
pub open spec fn byte_at(s: Seq<u8>, p: int, t: int) -> u8 {
    s[p + t]
}

/// `le_uint` reads only the `n` bytes from its start.
proof fn lemma_le_uint_frame(s: Seq<u8>, p: int, u: Seq<u8>, q: int, n: nat)
    requires
        forall|t: int| 0 <= t < n ==> #[trigger] byte_at(s, p, t) == byte_at(u, q, t),
    ensures
        le_uint(s, p, n) == le_uint(u, q, n),
    decreases n,
{
    if n > 0 {
        assert(byte_at(s, p, 0) == byte_at(u, q, 0));
        assert forall|t: int| 0 <= t < n - 1 implies #[trigger] byte_at(s, p + 1, t) == byte_at(
            u,
            q + 1,
            t,
        ) by {
            assert(byte_at(s, p, t + 1) == byte_at(u, q, t + 1));
        }
        lemma_le_uint_frame(s, p + 1, u, q + 1, (n - 1) as nat);
    }
}

proof fn lemma_le_bytes_read(v: nat, n: nat)
    requires
        v < byte_limit(n),
    ensures
        le_uint(le_bytes(v, n), 0, n) == v,
    decreases n,
{
    if n > 0 {
        let rest = le_bytes(v / 256, (n - 1) as nat);
        let s = le_bytes(v, n);
        lemma_le_bytes_len(v / 256, (n - 1) as nat);
        assert(s == seq![(v % 256) as u8] + rest);
        assert forall|t: int| 0 <= t < n - 1 implies #[trigger] byte_at(s, 1, t) == byte_at(
            rest,
            0,
            t,
        ) by {}
        lemma_le_uint_frame(s, 1, rest, 0, (n - 1) as nat);
        assert(v / 256 < byte_limit((n - 1) as nat)) by {
            vstd::arithmetic::div_mod::lemma_fundamental_div_mod(v as int, 256);
        }
        lemma_le_bytes_read(v / 256, (n - 1) as nat);
        vstd::arithmetic::div_mod::lemma_fundamental_div_mod(v as int, 256);
    }
}

proof fn lemma_pack_components(ct: ComponentType, cs: Seq<u32>)
    ensures
        pack_components(ct, cs).len() == cs.len() * component_size(ct),
        forall|k: int, t: int|
            0 <= k < cs.len() && 0 <= t < component_size(ct) ==> pack_components(ct, cs)[k
                * component_size(ct) + t] == #[trigger] le_bytes(cs[k] as nat, component_size(ct))[t],
    decreases cs.len(),
{
    let n = component_size(ct);
    if cs.len() > 0 {
        let m = cs.len() - 1;
        let init = cs.drop_last();
        lemma_pack_components(ct, init);
        lemma_le_bytes_len(cs[m] as nat, n);
        assert(init.len() * n + n == cs.len() * n) by (nonlinear_arith)
            requires
                init.len() + 1 == cs.len(),
        ;
        assert forall|k: int, t: int|
            0 <= k < cs.len() && 0 <= t < n implies pack_components(ct, cs)[k * n + t]
            == #[trigger] le_bytes(cs[k] as nat, n)[t] by {
            if k < m {
                assert(k * n + t < init.len() * n) by (nonlinear_arith)
                    requires
                        k < init.len(),
                        t < n,
                ;
                assert(init[k] == cs[k]);
            } else {
                assert(k * n == init.len() * n);
            }
        }
    }
}

proof fn lemma_pack_elements(ct: ComponentType, d: Dimensions, es: Seq<Seq<u32>>)
    requires
        forall|i: int| 0 <= i < es.len() ==> (#[trigger] es[i]).len() == arity(d),
    ensures
        pack_elements(ct, es).len() == es.len() * element_size(ct, d),
        forall|i: int, k: int, t: int|
            0 <= i < es.len() && 0 <= k < arity(d) && 0 <= t < component_size(ct) ==> pack_elements(
                ct,
                es,
            )[i * element_size(ct, d) + k * component_size(ct) + t] == #[trigger] le_bytes(
                es[i][k] as nat,
                component_size(ct),
            )[t],
    decreases es.len(),
{
    let n = component_size(ct);
    let a = arity(d);
    let e = element_size(ct, d);
    if es.len() > 0 {
        let m = es.len() - 1;
        let init = es.drop_last();
        assert forall|i: int| 0 <= i < init.len() implies (#[trigger] init[i]).len() == arity(d) by {
            assert(init[i] == es[i]);
        }
        lemma_pack_elements(ct, d, init);
        lemma_pack_components(ct, es[m]);
        assert(es[m].len() * n == e) by (nonlinear_arith)
            requires
                es[m].len() == a,
                e == n * a,
        ;
        assert(init.len() * e + e == es.len() * e) by (nonlinear_arith)
            requires
                init.len() + 1 == es.len(),
        ;
        assert forall|i: int, k: int, t: int|
            0 <= i < es.len() && 0 <= k < a && 0 <= t < n implies pack_elements(ct, es)[i * e + k
                * n + t] == #[trigger] le_bytes(es[i][k] as nat, n)[t] by {
            assert(0 <= k * n + t < e) by (nonlinear_arith)
                requires
                    0 <= k < a,
                    0 <= t < n,
                    e == n * a,
            ;
            if i < m {
                assert(i * e + e <= init.len() * e) by (nonlinear_arith)
                    requires
                        i < init.len(),
                        e >= 0,
                ;
                assert(init[i] == es[i]);
            } else {
                assert(i * e == init.len() * e);
            }
        }
    }
}

/// Reading packed elements back: a view without a declared stride, whose
/// buffer holds the tightly packed elements at its offset (whatever comes
/// before or after them), reads exactly those elements.
pub proof fn lemma_dense_round_trip(
    bufs: Seq<Seq<u8>>,
    v: BufferView,
    ct: ComponentType,
    d: Dimensions,
    es: Seq<Seq<u32>>,
)
    requires
        well_shaped(ct, d, es),
        v.byte_stride is None,
        v.buffer < bufs.len(),
        v.byte_offset + pack_elements(ct, es).len() <= bufs[v.buffer as int].len(),
        bufs[v.buffer as int].subrange(
            v.byte_offset as int,
            v.byte_offset + pack_elements(ct, es).len(),
        ) == pack_elements(ct, es),
    ensures
        dense_outcome(bufs, v, ct, d, es.len()) == Ok::<Seq<Seq<u32>>, ConvertError>(es),
{
    let n = component_size(ct);
    let a = arity(d);
    let e = element_size(ct, d);
    let packed = pack_elements(ct, es);
    let bytes = bufs[v.buffer as int];
    let off = v.byte_offset as int;
    lemma_pack_elements(ct, d, es);
    assert(stride_of(v, e) == e);
    if es.len() > 0 {
        assert((es.len() - 1) * e + e == es.len() * e) by (nonlinear_arith);
    }
    let got = dense_elements(bytes, v, ct, d, es.len());
    assert forall|i: int| 0 <= i < es.len() implies #[trigger] got[i] == es[i] by {
        assert forall|k: int| 0 <= k < a implies got[i][k] == es[i][k] by {
            let p = i * e + k * n;
            assert forall|t: int| 0 <= t < n implies #[trigger] byte_at(bytes, off + p, t) == byte_at(
                le_bytes(es[i][k] as nat, n),
                0,
                t,
            ) by {
                assert(0 <= k * n + t < e) by (nonlinear_arith)
                    requires
                        0 <= k < a,
                        0 <= t < n,
                        e == n * a,
                ;
                assert(i * e + e <= es.len() * e) by (nonlinear_arith)
                    requires
                        i < es.len(),
                        e >= 0,
                ;
                assert(packed[i * e + k * n + t] == le_bytes(es[i][k] as nat, n)[t]);
                assert(bufs[v.buffer as int].subrange(off, off + packed.len())[p + t] == bytes[off + p
                    + t]);
            }
            lemma_le_bytes_len(es[i][k] as nat, n);
            lemma_le_uint_frame(bytes, off + p, le_bytes(es[i][k] as nat, n), 0, n);
            lemma_le_bytes_read(es[i][k] as nat, n);
            assert(byte_limit(n) <= 0x1_0000_0000) by {
                reveal_with_fuel(byte_limit, 5);
            }
        }
        assert(got[i] =~= es[i]);
    }
    assert(got =~= es);
}

/// Round trip: for every component type and shape, well-shaped elements
/// packed tightly into a buffer (at any offset, with any bytes around them)
/// and decoded through an accessor over them come back exactly. Floats are
/// carried as bit patterns, so they come back bit for bit.
pub proof fn lemma_round_trip(acc: Accessor, bufs: Seq<Seq<u8>>, es: Seq<Seq<u32>>)
    requires
        well_shaped(acc.component_type, acc.dimensions, es),
        acc.count == es.len(),
        acc.sparse is None,
        acc.view is Some,
        acc.view->Some_0.byte_stride is None,
        acc.view->Some_0.buffer < bufs.len(),
        acc.view->Some_0.byte_offset + pack_elements(acc.component_type, es).len()
            <= bufs[acc.view->Some_0.buffer as int].len(),
        bufs[acc.view->Some_0.buffer as int].subrange(
            acc.view->Some_0.byte_offset as int,
            acc.view->Some_0.byte_offset + pack_elements(acc.component_type, es).len(),
        ) == pack_elements(acc.component_type, es),
    ensures
        decode_outcome(acc, bufs) == Ok::<Seq<Seq<u32>>, ConvertError>(es),
{
    lemma_dense_round_trip(bufs, acc.view->Some_0, acc.component_type, acc.dimensions, es);
}

/// Gaps are ignored: decoding a strided accessor reads only the bytes of its
/// elements, so two buffer sets of the same lengths that agree on those bytes
/// decode alike, whatever lies between the elements.
pub proof fn lemma_gap_bytes_ignored(acc: Accessor, b1: Seq<Seq<u8>>, b2: Seq<Seq<u8>>)
    requires
        acc.view is Some,
        acc.sparse is None,
        b1.len() == b2.len(),
        acc.view->Some_0.buffer < b1.len() ==> b1[acc.view->Some_0.buffer as int].len()
            == b2[acc.view->Some_0.buffer as int].len(),
        forall|i: int, t: int|
            0 <= i < acc.count && 0 <= t < element_size(acc.component_type, acc.dimensions)
                ==> #[trigger] byte_at(
                b1[acc.view->Some_0.buffer as int],
                element_start(acc.view->Some_0, element_size(acc.component_type, acc.dimensions), i),
                t,
            ) == byte_at(
                b2[acc.view->Some_0.buffer as int],
                element_start(acc.view->Some_0, element_size(acc.component_type, acc.dimensions), i),
                t,
            ),
    ensures
        decode_outcome(acc, b1) == decode_outcome(acc, b2),
{
    let v = acc.view->Some_0;
    let ct = acc.component_type;
    let d = acc.dimensions;
    let n = component_size(ct);
    let e = element_size(ct, d);
    let s = stride_of(v, e);
    if v.buffer < b1.len() {
        let g1 = dense_elements(b1[v.buffer as int], v, ct, d, acc.count as nat);
        let g2 = dense_elements(b2[v.buffer as int], v, ct, d, acc.count as nat);
        assert forall|i: int| 0 <= i < acc.count implies #[trigger] g1[i] == g2[i] by {
            assert forall|k: int| 0 <= k < arity(d) implies g1[i][k] == g2[i][k] by {
                let p = v.byte_offset + i * s + k * n;
                assert forall|t: int| 0 <= t < n implies #[trigger] byte_at(b1[v.buffer as int], p, t)
                    == byte_at(b2[v.buffer as int], p, t) by {
                    assert(0 <= k * n + t < e) by (nonlinear_arith)
                        requires
                            0 <= k < arity(d),
                            0 <= t < n,
                            e == n * arity(d),
                    ;
                    let w = k * n + t;
                    assert(byte_at(b1[v.buffer as int], element_start(v, e, i), w) == byte_at(
                        b2[v.buffer as int],
                        element_start(v, e, i),
                        w,
                    ));
                }
                lemma_le_uint_frame(b1[v.buffer as int], p, b2[v.buffer as int], p, n);
            }
            assert(g1[i] =~= g2[i]);
        }
        assert(g1 =~= g2);
    }
}

} // verus!
