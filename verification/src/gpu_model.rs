//! Layout helpers of the GPU backend: workgroup counts and the byte form of
//! the parameters handed to the compute shaders.

use vstd::prelude::*;

verus! {

/// `v / d` rounded up.
pub open spec fn spec_ceil_div(v: u32, d: u32) -> int {
    (v / d) as int + if v % d == 0 {
        0int
    } else {
        1int
    }
}

/// The little-endian bytes of `v`.
pub open spec fn le_bytes(v: u32) -> Seq<u8> {
    seq![
        (v % 256) as u8,
        ((v / 256) % 256) as u8,
        ((v / 65536) % 256) as u8,
        (v / 16777216) as u8,
    ]
}

/// The big-endian bytes of `v`.
pub open spec fn be_bytes(v: u32) -> Seq<u8> {
    seq![
        (v / 16777216) as u8,
        ((v / 65536) % 256) as u8,
        ((v / 256) % 256) as u8,
        (v % 256) as u8,
    ]
}

/// `bytes` is the memory form of `v` in one of the two byte orders a
/// machine may have.
pub open spec fn is_native_form(v: u32, bytes: Seq<u8>) -> bool {
    bytes == le_bytes(v) || bytes == be_bytes(v)
}

/// The number of workgroups of size `d` that cover `v` items.
pub fn ceil_div(v: u32, d: u32) -> (n: u32)
    requires
        d > 0,
    ensures
        n == spec_ceil_div(v, d),
{
    if v % d == 0 {
        v / d
    } else {
        assert(v / d < u32::MAX) by (nonlinear_arith)
            requires
                d > 0,
                v % d != 0,
        ;
        v / d + 1
    }
}

/// `v` in one byte order: little-endian when `little`, big-endian otherwise.
pub open spec fn bytes_in_order(v: u32, little: bool) -> Seq<u8> {
    if little {
        le_bytes(v)
    } else {
        be_bytes(v)
    }
}

/// `u32::to_ne_bytes`: the memory form of `v` in the machine's byte order,
/// which is little- or big-endian depending on the machine.
#[verifier::external_body]
fn native_bytes(v: u32) -> (bytes: [u8; 4])
    ensures
        is_native_form(v, bytes@),
{
    v.to_ne_bytes()
}

/// `little` is the byte order in which the machine's `u32::to_ne_bytes`
/// lays out the value 1.
pub closed spec fn machine_order(little: bool) -> bool {
    exists|bytes: [u8; 4]|
        call_ensures(native_bytes, (1u32,), bytes) && bytes@ == bytes_in_order(1, little)
}

/// Whether the machine stores integers little-endian, read off the memory
/// form of 1.
fn machine_is_little_endian() -> (little: bool)
    ensures
        machine_order(little),
{
    let probe = native_bytes(1);
    proof {
        assert(le_bytes(1) =~= seq![1u8, 0u8, 0u8, 0u8]);
        assert(be_bytes(1) =~= seq![0u8, 0u8, 0u8, 1u8]);
    }
    let little = probe[0] == 1;
    proof {
        assert(probe@ == bytes_in_order(1, little));
        assert(call_ensures(native_bytes, (1u32,), probe));
    }
    little
}

/// The number that four bytes stand for in the given byte order.
pub open spec fn value_in_order(bytes: Seq<u8>, little: bool) -> int {
    if little {
        bytes[0] + 256 * bytes[1] + 65536 * bytes[2] + 16777216 * bytes[3]
    } else {
        bytes[3] + 256 * bytes[2] + 65536 * bytes[1] + 16777216 * bytes[0]
    }
}

/// Reading four bytes back in the order they were written gives the value
/// that was written.
pub proof fn lemma_bytes_read_back(v: u32, little: bool)
    ensures
        bytes_in_order(v, little).len() == 4,
        value_in_order(bytes_in_order(v, little), little) == v,
{
}

/// Each value of `values` stands, in order, as four bytes of `out` in one
/// byte order.
pub open spec fn lanes_in_order(out: Seq<u8>, values: Seq<u32>, little: bool) -> bool {
    forall|i: int|
        0 <= i < values.len() ==> #[trigger] out.subrange(4 * i, 4 * i + 4) == bytes_in_order(
            values[i],
            little,
        )
}

/// Reading each lane of a layout back in the machine's order gives the
/// value laid out there.
pub proof fn lemma_lanes_read_back(out: Seq<u8>, values: Seq<u32>, little: bool, i: int)
    requires
        lanes_in_order(out, values, little),
        0 <= i < values.len(),
    ensures
        value_in_order(out.subrange(4 * i, 4 * i + 4), little) == values[i],
{
    assert(out.subrange(4 * i, 4 * i + 4) == bytes_in_order(values[i], little));
    lemma_bytes_read_back(values[i], little);
}

/// The bytes of `v` in the given order.
fn bytes_of(v: u32, little: bool) -> (bytes: [u8; 4])
    ensures
        bytes@ == bytes_in_order(v, little),
{
    let b0 = (v % 256) as u8;
    let b1 = ((v / 256) % 256) as u8;
    let b2 = ((v / 65536) % 256) as u8;
    let b3 = (v / 16777216) as u8;
    let bytes = if little {
        [b0, b1, b2, b3]
    } else {
        [b3, b2, b1, b0]
    };
    proof {
        assert(bytes@ =~= bytes_in_order(v, little));
    }
    bytes
}

/// The 16-byte uniform payload shared by every shader: the four lanes in
/// the machine's byte order, one after another.
pub fn params_bytes(p: [u32; 4]) -> (out: [u8; 16])
    ensures
        exists|little: bool| machine_order(little) && #[trigger] lanes_in_order(out@, p@, little),
{
    let little = machine_is_little_endian();
    let mut out = [0u8; 16];
    let mut i: usize = 0;
    while i < 4
        invariant
            i <= 4,
            forall|k: int|
                0 <= k < i ==> #[trigger] out@.subrange(4 * k, 4 * k + 4) == bytes_in_order(
                    p@[k],
                    little,
                ),
        decreases 4 - i,
    {
        let bytes = bytes_of(p[i], little);
        let ghost before = out@;
        out[4 * i] = bytes[0];
        out[4 * i + 1] = bytes[1];
        out[4 * i + 2] = bytes[2];
        out[4 * i + 3] = bytes[3];
        proof {
            assert(out@.subrange(4 * i as int, 4 * i + 4) =~= bytes@);
            assert forall|k: int| 0 <= k < i implies #[trigger] out@.subrange(4 * k, 4 * k + 4)
                == bytes_in_order(p@[k], little) by {
                assert(out@.subrange(4 * k, 4 * k + 4) =~= before.subrange(4 * k, 4 * k + 4));
            }
        }
        i = i + 1;
    }
    assert(lanes_in_order(out@, p@, little));
    out
}

/// The values in the machine's byte order, four bytes each, one after
/// another.
pub fn u32_bytes(data: &[u32]) -> (out: Vec<u8>)
    requires
        4 * data@.len() <= usize::MAX,
    ensures
        out@.len() == 4 * data@.len(),
        exists|little: bool|
            machine_order(little) && #[trigger] lanes_in_order(out@, data@, little),
{
    let little = machine_is_little_endian();
    let mut out: Vec<u8> = Vec::new();
    let mut i: usize = 0;
    while i < data.len()
        invariant
            i <= data@.len(),
            out@.len() == 4 * i,
            forall|k: int|
                0 <= k < i ==> #[trigger] out@.subrange(4 * k, 4 * k + 4) == bytes_in_order(
                    data@[k],
                    little,
                ),
        decreases data@.len() - i,
    {
        let bytes = bytes_of(data[i], little);
        let ghost before = out@;
        out.push(bytes[0]);
        out.push(bytes[1]);
        out.push(bytes[2]);
        out.push(bytes[3]);
        proof {
            assert(out@.subrange(4 * i as int, 4 * i + 4) =~= bytes@);
            assert forall|k: int| 0 <= k < i implies #[trigger] out@.subrange(4 * k, 4 * k + 4)
                == bytes_in_order(data@[k], little) by {
                assert(out@.subrange(4 * k, 4 * k + 4) =~= before.subrange(4 * k, 4 * k + 4));
            }
        }
        i = i + 1;
    }
    assert(lanes_in_order(out@, data@, little));
    out
}

} // verus!
