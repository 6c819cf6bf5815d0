use vstd::prelude::*;

use vstd::arithmetic::div_mod::lemma_div_decreases;

verus! {

/// The ASCII decimal digits of `n`, most significant first.
pub open spec fn spec_decimal(n: nat) -> Seq<u8>
    decreases n,
{
    if n < 10 {
        seq![(48 + n) as u8]
    } else {
        spec_decimal(n / 10).push((48 + n % 10) as u8)
    }
}

/// The ASCII name of the node for device `index` among `count` devices: the
/// base name `vdev` followed by the index, except that a single-device
/// configuration keeps the bare base name for compatibility.
pub open spec fn spec_device_name(index: nat, count: nat) -> Seq<u8> {
    if count == 1 {
        seq![118u8, 100u8, 101u8, 118u8]
    } else {
        seq![118u8, 100u8, 101u8, 118u8] + spec_decimal(index)
    }
}

/// Appends the decimal digits of `n` to `out`.
fn push_decimal(n: usize, out: &mut Vec<u8>)
    ensures
        final(out)@ == old(out)@ + spec_decimal(n as nat),
    decreases n,
{
    if n >= 10 {
        proof {
            lemma_div_decreases(n as int, 10);
        }
        push_decimal(n / 10, out);
    }
    out.push(48 + (n % 10) as u8);
    proof {
        assert(out@ =~= old(out)@ + spec_decimal(n as nat));
    }
}

/// The node name for device `index` among `count` devices, as ASCII bytes.
pub fn device_name(index: usize, count: usize) -> (name: Vec<u8>)
    ensures
        name@ == spec_device_name(index as nat, count as nat),
{
    let mut name: Vec<u8> = Vec::new();
    name.push(118);
    name.push(100);
    name.push(101);
    name.push(118);
    if count == 1 {
        proof {
            assert(name@ =~= spec_device_name(index as nat, count as nat));
        }
        name
    } else {
        push_decimal(index, &mut name);
        proof {
            assert(name@ =~= spec_device_name(index as nat, count as nat));
        }
        name
    }
}

} // verus!
