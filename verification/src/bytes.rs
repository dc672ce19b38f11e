//! Octet-level building blocks: numbers in network order and zero padding.

use vstd::prelude::*;

verus! {

/// The number that `octets` spell in network order, the first octet being the most significant.
pub open spec fn be_value(octets: Seq<u8>) -> nat
    decreases octets.len(),
{
    if octets.len() == 0 {
        0
    } else {
        be_value(octets.drop_last()) * 256 + octets.last() as nat
    }
}

/// The `count` low-order octets of `value` in network order.
pub open spec fn be_octets(value: nat, count: nat) -> Seq<u8>
    decreases count,
{
    if count == 0 {
        Seq::empty()
    } else {
        be_octets(value / 256, (count - 1) as nat).push((value % 256) as u8)
    }
}

/// The number of values that `count` octets can spell: 256 to the power `count`.
pub open spec fn octet_span(count: nat) -> nat
    decreases count,
{
    if count == 0 {
        1
    } else {
        256 * octet_span((count - 1) as nat)
    }
}

/// A run of `count` zero octets.
pub open spec fn zeros(count: nat) -> Seq<u8> {
    Seq::new(count, |i: int| 0u8)
}

/// `bytes` without the zero octets at its end.
pub open spec fn trim_zeros(bytes: Seq<u8>) -> Seq<u8>
    decreases bytes.len(),
{
    if bytes.len() > 0 && bytes.last() == 0 {
        trim_zeros(bytes.drop_last())
    } else {
        bytes
    }
}

/// Whether `bytes` ends in an octet other than zero, or is empty: trimming leaves it as it is.
pub open spec fn is_trimmed(bytes: Seq<u8>) -> bool {
    bytes.len() == 0 || bytes.last() != 0
}

/// More octets span more values.
pub proof fn lemma_octet_span_grows(small: nat, large: nat)
    requires
        small <= large,
    ensures
        0 < octet_span(small) <= octet_span(large),
    decreases large,
{
    if large == 0 {
    } else if small == large {
        lemma_octet_span_grows(0, (large - 1) as nat);
    } else {
        lemma_octet_span_grows(small, (large - 1) as nat);
    }
}

/// A number is split into as many octets as are asked for.
pub proof fn lemma_be_octets_len(value: nat, count: nat)
    ensures
        be_octets(value, count).len() == count,
    decreases count,
{
    if count > 0 {
        lemma_be_octets_len(value / 256, (count - 1) as nat);
    }
}

/// Octets spell a number below the span of their count.
pub proof fn lemma_be_value_bound(octets: Seq<u8>)
    ensures
        be_value(octets) < octet_span(octets.len()),
    decreases octets.len(),
{
    if octets.len() > 0 {
        lemma_be_value_bound(octets.drop_last());
    }
}

/// Splitting a number into enough octets and reading them back gives the number.
pub proof fn lemma_be_value_of_octets(value: nat, count: nat)
    requires
        value < octet_span(count),
    ensures
        be_value(be_octets(value, count)) == value,
    decreases count,
{
    if count > 0 {
        let high = be_octets(value / 256, (count - 1) as nat);
        lemma_be_value_of_octets(value / 256, (count - 1) as nat);
        assert(be_octets(value, count).drop_last() =~= high);
    }
}

/// Zero padding behind `bytes` is trimmed away with the zeros that `bytes` itself ends in.
pub proof fn lemma_trim_zeros_of_padded(bytes: Seq<u8>, count: nat)
    ensures
        trim_zeros(bytes + zeros(count)) == trim_zeros(bytes),
    decreases count,
{
    if count == 0 {
        assert(bytes + zeros(0) =~= bytes);
    } else {
        let padded = bytes + zeros(count);
        assert(padded.drop_last() =~= bytes + zeros((count - 1) as nat));
        lemma_trim_zeros_of_padded(bytes, (count - 1) as nat);
    }
}

/// The `count` low-order octets of `value`, most significant first.
pub fn to_be_octets(value: u128, count: usize) -> (octets: Vec<u8>)
    ensures
        octets@ == be_octets(value as nat, count as nat),
    decreases count,
{
    if count == 0 {
        Vec::new()
    } else {
        let mut octets = to_be_octets(value / 256, count - 1);
        octets.push((value % 256) as u8);
        octets
    }
}

/// The number that at most sixteen octets spell, most significant first.
pub fn from_be_octets(octets: &[u8]) -> (value: u128)
    requires
        octets@.len() <= 16,
    ensures
        value == be_value(octets@),
{
    let mut value: u128 = 0;
    let mut i: usize = 0;
    while i < octets.len()
        invariant
            i <= octets@.len() <= 16,
            value == be_value(octets@.subrange(0, i as int)),
        decreases octets@.len() - i,
    {
        proof {
            let read = octets@.subrange(0, i as int);
            lemma_be_value_bound(read);
            lemma_octet_span_grows(i as nat, 15);
            reveal_with_fuel(octet_span, 17);
            assert(octet_span(16) == 0x1_0000_0000_0000_0000_0000_0000_0000_0000);
            assert(octets@.subrange(0, i + 1).drop_last() =~= read);
        }
        value = value * 256 + octets[i] as u128;
        i += 1;
    }
    proof {
        assert(octets@.subrange(0, i as int) =~= octets@);
    }
    value
}

/// The length of `bytes` without the zero octets at its end.
pub fn trimmed_len(bytes: &[u8]) -> (len: usize)
    ensures
        len <= bytes@.len(),
        bytes@.subrange(0, len as int) == trim_zeros(bytes@),
{
    let mut len: usize = bytes.len();
    proof {
        assert(bytes@.subrange(0, len as int) =~= bytes@);
    }
    while len > 0 && bytes[len - 1] == 0
        invariant
            len <= bytes@.len(),
            trim_zeros(bytes@.subrange(0, len as int)) == trim_zeros(bytes@),
        decreases len,
    {
        proof {
            assert(bytes@.subrange(0, len as int).drop_last() =~= bytes@.subrange(0, len - 1));
        }
        len -= 1;
    }
    len
}

/// Adds `source` to the end of `bytes`.
pub fn append_bytes(bytes: &mut Vec<u8>, source: &[u8])
    ensures
        final(bytes)@ == old(bytes)@ + source@,
{
    let mut i: usize = 0;
    while i < source.len()
        invariant
            i <= source@.len(),
            bytes@ == old(bytes)@ + source@.subrange(0, i as int),
        decreases source@.len() - i,
    {
        bytes.push(source[i]);
        i += 1;
        proof {
            assert(bytes@ =~= old(bytes)@ + source@.subrange(0, i as int));
        }
    }
    proof {
        assert(source@.subrange(0, i as int) =~= source@);
    }
}

} // verus!
