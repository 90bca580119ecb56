use vstd::prelude::*;

verus! {

/// `value` in decimal digits, without leading zeros.
pub open spec fn decimal(value: nat) -> Seq<u8>
    decreases value,
{
    if value < 10 {
        seq![(48 + value) as u8]
    } else {
        decimal(value / 10).push((48 + value % 10) as u8)
    }
}

/// `value` in decimal digits, with a minus sign in front where it is
/// negative.
pub open spec fn signed_decimal(value: int) -> Seq<u8> {
    if value < 0 {
        seq!['-' as u8] + decimal((-value) as nat)
    } else {
        decimal(value as nat)
    }
}

/// Appends `bytes` to `out`.
pub(crate) fn push_bytes(out: &mut Vec<u8>, bytes: &[u8])
    ensures
        final(out)@ == old(out)@ + bytes@,
{
    let mut i: usize = 0;
    assert(out@ =~= old(out)@ + bytes@.subrange(0, 0));
    while i < bytes.len()
        invariant
            i <= bytes.len(),
            out@ == old(out)@ + bytes@.subrange(0, i as int),
        decreases bytes.len() - i,
    {
        out.push(bytes[i]);
        i = i + 1;
        assert(out@ =~= old(out)@ + bytes@.subrange(0, i as int));
    }
    assert(bytes@.subrange(0, bytes@.len() as int) =~= bytes@);
}

/// Appends `value` in decimal digits to `out`.
pub(crate) fn push_decimal(out: &mut Vec<u8>, value: u64)
    ensures
        final(out)@ == old(out)@ + decimal(value as nat),
    decreases value,
{
    if value >= 10 {
        push_decimal(out, value / 10);
    }
    out.push(48 + (value % 10) as u8);
    assert(out@ =~= old(out)@ + decimal(value as nat));
}

/// Appends `value` in decimal digits, with its sign, to `out`.
pub(crate) fn push_signed_decimal(out: &mut Vec<u8>, value: i64)
    ensures
        final(out)@ == old(out)@ + signed_decimal(value as int),
{
    if value < 0 {
        out.push('-' as u8);
        let magnitude: u64 = if value == i64::MIN {
            0x8000_0000_0000_0000u64
        } else {
            (-value) as u64
        };
        push_decimal(out, magnitude);
        assert(out@ =~= old(out)@ + signed_decimal(value as int));
    } else {
        push_decimal(out, value as u64);
    }
}

/// The text of `value` in decimal digits.
pub fn decimal_text(value: i64) -> (r: Vec<u8>)
    ensures
        r@ == signed_decimal(value as int),
{
    let mut out: Vec<u8> = Vec::new();
    push_signed_decimal(&mut out, value);
    assert(out@ =~= signed_decimal(value as int));
    out
}

} // verus!
