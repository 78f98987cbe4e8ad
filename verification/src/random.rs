//! Random integers.

use vstd::arithmetic::power::*;
use vstd::prelude::*;
use crate::value::{OwnedValue, ValueView};

verus! {

/// The error type of the system's source of random bytes.
#[verifier::external_type_specification]
#[verifier::external_body]
pub struct ExRandomError(getrandom::Error);

/// The system has no random bytes to give.
#[derive(Clone, Copy, Debug, PartialEq, Eq, Structural)]
pub struct RandomUnavailable;

/// Eight bytes from `getrandom::getrandom`, or the error that it returns. Nothing is claimed of
/// either: they are chance and the system's.
#[verifier::external_body]
fn random_bytes() -> (bytes: Result<[u8; 8], getrandom::Error>) {
    let mut buf = [0u8; 8];
    getrandom::getrandom(&mut buf)?;
    Ok(buf)
}

/// The number that bytes stand for, the lowest first.
pub open spec fn unsigned_value(bytes: Seq<u8>) -> int
    decreases bytes.len(),
{
    if bytes.len() == 0 {
        0
    } else {
        bytes[0] + 256 * unsigned_value(bytes.drop_first())
    }
}

/// The number that eight bytes stand for in two's complement, the lowest first.
pub open spec fn signed_value(bytes: Seq<u8>) -> int {
    let n = unsigned_value(bytes);
    if n > i64::MAX {
        n - 0x1_0000_0000_0000_0000
    } else {
        n
    }
}

/// `i64::from_ne_bytes`: the integer that bytes stand for on this machine, in two's complement.
/// Which byte is the lowest is the machine's choice: the first or the last.
#[verifier::external_body]
fn native_integer(bytes: [u8; 8]) -> (i: i64)
    ensures
        i == signed_value(bytes@) || i == signed_value(bytes@.reverse()),
{
    i64::from_ne_bytes(bytes)
}

/// The integer that eight random bytes stand for on this machine.
pub fn random_integer(bytes: [u8; 8]) -> (v: OwnedValue)
    ensures
        v@ matches ValueView::Integer(i) && (i == signed_value(bytes@) || i == signed_value(
            bytes@.reverse(),
        )),
{
    OwnedValue::Integer(native_integer(bytes))
}

/// What the system's answer stands for: the integer that its bytes stand for, or the lack of an
/// integer where it gave no bytes.
pub fn random_value(bytes: Result<[u8; 8], getrandom::Error>) -> (v: Result<
    OwnedValue,
    RandomUnavailable,
>)
    ensures
        match bytes {
            Ok(b) => v matches Ok(x) && (x@ matches ValueView::Integer(i) && (i == signed_value(b@)
                || i == signed_value(b@.reverse()))),
            Err(_) => v == Err::<OwnedValue, RandomUnavailable>(RandomUnavailable),
        },
{
    match bytes {
        Ok(b) => Ok(random_integer(b)),
        Err(_) => Err(RandomUnavailable),
    }
}

/// The integer in the outcome of drawing one, where there is one.
pub fn drawn_integer(outcome: Result<OwnedValue, RandomUnavailable>) -> (draw: Option<i64>)
    ensures
        draw == match outcome {
            Ok(v) => match v@ {
                ValueView::Integer(i) => Some(i),
                _ => None,
            },
            Err(_) => None,
        },
{
    match outcome {
        Ok(OwnedValue::Integer(i)) => Some(i),
        _ => None,
    }
}

/// A random integer. Whether the system has bytes to give, and which, is not known beforehand;
/// `random_value` says what is returned for each of its answers.
pub fn exec_random() -> (v: Result<OwnedValue, RandomUnavailable>)
    ensures
        v matches Ok(x) ==> x@ is Integer,
{
    random_value(random_bytes())
}

/// The number that bytes stand for, the lowest first: without bytes it is zero, and a further byte
/// counts for as many times itself as the bytes before it have values.
pub proof fn law_unsigned_value(bytes: Seq<u8>, last: u8)
    ensures
        unsigned_value(Seq::empty()) == 0,
        unsigned_value(bytes.push(last)) == unsigned_value(bytes) + last * pow(256, bytes.len()),
        0 <= unsigned_value(bytes) < pow(256, bytes.len()),
    decreases bytes.len(),
{
    let more = bytes.push(last);
    if bytes.len() == 0 {
        lemma_pow0(256);
        assert(more.drop_first() =~= Seq::empty());
        assert(unsigned_value(more.drop_first()) == 0);
        assert(last * 1 == last);
    } else {
        let rest = bytes.drop_first();
        assert(more.drop_first() =~= rest.push(last));
        law_unsigned_value(rest, last);
        let p = pow(256, rest.len());
        reveal(pow);
        assert(pow(256, bytes.len()) == 256 * p);
        assert(last * (256 * p) == 256 * (last * p)) by (nonlinear_arith);
    }
}

/// The number that eight bytes stand for in two's complement is that without a sign, or less than
/// it by as many as eight bytes have values, so that it is a 64-bit integer.
pub proof fn law_signed_value(bytes: Seq<u8>)
    requires
        bytes.len() == 8,
    ensures
        i64::MIN <= signed_value(bytes) <= i64::MAX,
        signed_value(bytes) == unsigned_value(bytes) || signed_value(bytes) == unsigned_value(bytes)
            - 0x1_0000_0000_0000_0000,
{
    law_unsigned_value(bytes, 0);
    reveal_with_fuel(pow, 9);
    assert(pow(256, 8) == 0x1_0000_0000_0000_0000);
}

} // verus!
