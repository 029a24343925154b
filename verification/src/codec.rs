//! Framing of the response payloads the handlers produce: the JSON text of a
//! device state, the `{"isOnline":...}` object, and the plain decimal count.
//! Each payload is pinned byte for byte by its spec function.

use vstd::prelude::*;
use vstd::string::StringSliceAdditionalSpecFns;

use crate::keymap::append_bytes;
use crate::light::LightState;

verus! {

/// Decimal digits of `n`, most significant first, as ASCII bytes
/// (48 is the code of the digit `0`).
pub open spec fn dec_digits(n: nat) -> Seq<u8>
    decreases n,
{
    if n < 10 {
        seq![(48 + n) as u8]
    } else {
        dec_digits(n / 10).push((48 + n % 10) as u8)
    }
}

/// Decimal text of a signed value: a leading minus sign (ASCII 45) for a
/// negative one.
pub open spec fn dec_signed(v: int) -> Seq<u8> {
    if v < 0 {
        seq![45u8] + dec_digits((-v) as nat)
    } else {
        dec_digits(v as nat)
    }
}

/// The JSON text of a boolean.
pub open spec fn bool_json(b: bool) -> Seq<u8> {
    if b {
        "true".spec_bytes()
    } else {
        "false".spec_bytes()
    }
}

/// The JSON text of a device state, fields in declaration order, no spaces.
pub open spec fn light_json(s: LightState) -> Seq<u8> {
    "{\"is_on\":".spec_bytes() + bool_json(s.is_on) + ",\"brightness\":".spec_bytes()
        + dec_signed(s.brightness as int) + ",\"color\":".spec_bytes() + dec_signed(
        s.color as int,
    ) + ",\"removed\":".spec_bytes() + bool_json(s.removed) + "}".spec_bytes()
}

/// The JSON text of an "is online" answer.
pub open spec fn is_online_json(online: bool) -> Seq<u8> {
    "{\"isOnline\":".spec_bytes() + bool_json(online) + "}".spec_bytes()
}

/// Decimal text of an unsigned count.
pub fn format_count(n: usize) -> (r: Vec<u8>)
    ensures
        r@ == dec_digits(n as nat),
    decreases n,
{
    if n < 10 {
        let mut v: Vec<u8> = Vec::new();
        v.push(48 + n as u8);
        proof {
            assert(v@ =~= dec_digits(n as nat));
        }
        v
    } else {
        proof {
            assert(n / 10 < n) by (nonlinear_arith)
                requires
                    n >= 10,
            ;
        }
        let mut v = format_count(n / 10);
        v.push(48 + (n % 10) as u8);
        proof {
            assert((n as nat) / 10 == (n / 10) as nat);
            assert((n as nat) % 10 == (n % 10) as nat);
            assert(v@ =~= dec_digits(n as nat));
        }
        v
    }
}

/// Decimal text of a signed 32-bit value.
pub fn format_signed(v: i32) -> (r: Vec<u8>)
    ensures
        r@ == dec_signed(v as int),
{
    if v >= 0 {
        let r = format_count(v as usize);
        proof {
            assert(v as usize as nat == (v as int) as nat);
        }
        r
    } else {
        let mag: u64 = (-(v as i64)) as u64;
        let mut out: Vec<u8> = Vec::new();
        out.push(45);
        let digits = format_count(mag as usize);
        append_bytes(&mut out, digits.as_slice());
        proof {
            assert(mag as nat == (-(v as int)) as nat);
            assert(out@ =~= dec_signed(v as int));
        }
        out
    }
}

/// Append the JSON text of a boolean.
fn append_bool(out: &mut Vec<u8>, b: bool)
    ensures
        final(out)@ == old(out)@ + bool_json(b),
{
    if b {
        append_bytes(out, "true".as_bytes());
    } else {
        append_bytes(out, "false".as_bytes());
    }
}

/// The serialized form of a device state, as the GET handler returns it.
pub fn encode_light_state(s: &LightState) -> (r: Vec<u8>)
    ensures
        r@ == light_json(*s),
{
    let mut out: Vec<u8> = Vec::new();
    append_bytes(&mut out, "{\"is_on\":".as_bytes());
    append_bool(&mut out, s.is_on);
    append_bytes(&mut out, ",\"brightness\":".as_bytes());
    let brightness = format_signed(s.brightness);
    append_bytes(&mut out, brightness.as_slice());
    append_bytes(&mut out, ",\"color\":".as_bytes());
    let color = format_signed(s.color);
    append_bytes(&mut out, color.as_slice());
    append_bytes(&mut out, ",\"removed\":".as_bytes());
    append_bool(&mut out, s.removed);
    append_bytes(&mut out, "}".as_bytes());
    proof {
        assert(out@ =~= light_json(*s));
    }
    out
}

/// The serialized form of an "is online" answer.
pub fn encode_is_online(online: bool) -> (r: Vec<u8>)
    ensures
        r@ == is_online_json(online),
{
    let mut out: Vec<u8> = Vec::new();
    append_bytes(&mut out, "{\"isOnline\":".as_bytes());
    append_bool(&mut out, online);
    append_bytes(&mut out, "}".as_bytes());
    proof {
        assert(out@ =~= is_online_json(online));
    }
    out
}

} // verus!
