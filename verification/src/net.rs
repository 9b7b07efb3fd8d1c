//! The wire-protocol codec. Each message is a compact self-describing
//! record — a tag byte followed by ASCII payload bytes — and travels as one
//! frame: the record plus a single terminating newline byte. No record byte
//! ever equals the newline byte, so frames are unambiguous.

use vstd::prelude::*;
use vstd::arithmetic::div_mod::{lemma_breakdown, lemma_fundamental_div_mod};
use crate::flow::GameFlowError;
use crate::ship::Ship;

verus! {

/// The closed set of wire messages.
#[derive(Clone, Copy, Debug, PartialEq, Eq, Structural)]
pub enum Msg {
    Hello(u64),
    NotFinished,
    Finished,
    DidHit(bool),
    Fire(u8, u8),
    Sunk(Ship),
}

/// A message the protocol may put on the wire: shot coordinates lie on the
/// grid.
pub open spec fn msg_valid(m: Msg) -> bool {
    match m {
        Msg::Fire(x, y) => x < 10 && y < 10,
        _ => true,
    }
}

/// The payload byte that stands for each cell marker in a `Sunk` record.
pub open spec fn marker_code(s: Ship) -> u8 {
    match s {
        Ship::Empty => 48,
        Ship::Miss => 49,
        Ship::Hit => 50,
        Ship::Carrier => 51,
        Ship::Battleship => 52,
        Ship::Cruiser => 53,
        Ship::Submarine => 54,
        Ship::Destroyer => 55,
    }
}

/// The cell marker that each `Sunk` payload byte stands for.
pub open spec fn marker_of(c: u8) -> Ship {
    if c == 48 {
        Ship::Empty
    } else if c == 49 {
        Ship::Miss
    } else if c == 50 {
        Ship::Hit
    } else if c == 51 {
        Ship::Carrier
    } else if c == 52 {
        Ship::Battleship
    } else if c == 53 {
        Ship::Cruiser
    } else if c == 54 {
        Ship::Submarine
    } else {
        Ship::Destroyer
    }
}

/// Sixteen to the power `n`.
pub open spec fn pow16(n: nat) -> nat
    decreases n,
{
    if n == 0 {
        1
    } else {
        16 * pow16((n - 1) as nat)
    }
}

/// The ASCII byte of one hexadecimal digit.
pub open spec fn hex_digit(d: nat) -> u8 {
    if d < 10 {
        (48 + d) as u8
    } else {
        (87 + d) as u8
    }
}

/// A byte that is an ASCII hexadecimal digit (lower case).
pub open spec fn is_hex_digit(c: u8) -> bool {
    (48 <= c <= 57) || (97 <= c <= 102)
}

/// The value of an ASCII hexadecimal digit byte.
pub open spec fn hex_digit_val(c: u8) -> nat {
    if c <= 57 {
        (c - 48) as nat
    } else {
        (c - 87) as nat
    }
}

/// The last `n` hexadecimal digits of `v`, most significant first.
pub open spec fn hex_seq(v: nat, n: nat) -> Seq<u8>
    decreases n,
{
    if n == 0 {
        Seq::empty()
    } else {
        hex_seq(v / 16, (n - 1) as nat).push(hex_digit(v % 16))
    }
}

/// The value that a sequence of hexadecimal digit bytes denotes.
pub open spec fn hex_val(s: Seq<u8>) -> nat
    decreases s.len(),
{
    if s.len() == 0 {
        0
    } else {
        hex_val(s.drop_last()) * 16 + hex_digit_val(s.last())
    }
}

/// Every byte of `s` is a hexadecimal digit.
pub open spec fn all_hex(s: Seq<u8>) -> bool {
    forall|i: int| 0 <= i < s.len() ==> is_hex_digit(#[trigger] s[i])
}

/// The record bytes of a message, without the frame terminator.
pub open spec fn encode_spec(m: Msg) -> Seq<u8> {
    match m {
        Msg::Hello(v) => seq![72u8] + hex_seq(v as nat, 16),
        Msg::NotFinished => seq![78u8],
        Msg::Finished => seq![87u8],
        Msg::DidHit(b) => seq![68u8, if b { 49u8 } else { 48u8 }],
        Msg::Fire(x, y) => seq![70u8, (x + 48) as u8, (y + 48) as u8],
        Msg::Sunk(s) => seq![83u8, marker_code(s)],
    }
}

/// The message that a record denotes, if any.
pub open spec fn decode_spec(b: Seq<u8>) -> Option<Msg> {
    if b.len() == 0 {
        None
    } else if b[0] == 72 {
        if b.len() == 17 && all_hex(b.subrange(1, 17)) {
            Some(Msg::Hello(hex_val(b.subrange(1, 17)) as u64))
        } else {
            None
        }
    } else if b[0] == 78 {
        if b.len() == 1 {
            Some(Msg::NotFinished)
        } else {
            None
        }
    } else if b[0] == 87 {
        if b.len() == 1 {
            Some(Msg::Finished)
        } else {
            None
        }
    } else if b[0] == 68 {
        if b.len() == 2 && (b[1] == 48 || b[1] == 49) {
            Some(Msg::DidHit(b[1] == 49))
        } else {
            None
        }
    } else if b[0] == 70 {
        if b.len() == 3 && 48 <= b[1] <= 57 && 48 <= b[2] <= 57 {
            Some(Msg::Fire((b[1] - 48) as u8, (b[2] - 48) as u8))
        } else {
            None
        }
    } else if b[0] == 83 {
        if b.len() == 2 && 48 <= b[1] <= 55 {
            Some(Msg::Sunk(marker_of(b[1])))
        } else {
            None
        }
    } else {
        None
    }
}

fn hex_digit_exec(d: u8) -> (r: u8)
    requires
        d < 16,
    ensures
        r == hex_digit(d as nat),
{
    if d < 10 {
        48 + d
    } else {
        87 + d
    }
}

fn push_hex(out: &mut Vec<u8>, v: u64, n: u8)
    ensures
        final(out)@ == old(out)@ + hex_seq(v as nat, n as nat),
    decreases n,
{
    if n == 0 {
        proof {
            assert(old(out)@ + hex_seq(v as nat, 0) =~= old(out)@);
        }
    } else {
        push_hex(out, v / 16, n - 1);
        out.push(hex_digit_exec((v % 16) as u8));
        proof {
            assert(out@ =~= old(out)@ + hex_seq(v as nat, n as nat));
        }
    }
}

/// The record bytes of `m`, without the frame terminator.
pub fn encode_msg(m: &Msg) -> (r: Vec<u8>)
    requires
        msg_valid(*m),
    ensures
        r@ == encode_spec(*m),
{
    let mut out: Vec<u8> = Vec::new();
    match m {
        Msg::Hello(v) => {
            out.push(72);
            push_hex(&mut out, *v, 16);
        },
        Msg::NotFinished => {
            out.push(78);
        },
        Msg::Finished => {
            out.push(87);
        },
        Msg::DidHit(b) => {
            out.push(68);
            out.push(if *b { 49 } else { 48 });
        },
        Msg::Fire(x, y) => {
            out.push(70);
            out.push(48 + *x);
            out.push(48 + *y);
        },
        Msg::Sunk(s) => {
            out.push(83);
            out.push(marker_code_exec(*s));
        },
    }
    proof {
        assert(out@ =~= encode_spec(*m));
    }
    out
}

fn marker_code_exec(s: Ship) -> (r: u8)
    ensures
        r == marker_code(s),
{
    match s {
        Ship::Empty => 48,
        Ship::Miss => 49,
        Ship::Hit => 50,
        Ship::Carrier => 51,
        Ship::Battleship => 52,
        Ship::Cruiser => 53,
        Ship::Submarine => 54,
        Ship::Destroyer => 55,
    }
}

/// One whole frame for `m`: the record bytes and the terminating newline.
/// No earlier byte of the frame equals the terminator.
pub fn frame_msg(m: &Msg) -> (r: Vec<u8>)
    requires
        msg_valid(*m),
    ensures
        r@ == encode_spec(*m) + seq![10u8],
        r@.len() >= 1 && r@[r@.len() - 1] == 10,
        forall|i: int| 0 <= i < r@.len() - 1 ==> r@[i] != 10,
{
    let mut out = encode_msg(m);
    out.push(10);
    proof {
        lemma_encode_no_newline(*m);
        assert(out@ =~= encode_spec(*m) + seq![10u8]);
    }
    out
}

/// Decode one record (the bytes of a frame before its terminator).
pub fn decode_msg(b: &Vec<u8>) -> (r: Result<Msg, GameFlowError>)
    ensures
        r == (match decode_spec(b@) {
            Some(m) => Ok::<Msg, GameFlowError>(m),
            None => Err::<Msg, GameFlowError>(GameFlowError::MalformedMessage),
        }),
        r matches Ok(m) ==> msg_valid(m),
{
    let n = b.len();
    if n == 0 {
        return Err(GameFlowError::MalformedMessage);
    }
    let tag = b[0];
    if tag == 72 {
        if n != 17 {
            return Err(GameFlowError::MalformedMessage);
        }
        let mut acc: u64 = 0;
        let mut j: usize = 1;
        while j < 17
            invariant
                b@.len() == 17,
                1 <= j <= 17,
                all_hex(b@.subrange(1, j as int)),
                acc as nat == hex_val(b@.subrange(1, j as int)),
                (acc as nat) < pow16((j - 1) as nat),
            decreases 17 - j,
        {
            let c = b[j];
            if !((48 <= c && c <= 57) || (97 <= c && c <= 102)) {
                proof {
                    assert(!all_hex(b@.subrange(1, 17))) by {
                        if all_hex(b@.subrange(1, 17)) {
                            assert(is_hex_digit(b@.subrange(1, 17)[j - 1]));
                        }
                    }
                }
                return Err(GameFlowError::MalformedMessage);
            }
            let d: u8 = if c <= 57 {
                c - 48
            } else {
                c - 87
            };
            proof {
                lemma_pow16_is_16_exp(16);
                lemma_pow16_increases((j - 1) as nat, 15);
                assert(acc * 16 + d < pow16(j as nat)) by {
                    assert(pow16(j as nat) == 16 * pow16((j - 1) as nat));
                }
                assert(acc * 16 + d <= 0xffff_ffff_ffff_ffff) by {
                    assert(pow16(j as nat) <= pow16(16));
                }
            }
            acc = acc * 16 + (d as u64);
            proof {
                let s1 = b@.subrange(1, j as int);
                let s2 = b@.subrange(1, j + 1);
                assert(s2.drop_last() =~= s1);
                assert(s2.last() == b@[j as int]);
                assert(hex_val(s2) == hex_val(s1) * 16 + hex_digit_val(b@[j as int]));
            }
            j = j + 1;
        }
        return Ok(Msg::Hello(acc));
    }
    if tag == 78 {
        if n == 1 {
            return Ok(Msg::NotFinished);
        }
        return Err(GameFlowError::MalformedMessage);
    }
    if tag == 87 {
        if n == 1 {
            return Ok(Msg::Finished);
        }
        return Err(GameFlowError::MalformedMessage);
    }
    if tag == 68 {
        if n == 2 && (b[1] == 48 || b[1] == 49) {
            return Ok(Msg::DidHit(b[1] == 49));
        }
        return Err(GameFlowError::MalformedMessage);
    }
    if tag == 70 {
        if n == 3 && 48 <= b[1] && b[1] <= 57 && 48 <= b[2] && b[2] <= 57 {
            return Ok(Msg::Fire(b[1] - 48, b[2] - 48));
        }
        return Err(GameFlowError::MalformedMessage);
    }
    if tag == 83 {
        if n == 2 && 48 <= b[1] && b[1] <= 55 {
            let s = marker_of_exec(b[1]);
            return Ok(Msg::Sunk(s));
        }
        return Err(GameFlowError::MalformedMessage);
    }
    Err(GameFlowError::MalformedMessage)
}

fn marker_of_exec(c: u8) -> (r: Ship)
    requires
        48 <= c <= 55,
    ensures
        r == marker_of(c),
{
    if c == 48 {
        Ship::Empty
    } else if c == 49 {
        Ship::Miss
    } else if c == 50 {
        Ship::Hit
    } else if c == 51 {
        Ship::Carrier
    } else if c == 52 {
        Ship::Battleship
    } else if c == 53 {
        Ship::Cruiser
    } else if c == 54 {
        Ship::Submarine
    } else {
        Ship::Destroyer
    }
}

/// `pow16` grows with its exponent.
proof fn lemma_pow16_increases(m: nat, n: nat)
    requires
        m <= n,
    ensures
        pow16(m) <= pow16(n),
    decreases n,
{
    if m < n {
        lemma_pow16_increases(m, (n - 1) as nat);
        lemma_pow16_positive((n - 1) as nat);
    }
}

proof fn lemma_pow16_positive(n: nat)
    ensures
        pow16(n) >= 1,
    decreases n,
{
    if n > 0 {
        lemma_pow16_positive((n - 1) as nat);
    }
}

/// The sixteenth power of sixteen, written out.
proof fn lemma_pow16_is_16_exp(n: nat)
    requires
        n == 16,
    ensures
        pow16(n) == 0x1_0000_0000_0000_0000,
{
    reveal_with_fuel(pow16, 17);
}

/// A hexadecimal rendering has one byte per digit, all of them digits.
pub proof fn lemma_hex_seq_shape(v: nat, n: nat)
    ensures
        hex_seq(v, n).len() == n,
        all_hex(hex_seq(v, n)),
    decreases n,
{
    if n > 0 {
        lemma_hex_seq_shape(v / 16, (n - 1) as nat);
        let s = hex_seq(v, n);
        assert forall|i: int| 0 <= i < s.len() implies is_hex_digit(#[trigger] s[i]) by {
            if i < n - 1 {
                assert(s[i] == hex_seq(v / 16, (n - 1) as nat)[i]);
            } else {
                assert(s[i] == hex_digit(v % 16));
            }
        }
    }
}

/// Reading back a hexadecimal rendering yields the value, up to the range
/// the digit count can hold.
proof fn lemma_hex_round_trip(v: nat, n: nat)
    ensures
        hex_val(hex_seq(v, n)) == v % pow16(n),
    decreases n,
{
    lemma_pow16_positive(n);
    if n == 0 {
        assert(v % 1 == 0) by {
            lemma_fundamental_div_mod(v as int, 1);
        }
    } else {
        let p = pow16((n - 1) as nat);
        lemma_pow16_positive((n - 1) as nat);
        lemma_hex_round_trip(v / 16, (n - 1) as nat);
        let s = hex_seq(v, n);
        assert(s.drop_last() =~= hex_seq(v / 16, (n - 1) as nat));
        assert(s.last() == hex_digit(v % 16));
        assert(hex_digit_val(hex_digit(v % 16)) == v % 16);
        assert(hex_val(s) == ((v / 16) % p) * 16 + v % 16);
        lemma_breakdown(v as int, 16, p as int);
        assert(v % (16 * p) == 16 * ((v / 16) % p) + v % 16);
        assert(pow16(n) == 16 * p);
    }
}

/// No record byte is the frame terminator.
pub proof fn lemma_encode_no_newline(m: Msg)
    requires
        msg_valid(m),
    ensures
        forall|i: int| 0 <= i < encode_spec(m).len() ==> #[trigger] encode_spec(m)[i] != 10,
{
    let e = encode_spec(m);
    match m {
        Msg::Hello(v) => {
            lemma_hex_seq_shape(v as nat, 16);
            assert forall|i: int| 0 <= i < e.len() implies #[trigger] e[i] != 10 by {
                if i > 0 {
                    assert(is_hex_digit(hex_seq(v as nat, 16)[i - 1]));
                }
            }
        },
        _ => {},
    }
}

/// Round trip: decoding the record of any protocol-valid message yields
/// that message back.
pub proof fn lemma_codec_round_trip(m: Msg)
    requires
        msg_valid(m),
    ensures
        decode_spec(encode_spec(m)) == Some(m),
{
    let e = encode_spec(m);
    match m {
        Msg::Hello(v) => {
            lemma_hex_seq_shape(v as nat, 16);
            lemma_hex_round_trip(v as nat, 16);
            lemma_pow16_is_16_exp(16);
            assert(e.subrange(1, 17) =~= hex_seq(v as nat, 16));
            assert((v as nat) % pow16(16) == v as nat) by {
                lemma_fundamental_div_mod(v as int, pow16(16) as int);
                assert(v < pow16(16));
            }
        },
        _ => {},
    }
}

} // verus!
