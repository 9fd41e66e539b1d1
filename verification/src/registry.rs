//! Derivation of diagnostic codes: the pure half of the code registry.
//!
//! A diagnostic code is `E` followed by the decimal digits of a fixed,
//! deterministic hash of the message text, so the same message yields the
//! same code in every run. Distinct messages may in rare cases collide on
//! one code; that is an accepted limitation of the format, not corrected
//! here. Durable recording of the code-to-message mapping is planned by
//! [`crate::persist`].
use vstd::prelude::*;

use std::collections::hash_map::DefaultHasher;
use std::hash::Hasher;
use vstd::std_specs::hash::DefaultHasherAdditionalSpecFns;
use vstd::string::StringExecFns;

verus! {

/// The hash a message's text is condensed to: the standard hasher, fed the
/// UTF-8 bytes of the message and then the single byte `0xff`, exactly as
/// hashing the text through the standard library's string hashing would.
pub closed spec fn message_hash(m: Seq<char>) -> u64 {
    DefaultHasher::spec_finish(seq![vstd::utf8::encode_utf8(m), seq![0xffu8]])
}

/// The decimal digit `d` as a character, for `d < 10`.
pub open spec fn dec_digit_char(d: nat) -> char {
    if d == 0 {
        '0'
    } else if d == 1 {
        '1'
    } else if d == 2 {
        '2'
    } else if d == 3 {
        '3'
    } else if d == 4 {
        '4'
    } else if d == 5 {
        '5'
    } else if d == 6 {
        '6'
    } else if d == 7 {
        '7'
    } else if d == 8 {
        '8'
    } else {
        '9'
    }
}

/// The decimal digits of `n`, most significant first, with no leading zero
/// except for `n == 0` itself.
pub open spec fn dec_str(n: nat) -> Seq<char>
    decreases n,
{
    if n < 10 {
        seq![dec_digit_char(n)]
    } else {
        dec_str(n / 10) + seq![dec_digit_char(n % 10)]
    }
}

/// The diagnostic code derived from message text `m`: the letter `E`
/// followed by the decimal digits of the message's hash.
pub open spec fn code_of(m: Seq<char>) -> Seq<char> {
    seq!['E'] + dec_str(message_hash(m) as nat)
}

/// The digit `d` as a one-character string, for `d < 10`.
fn digit_str(d: u64) -> (r: &'static str)
    requires
        d < 10,
    ensures
        r@ == seq![dec_digit_char(d as nat)],
{
    if d == 0 {
        proof {
            reveal_strlit("0");
            assert("0"@ =~= seq![dec_digit_char(d as nat)]);
        }
        "0"
    } else if d == 1 {
        proof {
            reveal_strlit("1");
            assert("1"@ =~= seq![dec_digit_char(d as nat)]);
        }
        "1"
    } else if d == 2 {
        proof {
            reveal_strlit("2");
            assert("2"@ =~= seq![dec_digit_char(d as nat)]);
        }
        "2"
    } else if d == 3 {
        proof {
            reveal_strlit("3");
            assert("3"@ =~= seq![dec_digit_char(d as nat)]);
        }
        "3"
    } else if d == 4 {
        proof {
            reveal_strlit("4");
            assert("4"@ =~= seq![dec_digit_char(d as nat)]);
        }
        "4"
    } else if d == 5 {
        proof {
            reveal_strlit("5");
            assert("5"@ =~= seq![dec_digit_char(d as nat)]);
        }
        "5"
    } else if d == 6 {
        proof {
            reveal_strlit("6");
            assert("6"@ =~= seq![dec_digit_char(d as nat)]);
        }
        "6"
    } else if d == 7 {
        proof {
            reveal_strlit("7");
            assert("7"@ =~= seq![dec_digit_char(d as nat)]);
        }
        "7"
    } else if d == 8 {
        proof {
            reveal_strlit("8");
            assert("8"@ =~= seq![dec_digit_char(d as nat)]);
        }
        "8"
    } else {
        proof {
            reveal_strlit("9");
            assert("9"@ =~= seq![dec_digit_char(d as nat)]);
        }
        "9"
    }
}

/// Writes `n` in decimal.
fn u64_to_dec(n: u64) -> (r: String)
    ensures
        r@ == dec_str(n as nat),
    decreases n,
{
    if n < 10 {
        digit_str(n).to_owned()
    } else {
        let mut s = u64_to_dec(n / 10);
        s.append(digit_str(n % 10));
        s
    }
}

/// Derives the diagnostic code for `message`.
///
/// The code is a pure function of the message text: calling this for the
/// same text, in the same run or across runs, always yields the same code.
pub fn register(message: &str) -> (code: String)
    ensures
        code@ == code_of(message@),
{
    let mut h = DefaultHasher::new();
    h.write(message.as_bytes());
    let mut tail: Vec<u8> = Vec::new();
    tail.push(0xff);
    h.write(tail.as_slice());
    proof {
        assert(tail@ =~= seq![0xffu8]);
        assert(h@ =~= seq![vstd::utf8::encode_utf8(message@), seq![0xffu8]]);
    }
    let n = h.finish();
    let mut code = "E".to_owned();
    proof {
        reveal_strlit("E");
        assert(code@ =~= seq!['E']);
    }
    let digits = u64_to_dec(n);
    code.append(digits.as_str());
    code
}

/// The derivation is deterministic: one message text, one code.
pub proof fn lemma_code_deterministic(m1: Seq<char>, m2: Seq<char>)
    requires
        m1 == m2,
    ensures
        code_of(m1) == code_of(m2),
{
}

} // verus!
