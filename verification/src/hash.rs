//! SHA-256 hashing of request payloads (used for provider
//! authentication), with the hex rendering done in verified code.

use sha2::Digest;
use vstd::prelude::*;
use vstd::string::StringSliceAdditionalSpecFns;

verus! {

/// The SHA-256 digest of a byte sequence: a function of the bytes alone,
/// computed by the sha2 crate.
pub uninterp spec fn sha256_of(b: Seq<u8>) -> Seq<u8>;

/// Relies on sha2::Sha256 (new/update/finalize): the digest depends on
/// the input bytes alone and is 32 bytes long.
#[verifier::external_body]
fn sha256_digest(input: &[u8]) -> (r: Vec<u8>)
    ensures
        r@ == sha256_of(input@),
        r@.len() == 32,
{
    let mut h = sha2::Sha256::new();
    h.update(input);
    h.finalize().as_slice().to_vec()
}

/// The lowercase hex digit for a value below sixteen.
pub open spec fn hex_digit(n: int) -> char {
    if n == 0 {
        '0'
    } else if n == 1 {
        '1'
    } else if n == 2 {
        '2'
    } else if n == 3 {
        '3'
    } else if n == 4 {
        '4'
    } else if n == 5 {
        '5'
    } else if n == 6 {
        '6'
    } else if n == 7 {
        '7'
    } else if n == 8 {
        '8'
    } else if n == 9 {
        '9'
    } else if n == 10 {
        'a'
    } else if n == 11 {
        'b'
    } else if n == 12 {
        'c'
    } else if n == 13 {
        'd'
    } else if n == 14 {
        'e'
    } else {
        'f'
    }
}

/// The lowercase hex rendering of a byte sequence, two digits per byte,
/// high nibble first.
pub open spec fn hex_of(b: Seq<u8>) -> Seq<char>
    decreases b.len(),
{
    if b.len() == 0 {
        Seq::empty()
    } else {
        seq![hex_digit(b[0] as int / 16), hex_digit(b[0] as int % 16)] + hex_of(b.drop_first())
    }
}

/// Hex rendering is two characters per byte.
pub proof fn lemma_hex_of_len(b: Seq<u8>)
    ensures
        hex_of(b).len() == 2 * b.len(),
    decreases b.len(),
{
    if b.len() > 0 {
        lemma_hex_of_len(b.drop_first());
    }
}

/// Appending a byte appends its two digits.
proof fn lemma_hex_of_snoc(b: Seq<u8>, x: u8)
    ensures
        hex_of(b.push(x)) == hex_of(b) + seq![
            hex_digit(x as int / 16),
            hex_digit(x as int % 16),
        ],
    decreases b.len(),
{
    let d = seq![hex_digit(x as int / 16), hex_digit(x as int % 16)];
    if b.len() == 0 {
        let e = b.push(x).drop_first();
        assert(b.push(x)[0] == x);
        assert(e =~= Seq::<u8>::empty());
        assert(hex_of(e) == Seq::<char>::empty());
        assert(hex_of(b) == Seq::<char>::empty());
        assert(hex_of(b.push(x)) == d + hex_of(e));
        assert(hex_of(b.push(x)) =~= hex_of(b) + d);
    } else {
        let hd = seq![hex_digit(b[0] as int / 16), hex_digit(b[0] as int % 16)];
        assert(b.push(x)[0] == b[0]);
        assert(b.push(x).drop_first() =~= b.drop_first().push(x));
        lemma_hex_of_snoc(b.drop_first(), x);
        assert(hex_of(b.push(x)) == hd + hex_of(b.push(x).drop_first()));
        assert(hex_of(b.push(x).drop_first()) == hex_of(b.drop_first()) + d);
        assert(hex_of(b) == hd + hex_of(b.drop_first()));
        assert(hex_of(b.push(x)) =~= hex_of(b) + d);
    }
}

/// Append the hex digit of a nibble.
fn append_nibble(s: &mut String, n: u8)
    requires
        n < 16,
    ensures
        final(s)@ == old(s)@ + seq![hex_digit(n as int)],
{
    match n {
        0 => {
            s.append("0");
            proof {
                reveal_strlit("0");
                assert("0"@ =~= seq![hex_digit(n as int)]);
            }
        },
        1 => {
            s.append("1");
            proof {
                reveal_strlit("1");
                assert("1"@ =~= seq![hex_digit(n as int)]);
            }
        },
        2 => {
            s.append("2");
            proof {
                reveal_strlit("2");
                assert("2"@ =~= seq![hex_digit(n as int)]);
            }
        },
        3 => {
            s.append("3");
            proof {
                reveal_strlit("3");
                assert("3"@ =~= seq![hex_digit(n as int)]);
            }
        },
        4 => {
            s.append("4");
            proof {
                reveal_strlit("4");
                assert("4"@ =~= seq![hex_digit(n as int)]);
            }
        },
        5 => {
            s.append("5");
            proof {
                reveal_strlit("5");
                assert("5"@ =~= seq![hex_digit(n as int)]);
            }
        },
        6 => {
            s.append("6");
            proof {
                reveal_strlit("6");
                assert("6"@ =~= seq![hex_digit(n as int)]);
            }
        },
        7 => {
            s.append("7");
            proof {
                reveal_strlit("7");
                assert("7"@ =~= seq![hex_digit(n as int)]);
            }
        },
        8 => {
            s.append("8");
            proof {
                reveal_strlit("8");
                assert("8"@ =~= seq![hex_digit(n as int)]);
            }
        },
        9 => {
            s.append("9");
            proof {
                reveal_strlit("9");
                assert("9"@ =~= seq![hex_digit(n as int)]);
            }
        },
        10 => {
            s.append("a");
            proof {
                reveal_strlit("a");
                assert("a"@ =~= seq![hex_digit(n as int)]);
            }
        },
        11 => {
            s.append("b");
            proof {
                reveal_strlit("b");
                assert("b"@ =~= seq![hex_digit(n as int)]);
            }
        },
        12 => {
            s.append("c");
            proof {
                reveal_strlit("c");
                assert("c"@ =~= seq![hex_digit(n as int)]);
            }
        },
        13 => {
            s.append("d");
            proof {
                reveal_strlit("d");
                assert("d"@ =~= seq![hex_digit(n as int)]);
            }
        },
        14 => {
            s.append("e");
            proof {
                reveal_strlit("e");
                assert("e"@ =~= seq![hex_digit(n as int)]);
            }
        },
        _ => {
            s.append("f");
            proof {
                reveal_strlit("f");
                assert("f"@ =~= seq![hex_digit(n as int)]);
            }
        },
    }
}

/// Render a byte vector as lowercase hex.
pub fn bytes_to_hex(v: &Vec<u8>) -> (r: String)
    ensures
        r@ == hex_of(v@),
{
    let mut s = String::new();
    let n = v.len();
    let mut i: usize = 0;
    proof {
        assert(v@.take(0) =~= Seq::<u8>::empty());
    }
    while i < n
        invariant
            i <= n,
            n == v@.len(),
            s@ == hex_of(v@.take(i as int)),
        decreases n - i,
    {
        let b = v[i];
        append_nibble(&mut s, b / 16);
        append_nibble(&mut s, b % 16);
        proof {
            assert(v@.take(i as int + 1) =~= v@.take(i as int).push(v@[i as int]));
            lemma_hex_of_snoc(v@.take(i as int), v@[i as int]);
            assert(s@ =~= hex_of(v@.take(i as int + 1)));
        }
        i = i + 1;
    }
    proof {
        assert(v@.take(n as int) =~= v@);
    }
    s
}

/// The lowercase hex SHA-256 of a string's bytes, 64 characters long,
/// as used for provider authentication.
pub fn sha256_hash(input: String) -> (r: String)
    ensures
        r@ == hex_of(sha256_of(vstd::utf8::encode_utf8(input@))),
        r@.len() == 64,
{
    let digest = sha256_digest(input.as_str().as_bytes());
    proof {
        lemma_hex_of_len(digest@);
    }
    bytes_to_hex(&digest)
}

} // verus!
