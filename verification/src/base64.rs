//! Base64 with the standard alphabet and `=` padding, as blobs travel in it.
use vstd::prelude::*;
use vstd::utf8::{encode_utf8, is_ascii_chars, is_ascii_chars_encode_utf8};

verus! {

/// The byte of the padding character.
pub const PAD: u8 = 61;

/// The character for six bits.
pub open spec fn sextet_char(v: int) -> char
    recommends
        0 <= v < 64,
{
    if v < 26 {
        ('A' as u32 + v) as u32 as char
    } else if v < 52 {
        ('a' as u32 + (v - 26)) as u32 as char
    } else if v < 62 {
        ('0' as u32 + (v - 52)) as u32 as char
    } else if v == 62 {
        '+'
    } else {
        '/'
    }
}

/// The six bits that a byte of encoded text stands for.
pub open spec fn sextet_value(b: u8) -> Option<int> {
    if 'A' as u8 <= b <= 'Z' as u8 {
        Some(b - 'A' as u8)
    } else if 'a' as u8 <= b <= 'z' as u8 {
        Some(b - 'a' as u8 + 26)
    } else if '0' as u8 <= b <= '9' as u8 {
        Some(b - '0' as u8 + 52)
    } else if b == '+' as u8 {
        Some(62)
    } else if b == '/' as u8 {
        Some(63)
    } else {
        None
    }
}

/// The `i`th sextet, from the left, of a 24-bit number.
pub open spec fn sextet(n: int, i: int) -> int {
    if i == 0 {
        n / 262144
    } else if i == 1 {
        n / 4096 % 64
    } else if i == 2 {
        n / 64 % 64
    } else {
        n % 64
    }
}

/// The four characters of up to three bytes.
pub open spec fn encode_group(g: Seq<u8>) -> Seq<char>
    recommends
        1 <= g.len() <= 3,
{
    let second: int = if g.len() > 1 {
        g[1] as int
    } else {
        0
    };
    let third: int = if g.len() > 2 {
        g[2] as int
    } else {
        0
    };
    let n = g[0] * 65536 + second * 256 + third;
    seq![
        sextet_char(sextet(n, 0)),
        sextet_char(sextet(n, 1)),
        if g.len() > 1 {
            sextet_char(sextet(n, 2))
        } else {
            '='
        },
        if g.len() > 2 {
            sextet_char(sextet(n, 3))
        } else {
            '='
        },
    ]
}

/// The Base64 text of `data`.
pub open spec fn encoded(data: Seq<u8>) -> Seq<char>
    decreases data.len(),
{
    if data.len() == 0 {
        seq![]
    } else if data.len() <= 3 {
        encode_group(data)
    } else {
        encode_group(data.take(3)) + encoded(data.skip(3))
    }
}

/// The bytes that four bytes of encoded text stand for. A `=` may stand in the
/// last place, or in the last two; bits that it leaves over are dropped.
pub open spec fn decode_group(q: Seq<u8>) -> Option<Seq<u8>>
    recommends
        q.len() == 4,
{
    let third: Option<int> = if q[2] == PAD {
        Some(0)
    } else {
        sextet_value(q[2])
    };
    let fourth: Option<int> = if q[3] == PAD {
        Some(0)
    } else {
        sextet_value(q[3])
    };
    if q[2] == PAD && q[3] != PAD {
        None
    } else {
        match (sextet_value(q[0]), sextet_value(q[1]), third, fourth) {
            (Some(a), Some(b), Some(c), Some(d)) => {
                let n = a * 262144 + b * 4096 + c * 64 + d;
                let all = seq![
                    (n / 65536) as u8,
                    (n / 256 % 256) as u8,
                    (n % 256) as u8,
                ];
                Some(
                    if q[2] == PAD {
                        all.take(1)
                    } else if q[3] == PAD {
                        all.take(2)
                    } else {
                        all
                    },
                )
            },
            _ => None,
        }
    }
}

/// The bytes that encoded text stands for, group by group; `None` where a group
/// is not well formed or the last one is cut short.
pub open spec fn decoded(bytes: Seq<u8>) -> Option<Seq<u8>>
    decreases bytes.len(),
{
    if bytes.len() == 0 {
        Some(seq![])
    } else if bytes.len() < 4 {
        None
    } else {
        match (decode_group(bytes.take(4)), decoded(bytes.skip(4))) {
            (Some(head), Some(rest)) => Some(head + rest),
            _ => None,
        }
    }
}

fn char_of_sextet(v: u32) -> (c: char)
    requires
        v < 64,
    ensures
        c == sextet_char(v as int),
{
    let b: u8 = v as u8;
    if b < 26 {
        (65u8 + b) as char
    } else if b < 52 {
        (97u8 + (b - 26)) as char
    } else if b < 62 {
        (48u8 + (b - 52)) as char
    } else if b == 62 {
        '+'
    } else {
        '/'
    }
}

fn value_of_sextet(b: u8) -> (r: Option<u32>)
    ensures
        match r {
            Some(v) => v < 64 && sextet_value(b) == Some(v as int),
            None => sextet_value(b) is None,
        },
{
    if 65 <= b && b <= 90 {
        Some(b as u32 - 65)
    } else if 97 <= b && b <= 122 {
        Some(b as u32 - 97 + 26)
    } else if 48 <= b && b <= 57 {
        Some(b as u32 - 48 + 52)
    } else if b == 43 {
        Some(62)
    } else if b == 47 {
        Some(63)
    } else {
        None
    }
}

/// Writes bytes as Base64 text.
pub fn encode_base64(data: &[u8]) -> (out: String)
    ensures
        out@ == encoded(data@),
{
    let mut out = String::new();
    let mut i: usize = 0;
    assert(data@.skip(0) == data@);
    assert(out@ + encoded(data@.skip(0)) == encoded(data@));
    while i < data.len()
        invariant
            i <= data.len(),
            out@ + encoded(data@.skip(i as int)) == encoded(data@),
        decreases data.len() - i,
    {
        let ghost rest = data@.skip(i as int);
        let ghost before = out@;
        let left: usize = data.len() - i;
        let second: u32 = if left > 1 {
            data[i + 1] as u32
        } else {
            0
        };
        let third: u32 = if left > 2 {
            data[i + 2] as u32
        } else {
            0
        };
        let n: u32 = data[i] as u32 * 65536 + second * 256 + third;
        out.push(char_of_sextet(n / 262144));
        out.push(char_of_sextet(n / 4096 % 64));
        out.push(
            if left > 1 {
                char_of_sextet(n / 64 % 64)
            } else {
                '='
            },
        );
        out.push(
            if left > 2 {
                char_of_sextet(n % 64)
            } else {
                '='
            },
        );
        proof {
            let g = if left > 3 {
                rest.take(3)
            } else {
                rest
            };
            assert(out@ == before + encode_group(g));
            if left > 3 {
                assert(rest.skip(3) == data@.skip(i + 3));
                assert(before + (encode_group(g) + encoded(rest.skip(3))) == out@ + encoded(
                    rest.skip(3),
                ));
            } else {
                assert(data@.skip(data@.len() as int) == Seq::<u8>::empty());
                assert(out@ + encoded(data@.skip(data@.len() as int)) == out@);
            }
        }
        i = if left > 3 {
            i + 3
        } else {
            data.len()
        };
    }
    assert(data@.skip(i as int) == Seq::<u8>::empty());
    assert(out@ + Seq::<char>::empty() == out@);
    out
}

/// Reads one group: the 24-bit number that it writes, and how many of its three
/// bytes count.
fn read_group(q0: u8, q1: u8, q2: u8, q3: u8) -> (r: Option<(u32, usize)>)
    ensures
        match r {
            Some((n, count)) => n < 16777216 && 1 <= count <= 3 && decode_group(
                seq![q0, q1, q2, q3],
            ) == Some(
                seq![
                    (n as int / 65536) as u8,
                    (n as int / 256 % 256) as u8,
                    (n as int % 256) as u8,
                ].take(count as int),
            ),
            None => decode_group(seq![q0, q1, q2, q3]) is None,
        },
{
    if q2 == PAD && q3 != PAD {
        return None;
    }
    let third = if q2 == PAD {
        Some(0u32)
    } else {
        value_of_sextet(q2)
    };
    let fourth = if q3 == PAD {
        Some(0u32)
    } else {
        value_of_sextet(q3)
    };
    let count: usize = if q2 == PAD {
        1
    } else if q3 == PAD {
        2
    } else {
        3
    };
    match (value_of_sextet(q0), value_of_sextet(q1), third, fourth) {
        (Some(a), Some(b), Some(c), Some(d)) => {
            let n: u32 = a * 262144 + b * 4096 + c * 64 + d;
            proof {
                let all = seq![
                    (n as int / 65536) as u8,
                    (n as int / 256 % 256) as u8,
                    (n as int % 256) as u8,
                ];
                assert(all.take(3) == all);
            }
            Some((n, count))
        },
        _ => None,
    }
}

/// Reads Base64 text. It fails where the text is not whole groups of four
/// characters of the alphabet, padded as `decode_group` says.
pub fn decode_base64(text: &str) -> (r: Result<Vec<u8>, ()>)
    ensures
        match r {
            Ok(out) => decoded(encode_utf8(text@)) == Some(out@),
            Err(_) => decoded(encode_utf8(text@)) is None,
        },
{
    let bytes = text.as_bytes();
    let mut out: Vec<u8> = Vec::new();
    let mut i: usize = 0;
    proof {
        assert(bytes@.skip(0) == bytes@);
        if let Some(rest) = decoded(bytes@) {
            assert(out@ + rest == rest);
        }
    }
    while i < bytes.len()
        invariant
            i <= bytes.len(),
            bytes@ == encode_utf8(text@),
            match decoded(bytes@.skip(i as int)) {
                Some(rest) => decoded(bytes@) == Some(out@ + rest),
                None => decoded(bytes@) is None,
            },
        decreases bytes.len() - i,
    {
        let ghost rest = bytes@.skip(i as int);
        if bytes.len() - i < 4 {
            return Err(());
        }
        proof {
            assert(rest.skip(4) == bytes@.skip(i + 4));
            assert(rest.take(4) == seq![
                bytes@[i as int],
                bytes@[i + 1],
                bytes@[i + 2],
                bytes@[i + 3],
            ]);
        }
        match read_group(bytes[i], bytes[i + 1], bytes[i + 2], bytes[i + 3]) {
            Some((n, count)) => {
                let ghost before = out@;
                out.push((n / 65536) as u8);
                if count > 1 {
                    out.push((n / 256 % 256) as u8);
                }
                if count > 2 {
                    out.push((n % 256) as u8);
                }
                proof {
                    let head = decode_group(rest.take(4))->0;
                    assert(out@ == before + head);
                    if let Some(tail) = decoded(bytes@.skip(i + 4)) {
                        assert(before + (head + tail) == out@ + tail);
                    }
                }
            },
            None => {
                return Err(());
            },
        }
        i = i + 4;
    }
    assert(bytes@.skip(i as int) == Seq::<u8>::empty());
    assert(out@ + Seq::<u8>::empty() == out@);
    Ok(out)
}

proof fn sextet_round_trip(v: int)
    requires
        0 <= v < 64,
    ensures
        sextet_char(v) <= '\u{7f}',
        sextet_value(sextet_char(v) as u8) == Some(v),
        sextet_char(v) as u8 != PAD,
{
}

/// The bytes of four ASCII characters.
spec fn group_bytes(g: Seq<u8>) -> Seq<u8> {
    Seq::new(4, |i: int| encode_group(g)[i] as u8)
}

proof fn sextets_make_number(n: int)
    requires
        0 <= n < 16777216,
    ensures
        forall|i: int| 0 <= #[trigger] sextet(n, i) < 64,
        n == sextet(n, 0) * 262144 + sextet(n, 1) * 4096 + sextet(n, 2) * 64 + sextet(n, 3),
{
}

proof fn bytes_make_number(a: int, b: int, c: int)
    requires
        0 <= a < 256,
        0 <= b < 256,
        0 <= c < 256,
    ensures
        ({
            let n = a * 65536 + b * 256 + c;
            &&& 0 <= n < 16777216
            &&& n / 65536 == a
            &&& n / 256 % 256 == b
            &&& n % 256 == c
            &&& c == 0 ==> sextet(n, 3) == 0
            &&& b == 0 && c == 0 ==> sextet(n, 2) == 0
        }),
{
    let m = a * 256 + b;
    let n = m * 256 + c;
    assert(n == a * 65536 + b * 256 + c);
    assert(n / 256 == m);
    assert(n % 256 == c);
    assert(m % 256 == b);
    assert(n / 65536 == a);
    if c == 0 {
        assert(n == (4 * m) * 64);
        assert(n % 64 == 0);
        if b == 0 {
            assert(n / 64 == 1024 * a);
            assert((1024 * a) % 64 == 0);
        }
    }
}

#[verifier::spinoff_prover]
proof fn group_round_trip(g: Seq<u8>)
    requires
        1 <= g.len() <= 3,
    ensures
        encode_group(g).len() == 4,
        is_ascii_chars(encode_group(g)),
        decode_group(group_bytes(g)) == Some(g),
{
    let b: int = if g.len() > 1 {
        g[1] as int
    } else {
        0
    };
    let c: int = if g.len() > 2 {
        g[2] as int
    } else {
        0
    };
    let n = g[0] * 65536 + b * 256 + c;
    bytes_make_number(g[0] as int, b, c);
    sextets_make_number(n);
    let s0 = sextet(n, 0);
    let s1 = sextet(n, 1);
    let s2 = sextet(n, 2);
    let s3 = sextet(n, 3);
    sextet_round_trip(s0);
    sextet_round_trip(s1);
    sextet_round_trip(s2);
    sextet_round_trip(s3);
    let q = group_bytes(g);
    assert(q[0] == sextet_char(s0) as u8);
    assert(q[1] == sextet_char(s1) as u8);
    assert(q[2] == if g.len() > 1 {
        sextet_char(s2) as u8
    } else {
        PAD
    });
    assert(q[3] == if g.len() > 2 {
        sextet_char(s3) as u8
    } else {
        PAD
    });
    let all = seq![(n / 65536) as u8, (n / 256 % 256) as u8, (n % 256) as u8];
    assert(all.take(g.len() as int) == g);
    assert(all.take(3) == all);
    assert(decode_group(q) == Some(all.take(g.len() as int)));
}

proof fn encoded_is_ascii(data: Seq<u8>)
    ensures
        is_ascii_chars(encoded(data)),
        encoded(data).len() == (data.len() + 2) / 3 * 4,
    decreases data.len(),
{
    if data.len() == 0 {
    } else if data.len() <= 3 {
        group_round_trip(data);
    } else {
        group_round_trip(data.take(3));
        encoded_is_ascii(data.skip(3));
    }
}

/// The encoded text has four characters for every three bytes begun.
pub proof fn encoded_length(data: Seq<u8>)
    ensures
        encoded(data).len() == (data.len() + 2) / 3 * 4,
{
    encoded_is_ascii(data);
}

proof fn decoded_of_encoded(data: Seq<u8>)
    ensures
        decoded(encoded(data).map_values(|c: char| c as u8)) == Some(data),
    decreases data.len(),
{
    let f = |c: char| c as u8;
    let bytes = encoded(data).map_values(f);
    if data.len() == 0 {
        assert(bytes == Seq::<u8>::empty());
        assert(data == Seq::<u8>::empty());
    } else if data.len() <= 3 {
        group_round_trip(data);
        assert(bytes.take(4) == group_bytes(data));
        assert(bytes.skip(4) == Seq::<u8>::empty());
        assert(decoded(bytes.skip(4)) == Some(Seq::<u8>::empty()));
        assert(data + Seq::<u8>::empty() == data);
    } else {
        group_round_trip(data.take(3));
        decoded_of_encoded(data.skip(3));
        assert(bytes.take(4) == group_bytes(data.take(3)));
        assert(bytes.skip(4) == encoded(data.skip(3)).map_values(f));
        assert(data.take(3) + data.skip(3) == data);
    }
}

/// Reading what was written gives the bytes back, whatever they are.
pub proof fn base64_reads_back(data: Seq<u8>)
    ensures
        decoded(encode_utf8(encoded(data))) == Some(data),
{
    encoded_is_ascii(data);
    is_ascii_chars_encode_utf8(encoded(data));
    decoded_of_encoded(data);
    assert(encode_utf8(encoded(data)) == encoded(data).map_values(|c: char| c as u8));
}

/// Whether the byte is one of the sixty-four, or the one that fills up.
pub open spec fn is_base64(b: u8) -> bool {
    ||| 65 <= b <= 90
    ||| 97 <= b <= 122
    ||| 48 <= b <= 57
    ||| b == 43
    ||| b == 47
    ||| b == 61
}

/// Only whole groups of the sixty-four characters and the one that fills up are
/// read; anything else is refused.
pub proof fn only_base64_is_read(bytes: Seq<u8>)
    requires
        decoded(bytes) is Some,
    ensures
        bytes.len() % 4 == 0,
        forall|i: int| 0 <= i < bytes.len() ==> is_base64(#[trigger] bytes[i]),
    decreases bytes.len(),
{
    if bytes.len() > 0 {
        let group = bytes.take(4);
        let rest = bytes.skip(4);
        only_base64_is_read(rest);
        assert(decode_group(group) is Some);
        assert forall|i: int| 0 <= i < bytes.len() implies is_base64(#[trigger] bytes[i]) by {
            if i >= 4 {
                assert(rest[i - 4] == bytes[i]);
            } else {
                assert(group[i] == bytes[i]);
            }
        }
    }
}

} // verus!
