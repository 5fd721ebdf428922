//! Bytes written in base64, for terminals that take the clipboard that way.
use vstd::prelude::*;
use vstd::string::*;

verus! {

/// The character that stands for a number below 64.
pub open spec fn symbol(v: nat) -> char {
    if v < 26 {
        (65 + v) as char
    } else if v < 52 {
        (71 + v) as char
    } else if v < 62 {
        (v - 4) as char
    } else if v == 62 {
        '+'
    } else {
        '/'
    }
}

/// The four characters of up to three bytes.
pub open spec fn group(chunk: Seq<u8>) -> Seq<char> {
    let a = chunk[0] as nat;
    let b = if chunk.len() > 1 {
        chunk[1] as nat
    } else {
        0
    };
    let c = if chunk.len() > 2 {
        chunk[2] as nat
    } else {
        0
    };
    seq![
        symbol(a / 4),
        symbol(a % 4 * 16 + b / 16),
        if chunk.len() > 1 {
            symbol(b % 16 * 4 + c / 64)
        } else {
            '='
        },
        if chunk.len() > 2 {
            symbol(c % 64)
        } else {
            '='
        },
    ]
}

/// Bytes in base64, padded.
pub open spec fn encoded(data: Seq<u8>) -> Seq<char>
    decreases data.len(),
{
    if data.len() == 0 {
        Seq::empty()
    } else if data.len() <= 3 {
        group(data)
    } else {
        group(data.take(3)) + encoded(data.skip(3))
    }
}

fn symbol_of(v: u8) -> (c: char)
    requires
        v < 64,
    ensures
        c == symbol(v as nat),
{
    if v < 26 {
        (65 + v) as char
    } else if v < 52 {
        (71 + v) as char
    } else if v < 62 {
        (v - 4) as char
    } else if v == 62 {
        '+'
    } else {
        '/'
    }
}

/// Writes bytes in base64, padded.
pub fn base64_encode(data: &[u8]) -> (out: String)
    ensures
        out@ == encoded(data@),
{
    let mut out = String::new();
    let mut i: usize = 0;
    let n: usize = data.len();
    proof {
        assert(data@.skip(0) =~= data@);
        assert(out@ + encoded(data@) =~= encoded(data@));
    }
    while i < n
        invariant
            i <= n == data@.len(),
            out@ + encoded(data@.skip(i as int)) == encoded(data@),
        decreases n - i,
    {
        let ghost rest = data@.skip(i as int);
        let ghost before = out@;
        let left: usize = n - i;
        let a: u8 = data[i];
        let b: u8 = if left > 1 {
            data[i + 1]
        } else {
            0
        };
        let c: u8 = if left > 2 {
            data[i + 2]
        } else {
            0
        };
        out.push(symbol_of(a / 4));
        out.push(symbol_of(a % 4 * 16 + b / 16));
        if left > 1 {
            out.push(symbol_of(b % 16 * 4 + c / 64));
        } else {
            out.push('=');
        }
        if left > 2 {
            out.push(symbol_of(c % 64));
        } else {
            out.push('=');
        }
        proof {
            let chunk = if left <= 3 {
                rest
            } else {
                rest.take(3)
            };
            assert(out@ =~= before + group(chunk));
            if left > 3 {
                assert(rest.skip(3) =~= data@.skip(i + 3));
                assert(before + (group(chunk) + encoded(rest.skip(3))) =~= out@ + encoded(
                    rest.skip(3),
                ));
            } else {
                assert(data@.skip(n as int) =~= Seq::<u8>::empty());
                assert(out@ + encoded(data@.skip(n as int)) =~= out@);
            }
        }
        i = if left > 3 {
            i + 3
        } else {
            n
        };
    }
    assert(out@ + encoded(data@.skip(n as int)) =~= out@);
    out
}

/// The number that a character stands for.
pub open spec fn number(c: char) -> nat {
    if 'A' <= c <= 'Z' {
        (c as nat - 65) as nat
    } else if 'a' <= c <= 'z' {
        (c as nat - 71) as nat
    } else if '0' <= c <= '9' {
        c as nat + 4
    } else if c == '+' {
        62
    } else {
        63
    }
}

/// The bytes that base64 text stands for.
pub open spec fn decoded(s: Seq<char>) -> Seq<u8>
    decreases s.len(),
{
    if s.len() < 4 {
        Seq::empty()
    } else {
        let first = (number(s[0]) * 4 + number(s[1]) / 16) as u8;
        let second = (number(s[1]) % 16 * 16 + number(s[2]) / 4) as u8;
        let third = (number(s[2]) % 4 * 64 + number(s[3])) as u8;
        let bytes = if s[2] == '=' {
            seq![first]
        } else if s[3] == '=' {
            seq![first, second]
        } else {
            seq![first, second, third]
        };
        bytes + decoded(s.skip(4))
    }
}

proof fn lemma_symbol(v: nat)
    requires
        v < 64,
    ensures
        number(symbol(v)) == v,
        symbol(v) != '=',
{
}

proof fn lemma_group(chunk: Seq<u8>)
    requires
        1 <= chunk.len() <= 3,
    ensures
        decoded(group(chunk)) == chunk,
{
    let s = group(chunk);
    let a = chunk[0] as nat;
    let b = if chunk.len() > 1 {
        chunk[1] as nat
    } else {
        0
    };
    let c = if chunk.len() > 2 {
        chunk[2] as nat
    } else {
        0
    };
    lemma_symbol(a / 4);
    lemma_symbol(a % 4 * 16 + b / 16);
    lemma_symbol(b % 16 * 4 + c / 64);
    lemma_symbol(c % 64);
    assert(decoded(s.skip(4)) =~= Seq::<u8>::empty());
    assert(decoded(s) =~= chunk);
}

proof fn lemma_decoded_behind(head: Seq<char>, tail: Seq<char>)
    requires
        head.len() == 4,
    ensures
        decoded(head + tail) == decoded(head) + decoded(tail),
{
    let s = head + tail;
    assert(s.skip(4) =~= tail);
    assert(decoded(head.skip(4)) =~= Seq::<u8>::empty());
    assert(decoded(s) =~= decoded(head) + decoded(tail));
}

/// What was encoded is read back byte for byte.
pub proof fn decoding_undoes_encoding(data: Seq<u8>)
    ensures
        decoded(encoded(data)) == data,
        encoded(data).len() == (data.len() + 2) / 3 * 4,
    decreases data.len(),
{
    if data.len() == 0 {
        assert(decoded(encoded(data)) =~= data);
    } else if data.len() <= 3 {
        lemma_group(data);
    } else {
        decoding_undoes_encoding(data.skip(3));
        lemma_group(data.take(3));
        lemma_decoded_behind(group(data.take(3)), encoded(data.skip(3)));
        assert(data.take(3) + data.skip(3) =~= data);
    }
}

} // verus!
