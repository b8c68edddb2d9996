//! Reversibly encodes an absolute filesystem path into a transport-safe
//! token by replacing every path separator with a fixed sentinel substring,
//! and decodes such a token back.  A path that contains the sentinel
//! literally is rejected by the encoder rather than silently corrupted, so
//! that decoding is an exact inverse.

use vstd::prelude::*;

use crate::path_filter::SEPARATOR;

verus! {

/// The sentinel substring that stands in for a separator: `slash`.
pub open spec fn sentinel() -> Seq<u8> {
    seq![115u8, 108u8, 97u8, 115u8, 104u8]
}

/// The encoding of one byte: a separator becomes the sentinel, any other
/// byte stands as itself.
pub open spec fn enc1(b: u8) -> Seq<u8> {
    if b == SEPARATOR {
        sentinel()
    } else {
        seq![b]
    }
}

/// The encoding of a whole path, byte by byte.
pub open spec fn encode_spec(s: Seq<u8>) -> Seq<u8>
    decreases s.len(),
{
    if s.len() == 0 {
        Seq::empty()
    } else {
        enc1(s[0]) + encode_spec(s.skip(1))
    }
}

/// The sentinel occurs in `s` at position `i`.
pub open spec fn has_sentinel_at(s: Seq<u8>, i: int) -> bool {
    0 <= i && i + 5 <= s.len() && s.subrange(i, i + 5) == sentinel()
}

/// The sentinel occurs somewhere in `s`.
pub open spec fn has_sentinel(s: Seq<u8>) -> bool {
    exists|i: int| has_sentinel_at(s, i)
}

/// The decoding of a token: a greedy left-to-right scan that turns each
/// sentinel occurrence back into a separator and copies every other byte.
pub open spec fn decode_spec(s: Seq<u8>) -> Seq<u8>
    decreases s.len(),
{
    if s.len() == 0 {
        Seq::empty()
    } else if s.len() >= 5 && s.subrange(0, 5) == sentinel() {
        seq![SEPARATOR] + decode_spec(s.skip(5))
    } else {
        seq![s[0]] + decode_spec(s.skip(1))
    }
}

/// How the encoding starts, depending on the first byte.
proof fn lemma_encode_head(s: Seq<u8>)
    requires
        s.len() > 0,
    ensures
        s[0] == SEPARATOR ==> encode_spec(s).len() >= 5 && encode_spec(s).subrange(0, 5)
            == sentinel() && encode_spec(s).skip(5) == encode_spec(s.skip(1)),
        s[0] != SEPARATOR ==> encode_spec(s).len() >= 1 && encode_spec(s)[0] == s[0]
            && encode_spec(s).skip(1) == encode_spec(s.skip(1)),
{
    let e = encode_spec(s);
    if s[0] == SEPARATOR {
        assert(e == sentinel() + encode_spec(s.skip(1)));
        assert(e.subrange(0, 5) =~= sentinel());
        assert(e.skip(5) =~= encode_spec(s.skip(1)));
    } else {
        assert(e == seq![s[0]] + encode_spec(s.skip(1)));
        assert(e.skip(1) =~= encode_spec(s.skip(1)));
    }
}

/// An occurrence of the sentinel in a suffix is one in the whole string.
proof fn lemma_sentinel_in_skip(s: Seq<u8>, k: int, i: int)
    requires
        0 <= k <= s.len(),
        has_sentinel_at(s.skip(k), i),
    ensures
        has_sentinel_at(s, i + k),
{
    assert(s.subrange(i + k, i + k + 5) =~= s.skip(k).subrange(i, i + 5));
}

/// If a path is sentinel-free and does not start with a separator, its
/// encoding does not start with the sentinel.
proof fn lemma_encode_no_sentinel_prefix(s: Seq<u8>)
    requires
        s.len() > 0,
        s[0] != SEPARATOR,
        !has_sentinel(s),
    ensures
        encode_spec(s).len() < 5 || encode_spec(s).subrange(0, 5) != sentinel(),
{
    let e = encode_spec(s);
    if e.len() >= 5 && e.subrange(0, 5) == sentinel() {
        assert(forall|k: int| 0 <= k < 5 ==> e[k] == sentinel()[k]) by {
            assert(forall|k: int| 0 <= k < 5 ==> e.subrange(0, 5)[k] == e[k]);
        }
        assert(e[0] == 115 && e[1] == 108 && e[2] == 97 && e[3] == 115 && e[4] == 104);
        let s1 = s.skip(1);
        let s2 = s.skip(2);
        let s3 = s.skip(3);
        let s4 = s.skip(4);
        lemma_encode_head(s);
        assert(s[0] == 115);
        // Positions 1 through 4 of the encoding come from the encoding of
        // the tail; a separator there would put the sentinel's first byte
        // (or second, one step later) where a different byte is required.
        assert(e.skip(1) == encode_spec(s1));
        assert(encode_spec(s1).len() >= 4);
        assert(s1.len() > 0);
        lemma_encode_head(s1);
        assert(encode_spec(s1)[0] == e[1] && encode_spec(s1)[1] == e[2] && encode_spec(s1)[2]
            == e[3] && encode_spec(s1)[3] == e[4]);
        if s1[0] == SEPARATOR {
            assert(encode_spec(s1).subrange(0, 5)[0] == 115);
            assert(false);
        }
        assert(s[1] == 108) by {
            assert(s1[0] == s[1]);
        }
        assert(s1.skip(1) =~= s2);
        assert(encode_spec(s2).len() >= 3 && encode_spec(s2)[0] == e[2] && encode_spec(s2)[1]
            == e[3] && encode_spec(s2)[2] == e[4]);
        assert(s2.len() > 0);
        lemma_encode_head(s2);
        if s2[0] == SEPARATOR {
            assert(encode_spec(s2).subrange(0, 5)[0] == 115);
            assert(false);
        }
        assert(s[2] == 97) by {
            assert(s2[0] == s[2]);
        }
        assert(s2.skip(1) =~= s3);
        assert(encode_spec(s3).len() >= 2 && encode_spec(s3)[0] == e[3] && encode_spec(s3)[1]
            == e[4]);
        assert(s3.len() > 0);
        lemma_encode_head(s3);
        if s3[0] == SEPARATOR {
            // The sentinel's own first byte matches here, but its second
            // byte cannot: the encoding's fifth byte would have to be 108.
            assert(encode_spec(s3).subrange(0, 5)[1] == 108);
            assert(false);
        }
        assert(s[3] == 115) by {
            assert(s3[0] == s[3]);
        }
        assert(s3.skip(1) =~= s4);
        assert(encode_spec(s4).len() >= 1 && encode_spec(s4)[0] == e[4]);
        assert(s4.len() > 0);
        lemma_encode_head(s4);
        if s4[0] == SEPARATOR {
            assert(encode_spec(s4).subrange(0, 5)[0] == 115);
            assert(false);
        }
        assert(s[4] == 104) by {
            assert(s4[0] == s[4]);
        }
        assert(s.subrange(0, 5) =~= sentinel());
        assert(has_sentinel_at(s, 0));
        assert(false);
    }
}

/// Round-trip law: decoding an encoded path gives the path back, for every
/// path that does not contain the sentinel as a literal substring.
pub proof fn lemma_decode_inverts_encode(s: Seq<u8>)
    requires
        !has_sentinel(s),
    ensures
        decode_spec(encode_spec(s)) == s,
    decreases s.len(),
{
    if s.len() == 0 {
    } else {
        let tail = s.skip(1);
        assert(!has_sentinel(tail)) by {
            if has_sentinel(tail) {
                let i = choose|i: int| has_sentinel_at(tail, i);
                lemma_sentinel_in_skip(s, 1, i);
            }
        }
        lemma_encode_head(s);
        lemma_decode_inverts_encode(tail);
        let e = encode_spec(s);
        if s[0] == SEPARATOR {
            assert(decode_spec(e) == seq![SEPARATOR] + decode_spec(e.skip(5)));
            assert(seq![SEPARATOR] + tail =~= s);
        } else {
            lemma_encode_no_sentinel_prefix(s);
            assert(decode_spec(e) == seq![e[0]] + decode_spec(e.skip(1)));
            assert(seq![s[0]] + tail =~= s);
        }
    }
}

/// Scans for a literal occurrence of the sentinel.
fn contains_sentinel(p: &Vec<u8>) -> (r: bool)
    ensures
        r == has_sentinel(p@),
{
    let n = p.len();
    if n < 5 {
        proof {
            assert(forall|i: int| !has_sentinel_at(p@, i));
        }
        return false;
    }
    let mut i: usize = 0;
    while i <= n - 5
        invariant
            n == p@.len(),
            n >= 5,
            i <= n,
            forall|j: int| 0 <= j < i ==> !has_sentinel_at(p@, j),
        decreases n - i,
    {
        if p[i] == 115 && p[i + 1] == 108 && p[i + 2] == 97 && p[i + 3] == 115 && p[i + 4] == 104 {
            proof {
                assert(p@.subrange(i as int, i + 5) =~= sentinel());
                assert(has_sentinel_at(p@, i as int));
            }
            return true;
        }
        proof {
            if has_sentinel_at(p@, i as int) {
                assert(p@.subrange(i as int, i + 5)[0] == 115);
                assert(p@.subrange(i as int, i + 5)[1] == 108);
                assert(p@.subrange(i as int, i + 5)[2] == 97);
                assert(p@.subrange(i as int, i + 5)[3] == 115);
                assert(p@.subrange(i as int, i + 5)[4] == 104);
                assert(false);
            }
        }
        i = i + 1;
    }
    proof {
        assert(forall|j: int| i <= j ==> !has_sentinel_at(p@, j));
    }
    false
}

/// Encodes a path into a transport-safe token.  Returns `None` exactly
/// when the path contains the sentinel literally (an unsupported input);
/// otherwise every separator is replaced by the sentinel.
pub fn encode_path(p: &Vec<u8>) -> (r: Option<Vec<u8>>)
    ensures
        r is Some <==> !has_sentinel(p@),
        r matches Some(t) ==> t@ == encode_spec(p@),
{
    if contains_sentinel(p) {
        return None;
    }
    let mut out: Vec<u8> = Vec::new();
    let mut i: usize = 0;
    proof {
        assert(p@.subrange(0, 0) =~= Seq::<u8>::empty());
    }
    while i < p.len()
        invariant
            i <= p@.len(),
            out@ == encode_spec(p@.subrange(0, i as int)),
        decreases p@.len() - i,
    {
        let b = p[i];
        if b == 47 {
            out.push(115);
            out.push(108);
            out.push(97);
            out.push(115);
            out.push(104);
        } else {
            out.push(b);
        }
        i = i + 1;
        proof {
            lemma_encode_push(p@.subrange(0, i - 1), p@[i - 1]);
            assert(p@.subrange(0, i as int) =~= p@.subrange(0, i - 1).push(p@[i - 1]));
            assert(out@ =~= encode_spec(p@.subrange(0, i - 1)) + enc1(p@[i - 1]));
        }
    }
    proof {
        assert(p@.subrange(0, p@.len() as int) =~= p@);
    }
    Some(out)
}

/// Appending one byte to a path appends that byte's encoding.
proof fn lemma_encode_push(s: Seq<u8>, b: u8)
    ensures
        encode_spec(s.push(b)) == encode_spec(s) + enc1(b),
    decreases s.len(),
{
    if s.len() == 0 {
        let sp = s.push(b);
        assert(sp.len() == 1 && sp[0] == b);
        assert(sp.skip(1) =~= Seq::<u8>::empty());
        assert(encode_spec(sp.skip(1)).len() == 0);
        assert(encode_spec(sp) == enc1(b) + encode_spec(sp.skip(1)));
        assert(encode_spec(sp) =~= enc1(b));
        assert(encode_spec(s) + enc1(b) =~= enc1(b));
    } else {
        assert(s.push(b)[0] == s[0]);
        assert(s.push(b).skip(1) =~= s.skip(1).push(b));
        lemma_encode_push(s.skip(1), b);
        assert(encode_spec(s.push(b)) =~= encode_spec(s) + enc1(b));
    }
}

/// Decodes a token, replacing every sentinel occurrence, greedily from the
/// left, with a separator.
pub fn decode_token(t: &Vec<u8>) -> (r: Vec<u8>)
    ensures
        r@ == decode_spec(t@),
{
    let n = t.len();
    let mut out: Vec<u8> = Vec::new();
    let mut i: usize = 0;
    proof {
        assert(t@.skip(0) =~= t@);
        assert(out@ + decode_spec(t@) =~= decode_spec(t@));
    }
    while i < n
        invariant
            n == t@.len(),
            i <= n,
            decode_spec(t@) == out@ + decode_spec(t@.skip(i as int)),
        decreases n - i,
    {
        let ghost pre = out@;
        let ghost rest = t@.skip(i as int);
        if n - i >= 5 && t[i] == 115 && t[i + 1] == 108 && t[i + 2] == 97 && t[i + 3] == 115 && t[i
            + 4] == 104 {
            proof {
                assert(rest.subrange(0, 5) =~= t@.subrange(i as int, i + 5));
                assert(t@.subrange(i as int, i + 5) =~= sentinel());
                assert(rest.skip(5) =~= t@.skip(i + 5));
                assert(decode_spec(rest) == seq![SEPARATOR] + decode_spec(t@.skip(i + 5)));
            }
            out.push(47);
            i = i + 5;
            proof {
                assert(out@ =~= pre + seq![SEPARATOR]);
                assert(out@ + decode_spec(t@.skip(i as int)) =~= pre + decode_spec(rest));
            }
        } else {
            proof {
                if rest.len() >= 5 && rest.subrange(0, 5) == sentinel() {
                    assert(t@.subrange(i as int, i + 5) =~= rest.subrange(0, 5));
                    assert(t@.subrange(i as int, i + 5)[0] == 115);
                    assert(t@.subrange(i as int, i + 5)[1] == 108);
                    assert(t@.subrange(i as int, i + 5)[2] == 97);
                    assert(t@.subrange(i as int, i + 5)[3] == 115);
                    assert(t@.subrange(i as int, i + 5)[4] == 104);
                    assert(false);
                }
                assert(rest[0] == t@[i as int]);
                assert(rest.skip(1) =~= t@.skip(i + 1));
                assert(decode_spec(rest) == seq![t@[i as int]] + decode_spec(t@.skip(i + 1)));
            }
            let b = t[i];
            out.push(b);
            i = i + 1;
            proof {
                assert(out@ =~= pre + seq![t@[i - 1]]);
                assert(out@ + decode_spec(t@.skip(i as int)) =~= pre + decode_spec(rest));
            }
        }
    }
    proof {
        assert(t@.skip(n as int) =~= Seq::<u8>::empty());
        assert(out@ + decode_spec(t@.skip(n as int)) =~= out@);
    }
    out
}

} // verus!
