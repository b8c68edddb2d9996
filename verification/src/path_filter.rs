//! Decides whether a filesystem entry is a candidate media file by its
//! extension.  Paths are handled as byte strings; the extension is the part
//! of the file name after its last dot, and a name whose only dot is its
//! first byte has no extension.

use vstd::prelude::*;

verus! {

/// The path separator, `/`.
pub const SEPARATOR: u8 = 47;

/// The extension separator, `.`.
pub const DOT: u8 = 46;

/// The index of the last occurrence of `b` in `s`, or -1 when `b` does not
/// occur.
pub open spec fn last_pos(s: Seq<u8>, b: u8) -> int
    decreases s.len(),
{
    if s.len() == 0 {
        -1
    } else if s[s.len() - 1] == b {
        s.len() - 1
    } else {
        last_pos(s.drop_last(), b)
    }
}

/// `last_pos` points at an occurrence of `b` and nothing after it is one;
/// -1 means `b` does not occur at all.
pub proof fn lemma_last_pos(s: Seq<u8>, b: u8)
    ensures
        -1 <= last_pos(s, b) < s.len(),
        last_pos(s, b) >= 0 ==> s[last_pos(s, b)] == b,
        forall|i: int| last_pos(s, b) < i < s.len() ==> s[i] != b,
    decreases s.len(),
{
    if s.len() > 0 && s[s.len() - 1] != b {
        lemma_last_pos(s.drop_last(), b);
        assert(forall|i: int| 0 <= i < s.len() - 1 ==> s.drop_last()[i] == s[i]);
    }
}

/// ASCII upper-casing of one byte.
pub open spec fn to_upper(b: u8) -> u8 {
    if 97 <= b <= 122 {
        (b - 32) as u8
    } else {
        b
    }
}

/// The extension of `p`: the bytes after the last dot, provided that dot
/// lies inside the file name (after the last separator) and is not the
/// name's first byte.
pub open spec fn extension_of(p: Seq<u8>) -> Option<Seq<u8>> {
    let slash = last_pos(p, SEPARATOR);
    let dot = last_pos(p, DOT);
    if dot > slash + 1 {
        Some(p.subrange(dot + 1, p.len() as int))
    } else {
        None
    }
}

/// The fixed allow-list: `JPG`, `JPEG`, `PNG`, compared after upper-casing.
pub open spec fn is_allowed_extension(e: Seq<u8>) -> bool {
    let u = e.map_values(|b: u8| to_upper(b));
    ||| u == seq![74u8, 80u8, 71u8]
    ||| u == seq![74u8, 80u8, 69u8, 71u8]
    ||| u == seq![80u8, 78u8, 71u8]
}

/// A path is a candidate media file iff it has an extension and that
/// extension, upper-cased, is on the allow-list.
pub open spec fn path_is_candidate(p: Seq<u8>) -> bool {
    match extension_of(p) {
        Some(e) => is_allowed_extension(e),
        None => false,
    }
}

/// Finds the index of the last occurrence of `b` in `s`.
fn find_last(s: &Vec<u8>, b: u8) -> (r: Option<usize>)
    ensures
        match r {
            Some(i) => i < s.len() && last_pos(s@, b) == i,
            None => last_pos(s@, b) == -1,
        },
{
    proof {
        lemma_last_pos(s@, b);
    }
    let mut i: usize = s.len();
    while i > 0
        invariant
            i <= s.len(),
            forall|j: int| i <= j < s@.len() ==> s@[j] != b,
        decreases i,
    {
        i = i - 1;
        if s[i] == b {
            proof {
                lemma_last_pos(s@, b);
                let lp = last_pos(s@, b);
                if lp > i as int {
                    assert(s@[lp] != b);
                } else if lp < i as int {
                    assert(s@[i as int] != b);
                }
            }
            return Some(i);
        }
    }
    None
}

/// Returns true iff the path passes the Path Filter: its extension,
/// upper-cased, is `JPG`, `JPEG` or `PNG`.
pub fn is_candidate(p: &Vec<u8>) -> (r: bool)
    ensures
        r == path_is_candidate(p@),
{
    let slash = find_last(p, SEPARATOR);
    let dot = find_last(p, DOT);
    let name_start: usize = match slash {
        Some(i) => i + 1,
        None => 0,
    };
    match dot {
        None => false,
        Some(d) => {
            if d <= name_start {
                false
            } else {
                let ghost ext = extension_of(p@)->Some_0;
                let mut upper: Vec<u8> = Vec::new();
                let mut i: usize = d + 1;
                while i < p.len()
                    invariant
                        d + 1 <= i <= p@.len(),
                        d < p@.len(),
                        upper@ == p@.subrange(d + 1, i as int).map_values(|b: u8| to_upper(b)),
                    decreases p@.len() - i,
                {
                    let c = p[i];
                    let u = if 97 <= c && c <= 122 { c - 32 } else { c };
                    upper.push(u);
                    i = i + 1;
                    proof {
                        assert(upper@ =~= p@.subrange(d + 1, i as int).map_values(
                            |b: u8| to_upper(b),
                        ));
                    }
                }
                proof {
                    assert(ext =~= p@.subrange(d + 1, i as int));
                }
                let n = upper.len();
                let r = if n == 3 {
                    (upper[0] == 74 && upper[1] == 80 && upper[2] == 71) || (upper[0] == 80
                        && upper[1] == 78 && upper[2] == 71)
                } else if n == 4 {
                    upper[0] == 74 && upper[1] == 80 && upper[2] == 69 && upper[3] == 71
                } else {
                    false
                };
                proof {
                    let u = ext.map_values(|b: u8| to_upper(b));
                    assert(u == upper@);
                    if r {
                        if n == 3 && upper@[0] == 74 {
                            assert(u =~= seq![74u8, 80u8, 71u8]);
                        } else if n == 3 {
                            assert(u =~= seq![80u8, 78u8, 71u8]);
                        } else {
                            assert(u =~= seq![74u8, 80u8, 69u8, 71u8]);
                        }
                    } else {
                        if u == seq![74u8, 80u8, 71u8] {
                            assert(upper@[0] == 74 && upper@[1] == 80 && upper@[2] == 71);
                            assert(false);
                        }
                        if u == seq![80u8, 78u8, 71u8] {
                            assert(upper@[0] == 80 && upper@[1] == 78 && upper@[2] == 71);
                            assert(false);
                        }
                        if u == seq![74u8, 80u8, 69u8, 71u8] {
                            assert(upper@[0] == 74 && upper@[1] == 80 && upper@[2] == 69
                                && upper@[3] == 71);
                            assert(false);
                        }
                    }
                }
                r
            }
        },
    }
}

} // verus!
