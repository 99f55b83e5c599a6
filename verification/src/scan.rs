//! Discovery of eligible image files: the extension allowlist and the
//! predicate the directory scanner applies to every candidate path.
//!
//! Walking the directory tree is input/output and lives with the caller;
//! the decision which paths count as images is made here, on the path
//! text alone, and is exact: a path is kept iff its extension, lowercased,
//! is one of `jpg`, `jpeg`, `heic`.
use vstd::prelude::*;

verus! {

/// Byte values of the path characters the filter inspects.
pub const DOT: u8 = 46;

pub const SLASH: u8 = 47;

pub const UPPER_A: u8 = 65;

pub const UPPER_Z: u8 = 90;

pub const CASE_GAP: u8 = 32;

pub const LC_C: u8 = 99;

pub const LC_E: u8 = 101;

pub const LC_G: u8 = 103;

pub const LC_H: u8 = 104;

pub const LC_I: u8 = 105;

pub const LC_J: u8 = 106;

pub const LC_P: u8 = 112;

/// ASCII-lowercases one byte; every other byte is unchanged.
pub open spec fn lower_byte(b: u8) -> u8 {
    if UPPER_A <= b && b <= UPPER_Z {
        (b + CASE_GAP) as u8
    } else {
        b
    }
}

/// The byte at `i` is the dot that starts the extension of the path `s`:
/// the last dot of the last path component, not standing first in that
/// component.
pub open spec fn is_ext_start(s: Seq<u8>, i: int) -> bool {
    &&& 0 < i < s.len()
    &&& s[i] == DOT
    &&& s[i - 1] != SLASH
    &&& forall|j: int| i < j < s.len() ==> s[j] != DOT && s[j] != SLASH
}

/// Lowercased, the extension reads `jpg`, `jpeg` or `heic`.
pub open spec fn is_allowed_ext(e: Seq<u8>) -> bool {
    let l = e.map_values(|b: u8| lower_byte(b));
    ||| l == seq![LC_J, LC_P, LC_G]
    ||| l == seq![LC_J, LC_P, LC_E, LC_G]
    ||| l == seq![LC_H, LC_E, LC_I, LC_C]
}

/// The path, given as its UTF-8 bytes, carries an extension on the
/// allowlist.
pub open spec fn has_image_ext(s: Seq<u8>) -> bool {
    exists|i: int| is_ext_start(s, i) && is_allowed_ext(s.subrange(i + 1, s.len() as int))
}

/// The path, given as text, is eligible for the scan.
pub open spec fn path_is_image(s: Seq<char>) -> bool {
    has_image_ext(vstd::utf8::encode_utf8(s))
}

/// At most one position can start the extension.
proof fn lemma_ext_start_unique(s: Seq<u8>, i1: int, i2: int)
    requires
        is_ext_start(s, i1),
        is_ext_start(s, i2),
    ensures
        i1 == i2,
{
    if i1 < i2 {
        assert(s[i2] != DOT);
    }
    if i2 < i1 {
        assert(s[i1] != DOT);
    }
}

/// ASCII-lowercases one byte.
fn lower(b: u8) -> (r: u8)
    ensures
        r == lower_byte(b),
{
    if b >= UPPER_A && b <= UPPER_Z {
        b + CASE_GAP
    } else {
        b
    }
}

/// Finds the position of the dot that starts the path's extension, if the
/// path has one.
fn find_ext_start(b: &[u8]) -> (r: Option<usize>)
    ensures
        match r {
            Some(i) => is_ext_start(b@, i as int),
            None => forall|i: int| !is_ext_start(b@, i),
        },
{
    let n = b.len();
    let mut i: usize = n;
    while i > 0
        invariant
            i <= n,
            n == b@.len(),
            forall|j: int| i <= j < n ==> b@[j] != DOT && b@[j] != SLASH,
        decreases i,
    {
        let c = b[i - 1];
        if c == DOT {
            if i >= 2 && b[i - 2] != SLASH {
                return Some(i - 1);
            }
            proof {
                assert forall|k: int| !is_ext_start(b@, k) by {
                    if is_ext_start(b@, k) {
                        if k < i - 1 {
                            assert(b@[i - 1] != DOT);
                        } else if k > i - 1 {
                            assert(b@[k] != DOT);
                        }
                    }
                }
            }
            return None;
        }
        if c == SLASH {
            proof {
                assert forall|k: int| !is_ext_start(b@, k) by {
                    if is_ext_start(b@, k) {
                        if k <= i - 1 {
                            assert(b@[i - 1] != SLASH);
                        } else {
                            assert(b@[k] != DOT);
                        }
                    }
                }
            }
            return None;
        }
        i = i - 1;
    }
    proof {
        assert forall|k: int| !is_ext_start(b@, k) by {
            if is_ext_start(b@, k) {
                assert(b@[k] != DOT);
            }
        }
    }
    None
}

/// Decides whether the bytes from `start` to the end, lowercased, read
/// `jpg`, `jpeg` or `heic`.
fn ext_is_allowed(b: &[u8], start: usize) -> (r: bool)
    requires
        start <= b@.len(),
    ensures
        r == is_allowed_ext(b@.subrange(start as int, b@.len() as int)),
{
    let n = b.len();
    let len = n - start;
    let ghost e = b@.subrange(start as int, b@.len() as int);
    let ghost l = e.map_values(|x: u8| lower_byte(x));
    if len == 3 {
        let r = lower(b[start]) == LC_J && lower(b[start + 1]) == LC_P && lower(b[start + 2])
            == LC_G;
        proof {
            if r {
                assert(l =~= seq![LC_J, LC_P, LC_G]);
            } else {
                assert(l != seq![LC_J, LC_P, LC_G]) by {
                    if l == seq![LC_J, LC_P, LC_G] {
                        assert(l[0] == LC_J && l[1] == LC_P && l[2] == LC_G);
                    }
                }
                assert(l.len() == 3);
            }
        }
        r
    } else if len == 4 {
        let jpeg = lower(b[start]) == LC_J && lower(b[start + 1]) == LC_P && lower(b[start + 2])
            == LC_E && lower(b[start + 3]) == LC_G;
        let heic = lower(b[start]) == LC_H && lower(b[start + 1]) == LC_E && lower(b[start + 2])
            == LC_I && lower(b[start + 3]) == LC_C;
        proof {
            if jpeg {
                assert(l =~= seq![LC_J, LC_P, LC_E, LC_G]);
            } else {
                assert(l != seq![LC_J, LC_P, LC_E, LC_G]) by {
                    if l == seq![LC_J, LC_P, LC_E, LC_G] {
                        assert(l[0] == LC_J && l[1] == LC_P && l[2] == LC_E && l[3] == LC_G);
                    }
                }
            }
            if heic {
                assert(l =~= seq![LC_H, LC_E, LC_I, LC_C]);
            } else {
                assert(l != seq![LC_H, LC_E, LC_I, LC_C]) by {
                    if l == seq![LC_H, LC_E, LC_I, LC_C] {
                        assert(l[0] == LC_H && l[1] == LC_E && l[2] == LC_I && l[3] == LC_C);
                    }
                }
            }
            assert(l.len() == 4);
        }
        jpeg || heic
    } else {
        proof {
            assert(l.len() != 3 && l.len() != 4);
        }
        false
    }
}

/// Decides whether a path, given as its UTF-8 bytes, carries an allowed
/// image extension.
pub fn byte_path_is_image(b: &[u8]) -> (r: bool)
    ensures
        r == has_image_ext(b@),
{
    match find_ext_start(b) {
        Some(i) => {
            let nlen = b.len();
            proof {
                assert(i < nlen);
            }
            let r = ext_is_allowed(b, i + 1);
            proof {
                if r {
                    assert(has_image_ext(b@));
                } else {
                    if has_image_ext(b@) {
                        let k = choose|k: int|
                            is_ext_start(b@, k) && is_allowed_ext(
                                b@.subrange(k + 1, b@.len() as int),
                            );
                        lemma_ext_start_unique(b@, k, i as int);
                    }
                }
            }
            r
        },
        None => {
            proof {
                if has_image_ext(b@) {
                    let k = choose|k: int|
                        is_ext_start(b@, k) && is_allowed_ext(b@.subrange(k + 1, b@.len() as int));
                    assert(!is_ext_start(b@, k));
                }
            }
            false
        },
    }
}

/// Decides whether one candidate path names an eligible image file.
pub fn is_valid_image_file(path: &str) -> (r: bool)
    ensures
        r == path_is_image(path@),
{
    byte_path_is_image(path.as_bytes())
}

/// Law: extension-filter correctness at the collection level — a path
/// text stands in the filtered scan iff it stands among the candidates
/// and carries an allowed image extension.
pub proof fn lemma_scan_membership(paths: Seq<Seq<char>>, x: Seq<char>)
    ensures
        paths.filter(|s: Seq<char>| path_is_image(s)).contains(x) <==> (paths.contains(x)
            && path_is_image(x)),
    decreases paths.len(),
{
    reveal(Seq::filter);
    let pred = |s: Seq<char>| path_is_image(s);
    if paths.len() > 0 {
        let head = paths.drop_last();
        lemma_scan_membership(head, x);
        if head.contains(x) {
            let i = choose|i: int| 0 <= i < head.len() && head[i] == x;
            assert(paths[i] == x);
        }
        if paths.contains(x) && x != paths.last() {
            let i = choose|i: int| 0 <= i < paths.len() && paths[i] == x;
            assert(head[i] == x);
        }
        if pred(paths.last()) {
            assert(paths.filter(pred) == head.filter(pred).push(paths.last()));
            if paths.filter(pred).contains(x) && x != paths.last() {
                let i = choose|i: int|
                    0 <= i < paths.filter(pred).len() && paths.filter(pred)[i] == x;
                assert(head.filter(pred)[i] == x);
            }
            assert(paths.filter(pred).contains(paths.last())) by {
                assert(paths.filter(pred).last() == paths.last());
            }
            if head.filter(pred).contains(x) {
                let i = choose|i: int|
                    0 <= i < head.filter(pred).len() && head.filter(pred)[i] == x;
                assert(paths.filter(pred)[i] == x);
            }
        } else {
            assert(paths.filter(pred) == head.filter(pred));
        }
    }
}

/// Keeps exactly the candidate paths that name eligible image files, in
/// order; path-level duplicates are deliberately preserved, since identity
/// is established downstream by content hash.
pub fn filter_image_paths(paths: &Vec<String>) -> (kept: Vec<String>)
    ensures
        kept@.map_values(|p: String| p@) == paths@.map_values(|p: String| p@).filter(
            |s: Seq<char>| path_is_image(s),
        ),
{
    let mut kept: Vec<String> = Vec::new();
    let n = paths.len();
    let ghost all = paths@.map_values(|p: String| p@);
    let ghost pred = |s: Seq<char>| path_is_image(s);
    let mut idx: usize = 0;
    while idx < n
        invariant
            idx <= n,
            n == paths@.len(),
            all == paths@.map_values(|p: String| p@),
            pred == (|s: Seq<char>| path_is_image(s)),
            kept@.map_values(|p: String| p@) == all.take(idx as int).filter(pred),
        decreases n - idx,
    {
        let ghost prefix = all.take(idx as int);
        let p = &paths[idx];
        if is_valid_image_file(p.as_str()) {
            kept.push(p.clone());
        }
        proof {
            reveal(Seq::filter);
            assert(all.take(idx + 1).drop_last() =~= prefix);
            assert(all.take(idx + 1).last() == all[idx as int]);
            if pred(all[idx as int]) {
                assert(kept@.map_values(|q: String| q@) =~= prefix.filter(pred).push(
                    all[idx as int],
                ));
            } else {
                assert(kept@.map_values(|q: String| q@) =~= prefix.filter(pred));
            }
        }
        idx = idx + 1;
    }
    proof {
        assert(all.take(n as int) =~= all);
    }
    kept
}

} // verus!
