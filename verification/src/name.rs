//! File-name logic: extensions, stems, and the derived output name.
//!
//! A name is a byte string, as the operating system stores path components.
//! A file is eligible for conversion when its name carries a non-empty
//! extension: a dot stands strictly after the first byte and strictly before
//! the last. The output name replaces the extension with `png`.

use vstd::prelude::*;

verus! {

/// The byte `.` that separates a stem from its extension.
pub const DOT: u8 = 46;

/// The bytes of the suffix `.png` appended to a stem.
pub open spec fn png_suffix() -> Seq<u8> {
    seq![46u8, 112u8, 110u8, 103u8]
}

/// `i` is the index of the last dot in `name`.
pub open spec fn last_dot_at(name: Seq<u8>, i: int) -> bool {
    &&& 0 <= i < name.len()
    &&& name[i] == DOT
    &&& forall|j: int| i < j < name.len() ==> name[j] != DOT
}

/// The name carries a non-empty extension: its last dot stands strictly
/// after the first byte (a leading dot alone marks a hidden file, not an
/// extension) and strictly before the last byte.
pub open spec fn eligible_name(name: Seq<u8>) -> bool {
    exists|i: int| last_dot_at(name, i) && 1 <= i < name.len() - 1
}

/// The part of an eligible name before its last dot.
pub open spec fn stem_of(name: Seq<u8>) -> Seq<u8> {
    name.subrange(0, choose|i: int| last_dot_at(name, i) && 1 <= i < name.len() - 1)
}

/// The derived output name: the stem with the target extension appended.
pub open spec fn png_name_of(name: Seq<u8>) -> Seq<u8> {
    stem_of(name) + png_suffix()
}

/// A name has at most one last dot.
pub proof fn lemma_last_dot_unique(name: Seq<u8>, i: int, j: int)
    requires
        last_dot_at(name, i),
        last_dot_at(name, j),
    ensures
        i == j,
{
    if i < j {
        assert(name[j] != DOT);
    }
    if j < i {
        assert(name[i] != DOT);
    }
}

/// Index of the last dot in `name`, if any dot stands in it.
pub fn find_last_dot(name: &Vec<u8>) -> (r: Option<usize>)
    ensures
        match r {
            Some(i) => last_dot_at(name@, i as int),
            None => forall|j: int| 0 <= j < name@.len() ==> name@[j] != DOT,
        },
{
    let mut k: usize = name.len();
    while k > 0
        invariant
            k <= name@.len(),
            forall|j: int| k <= j < name@.len() ==> name@[j] != DOT,
        decreases k,
    {
        k = k - 1;
        if name[k] == DOT {
            return Some(k);
        }
    }
    None
}

/// Derives the output name for an eligible input name, `None` otherwise.
/// Returns `Some` exactly on names with a non-empty extension; the output
/// is the stem followed by `.png`.
pub fn try_output_name(name: &Vec<u8>) -> (r: Option<Vec<u8>>)
    ensures
        r is Some <==> eligible_name(name@),
        r is Some ==> r->0@ == png_name_of(name@),
{
    match find_last_dot(name) {
        None => {
            assert(!eligible_name(name@)) by {
                if eligible_name(name@) {
                    let i = choose|i: int| last_dot_at(name@, i) && 1 <= i < name@.len() - 1;
                    assert(name@[i] == DOT);
                }
            }
            None
        },
        Some(i) => {
            assert(i < name@.len());
            if i >= 1 && i < name.len() - 1 {
                assert(eligible_name(name@));
                let mut out: Vec<u8> = Vec::new();
                let mut k: usize = 0;
                while k < i
                    invariant
                        k <= i < name@.len(),
                        out@ == name@.subrange(0, k as int),
                    decreases i - k,
                {
                    out.push(name[k]);
                    assert(out@ == name@.subrange(0, k + 1 as int));
                    k = k + 1;
                }
                out.push(DOT);
                out.push(112);
                out.push(110);
                out.push(103);
                proof {
                    let c = choose|c: int| last_dot_at(name@, c) && 1 <= c < name@.len() - 1;
                    lemma_last_dot_unique(name@, c, i as int);
                    assert(out@ =~= png_name_of(name@));
                }
                Some(out)
            } else {
                assert(!eligible_name(name@)) by {
                    if eligible_name(name@) {
                        let c = choose|c: int| last_dot_at(name@, c) && 1 <= c < name@.len() - 1;
                        lemma_last_dot_unique(name@, c, i as int);
                    }
                }
                None
            }
        },
    }
}

/// Collision law: two eligible names with the same stem map to the same
/// output name, whatever their extensions; the later write silently
/// overwrites the earlier one.
pub proof fn lemma_stem_collision(a: Seq<u8>, b: Seq<u8>)
    requires
        eligible_name(a),
        eligible_name(b),
        stem_of(a) == stem_of(b),
    ensures
        png_name_of(a) == png_name_of(b),
{
}

} // verus!
