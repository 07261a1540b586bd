//! Derives the companion file path for a saved mask from the output
//! path, as bytes: `dir/name.ext` becomes `dir/name_mask.ext`.

use vstd::prelude::*;

verus! {

/// The position of the last occurrence of `x` in `s`, or -1.
pub open spec fn last_index_of(s: Seq<u8>, x: u8) -> int
    decreases s.len(),
{
    if s.len() == 0 {
        -1
    } else if s.last() == x {
        s.len() - 1
    } else {
        last_index_of(s.drop_last(), x)
    }
}

/// The last index found never reaches past the sequence.
pub proof fn lemma_last_index_of_bounds(s: Seq<u8>, x: u8)
    ensures
        -1 <= last_index_of(s, x) < s.len(),
        last_index_of(s, x) >= 0 ==> s[last_index_of(s, x)] == x,
    decreases s.len(),
{
    if s.len() > 0 && s.last() != x {
        lemma_last_index_of_bounds(s.drop_last(), x);
    }
}

/// The mask path for output path `s`: the directory part (up to and
/// including the last slash) is kept; `_mask` is inserted between the
/// file stem and its dot-extension. A name without an extension — no
/// dot past its first byte — gets `.png`; an empty name stands in for
/// `output.png`.
pub open spec fn mask_path_spec(s: Seq<u8>) -> Seq<u8> {
    let dir = s.take(last_index_of(s, 47u8) + 1);
    let name = s.skip(last_index_of(s, 47u8) + 1);
    let dot = last_index_of(name, 46u8);
    let stem = if name.len() == 0 {
        output_stem()
    } else if dot > 0 {
        name.take(dot)
    } else {
        name
    };
    let ext = if name.len() > 0 && dot > 0 {
        name.skip(dot + 1)
    } else {
        png_ext()
    };
    dir + stem + mask_infix() + ext
}

/// The fallback stem, the bytes of `output`.
pub open spec fn output_stem() -> Seq<u8> {
    seq![111u8, 117u8, 116u8, 112u8, 117u8, 116u8]
}

/// The fallback extension, the bytes of `png`.
pub open spec fn png_ext() -> Seq<u8> {
    seq![112u8, 110u8, 103u8]
}

/// The inserted marker, the bytes of `_mask.`.
pub open spec fn mask_infix() -> Seq<u8> {
    seq![95u8, 109u8, 97u8, 115u8, 107u8, 46u8]
}

/// Appends `s[lo..hi]` to `out`.
fn push_range(out: &mut Vec<u8>, s: &Vec<u8>, lo: usize, hi: usize)
    requires
        lo <= hi <= s@.len(),
    ensures
        final(out)@ == old(out)@ + s@.subrange(lo as int, hi as int),
{
    let mut i: usize = lo;
    while i < hi
        invariant
            lo <= i <= hi <= s@.len(),
            out@ == old(out)@ + s@.subrange(lo as int, i as int),
        decreases hi - i,
    {
        out.push(s[i]);
        proof {
            assert(s@.subrange(lo as int, i + 1) =~= s@.subrange(lo as int, i as int).push(
                s@[i as int],
            ));
        }
        i = i + 1;
    }
    proof {
        assert(out@ =~= old(out)@ + s@.subrange(lo as int, hi as int));
    }
}

/// Finds `last_index_of` over `s[from..s.len()]`, as a flag and an index.
fn scan_last(s: &Vec<u8>, from: usize, x: u8) -> (r: (bool, usize))
    requires
        from <= s@.len(),
    ensures
        ({
            let li = last_index_of(s@.skip(from as int), x);
            (r.0 <==> li >= 0) && (r.0 ==> r.1 == li)
        }),
{
    let n = s.len();
    let mut found = false;
    let mut at: usize = 0;
    let mut i: usize = from;
    while i < n
        invariant
            from <= i <= n,
            n == s@.len(),
            ({
                let li = last_index_of(s@.skip(from as int).take(i - from), x);
                (found <==> li >= 0) && (found ==> at == li)
            }),
        decreases n - i,
    {
        let ghost prefix = s@.skip(from as int).take(i - from);
        if s[i] == x {
            found = true;
            at = i - from;
        }
        proof {
            let next = s@.skip(from as int).take(i + 1 - from);
            assert(next.drop_last() =~= prefix);
            assert(next.last() == s@[i as int]);
        }
        i = i + 1;
    }
    proof {
        assert(s@.skip(from as int).take(n - from) =~= s@.skip(from as int));
    }
    (found, at)
}

/// Builds the companion path for a saved mask from the output path:
/// keeps the directory, inserts `_mask` before the extension, and falls
/// back to the stem `output` and the extension `png` where the name or
/// the extension is missing.
#[verifier::rlimit(60)]
pub fn generate_mask_path(output_path: &Vec<u8>) -> (r: Vec<u8>)
    ensures
        r@ == mask_path_spec(output_path@),
{
    let n = output_path.len();
    let (has_slash, slash) = scan_last(output_path, 0, 47);
    proof {
        lemma_last_index_of_bounds(output_path@, 47u8);
        assert(output_path@.skip(0) =~= output_path@);
    }
    let start: usize = if has_slash {
        slash + 1
    } else {
        0
    };
    let ghost name = output_path@.skip(start as int);
    let (has_dot, dot) = scan_last(output_path, start, 46);
    proof {
        lemma_last_index_of_bounds(name, 46u8);
    }

    let mut r: Vec<u8> = Vec::new();
    // Directory, up to and including the last slash.
    push_range(&mut r, output_path, 0, start);
    proof {
        assert(output_path@.subrange(0, start as int) =~= output_path@.take(start as int));
        assert(Seq::<u8>::empty() + output_path@.take(start as int) =~= output_path@.take(
            start as int,
        ));
    }
    let ghost dir = output_path@.take(start as int);

    // Stem.
    if start == n {
        r.push(111);
        r.push(117);
        r.push(116);
        r.push(112);
        r.push(117);
        r.push(116);
        proof {
            assert(r@ =~= dir + output_stem());
        }
    } else if has_dot && dot > 0 {
        push_range(&mut r, output_path, start, start + dot);
        proof {
            assert(output_path@.subrange(start as int, start + dot) =~= name.take(dot as int));
        }
    } else {
        push_range(&mut r, output_path, start, n);
        proof {
            assert(output_path@.subrange(start as int, n as int) =~= name);
        }
    }
    let ghost stem_done = r@;

    // The marker.
    r.push(95);
    r.push(109);
    r.push(97);
    r.push(115);
    r.push(107);
    r.push(46);
    proof {
        assert(r@ =~= stem_done + mask_infix());
    }
    let ghost infix_done = r@;

    // Extension.
    if start < n && has_dot && dot > 0 {
        push_range(&mut r, output_path, start + dot + 1, n);
        proof {
            assert(output_path@.subrange(start + dot + 1, n as int) =~= name.skip(dot + 1));
        }
    } else {
        r.push(112);
        r.push(110);
        r.push(103);
        proof {
            assert(r@ =~= infix_done + png_ext());
        }
    }
    proof {
        assert(r@ =~= mask_path_spec(output_path@));
    }
    r
}

} // verus!
