//! Prefill widths that a setting names.
use vstd::prelude::*;

use crate::args::{number, parse_u32};

verus! {

/// Whether a character is white space.
pub open spec fn is_space(c: char) -> bool {
    let n = c as int;
    ||| 0x9 <= n <= 0xd
    ||| n == 0x20
    ||| n == 0x85
    ||| n == 0xa0
    ||| n == 0x1680
    ||| 0x2000 <= n <= 0x200a
    ||| n == 0x2028
    ||| n == 0x2029
    ||| n == 0x202f
    ||| n == 0x205f
    ||| n == 0x3000
}

fn is_white(c: char) -> (r: bool)
    ensures
        r == is_space(c),
{
    let n: u32 = c as u32;
    (0x9 <= n && n <= 0xd) || n == 0x20 || n == 0x85 || n == 0xa0 || n == 0x1680 || (0x2000 <= n && n
        <= 0x200a) || n == 0x2028 || n == 0x2029 || n == 0x202f || n == 0x205f || n == 0x3000
}

/// A text without the white space at its ends.
pub open spec fn trimmed(s: Seq<char>) -> Seq<char>
    decreases s.len(),
{
    if s.len() == 0 {
        s
    } else if is_space(s[0]) {
        trimmed(s.subrange(1, s.len() as int))
    } else if is_space(s.last()) {
        trimmed(s.drop_last())
    } else {
        s
    }
}

fn trim<'a>(s: &'a str) -> (r: &'a str)
    ensures
        r@ == trimmed(s@),
{
    let n: usize = s.unicode_len();
    let mut lo: usize = 0;
    proof {
        assert(s@.subrange(0, n as int) =~= s@);
    }
    while lo < n && is_white(s.get_char(lo))
        invariant
            n == s@.len(),
            lo <= n,
            trimmed(s@.subrange(lo as int, n as int)) == trimmed(s@),
        decreases n - lo,
    {
        proof {
            let t = s@.subrange(lo as int, n as int);
            assert(t[0] == s@[lo as int]);
            assert(t.subrange(1, t.len() as int) =~= s@.subrange(lo + 1, n as int));
        }
        lo = lo + 1;
    }
    let mut hi: usize = n;
    while lo < hi && is_white(s.get_char(hi - 1))
        invariant
            n == s@.len(),
            lo <= hi <= n,
            lo < hi ==> !is_space(s@[lo as int]),
            trimmed(s@.subrange(lo as int, hi as int)) == trimmed(s@),
        decreases hi - lo,
    {
        proof {
            let t = s@.subrange(lo as int, hi as int);
            assert(t[0] == s@[lo as int]);
            assert(t.last() == s@[hi - 1]);
            assert(t.drop_last() =~= s@.subrange(lo as int, hi - 1));
        }
        hi = hi - 1;
    }
    proof {
        let t = s@.subrange(lo as int, hi as int);
        if lo < hi {
            assert(t[0] == s@[lo as int]);
            assert(t.last() == s@[hi - 1]);
        }
    }
    s.substring_char(lo, hi)
}

/// The pieces of a text between its commas.
pub open spec fn pieces(s: Seq<char>) -> Seq<Seq<char>>
    decreases s.len(),
{
    if s.len() == 0 {
        seq![Seq::<char>::empty()]
    } else {
        let p = pieces(s.drop_last());
        if s.last() == ',' {
            p.push(Seq::empty())
        } else {
            p.drop_last().push(p.last().push(s.last()))
        }
    }
}

/// The numbers among some pieces, each without the white space at its ends; other pieces count for
/// nothing.
pub open spec fn numbers(p: Seq<Seq<char>>) -> Seq<u32>
    decreases p.len(),
{
    if p.len() == 0 {
        Seq::empty()
    } else {
        let before = numbers(p.drop_last());
        match number(trimmed(p.last())) {
            Some(n) => before.push(n),
            None => before,
        }
    }
}

/// The widths that a list names, with commas between them.
pub open spec fn listed(s: Option<Seq<char>>) -> Seq<u32> {
    match s {
        Some(t) => numbers(pieces(t)),
        None => Seq::empty(),
    }
}

fn read_piece(out: &mut Vec<u32>, piece: &str, before: Ghost<Seq<Seq<char>>>)
    requires
        old(out)@ == numbers(before@),
    ensures
        final(out)@ == numbers(before@.push(piece@)),
{
    proof {
        assert(before@.push(piece@).drop_last() =~= before@);
    }
    if let Some(n) = parse_u32(trim(piece)) {
        out.push(n);
    }
}

/// The widths that a list names.
pub fn read_list(s: &str) -> (r: Vec<u32>)
    ensures
        r@ == listed(Some(s@)),
{
    let n: usize = s.unicode_len();
    let mut r: Vec<u32> = Vec::new();
    let ghost mut before: Seq<Seq<char>> = Seq::empty();
    let mut start: usize = 0;
    let mut i: usize = 0;
    proof {
        assert(s@.take(0) =~= Seq::empty());
        assert(pieces(s@.take(0)) =~= before.push(s@.subrange(0, 0)));
    }
    while i < n
        invariant
            n == s@.len(),
            start <= i <= n,
            pieces(s@.take(i as int)) == before.push(s@.subrange(start as int, i as int)),
            r@ == numbers(before),
        decreases n - i,
    {
        let ghost piece = s@.subrange(start as int, i as int);
        let c: char = s.get_char(i);
        proof {
            let t = s@.take(i + 1);
            assert(t.drop_last() =~= s@.take(i as int));
            assert(t.last() == c);
            assert(before.push(piece).drop_last() =~= before);
        }
        if c == ',' {
            read_piece(&mut r, s.substring_char(start, i), Ghost(before));
            start = i + 1;
            proof {
                before = before.push(piece);
                assert(s@.subrange(i + 1, i + 1) =~= Seq::<char>::empty());
                assert(pieces(s@.take(i + 1)) == before.push(Seq::<char>::empty()));
            }
        } else {
            proof {
                assert(piece.push(c) =~= s@.subrange(start as int, i + 1));
            }
        }
        i = i + 1;
    }
    read_piece(&mut r, s.substring_char(start, n), Ghost(before));
    proof {
        assert(s@.take(n as int) =~= s@);
    }
    r
}

} // verus!
