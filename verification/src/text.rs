//! Text helpers: decimal and hexadecimal numbers, and joined names.
use vstd::prelude::*;

verus! {

/// The character of a decimal or hexadecimal digit.
pub open spec fn digit_char(d: nat) -> char {
    if d < 10 { (48 + d) as char } else { (87 + d) as char }
}

/// A number in base ten.
pub open spec fn dec(n: nat) -> Seq<char>
    decreases n,
{
    if n < 10 {
        seq![digit_char(n)]
    } else {
        dec(n / 10).push(digit_char(n % 10))
    }
}

/// A number in base sixteen, in lower case.
pub open spec fn hex(n: nat) -> Seq<char>
    decreases n,
{
    if n < 16 {
        seq![digit_char(n)]
    } else {
        hex(n / 16).push(digit_char(n % 16))
    }
}

fn digit_str(d: u64) -> (r: &'static str)
    requires
        d < 16,
    ensures
        r@ == seq![digit_char(d as nat)],
{
    proof {
        reveal_strlit("0");
        reveal_strlit("1");
        reveal_strlit("2");
        reveal_strlit("3");
        reveal_strlit("4");
        reveal_strlit("5");
        reveal_strlit("6");
        reveal_strlit("7");
        reveal_strlit("8");
        reveal_strlit("9");
        reveal_strlit("a");
        reveal_strlit("b");
        reveal_strlit("c");
        reveal_strlit("d");
        reveal_strlit("e");
        reveal_strlit("f");
    }
    let r: &'static str = if d == 0 {
        "0"
    } else if d == 1 {
        "1"
    } else if d == 2 {
        "2"
    } else if d == 3 {
        "3"
    } else if d == 4 {
        "4"
    } else if d == 5 {
        "5"
    } else if d == 6 {
        "6"
    } else if d == 7 {
        "7"
    } else if d == 8 {
        "8"
    } else if d == 9 {
        "9"
    } else if d == 10 {
        "a"
    } else if d == 11 {
        "b"
    } else if d == 12 {
        "c"
    } else if d == 13 {
        "d"
    } else if d == 14 {
        "e"
    } else {
        "f"
    };
    proof {
        assert(r@ =~= seq![digit_char(d as nat)]);
    }
    r
}

/// Appends a number in base ten.
pub fn push_dec(s: &mut String, n: u64)
    ensures
        final(s)@ == old(s)@ + dec(n as nat),
    decreases n,
{
    if n >= 10 {
        push_dec(s, n / 10);
    }
    s.append(digit_str(n % 10));
    proof {
        if n < 10 {
            assert(s@ =~= old(s)@ + dec(n as nat));
        } else {
            assert(s@ =~= old(s)@ + dec((n / 10) as nat).push(digit_char((n % 10) as nat)));
        }
    }
}

/// Appends a number in base sixteen.
pub fn push_hex(s: &mut String, n: u64)
    ensures
        final(s)@ == old(s)@ + hex(n as nat),
    decreases n,
{
    if n >= 16 {
        push_hex(s, n / 16);
    }
    s.append(digit_str(n % 16));
    proof {
        if n < 16 {
            assert(s@ =~= old(s)@ + hex(n as nat));
        } else {
            assert(s@ =~= old(s)@ + hex((n / 16) as nat).push(digit_char((n % 16) as nat)));
        }
    }
}

/// A copy of a text.
pub fn text(a: &str) -> (r: String)
    ensures
        r@ == a@,
{
    a.to_owned()
}

/// Two texts joined.
pub fn join2(a: &str, b: &str) -> (r: String)
    ensures
        r@ == a@ + b@,
{
    let mut r: String = a.to_owned();
    r.append(b);
    r
}

/// A number behind a text.
pub fn labelled(a: &str, n: u64) -> (r: String)
    ensures
        r@ == a@ + dec(n as nat),
{
    let mut r: String = a.to_owned();
    push_dec(&mut r, n);
    r
}

/// A number between two texts.
pub fn numbered(a: &str, n: u64, b: &str) -> (r: String)
    ensures
        r@ == a@ + dec(n as nat) + b@,
{
    let mut r: String = a.to_owned();
    push_dec(&mut r, n);
    r.append(b);
    r
}

/// Whether `s` starts with `p`.
pub open spec fn begins(s: Seq<char>, p: Seq<char>) -> bool {
    p.len() <= s.len() && s.take(p.len() as int) == p
}

pub fn starts_with(s: &str, p: &str) -> (r: bool)
    ensures
        r == begins(s@, p@),
{
    let n: usize = p.unicode_len();
    if n > s.unicode_len() {
        return false;
    }
    let mut i: usize = 0;
    while i < n
        invariant
            n == p@.len(),
            n <= s@.len(),
            i <= n,
            forall|j: int| 0 <= j < i ==> s@[j] == p@[j],
        decreases n - i,
    {
        if s.get_char(i) != p.get_char(i) {
            proof {
                assert(s@.take(n as int)[i as int] != p@[i as int]);
            }
            return false;
        }
        i = i + 1;
    }
    proof {
        assert(s@.take(n as int) =~= p@);
    }
    true
}

/// Whether `p` stands in `s` at position `k`.
pub open spec fn stands_at(s: Seq<char>, p: Seq<char>, k: int) -> bool {
    0 <= k && k + p.len() <= s.len() && s.subrange(k, k + p.len()) == p
}

/// Whether `s` ends with `p`.
pub open spec fn ends(s: Seq<char>, p: Seq<char>) -> bool {
    stands_at(s, p, s.len() - p.len())
}

/// Whether `p` stands anywhere in `s`.
pub open spec fn mentions(s: Seq<char>, p: Seq<char>) -> bool {
    exists|k: int| stands_at(s, p, k)
}

fn is_at(s: &str, p: &str, k: usize) -> (r: bool)
    requires
        k + p@.len() <= s@.len(),
    ensures
        r == stands_at(s@, p@, k as int),
{
    let n: usize = p.unicode_len();
    let m: usize = s.unicode_len();
    let mut i: usize = 0;
    while i < n
        invariant
            n == p@.len(),
            m == s@.len(),
            k + n <= m,
            i <= n,
            forall|j: int| 0 <= j < i ==> s@[k + j] == p@[j],
        decreases n - i,
    {
        if s.get_char(k + i) != p.get_char(i) {
            proof {
                assert(s@.subrange(k as int, k + n)[i as int] != p@[i as int]);
            }
            return false;
        }
        i = i + 1;
    }
    proof {
        assert(s@.subrange(k as int, k + n) =~= p@);
    }
    true
}

/// Whether `s` ends with `p`.
pub fn ends_with(s: &str, p: &str) -> (r: bool)
    ensures
        r == ends(s@, p@),
{
    let n: usize = p.unicode_len();
    let m: usize = s.unicode_len();
    if n > m {
        return false;
    }
    is_at(s, p, m - n)
}

/// Whether `p` stands anywhere in `s`.
pub fn contains_text(s: &str, p: &str) -> (r: bool)
    ensures
        r == mentions(s@, p@),
{
    let n: usize = p.unicode_len();
    let m: usize = s.unicode_len();
    if n > m {
        return false;
    }
    let last: usize = m - n;
    let mut k: usize = 0;
    while k < last
        invariant
            n == p@.len(),
            m == s@.len(),
            n <= m,
            last == m - n,
            k <= last,
            forall|j: int| 0 <= j < k ==> !stands_at(s@, p@, j),
        decreases last - k,
    {
        if is_at(s, p, k) {
            return true;
        }
        k = k + 1;
    }
    is_at(s, p, last)
}

/// The position of the first `/` at or after `k`, or the length.
pub open spec fn slash_from(s: Seq<char>, k: int) -> int
    decreases s.len() - k,
{
    if k >= s.len() {
        s.len() as int
    } else if s[k] == '/' {
        k
    } else {
        slash_from(s, k + 1)
    }
}

/// What stands before the first `/`.
pub open spec fn head_of(s: Seq<char>) -> Seq<char> {
    s.take(slash_from(s, 0))
}

/// What stands before the first `/`.
pub fn head_text(s: &str) -> (r: String)
    ensures
        r@ == head_of(s@),
{
    let n: usize = s.unicode_len();
    let mut k: usize = 0;
    while k < n
        invariant_except_break
            k <= n,
            n == s@.len(),
            slash_from(s@, 0) == slash_from(s@, k as int),
        ensures
            k <= n,
            n == s@.len(),
            slash_from(s@, 0) == k,
        decreases n - k,
    {
        if s.get_char(k) == '/' {
            break;
        }
        k = k + 1;
    }
    let t: &str = s.substring_char(0, k);
    proof {
        assert(t@ =~= head_of(s@));
    }
    t.to_owned()
}

/// Whether two texts are the same.
pub fn same_text(a: &str, b: &str) -> (r: bool)
    ensures
        r == (a@ == b@),
{
    if a.unicode_len() != b.unicode_len() {
        return false;
    }
    let r: bool = starts_with(a, b);
    proof {
        assert(a@.take(a@.len() as int) =~= a@);
    }
    r
}

/// Two different numbers never read the same.
pub proof fn dec_is_injective(m: nat, n: nat)
    ensures
        dec(m) == dec(n) ==> m == n,
    decreases m,
{
    if dec(m) == dec(n) {
        dec_not_empty(m / 10);
        dec_not_empty(n / 10);
        assert(dec(m).last() == digit_char(m % 10));
        assert(dec(n).last() == digit_char(n % 10));
        assert(m % 10 == n % 10);
        if m >= 10 && n >= 10 {
            assert(dec(m).drop_last() =~= dec(m / 10));
            assert(dec(n).drop_last() =~= dec(n / 10));
            dec_is_injective(m / 10, n / 10);
        }
    }
}

proof fn dec_not_empty(n: nat)
    ensures
        dec(n).len() >= 1,
    decreases n,
{
    if n >= 10 {
        dec_not_empty(n / 10);
    }
}

} // verus!
