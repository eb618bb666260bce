//! Character-level text helpers shared by the rest of the library.
//!
//! Text is modelled as `Seq<char>` (the view of `str` and `String`).
use vstd::prelude::*;

verus! {

broadcast use vstd::string::group_string_axioms;

// ---------------------------------------------------------------------------
// Building and reading strings
// ---------------------------------------------------------------------------
/// Appends one character to a `String` (`String::push`).
#[verifier::external_body]
pub(crate) fn push_char(s: &mut String, c: char)
    ensures
        final(s)@ == old(s)@.push(c),
{
    s.push(c);
}

/// The characters of `s`, in order.
pub fn chars_of(s: &str) -> (v: Vec<char>)
    ensures
        v@ == s@,
{
    let mut v: Vec<char> = Vec::new();
    for c in it: s.chars()
        invariant
            v@ == it.seq().take(it.index() as int),
            it.seq() == s@,
    {
        v.push(c);
    }
    v
}

/// A `String` holding the characters `v[from..to]`.
pub fn string_from_range(v: &Vec<char>, from: usize, to: usize) -> (s: String)
    requires
        from <= to <= v@.len(),
    ensures
        s@ == v@.subrange(from as int, to as int),
{
    let mut s = String::new();
    let mut i = from;
    while i < to
        invariant
            from <= i <= to <= v@.len(),
            s@ == v@.subrange(from as int, i as int),
        decreases to - i,
    {
        push_char(&mut s, v[i]);
        i = i + 1;
    }
    s
}

/// A `String` holding the characters of `v`.
pub fn string_from_chars(v: &Vec<char>) -> (s: String)
    ensures
        s@ == v@,
{
    string_from_range(v, 0, v.len())
}

/// A `String` equal to the literal-like `t`.
pub fn owned(t: &str) -> (s: String)
    ensures
        s@ == t@,
{
    t.to_string()
}

/// Appends the characters of `t` to `s`.
pub fn push_str(s: &mut String, t: &str)
    ensures
        final(s)@ == old(s)@ + t@,
{
    let v = chars_of(t);
    let mut i: usize = 0;
    while i < v.len()
        invariant
            i <= v@.len(),
            v@ == t@,
            s@ == old(s)@ + t@.take(i as int),
        decreases v.len() - i,
    {
        push_char(s, v[i]);
        i = i + 1;
        assert(t@.take(i as int) == t@.take(i - 1).push(t@[i - 1]));
    }
    assert(t@.take(v.len() as int) == t@);
}

/// Whether two strings hold the same characters.
pub fn str_eq(a: &str, b: &str) -> (r: bool)
    ensures
        r == (a@ == b@),
{
    let x = chars_of(a);
    let y = chars_of(b);
    seq_chars_eq(&x, &y)
}

/// Whether two character vectors are equal.
pub fn seq_chars_eq(x: &Vec<char>, y: &Vec<char>) -> (r: bool)
    ensures
        r == (x@ == y@),
{
    if x.len() != y.len() {
        return false;
    }
    let mut i: usize = 0;
    while i < x.len()
        invariant
            x@.len() == y@.len(),
            i <= x@.len(),
            forall|k: int| 0 <= k < i ==> x@[k] == y@[k],
        decreases x.len() - i,
    {
        if x[i] != y[i] {
            return false;
        }
        i = i + 1;
    }
    assert(x@ =~= y@);
    true
}

// ---------------------------------------------------------------------------
// Prefixes, suffixes and searching
// ---------------------------------------------------------------------------
/// `s` with the prefix `p` removed, when `s` starts with `p` (`str::strip_prefix`).
pub open spec fn strip_prefix(s: Seq<char>, p: Seq<char>) -> Option<Seq<char>> {
    if p.len() <= s.len() && s.take(p.len() as int) == p {
        Some(s.skip(p.len() as int))
    } else {
        None
    }
}

/// `s` with the suffix `p` removed, when `s` ends with `p` (`str::strip_suffix`).
pub open spec fn strip_suffix(s: Seq<char>, p: Seq<char>) -> Option<Seq<char>> {
    if p.len() <= s.len() && s.skip(s.len() - p.len()) == p {
        Some(s.take(s.len() - p.len()))
    } else {
        None
    }
}

/// `s` with every trailing repetition of a non-empty `p` removed (`str::trim_end_matches`).
pub open spec fn trim_end_all(s: Seq<char>, p: Seq<char>) -> Seq<char>
    decreases s.len(),
{
    if p.len() > 0 && p.len() <= s.len() && s.skip(s.len() - p.len()) == p {
        trim_end_all(s.take(s.len() - p.len()), p)
    } else {
        s
    }
}

/// Whether `p` occurs in `s` at position `i`.
pub open spec fn occurs_at(s: Seq<char>, p: Seq<char>, i: int) -> bool {
    0 <= i && i + p.len() <= s.len() && s.subrange(i, i + p.len()) == p
}

/// The position of the first occurrence of `p` in `s`, if any (`str::find`, counted in chars).
#[verifier::opaque]
pub open spec fn find_first(s: Seq<char>, p: Seq<char>) -> Option<int> {
    if exists|i: int| occurs_at(s, p, i) {
        Some(choose|i: int| occurs_at(s, p, i) && forall|j: int| 0 <= j < i ==> !occurs_at(s, p, j))
    } else {
        None
    }
}

/// Whether `v[at..]` starts with `p`.
pub fn occurs_at_exec(v: &Vec<char>, p: &Vec<char>, at: usize) -> (r: bool)
    requires
        at <= v@.len(),
    ensures
        r == occurs_at(v@, p@, at as int),
{
    if p.len() > v.len() - at {
        return false;
    }
    let mut k: usize = 0;
    while k < p.len()
        invariant
            at + p@.len() <= v@.len(),
            v@.len() == v.len(),
            k <= p@.len(),
            forall|m: int| 0 <= m < k ==> v@[at + m] == p@[m],
        decreases p.len() - k,
    {
        if v[at + k] != p[k] {
            assert(v@.subrange(at as int, at + p@.len())[k as int] != p@[k as int]);
            return false;
        }
        k = k + 1;
    }
    assert(v@.subrange(at as int, at + p@.len()) =~= p@);
    true
}

/// `str::strip_prefix` on character vectors.
pub fn strip_prefix_exec(v: &Vec<char>, p: &Vec<char>) -> (r: Option<Vec<char>>)
    ensures
        match r {
            Some(rest) => strip_prefix(v@, p@) == Some(rest@),
            None => strip_prefix(v@, p@) is None,
        },
{
    if occurs_at_exec(v, p, 0) {
        assert(v@.subrange(0, p@.len() as int) == v@.take(p@.len() as int));
        Some(sub_vec(v, p.len(), v.len()))
    } else {
        assert(v@.subrange(0, p@.len() as int) == v@.take(p@.len() as int));
        None
    }
}

/// `str::strip_suffix` on character vectors.
pub fn strip_suffix_exec(v: &Vec<char>, p: &Vec<char>) -> (r: Option<Vec<char>>)
    ensures
        match r {
            Some(rest) => strip_suffix(v@, p@) == Some(rest@),
            None => strip_suffix(v@, p@) is None,
        },
{
    if p.len() > v.len() {
        return None;
    }
    let at = v.len() - p.len();
    if occurs_at_exec(v, p, at) {
        assert(v@.subrange(at as int, v@.len() as int) == v@.skip(at as int));
        Some(sub_vec(v, 0, at))
    } else {
        assert(v@.subrange(at as int, v@.len() as int) == v@.skip(at as int));
        None
    }
}

/// `str::trim_end_matches` for a non-empty pattern, on character vectors.
pub fn trim_end_all_exec(v: &Vec<char>, p: &Vec<char>) -> (r: Vec<char>)
    ensures
        r@ == trim_end_all(v@, p@),
{
    let mut end = v.len();
    assert(v@.take(end as int) =~= v@);
    while p.len() > 0 && p.len() <= end && occurs_at_exec(v, p, end - p.len())
        invariant
            end <= v@.len(),
            trim_end_all(v@, p@) == trim_end_all(v@.take(end as int), p@),
        decreases end,
    {
        proof {
            let w = v@.take(end as int);
            assert(w.skip(w.len() - p@.len()) =~= v@.subrange(end - p@.len(), end as int));
            assert(w.take(w.len() - p@.len()) =~= v@.take(end - p@.len()));
        }
        end = end - p.len();
    }
    proof {
        let w = v@.take(end as int);
        if p@.len() > 0 && p@.len() <= end {
            assert(w.skip(w.len() - p@.len()) =~= v@.subrange(end - p@.len(), end as int));
        }
    }
    sub_vec(v, 0, end)
}

/// The characters `v[from..to]` as a new vector.
pub fn sub_vec(v: &Vec<char>, from: usize, to: usize) -> (r: Vec<char>)
    requires
        from <= to <= v@.len(),
    ensures
        r@ == v@.subrange(from as int, to as int),
{
    let mut r: Vec<char> = Vec::new();
    let mut i = from;
    while i < to
        invariant
            from <= i <= to <= v@.len(),
            r@ == v@.subrange(from as int, i as int),
        decreases to - i,
    {
        r.push(v[i]);
        i = i + 1;
    }
    r
}

/// The position of the first occurrence of `p` in `v` (`str::find`, counted in chars).
pub fn find_first_exec(v: &Vec<char>, p: &Vec<char>) -> (r: Option<usize>)
    ensures
        match r {
            Some(i) => find_first(v@, p@) == Some(i as int) && occurs_at(v@, p@, i as int),
            None => find_first(v@, p@) is None,
        },
{
    reveal(find_first);
    if p.len() > v.len() {
        assert forall|k: int| !occurs_at(v@, p@, k) by {}
        return None;
    }
    let last = v.len() - p.len();
    let mut i: usize = 0;
    loop
        invariant_except_break
            i <= last,
            forall|j: int| 0 <= j < i ==> !occurs_at(v@, p@, j),
        invariant
            last + p@.len() == v@.len(),
        ensures
            forall|j: int| 0 <= j <= last ==> !occurs_at(v@, p@, j),
        decreases last - i,
    {
        if occurs_at_exec(v, p, i) {
            reveal(find_first);
            assert(occurs_at(v@, p@, i as int));
            let ghost c = choose|k: int| occurs_at(v@, p@, k) && forall|j: int| 0 <= j < k ==> !occurs_at(v@, p@, j);
            assert(c == i) by {
                if c < i {
                } else if c > i {
                    assert(!occurs_at(v@, p@, i as int));
                }
            }
            return Some(i);
        }
        if i == last {
            break;
        }
        i = i + 1;
    }
    assert forall|k: int| !occurs_at(v@, p@, k) by {
        if 0 <= k && k + p@.len() <= v@.len() {
            assert(k <= last);
        }
    }
    None
}

// ---------------------------------------------------------------------------
// Ordering
// ---------------------------------------------------------------------------
/// Lexicographic "less than" on character sequences, by code point. Since UTF-8
/// preserves code point order, this is the order in which `str` values compare.
pub open spec fn seq_less(a: Seq<char>, b: Seq<char>) -> bool
    decreases a.len(),
{
    if a.len() == 0 {
        b.len() > 0
    } else if b.len() == 0 {
        false
    } else if (a[0] as u32) < (b[0] as u32) {
        true
    } else if (a[0] as u32) > (b[0] as u32) {
        false
    } else {
        seq_less(a.drop_first(), b.drop_first())
    }
}

/// Whether `a` sorts strictly before `b`.
pub fn str_less(a: &str, b: &str) -> (r: bool)
    ensures
        r == seq_less(a@, b@),
{
    let x = chars_of(a);
    let y = chars_of(b);
    let mut i: usize = 0;
    assert(x@.skip(0) =~= x@);
    assert(y@.skip(0) =~= y@);
    while i < x.len() && i < y.len()
        invariant
            x@ == a@,
            y@ == b@,
            i <= x@.len(),
            i <= y@.len(),
            seq_less(x@, y@) == seq_less(x@.skip(i as int), y@.skip(i as int)),
        decreases x.len() - i,
    {
        let c = x[i];
        let d = y[i];
        proof {
            assert(x@.skip(i as int)[0] == c);
            assert(y@.skip(i as int)[0] == d);
            assert(x@.skip(i as int).drop_first() =~= x@.skip(i + 1));
            assert(y@.skip(i as int).drop_first() =~= y@.skip(i + 1));
        }
        if (c as u32) < (d as u32) {
            return true;
        }
        if (c as u32) > (d as u32) {
            return false;
        }
        i = i + 1;
    }
    i < y.len()
}

// ---------------------------------------------------------------------------
// Decimal numbers
// ---------------------------------------------------------------------------
/// The ASCII digit for `d < 10`.
pub open spec fn digit_char(d: int) -> char {
    if d == 0 { '0' }
    else if d == 1 { '1' }
    else if d == 2 { '2' }
    else if d == 3 { '3' }
    else if d == 4 { '4' }
    else if d == 5 { '5' }
    else if d == 6 { '6' }
    else if d == 7 { '7' }
    else if d == 8 { '8' }
    else { '9' }
}

/// The value of an ASCII digit, or `None`.
pub open spec fn digit_value(c: char) -> Option<int> {
    if '0' <= c && c <= '9' {
        Some((c as u32) - ('0' as u32))
    } else {
        None
    }
}

/// The decimal digits of `n`, without leading zeros (`"0"` for zero).
pub open spec fn nat_text(n: nat) -> Seq<char>
    decreases n,
{
    if n < 10 {
        seq![digit_char(n as int)]
    } else {
        nat_text(n / 10).push(digit_char((n % 10) as int))
    }
}

/// The decimal text of an integer, with a leading `-` when negative (how `Display` writes integers).
pub open spec fn int_text(i: int) -> Seq<char> {
    if i < 0 {
        seq!['-'] + nat_text((-i) as nat)
    } else {
        nat_text(i as nat)
    }
}

fn digit_exec(d: u64) -> (c: char)
    requires
        d < 10,
    ensures
        c == digit_char(d as int),
{
    if d == 0 { '0' }
    else if d == 1 { '1' }
    else if d == 2 { '2' }
    else if d == 3 { '3' }
    else if d == 4 { '4' }
    else if d == 5 { '5' }
    else if d == 6 { '6' }
    else if d == 7 { '7' }
    else if d == 8 { '8' }
    else { '9' }
}

/// Appends the decimal text of `n` to `s`.
pub fn push_u64_text(s: &mut String, n: u64)
    ensures
        final(s)@ == old(s)@ + nat_text(n as nat),
    decreases n,
{
    if n < 10 {
        push_char(s, digit_exec(n));
        assert(nat_text(n as nat) == seq![digit_char(n as int)]);
    } else {
        push_u64_text(s, n / 10);
        push_char(s, digit_exec(n % 10));
        assert(nat_text(n as nat) == nat_text((n / 10) as nat).push(digit_char((n % 10) as int)));
        assert(final(s)@ == old(s)@ + nat_text(n as nat));
    }
}

/// Appends the decimal text of `i` to `s`.
pub fn push_i64_text(s: &mut String, i: i64)
    ensures
        final(s)@ == old(s)@ + int_text(i as int),
{
    if i < 0 {
        push_char(s, '-');
        let m: u64 = if i == i64::MIN { 9223372036854775808u64 } else { (-i) as u64 };
        push_u64_text(s, m);
        assert(final(s)@ =~= old(s)@ + int_text(i as int));
    } else {
        push_u64_text(s, i as u64);
    }
}

/// The decimal text of `i`, as `i.to_string()` writes it.
pub fn i64_text(i: i64) -> (s: String)
    ensures
        s@ == int_text(i as int),
{
    let mut s = String::new();
    push_i64_text(&mut s, i);
    assert(s@ =~= int_text(i as int));
    s
}

/// The value of a sequence of decimal digits, or `None` when a character is not a digit.
pub open spec fn digits_value(d: Seq<char>) -> Option<int>
    decreases d.len(),
{
    if d.len() == 0 {
        Some(0)
    } else {
        match (digits_value(d.drop_last()), digit_value(d.last())) {
            (Some(v), Some(x)) => Some(v * 10 + x),
            _ => None,
        }
    }
}

/// What `str::parse::<i64>` returns: an optional `+` or `-` sign, then one or more
/// ASCII digits, the value fitting in `i64`; `None` for anything else.
pub open spec fn parse_i64_spec(s: Seq<char>) -> Option<i64> {
    let (neg, d) = if s.len() > 0 && s[0] == '-' {
        (true, s.drop_first())
    } else if s.len() > 0 && s[0] == '+' {
        (false, s.drop_first())
    } else {
        (false, s)
    };
    if d.len() == 0 {
        None
    } else {
        match digits_value(d) {
            Some(v) => {
                let x = if neg { -v } else { v };
                if i64::MIN <= x <= i64::MAX {
                    Some(x as i64)
                } else {
                    None
                }
            },
            None => None,
        }
    }
}

proof fn lemma_digits_value_nonneg(d: Seq<char>)
    ensures
        digits_value(d) matches Some(v) ==> v >= 0,
    decreases d.len(),
{
    if d.len() > 0 {
        lemma_digits_value_nonneg(d.drop_last());
    }
}

proof fn lemma_digits_value_prefix(d: Seq<char>, k: int)
    requires
        0 <= k <= d.len(),
        digits_value(d) is Some,
    ensures
        digits_value(d.take(k)) is Some,
        digits_value(d.take(k))->0 <= digits_value(d)->0,
    decreases d.len(),
{
    lemma_digits_value_nonneg(d);
    if k == d.len() {
        assert(d.take(k) =~= d);
    } else {
        assert(d.drop_last().take(k) =~= d.take(k));
        lemma_digits_value_prefix(d.drop_last(), k);
        lemma_digits_value_nonneg(d.drop_last());
    }
}

/// `str::parse::<i64>`.
pub fn parse_i64(s: &str) -> (r: Option<i64>)
    ensures
        r == parse_i64_spec(s@),
{
    let v = chars_of(s);
    let n = v.len();
    let mut start: usize = 0;
    let mut neg = false;
    if n > 0 && v[0] == '-' {
        start = 1;
        neg = true;
    } else if n > 0 && v[0] == '+' {
        start = 1;
    }
    if start == n {
        proof {
            if start == 1 {
                assert(s@.drop_first().len() == 0);
            }
        }
        return None;
    }
    let ghost d = s@.skip(start as int);
    assert(start == 1 ==> d =~= s@.drop_first());
    assert(start == 0 ==> d =~= s@);
    // accumulate the magnitude; 2^63 bounds the magnitude of any i64
    let mut acc: u64 = 0;
    let mut i = start;
    while i < n
        invariant
            start <= i <= n,
            n == v@.len(),
            v@ == s@,
            d == s@.skip(start as int),
            neg == (s@.len() > 0 && s@[0] == '-'),
            start == (if s@.len() > 0 && (s@[0] == '-' || s@[0] == '+') { 1int } else { 0int }),
            start == 1 ==> d == s@.drop_first(),
            start == 0 ==> d == s@,
            digits_value(d.take(i - start)) == Some(acc as int),
            acc <= 9223372036854775808u64,
        decreases n - i,
    {
        let c = v[i];
        proof {
            assert(d.take(i - start + 1).drop_last() =~= d.take(i - start));
            assert(d.take(i - start + 1).last() == c);
        }
        if c < '0' || c > '9' {
            proof {
                assert(digit_value(c) is None);
                assert(digits_value(d.take(i - start + 1)) is None);
                if digits_value(d) is Some {
                    lemma_digits_value_prefix(d, i - start + 1);
                }
                assert(digits_value(d) is None);
                assert(d.len() > 0);
            }
            return None;
        }
        let x = (c as u32 - '0' as u32) as u64;
        if acc > (9223372036854775808u64 - x) / 10 {
            proof {
                assert(acc * 10 + x > 9223372036854775808u64) by (nonlinear_arith)
                    requires acc > (9223372036854775808u64 - x) / 10, x <= 9;
                assert(digit_value(c) == Some(x as int));
                assert(digits_value(d.take(i - start + 1)) == Some(acc * 10 + x));
                if digits_value(d) is Some {
                    lemma_digits_value_prefix(d, i - start + 1);
                }
                assert(digits_value(d) is None || digits_value(d)->0 > 9223372036854775808u64);
            }
            return None;
        }
        assert(acc * 10 + x <= 9223372036854775808u64) by (nonlinear_arith)
            requires acc <= (9223372036854775808u64 - x) / 10, x <= 9;
        acc = acc * 10 + x;
        i = i + 1;
    }
    assert(d.take(n - start) =~= d);
    if neg {
        if acc == 9223372036854775808u64 {
            Some(i64::MIN)
        } else {
            Some(-(acc as i64))
        }
    } else {
        if acc == 9223372036854775808u64 {
            None
        } else {
            Some(acc as i64)
        }
    }
}

} // verus!
