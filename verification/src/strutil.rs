use vstd::prelude::*;

verus! {

// ---------------------------------------------------------------------------
// Decimal rendering of unsigned integers
// ---------------------------------------------------------------------------

/// The decimal digit character for a value below ten.
pub open spec fn dec_digit(d: nat) -> char {
    if d == 0 {
        '0'
    } else if d == 1 {
        '1'
    } else if d == 2 {
        '2'
    } else if d == 3 {
        '3'
    } else if d == 4 {
        '4'
    } else if d == 5 {
        '5'
    } else if d == 6 {
        '6'
    } else if d == 7 {
        '7'
    } else if d == 8 {
        '8'
    } else {
        '9'
    }
}

/// The usual decimal rendering of `n`, with no leading zeros (except for 0
/// itself, rendered as "0").
pub open spec fn dec_str(n: nat) -> Seq<char>
    decreases n,
{
    if n < 10 {
        seq![dec_digit(n)]
    } else {
        dec_str(n / 10).push(dec_digit(n % 10))
    }
}

fn dec_digit_str(d: u64) -> (r: &'static str)
    requires
        d < 10,
    ensures
        r@ =~= seq![dec_digit(d as nat)],
{
    proof {
        reveal_strlit("0");
        reveal_strlit("1");
        reveal_strlit("2");
        reveal_strlit("3");
        reveal_strlit("4");
        reveal_strlit("5");
        reveal_strlit("6");
        reveal_strlit("7");
        reveal_strlit("8");
        reveal_strlit("9");
    }
    match d {
        0 => "0",
        1 => "1",
        2 => "2",
        3 => "3",
        4 => "4",
        5 => "5",
        6 => "6",
        7 => "7",
        8 => "8",
        _ => "9",
    }
}

/// Renders `n` in decimal.
pub fn u64_to_string(n: u64) -> (s: String)
    ensures
        s@ == dec_str(n as nat),
    decreases n,
{
    if n < 10 {
        let s = String::from_str(dec_digit_str(n));
        proof {
            assert(s@ =~= dec_str(n as nat));
        }
        s
    } else {
        let hi = u64_to_string(n / 10);
        let s = hi.concat(dec_digit_str(n % 10));
        proof {
            assert(s@ =~= dec_str((n / 10) as nat).push(dec_digit((n % 10) as nat)));
        }
        s
    }
}

// ---------------------------------------------------------------------------
// Suffix after the last occurrence of a separator
// ---------------------------------------------------------------------------

/// Does `s` contain the character `c`?
pub open spec fn contains_char(s: Seq<char>, c: char) -> bool {
    exists|i: int| 0 <= i < s.len() && s[i] == c
}

/// The suffix of `s` after the last occurrence of `sep`; `s` itself when `sep`
/// does not occur.
pub open spec fn after_last(s: Seq<char>, sep: char) -> Seq<char>
    decreases s.len(),
{
    if s.len() == 0 {
        s
    } else if s.last() == sep {
        Seq::empty()
    } else {
        after_last(s.drop_last(), sep).push(s.last())
    }
}

/// `after_last` never contains the separator.
pub proof fn lemma_after_last_no_sep(s: Seq<char>, sep: char)
    ensures
        !contains_char(after_last(s, sep), sep),
    decreases s.len(),
{
    if s.len() == 0 {
    } else if s.last() == sep {
    } else {
        lemma_after_last_no_sep(s.drop_last(), sep);
        let r = after_last(s, sep);
        let r0 = after_last(s.drop_last(), sep);
        assert forall|i: int| 0 <= i < r.len() implies r[i] != sep by {
            if i < r0.len() {
                assert(r[i] == r0[i]);
            } else {
                assert(r[i] == s.last());
            }
        }
    }
}

/// On a string without the separator, `after_last` is the identity.
pub proof fn lemma_after_last_id(s: Seq<char>, sep: char)
    requires
        !contains_char(s, sep),
    ensures
        after_last(s, sep) == s,
    decreases s.len(),
{
    if s.len() == 0 {
        assert(after_last(s, sep) =~= s);
    } else {
        assert(s.last() != sep);
        assert(!contains_char(s.drop_last(), sep)) by {
            assert forall|i: int| 0 <= i < s.drop_last().len() implies s.drop_last()[i] != sep by {
                assert(s.drop_last()[i] == s[i]);
            }
        }
        lemma_after_last_id(s.drop_last(), sep);
        assert(after_last(s, sep) =~= s.drop_last().push(s.last()));
        assert(s.drop_last().push(s.last()) =~= s);
    }
}

/// Appending behind a separator: only the part after the last separator counts.
pub proof fn lemma_after_last_append(a: Seq<char>, b: Seq<char>, sep: char)
    ensures
        after_last(a + seq![sep] + b, sep) == after_last(b, sep),
    decreases b.len(),
{
    let s = a + seq![sep] + b;
    if b.len() == 0 {
        assert(s.last() == sep);
        assert(after_last(b, sep) =~= Seq::<char>::empty());
    } else {
        assert(s.last() == b.last());
        if b.last() == sep {
        } else {
            assert(s.drop_last() =~= a + seq![sep] + b.drop_last());
            lemma_after_last_append(a, b.drop_last(), sep);
        }
    }
}

/// If `s[k-1] == sep` and no separator occurs at or after `k`, then
/// `after_last(s)` is the suffix from `k`.
pub proof fn lemma_after_last_split(s: Seq<char>, sep: char, k: int)
    requires
        0 < k <= s.len(),
        s[k - 1] == sep,
        forall|i: int| k <= i < s.len() ==> s[i] != sep,
    ensures
        after_last(s, sep) == s.subrange(k, s.len() as int),
{
    let a = s.subrange(0, k - 1);
    let b = s.subrange(k, s.len() as int);
    assert(s =~= a + seq![sep] + b);
    lemma_after_last_append(a, b, sep);
    assert(!contains_char(b, sep));
    lemma_after_last_id(b, sep);
}

/// Index just past the last occurrence of `sep` in `s`, or 0 when `sep` does
/// not occur.
fn index_after_last(s: &str, sep: char) -> (k: usize)
    ensures
        k <= s@.len(),
        forall|i: int| k <= i < s@.len() ==> s@[i] != sep,
        k > 0 ==> s@[k - 1] == sep,
{
    let n = s.unicode_len();
    let mut k: usize = n;
    while k > 0
        invariant
            k <= n,
            n == s@.len(),
            forall|i: int| k <= i < s@.len() ==> s@[i] != sep,
        ensures
            k <= n,
            forall|i: int| k <= i < s@.len() ==> s@[i] != sep,
            k > 0 ==> s@[k - 1] == sep,
        decreases k,
    {
        let c = s.get_char(k - 1);
        if c == sep {
            break ;
        }
        k = k - 1;
    }
    k
}

/// The suffix of `s` after the last occurrence of `sep` (all of `s` when `sep`
/// does not occur).
pub fn suffix_after_last(s: &str, sep: char) -> (r: String)
    ensures
        r@ == after_last(s@, sep),
{
    let n = s.unicode_len();
    let k = index_after_last(s, sep);
    let sub = s.substring_char(k, n);
    proof {
        if k > 0 {
            lemma_after_last_split(s@, sep, k as int);
        } else {
            assert(!contains_char(s@, sep));
            lemma_after_last_id(s@, sep);
        }
    }
    String::from_str(sub)
}

// ---------------------------------------------------------------------------
// Prefix test
// ---------------------------------------------------------------------------

/// Does `s` start with `p`?
pub open spec fn is_prefix(p: Seq<char>, s: Seq<char>) -> bool {
    p.len() <= s.len() && p == s.subrange(0, p.len() as int)
}

/// Executable prefix test: does `s` start with `p`?
pub fn str_starts_with(s: &str, p: &str) -> (r: bool)
    ensures
        r == is_prefix(p@, s@),
{
    let np = p.unicode_len();
    let ns = s.unicode_len();
    if np > ns {
        proof {
            assert(!is_prefix(p@, s@));
        }
        return false;
    }
    let mut i: usize = 0;
    while i < np
        invariant
            i <= np,
            np == p@.len(),
            ns == s@.len(),
            np <= ns,
            forall|j: int| 0 <= j < i ==> p@[j] == s@[j],
        decreases np - i,
    {
        if p.get_char(i) != s.get_char(i) {
            proof {
                assert(s@.subrange(0, np as int)[i as int] == s@[i as int]);
                assert(p@ != s@.subrange(0, np as int));
            }
            return false;
        }
        i = i + 1;
    }
    proof {
        assert(p@ =~= s@.subrange(0, np as int));
    }
    true
}

/// Executable character-wise string equality.
pub fn str_eq(a: &str, b: &str) -> (r: bool)
    ensures
        r == (a@ == b@),
{
    let na = a.unicode_len();
    let nb = b.unicode_len();
    if na != nb {
        return false;
    }
    let mut i: usize = 0;
    while i < na
        invariant
            i <= na,
            na == a@.len(),
            na == b@.len(),
            forall|j: int| 0 <= j < i ==> a@[j] == b@[j],
        decreases na - i,
    {
        if a.get_char(i) != b.get_char(i) {
            return false;
        }
        i = i + 1;
    }
    proof {
        assert(a@ =~= b@);
    }
    true
}

// ---------------------------------------------------------------------------
// Decimal parsing
// ---------------------------------------------------------------------------

/// Is `c` a decimal digit?
pub open spec fn is_digit(c: char) -> bool {
    48 <= (c as u32) <= 57
}

/// Value of a digit character.
pub open spec fn digit_val(c: char) -> nat {
    ((c as u32) - 48) as nat
}

/// Are all characters of `s` decimal digits?
pub open spec fn all_digits(s: Seq<char>) -> bool {
    forall|i: int| 0 <= i < s.len() ==> is_digit(#[trigger] s[i])
}

/// Numeric value of a digit string, most significant digit first.
pub open spec fn dec_val(s: Seq<char>) -> nat
    decreases s.len(),
{
    if s.len() == 0 {
        0
    } else {
        dec_val(s.drop_last()) * 10 + digit_val(s.last())
    }
}

/// Appending digits never decreases the value.
pub proof fn lemma_dec_val_prefix_le(s: Seq<char>, i: int, j: int)
    requires
        0 <= i <= j <= s.len(),
    ensures
        dec_val(s.subrange(0, i)) <= dec_val(s.subrange(0, j)),
    decreases j - i,
{
    if i < j {
        lemma_dec_val_prefix_le(s, i, j - 1);
        let sj = s.subrange(0, j);
        assert(sj.drop_last() =~= s.subrange(0, j - 1));
        assert(dec_val(s.subrange(0, j - 1)) <= dec_val(sj)) by {
            assert(dec_val(sj) == dec_val(sj.drop_last()) * 10 + digit_val(sj.last()));
            assert(dec_val(sj.drop_last()) * 10 >= dec_val(sj.drop_last())) by (nonlinear_arith);
        }
    } else {
        assert(s.subrange(0, i) =~= s.subrange(0, j));
    }
}

/// Parses the digit run `s[from..to]` as a decimal number.
///
/// Returns `None` exactly when some character in the range is not a digit or
/// the value does not fit in a `u64`.
pub fn parse_u64_digits(s: &str, from: usize, to: usize) -> (r: Option<u64>)
    requires
        from <= to <= s@.len(),
    ensures
        r is Some <==> (all_digits(s@.subrange(from as int, to as int)) && dec_val(
            s@.subrange(from as int, to as int),
        ) <= u64::MAX),
        r is Some ==> r->0 == dec_val(s@.subrange(from as int, to as int)),
{
    let ghost whole = s@.subrange(from as int, to as int);
    let mut acc: u64 = 0;
    let mut i: usize = from;
    while i < to
        invariant
            from <= i <= to <= s@.len(),
            whole == s@.subrange(from as int, to as int),
            all_digits(s@.subrange(from as int, i as int)),
            acc == dec_val(s@.subrange(from as int, i as int)),
        decreases to - i,
    {
        let c = s.get_char(i);
        let v = c as u32;
        let ghost prev = s@.subrange(from as int, i as int);
        let ghost cur = s@.subrange(from as int, i as int + 1);
        proof {
            assert(cur.drop_last() =~= prev);
            assert(cur.last() == s@[i as int]);
        }
        if v < 48 || v > 57 {
            proof {
                assert(whole[i - from] == s@[i as int]);
                assert(!all_digits(whole));
            }
            return None;
        }
        let d = (v - 48) as u64;
        if acc > (u64::MAX - d) / 10 {
            proof {
                assert(acc * 10 + d > u64::MAX) by (nonlinear_arith)
                    requires
                        acc > (u64::MAX - d) / 10,
                        d <= 9,
                ;
                assert(dec_val(cur) == acc * 10 + d);
                lemma_dec_val_prefix_le(whole, i + 1 - from, whole.len() as int);
                assert(whole.subrange(0, i + 1 - from) =~= cur);
                assert(whole.subrange(0, whole.len() as int) =~= whole);
                assert(dec_val(whole) > u64::MAX);
            }
            return None;
        }
        proof {
            assert(acc * 10 + d <= u64::MAX) by (nonlinear_arith)
                requires
                    acc <= (u64::MAX - d) / 10,
                    d <= 9,
            ;
            assert(dec_val(cur) == acc * 10 + d);
        }
        acc = acc * 10 + d;
        i = i + 1;
    }
    proof {
        assert(s@.subrange(from as int, i as int) =~= whole);
    }
    Some(acc)
}

} // verus!
