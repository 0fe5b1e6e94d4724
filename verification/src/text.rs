use vstd::prelude::*;

verus! {

// ---------------------------------------------------------------------------
// Searching for a pattern inside a character sequence
// ---------------------------------------------------------------------------

/// The pattern `p` occurs in `s` starting at position `i`.
pub open spec fn occurs_at(s: Seq<char>, p: Seq<char>, i: int) -> bool {
    0 <= i && i + p.len() <= s.len() && s.subrange(i, i + p.len() as int) == p
}

/// Position of the first occurrence of `p` in `s`, if there is one.
pub open spec fn spec_find(s: Seq<char>, p: Seq<char>) -> Option<int>
    decreases s.len() when p.len() >= 1
{
    if occurs_at(s, p, 0) {
        Some(0 as int)
    } else if s.len() == 0 {
        None
    } else {
        match spec_find(s.drop_first(), p) {
            Some(i) => Some(i + 1),
            None => None,
        }
    }
}

/// `spec_find` returns the first occurrence: a position where the pattern
/// occurs and before which it nowhere occurs, or `None` when the pattern
/// occurs nowhere at all.
pub proof fn lemma_spec_find(s: Seq<char>, p: Seq<char>)
    requires
        p.len() >= 1,
    ensures
        match spec_find(s, p) {
            Some(i) => occurs_at(s, p, i) && (forall|k: int| 0 <= k < i ==> !occurs_at(s, p, k)),
            None => forall|k: int| !occurs_at(s, p, k),
        },
    decreases s.len(),
{
    if occurs_at(s, p, 0) {
    } else if s.len() == 0 {
        assert(forall|k: int| !occurs_at(s, p, k));
    } else {
        let t = s.drop_first();
        lemma_spec_find(t, p);
        assert forall|k: int| 0 <= k implies occurs_at(s, p, k + 1) == occurs_at(t, p, k) by {
            if k + 1 + p.len() <= s.len() {
                assert(t.subrange(k, k + p.len() as int) =~= s.subrange(k + 1, k + 1 + p.len() as int));
            }
        }
        match spec_find(t, p) {
            Some(i) => {
                assert(occurs_at(s, p, i + 1));
                assert forall|k: int| 0 <= k < i + 1 implies !occurs_at(s, p, k) by {
                    if k >= 1 {
                        assert(!occurs_at(t, p, k - 1));
                    }
                }
            }
            None => {
                assert forall|k: int| !occurs_at(s, p, k) by {
                    if k >= 1 {
                        assert(!occurs_at(t, p, k - 1));
                    }
                }
            }
        }
    }
}

/// Compares `p` against the characters of `s` starting at position `i`.
fn occurs_check(s: &str, p: &str, i: usize) -> (r: bool)
    requires
        i + p@.len() <= s@.len(),
    ensures
        r == occurs_at(s@, p@, i as int),
{
    let n = s.unicode_len();
    let m = p.unicode_len();
    let mut j: usize = 0;
    let mut ok = true;
    while j < m
        invariant
            j <= m,
            m == p@.len(),
            n == s@.len(),
            i + m <= n,
            ok ==> forall|t: int| 0 <= t < j ==> s@[i + t] == p@[t],
            !ok ==> !occurs_at(s@, p@, i as int),
        decreases m - j,
    {
        if ok {
            let sc = s.get_char(i + j);
            let pc = p.get_char(j);
            if sc != pc {
                proof {
                    if occurs_at(s@, p@, i as int) {
                        assert(s@.subrange(i as int, i + m as int)[j as int] == p@[j as int]);
                    }
                }
                ok = false;
            }
        }
        j += 1;
    }
    proof {
        if ok {
            assert(s@.subrange(i as int, i + m as int) =~= p@);
        }
    }
    ok
}

/// Whether two texts hold the same characters.
pub fn str_eq(a: &str, b: &str) -> (r: bool)
    ensures
        r == (a@ == b@),
{
    let n = a.unicode_len();
    let m = b.unicode_len();
    if n != m {
        return false;
    }
    let r = occurs_check(a, b, 0);
    proof {
        assert(a@.subrange(0, m as int) =~= a@);
    }
    r
}

/// Whether `s` starts with the pattern `p`.
pub fn begins_with(s: &str, p: &str) -> (r: bool)
    ensures
        r == occurs_at(s@, p@, 0),
{
    let n = s.unicode_len();
    let m = p.unicode_len();
    if m > n {
        return false;
    }
    occurs_check(s, p, 0)
}

/// Index, in characters, of the first occurrence of `p` in `s`.
pub fn find_str(s: &str, p: &str) -> (r: Option<usize>)
    requires
        p@.len() >= 1,
    ensures
        r matches Some(i) ==> spec_find(s@, p@) == Some(i as int),
        r is None ==> spec_find(s@, p@) is None,
{
    let n = s.unicode_len();
    let m = p.unicode_len();
    proof {
        lemma_spec_find(s@, p@);
    }
    if m > n {
        proof {
            if let Some(fi) = spec_find(s@, p@) {
                assert(occurs_at(s@, p@, fi));
                assert(false);
            }
        }
        return None;
    }
    let mut i: usize = 0;
    while i <= n - m
        invariant
            n == s@.len(),
            m == p@.len(),
            1 <= m <= n,
            i <= n - m + 1,
            forall|k: int| 0 <= k < i ==> !occurs_at(s@, p@, k),
        decreases n - m + 1 - i,
    {
        if occurs_check(s, p, i) {
            proof {
                lemma_spec_find(s@, p@);
                match spec_find(s@, p@) {
                    Some(fi) => {
                        if fi < i {
                            assert(!occurs_at(s@, p@, fi));
                        }
                        if fi > i {
                            assert(!occurs_at(s@, p@, i as int));
                        }
                    }
                    None => {
                        assert(!occurs_at(s@, p@, i as int));
                    }
                }
            }
            return Some(i);
        }
        i += 1;
    }
    proof {
        lemma_spec_find(s@, p@);
        if let Some(fi) = spec_find(s@, p@) {
            assert(occurs_at(s@, p@, fi));
            assert(fi <= n - m);
            assert(false);
        }
    }
    None
}

// ---------------------------------------------------------------------------
// Splitting on a separator
// ---------------------------------------------------------------------------

/// The pieces of `s` between occurrences of the separator `p`, in order.
/// A text without the separator is one single piece.
pub open spec fn spec_split(s: Seq<char>, p: Seq<char>) -> Seq<Seq<char>>
    decreases s.len() when p.len() >= 1 via spec_split_decreases
{
    match spec_find(s, p) {
        None => seq![s],
        Some(i) => seq![s.subrange(0, i)] + spec_split(
            s.subrange(i + p.len() as int, s.len() as int),
            p,
        ),
    }
}

#[via_fn]
proof fn spec_split_decreases(s: Seq<char>, p: Seq<char>) {
    lemma_spec_find(s, p);
}

/// A split always yields at least one piece.
pub proof fn lemma_split_len(s: Seq<char>, p: Seq<char>)
    requires
        p.len() >= 1,
    ensures
        spec_split(s, p).len() >= 1,
{
    match spec_find(s, p) {
        None => {}
        Some(i) => {}
    }
}

/// Splits `s` on every occurrence of the separator `p`.
pub fn split_str(s: &str, p: &str) -> (r: Vec<String>)
    requires
        p@.len() >= 1,
    ensures
        r.deep_view() == spec_split(s@, p@),
    decreases s@.len(),
{
    proof {
        lemma_spec_find(s@, p@);
    }
    match find_str(s, p) {
        None => {
            let mut v: Vec<String> = Vec::new();
            v.push(s.to_owned());
            proof {
                assert(v.deep_view() =~~= spec_split(s@, p@));
            }
            v
        }
        Some(i) => {
            let n = s.unicode_len();
            let m = p.unicode_len();
            let head = s.substring_char(0, i);
            let rest = s.substring_char(i + m, n);
            let mut v = split_str(rest, p);
            v.insert(0, head.to_owned());
            proof {
                assert(v.deep_view() =~~= spec_split(s@, p@));
            }
            v
        }
    }
}

// ---------------------------------------------------------------------------
// Decimal numbers
// ---------------------------------------------------------------------------

/// `c` is a decimal digit.
pub open spec fn is_digit(c: char) -> bool {
    48 <= c as int && c as int <= 57
}

/// Every character of `s` is a decimal digit.
pub open spec fn all_digits(s: Seq<char>) -> bool {
    forall|i: int| 0 <= i < s.len() ==> is_digit(s[i])
}

/// The value of `s` read as a decimal numeral.
pub open spec fn dec_val(s: Seq<char>) -> int
    decreases s.len(),
{
    if s.len() == 0 {
        0
    } else {
        dec_val(s.drop_last()) * 10 + (s.last() as int - 48)
    }
}

/// The decimal numeral of `n`, without leading zeros (a single `'0'` for 0).
pub open spec fn dec_seq(n: int) -> Seq<char>
    decreases n when n >= 0
{
    if n < 10 {
        seq![dec_digit_char(n)]
    } else {
        dec_seq(n / 10).push(dec_digit_char(n % 10))
    }
}

/// The digit character for a value below ten.
pub open spec fn dec_digit_char(d: int) -> char {
    if d == 0 {
        '0'
    } else if d == 1 {
        '1'
    } else if d == 2 {
        '2'
    } else if d == 3 {
        '3'
    } else if d == 4 {
        '4'
    } else if d == 5 {
        '5'
    } else if d == 6 {
        '6'
    } else if d == 7 {
        '7'
    } else if d == 8 {
        '8'
    } else {
        '9'
    }
}

/// A digit sequence has a value of at least zero.
pub proof fn lemma_dec_val_nonneg(s: Seq<char>)
    requires
        all_digits(s),
    ensures
        dec_val(s) >= 0,
    decreases s.len(),
{
    if s.len() > 0 {
        assert(all_digits(s.drop_last()));
        lemma_dec_val_nonneg(s.drop_last());
    }
}

/// Reading more digits never lowers the value.
pub proof fn lemma_dec_val_prefix(s: Seq<char>, i: int)
    requires
        all_digits(s),
        0 <= i <= s.len(),
    ensures
        dec_val(s.subrange(0, i)) <= dec_val(s),
    decreases s.len() - i,
{
    if i == s.len() {
        assert(s.subrange(0, i) =~= s);
    } else {
        let a = s.subrange(0, i);
        let b = s.subrange(0, i + 1);
        assert(b.drop_last() =~= a);
        assert(all_digits(a));
        lemma_dec_val_nonneg(a);
        assert(dec_val(b) == dec_val(a) * 10 + (s[i] as int - 48));
        lemma_dec_val_prefix(s, i + 1);
    }
}

/// Reads `s` as a decimal numeral.  Returns `None` exactly when `s` is
/// empty, holds a non-digit, or names a value that does not fit in
/// sixteen bits.
pub fn parse_u16(s: &str) -> (r: Option<u16>)
    ensures
        r matches Some(v) ==> s@.len() >= 1 && all_digits(s@) && dec_val(s@) == v as int,
        r is None ==> !(s@.len() >= 1 && all_digits(s@) && dec_val(s@) <= 65535),
{
    let n = s.unicode_len();
    if n == 0 {
        return None;
    }
    let mut acc: u32 = 0;
    let mut i: usize = 0;
    while i < n
        invariant
            i <= n,
            n == s@.len(),
            all_digits(s@.subrange(0, i as int)),
            acc as int == dec_val(s@.subrange(0, i as int)),
            acc <= 65535,
        decreases n - i,
    {
        let c = s.get_char(i);
        let cv = c as u32;
        if cv < 48 || cv > 57 {
            proof {
                assert(!is_digit(s@[i as int]));
            }
            return None;
        }
        let d = cv - 48;
        let next = acc * 10 + d;
        proof {
            let a = s@.subrange(0, i as int);
            let b = s@.subrange(0, i + 1 as int);
            assert(b.drop_last() =~= a);
            assert(all_digits(b));
            assert(dec_val(b) == dec_val(a) * 10 + (s@[i as int] as int - 48));
        }
        if next > 65535 {
            proof {
                if all_digits(s@) {
                    lemma_dec_val_prefix(s@, i + 1);
                }
            }
            return None;
        }
        acc = next;
        i += 1;
    }
    proof {
        assert(s@.subrange(0, n as int) =~= s@);
    }
    Some(acc as u16)
}

/// The digit character of a value below ten, as a one-character text.
fn digit_str(d: usize) -> (r: &'static str)
    requires
        d < 10,
    ensures
        r@ == seq![dec_digit_char(d as int)],
{
    proof {
        reveal_strlit("0");
        reveal_strlit("1");
        reveal_strlit("2");
        reveal_strlit("3");
        reveal_strlit("4");
        reveal_strlit("5");
        reveal_strlit("6");
        reveal_strlit("7");
        reveal_strlit("8");
        reveal_strlit("9");
    }
    let r = if d == 0 {
        "0"
    } else if d == 1 {
        "1"
    } else if d == 2 {
        "2"
    } else if d == 3 {
        "3"
    } else if d == 4 {
        "4"
    } else if d == 5 {
        "5"
    } else if d == 6 {
        "6"
    } else if d == 7 {
        "7"
    } else if d == 8 {
        "8"
    } else {
        "9"
    };
    proof {
        assert(r@ =~= seq![dec_digit_char(d as int)]);
    }
    r
}

/// Renders `n` as its decimal numeral.
pub fn usize_to_string(n: usize) -> (r: String)
    ensures
        r@ == dec_seq(n as int),
    decreases n,
{
    if n < 10 {
        String::from_str(digit_str(n))
    } else {
        let mut r = usize_to_string(n / 10);
        r.append(digit_str(n % 10));
        proof {
            assert(dec_seq(n as int) =~= dec_seq(n as int / 10) + seq![
                dec_digit_char(n as int % 10),
            ]);
        }
        r
    }
}

} // verus!
