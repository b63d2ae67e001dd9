//! Small verified helpers on strings: character search, equality,
//! lexicographic comparison, and digit parsing.

use vstd::prelude::*;

verus! {

/// Index of the first occurrence of `c` in `s` at or after `from`.
pub open spec fn first_index_of(s: Seq<char>, c: char, from: int) -> Option<int>
    decreases s.len() - from,
{
    if from < 0 || from >= s.len() {
        None
    } else if s[from] == c {
        Some(from)
    } else {
        first_index_of(s, c, from + 1)
    }
}

/// Index of the last occurrence of `c` in `s` strictly before `upto`.
pub open spec fn last_index_of(s: Seq<char>, c: char, upto: int) -> Option<int>
    decreases upto,
{
    if upto <= 0 || upto > s.len() {
        None
    } else if s[upto - 1] == c {
        Some(upto - 1)
    } else {
        last_index_of(s, c, upto - 1)
    }
}

proof fn lemma_first_index_of_step(s: Seq<char>, c: char, from: int)
    requires
        0 <= from < s.len(),
        s[from] != c,
    ensures
        first_index_of(s, c, from) == first_index_of(s, c, from + 1),
{
}

/// First occurrence of `c` in `s` at or after `from`.
pub fn find_char_from(s: &str, from: usize, c: char) -> (r: Option<usize>)
    requires
        from <= s@.len(),
    ensures
        r is Some <==> first_index_of(s@, c, from as int) is Some,
        r is Some ==> first_index_of(s@, c, from as int) == Some(r.unwrap() as int),
        r is Some ==> from <= r.unwrap() < s@.len() && s@[r.unwrap() as int] == c,
{
    let n = s.unicode_len();
    let mut i = from;
    while i < n
        invariant
            from <= i <= n,
            n == s@.len(),
            first_index_of(s@, c, from as int) == first_index_of(s@, c, i as int),
        decreases n - i,
    {
        if s.get_char(i) == c {
            return Some(i);
        }
        proof {
            lemma_first_index_of_step(s@, c, i as int);
        }
        i = i + 1;
    }
    None
}

/// What a forward search result means.
pub proof fn lemma_first_index_of_props(s: Seq<char>, c: char, from: int)
    requires
        0 <= from <= s.len(),
    ensures
        match first_index_of(s, c, from) {
            Some(i) => from <= i < s.len() && s[i] == c,
            None => forall|k: int| from <= k < s.len() ==> s[k] != c,
        },
    decreases s.len() - from,
{
    if from < s.len() && s[from] != c {
        lemma_first_index_of_props(s, c, from + 1);
    }
}

/// What a backward search result means.
pub proof fn lemma_last_index_of_props(s: Seq<char>, c: char, upto: int)
    requires
        0 <= upto <= s.len(),
    ensures
        match last_index_of(s, c, upto) {
            Some(i) => 0 <= i < upto && s[i] == c,
            None => forall|k: int| 0 <= k < upto ==> s[k] != c,
        },
    decreases upto,
{
    if upto > 0 && s[upto - 1] != c {
        lemma_last_index_of_props(s, c, upto - 1);
    }
}

/// Forward and backward search find an occurrence under the same condition.
pub proof fn lemma_first_last_same_existence(s: Seq<char>, c: char)
    ensures
        first_index_of(s, c, 0) is Some <==> last_index_of(s, c, s.len() as int) is Some,
{
    lemma_first_index_of_props(s, c, 0);
    lemma_last_index_of_props(s, c, s.len() as int);
}

/// Searching a prefix is the same as searching the original up to the
/// prefix's end.
pub proof fn lemma_last_index_of_prefix(s: Seq<char>, c: char, upto: int)
    requires
        0 <= upto <= s.len(),
    ensures
        last_index_of(s.take(upto), c, upto) == last_index_of(s, c, upto),
{
    lemma_last_index_of_eq_on_prefix(s.take(upto), s, c, upto);
}

/// Two sequences agreeing below `upto` give the same search result there.
proof fn lemma_last_index_of_eq_on_prefix(a: Seq<char>, b: Seq<char>, c: char, upto: int)
    requires
        0 <= upto <= a.len(),
        upto <= b.len(),
        forall|i: int| 0 <= i < upto ==> a[i] == b[i],
    ensures
        last_index_of(a, c, upto) == last_index_of(b, c, upto),
    decreases upto,
{
    if upto > 0 {
        if a[upto - 1] != c {
            lemma_last_index_of_eq_on_prefix(a, b, c, upto - 1);
        }
    }
}

proof fn lemma_last_index_of_step(s: Seq<char>, c: char, upto: int)
    requires
        0 < upto <= s.len(),
        s[upto - 1] != c,
    ensures
        last_index_of(s, c, upto) == last_index_of(s, c, upto - 1),
{
}

/// Last occurrence of `c` in `s`.
pub fn rfind_char(s: &str, c: char) -> (r: Option<usize>)
    ensures
        r is Some <==> last_index_of(s@, c, s@.len() as int) is Some,
        r is Some ==> last_index_of(s@, c, s@.len() as int) == Some(r.unwrap() as int),
        r is Some ==> r.unwrap() < s@.len() && s@[r.unwrap() as int] == c,
{
    let n = s.unicode_len();
    let mut i = n;
    while i > 0
        invariant
            0 <= i <= n,
            n == s@.len(),
            last_index_of(s@, c, n as int) == last_index_of(s@, c, i as int),
        decreases i,
    {
        if s.get_char(i - 1) == c {
            return Some(i - 1);
        }
        proof {
            lemma_last_index_of_step(s@, c, i as int);
        }
        i = i - 1;
    }
    None
}

/// Executable string equality, stated over the views.
pub fn str_eq(a: &str, b: &str) -> (r: bool)
    ensures
        r == (a@ == b@),
{
    let na = a.unicode_len();
    let nb = b.unicode_len();
    if na != nb {
        assert(a@ != b@);
        return false;
    }
    let mut i: usize = 0;
    while i < na
        invariant
            0 <= i <= na,
            na == a@.len(),
            na == b@.len(),
            forall|k: int| 0 <= k < i ==> a@[k] == b@[k],
        decreases na - i,
    {
        if a.get_char(i) != b.get_char(i) {
            return false;
        }
        i = i + 1;
    }
    proof {
        assert(a@ =~= b@);
    }
    true
}

/// Lexicographic "less than or equal" over character sequences, ordering
/// characters by their scalar values.
pub open spec fn lex_le(a: Seq<char>, b: Seq<char>) -> bool
    decreases a.len(),
{
    if a.len() == 0 {
        true
    } else if b.len() == 0 {
        false
    } else if (a[0] as u32) < (b[0] as u32) {
        true
    } else if (a[0] as u32) > (b[0] as u32) {
        false
    } else {
        lex_le(a.drop_first(), b.drop_first())
    }
}

/// `lex_le` is total: one direction always holds.
pub proof fn lemma_lex_le_total(a: Seq<char>, b: Seq<char>)
    ensures
        lex_le(a, b) || lex_le(b, a),
    decreases a.len(),
{
    if a.len() > 0 && b.len() > 0 && (a[0] as u32) == (b[0] as u32) {
        lemma_lex_le_total(a.drop_first(), b.drop_first());
    }
}

/// `lex_le` is transitive.
pub proof fn lemma_lex_le_trans(a: Seq<char>, b: Seq<char>, c: Seq<char>)
    requires
        lex_le(a, b),
        lex_le(b, c),
    ensures
        lex_le(a, c),
    decreases a.len(),
{
    if a.len() > 0 && b.len() > 0 && c.len() > 0 && (a[0] as u32) == (b[0] as u32)
        && (b[0] as u32) == (c[0] as u32) {
        lemma_lex_le_trans(a.drop_first(), b.drop_first(), c.drop_first());
    }
}

/// `lex_le` holds of equal sequences.
pub proof fn lemma_lex_le_refl(a: Seq<char>)
    ensures
        lex_le(a, a),
    decreases a.len(),
{
    if a.len() > 0 {
        lemma_lex_le_refl(a.drop_first());
    }
}

/// `lex_le` in both directions means equality.
pub proof fn lemma_lex_le_antisym(a: Seq<char>, b: Seq<char>)
    requires
        lex_le(a, b),
        lex_le(b, a),
    ensures
        a == b,
    decreases a.len(),
{
    if a.len() > 0 && b.len() > 0 {
        vstd::utf8::char_u32_cast(a[0], a[0] as u32);
        vstd::utf8::char_u32_cast(b[0], a[0] as u32);
        assert(a[0] == b[0]);
        lemma_lex_le_antisym(a.drop_first(), b.drop_first());
        assert(a =~= seq![a[0]] + a.drop_first());
        assert(b =~= seq![b[0]] + b.drop_first());
    }
}

/// Executable lexicographic comparison of two strings.
pub fn str_le(a: &str, b: &str) -> (r: bool)
    ensures
        r == lex_le(a@, b@),
    decreases a@.len(),
{
    if a.unicode_len() == 0 {
        return true;
    }
    if b.unicode_len() == 0 {
        return false;
    }
    let ca = a.get_char(0);
    let cb = b.get_char(0);
    if (ca as u32) < (cb as u32) {
        true
    } else if (ca as u32) > (cb as u32) {
        false
    } else {
        let ra = a.substring_char(1, a.unicode_len());
        let rb = b.substring_char(1, b.unicode_len());
        proof {
            assert(ra@ =~= a@.drop_first());
            assert(rb@ =~= b@.drop_first());
        }
        str_le(ra, rb)
    }
}

/// Whether every character of `s` is an ASCII decimal digit.
pub open spec fn all_digits(s: Seq<char>) -> bool {
    forall|i: int| 0 <= i < s.len() ==> '0' <= #[trigger] s[i] <= '9'
}

/// The numeric value of a digit string, most significant digit first.
pub open spec fn digits_value(s: Seq<char>) -> int
    decreases s.len(),
{
    if s.len() == 0 {
        0
    } else {
        digits_value(s.drop_last()) * 10 + (s.last() as int - '0' as int)
    }
}

/// The `u32` a string denotes: defined when it is a non-empty run of
/// decimal digits whose value fits.
pub open spec fn parse_u32_spec(s: Seq<char>) -> Option<u32> {
    if s.len() > 0 && all_digits(s) && digits_value(s) <= u32::MAX {
        Some(digits_value(s) as u32)
    } else {
        None
    }
}

/// Parses a non-empty all-digit string as a `u32`; `None` when the string is
/// empty, holds a non-digit, or the value does not fit; see
/// [`parse_u32_spec`].
pub fn parse_u32_digits(s: &str) -> (r: Option<u32>)
    ensures
        r == parse_u32_spec(s@),
{
    let n = s.unicode_len();
    if n == 0 {
        return None;
    }
    let mut acc: u32 = 0;
    let mut i: usize = 0;
    while i < n
        invariant
            0 <= i <= n,
            n == s@.len(),
            all_digits(s@.take(i as int)),
            acc as int == digits_value(s@.take(i as int)),
        decreases n - i,
    {
        let c = s.get_char(i);
        if c < '0' || c > '9' {
            assert(!all_digits(s@)) by {
                assert(s@[i as int] == c);
            }
            return None;
        }
        let d = (c as u32) - ('0' as u32);
        let wide: u64 = acc as u64 * 10 + d as u64;
        proof {
            assert(s@.take(i as int + 1).drop_last() =~= s@.take(i as int));
            assert(digits_value(s@.take(i as int + 1)) == wide as int);
        }
        if wide > u32::MAX as u64 {
            proof {
                if all_digits(s@) {
                    lemma_digits_value_prefix_le(s@, i as int + 1);
                }
            }
            return None;
        }
        acc = wide as u32;
        i = i + 1;
    }
    proof {
        assert(s@.take(n as int) =~= s@);
    }
    Some(acc)
}

/// The `u64` a string denotes, accepted only up to `cap`: defined when the
/// string is a non-empty run of decimal digits whose value is at most `cap`.
pub open spec fn parse_u64_capped_spec(s: Seq<char>, cap: u64) -> Option<u64> {
    if s.len() > 0 && all_digits(s) && digits_value(s) <= cap {
        Some(digits_value(s) as u64)
    } else {
        None
    }
}

/// Parses a non-empty all-digit string as a `u64` of value at most `cap`;
/// see [`parse_u64_capped_spec`].
pub fn parse_u64_capped(s: &str, cap: u64) -> (r: Option<u64>)
    ensures
        r == parse_u64_capped_spec(s@, cap),
{
    let n = s.unicode_len();
    if n == 0 {
        return None;
    }
    let mut acc: u64 = 0;
    let mut i: usize = 0;
    while i < n
        invariant
            0 <= i <= n,
            n == s@.len(),
            acc <= cap,
            all_digits(s@.take(i as int)),
            acc as int == digits_value(s@.take(i as int)),
        decreases n - i,
    {
        let c = s.get_char(i);
        if c < '0' || c > '9' {
            assert(!all_digits(s@)) by {
                assert(s@[i as int] == c);
            }
            return None;
        }
        let d = (c as u32) - ('0' as u32);
        let wide: u128 = acc as u128 * 10 + d as u128;
        proof {
            assert(s@.take(i as int + 1).drop_last() =~= s@.take(i as int));
            assert(digits_value(s@.take(i as int + 1)) == wide as int);
        }
        if wide > cap as u128 {
            proof {
                if all_digits(s@) {
                    lemma_digits_value_prefix_le(s@, i as int + 1);
                }
            }
            return None;
        }
        acc = wide as u64;
        i = i + 1;
    }
    proof {
        assert(s@.take(n as int) =~= s@);
    }
    Some(acc)
}

/// The decimal rendering of a non-negative number, most significant digit
/// first.
pub open spec fn dec_seq(n: int) -> Seq<char>
    decreases n,
{
    if n <= 9 {
        seq![digit_char(n)]
    } else {
        dec_seq(n / 10).push(digit_char(n % 10))
    }
}

/// The character for one decimal digit; digits outside the range render as
/// `'0'`.
pub open spec fn digit_char(d: int) -> char {
    if d == 1 {
        '1'
    } else if d == 2 {
        '2'
    } else if d == 3 {
        '3'
    } else if d == 4 {
        '4'
    } else if d == 5 {
        '5'
    } else if d == 6 {
        '6'
    } else if d == 7 {
        '7'
    } else if d == 8 {
        '8'
    } else if d == 9 {
        '9'
    } else {
        '0'
    }
}

/// Renders a number in decimal; see [`dec_seq`].
pub fn u64_to_dec(n: u64) -> (r: String)
    ensures
        r@ == dec_seq(n as int),
    decreases n,
{
    let d = n % 10;
    let ds: &str = if d == 0 {
        "0"
    } else if d == 1 {
        "1"
    } else if d == 2 {
        "2"
    } else if d == 3 {
        "3"
    } else if d == 4 {
        "4"
    } else if d == 5 {
        "5"
    } else if d == 6 {
        "6"
    } else if d == 7 {
        "7"
    } else if d == 8 {
        "8"
    } else {
        "9"
    };
    proof {
        reveal_strlit("0");
        reveal_strlit("1");
        reveal_strlit("2");
        reveal_strlit("3");
        reveal_strlit("4");
        reveal_strlit("5");
        reveal_strlit("6");
        reveal_strlit("7");
        reveal_strlit("8");
        reveal_strlit("9");
        assert(ds@ =~= seq![digit_char(d as int)]);
    }
    if n <= 9 {
        ds.to_owned()
    } else {
        let head = u64_to_dec(n / 10);
        let r = head.concat(ds);
        proof {
            assert(r@ =~= dec_seq(n as int));
        }
        r
    }
}

/// A digit string's value bounds the value of any of its prefixes.
proof fn lemma_digits_value_prefix_le(s: Seq<char>, k: int)
    requires
        0 <= k <= s.len(),
        all_digits(s),
    ensures
        digits_value(s.take(k)) <= digits_value(s),
        digits_value(s) >= 0,
    decreases s.len() - k,
{
    lemma_digits_value_nonneg(s);
    if k < s.len() {
        lemma_digits_value_prefix_le(s, k + 1);
        assert(s.take(k + 1).drop_last() =~= s.take(k));
        assert(digits_value(s.take(k + 1)) == digits_value(s.take(k)) * 10 + (s[k] as int
            - '0' as int));
        assert(digits_value(s.take(k)) >= 0) by {
            lemma_digits_value_nonneg(s.take(k));
        }
    } else {
        assert(s.take(k) =~= s);
    }
}

/// A digit string's value is non-negative.
pub proof fn lemma_digits_value_nonneg(s: Seq<char>)
    requires
        all_digits(s),
    ensures
        digits_value(s) >= 0,
    decreases s.len(),
{
    if s.len() > 0 {
        assert(all_digits(s.drop_last()));
        lemma_digits_value_nonneg(s.drop_last());
    }
}

} // verus!
