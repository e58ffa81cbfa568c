//! Verified string utilities: ASCII case folding, lexicographic order,
//! substring search, suffix handling, and decimal formatting/parsing.
//!
//! Strings are reasoned about through their `Seq<char>` views, ordered
//! by code point (for UTF-8 this coincides with byte order). ASCII case
//! folding backs the case-insensitive checks of the classifier and the
//! status parser.

use vstd::prelude::*;

verus! {

/// Code point of `c` with ASCII upper-case letters folded to lower case.
pub open spec fn lower_val(c: char) -> int {
    if 65 <= c as int && c as int <= 90 {
        c as int + 32
    } else {
        c as int
    }
}

/// Two characters are equal under ASCII case folding.
pub open spec fn char_eq_ci(a: char, b: char) -> bool {
    lower_val(a) == lower_val(b)
}

/// Character `c` with an ASCII upper-case letter folded to lower case.
pub open spec fn lower_char(c: char) -> char {
    if 65 <= c as int && c as int <= 90 {
        ((c as u8) + 32) as char
    } else {
        c
    }
}

/// View of a string with every character ASCII-case-folded.
pub open spec fn lower_seq(s: Seq<char>) -> Seq<char> {
    s.map_values(|c: char| lower_char(c))
}

/// ASCII-case-folded code point of a character.
pub fn lower_val_exec(c: char) -> (r: u32)
    ensures
        r as int == lower_val(c),
{
    let v = c as u32;
    if 65 <= v && v <= 90 {
        v + 32
    } else {
        v
    }
}

/// ASCII-case-fold one character.
pub fn lower_char_exec(c: char) -> (r: char)
    ensures
        r == lower_char(c),
        r as int == lower_val(c),
{
    let v = c as u32;
    if 65 <= v && v <= 90 {
        ((c as u8) + 32) as char
    } else {
        c
    }
}

/// Relies on `String::push` from std: appends the given character to
/// the end of the string.
pub assume_specification[ String::push ](s: &mut String, ch: char)
    ensures
        final(s)@ == old(s)@.push(ch),
;

/// Lower-case a string, folding ASCII upper-case letters only.
pub fn to_lowercase(s: &str) -> (r: String)
    ensures
        r@ == lower_seq(s@),
{
    let n = s.unicode_len();
    let mut out = String::new();
    let mut i: usize = 0;
    while i < n
        invariant
            n == s@.len(),
            i <= n,
            out@ == lower_seq(s@).take(i as int),
        decreases n - i,
    {
        out.push(lower_char_exec(s.get_char(i)));
        proof {
            assert(lower_seq(s@).take(i + 1 as int) =~= lower_seq(s@).take(i as int).push(
                lower_char(s@[i as int]),
            ));
        }
        i += 1;
    }
    proof {
        assert(lower_seq(s@).take(n as int) =~= lower_seq(s@));
    }
    out
}

/// String equality, stated over the character views.
pub fn str_eq(a: &str, b: &str) -> (r: bool)
    ensures
        r == (a@ == b@),
{
    let n = a.unicode_len();
    if n != b.unicode_len() {
        assert(a@.len() != b@.len());
        return false;
    }
    let mut i: usize = 0;
    while i < n
        invariant
            n == a@.len(),
            n == b@.len(),
            i <= n,
            forall|k: int| 0 <= k < i ==> a@[k] == b@[k],
        decreases n - i,
    {
        if a.get_char(i) != b.get_char(i) {
            return false;
        }
        i += 1;
    }
    proof {
        assert(a@ =~= b@);
    }
    true
}

/// String equality under ASCII case folding.
pub open spec fn eq_ci(a: Seq<char>, b: Seq<char>) -> bool {
    a.len() == b.len() && forall|k: int| 0 <= k < a.len() ==> char_eq_ci(a[k], b[k])
}

/// Case-insensitive (ASCII) string equality.
pub fn str_eq_ci(a: &str, b: &str) -> (r: bool)
    ensures
        r == eq_ci(a@, b@),
{
    let n = a.unicode_len();
    if n != b.unicode_len() {
        return false;
    }
    let mut i: usize = 0;
    while i < n
        invariant
            n == a@.len(),
            n == b@.len(),
            i <= n,
            forall|k: int| 0 <= k < i ==> char_eq_ci(a@[k], b@[k]),
        decreases n - i,
    {
        if lower_val_exec(a.get_char(i)) != lower_val_exec(b.get_char(i)) {
            return false;
        }
        i += 1;
    }
    true
}

/// `p` is a prefix of `s` under ASCII case folding.
pub open spec fn prefix_ci(s: Seq<char>, p: Seq<char>) -> bool {
    p.len() <= s.len() && forall|k: int| 0 <= k < p.len() ==> char_eq_ci(s[k], p[k])
}

/// Case-insensitive (ASCII) prefix check.
pub fn starts_with_ci(s: &str, p: &str) -> (r: bool)
    ensures
        r == prefix_ci(s@, p@),
{
    let m = p.unicode_len();
    if m > s.unicode_len() {
        return false;
    }
    let mut i: usize = 0;
    while i < m
        invariant
            m == p@.len(),
            m <= s@.len(),
            i <= m,
            forall|k: int| 0 <= k < i ==> char_eq_ci(s@[k], p@[k]),
        decreases m - i,
    {
        if lower_val_exec(s.get_char(i)) != lower_val_exec(p.get_char(i)) {
            return false;
        }
        i += 1;
    }
    true
}

/// `sub` occurs in `s` starting at position `j`.
pub open spec fn matches_at(s: Seq<char>, sub: Seq<char>, j: int) -> bool {
    forall|k: int| 0 <= k < sub.len() ==> s[j + k] == sub[k]
}

/// `sub` occurs somewhere in `s`.
pub open spec fn contains_seq(s: Seq<char>, sub: Seq<char>) -> bool {
    exists|j: int| 0 <= j && j + sub.len() <= s.len() && matches_at(s, sub, j)
}

/// `sub` occurs in `s` at position `j`, under ASCII case folding.
pub open spec fn matches_at_ci(s: Seq<char>, sub: Seq<char>, j: int) -> bool {
    forall|k: int| 0 <= k < sub.len() ==> char_eq_ci(s[j + k], sub[k])
}

/// `sub` occurs somewhere in `s`, under ASCII case folding.
pub open spec fn contains_seq_ci(s: Seq<char>, sub: Seq<char>) -> bool {
    exists|j: int| 0 <= j && j + sub.len() <= s.len() && matches_at_ci(s, sub, j)
}

fn matches_at_exec(s: &str, sub: &str, j: usize) -> (r: bool)
    requires
        j + sub@.len() <= s@.len(),
    ensures
        r == matches_at(s@, sub@, j as int),
{
    let m = sub.unicode_len();
    let n = s.unicode_len();
    let mut k: usize = 0;
    while k < m
        invariant
            m == sub@.len(),
            n == s@.len(),
            j + m <= n,
            k <= m,
            forall|t: int| 0 <= t < k ==> s@[j + t] == sub@[t],
        decreases m - k,
    {
        if s.get_char(j + k) != sub.get_char(k) {
            return false;
        }
        k += 1;
    }
    true
}

/// Substring search, stated over the character views.
pub fn contains_str(s: &str, sub: &str) -> (r: bool)
    ensures
        r == contains_seq(s@, sub@),
{
    let n = s.unicode_len();
    let m = sub.unicode_len();
    if m > n {
        return false;
    }
    let mut j: usize = 0;
    while j <= n - m
        invariant
            n == s@.len(),
            m == sub@.len(),
            m <= n,
            j <= n - m + 1,
            forall|jj: int| 0 <= jj < j ==> !matches_at(s@, sub@, jj),
        decreases n - m + 1 - j,
    {
        if matches_at_exec(s, sub, j) {
            return true;
        }
        j += 1;
    }
    false
}

fn matches_at_ci_exec(s: &str, sub: &str, j: usize) -> (r: bool)
    requires
        j + sub@.len() <= s@.len(),
    ensures
        r == matches_at_ci(s@, sub@, j as int),
{
    let m = sub.unicode_len();
    let n = s.unicode_len();
    let mut k: usize = 0;
    while k < m
        invariant
            m == sub@.len(),
            n == s@.len(),
            j + m <= n,
            k <= m,
            forall|t: int| 0 <= t < k ==> char_eq_ci(s@[j + t], sub@[t]),
        decreases m - k,
    {
        if lower_val_exec(s.get_char(j + k)) != lower_val_exec(sub.get_char(k)) {
            return false;
        }
        k += 1;
    }
    true
}

/// Case-insensitive (ASCII) substring search.
pub fn contains_str_ci(s: &str, sub: &str) -> (r: bool)
    ensures
        r == contains_seq_ci(s@, sub@),
{
    let n = s.unicode_len();
    let m = sub.unicode_len();
    if m > n {
        return false;
    }
    let mut j: usize = 0;
    while j <= n - m
        invariant
            n == s@.len(),
            m == sub@.len(),
            m <= n,
            j <= n - m + 1,
            forall|jj: int| 0 <= jj < j ==> !matches_at_ci(s@, sub@, jj),
        decreases n - m + 1 - j,
    {
        if matches_at_ci_exec(s, sub, j) {
            return true;
        }
        j += 1;
    }
    false
}

/// `p` is a suffix of `s`.
pub open spec fn suffix_of(s: Seq<char>, p: Seq<char>) -> bool {
    p.len() <= s.len() && forall|k: int| 0 <= k < p.len() ==> s[s.len() - p.len() + k] == p[k]
}

/// Suffix check, stated over the character views.
pub fn ends_with(s: &str, p: &str) -> (r: bool)
    ensures
        r == suffix_of(s@, p@),
{
    let n = s.unicode_len();
    let m = p.unicode_len();
    if m > n {
        return false;
    }
    let mut k: usize = 0;
    while k < m
        invariant
            n == s@.len(),
            m == p@.len(),
            m <= n,
            k <= m,
            forall|t: int| 0 <= t < k ==> s@[n - m + t] == p@[t],
        decreases m - k,
    {
        if s.get_char(n - m + k) != p.get_char(k) {
            return false;
        }
        k += 1;
    }
    true
}

/// Copy of a `&str` as an owned `String`.
pub fn to_string_owned(s: &str) -> (r: String)
    ensures
        r@ == s@,
{
    let mut out = String::new();
    out.append(s);
    out
}

/// Concatenation of two strings.
pub fn concat2(a: &str, b: &str) -> (r: String)
    ensures
        r@ == a@ + b@,
{
    let mut out = String::new();
    out.append(a);
    out.append(b);
    proof {
        assert(out@ =~= a@ + b@);
    }
    out
}

/// Concatenation of three strings.
pub fn concat3(a: &str, b: &str, c: &str) -> (r: String)
    ensures
        r@ == a@ + b@ + c@,
{
    let mut out = String::new();
    out.append(a);
    out.append(b);
    out.append(c);
    proof {
        assert(out@ =~= a@ + b@ + c@);
    }
    out
}

/// Number of leading `/` characters.
pub open spec fn leading_slashes(s: Seq<char>) -> int
    decreases s.len(),
{
    if s.len() > 0 && s[0] == '/' {
        1 + leading_slashes(s.skip(1))
    } else {
        0
    }
}

proof fn lemma_leading_slashes_at(s: Seq<char>, k: int)
    requires
        0 <= k <= s.len(),
        forall|t: int| 0 <= t < k ==> s[t] == '/',
        k < s.len() ==> s[k] != '/',
    ensures
        leading_slashes(s) == k,
    decreases s.len(),
{
    if s.len() > 0 && s[0] == '/' {
        assert(k >= 1);
        lemma_leading_slashes_at(s.skip(1), k - 1);
    }
}

/// The string without its leading `/` characters.
pub fn trim_leading_slashes(s: &str) -> (r: String)
    ensures
        r@ == s@.skip(leading_slashes(s@)),
{
    let n = s.unicode_len();
    let mut i: usize = 0;
    while i < n && s.get_char(i) == '/'
        invariant
            n == s@.len(),
            i <= n,
            forall|t: int| 0 <= t < i ==> s@[t] == '/',
        decreases n - i,
    {
        i += 1;
    }
    proof {
        lemma_leading_slashes_at(s@, i as int);
    }
    let tail = s.substring_char(i, n);
    proof {
        assert(tail@ =~= s@.skip(i as int));
    }
    to_string_owned(tail)
}

/// The first `k` characters of a sequence, all of it when shorter.
pub open spec fn take_up_to(s: Seq<char>, k: int) -> Seq<char> {
    if k <= s.len() {
        s.take(k)
    } else {
        s
    }
}

/// View of an optional string.
pub open spec fn opt_view(o: Option<String>) -> Option<Seq<char>> {
    match o {
        Some(s) => Some(s@),
        None => None,
    }
}

/// The first `k` characters of the string (all of it when shorter).
pub fn take_chars(s: &str, k: usize) -> (r: String)
    ensures
        r@ == take_up_to(s@, k as int),
{
    let n = s.unicode_len();
    let end = if k <= n {
        k
    } else {
        n
    };
    let head = s.substring_char(0, end);
    proof {
        assert(head@ =~= s@.subrange(0, end as int));
        if k > s@.len() {
            assert(s@.subrange(0, end as int) =~= s@);
        }
    }
    to_string_owned(head)
}

/// Lexicographic order on character sequences by code point; for valid
/// UTF-8 this coincides with byte order on the encoded strings.
pub open spec fn lex_le(a: Seq<char>, b: Seq<char>) -> bool
    decreases a.len(),
{
    if a.len() == 0 {
        true
    } else if b.len() == 0 {
        false
    } else if (a[0] as int) < (b[0] as int) {
        true
    } else if (a[0] as int) > (b[0] as int) {
        false
    } else {
        lex_le(a.skip(1), b.skip(1))
    }
}

/// The lexicographic order relates every pair of strings.
pub proof fn lemma_lex_le_total(a: Seq<char>, b: Seq<char>)
    ensures
        lex_le(a, b) || lex_le(b, a),
    decreases a.len(),
{
    if a.len() > 0 && b.len() > 0 && (a[0] as int) == (b[0] as int) {
        lemma_lex_le_total(a.skip(1), b.skip(1));
    }
}

/// The lexicographic order is transitive.
pub proof fn lemma_lex_le_trans(a: Seq<char>, b: Seq<char>, c: Seq<char>)
    requires
        lex_le(a, b),
        lex_le(b, c),
    ensures
        lex_le(a, c),
    decreases a.len(),
{
    if a.len() > 0 {
        if (a[0] as int) == (b[0] as int) && (b[0] as int) == (c[0] as int) {
            lemma_lex_le_trans(a.skip(1), b.skip(1), c.skip(1));
        }
    }
}

/// Lexicographic comparison, stated over the character views.
pub fn str_le(a: &str, b: &str) -> (r: bool)
    ensures
        r == lex_le(a@, b@),
{
    let na = a.unicode_len();
    let nb = b.unicode_len();
    let mut i: usize = 0;
    proof {
        assert(a@.skip(0) =~= a@);
        assert(b@.skip(0) =~= b@);
    }
    while i < na && i < nb
        invariant
            na == a@.len(),
            nb == b@.len(),
            i <= na,
            i <= nb,
            lex_le(a@, b@) == lex_le(a@.skip(i as int), b@.skip(i as int)),
        decreases na - i,
    {
        let ca = a.get_char(i) as u32;
        let cb = b.get_char(i) as u32;
        proof {
            assert(a@.skip(i as int)[0] == a@[i as int]);
            assert(b@.skip(i as int)[0] == b@[i as int]);
        }
        if ca < cb {
            return true;
        }
        if ca > cb {
            return false;
        }
        proof {
            assert(a@.skip(i as int).skip(1) =~= a@.skip(i + 1 as int));
            assert(b@.skip(i as int).skip(1) =~= b@.skip(i + 1 as int));
        }
        i += 1;
    }
    proof {
        if i == na {
            assert(a@.skip(i as int).len() == 0);
        } else {
            assert(b@.skip(i as int).len() == 0);
            assert(a@.skip(i as int).len() > 0);
        }
    }
    i == na
}

/// `c` is a decimal digit.
pub open spec fn is_digit(c: char) -> bool {
    48 <= c as int && c as int <= 57
}

/// Value of a decimal digit character.
pub open spec fn digit_val(c: char) -> int {
    c as int - 48
}

/// Every character of `s` is a decimal digit.
pub open spec fn all_digits(s: Seq<char>) -> bool {
    forall|k: int| 0 <= k < s.len() ==> is_digit(s[k])
}

/// Numeric value of a digit string, most significant digit first.
pub open spec fn dec_val(s: Seq<char>) -> int
    decreases s.len(),
{
    if s.len() == 0 {
        0
    } else {
        dec_val(s.drop_last()) * 10 + digit_val(s.last())
    }
}

/// Digit character for a value between 0 and 9.
pub open spec fn digit_char(d: int) -> char {
    ((48 + d) as u8) as char
}

/// Decimal representation of a number, without leading zeros
/// (a single `'0'` for zero).
pub open spec fn dec_str(n: nat) -> Seq<char>
    decreases n,
{
    if n < 10 {
        seq![digit_char(n as int)]
    } else {
        dec_str(n / 10).push(digit_char((n % 10) as int))
    }
}

proof fn lemma_dec_val_nonneg(s: Seq<char>)
    requires
        all_digits(s),
    ensures
        dec_val(s) >= 0,
    decreases s.len(),
{
    if s.len() > 0 {
        lemma_dec_val_nonneg(s.drop_last());
    }
}

proof fn lemma_dec_val_take_step(s: Seq<char>, i: int)
    requires
        0 <= i < s.len(),
    ensures
        dec_val(s.take(i + 1)) == dec_val(s.take(i)) * 10 + digit_val(s[i]),
{
    assert(s.take(i + 1).drop_last() =~= s.take(i));
    assert(s.take(i + 1).last() == s[i]);
}

proof fn lemma_dec_val_grows(s: Seq<char>, i: int)
    requires
        all_digits(s),
        0 <= i <= s.len(),
    ensures
        dec_val(s.take(i)) <= dec_val(s),
    decreases s.len(),
{
    if i == s.len() {
        assert(s.take(i) =~= s);
    } else {
        assert(s.drop_last().take(i) =~= s.take(i));
        lemma_dec_val_grows(s.drop_last(), i);
        lemma_dec_val_nonneg(s.drop_last());
    }
}

/// Parse a decimal number; `None` on an empty string, a non-digit, or
/// a value over `u32::MAX`.
pub fn parse_u32(s: &str) -> (r: Option<u32>)
    ensures
        r == if s@.len() > 0 && all_digits(s@) && dec_val(s@) <= u32::MAX {
            Some(dec_val(s@) as u32)
        } else {
            None::<u32>
        },
{
    let n = s.unicode_len();
    if n == 0 {
        return None;
    }
    let mut acc: u64 = 0;
    let mut i: usize = 0;
    proof {
        assert(s@.take(0) =~= Seq::<char>::empty());
    }
    while i < n
        invariant
            n == s@.len(),
            i <= n,
            forall|k: int| 0 <= k < i ==> is_digit(s@[k]),
            acc == dec_val(s@.take(i as int)),
            acc <= u32::MAX as u64,
        decreases n - i,
    {
        let c = s.get_char(i);
        let v = c as u32;
        if v < 48 || v > 57 {
            return None;
        }
        let d = (v - 48) as u64;
        let next = acc * 10 + d;
        proof {
            lemma_dec_val_take_step(s@, i as int);
        }
        if next > u32::MAX as u64 {
            proof {
                if all_digits(s@) {
                    lemma_dec_val_grows(s@, i + 1 as int);
                }
            }
            return None;
        }
        acc = next;
        i += 1;
    }
    proof {
        assert(s@.take(n as int) =~= s@);
    }
    Some(acc as u32)
}

/// Append the decimal representation of `n`.
pub fn push_dec(s: &mut String, n: u64)
    ensures
        final(s)@ == old(s)@ + dec_str(n as nat),
    decreases n,
{
    if n < 10 {
        s.push((48 + n as u8) as char);
        proof {
            assert(old(s)@.push(digit_char(n as int)) =~= old(s)@ + dec_str(n as nat));
        }
    } else {
        push_dec(s, n / 10);
        s.push((48 + (n % 10) as u8) as char);
        proof {
            assert(old(s)@ + dec_str((n / 10) as nat).push(digit_char((n % 10) as int)) =~= (old(
                s,
            )@ + dec_str((n / 10) as nat)).push(digit_char((n % 10) as int)));
        }
    }
}

/// Decimal representation of `n` as a string.
pub fn u64_to_string(n: u64) -> (r: String)
    ensures
        r@ == dec_str(n as nat),
{
    let mut s = String::new();
    push_dec(&mut s, n);
    proof {
        assert(Seq::<char>::empty() + dec_str(n as nat) =~= dec_str(n as nat));
    }
    s
}

/// Position just after the last `'-'` of the string, 0 when it has none.
pub open spec fn last_dash_end(s: Seq<char>) -> int
    decreases s.len(),
{
    if s.len() == 0 {
        0
    } else if s.last() == '-' {
        s.len() as int
    } else {
        last_dash_end(s.drop_last())
    }
}

/// The characters after the last `'-'`; the whole string when it has none.
pub open spec fn tail_token(s: Seq<char>) -> Seq<char> {
    s.skip(last_dash_end(s))
}

proof fn lemma_last_dash_end_at(s: Seq<char>, e: int)
    requires
        0 <= e <= s.len(),
        e > 0 ==> s[e - 1] == '-',
        forall|k: int| e <= k < s.len() ==> s[k] != '-',
    ensures
        last_dash_end(s) == e,
    decreases s.len(),
{
    if s.len() == 0 {
    } else if s.last() == '-' {
        assert(e == s.len());
    } else {
        assert(e < s.len());
        lemma_last_dash_end_at(s.drop_last(), e);
    }
}

/// Numeric value of the name's trailing token: the digits after the
/// last `'-'` (the whole name when it has none), 0 when that token is
/// empty, holds a non-digit, or exceeds `u32::MAX`.
pub open spec fn natural_key(s: Seq<char>) -> u32 {
    let t = tail_token(s);
    if t.len() > 0 && all_digits(t) && dec_val(t) <= u32::MAX {
        dec_val(t) as u32
    } else {
        0u32
    }
}

/// The trailing numeric key used by the natural sort.
pub fn natural_key_exec(s: &str) -> (r: u32)
    ensures
        r == natural_key(s@),
{
    let n = s.unicode_len();
    let mut e: usize = n;
    while e > 0 && s.get_char(e - 1) != '-'
        invariant
            n == s@.len(),
            e <= n,
            forall|k: int| e <= k < n ==> s@[k] != '-',
        decreases e,
    {
        e -= 1;
    }
    proof {
        lemma_last_dash_end_at(s@, e as int);
    }
    let token = s.substring_char(e, n);
    proof {
        assert(token@ =~= s@.skip(e as int));
    }
    match parse_u32(token) {
        Some(v) => v,
        None => 0,
    }
}

} // verus!
