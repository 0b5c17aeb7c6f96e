//! Character-level helpers shared by the parsers: the Unicode white-space
//! set that `str::trim` uses, and conversions between strings and the
//! character sequences the parsers walk.

use vstd::prelude::*;

verus! {

/// Unicode `White_Space` — the set `char::is_whitespace` (and so `str::trim`
/// and `str::split_whitespace`) uses.
pub open spec fn is_ws(c: char) -> bool {
    let u = c as u32;
    (0x09 <= u && u <= 0x0d) || u == 0x20 || u == 0x85 || u == 0xa0 || u == 0x1680
        || (0x2000 <= u && u <= 0x200a) || u == 0x2028 || u == 0x2029 || u == 0x202f
        || u == 0x205f || u == 0x3000
}

/// Is `c` white space in the sense of [`is_ws`]?
pub fn is_whitespace(c: char) -> (r: bool)
    ensures
        r == is_ws(c),
{
    let u = c as u32;
    (0x09 <= u && u <= 0x0d) || u == 0x20 || u == 0x85 || u == 0xa0 || u == 0x1680 || (0x2000
        <= u && u <= 0x200a) || u == 0x2028 || u == 0x2029 || u == 0x202f || u == 0x205f || u
        == 0x3000
}

/// Append one character to a string (`String::push`).
#[verifier::external_body]
pub fn push_char(s: &mut String, c: char)
    ensures
        final(s)@ == old(s)@.push(c),
{
    s.push(c);
}

/// The characters of `s`, in order.
pub fn chars_of(s: &str) -> (v: Vec<char>)
    ensures
        v@ == s@,
{
    let mut v: Vec<char> = Vec::new();
    for c in it: s.chars()
        invariant
            v@ == it.seq().take(it.index() as int),
    {
        v.push(c);
    }
    v
}


/// Do `a` and `b` hold the same characters?
pub fn eq_str(a: &str, b: &str) -> (r: bool)
    ensures
        r == (a@ == b@),
{
    let x = chars_of(a);
    let y = chars_of(b);
    if x.len() != y.len() {
        return false;
    }
    let mut i: usize = 0;
    while i < x.len()
        invariant
            x@ == a@,
            y@ == b@,
            x@.len() == y@.len(),
            i <= x@.len(),
            forall|k: int| 0 <= k < i ==> x@[k] == y@[k],
        decreases x@.len() - i,
    {
        if x[i] != y[i] {
            return false;
        }
        i = i + 1;
    }
    assert(x@ =~= y@);
    true
}

/// An owned copy of `s`.
pub fn owned(s: &str) -> (r: String)
    ensures
        r@ == s@,
{
    s.to_owned()
}

/// A string holding exactly `v`.
pub fn string_of(v: &[char]) -> (r: String)
    ensures
        r@ == v@,
{
    let mut r = String::new();
    let mut i: usize = 0;
    while i < v.len()
        invariant
            i <= v@.len(),
            r@ == v@.subrange(0, i as int),
        decreases v@.len() - i,
    {
        push_char(&mut r, v[i]);
        assert(v@.subrange(0, i + 1) =~= v@.subrange(0, i as int).push(v@[i as int]));
        i = i + 1;
    }
    assert(v@.subrange(0, v@.len() as int) =~= v@);
    r
}


// ---------------------------------------------------------------------------
// Lexicographic order (the order of `String`'s `Ord`: code point by code
// point, a proper prefix first).
// ---------------------------------------------------------------------------

/// `a` sorts strictly before `b`.
pub open spec fn lex_lt(a: Seq<char>, b: Seq<char>) -> bool
    decreases a.len(),
{
    if b.len() == 0 {
        false
    } else if a.len() == 0 {
        true
    } else if a[0] != b[0] {
        (a[0] as int) < (b[0] as int)
    } else {
        lex_lt(a.drop_first(), b.drop_first())
    }
}

pub proof fn lemma_lex_irreflexive(a: Seq<char>)
    ensures
        !lex_lt(a, a),
    decreases a.len(),
{
    if a.len() > 0 {
        lemma_lex_irreflexive(a.drop_first());
    }
}

pub proof fn lemma_lex_transitive(a: Seq<char>, b: Seq<char>, c: Seq<char>)
    requires
        lex_lt(a, b),
        lex_lt(b, c),
    ensures
        lex_lt(a, c),
    decreases a.len(),
{
    if a.len() > 0 && a[0] == b[0] && b[0] == c[0] {
        lemma_lex_transitive(a.drop_first(), b.drop_first(), c.drop_first());
    }
}

pub proof fn lemma_lex_total(a: Seq<char>, b: Seq<char>)
    requires
        a != b,
    ensures
        lex_lt(a, b) || lex_lt(b, a),
    decreases a.len(),
{
    if a.len() > 0 && b.len() > 0 && a[0] == b[0] {
        if a.drop_first() == b.drop_first() {
            assert(a =~= seq![a[0]] + a.drop_first());
            assert(b =~= seq![b[0]] + b.drop_first());
        }
        lemma_lex_total(a.drop_first(), b.drop_first());
    } else if a.len() == 0 && b.len() == 0 {
        assert(a =~= b);
    } else if a.len() > 0 && b.len() > 0 {
        let x = a[0] as int;
        let y = b[0] as int;
        assert(x != y);
    }
}

pub proof fn lemma_lex_asymmetric(a: Seq<char>, b: Seq<char>)
    requires
        lex_lt(a, b),
    ensures
        !lex_lt(b, a),
{
    if lex_lt(b, a) {
        lemma_lex_transitive(a, b, a);
        lemma_lex_irreflexive(a);
    }
}

/// Does `a` sort strictly before `b`?
pub fn str_lt(a: &str, b: &str) -> (r: bool)
    ensures
        r == lex_lt(a@, b@),
{
    let x = chars_of(a);
    let y = chars_of(b);
    let mut i: usize = 0;
    assert(a@.skip(0) =~= a@);
    assert(b@.skip(0) =~= b@);
    while i < x.len() && i < y.len() && x[i] == y[i]
        invariant
            x@ == a@,
            y@ == b@,
            i <= x@.len(),
            i <= y@.len(),
            lex_lt(a@, b@) == lex_lt(a@.skip(i as int), b@.skip(i as int)),
        decreases x@.len() - i,
    {
        proof {
            let sa = a@.skip(i as int);
            let sb = b@.skip(i as int);
            assert(sa.drop_first() =~= a@.skip(i + 1));
            assert(sb.drop_first() =~= b@.skip(i + 1));
        }
        i = i + 1;
    }
    if i == y.len() {
        false
    } else if i == x.len() {
        true
    } else {
        x[i] < y[i]
    }
}


// ---------------------------------------------------------------------------
// Searching and splitting.
// ---------------------------------------------------------------------------

/// The index of the first `c` in `s`.
pub open spec fn first_index(s: Seq<char>, c: char) -> Option<int>
    decreases s.len(),
{
    if s.len() == 0 {
        None
    } else if s[0] == c {
        Some(0)
    } else {
        match first_index(s.drop_first(), c) {
            Some(i) => Some(i + 1),
            None => None,
        }
    }
}

pub proof fn lemma_first_index_at(s: Seq<char>, c: char, j: int)
    requires
        0 <= j < s.len(),
        s[j] == c,
        forall|k: int| 0 <= k < j ==> s[k] != c,
    ensures
        first_index(s, c) == Some(j),
    decreases j,
{
    if j > 0 {
        lemma_first_index_at(s.drop_first(), c, j - 1);
    }
}

pub proof fn lemma_first_index_bounds(s: Seq<char>, c: char)
    ensures
        first_index(s, c) matches Some(i) ==> 0 <= i < s.len() && s[i] == c,
    decreases s.len(),
{
    if s.len() > 0 && s[0] != c {
        lemma_first_index_bounds(s.drop_first(), c);
    }
}

pub proof fn lemma_first_index_none(s: Seq<char>, c: char)
    requires
        forall|k: int| 0 <= k < s.len() ==> s[k] != c,
    ensures
        first_index(s, c) is None,
    decreases s.len(),
{
    if s.len() > 0 {
        lemma_first_index_none(s.drop_first(), c);
    }
}

/// `str::split(c)`: the pieces between the occurrences of `c` (always at
/// least one).
pub open spec fn split_on(s: Seq<char>, c: char) -> Seq<Seq<char>>
    decreases s.len(),
{
    match first_index(s, c) {
        None => seq![s],
        Some(i) => if 0 <= i < s.len() {
            seq![s.subrange(0, i)] + split_on(s.subrange(i + 1, s.len() as int), c)
        } else {
            seq![s]
        },
    }
}

/// The pieces of `s` between the occurrences of `c`.
pub fn split_chars(s: &Vec<char>, c: char) -> (r: Vec<Vec<char>>)
    ensures
        r@.len() == split_on(s@, c).len(),
        forall|k: int| 0 <= k < r@.len() ==> #[trigger] r@[k]@ == split_on(s@, c)[k],
{
    let mut parts: Vec<Vec<char>> = Vec::new();
    let mut cur: Vec<char> = Vec::new();
    let mut start: usize = 0;
    let mut i: usize = 0;
    let ghost mut pv: Seq<Seq<char>> = seq![];
    assert(s@.subrange(0, s@.len() as int) =~= s@);
    assert(pv + split_on(s@, c) =~= split_on(s@, c));
    while i < s.len()
        invariant
            start <= i <= s@.len(),
            cur@ == s@.subrange(start as int, i as int),
            parts@.len() == pv.len(),
            forall|k: int| 0 <= k < pv.len() ==> #[trigger] parts@[k]@ == pv[k],
            split_on(s@, c) == pv + split_on(s@.subrange(start as int, s@.len() as int), c),
            forall|k: int| start <= k < i ==> s@[k] != c,
        decreases s@.len() - i,
    {
        if s[i] == c {
            proof {
                let rest = s@.subrange(start as int, s@.len() as int);
                lemma_first_index_at(rest, c, i - start);
                assert(rest.subrange(0, i - start) =~= s@.subrange(start as int, i as int));
                assert(rest.subrange(i - start + 1, rest.len() as int) =~= s@.subrange(i + 1, s@.len() as int));
                assert(pv + split_on(rest, c) =~= pv.push(cur@) + split_on(s@.subrange(i + 1, s@.len() as int), c));
                pv = pv.push(cur@);
            }
            parts.push(cur);
            cur = Vec::new();
            start = i + 1;
        } else {
            cur.push(s[i]);
            assert(cur@ =~= s@.subrange(start as int, i + 1));
        }
        i = i + 1;
    }
    proof {
        let rest = s@.subrange(start as int, s@.len() as int);
        lemma_first_index_none(rest, c);
        assert(rest =~= cur@);
        pv = pv.push(cur@);
    }
    parts.push(cur);
    parts
}

// ---------------------------------------------------------------------------
// White space.
// ---------------------------------------------------------------------------

/// How many white-space characters `s` starts with.
pub open spec fn lead_ws(s: Seq<char>) -> nat
    decreases s.len(),
{
    if s.len() > 0 && is_ws(s[0]) {
        1 + lead_ws(s.drop_first())
    } else {
        0
    }
}

/// The length of `s` without its trailing white space.
pub open spec fn trim_end_len(s: Seq<char>, n: int) -> int
    decreases n,
{
    if n <= 0 {
        0
    } else if is_ws(s[n - 1]) {
        trim_end_len(s, n - 1)
    } else {
        n
    }
}

/// `str::trim`.
pub open spec fn trim(s: Seq<char>) -> Seq<char> {
    let b = lead_ws(s) as int;
    let e = trim_end_len(s, s.len() as int);
    if b < e {
        s.subrange(b, e)
    } else {
        Seq::empty()
    }
}

pub proof fn lemma_lead_ws_bound(s: Seq<char>)
    ensures
        lead_ws(s) <= s.len(),
        forall|k: int| 0 <= k < lead_ws(s) ==> is_ws(s[k]),
        lead_ws(s) < s.len() ==> !is_ws(s[lead_ws(s) as int]),
    decreases s.len(),
{
    if s.len() > 0 && is_ws(s[0]) {
        lemma_lead_ws_bound(s.drop_first());
        assert forall|k: int| 0 <= k < lead_ws(s) implies is_ws(s[k]) by {
            if k > 0 {
                assert(s[k] == s.drop_first()[k - 1]);
            }
        }
    }
}

pub proof fn lemma_trim_end_bound(s: Seq<char>, n: int)
    requires
        0 <= n <= s.len(),
    ensures
        0 <= trim_end_len(s, n) <= n,
        forall|k: int| trim_end_len(s, n) <= k < n ==> is_ws(s[k]),
        trim_end_len(s, n) > 0 ==> !is_ws(s[trim_end_len(s, n) - 1]),
    decreases n,
{
    if n > 0 && is_ws(s[n - 1]) {
        lemma_trim_end_bound(s, n - 1);
    }
}

/// The bounds `[b, e)` of `s` with its leading and trailing white space
/// removed (`b == e` when nothing is left).
pub fn trim_bounds(s: &Vec<char>) -> (r: (usize, usize))
    ensures
        r.0 <= r.1 <= s@.len(),
        s@.subrange(r.0 as int, r.1 as int) == trim(s@),
        r.1 == trim_end_len(s@, s@.len() as int),
{
    let mut b: usize = 0;
    proof {
        lemma_lead_ws_bound(s@);
    }
    while b < s.len() && is_whitespace(s[b])
        invariant
            b <= s@.len(),
            b <= lead_ws(s@),
            lead_ws(s@) <= s@.len(),
            forall|k: int| 0 <= k < lead_ws(s@) ==> is_ws(s@[k]),
            lead_ws(s@) < s@.len() ==> !is_ws(s@[lead_ws(s@) as int]),
        decreases s@.len() - b,
    {
        b = b + 1;
    }
    let mut e: usize = s.len();
    proof {
        lemma_trim_end_bound(s@, s@.len() as int);
    }
    while e > 0 && is_whitespace(s[e - 1])
        invariant
            e <= s@.len(),
            trim_end_len(s@, s@.len() as int) == trim_end_len(s@, e as int),
        decreases e,
    {
        e = e - 1;
    }
    proof {
        lemma_trim_end_bound(s@, e as int);
    }
    if b < e {
        (b, e)
    } else {
        assert(s@.subrange(e as int, e as int) =~= Seq::<char>::empty());
        (e, e)
    }
}

/// `s` with its leading and trailing white space removed (`str::trim`).
pub fn trimmed(s: &str) -> (r: String)
    ensures
        r@ == trim(s@),
{
    let cs = chars_of(s);
    let (b, e) = trim_bounds(&cs);
    string_of(&cs.as_slice()[b..e])
}

// ---------------------------------------------------------------------------
// Decimal numbers.
// ---------------------------------------------------------------------------

pub open spec fn is_digit(c: char) -> bool {
    '0' <= c && c <= '9'
}

pub open spec fn all_digits(s: Seq<char>) -> bool {
    forall|k: int| 0 <= k < s.len() ==> is_digit(#[trigger] s[k])
}

pub open spec fn digit_value(c: char) -> nat {
    (c as int - '0' as int) as nat
}

/// The number the decimal digits `s` spell.
pub open spec fn dec_value(s: Seq<char>) -> nat
    decreases s.len(),
{
    if s.len() == 0 {
        0
    } else {
        dec_value(s.drop_last()) * 10 + digit_value(s.last())
    }
}

pub proof fn lemma_dec_value_prefix(s: Seq<char>, k: int)
    requires
        0 <= k <= s.len(),
        all_digits(s),
    ensures
        dec_value(s.subrange(0, k)) <= dec_value(s),
    decreases s.len() - k,
{
    if k < s.len() {
        lemma_dec_value_prefix(s, k + 1);
        let p = s.subrange(0, k + 1);
        assert(p.drop_last() =~= s.subrange(0, k));
    } else {
        assert(s.subrange(0, k) =~= s);
    }
}

/// The digits of an unsigned number's text: after one optional `+`.
pub open spec fn unsigned_digits(s: Seq<char>) -> Seq<char> {
    if s.len() > 0 && s[0] == '+' {
        s.drop_first()
    } else {
        s
    }
}

/// `str::parse` for an unsigned integer type whose largest value is `max`:
/// an optional `+`, then one or more ASCII digits whose value is at most
/// `max`.
pub open spec fn parse_unsigned(s: Seq<char>, max: nat) -> Option<nat> {
    let d = unsigned_digits(s);
    if d.len() > 0 && all_digits(d) && dec_value(d) <= max {
        Some(dec_value(d))
    } else {
        None
    }
}

/// `str::parse::<u32>`.
pub open spec fn parse_u32(s: Seq<char>) -> Option<u32> {
    match parse_unsigned(s, u32::MAX as nat) {
        Some(n) => Some(n as u32),
        None => None,
    }
}

/// `str::parse::<u64>`.
pub open spec fn parse_u64(s: Seq<char>) -> Option<u64> {
    match parse_unsigned(s, u64::MAX as nat) {
        Some(n) => Some(n as u64),
        None => None,
    }
}

/// Parse `s` as an unsigned number no greater than `max`.
pub fn parse_unsigned_chars(s: &Vec<char>, max: u64) -> (r: Option<u64>)
    ensures
        r matches Some(n) ==> parse_unsigned(s@, max as nat) == Some(n as nat),
        r is None ==> parse_unsigned(s@, max as nat) is None,
{
    let start: usize = if s.len() > 0 && s[0] == '+' {
        1
    } else {
        0
    };
    let ghost d = s@.subrange(start as int, s@.len() as int);
    assert(d =~= unsigned_digits(s@));
    if start == s.len() {
        return None;
    }
    let mut acc: u128 = 0;
    let mut i: usize = start;
    while i < s.len()
        invariant
            start <= i <= s@.len(),
            d == s@.subrange(start as int, s@.len() as int),
            d == unsigned_digits(s@),
            all_digits(s@.subrange(start as int, i as int)),
            acc == dec_value(s@.subrange(start as int, i as int)),
            acc <= max,
        decreases s@.len() - i,
    {
        let c = s[i];
        if !('0' <= c && c <= '9') {
            assert(d[i - start] == c);
            assert(!is_digit(d[i - start]));
            assert(!all_digits(d));
            return None;
        }
        let v: u128 = (c as u32 - '0' as u32) as u128;
        let next = acc * 10 + v;
        proof {
            let p = s@.subrange(start as int, i + 1);
            assert(p.drop_last() =~= s@.subrange(start as int, i as int));
            assert(p.last() == c);
            assert(all_digits(p));
        }
        if next > max as u128 {
            proof {
                if all_digits(d) {
                    lemma_dec_value_prefix(d, i + 1 - start);
                    assert(d.subrange(0, i + 1 - start) =~= s@.subrange(start as int, i + 1));
                }
            }
            return None;
        }
        acc = next;
        i = i + 1;
    }
    assert(d.len() > 0);
    assert(all_digits(d));
    Some(acc as u64)
}

/// Parse `s` as a `u32` (`str::parse::<u32>`).
pub fn parse_u32_chars(s: &Vec<char>) -> (r: Option<u32>)
    ensures
        r == parse_u32(s@),
{
    match parse_unsigned_chars(s, u32::MAX as u64) {
        Some(n) => Some(n as u32),
        None => None,
    }
}

/// Parse `s` as a `u64` (`str::parse::<u64>`).
pub fn parse_u64_chars(s: &Vec<char>) -> (r: Option<u64>)
    ensures
        r == parse_u64(s@),
{
    parse_unsigned_chars(s, u64::MAX)
}

/// `str::parse::<i64>`: an optional sign, then one or more ASCII digits
/// whose value fits (down to `-2^63` with a `-`).
pub open spec fn parse_i64(s: Seq<char>) -> Option<i64> {
    if s.len() > 0 && s[0] == '-' {
        let d = s.drop_first();
        if d.len() > 0 && all_digits(d) && dec_value(d) <= 0x8000_0000_0000_0000 {
            Some((0 - dec_value(d)) as i64)
        } else {
            None
        }
    } else {
        match parse_unsigned(s, i64::MAX as nat) {
            Some(n) => Some(n as i64),
            None => None,
        }
    }
}

/// Parse `s` as an `i64` (`str::parse::<i64>`).
pub fn parse_i64_chars(s: &Vec<char>) -> (r: Option<i64>)
    ensures
        r == parse_i64(s@),
{
    if s.len() > 0 && s[0] == '-' {
        let mut rest: Vec<char> = Vec::new();
        let mut i: usize = 1;
        while i < s.len()
            invariant
                1 <= i <= s@.len(),
                rest@ =~= s@.subrange(1, i as int),
            decreases s@.len() - i,
        {
            rest.push(s[i]);
            i = i + 1;
        }
        assert(rest@ =~= s@.drop_first());
        if rest.len() > 0 && rest[0] == '+' {
            assert(!is_digit(rest@[0]));
            assert(!all_digits(rest@));
            return None;
        }
        assert(unsigned_digits(rest@) =~= rest@);
        match parse_unsigned_chars(&rest, 0x8000_0000_0000_0000u64) {
            Some(n) => {
                let v: i128 = 0 - (n as i128);
                Some(v as i64)
            },
            None => None,
        }
    } else {
        match parse_unsigned_chars(s, i64::MAX as u64) {
            Some(n) => Some(n as i64),
            None => None,
        }
    }
}

/// The decimal digits of `n`.
pub open spec fn dec_digits(n: nat) -> Seq<char>
    decreases n,
{
    if n < 10 {
        seq![(n + '0' as nat) as char]
    } else {
        dec_digits(n / 10).push(((n % 10) + '0' as nat) as char)
    }
}

/// The ASCII digit for `d`.
pub fn digit_char(d: u64) -> (c: char)
    requires
        d < 10,
    ensures
        c == (d + '0' as nat) as char,
        is_digit(c),
        digit_value(c) == d,
{
    if d == 0 { '0' } else if d == 1 { '1' } else if d == 2 { '2' } else if d == 3 { '3' }
    else if d == 4 { '4' } else if d == 5 { '5' } else if d == 6 { '6' } else if d == 7 { '7' }
    else if d == 8 { '8' } else { '9' }
}

/// `n.to_string()`.
pub fn decimal(n: u64) -> (r: String)
    ensures
        r@ == dec_digits(n as nat),
    decreases n,
{
    let c = digit_char(n % 10);
    if n < 10 {
        let mut r = String::new();
        push_char(&mut r, c);
        assert(r@ =~= dec_digits(n as nat));
        r
    } else {
        let mut r = decimal(n / 10);
        push_char(&mut r, c);
        r
    }
}


/// `str::starts_with`: does `s` begin with `p`?
pub fn starts_with(s: &str, p: &str) -> (r: bool)
    ensures
        r == p@.is_prefix_of(s@),
{
    let x = chars_of(s);
    let y = chars_of(p);
    if y.len() > x.len() {
        return false;
    }
    let mut i: usize = 0;
    while i < y.len()
        invariant
            x@ == s@,
            y@ == p@,
            y@.len() <= x@.len(),
            i <= y@.len(),
            forall|k: int| 0 <= k < i ==> x@[k] == y@[k],
        decreases y@.len() - i,
    {
        if x[i] != y[i] {
            return false;
        }
        i = i + 1;
    }
    true
}


// ---------------------------------------------------------------------------
// Words.
// ---------------------------------------------------------------------------

/// How many non-white-space characters `s` starts with.
pub open spec fn nonws_run(s: Seq<char>) -> nat
    decreases s.len(),
{
    if s.len() > 0 && !is_ws(s[0]) {
        1 + nonws_run(s.drop_first())
    } else {
        0
    }
}

proof fn lemma_nonws_run(s: Seq<char>, k: int)
    requires
        0 <= k <= s.len(),
        forall|j: int| 0 <= j < k ==> !is_ws(#[trigger] s[j]),
        k == s.len() || is_ws(s[k]),
    ensures
        nonws_run(s) == k,
    decreases k,
{
    if k > 0 {
        lemma_nonws_run(s.drop_first(), k - 1);
    }
}

proof fn lemma_nonws_run_bound(s: Seq<char>)
    ensures
        nonws_run(s) <= s.len(),
    decreases s.len(),
{
    if s.len() > 0 && !is_ws(s[0]) {
        lemma_nonws_run_bound(s.drop_first());
    }
}

/// `str::split_whitespace`: the maximal runs of non-white-space characters.
pub open spec fn words(s: Seq<char>) -> Seq<Seq<char>>
    decreases s.len(),
{
    if s.len() == 0 {
        seq![]
    } else if is_ws(s[0]) {
        words(s.drop_first())
    } else {
        let k = nonws_run(s) as int;
        if 0 < k <= s.len() {
            seq![s.subrange(0, k)] + words(s.subrange(k, s.len() as int))
        } else {
            seq![s]
        }
    }
}

/// The white-space-separated words of `s`.
pub fn split_words(s: &Vec<char>) -> (r: Vec<Vec<char>>)
    ensures
        r@.len() == words(s@).len(),
        forall|k: int| 0 <= k < r@.len() ==> #[trigger] r@[k]@ == words(s@)[k],
{
    let mut parts: Vec<Vec<char>> = Vec::new();
    let mut cur: Vec<char> = Vec::new();
    let mut start: usize = 0;
    let mut i: usize = 0;
    let ghost mut pv: Seq<Seq<char>> = seq![];
    assert(s@.subrange(0, s@.len() as int) =~= s@);
    assert(pv + words(s@) =~= words(s@));
    while i < s.len()
        invariant
            start <= i <= s@.len(),
            cur@ == s@.subrange(start as int, i as int),
            parts@.len() == pv.len(),
            forall|k: int| 0 <= k < pv.len() ==> #[trigger] parts@[k]@ == pv[k],
            words(s@) == pv + words(s@.subrange(start as int, s@.len() as int)),
            forall|k: int| start <= k < i ==> !is_ws(#[trigger] s@[k]),
        decreases s@.len() - i,
    {
        if is_whitespace(s[i]) {
            proof {
                let rest = s@.subrange(start as int, s@.len() as int);
                if start < i {
                    lemma_nonws_run(rest, i - start);
                    assert(rest.subrange(0, i - start) =~= cur@);
                    let tail = rest.subrange(i - start, rest.len() as int);
                    assert(tail =~= s@.subrange(i as int, s@.len() as int));
                    assert(tail.drop_first() =~= s@.subrange(i + 1, s@.len() as int));
                    assert(words(rest) == seq![cur@] + words(tail));
                    assert(pv + words(rest) =~= pv.push(cur@) + words(s@.subrange(i + 1, s@.len() as int)));
                    pv = pv.push(cur@);
                } else {
                    assert(rest.drop_first() =~= s@.subrange(i + 1, s@.len() as int));
                }
            }
            if start < i {
                parts.push(cur);
                cur = Vec::new();
            }
            start = i + 1;
            assert(cur@ =~= s@.subrange(start as int, i + 1));
        } else {
            cur.push(s[i]);
            assert(cur@ =~= s@.subrange(start as int, i + 1));
        }
        i = i + 1;
    }
    proof {
        let rest = s@.subrange(start as int, s@.len() as int);
        if start < i {
            lemma_nonws_run(rest, i - start);
            assert(rest.subrange(0, i - start) =~= cur@);
            assert(rest.subrange(i - start, rest.len() as int) =~= Seq::<char>::empty());
            assert(!is_ws(rest[0]));
            assert(words(Seq::<char>::empty()) == Seq::<Seq<char>>::empty());
            assert(words(rest) =~= seq![cur@]);
            pv = pv.push(cur@);
        } else {
            assert(rest =~= Seq::<char>::empty());
            assert(pv + words(rest) =~= pv);
        }
    }
    if start < i {
        parts.push(cur);
    }
    parts
}

// ---------------------------------------------------------------------------
// ASCII case folding and substring tests.
// ---------------------------------------------------------------------------

/// The code of `c` after ASCII lowercasing.
pub open spec fn lower_code(c: char) -> int {
    if 'A' <= c && c <= 'Z' {
        c as int + 32
    } else {
        c as int
    }
}

/// Two characters equal, ignoring ASCII case when `fold` is set.
pub open spec fn char_eq(a: char, b: char, fold: bool) -> bool {
    if fold {
        lower_code(a) == lower_code(b)
    } else {
        a == b
    }
}

/// `t` occurs in `s` at `i` (ignoring ASCII case when `fold` is set).
pub open spec fn occurs_at(s: Seq<char>, t: Seq<char>, i: int, fold: bool) -> bool {
    0 <= i && i + t.len() <= s.len() && forall|k: int|
        0 <= k < t.len() ==> char_eq(#[trigger] s[i + k], t[k], fold)
}

/// `t` occurs somewhere in `s`.
pub open spec fn occurs(s: Seq<char>, t: Seq<char>, fold: bool) -> bool {
    exists|i: int| #[trigger] occurs_at(s, t, i, fold)
}

fn lower_of(c: char) -> (r: u32)
    ensures
        r as int == lower_code(c),
{
    if 'A' <= c && c <= 'Z' {
        c as u32 + 32
    } else {
        c as u32
    }
}

/// Does `t` occur in `s` at `i`?
pub fn occurs_at_exec(s: &Vec<char>, t: &Vec<char>, i: usize, fold: bool) -> (r: bool)
    ensures
        r == occurs_at(s@, t@, i as int, fold),
{
    if t.len() > s.len() || i > s.len() - t.len() {
        return false;
    }
    let mut k: usize = 0;
    while k < t.len()
        invariant
            t@.len() <= s@.len(),
            s@.len() <= usize::MAX,
            i + t@.len() <= s@.len(),
            k <= t@.len(),
            forall|m: int| 0 <= m < k ==> char_eq(#[trigger] s@[i + m], t@[m], fold),
        decreases t@.len() - k,
    {
        let same = if fold {
            lower_of(s[i + k]) == lower_of(t[k])
        } else {
            s[i + k] == t[k]
        };
        if !same {
            assert(!char_eq(s@[i + k as int], t@[k as int], fold));
            return false;
        }
        k = k + 1;
    }
    true
}

/// Does `t` occur anywhere in `s`?
pub fn occurs_exec(s: &Vec<char>, t: &Vec<char>, fold: bool) -> (r: bool)
    ensures
        r == occurs(s@, t@, fold),
{
    if t.len() > s.len() {
        assert forall|i: int| !#[trigger] occurs_at(s@, t@, i, fold) by {}
        return false;
    }
    let last = s.len() - t.len();
    let mut i: usize = 0;
    while i <= last
        invariant
            last == s@.len() - t@.len(),
            t@.len() <= s@.len(),
            i <= last + 1,
            forall|j: int| 0 <= j < i ==> !#[trigger] occurs_at(s@, t@, j, fold),
        decreases last + 1 - i,
    {
        if occurs_at_exec(s, t, i, fold) {
            return true;
        }
        if i == last {
            assert forall|j: int| !#[trigger] occurs_at(s@, t@, j, fold) by {
                if 0 <= j <= last {
                    assert(j < i || j == i);
                }
            }
            return false;
        }
        i = i + 1;
    }
    assert forall|j: int| !#[trigger] occurs_at(s@, t@, j, fold) by {}
    false
}

/// `s` ends with `t` (ignoring ASCII case when `fold` is set).
pub open spec fn ends_with(s: Seq<char>, t: Seq<char>, fold: bool) -> bool {
    t.len() <= s.len() && occurs_at(s, t, s.len() - t.len(), fold)
}

pub fn ends_with_exec(s: &Vec<char>, t: &Vec<char>, fold: bool) -> (r: bool)
    ensures
        r == ends_with(s@, t@, fold),
{
    if t.len() > s.len() {
        return false;
    }
    occurs_at_exec(s, t, s.len() - t.len(), fold)
}

/// Equal, ignoring ASCII case (`str::eq_ignore_ascii_case`).
pub open spec fn eq_ignore_case(a: Seq<char>, b: Seq<char>) -> bool {
    a.len() == b.len() && occurs_at(a, b, 0, true)
}

pub fn eq_ignore_case_exec(a: &str, b: &str) -> (r: bool)
    ensures
        r == eq_ignore_case(a@, b@),
{
    let x = chars_of(a);
    let y = chars_of(b);
    if x.len() != y.len() {
        return false;
    }
    occurs_at_exec(&x, &y, 0, true)
}

// ---------------------------------------------------------------------------
// Paths.
// ---------------------------------------------------------------------------

pub open spec fn is_path_sep(c: char) -> bool {
    c == '/' || c == '\\'
}

/// Where the last path component of `p` starts: just after its last `/` or
/// `\`, or `0`.
pub open spec fn base_start(p: Seq<char>) -> int
    decreases p.len(),
{
    if p.len() == 0 {
        0
    } else if is_path_sep(p.last()) {
        p.len() as int
    } else {
        base_start(p.drop_last())
    }
}

/// The last path component of `p`, splitting on both `/` and `\`.
pub open spec fn basename(p: Seq<char>) -> Seq<char> {
    p.subrange(base_start(p), p.len() as int)
}

proof fn lemma_base_start(p: Seq<char>)
    ensures
        0 <= base_start(p) <= p.len(),
    decreases p.len(),
{
    if p.len() > 0 && !is_path_sep(p.last()) {
        lemma_base_start(p.drop_last());
    }
}

pub fn basename_chars(p: &Vec<char>) -> (r: Vec<char>)
    ensures
        r@ == basename(p@),
{
    let mut b: usize = p.len();
    proof {
        assert(p@.subrange(0, p@.len() as int) =~= p@);
    }
    while b > 0 && !(p[b - 1] == '/' || p[b - 1] == '\\')
        invariant
            b <= p@.len(),
            base_start(p@) == base_start(p@.subrange(0, b as int)),
        decreases b,
    {
        assert(p@.subrange(0, b as int).drop_last() =~= p@.subrange(0, b - 1));
        b = b - 1;
    }
    proof {
        lemma_base_start(p@);
    }
    let mut r: Vec<char> = Vec::new();
    let mut k: usize = b;
    while k < p.len()
        invariant
            b <= k <= p@.len(),
            r@ == p@.subrange(b as int, k as int),
        decreases p@.len() - k,
    {
        r.push(p[k]);
        assert(r@ =~= p@.subrange(b as int, k + 1));
        k = k + 1;
    }
    r
}


// ---------------------------------------------------------------------------
// Finding and replacing substrings.
// ---------------------------------------------------------------------------

/// The first position at or after `i` where `t` occurs in `s`.
pub open spec fn find_from(s: Seq<char>, t: Seq<char>, i: int) -> Option<int>
    decreases s.len() - i,
{
    if i < 0 || i + t.len() > s.len() {
        None
    } else if occurs_at(s, t, i, false) {
        Some(i)
    } else {
        find_from(s, t, i + 1)
    }
}

/// `str::find`: the first position where `t` occurs in `s`.
pub open spec fn find(s: Seq<char>, t: Seq<char>) -> Option<int> {
    find_from(s, t, 0)
}

pub proof fn lemma_find_from_bounds(s: Seq<char>, t: Seq<char>, i: int)
    ensures
        find_from(s, t, i) matches Some(p) ==> i <= p && p + t.len() <= s.len() && occurs_at(s, t, p, false),
    decreases s.len() - i,
{
    if !(i < 0 || i + t.len() > s.len()) && !occurs_at(s, t, i, false) {
        lemma_find_from_bounds(s, t, i + 1);
    }
}

/// The first position at or after `from` where `t` occurs in `s`.
pub fn find_exec(s: &Vec<char>, t: &Vec<char>, from: usize) -> (r: Option<usize>)
    ensures
        match find_from(s@, t@, from as int) {
            Some(p) => r == Some(p as usize),
            None => r is None,
        },
{
    proof {
        lemma_find_from_bounds(s@, t@, from as int);
    }
    if t.len() > s.len() {
        return None;
    }
    let last = s.len() - t.len();
    let mut i: usize = from;
    while i <= last
        invariant
            last == s@.len() - t@.len(),
            t@.len() <= s@.len(),
            from <= i,
            find_from(s@, t@, from as int) == find_from(s@, t@, i as int),
        decreases last + 1 - i,
    {
        if occurs_at_exec(s, t, i, false) {
            return Some(i);
        }
        if i == last {
            assert(find_from(s@, t@, i + 1) is None);
            return None;
        }
        i = i + 1;
    }
    None
}

/// `str::replace(pat, rep)`: every occurrence of `pat`, scanning left to
/// right without overlaps, replaced by `rep`.
pub open spec fn replace_all(s: Seq<char>, pat: Seq<char>, rep: Seq<char>) -> Seq<char>
    decreases s.len(),
{
    if s.len() == 0 || pat.len() == 0 {
        s
    } else if pat.is_prefix_of(s) {
        rep + replace_all(s.subrange(pat.len() as int, s.len() as int), pat, rep)
    } else {
        seq![s[0]] + replace_all(s.drop_first(), pat, rep)
    }
}

/// Replace every occurrence of `pat` in `s` by `rep`.
pub fn replace_chars(s: &Vec<char>, pat: &str, rep: &str) -> (r: Vec<char>)
    requires
        pat@.len() > 0,
    ensures
        r@ == replace_all(s@, pat@, rep@),
{
    let p = chars_of(pat);
    let q = chars_of(rep);
    let mut out: Vec<char> = Vec::new();
    let mut i: usize = 0;
    assert(s@.subrange(0, s@.len() as int) =~= s@);
    while i < s.len()
        invariant
            p@ == pat@,
            q@ == rep@,
            p@.len() > 0,
            i <= s@.len(),
            replace_all(s@, pat@, rep@) == out@ + replace_all(s@.subrange(i as int, s@.len() as int), pat@, rep@),
        decreases s@.len() - i,
    {
        let ghost rest = s@.subrange(i as int, s@.len() as int);
        if occurs_at_exec(s, &p, i, false) {
            assert forall|k: int| 0 <= k < pat@.len() implies rest[k] == pat@[k] by {
                assert(char_eq(s@[i + k], pat@[k], false));
                assert(rest[k] == s@[i + k]);
            }
            assert(pat@ =~= rest.subrange(0, pat@.len() as int));
            assert(pat@.is_prefix_of(rest));
            assert(rest.subrange(pat@.len() as int, rest.len() as int) =~= s@.subrange(i + pat@.len(), s@.len() as int));
            let mut k: usize = 0;
            let ghost before = out@;
            while k < q.len()
                invariant
                    k <= q@.len(),
                    out@ == before + q@.subrange(0, k as int),
                decreases q@.len() - k,
            {
                out.push(q[k]);
                assert(out@ =~= before + q@.subrange(0, k + 1));
                k = k + 1;
            }
            assert(q@.subrange(0, q@.len() as int) =~= q@);
            assert(out@ + replace_all(s@.subrange(i + p@.len(), s@.len() as int), pat@, rep@) =~= before + (rep@ + replace_all(s@.subrange(i + p@.len(), s@.len() as int), pat@, rep@)));
            i = i + p.len();
        } else {
            assert(!pat@.is_prefix_of(rest)) by {
                if pat@.is_prefix_of(rest) {
                    assert(occurs_at(s@, pat@, i as int, false)) by {
                        assert forall|k: int| 0 <= k < pat@.len() implies char_eq(#[trigger] s@[i + k], pat@[k], false) by {
                            assert(rest[k] == pat@[k]);
                        }
                    }
                }
            }
            assert(rest.drop_first() =~= s@.subrange(i + 1, s@.len() as int));
            let ghost before = out@;
            out.push(s[i]);
            assert(out@ + replace_all(s@.subrange(i + 1, s@.len() as int), pat@, rep@) =~= before + (seq![s@[i as int]] + replace_all(rest.drop_first(), pat@, rep@)));
            i = i + 1;
        }
    }
    assert(s@.subrange(i as int, s@.len() as int) =~= Seq::<char>::empty());
    assert(out@ + Seq::<char>::empty() =~= out@);
    out
}


/// A signed integer in decimal (`i64::to_string`).
pub open spec fn int_text(n: int) -> Seq<char> {
    if n < 0 {
        "-"@ + dec_digits((-n) as nat)
    } else {
        dec_digits(n as nat)
    }
}

/// `n.to_string()` for an `i64`.
pub fn int_string(n: i64) -> (r: String)
    ensures
        r@ == int_text(n as int),
{
    if n < 0 {
        let m: i128 = -(n as i128);
        let d = decimal(m as u64);
        let mut r = String::new();
        push_char(&mut r, '-');
        let ghost minus = r@;
        vstd::string::StringExecFns::append(&mut r, d.as_str());
        assert(minus =~= "-"@) by {
            reveal_strlit("-");
        }
        r
    } else {
        decimal(n as u64)
    }
}

} // verus!
