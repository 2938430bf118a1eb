//! Character-level text helpers: equality, searching, splitting, trimming and
//! decimal conversion, each verified against a functional specification.

use vstd::prelude::*;

verus! {

// ---------- equality ----------

/// Compares two string slices by their character sequences.
pub fn str_eq(a: &str, b: &str) -> (r: bool)
    ensures
        r == (a@ == b@),
{
    let alen = a.unicode_len();
    let blen = b.unicode_len();
    if alen != blen {
        return false;
    }
    let mut i: usize = 0;
    while i < alen
        invariant
            alen == a@.len(),
            blen == b@.len(),
            alen == blen,
            i <= alen,
            forall|j: int| 0 <= j < i ==> a@[j] == b@[j],
        decreases alen - i,
    {
        if a.get_char(i) != b.get_char(i) {
            return false;
        }
        i += 1;
    }
    proof {
        assert(a@ =~= b@);
    }
    true
}

/// Compares a character vector against a string slice.
pub fn chars_eq_str(v: &Vec<char>, s: &str) -> (r: bool)
    ensures
        r == (v@ == s@),
{
    let slen = s.unicode_len();
    if v.len() != slen {
        return false;
    }
    let mut i: usize = 0;
    while i < slen
        invariant
            slen == s@.len(),
            v@.len() == slen,
            i <= slen,
            forall|j: int| 0 <= j < i ==> v@[j] == s@[j],
        decreases slen - i,
    {
        if v[i] != s.get_char(i) {
            return false;
        }
        i += 1;
    }
    proof {
        assert(v@ =~= s@);
    }
    true
}

// ---------- conversions ----------

/// Collects the characters of a string slice into a vector.
pub fn chars_of(s: &str) -> (v: Vec<char>)
    ensures
        v@ == s@,
{
    let n = s.unicode_len();
    let mut v: Vec<char> = Vec::new();
    let mut i: usize = 0;
    while i < n
        invariant
            n == s@.len(),
            i <= n,
            v@ == s@.subrange(0, i as int),
        decreases n - i,
    {
        v.push(s.get_char(i));
        i += 1;
        proof {
            assert(v@ =~= s@.subrange(0, i as int));
        }
    }
    proof {
        assert(v@ =~= s@);
    }
    v
}

/// Relies on String::push, which appends the given character to the end of
/// the string.
#[verifier::external_body]
fn push_char(s: &mut String, c: char)
    ensures
        final(s)@ == old(s)@.push(c),
{
    s.push(c);
}

/// Builds an owned string out of a slice of characters.
pub fn string_from_chars(v: &[char]) -> (s: String)
    ensures
        s@ == v@,
{
    let mut s = String::new();
    let n = v.len();
    let mut i: usize = 0;
    while i < n
        invariant
            n == v@.len(),
            i <= n,
            s@ == v@.subrange(0, i as int),
        decreases n - i,
    {
        push_char(&mut s, v[i]);
        i += 1;
        proof {
            assert(s@ =~= v@.subrange(0, i as int));
        }
    }
    proof {
        assert(s@ =~= v@);
    }
    s
}

/// Copies the characters of `v` in positions `from..to` into a fresh vector.
pub fn subvec(v: &Vec<char>, from: usize, to: usize) -> (r: Vec<char>)
    requires
        from <= to <= v@.len(),
    ensures
        r@ == v@.subrange(from as int, to as int),
{
    let mut r: Vec<char> = Vec::new();
    let mut i: usize = from;
    while i < to
        invariant
            from <= i <= to <= v@.len(),
            r@ == v@.subrange(from as int, i as int),
        decreases to - i,
    {
        r.push(v[i]);
        i += 1;
        proof {
            assert(r@ =~= v@.subrange(from as int, i as int));
        }
    }
    r
}

// ---------- searching ----------

/// Index of the first occurrence of `c` in `s`, if any.
pub open spec fn spec_find(s: Seq<char>, c: char) -> Option<int>
    decreases s.len(),
{
    if s.len() == 0 {
        None
    } else if s[0] == c {
        Some(0int)
    } else {
        match spec_find(s.drop_first(), c) {
            None => None,
            Some(i) => Some(i + 1),
        }
    }
}

pub proof fn lemma_find_some(s: Seq<char>, c: char, i: int)
    requires
        0 <= i < s.len(),
        s[i] == c,
        forall|j: int| 0 <= j < i ==> s[j] != c,
    ensures
        spec_find(s, c) == Some(i),
    decreases i,
{
    if i > 0 {
        lemma_find_some(s.drop_first(), c, i - 1);
    }
}

pub proof fn lemma_find_none(s: Seq<char>, c: char)
    requires
        forall|j: int| 0 <= j < s.len() ==> s[j] != c,
    ensures
        spec_find(s, c) is None,
    decreases s.len(),
{
    if s.len() > 0 {
        lemma_find_none(s.drop_first(), c);
    }
}

/// A found index is in bounds, holds `c`, and nothing before it does.
pub proof fn lemma_find_props(s: Seq<char>, c: char)
    ensures
        match spec_find(s, c) {
            Some(i) => 0 <= i < s.len() && s[i] == c && forall|j: int| 0 <= j < i ==> s[j] != c,
            None => forall|j: int| 0 <= j < s.len() ==> s[j] != c,
        },
    decreases s.len(),
{
    if s.len() > 0 && s[0] != c {
        lemma_find_props(s.drop_first(), c);
        match spec_find(s.drop_first(), c) {
            Some(i) => {
                assert(forall|j: int| 1 <= j < i + 1 ==> s[j] == s.drop_first()[j - 1]);
            },
            None => {
                assert(forall|j: int| 1 <= j < s.len() ==> s[j] == s.drop_first()[j - 1]);
            },
        }
    }
}

/// Finds the first occurrence of `c` in `v`.
pub fn find_char(v: &Vec<char>, c: char) -> (r: Option<usize>)
    ensures
        match r {
            Some(i) => spec_find(v@, c) == Some(i as int),
            None => spec_find(v@, c) is None,
        },
{
    let n = v.len();
    let mut i: usize = 0;
    while i < n
        invariant
            n == v@.len(),
            i <= n,
            forall|j: int| 0 <= j < i ==> v@[j] != c,
        decreases n - i,
    {
        if v[i] == c {
            proof {
                lemma_find_some(v@, c, i as int);
            }
            return Some(i);
        }
        i += 1;
    }
    proof {
        lemma_find_none(v@, c);
    }
    None
}

// ---------- substring search ----------

/// `needle` occurs contiguously somewhere in `hay`.
pub open spec fn contains_seq(hay: Seq<char>, needle: Seq<char>) -> bool {
    exists|i: int|
        0 <= i <= hay.len() - needle.len() && #[trigger] hay.subrange(i, i + needle.len())
            == needle
}

/// Looks for `needle` anywhere in `hay`.
pub fn contains_str(hay: &Vec<char>, needle: &str) -> (r: bool)
    ensures
        r == contains_seq(hay@, needle@),
{
    let n = hay.len();
    let m = needle.unicode_len();
    if m > n {
        return false;
    }
    if m == 0 {
        proof {
            assert(hay@.subrange(0, 0 + needle@.len() as int) =~= needle@);
        }
        return true;
    }
    let mut i: usize = 0;
    while i <= n - m
        invariant
            n == hay@.len(),
            m == needle@.len(),
            0 < m <= n,
            i <= n - m + 1,
            forall|k: int|
                0 <= k < i ==> #[trigger] hay@.subrange(k, k + needle@.len()) != needle@,
        decreases n - i,
    {
        let mut j: usize = 0;
        let mut matched = true;
        while j < m
            invariant
                n == hay@.len(),
                m == needle@.len(),
                m <= n,
                i <= n - m,
                j <= m,
                matched ==> forall|t: int| 0 <= t < j ==> hay@[i + t] == needle@[t],
                !matched ==> hay@.subrange(i as int, i + needle@.len()) != needle@,
            decreases m - j,
        {
            if hay[i + j] != needle.get_char(j) {
                proof {
                    assert(hay@.subrange(i as int, i + needle@.len())[j as int] != needle@[
                        j as int
                    ]);
                }
                matched = false;
                j = m;
            } else {
                j += 1;
            }
        }
        if matched {
            proof {
                assert(hay@.subrange(i as int, i + needle@.len()) =~= needle@);
            }
            return true;
        }
        i += 1;
    }
    false
}

// ---------- trimming ----------

/// Blank characters stripped from the ends of a settings line.
pub open spec fn is_space(c: char) -> bool {
    c == ' ' || c == '\t' || c == '\r'
}

pub open spec fn trim_front(s: Seq<char>) -> Seq<char>
    decreases s.len(),
{
    if s.len() > 0 && is_space(s[0]) {
        trim_front(s.drop_first())
    } else {
        s
    }
}

pub open spec fn trim_back(s: Seq<char>) -> Seq<char>
    decreases s.len(),
{
    if s.len() > 0 && is_space(s.last()) {
        trim_back(s.drop_last())
    } else {
        s
    }
}

/// The sequence with blank characters removed from both ends.
pub open spec fn spec_trim(s: Seq<char>) -> Seq<char> {
    trim_back(trim_front(s))
}

proof fn lemma_trim_front_skip(s: Seq<char>, a: int)
    requires
        0 <= a <= s.len(),
        forall|j: int| 0 <= j < a ==> is_space(s[j]),
        a < s.len() ==> !is_space(s[a]),
    ensures
        trim_front(s) == s.skip(a),
    decreases a,
{
    if a == 0 {
        assert(s.skip(0) =~= s);
    } else {
        lemma_trim_front_skip(s.drop_first(), a - 1);
        assert(s.drop_first().skip(a - 1) =~= s.skip(a));
    }
}

proof fn lemma_trim_back_take(s: Seq<char>, b: int)
    requires
        0 <= b <= s.len(),
        forall|j: int| b <= j < s.len() ==> is_space(s[j]),
        b > 0 ==> !is_space(s[b - 1]),
    ensures
        trim_back(s) == s.take(b),
    decreases s.len() - b,
{
    if b == s.len() {
        assert(s.take(b) =~= s);
    } else {
        lemma_trim_back_take(s.drop_last(), b);
        assert(s.drop_last().take(b) =~= s.take(b));
    }
}

/// Exec check of `is_space`.
pub fn is_space_char(c: char) -> (r: bool)
    ensures
        r == is_space(c),
{
    c == ' ' || c == '\t' || c == '\r'
}

/// Removes blank characters from both ends of `v`.
pub fn trim_chars(v: &Vec<char>) -> (r: Vec<char>)
    ensures
        r@ == spec_trim(v@),
{
    let n = v.len();
    let mut a: usize = 0;
    while a < n && is_space_char(v[a])
        invariant
            n == v@.len(),
            a <= n,
            forall|j: int| 0 <= j < a ==> is_space(v@[j]),
        decreases n - a,
    {
        a += 1;
    }
    let mut b: usize = n;
    while b > a && is_space_char(v[b - 1])
        invariant
            n == v@.len(),
            a <= b <= n,
            forall|j: int| b <= j < n ==> is_space(v@[j]),
        decreases b,
    {
        b -= 1;
    }
    proof {
        lemma_trim_front_skip(v@, a as int);
        if b == a && a < n {
            assert(is_space(v@[a as int]));
            assert(false);
        }
        lemma_trim_back_take(v@.skip(a as int), b - a);
        assert(v@.skip(a as int).take(b - a) =~= v@.subrange(a as int, b as int));
    }
    subvec(v, a, b)
}

// ---------- splitting ----------

/// Splits a sequence on a separator; always yields at least one piece, and
/// joining the pieces with the separator gives back the input.
pub open spec fn spec_split(s: Seq<char>, sep: char) -> Seq<Seq<char>>
    decreases s.len(),
{
    if s.len() == 0 {
        seq![Seq::<char>::empty()]
    } else if s[0] == sep {
        seq![Seq::<char>::empty()] + spec_split(s.drop_first(), sep)
    } else {
        let rest = spec_split(s.drop_first(), sep);
        seq![seq![s[0]] + rest[0]] + rest.drop_first()
    }
}

pub proof fn lemma_split_len(s: Seq<char>, sep: char)
    ensures
        spec_split(s, sep).len() >= 1,
    decreases s.len(),
{
    if s.len() > 0 {
        lemma_split_len(s.drop_first(), sep);
    }
}

/// The first piece of a split, extended at the front.
spec fn prepend_first(pre: Seq<char>, pieces: Seq<Seq<char>>) -> Seq<Seq<char>> {
    seq![pre + pieces[0]] + pieces.drop_first()
}

/// Splits `v` on the separator `sep`.
pub fn split_chars(v: &Vec<char>, sep: char) -> (r: Vec<Vec<char>>)
    ensures
        r.deep_view() == spec_split(v@, sep),
{
    let n = v.len();
    let mut segs: Vec<Vec<char>> = Vec::new();
    let mut cur: Vec<char> = Vec::new();
    let mut i: usize = 0;
    proof {
        lemma_split_len(v@, sep);
        assert(v@.skip(0) =~= v@);
        assert(prepend_first(cur@, spec_split(v@, sep)) =~~= spec_split(v@, sep));
        assert(segs.deep_view() + prepend_first(cur@, spec_split(v@, sep)) =~~= spec_split(
            v@,
            sep,
        ));
    }
    while i < n
        invariant
            n == v@.len(),
            i <= n,
            spec_split(v@, sep) == segs.deep_view() + prepend_first(
                cur@,
                spec_split(v@.skip(i as int), sep),
            ),
        decreases n - i,
    {
        let ghost prev_segs = segs.deep_view();
        let ghost prev_cur = cur@;
        let ghost suffix = v@.skip(i as int);
        proof {
            assert(suffix.len() > 0);
            assert(suffix[0] == v@[i as int]);
            assert(suffix.drop_first() =~= v@.skip(i as int + 1));
            lemma_split_len(v@.skip(i as int + 1), sep);
        }
        let c = v[i];
        if c == sep {
            segs.push(cur);
            cur = Vec::new();
            proof {
                assert(segs.deep_view() =~~= prev_segs.push(prev_cur));
                assert(spec_split(suffix, sep) =~~= seq![Seq::<char>::empty()] + spec_split(
                    v@.skip(i as int + 1),
                    sep,
                ));
                assert(prepend_first(prev_cur, spec_split(suffix, sep)) =~~= seq![prev_cur]
                    + spec_split(v@.skip(i as int + 1), sep));
                assert(segs.deep_view() + prepend_first(cur@, spec_split(v@.skip(i as int + 1), sep))
                    =~~= prev_segs + prepend_first(prev_cur, spec_split(suffix, sep)));
            }
        } else {
            cur.push(c);
            proof {
                let rest = spec_split(v@.skip(i as int + 1), sep);
                assert(spec_split(suffix, sep) =~~= seq![seq![suffix[0]] + rest[0]]
                    + rest.drop_first());
                assert(prev_cur + (seq![suffix[0]] + rest[0]) =~~= cur@ + rest[0]);
                assert(prepend_first(prev_cur, spec_split(suffix, sep)) =~~= prepend_first(
                    cur@,
                    rest,
                ));
                assert(segs.deep_view() + prepend_first(cur@, rest) =~~= segs.deep_view()
                    + prepend_first(prev_cur, spec_split(suffix, sep)));
            }
        }
        i += 1;
    }
    proof {
        assert(v@.skip(n as int) =~= Seq::<char>::empty());
        assert(spec_split(Seq::<char>::empty(), sep) =~~= seq![Seq::<char>::empty()]);
        assert(prepend_first(cur@, seq![Seq::<char>::empty()]) =~~= seq![cur@]);
    }
    let ghost prev_segs = segs.deep_view();
    let ghost last = cur@;
    segs.push(cur);
    proof {
        assert(segs.deep_view() =~~= prev_segs.push(last));
        assert(prev_segs + seq![last] =~~= prev_segs.push(last));
        assert(segs.deep_view() =~~= spec_split(v@, sep));
    }
    segs
}

// ---------- decimal numbers ----------

pub open spec fn is_digit(c: char) -> bool {
    48 <= c as u32 <= 57
}

pub open spec fn digit_val(c: char) -> nat {
    (c as u32 - 48) as nat
}

pub open spec fn all_digits(s: Seq<char>) -> bool {
    forall|i: int| 0 <= i < s.len() ==> is_digit(s[i])
}

/// Value of a sequence of decimal digits, most significant first.
pub open spec fn digits_val(s: Seq<char>) -> nat
    decreases s.len(),
{
    if s.len() == 0 {
        0
    } else {
        digits_val(s.drop_last()) * 10 + digit_val(s.last())
    }
}

/// What `u64::from_str` accepts: an optional leading `+`, then one or more
/// decimal digits whose value fits in a `u64`.
pub open spec fn spec_parse_u64(s: Seq<char>) -> Option<u64> {
    let body = if s.len() > 0 && s[0] == '+' {
        s.drop_first()
    } else {
        s
    };
    if body.len() > 0 && all_digits(body) && digits_val(body) <= u64::MAX {
        Some(digits_val(body) as u64)
    } else {
        None
    }
}

/// A positive parse: as `spec_parse_u64`, with zero rejected.
pub open spec fn spec_parse_nonzero_u64(s: Seq<char>) -> Option<u64> {
    match spec_parse_u64(s) {
        Some(v) => if v > 0 {
            Some(v)
        } else {
            None
        },
        None => None,
    }
}

proof fn lemma_digits_val_take_le(s: Seq<char>, j: int)
    requires
        0 <= j <= s.len(),
    ensures
        digits_val(s.take(j)) <= digits_val(s),
    decreases s.len() - j,
{
    if j == s.len() {
        assert(s.take(j) =~= s);
    } else {
        assert(s.take(j + 1).drop_last() =~= s.take(j));
        assert(s.take(j + 1).last() == s[j]);
        assert(digits_val(s.take(j + 1)) == digits_val(s.take(j)) * 10 + digit_val(s[j]));
        lemma_digits_val_take_le(s, j + 1);
    }
}

/// Parses the decimal characters of `v` as a `u64`.
pub fn parse_u64_chars(v: &Vec<char>) -> (r: Option<u64>)
    ensures
        r == spec_parse_u64(v@),
{
    let n = v.len();
    let st: usize = if n > 0 && v[0] == '+' {
        1
    } else {
        0
    };
    let ghost body = if v@.len() > 0 && v@[0] == '+' {
        v@.drop_first()
    } else {
        v@
    };
    proof {
        assert(body =~= v@.subrange(st as int, n as int));
    }
    if st == n {
        return None;
    }
    let mut value: u64 = 0;
    let mut i: usize = st;
    while i < n
        invariant
            st <= i <= n,
            n == v@.len(),
            st <= 1,
            body == v@.subrange(st as int, n as int),
            body == if v@.len() > 0 && v@[0] == '+' {
                v@.drop_first()
            } else {
                v@
            },
            forall|j: int| 0 <= j < i - st ==> is_digit(body[j]),
            value as nat == digits_val(body.take(i - st)),
        decreases n - i,
    {
        let c = v[i];
        let cu = c as u32;
        proof {
            assert(body[i - st] == v@[i as int]);
        }
        if cu < 48 || cu > 57 {
            proof {
                assert(!is_digit(body[i - st]));
                assert(!all_digits(body));
            }
            return None;
        }
        let d: u64 = (cu - 48) as u64;
        proof {
            assert(body.take(i - st + 1).drop_last() =~= body.take(i - st));
            assert(body.take(i - st + 1).last() == body[i - st]);
            assert(digit_val(body[i - st]) == d as nat);
            assert(digits_val(body.take(i - st + 1)) == value as nat * 10 + d as nat);
        }
        if value > (u64::MAX - d) / 10 {
            proof {
                assert(value as nat * 10 + d as nat > u64::MAX) by {
                    assert(value as nat > (u64::MAX - d) as nat / 10);
                    assert(value as nat * 10 > (u64::MAX - d) as nat) by (nonlinear_arith)
                        requires
                            value as nat > (u64::MAX - d) as nat / 10,
                    ;
                };
                lemma_digits_val_take_le(body, i - st + 1);
            }
            return None;
        }
        proof {
            assert(value as nat * 10 + d as nat <= u64::MAX) by (nonlinear_arith)
                requires
                    value as nat <= (u64::MAX - d) as nat / 10,
                    d as nat <= 9,
            ;
        }
        value = value * 10 + d;
        i += 1;
    }
    proof {
        assert(body.take(n - st) =~= body);
    }
    Some(value)
}

/// The decimal representation of `n`, most significant digit first.
pub open spec fn digit_char(d: nat) -> char {
    if d == 0 {
        '0'
    } else if d == 1 {
        '1'
    } else if d == 2 {
        '2'
    } else if d == 3 {
        '3'
    } else if d == 4 {
        '4'
    } else if d == 5 {
        '5'
    } else if d == 6 {
        '6'
    } else if d == 7 {
        '7'
    } else if d == 8 {
        '8'
    } else {
        '9'
    }
}

pub open spec fn spec_u64_string(n: nat) -> Seq<char>
    decreases n,
{
    if n < 10 {
        seq![digit_char(n)]
    } else {
        spec_u64_string(n / 10).push(digit_char(n % 10))
    }
}

fn digit_char_exec(d: u64) -> (c: char)
    requires
        d < 10,
    ensures
        c == digit_char(d as nat),
{
    if d == 0 {
        '0'
    } else if d == 1 {
        '1'
    } else if d == 2 {
        '2'
    } else if d == 3 {
        '3'
    } else if d == 4 {
        '4'
    } else if d == 5 {
        '5'
    } else if d == 6 {
        '6'
    } else if d == 7 {
        '7'
    } else if d == 8 {
        '8'
    } else {
        '9'
    }
}

/// Writes `n` in decimal.
pub fn u64_to_string(n: u64) -> (s: String)
    ensures
        s@ == spec_u64_string(n as nat),
{
    let mut out: Vec<char> = Vec::new();
    let mut cur: u64 = n;
    if cur == 0 {
        out.push('0');
        return string_from_chars(out.as_slice());
    }
    while cur > 0
        invariant
            if cur == 0 {
                spec_u64_string(n as nat) == out@
            } else {
                spec_u64_string(n as nat) == spec_u64_string(cur as nat) + out@
            },
        decreases cur,
    {
        let ghost prev_out = out@;
        let ghost prev_cur = cur as nat;
        let d = cur % 10;
        let c = digit_char_exec(d);
        out.insert(0, c);
        cur = cur / 10;
        proof {
            assert(out@ =~= seq![c] + prev_out);
            if prev_cur < 10 {
                assert(spec_u64_string(prev_cur) =~= seq![digit_char(prev_cur)]);
                assert(digit_char(prev_cur) == c);
                assert(spec_u64_string(prev_cur) + prev_out =~= out@);
            } else {
                assert(spec_u64_string(prev_cur) == spec_u64_string(prev_cur / 10).push(
                    digit_char(prev_cur % 10),
                ));
                assert(spec_u64_string(prev_cur / 10).push(c) + prev_out =~= spec_u64_string(
                    prev_cur / 10,
                ) + out@);
            }
        }
    }
    string_from_chars(out.as_slice())
}

} // verus!
