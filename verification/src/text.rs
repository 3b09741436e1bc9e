use vstd::prelude::*;

verus! {

broadcast use vstd::string::group_string_axioms;

// ---------------------------------------------------------------------------
// Model of character sequences
// ---------------------------------------------------------------------------

/// The Unicode `White_Space` property, which `char::is_whitespace` tests.
pub open spec fn is_ws(c: char) -> bool {
    let u = c as u32;
    ||| 0x09 <= u <= 0x0d
    ||| u == 0x20
    ||| u == 0x85
    ||| u == 0xa0
    ||| u == 0x1680
    ||| 0x2000 <= u <= 0x200a
    ||| u == 0x2028
    ||| u == 0x2029
    ||| u == 0x202f
    ||| u == 0x205f
    ||| u == 0x3000
}

/// `s` without its leading whitespace.
pub open spec fn trim_start(s: Seq<char>) -> Seq<char>
    decreases s.len(),
{
    if s.len() > 0 && is_ws(s[0]) {
        trim_start(s.drop_first())
    } else {
        s
    }
}

/// `s` without its trailing whitespace.
pub open spec fn trim_end(s: Seq<char>) -> Seq<char>
    decreases s.len(),
{
    if s.len() > 0 && is_ws(s.last()) {
        trim_end(s.drop_last())
    } else {
        s
    }
}

/// `s` without leading and trailing whitespace, as `str::trim` gives it.
pub open spec fn trim(s: Seq<char>) -> Seq<char> {
    trim_end(trim_start(s))
}


/// Position of the first `c` in `s`, or `s.len()` where there is none.
pub open spec fn char_pos(s: Seq<char>, c: char) -> int
    decreases s.len(),
{
    if s.len() == 0 {
        0
    } else if s[0] == c {
        0
    } else {
        1 + char_pos(s.drop_first(), c)
    }
}

/// `char_pos` finds the first `c`, if any.
pub proof fn lemma_char_pos_bounds(s: Seq<char>, c: char)
    ensures
        0 <= char_pos(s, c) <= s.len(),
        char_pos(s, c) < s.len() ==> s[char_pos(s, c)] == c,
        forall|j: int| 0 <= j < char_pos(s, c) ==> s[j] != c,
    decreases s.len(),
{
    if s.len() > 0 && s[0] != c {
        lemma_char_pos_bounds(s.drop_first(), c);
        assert forall|j: int| 0 <= j < char_pos(s, c) implies s[j] != c by {
            if j > 0 {
                assert(s[j] == s.drop_first()[j - 1]);
            }
        }
    }
}

/// The pieces of `s` between occurrences of `c`, as `str::split` gives them:
/// always at least one piece.
pub open spec fn split(s: Seq<char>, c: char) -> Seq<Seq<char>>
    decreases s.len(),
{
    let p = char_pos(s, c);
    if p < s.len() {
        proof {
            lemma_char_pos_bounds(s, c);
        }
        seq![s.take(p)] + split(s.skip(p + 1), c)
    } else {
        seq![s]
    }
}

/// `s` cut at its first `c`, as `str::split_once` gives it.
pub open spec fn split_once(s: Seq<char>, c: char) -> Option<(Seq<char>, Seq<char>)> {
    let p = char_pos(s, c);
    if p < s.len() {
        Some((s.take(p), s.skip(p + 1)))
    } else {
        None
    }
}

/// Whether `s` begins with `p`.
pub open spec fn starts_with(s: Seq<char>, p: Seq<char>) -> bool {
    p.len() <= s.len() && s.take(p.len() as int) == p
}

/// A position moved on by `k`.
pub open spec fn shift(o: Option<int>, k: int) -> Option<int> {
    match o {
        Some(i) => Some(i + k),
        None => None,
    }
}

/// Position of the first occurrence of `p` in `s`, as `str::find` gives it.
pub open spec fn find(s: Seq<char>, p: Seq<char>) -> Option<int>
    decreases s.len(),
{
    if starts_with(s, p) {
        Some(0)
    } else if s.len() == 0 {
        None
    } else {
        shift(find(s.drop_first(), p), 1)
    }
}

/// An ASCII decimal digit.
pub open spec fn is_digit(c: char) -> bool {
    0x30 <= c as u32 <= 0x39
}

/// Whether every character of `s` is an ASCII decimal digit.
pub open spec fn all_digits(s: Seq<char>) -> bool {
    forall|i: int| 0 <= i < s.len() ==> is_digit(#[trigger] s[i])
}

/// The number that a sequence of decimal digits denotes.
pub open spec fn digits_val(s: Seq<char>) -> int
    decreases s.len(),
{
    if s.len() == 0 {
        0
    } else {
        10 * digits_val(s.drop_last()) + (s.last() as u32 - 0x30)
    }
}

/// An `i32` as `str::parse::<i32>` reads it: an optional sign, then one or
/// more ASCII digits, within the range of `i32`.
pub open spec fn parse_i32(s: Seq<char>) -> Option<i32> {
    let signed = s.len() > 0 && (s[0] == '-' || s[0] == '+');
    let body = if signed { s.drop_first() } else { s };
    if body.len() == 0 || !all_digits(body) {
        None
    } else {
        let v = if s[0] == '-' { -digits_val(body) } else { digits_val(body) };
        if i32::MIN <= v <= i32::MAX {
            Some(v as i32)
        } else {
            None
        }
    }
}

/// An integer field: the trimmed text read as an `i32`.
pub open spec fn parse_int_spec(s: Seq<char>) -> Option<i32> {
    parse_i32(trim(s))
}

// ---------------------------------------------------------------------------
// Executable helpers
// ---------------------------------------------------------------------------

/// Appends one character to a string.
/// Trusted: `String::push` appends `c` at the end and changes nothing else.
#[verifier::external_body]
pub(crate) fn push_char(s: &mut String, c: char)
    ensures
        final(s)@ == old(s)@.push(c),
{
    s.push(c);
}

/// The characters of a string slice.
pub fn str_to_chars(s: &str) -> (v: Vec<char>)
    ensures
        v@ == s@,
{
    let mut v: Vec<char> = Vec::new();
    for c in it: s.chars()
        invariant
            v@ == it.history(),
    {
        v.push(c);
    }
    v
}

/// A string made of the given characters.
pub fn chars_to_string(v: &Vec<char>) -> (s: String)
    ensures
        s@ == v@,
{
    let mut s = String::new();
    let n: usize = v.len();
    let mut i: usize = 0;
    while i < n
        invariant
            n == v@.len(),
            i <= n,
            s@ == v@.take(i as int),
        decreases n - i,
    {
        proof {
            assert(v@.take(i + 1) =~= v@.take(i as int).push(v@[i as int]));
        }
        push_char(&mut s, v[i]);
        i += 1;
    }
    proof {
        assert(v@.take(n as int) =~= v@);
    }
    s
}

/// Tests the Unicode `White_Space` property.
pub fn is_whitespace(c: char) -> (b: bool)
    ensures
        b == is_ws(c),
{
    let u: u32 = c as u32;
    (0x09 <= u && u <= 0x0d) || u == 0x20 || u == 0x85 || u == 0xa0 || u == 0x1680
        || (0x2000 <= u && u <= 0x200a) || u == 0x2028 || u == 0x2029 || u == 0x202f
        || u == 0x205f || u == 0x3000
}

/// The characters of `v` from `lo` up to `hi`.
pub fn subvec(v: &Vec<char>, lo: usize, hi: usize) -> (r: Vec<char>)
    requires
        lo <= hi <= v@.len(),
    ensures
        r@ == v@.subrange(lo as int, hi as int),
{
    let mut r: Vec<char> = Vec::new();
    let mut i: usize = lo;
    while i < hi
        invariant
            lo <= i <= hi <= v@.len(),
            r@ == v@.subrange(lo as int, i as int),
        decreases hi - i,
    {
        r.push(v[i]);
        proof {
            assert(r@ =~= v@.subrange(lo as int, i + 1));
        }
        i += 1;
    }
    r
}

/// `v` without leading and trailing whitespace.
pub fn trim_chars(v: &Vec<char>) -> (r: Vec<char>)
    ensures
        r@ == trim(v@),
{
    let n: usize = v.len();
    let mut lo: usize = 0;
    proof {
        assert(v@.skip(0) =~= v@);
    }
    while lo < n && is_whitespace(v[lo])
        invariant
            n == v@.len(),
            lo <= n,
            trim_start(v@) == trim_start(v@.skip(lo as int)),
        decreases n - lo,
    {
        proof {
            assert(v@.skip(lo as int).drop_first() =~= v@.skip(lo + 1));
        }
        lo += 1;
    }
    let mut hi: usize = n;
    proof {
        assert(v@.skip(lo as int) =~= v@.subrange(lo as int, n as int));
    }
    while hi > lo && is_whitespace(v[hi - 1])
        invariant
            n == v@.len(),
            lo <= hi <= n,
            trim_start(v@) == v@.skip(lo as int),
            trim(v@) == trim_end(v@.subrange(lo as int, hi as int)),
        decreases hi - lo,
    {
        proof {
            assert(v@.subrange(lo as int, hi as int).drop_last() =~= v@.subrange(
                lo as int,
                hi - 1,
            ));
        }
        hi -= 1;
    }
    subvec(v, lo, hi)
}

/// Position of the first `c` in `v` at or after `start`, or `v.len()`.
pub fn find_char_from(v: &Vec<char>, start: usize, c: char) -> (p: usize)
    requires
        start <= v@.len(),
    ensures
        p == start + char_pos(v@.skip(start as int), c),
        start <= p <= v@.len(),
{
    let n: usize = v.len();
    let mut i: usize = start;
    proof {
        lemma_char_pos_bounds(v@.skip(start as int), c);
    }
    while i < n && v[i] != c
        invariant
            n == v@.len(),
            start <= i <= n,
            char_pos(v@.skip(start as int), c) == (i - start) + char_pos(v@.skip(i as int), c),
        decreases n - i,
    {
        proof {
            assert(v@.skip(i as int).drop_first() =~= v@.skip(i + 1));
        }
        i += 1;
    }
    i
}

/// The characters of each vector.
pub open spec fn views(vs: Seq<Vec<char>>) -> Seq<Seq<char>> {
    vs.map_values(|x: Vec<char>| x@)
}

/// The pieces of `v` between occurrences of `c`.
pub fn split_chars(v: &Vec<char>, c: char) -> (pieces: Vec<Vec<char>>)
    ensures
        views(pieces@) == split(v@, c),
{
    let n: usize = v.len();
    let mut pieces: Vec<Vec<char>> = Vec::new();
    let mut start: usize = 0;
    proof {
        assert(v@.skip(0) =~= v@);
        assert(views(pieces@) =~= Seq::<Seq<char>>::empty());
    }
    loop
        invariant_except_break
            n == v@.len(),
            start <= n,
            split(v@, c) == views(pieces@) + split(v@.skip(start as int), c),
        ensures
            split(v@, c) == views(pieces@),
        decreases n - start,
    {
        let p: usize = find_char_from(v, start, c);
        let piece: Vec<char> = subvec(v, start, p);
        let ghost old_pieces = pieces@;
        pieces.push(piece);
        proof {
            let rest = v@.skip(start as int);
            lemma_char_pos_bounds(rest, c);
            assert(views(pieces@) =~= views(old_pieces) + seq![piece@]);
            if p >= n {
                assert(rest =~= piece@);
                assert(split(rest, c) =~= seq![rest]);
            } else {
                assert(rest.take(p - start) =~= piece@);
                assert(rest.skip(p - start + 1) =~= v@.skip(p + 1));
                assert(split(rest, c) =~= seq![piece@] + split(v@.skip(p + 1), c));
                assert(views(old_pieces) + (seq![piece@] + split(v@.skip(p + 1), c)) =~= views(
                    pieces@,
                ) + split(v@.skip(p + 1), c));
            }
        }
        if p >= n {
            break;
        }
        start = p + 1;
    }
    pieces
}

/// Whether the characters of `v` from `start` on begin with `lit`.
pub fn starts_with_at(v: &Vec<char>, start: usize, lit: &str) -> (b: bool)
    requires
        start <= v@.len(),
    ensures
        b == starts_with(v@.skip(start as int), lit@),
{
    let m: usize = lit.unicode_len();
    if m > v.len() - start {
        return false;
    }
    let mut i: usize = 0;
    while i < m
        invariant
            m == lit@.len(),
            start + m <= v@.len(),
            v@.len() <= usize::MAX,
            i <= m,
            forall|j: int| 0 <= j < i ==> v@[start + j] == lit@[j],
        decreases m - i,
    {
        if v[start + i] != lit.get_char(i) {
            proof {
                assert(v@.skip(start as int).take(m as int)[i as int] != lit@[i as int]);
            }
            return false;
        }
        i += 1;
    }
    proof {
        assert(v@.skip(start as int).take(m as int) =~= lit@);
    }
    true
}

/// Whether `v` holds exactly the characters of `lit`.
pub fn eq_lit(v: &Vec<char>, lit: &str) -> (b: bool)
    ensures
        b == (v@ == lit@),
{
    proof {
        assert(v@.skip(0) =~= v@);
    }
    if v.len() != lit.unicode_len() {
        return false;
    }
    let r: bool = starts_with_at(v, 0, lit);
    proof {
        if r {
            assert(v@.take(v@.len() as int) =~= v@);
        }
    }
    r
}

/// Position of the first occurrence of `lit` in `v`.
pub fn find_lit(v: &Vec<char>, lit: &str) -> (r: Option<usize>)
    ensures
        match r {
            Some(i) => find(v@, lit@) == Some(i as int),
            None => find(v@, lit@) is None,
        },
{
    let n: usize = v.len();
    let mut i: usize = 0;
    proof {
        assert(v@.skip(0) =~= v@);
    }
    loop
        invariant
            n == v@.len(),
            i <= n,
            find(v@, lit@) == shift(find(v@.skip(i as int), lit@), i as int),
        decreases n - i,
    {
        if starts_with_at(v, i, lit) {
            return Some(i);
        }
        if i == n {
            return None;
        }
        proof {
            assert(v@.skip(i as int).drop_first() =~= v@.skip(i + 1));
        }
        i += 1;
    }
}

spec fn capped(x: int) -> int {
    if x >= 0x8000_0001 {
        0x8000_0001
    } else {
        x
    }
}

/// Reads an `i32` as `str::parse::<i32>` does.
pub fn parse_i32_chars(v: &Vec<char>) -> (r: Option<i32>)
    ensures
        r == parse_i32(v@),
{
    let n: usize = v.len();
    if n == 0 {
        return None;
    }
    let neg: bool = v[0] == '-';
    let start: usize = if v[0] == '-' || v[0] == '+' {
        1
    } else {
        0
    };
    if start >= n {
        return None;
    }
    let ghost body = v@.skip(start as int);
    proof {
        assert(body =~= if start == 1 { v@.drop_first() } else { v@ });
        assert(v@.subrange(start as int, start as int) =~= Seq::<char>::empty());
    }
    let mut acc: i64 = 0;
    let mut i: usize = start;
    while i < n
        invariant
            n == v@.len(),
            start <= i <= n,
            body == v@.skip(start as int),
            n > 0,
            start == (if v@[0] == '-' || v@[0] == '+' { 1int } else { 0int }),
            body == (if start == 1 { v@.drop_first() } else { v@ }),
            all_digits(v@.subrange(start as int, i as int)),
            digits_val(v@.subrange(start as int, i as int)) >= 0,
            acc == capped(digits_val(v@.subrange(start as int, i as int))),
        decreases n - i,
    {
        let c: char = v[i];
        let u: u32 = c as u32;
        if !(0x30 <= u && u <= 0x39) {
            proof {
                assert(body[i - start] == c);
                assert(!is_digit(body[i - start]));
                assert(!all_digits(body));
            }
            return None;
        }
        let d: i64 = (u - 0x30) as i64;
        let ghost pre = v@.subrange(start as int, i as int);
        let ghost nxt = v@.subrange(start as int, i + 1);
        proof {
            assert(nxt.drop_last() =~= pre);
            assert(nxt.last() == c);
            assert forall|j: int| 0 <= j < nxt.len() implies is_digit(#[trigger] nxt[j]) by {
                if j < pre.len() {
                    assert(nxt[j] == pre[j]);
                }
            }
        }
        acc = acc * 10 + d;
        if acc > 0x8000_0001 {
            acc = 0x8000_0001;
        }
        i += 1;
    }
    proof {
        assert(v@.subrange(start as int, n as int) =~= body);
    }
    if neg {
        if acc <= 0x8000_0000 {
            Some((-acc) as i32)
        } else {
            None
        }
    } else {
        if acc <= 0x7fff_ffff {
            Some(acc as i32)
        } else {
            None
        }
    }
}

/// Reads an integer field: the text is trimmed, then read as an `i32`.
pub fn parse_int_chars(v: &Vec<char>) -> (r: Option<i32>)
    ensures
        r == parse_int_spec(v@),
{
    let t: Vec<char> = trim_chars(v);
    parse_i32_chars(&t)
}

/// Reads an integer field of a beatmap: surrounding whitespace is ignored,
/// then the text must be an optionally signed decimal `i32`.
pub fn parse_int(s: &str) -> (r: Option<i32>)
    ensures
        r == parse_int_spec(s@),
{
    let v: Vec<char> = str_to_chars(s);
    parse_int_chars(&v)
}

/// Where `find` gives a position, `p` stands there.
pub proof fn lemma_find(s: Seq<char>, p: Seq<char>)
    ensures
        find(s, p) matches Some(i) ==> 0 <= i <= s.len() && starts_with(s.skip(i), p),
    decreases s.len(),
{
    if starts_with(s, p) {
        assert(s.skip(0) =~= s);
    } else if s.len() > 0 {
        lemma_find(s.drop_first(), p);
        if let Some(i) = find(s.drop_first(), p) {
            assert(s.drop_first().skip(i) =~= s.skip(i + 1));
        }
    }
}

/// `v` cut at its first `c`.
pub fn split_once_chars(v: &Vec<char>, c: char) -> (r: Option<(Vec<char>, Vec<char>)>)
    ensures
        match r {
            Some((a, b)) => split_once(v@, c) == Some((a@, b@)),
            None => split_once(v@, c) is None,
        },
{
    let p: usize = find_char_from(v, 0, c);
    proof {
        assert(v@.skip(0) =~= v@);
    }
    if p < v.len() {
        let a: Vec<char> = subvec(v, 0, p);
        let b: Vec<char> = subvec(v, p + 1, v.len());
        proof {
            assert(a@ =~= v@.take(p as int));
            assert(b@ =~= v@.skip(p + 1));
        }
        Some((a, b))
    } else {
        None
    }
}

/// The decimal digits of `n`, as `Display` writes an unsigned integer.
pub open spec fn dec_nat(n: nat) -> Seq<char>
    decreases n,
{
    if n < 10 {
        seq![(n + 0x30) as char]
    } else {
        dec_nat(n / 10) + seq![((n % 10) + 0x30) as char]
    }
}

/// `x` in decimal, as `Display` writes a signed integer.
pub open spec fn dec_int(x: int) -> Seq<char> {
    if x < 0 {
        seq!['-'] + dec_nat((-x) as nat)
    } else {
        dec_nat(x as nat)
    }
}

/// Appends the characters of `s`.
pub fn push_str(out: &mut String, s: &str)
    ensures
        final(out)@ == old(out)@ + s@,
{
    let v: Vec<char> = str_to_chars(s);
    let n: usize = v.len();
    let ghost start = out@;
    let mut i: usize = 0;
    while i < n
        invariant
            n == v@.len(),
            v@ == s@,
            i <= n,
            out@ == start + v@.take(i as int),
        decreases n - i,
    {
        push_char(out, v[i]);
        proof {
            assert(v@.take(i + 1) =~= v@.take(i as int).push(v@[i as int]));
            assert(out@ =~= start + v@.take(i + 1));
        }
        i += 1;
    }
    proof {
        assert(v@.take(n as int) =~= v@);
    }
}

/// Appends `n` in decimal.
pub fn push_dec_u64(out: &mut String, n: u64)
    ensures
        final(out)@ == old(out)@ + dec_nat(n as nat),
    decreases n,
{
    if n >= 10 {
        push_dec_u64(out, n / 10);
    }
    let d: u32 = (n % 10) as u32;
    let c: char = if d == 0 {
        '0'
    } else if d == 1 {
        '1'
    } else if d == 2 {
        '2'
    } else if d == 3 {
        '3'
    } else if d == 4 {
        '4'
    } else if d == 5 {
        '5'
    } else if d == 6 {
        '6'
    } else if d == 7 {
        '7'
    } else if d == 8 {
        '8'
    } else {
        '9'
    };
    proof {
        assert(c == (d + 0x30) as char);
    }
    push_char(out, c);
    proof {
        if n >= 10 {
            assert(final(out)@ =~= old(out)@ + dec_nat(n as nat));
        } else {
            assert(final(out)@ =~= old(out)@ + dec_nat(n as nat));
        }
    }
}

/// Appends `x` in decimal.
pub fn push_dec_i32(out: &mut String, x: i32)
    ensures
        final(out)@ == old(out)@ + dec_int(x as int),
{
    if x < 0 {
        push_char(out, '-');
        let m: u64 = (-(x as i64)) as u64;
        push_dec_u64(out, m);
        proof {
            assert(final(out)@ =~= old(out)@ + dec_int(x as int));
        }
    } else {
        push_dec_u64(out, x as u64);
    }
}

pub(crate) proof fn lemma_dec_nat_digits(n: nat)
    ensures
        dec_nat(n).len() >= 1,
        all_digits(dec_nat(n)),
        digits_val(dec_nat(n)) == n,
    decreases n,
{
    let d = (n % 10) as nat;
    assert(((d + 0x30) as char) as u32 == d + 0x30);
    if n >= 10 {
        lemma_dec_nat_digits(n / 10);
        let s = dec_nat(n);
        let c = ((n % 10) + 0x30) as char;
        assert(s.drop_last() =~= dec_nat(n / 10));
        assert(s.last() == c);
        assert(c as u32 == d + 0x30);
        assert(n == 10 * (n / 10) + d) by (nonlinear_arith)
            requires
                d == n % 10,
        ;
        assert(digits_val(s) == 10 * digits_val(dec_nat(n / 10)) + d);
        assert forall|i: int| 0 <= i < s.len() implies is_digit(#[trigger] s[i]) by {
            if i < s.len() - 1 {
                assert(s[i] == dec_nat(n / 10)[i]);
            }
        }
    } else {
        let s = dec_nat(n);
        assert(s.drop_last() =~= Seq::<char>::empty());
        assert(s.last() == (d + 0x30) as char);
        assert(digits_val(s) == 10 * digits_val(s.drop_last()) + d);
    }
}

/// The first digit of a positive number is not zero.
pub(crate) proof fn lemma_dec_nat_lead(n: nat)
    requires
        n >= 1,
    ensures
        dec_nat(n)[0] != '0',
    decreases n,
{
    if n >= 10 {
        lemma_dec_nat_lead(n / 10);
        lemma_dec_nat_digits(n / 10);
        assert(dec_nat(n)[0] == dec_nat(n / 10)[0]);
    } else {
        assert(((n + 0x30) as char) as u32 == n + 0x30);
    }
}

/// Integers written in decimal read back as themselves: what `push_dec_i32`
/// writes, `parse_int` reads.
pub proof fn lemma_parse_dec_int(x: i32)
    ensures
        parse_i32(dec_int(x as int)) == Some(x),
{
    if x < 0 {
        let m = (-x) as nat;
        lemma_dec_nat_digits(m);
        let s = dec_int(x as int);
        assert(s.drop_first() =~= dec_nat(m));
        assert(s[0] == '-');
    } else {
        let m = x as nat;
        lemma_dec_nat_digits(m);
        let s = dec_nat(m);
        assert(is_digit(s[0]));
    }
}

} // verus!
