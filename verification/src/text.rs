use vstd::prelude::*;

verus! {

// ---------------------------------------------------------------------------
// Specifications over character sequences
// ---------------------------------------------------------------------------

/// `p` is a prefix of `s`.
pub open spec fn has_prefix(s: Seq<char>, p: Seq<char>) -> bool {
    p.len() <= s.len() && s.take(p.len() as int) == p
}

/// `p` is a suffix of `s`.
pub open spec fn has_suffix(s: Seq<char>, p: Seq<char>) -> bool {
    p.len() <= s.len() && s.skip(s.len() - p.len()) == p
}

/// `p` occurs in `s` at position `i`.
pub open spec fn occurs_at(s: Seq<char>, p: Seq<char>, i: int) -> bool {
    0 <= i && i + p.len() <= s.len() && s.subrange(i, i + p.len()) == p
}

/// `p` occurs somewhere in `s`.
pub open spec fn contains_seq(s: Seq<char>, p: Seq<char>) -> bool {
    exists|i: int| occurs_at(s, p, i)
}

/// Unicode `White_Space` characters, as `char::is_whitespace` documents them.
pub open spec fn is_ws(c: char) -> bool {
    ||| c == ' '
    ||| ('\t' <= c && c <= '\r')
    ||| c == '\u{85}'
    ||| c == '\u{A0}'
    ||| c == '\u{1680}'
    ||| ('\u{2000}' <= c && c <= '\u{200A}')
    ||| c == '\u{2028}'
    ||| c == '\u{2029}'
    ||| c == '\u{202F}'
    ||| c == '\u{205F}'
    ||| c == '\u{3000}'
}

/// `s` without its leading whitespace.
pub open spec fn trim_start(s: Seq<char>) -> Seq<char>
    decreases s.len(),
{
    if s.len() > 0 && is_ws(s[0]) {
        trim_start(s.drop_first())
    } else {
        s
    }
}

/// `s` without its trailing whitespace.
pub open spec fn trim_end(s: Seq<char>) -> Seq<char>
    decreases s.len(),
{
    if s.len() > 0 && is_ws(s.last()) {
        trim_end(s.drop_last())
    } else {
        s
    }
}

/// `s` without leading and trailing whitespace (what `str::trim` gives).
pub open spec fn trim(s: Seq<char>) -> Seq<char> {
    trim_end(trim_start(s))
}

/// The elements of `parts` separated by `sep`.
pub open spec fn join(parts: Seq<Seq<char>>, sep: Seq<char>) -> Seq<char>
    decreases parts.len(),
{
    if parts.len() == 0 {
        Seq::empty()
    } else if parts.len() == 1 {
        parts[0]
    } else {
        join(parts.drop_last(), sep) + sep + parts.last()
    }
}

/// The decimal digits of `n`, most significant first, without leading zeros
/// (a single `0` for zero).
pub open spec fn decimal(n: nat) -> Seq<char>
    decreases n,
{
    if n < 10 {
        seq![digit_char(n)]
    } else {
        decimal(n / 10) + seq![digit_char(n % 10)]
    }
}

pub open spec fn digit_char(d: nat) -> char {
    if d == 0 { '0' }
    else if d == 1 { '1' }
    else if d == 2 { '2' }
    else if d == 3 { '3' }
    else if d == 4 { '4' }
    else if d == 5 { '5' }
    else if d == 6 { '6' }
    else if d == 7 { '7' }
    else if d == 8 { '8' }
    else { '9' }
}

/// Decimal text of a signed number, with a leading `-` when negative.
pub open spec fn signed_decimal(n: int) -> Seq<char> {
    if n < 0 {
        seq!['-'] + decimal((-n) as nat)
    } else {
        decimal(n as nat)
    }
}

/// Text of a boolean, as `Display` writes it.
pub open spec fn bool_text(b: bool) -> Seq<char> {
    if b { "true"@ } else { "false"@ }
}

/// Every occurrence of `pat` in `s`, scanning left to right without overlap,
/// replaced by `rep` (what `str::replace` gives for a non-empty pattern).
pub open spec fn replace_all(s: Seq<char>, pat: Seq<char>, rep: Seq<char>) -> Seq<char>
    recommends
        pat.len() > 0,
    decreases s.len(),
{
    if s.len() == 0 || pat.len() == 0 {
        s
    } else if has_prefix(s, pat) {
        rep + replace_all(s.skip(pat.len() as int), pat, rep)
    } else {
        seq![s[0]] + replace_all(s.drop_first(), pat, rep)
    }
}

/// Lexicographic order on character sequences (what `Ord` on `str` gives:
/// UTF-8 byte order and code point order agree).
pub open spec fn lex_lt(a: Seq<char>, b: Seq<char>) -> bool
    decreases a.len(),
{
    if a.len() == 0 {
        b.len() > 0
    } else if b.len() == 0 {
        false
    } else if a[0] != b[0] {
        a[0] < b[0]
    } else {
        lex_lt(a.drop_first(), b.drop_first())
    }
}

/// Index of the first `x` in `s`, if any.
pub open spec fn first_index<A>(s: Seq<A>, x: A) -> Option<int>
    decreases s.len(),
{
    if s.len() == 0 {
        None
    } else if s[0] == x {
        Some(0)
    } else {
        match first_index(s.drop_first(), x) {
            Some(i) => Some(i + 1),
            None => None,
        }
    }
}

/// Index of the first `c` in `s`, if any.
pub open spec fn find_char(s: Seq<char>, c: char) -> Option<int> {
    first_index(s, c)
}

/// Number of elements of `s` that satisfy `p`.
pub open spec fn count<A>(s: Seq<A>, p: spec_fn(A) -> bool) -> nat
    decreases s.len(),
{
    if s.len() == 0 {
        0
    } else {
        count(s.drop_last(), p) + (if p(s.last()) { 1nat } else { 0nat })
    }
}

/// The concatenation of `f(x)` over the elements `x` of `s`, in order.
pub open spec fn flat_map<A, B>(s: Seq<A>, f: spec_fn(A) -> Seq<B>) -> Seq<B>
    decreases s.len(),
{
    if s.len() == 0 {
        Seq::empty()
    } else {
        flat_map(s.drop_last(), f) + f(s.last())
    }
}

/// The lines of `s`, as `str::lines` yields them: split at `\n`, a `\r`
/// right before a `\n` dropped, and no empty last line after a final `\n`.
pub open spec fn lines(s: Seq<char>) -> Seq<Seq<char>>
    decreases s.len(),
{
    if s.len() == 0 {
        Seq::empty()
    } else {
        proof {
            lemma_find_char(s, '\n');
        }
        match find_char(s, '\n') {
            Some(k) => seq![strip_cr(s.take(k))] + lines(s.skip(k + 1)),
            None => seq![s],
        }
    }
}

/// `s` without one trailing `\r`.
pub open spec fn strip_cr(s: Seq<char>) -> Seq<char> {
    if s.len() > 0 && s.last() == '\r' {
        s.drop_last()
    } else {
        s
    }
}

pub open spec fn views(v: Seq<String>) -> Seq<Seq<char>> {
    v.map_values(|s: String| s@)
}

// ---------------------------------------------------------------------------
// Lemmas
// ---------------------------------------------------------------------------

pub proof fn lemma_find_char(s: Seq<char>, c: char)
    ensures
        match find_char(s, c) {
            Some(k) => 0 <= k < s.len() && s[k] == c && forall|j: int| 0 <= j < k ==> s[j] != c,
            None => forall|j: int| 0 <= j < s.len() ==> s[j] != c,
        },
{
    lemma_first_index(s, c);
}

pub proof fn lemma_first_index<A>(s: Seq<A>, c: A)
    ensures
        match first_index(s, c) {
            Some(k) => 0 <= k < s.len() && s[k] == c && forall|j: int| 0 <= j < k ==> s[j] != c,
            None => forall|j: int| 0 <= j < s.len() ==> s[j] != c,
        },
    decreases s.len(),
{
    if s.len() > 0 {
        lemma_first_index(s.drop_first(), c);
        if s[0] != c {
            match first_index(s.drop_first(), c) {
                Some(k) => {
                    assert forall|j: int| 0 <= j < k + 1 implies s[j] != c by {
                        if j > 0 {
                            assert(s[j] == s.drop_first()[j - 1]);
                        }
                    }
                },
                None => {
                    assert forall|j: int| 0 <= j < s.len() implies s[j] != c by {
                        if j > 0 {
                            assert(s[j] == s.drop_first()[j - 1]);
                        }
                    }
                },
            }
        }
    }
}

/// `first_index` from its characterisation.
pub proof fn lemma_first_index_is<A>(s: Seq<A>, c: A, k: int)
    requires
        0 <= k <= s.len(),
        forall|j: int| 0 <= j < k ==> s[j] != c,
        k < s.len() ==> s[k] == c,
    ensures
        first_index(s, c) == (if k < s.len() { Some(k) } else { None::<int> }),
{
    lemma_first_index(s, c);
    match first_index(s, c) {
        Some(k2) => {
            if k2 < k {
            } else if k2 > k {
                assert(s[k] == c);
            }
        },
        None => {
            if k < s.len() {
                assert(s[k] == c);
            }
        },
    }
}

/// `first_index` after appending an element.
pub proof fn lemma_first_index_push<A>(s: Seq<A>, x: A, c: A)
    ensures
        first_index(s.push(x), c) == match first_index(s, c) {
            Some(i) => Some(i),
            None => if x == c { Some(s.len() as int) } else { None },
        },
{
    lemma_first_index(s, c);
    let t = s.push(x);
    match first_index(s, c) {
        Some(i) => {
            lemma_first_index_is(t, c, i);
        },
        None => {
            if x == c {
                lemma_first_index_is(t, c, s.len() as int);
            } else {
                lemma_first_index_is(t, c, t.len() as int);
            }
        },
    }
}

pub proof fn lemma_count_step<A>(s: Seq<A>, p: spec_fn(A) -> bool, i: int)
    requires
        0 <= i < s.len(),
    ensures
        count(s.take(i + 1), p) == count(s.take(i), p) + (if p(s[i]) { 1nat } else { 0nat }),
{
    assert(s.take(i + 1).drop_last() =~= s.take(i));
}

pub proof fn lemma_flat_map_step<A, B>(s: Seq<A>, f: spec_fn(A) -> Seq<B>, i: int)
    requires
        0 <= i < s.len(),
    ensures
        flat_map(s.take(i + 1), f) == flat_map(s.take(i), f) + f(s[i]),
{
    assert(s.take(i + 1).drop_last() =~= s.take(i));
}

pub proof fn lemma_take_full<A>(s: Seq<A>)
    ensures
        s.take(s.len() as int) == s,
{
    assert(s.take(s.len() as int) =~= s);
}

pub proof fn lemma_join_push(parts: Seq<Seq<char>>, sep: Seq<char>, x: Seq<char>)
    ensures
        join(parts.push(x), sep) == if parts.len() == 0 { x } else { join(parts, sep) + sep + x },
{
    assert(parts.push(x).drop_last() =~= parts);
}

pub proof fn lemma_decimal_nonempty(n: nat)
    ensures
        decimal(n).len() >= 1,
    decreases n,
{
    if n >= 10 {
        lemma_decimal_nonempty(n / 10);
    }
}

// ---------------------------------------------------------------------------
// Executable helpers
// ---------------------------------------------------------------------------

/// Appends one character to a string.
///
/// Calls `String::push`; the contract claims that the string afterwards is
/// the old string with the character added at the end.
#[verifier::external_body]
pub(crate) fn push_char(s: &mut String, c: char)
    ensures
        final(s)@ == old(s)@.push(c),
{
    s.push(c);
}

/// The characters of a string slice, in order.
pub fn chars_of(s: &str) -> (v: Vec<char>)
    ensures
        v@ == s@,
{
    let mut v: Vec<char> = Vec::new();
    for c in it: s.chars()
        invariant
            v@ == it.seq().take(it.index() as int),
    {
        v.push(c);
    }
    v
}

/// A string holding the characters `v[from..to]`.
pub fn string_from_range(v: &Vec<char>, from: usize, to: usize) -> (s: String)
    requires
        from <= to <= v.len(),
    ensures
        s@ == v@.subrange(from as int, to as int),
{
    let mut s = String::new();
    let mut i = from;
    while i < to
        invariant
            from <= i <= to <= v.len(),
            s@ == v@.subrange(from as int, i as int),
        decreases to - i,
    {
        push_char(&mut s, v[i]);
        assert(v@.subrange(from as int, i + 1) =~= v@.subrange(from as int, i as int).push(v@[i as int]));
        i += 1;
    }
    s
}

/// A string holding the characters of `v`.
pub fn string_from_chars(v: &Vec<char>) -> (s: String)
    ensures
        s@ == v@,
{
    let s = string_from_range(v, 0, v.len());
    assert(v@.subrange(0, v.len() as int) =~= v@);
    s
}

/// An owned copy of a string slice.
pub fn owned(s: &str) -> (r: String)
    ensures
        r@ == s@,
{
    s.to_owned()
}

/// Appends a string slice.
pub fn append_str(s: &mut String, t: &str)
    ensures
        final(s)@ == old(s)@ + t@,
{
    let cs = chars_of(t);
    let ghost s0 = s@;
    let mut i: usize = 0;
    while i < cs.len()
        invariant
            i <= cs.len(),
            cs@ == t@,
            s@ == s0 + cs@.take(i as int),
        decreases cs.len() - i,
    {
        push_char(s, cs[i]);
        assert(cs@.take(i + 1) =~= cs@.take(i as int).push(cs@[i as int]));
        i += 1;
    }
    assert(cs@.take(cs.len() as int) =~= cs@);
}

/// `a` followed by `b`.
pub fn concat2(a: &str, b: &str) -> (r: String)
    ensures
        r@ == a@ + b@,
{
    let mut r = owned(a);
    append_str(&mut r, b);
    r
}

/// `a` followed by `b` and `c`.
pub fn concat3(a: &str, b: &str, c: &str) -> (r: String)
    ensures
        r@ == a@ + b@ + c@,
{
    let mut r = owned(a);
    append_str(&mut r, b);
    append_str(&mut r, c);
    r
}

/// `a`, `b`, `c` and `d` in a row.
pub fn concat4(a: &str, b: &str, c: &str, d: &str) -> (r: String)
    ensures
        r@ == a@ + b@ + c@ + d@,
{
    let mut r = owned(a);
    append_str(&mut r, b);
    append_str(&mut r, c);
    append_str(&mut r, d);
    r
}

/// `a`, `b`, `c`, `d` and `e` in a row.
pub fn concat5(a: &str, b: &str, c: &str, d: &str, e: &str) -> (r: String)
    ensures
        r@ == a@ + b@ + c@ + d@ + e@,
{
    let mut r = concat4(a, b, c, d);
    append_str(&mut r, e);
    r
}

/// `a` to `f` in a row.
pub fn concat6(a: &str, b: &str, c: &str, d: &str, e: &str, f: &str) -> (r: String)
    ensures
        r@ == a@ + b@ + c@ + d@ + e@ + f@,
{
    let mut r = concat5(a, b, c, d, e);
    append_str(&mut r, f);
    r
}

/// Character-wise equality of two string slices.
pub fn str_eq(a: &str, b: &str) -> (r: bool)
    ensures
        r == (a@ == b@),
{
    let x = chars_of(a);
    let y = chars_of(b);
    seq_eq(&x, &y)
}

/// Element-wise equality of two character vectors.
pub fn seq_eq(x: &Vec<char>, y: &Vec<char>) -> (r: bool)
    ensures
        r == (x@ == y@),
{
    if x.len() != y.len() {
        return false;
    }
    let mut i: usize = 0;
    while i < x.len()
        invariant
            i <= x.len() == y.len(),
            forall|j: int| 0 <= j < i ==> x@[j] == y@[j],
        decreases x.len() - i,
    {
        if x[i] != y[i] {
            return false;
        }
        i += 1;
    }
    assert(x@ =~= y@);
    true
}

/// Whether `p` occurs in `s` at position `i`.
pub fn occurs_at_exec(s: &Vec<char>, p: &Vec<char>, i: usize) -> (r: bool)
    ensures
        r == occurs_at(s@, p@, i as int),
{
    if i > s.len() || p.len() > s.len() - i {
        return false;
    }
    let mut j: usize = 0;
    while j < p.len()
        invariant
            i + p.len() <= s.len(),
            j <= p.len(),
            forall|k: int| 0 <= k < j ==> s@[i + k] == p@[k],
        decreases p.len() - j,
    {
        if s[i + j] != p[j] {
            assert(s@.subrange(i as int, i + p.len())[j as int] != p@[j as int]);
            return false;
        }
        j += 1;
    }
    assert(s@.subrange(i as int, i + p.len()) =~= p@);
    true
}

/// `s` with every occurrence of a non-empty `pat` replaced by `rep`,
/// scanning left to right (what `str::replace` gives).
pub fn replace_str(s: &str, pat: &str, rep: &str) -> (r: String)
    requires
        pat@.len() > 0,
    ensures
        r@ == replace_all(s@, pat@, rep@),
{
    let cs = chars_of(s);
    let ps = chars_of(pat);
    let mut r = String::new();
    let mut i: usize = 0;
    assert(cs@.skip(0) =~= cs@);
    while i < cs.len()
        invariant
            i <= cs.len(),
            cs@ == s@,
            ps@ == pat@,
            ps@.len() > 0,
            r@ + replace_all(cs@.skip(i as int), ps@, rep@) == replace_all(s@, pat@, rep@),
        decreases cs.len() - i,
    {
        let ghost t = cs@.skip(i as int);
        let ghost r0 = r@;
        let hit = occurs_at_exec(&cs, &ps, i);
        proof {
            if hit {
                assert(t.take(ps@.len() as int) =~= cs@.subrange(i as int, i + ps@.len()));
            } else {
                if has_prefix(t, ps@) {
                    assert(t.take(ps@.len() as int) =~= cs@.subrange(i as int, i + ps@.len()));
                }
            }
        }
        if hit {
            append_str(&mut r, rep);
            proof {
                assert(t.skip(ps@.len() as int) =~= cs@.skip(i + ps@.len()));
                assert(r@ + replace_all(cs@.skip(i + ps@.len()), ps@, rep@) =~= r0 + (rep@ + replace_all(
                    t.skip(ps@.len() as int),
                    ps@,
                    rep@,
                )));
            }
            i = i + ps.len();
        } else {
            push_char(&mut r, cs[i]);
            proof {
                assert(t.drop_first() =~= cs@.skip(i + 1));
                assert(t[0] == cs@[i as int]);
                assert(r@ + replace_all(cs@.skip(i + 1), ps@, rep@) =~= r0 + (seq![t[0]] + replace_all(
                    t.drop_first(),
                    ps@,
                    rep@,
                )));
            }
            i = i + 1;
        }
    }
    assert(cs@.skip(cs@.len() as int) =~= Seq::<char>::empty());
    assert(r@ + Seq::<char>::empty() =~= r@);
    r
}

/// Whether `s` starts with `p`.
pub fn starts_with_chars(s: &Vec<char>, p: &Vec<char>) -> (r: bool)
    ensures
        r == has_prefix(s@, p@),
{
    let r = occurs_at_exec(s, p, 0);
    proof {
        if r {
            assert(s@.subrange(0, p@.len() as int) =~= s@.take(p@.len() as int));
        } else if p@.len() <= s@.len() {
            assert(s@.subrange(0, p@.len() as int) =~= s@.take(p@.len() as int));
        }
    }
    r
}

/// Whether `s` ends with `p`.
pub fn ends_with_chars(s: &Vec<char>, p: &Vec<char>) -> (r: bool)
    ensures
        r == has_suffix(s@, p@),
{
    if p.len() > s.len() {
        return false;
    }
    let r = occurs_at_exec(s, p, s.len() - p.len());
    assert(s@.subrange(s@.len() - p@.len(), s@.len() as int) =~= s@.skip(s@.len() - p@.len()));
    r
}

/// Whether string `s` starts with string `p`.
pub fn str_starts_with(s: &str, p: &str) -> (r: bool)
    ensures
        r == has_prefix(s@, p@),
{
    let a = chars_of(s);
    let b = chars_of(p);
    starts_with_chars(&a, &b)
}

/// Whether `p` occurs in `s`.
pub fn contains_chars(s: &Vec<char>, p: &Vec<char>) -> (r: bool)
    ensures
        r == contains_seq(s@, p@),
{
    if p.len() > s.len() {
        assert forall|i: int| !occurs_at(s@, p@, i) by {}
        return false;
    }
    let last = s.len() - p.len();
    let mut i: usize = 0;
    loop
        invariant
            p.len() <= s.len(),
            last == s.len() - p.len(),
            i <= last,
            forall|k: int| 0 <= k < i ==> !occurs_at(s@, p@, k),
        ensures
            p.len() <= s.len(),
            forall|k: int| 0 <= k <= last ==> !occurs_at(s@, p@, k),
        decreases last - i,
    {
        if occurs_at_exec(s, p, i) {
            return true;
        }
        if i == last {
            break;
        }
        i += 1;
    }
    assert forall|k: int| !occurs_at(s@, p@, k) by {
        if 0 <= k <= last {
        }
    }
    false
}

/// Whether string `p` occurs in string `s`.
pub fn str_contains(s: &str, p: &str) -> (r: bool)
    ensures
        r == contains_seq(s@, p@),
{
    let a = chars_of(s);
    let b = chars_of(p);
    contains_chars(&a, &b)
}

/// Whether character `c` occurs in `s`.
pub fn contains_char(s: &Vec<char>, c: char) -> (r: bool)
    ensures
        r == s@.contains(c),
{
    let mut i: usize = 0;
    while i < s.len()
        invariant
            i <= s.len(),
            forall|k: int| 0 <= k < i ==> s@[k] != c,
        decreases s.len() - i,
    {
        if s[i] == c {
            assert(s@[i as int] == c);
            return true;
        }
        i += 1;
    }
    false
}

/// Decimal text of an unsigned number.
pub fn u64_text(n: u64) -> (s: String)
    ensures
        s@ == decimal(n as nat),
{
    let mut digits: Vec<char> = Vec::new();
    let mut m = n;
    // digits holds the decimal text of the part of n below the current position,
    // so that decimal(n) == decimal(m) + digits when m > 0.
    let ghost mut acc: Seq<char> = Seq::empty();
    while m >= 10
        invariant
            m <= n,
            digits@ == acc,
            decimal(n as nat) == decimal(m as nat) + acc,
        decreases m,
    {
        let d = m % 10;
        let c = digit(d);
        proof {
            assert(decimal(m as nat) == decimal((m / 10) as nat) + seq![digit_char((m % 10) as nat)]);
            acc = seq![c] + acc;
            assert(decimal(n as nat) == decimal((m / 10) as nat) + acc);
        }
        digits.insert(0, c);
        m = m / 10;
    }
    let first = digit(m);
    digits.insert(0, first);
    proof {
        assert(decimal(m as nat) == seq![digit_char(m as nat)]);
    }
    let s = string_from_chars(&digits);
    assert(s@ =~= decimal(n as nat));
    s
}

fn digit(d: u64) -> (c: char)
    requires
        d < 10,
    ensures
        c == digit_char(d as nat),
{
    if d == 0 { '0' }
    else if d == 1 { '1' }
    else if d == 2 { '2' }
    else if d == 3 { '3' }
    else if d == 4 { '4' }
    else if d == 5 { '5' }
    else if d == 6 { '6' }
    else if d == 7 { '7' }
    else if d == 8 { '8' }
    else { '9' }
}

/// Decimal text of a `u128`.
pub fn u128_text(n: u128) -> (s: String)
    ensures
        s@ == decimal(n as nat),
{
    let mut digits: Vec<char> = Vec::new();
    let mut m = n;
    let ghost mut acc: Seq<char> = Seq::empty();
    while m >= 10
        invariant
            m <= n,
            digits@ == acc,
            decimal(n as nat) == decimal(m as nat) + acc,
        decreases m,
    {
        let d = (m % 10) as u64;
        let c = digit(d);
        proof {
            assert(decimal(m as nat) == decimal((m / 10) as nat) + seq![digit_char((m % 10) as nat)]);
            acc = seq![c] + acc;
            assert(decimal(n as nat) == decimal((m / 10) as nat) + acc);
        }
        digits.insert(0, c);
        m = m / 10;
    }
    let first = digit(m as u64);
    digits.insert(0, first);
    proof {
        assert(decimal(m as nat) == seq![digit_char(m as nat)]);
    }
    let s = string_from_chars(&digits);
    assert(s@ =~= decimal(n as nat));
    s
}

/// Decimal text of a `usize`.
pub fn usize_text(n: usize) -> (s: String)
    ensures
        s@ == decimal(n as nat),
{
    u64_text(n as u64)
}

/// Decimal text of a signed number.
pub fn i64_text(n: i64) -> (s: String)
    ensures
        s@ == signed_decimal(n as int),
{
    if n < 0 {
        let m: u64 = if n == i64::MIN { 9223372036854775808u64 } else { (-n) as u64 };
        let t = u64_text(m);
        let mut s = String::new();
        push_char(&mut s, '-');
        append_str(&mut s, t.as_str());
        s
    } else {
        u64_text(n as u64)
    }
}

/// Text of a boolean.
pub fn bool_string(b: bool) -> (s: String)
    ensures
        s@ == bool_text(b),
{
    if b { owned("true") } else { owned("false") }
}

/// The strings of `parts` joined by `sep`.
pub fn join_strings(parts: &Vec<String>, sep: &str) -> (r: String)
    ensures
        r@ == join(views(parts@), sep@),
{
    let mut r = String::new();
    let mut i: usize = 0;
    while i < parts.len()
        invariant
            i <= parts.len(),
            r@ == join(views(parts@.take(i as int)), sep@),
        decreases parts.len() - i,
    {
        proof {
            lemma_join_push(views(parts@.take(i as int)), sep@, parts@[i as int]@);
            assert(views(parts@.take(i + 1)) =~= views(parts@.take(i as int)).push(parts@[i as int]@));
        }
        if i > 0 {
            append_str(&mut r, sep);
        }
        append_str(&mut r, parts[i].as_str());
        proof {
            if i == 0 {
                assert(views(parts@.take(0)).len() == 0);
                assert(r@ =~= parts@[0]@);
            }
        }
        i += 1;
    }
    assert(parts@.take(parts.len() as int) =~= parts@);
    r
}


// ---------------------------------------------------------------------------
// Splitting and trimming
// ---------------------------------------------------------------------------

/// Index of the leftmost occurrence of `p` in `s`.
pub open spec fn find_seq(s: Seq<char>, p: Seq<char>) -> Option<int> {
    first_index(Seq::new((s.len() + 1) as nat, |i: int| occurs_at(s, p, i)), true)
}

/// The pieces of `s` between the non-overlapping occurrences of `p`, found
/// left to right (what `str::split` yields for a non-empty pattern).
pub open spec fn split(s: Seq<char>, p: Seq<char>) -> Seq<Seq<char>>
    decreases s.len(),
{
    if p.len() == 0 {
        seq![s]
    } else {
        match find_seq(s, p) {
            Some(k) => {
                if 0 <= k && k + p.len() <= s.len() {
                    seq![s.take(k)] + split(s.skip(k + p.len()), p)
                } else {
                    seq![s]
                }
            },
            None => seq![s],
        }
    }
}

pub proof fn lemma_find_seq_is(s: Seq<char>, p: Seq<char>, k: int)
    requires
        0 <= k <= s.len() + 1,
        forall|j: int| 0 <= j < k ==> !occurs_at(s, p, j),
        k <= s.len() ==> occurs_at(s, p, k),
    ensures
        find_seq(s, p) == (if k <= s.len() { Some(k) } else { None::<int> }),
{
    let b = Seq::new((s.len() + 1) as nat, |i: int| occurs_at(s, p, i));
    lemma_first_index_is(b, true, k);
}

/// The pieces of `s` between the occurrences of `p`.
pub fn split_chars(s: &Vec<char>, p: &Vec<char>) -> (r: Vec<Vec<char>>)
    requires
        p.len() > 0,
    ensures
        r@.map_values(|v: Vec<char>| v@) == split(s@, p@),
{
    let mut r: Vec<Vec<char>> = Vec::new();
    let mut start: usize = 0;
    let mut i: usize = 0;
    assert(s@.skip(0) =~= s@);
    assert(r@.map_values(|v: Vec<char>| v@) + split(s@, p@) =~= split(s@, p@));
    while i < s.len()
        invariant
            p.len() > 0,
            start <= i <= s.len(),
            r@.map_values(|v: Vec<char>| v@) + split(s@.skip(start as int), p@) == split(s@, p@),
            forall|j: int| 0 <= j < i - start ==> !occurs_at(s@.skip(start as int), p@, j),
        decreases s.len() - i,
    {
        if occurs_at_exec(s, p, i) {
            let ghost rest = s@.skip(start as int);
            let ghost k = i - start;
            proof {
                assert(rest.subrange(k, k + p@.len()) =~= s@.subrange(i as int, i + p@.len()));
                lemma_find_seq_is(rest, p@, k);
                assert(rest.take(k) =~= s@.subrange(start as int, i as int));
                assert(rest.skip(k + p@.len()) =~= s@.skip(i + p@.len()));
            }
            let piece = slice_vec(s, start, i);
            let ghost r0 = r@.map_values(|v: Vec<char>| v@);
            r.push(piece);
            proof {
                assert(r@.map_values(|v: Vec<char>| v@) =~= r0.push(piece@));
                assert(seq![rest.take(k)] + split(rest.skip(k + p@.len()), p@) == split(rest, p@));
                assert(r0.push(piece@) + split(s@.skip(i + p@.len()), p@) =~= r0 + split(rest, p@));
            }
            start = i + p.len();
            i = start;
        } else {
            proof {
                let rest = s@.skip(start as int);
                let k = i - start;
                if occurs_at(rest, p@, k) {
                    assert(rest.subrange(k, k + p@.len()) =~= s@.subrange(i as int, i + p@.len()));
                }
            }
            i += 1;
        }
    }
    let ghost rest = s@.skip(start as int);
    proof {
        assert forall|j: int| 0 <= j < rest.len() + 1 implies !occurs_at(rest, p@, j) by {
            if j < i - start {
            } else {
            }
        }
        lemma_find_seq_is(rest, p@, rest.len() + 1int);
    }
    let piece = slice_vec(s, start, s.len());
    let ghost r0 = r@.map_values(|v: Vec<char>| v@);
    r.push(piece);
    proof {
        assert(rest =~= s@.subrange(start as int, s@.len() as int));
        assert(r@.map_values(|v: Vec<char>| v@) =~= r0 + split(rest, p@));
    }
    r
}

/// A copy of `v[from..to]`.
pub fn slice_vec(v: &Vec<char>, from: usize, to: usize) -> (r: Vec<char>)
    requires
        from <= to <= v.len(),
    ensures
        r@ == v@.subrange(from as int, to as int),
{
    let mut r: Vec<char> = Vec::new();
    let mut i = from;
    while i < to
        invariant
            from <= i <= to <= v.len(),
            r@ == v@.subrange(from as int, i as int),
        decreases to - i,
    {
        r.push(v[i]);
        assert(v@.subrange(from as int, i + 1) =~= v@.subrange(from as int, i as int).push(v@[i as int]));
        i += 1;
    }
    r
}

/// A copy of `v`.
pub fn copy_chars(v: &Vec<char>) -> (r: Vec<char>)
    ensures
        r@ == v@,
{
    let r = slice_vec(v, 0, v.len());
    assert(v@.subrange(0, v@.len() as int) =~= v@);
    r
}

/// Whether `c` is whitespace.
pub fn is_whitespace(c: char) -> (r: bool)
    ensures
        r == is_ws(c),
{
    c == ' ' || ('\t' <= c && c <= '\r') || c == '\u{85}' || c == '\u{A0}' || c == '\u{1680}'
        || ('\u{2000}' <= c && c <= '\u{200A}') || c == '\u{2028}' || c == '\u{2029}'
        || c == '\u{202F}' || c == '\u{205F}' || c == '\u{3000}'
}

pub proof fn lemma_trim_start(s: Seq<char>, a: int)
    requires
        0 <= a <= s.len(),
        forall|j: int| 0 <= j < a ==> is_ws(s[j]),
        a < s.len() ==> !is_ws(s[a]),
    ensures
        trim_start(s) == s.skip(a),
    decreases a,
{
    if a == 0 {
        assert(s.skip(0) =~= s);
    } else {
        lemma_trim_start(s.drop_first(), a - 1);
        assert(s.drop_first().skip(a - 1) =~= s.skip(a));
    }
}

pub proof fn lemma_trim_end(s: Seq<char>, b: int)
    requires
        0 <= b <= s.len(),
        forall|j: int| b <= j < s.len() ==> is_ws(s[j]),
        b > 0 ==> !is_ws(s[b - 1]),
    ensures
        trim_end(s) == s.take(b),
    decreases s.len() - b,
{
    if b == s.len() {
        assert(s.take(b) =~= s);
    } else {
        lemma_trim_end(s.drop_last(), b);
        assert(s.drop_last().take(b) =~= s.take(b));
    }
}

/// `v` without leading and trailing whitespace.
pub fn trim_chars(v: &Vec<char>) -> (r: Vec<char>)
    ensures
        r@ == trim(v@),
{
    let mut a: usize = 0;
    while a < v.len() && is_whitespace(v[a])
        invariant
            a <= v.len(),
            forall|j: int| 0 <= j < a ==> is_ws(v@[j]),
        decreases v.len() - a,
    {
        a += 1;
    }
    proof {
        lemma_trim_start(v@, a as int);
    }
    let mut b: usize = v.len();
    while b > a && is_whitespace(v[b - 1])
        invariant
            a <= b <= v.len(),
            forall|j: int| b <= j < v.len() ==> is_ws(v@[j]),
        decreases b,
    {
        b -= 1;
    }
    let ghost t = v@.skip(a as int);
    proof {
        assert forall|j: int| b - a <= j < t.len() implies is_ws(t[j]) by {
            assert(t[j] == v@[a + j]);
        }
        if b > a {
            assert(t[b - a - 1] == v@[b - 1]);
        }
        lemma_trim_end(t, b - a);
        assert(t.take(b - a) =~= v@.subrange(a as int, b as int));
    }
    slice_vec(v, a, b)
}

/// Number of times `c` occurs in `v`.
pub fn count_char(v: &Vec<char>, c: char) -> (n: usize)
    ensures
        n == count(v@, |x: char| x == c),
{
    let mut n: usize = 0;
    for i in 0..v.len()
        invariant
            n <= i,
            n == count(v@.take(i as int), |x: char| x == c),
    {
        proof {
            lemma_count_step(v@, |x: char| x == c, i as int);
        }
        if v[i] == c {
            n += 1;
        }
    }
    proof {
        lemma_take_full(v@);
    }
    n
}


/// Index of the first `c` in `v` at or after `from`.
pub fn find_char_from(v: &Vec<char>, c: char, from: usize) -> (r: Option<usize>)
    requires
        from <= v.len(),
    ensures
        match find_char(v@.skip(from as int), c) {
            Some(k) => r == Some((from + k) as usize),
            None => r is None,
        },
{
    let ghost t = v@.skip(from as int);
    let mut i = from;
    while i < v.len()
        invariant
            from <= i <= v.len(),
            t == v@.skip(from as int),
            forall|j: int| 0 <= j < i - from ==> t[j] != c,
        decreases v.len() - i,
    {
        if v[i] == c {
            proof {
                lemma_first_index_is(t, c, i - from);
            }
            return Some(i);
        }
        i += 1;
    }
    proof {
        lemma_first_index_is(t, c, t.len() as int);
    }
    None
}

/// The lines of `v`, as `str::lines` yields them.
pub fn lines_of(v: &Vec<char>) -> (r: Vec<Vec<char>>)
    ensures
        r@.map_values(|x: Vec<char>| x@) == lines(v@),
{
    let mut r: Vec<Vec<char>> = Vec::new();
    let mut pos: usize = 0;
    assert(v@.skip(0) =~= v@);
    assert(r@.map_values(|x: Vec<char>| x@) + lines(v@) =~= lines(v@));
    while pos < v.len()
        invariant
            pos <= v.len(),
            r@.map_values(|x: Vec<char>| x@) + lines(v@.skip(pos as int)) == lines(v@),
        decreases v.len() - pos,
    {
        let ghost rest = v@.skip(pos as int);
        let ghost r0 = r@.map_values(|x: Vec<char>| x@);
        proof {
            lemma_find_char(rest, '\n');
        }
        match find_char_from(v, '\n', pos) {
            Some(k) => {
                let mut end = k;
                if end > pos && v[end - 1] == '\r' {
                    end = end - 1;
                }
                let piece = slice_vec(v, pos, end);
                proof {
                    let kk = k - pos;
                    assert(rest.take(kk) =~= v@.subrange(pos as int, k as int));
                    assert(strip_cr(rest.take(kk)) =~= piece@);
                    assert(rest.skip(kk + 1) =~= v@.skip(k + 1));
                }
                r.push(piece);
                assert(r@.map_values(|x: Vec<char>| x@) =~= r0.push(piece@));
                pos = k + 1;
            },
            None => {
                let piece = slice_vec(v, pos, v.len());
                proof {
                    assert(rest =~= piece@);
                    assert(lines(rest) == seq![rest]);
                    assert(v@.skip(v.len() as int) =~= Seq::<char>::empty());
                }
                r.push(piece);
                assert(r@.map_values(|x: Vec<char>| x@) =~= r0.push(piece@));
                pos = v.len();
            },
        }
    }
    proof {
        assert(v@.skip(pos as int) =~= Seq::<char>::empty());
        assert(r@.map_values(|x: Vec<char>| x@) + Seq::<Seq<char>>::empty() =~= r@.map_values(|x: Vec<char>| x@));
    }
    r
}

/// A string holding the lines joined by newlines.
pub fn join_lines(v: &Vec<Vec<char>>) -> (s: String)
    ensures
        s@ == join(v@.map_values(|x: Vec<char>| x@), "\n"@),
{
    let ghost vv = v@.map_values(|x: Vec<char>| x@);
    let mut s = String::new();
    let mut i: usize = 0;
    while i < v.len()
        invariant
            i <= v.len(),
            vv == v@.map_values(|x: Vec<char>| x@),
            s@ == join(vv.take(i as int), "\n"@),
        decreases v.len() - i,
    {
        proof {
            lemma_join_push(vv.take(i as int), "\n"@, vv[i as int]);
            assert(vv.take(i + 1) =~= vv.take(i as int).push(vv[i as int]));
        }
        if i > 0 {
            append_str(&mut s, "\n");
        }
        let piece = string_from_chars(&v[i]);
        append_str(&mut s, piece.as_str());
        proof {
            if i == 0 {
                assert(s@ =~= vv[0]);
            }
        }
        i += 1;
    }
    proof {
        lemma_take_full(vv);
    }
    s
}

/// The number of bytes of a character in UTF-8.
pub open spec fn utf8_len(c: char) -> nat {
    if (c as u32) < 0x80 {
        1
    } else if (c as u32) < 0x800 {
        2
    } else if (c as u32) < 0x10000 {
        3
    } else {
        4
    }
}

/// The number of bytes of a text in UTF-8.
pub open spec fn byte_len(s: Seq<char>) -> nat
    decreases s.len(),
{
    if s.len() == 0 {
        0
    } else {
        byte_len(s.drop_last()) + utf8_len(s.last())
    }
}

/// From position `i`, with `used` bytes taken, the end of the longest run of
/// characters that fits in `n` bytes.
pub open spec fn fit_count(s: Seq<char>, n: nat, i: int, used: nat) -> int
    decreases s.len() - i,
{
    if 0 <= i < s.len() && used + utf8_len(s[i]) <= n {
        fit_count(s, n, i + 1, used + utf8_len(s[i]))
    } else {
        i
    }
}

/// The longest prefix of `s` whose UTF-8 encoding fits in `n` bytes: all of
/// `s` when it fits.
pub open spec fn byte_cut(s: Seq<char>, n: nat) -> Seq<char> {
    s.take(fit_count(s, n, 0, 0))
}

/// Cutting `s` to `n` bytes falls between two characters (or `s` is no
/// longer than `n` bytes).
pub open spec fn cut_on_boundary(s: Seq<char>, n: nat) -> bool {
    byte_len(s) > n ==> exists|k: int| 0 <= k <= s.len() && byte_len(#[trigger] s.take(k)) == n
}

fn char_utf8_len(c: char) -> (r: usize)
    ensures
        r == utf8_len(c),
{
    let v = c as u32;
    if v < 0x80 {
        1
    } else if v < 0x800 {
        2
    } else if v < 0x10000 {
        3
    } else {
        4
    }
}

/// `s` cut to its first `n` bytes, at a character boundary.
pub fn byte_cut_text(s: &str, n: usize) -> (r: String)
    requires
        n <= 1024,
    ensures
        r@ == byte_cut(s@, n as nat),
{
    let cs = chars_of(s);
    let mut i: usize = 0;
    let mut used: usize = 0;
    while i < cs.len()
        invariant
            i <= cs.len(),
            used <= n,
            n <= 1024,
            cs@ == s@,
            fit_count(cs@, n as nat, i as int, used as nat) == fit_count(cs@, n as nat, 0, 0),
        ensures
            i <= cs.len(),
            fit_count(cs@, n as nat, 0, 0) == i,
        decreases cs.len() - i,
    {
        let u = char_utf8_len(cs[i]);
        if used + u > n {
            break;
        }
        used = used + u;
        i += 1;
    }
    let r = string_from_range(&cs, 0, i);
    assert(cs@.subrange(0, i as int) =~= s@.take(i as int));
    r
}

} // verus!
