//! Text helpers. A string is modelled by the sequence of its characters, and
//! every helper states its result over those sequences.
use vstd::prelude::*;

verus! {

/// `String::push` appends one character at the end.
pub assume_specification[ String::push ](s: &mut String, c: char)
    ensures
        final(s)@ == old(s)@.push(c),
;

/// `String::push_str` appends a string slice at the end.
pub assume_specification[ String::push_str ](s: &mut String, t: &str)
    ensures
        final(s)@ == old(s)@ + t@,
;

/// The texts of a list of strings.
pub open spec fn texts(v: Seq<String>) -> Seq<Seq<char>> {
    v.map_values(|s: String| s@)
}

/// Appending a string appends its text.
pub proof fn lemma_texts_push(v: Seq<String>, s: String)
    ensures
        texts(v.push(s)) == texts(v).push(s@),
{
    assert(texts(v.push(s)) =~= texts(v).push(s@));
}

/// The characters of a string, in order.
pub fn to_chars(s: &str) -> (r: Vec<char>)
    ensures
        r@ == s@,
{
    let mut v: Vec<char> = Vec::new();
    for c in it: s.chars()
        invariant
            v@ == s@.take(it.index() as int),
            it.seq() == s@,
    {
        assert(s@.take(it.index() as int + 1) =~= s@.take(it.index() as int).push(c));
        v.push(c);
    }
    assert(s@.take(s@.len() as int) =~= s@);
    v
}

/// The string made of the characters `v[lo..hi]`.
pub fn slice_chars(v: &Vec<char>, lo: usize, hi: usize) -> (r: String)
    requires
        lo <= hi <= v@.len(),
    ensures
        r@ == v@.subrange(lo as int, hi as int),
{
    let mut s = String::new();
    for i in lo..hi
        invariant
            lo <= hi <= v@.len(),
            s@ == v@.subrange(lo as int, i as int),
    {
        assert(v@.subrange(lo as int, i as int + 1) =~= v@.subrange(lo as int, i as int).push(
            v@[i as int],
        ));
        s.push(v[i]);
    }
    s
}

/// Whether two strings hold the same characters.
pub fn same(a: &str, b: &str) -> (r: bool)
    ensures
        r == (a@ == b@),
{
    let x = to_chars(a);
    let y = to_chars(b);
    if x.len() != y.len() {
        return false;
    }
    for i in 0..x.len()
        invariant
            x@ == a@,
            y@ == b@,
            x@.len() == y@.len(),
            forall|j: int| 0 <= j < i ==> x@[j] == y@[j],
    {
        if x[i] != y[i] {
            return false;
        }
    }
    assert(a@ =~= b@);
    true
}

/// The Unicode `White_Space` property.
pub open spec fn is_space(c: char) -> bool {
    let n = c as u32;
    ||| 0x09 <= n <= 0x0d
    ||| n == 0x20
    ||| n == 0x85
    ||| n == 0xa0
    ||| n == 0x1680
    ||| 0x2000 <= n <= 0x200a
    ||| n == 0x2028
    ||| n == 0x2029
    ||| n == 0x202f
    ||| n == 0x205f
    ||| n == 0x3000
}

/// Whether `c` is white space.
pub fn space(c: char) -> (r: bool)
    ensures
        r == is_space(c),
{
    let n: u32 = c as u32;
    (0x09 <= n && n <= 0x0d) || n == 0x20 || n == 0x85 || n == 0xa0 || n == 0x1680 || (0x2000 <= n
        && n <= 0x200a) || n == 0x2028 || n == 0x2029 || n == 0x202f || n == 0x205f || n == 0x3000
}

/// `s` without its leading white space.
pub open spec fn trim_start(s: Seq<char>) -> Seq<char>
    decreases s.len(),
{
    if s.len() > 0 && is_space(s.first()) {
        trim_start(s.drop_first())
    } else {
        s
    }
}

/// `s` without its trailing white space.
pub open spec fn trim_end(s: Seq<char>) -> Seq<char>
    decreases s.len(),
{
    if s.len() > 0 && is_space(s.last()) {
        trim_end(s.drop_last())
    } else {
        s
    }
}

/// `s` without its leading and trailing white space.
pub open spec fn trimmed(s: Seq<char>) -> Seq<char> {
    trim_end(trim_start(s))
}

/// Remove leading and trailing white space.
pub fn trim(s: &str) -> (r: String)
    ensures
        r@ == trimmed(s@),
{
    let v = to_chars(s);
    let n = v.len();
    let mut lo: usize = 0;
    assert(v@.subrange(0, n as int) =~= v@);
    while lo < n && space(v[lo])
        invariant
            n == v@.len(),
            lo <= n,
            trim_start(v@) == trim_start(v@.subrange(lo as int, n as int)),
        decreases n - lo,
    {
        assert(v@.subrange(lo as int, n as int).drop_first() =~= v@.subrange(
            lo as int + 1,
            n as int,
        ));
        lo = lo + 1;
    }
    assert(trim_start(v@) == v@.subrange(lo as int, n as int));
    let mut hi: usize = n;
    while lo < hi && space(v[hi - 1])
        invariant
            n == v@.len(),
            lo <= hi <= n,
            trim_end(v@.subrange(lo as int, n as int)) == trim_end(
                v@.subrange(lo as int, hi as int),
            ),
        decreases hi - lo,
    {
        assert(v@.subrange(lo as int, hi as int).drop_last() =~= v@.subrange(
            lo as int,
            hi as int - 1,
        ));
        hi = hi - 1;
    }
    slice_chars(&v, lo, hi)
}

/// `c` with an ASCII capital made small.
pub open spec fn lower_char(c: char) -> char {
    if 'A' <= c <= 'Z' {
        ((c as u8) + 32) as u8 as char
    } else {
        c
    }
}

/// `s` with every ASCII capital made small.
pub open spec fn lowered(s: Seq<char>) -> Seq<char> {
    s.map_values(|c: char| lower_char(c))
}

/// Make every ASCII capital small.
pub fn lower(s: &str) -> (r: String)
    ensures
        r@ == lowered(s@),
{
    let v = to_chars(s);
    let mut out = String::new();
    for i in 0..v.len()
        invariant
            v@ == s@,
            out@ == lowered(v@.take(i as int)),
    {
        let c = v[i];
        let d: char = if 'A' <= c && c <= 'Z' {
            ((c as u8) + 32) as char
        } else {
            c
        };
        assert(lowered(v@.take(i as int + 1)) =~= lowered(v@.take(i as int)).push(lower_char(c)));
        out.push(d);
    }
    assert(v@.take(v@.len() as int) =~= s@);
    out
}

/// Whether `s` begins with `p`.
pub open spec fn has_prefix(s: Seq<char>, p: Seq<char>) -> bool {
    p.len() <= s.len() && s.take(p.len() as int) == p
}

/// The rest of `s` behind the prefix `p`, if `s` begins with it.
pub fn strip_prefix(s: &str, p: &str) -> (r: Option<String>)
    ensures
        r is Some <==> has_prefix(s@, p@),
        r is Some ==> r->0@ == s@.skip(p@.len() as int),
{
    let v = to_chars(s);
    let q = to_chars(p);
    if q.len() > v.len() {
        return None;
    }
    for i in 0..q.len()
        invariant
            v@ == s@,
            q@ == p@,
            q@.len() <= v@.len(),
            forall|j: int| 0 <= j < i ==> v@[j] == q@[j],
    {
        if v[i] != q[i] {
            assert(s@.take(p@.len() as int)[i as int] != p@[i as int]);
            return None;
        }
    }
    assert(s@.take(p@.len() as int) =~= p@);
    Some(slice_chars(&v, q.len(), v.len()))
}

/// Whether `p` occurs in `s`.
pub open spec fn occurs(s: Seq<char>, p: Seq<char>) -> bool {
    exists|i: int| 0 <= i <= s.len() && has_prefix(#[trigger] s.skip(i), p)
}

/// Whether the two-character text `a b` occurs in `s`.
pub fn contains_pair(s: &str, a: char, b: char) -> (r: bool)
    ensures
        r == occurs(s@, seq![a, b]),
{
    let v = to_chars(s);
    let n = v.len();
    let ghost p = seq![a, b];
    let mut i: usize = 0;
    while i < n && i + 1 < n
        invariant
            v@ == s@,
            n == v@.len(),
            i <= n,
            p == seq![a, b],
            forall|j: int| 0 <= j < i && j + 1 < n ==> !(#[trigger] v@[j] == a && v@[j + 1] == b),
        decreases n - i,
    {
        if v[i] == a && v[i + 1] == b {
            assert(s@.skip(i as int).take(2) =~= p);
            assert(has_prefix(s@.skip(i as int), p));
            return true;
        }
        i = i + 1;
    }
    assert forall|j: int| 0 <= j <= s@.len() implies !has_prefix(#[trigger] s@.skip(j), p) by {
        if has_prefix(s@.skip(j), p) {
            let t = s@.skip(j);
            assert(t.take(2)[0] == p[0] && t.take(2)[1] == p[1]);
            assert(v@[j] == a && v@[j + 1] == b);
        }
    }
    false
}

/// The pieces of `s` between the characters that `f` accepts.
pub open spec fn split_if(s: Seq<char>, f: spec_fn(char) -> bool) -> Seq<Seq<char>>
    decreases s.len(),
{
    if s.len() == 0 {
        seq![Seq::<char>::empty()]
    } else {
        let r = split_if(s.drop_last(), f);
        if f(s.last()) {
            r.push(Seq::<char>::empty())
        } else {
            r.update(r.len() - 1, r.last().push(s.last()))
        }
    }
}

/// There is always at least one piece.
pub proof fn lemma_split_some(s: Seq<char>, f: spec_fn(char) -> bool)
    ensures
        split_if(s, f).len() >= 1,
    decreases s.len(),
{
    if s.len() > 0 {
        lemma_split_some(s.drop_last(), f);
    }
}

/// The test for the character `c`.
pub open spec fn is_char(c: char) -> spec_fn(char) -> bool {
    |d: char| d == c
}

/// The pieces of `s` between the characters `c`.
pub open spec fn split_at(s: Seq<char>, c: char) -> Seq<Seq<char>> {
    split_if(s, is_char(c))
}

/// Split at every `c`.
pub fn split_on(s: &str, c: char) -> (r: Vec<String>)
    ensures
        texts(r@) == split_at(s@, c),
{
    let v = to_chars(s);
    let mut out: Vec<String> = Vec::new();
    let mut cur = String::new();
    let ghost f = is_char(c);
    assert(texts(out@).push(cur@) =~= split_if(v@.take(0), f));
    for i in 0..v.len()
        invariant
            v@ == s@,
            f == is_char(c),
            texts(out@).push(cur@) == split_if(v@.take(i as int), f),
    {
        let ghost before = texts(out@);
        let ghost held = cur@;
        let ghost r = split_if(v@.take(i as int), f);
        assert(v@.take(i as int + 1).drop_last() =~= v@.take(i as int));
        assert(v@.take(i as int + 1).last() == v@[i as int]);
        if v[i] == c {
            proof {
                lemma_texts_push(out@, cur);
            }
            out.push(cur);
            cur = String::new();
            assert(texts(out@).push(cur@) =~= r.push(Seq::<char>::empty()));
        } else {
            cur.push(v[i]);
            assert(before.push(cur@) =~= r.update(r.len() - 1, r.last().push(v@[i as int])));
        }
    }
    assert(v@.take(v@.len() as int) =~= s@);
    proof {
        lemma_texts_push(out@, cur);
    }
    out.push(cur);
    out
}

/// A line without the carriage return that stands before its line feed.
pub open spec fn strip_cr(s: Seq<char>) -> Seq<char> {
    if s.len() > 0 && s.last() == '\r' {
        s.drop_last()
    } else {
        s
    }
}

/// The lines of `s`: what stands before each line feed, less a carriage
/// return just before it, and the text behind the last line feed unless it
/// is empty.
pub open spec fn line_texts(s: Seq<char>) -> Seq<Seq<char>> {
    let p = split_at(s, '\n');
    let full = p.drop_last().map_values(|l: Seq<char>| strip_cr(l));
    if p.last().len() == 0 {
        full
    } else {
        full.push(p.last())
    }
}

/// Split into lines.
pub fn lines(s: &str) -> (r: Vec<String>)
    ensures
        texts(r@) == line_texts(s@),
{
    let p = split_on(s, '\n');
    let n = p.len();
    proof {
        lemma_split_some(s@, is_char('\n'));
        assert(texts(p@).len() == p@.len());
    }
    let ghost pieces = texts(p@);
    let mut out: Vec<String> = Vec::new();
    for i in 0..n - 1
        invariant
            n == p@.len(),
            n >= 1,
            pieces == texts(p@),
            texts(out@) == pieces.take(i as int).map_values(|l: Seq<char>| strip_cr(l)),
    {
        let v = to_chars(p[i].as_str());
        assert(pieces[i as int] == p@[i as int]@);
        let l = if v.len() > 0 && v[v.len() - 1] == '\r' {
            slice_chars(&v, 0, v.len() - 1)
        } else {
            slice_chars(&v, 0, v.len())
        };
        assert(l@ =~= strip_cr(pieces[i as int]));
        proof {
            lemma_texts_push(out@, l);
        }
        out.push(l);
        assert(pieces.take(i as int + 1).map_values(|l: Seq<char>| strip_cr(l))
            =~= pieces.take(i as int).map_values(|l: Seq<char>| strip_cr(l)).push(
            strip_cr(pieces[i as int]),
        ));
    }
    assert(pieces.take(n - 1) =~= pieces.drop_last());
    let last = p[n - 1].clone();
    assert(last@ == pieces.last());
    if last.as_str().is_empty() {
        return out;
    }
    proof {
        lemma_texts_push(out@, last);
    }
    out.push(last);
    out
}

/// The words of `s`: the non-empty pieces between white space.
pub open spec fn word_texts(s: Seq<char>) -> Seq<Seq<char>> {
    split_if(s, |c: char| is_space(c)).filter(|w: Seq<char>| w.len() > 0)
}

/// Split into words at white space.
pub fn words(s: &str) -> (r: Vec<String>)
    ensures
        texts(r@) == word_texts(s@),
{
    let v = to_chars(s);
    let mut out: Vec<String> = Vec::new();
    let mut cur = String::new();
    let ghost f = |c: char| is_space(c);
    let ghost keep = |w: Seq<char>| w.len() > 0;
    let ghost mut done: Seq<Seq<char>> = Seq::empty();
    assert(done.push(cur@) =~= split_if(v@.take(0), f));
    reveal(Seq::filter);
    assert(texts(out@) =~= done.filter(keep));
    for i in 0..v.len()
        invariant
            v@ == s@,
            f == (|c: char| is_space(c)),
            keep == (|w: Seq<char>| w.len() > 0),
            done.push(cur@) == split_if(v@.take(i as int), f),
            texts(out@) == done.filter(keep),
    {
        let ghost r = split_if(v@.take(i as int), f);
        assert(v@.take(i as int + 1).drop_last() =~= v@.take(i as int));
        assert(v@.take(i as int + 1).last() == v@[i as int]);
        if space(v[i]) {
            let ghost held = cur@;
            assert(done.push(held).drop_last() =~= done);
            reveal(Seq::filter);
            if !cur.as_str().is_empty() {
                proof {
                    lemma_texts_push(out@, cur);
                }
                out.push(cur);
            }
            cur = String::new();
            proof {
                done = done.push(held);
            }
            assert(done.push(cur@) =~= r.push(Seq::<char>::empty()));
        } else {
            cur.push(v[i]);
            assert(done.push(cur@) =~= r.update(r.len() - 1, r.last().push(v@[i as int])));
        }
    }
    assert(v@.take(v@.len() as int) =~= s@);
    reveal(Seq::filter);
    assert(done.push(cur@).drop_last() =~= done);
    if !cur.as_str().is_empty() {
        proof {
            lemma_texts_push(out@, cur);
        }
        out.push(cur);
    }
    out
}

/// Where the first white space of `s` stands, or the length of `s`.
pub open spec fn first_space(s: Seq<char>) -> int
    decreases s.len(),
{
    if s.len() == 0 || is_space(s.first()) {
        0
    } else {
        1 + first_space(s.drop_first())
    }
}

/// What stands before and behind the first white space, if there is any.
pub fn split_once_space(s: &str) -> (r: Option<(String, String)>)
    ensures
        r is Some <==> first_space(s@) < s@.len(),
        r matches Some(p) ==> p.0@ == s@.take(first_space(s@)) && p.1@ == s@.skip(
            first_space(s@) + 1,
        ),
{
    let v = to_chars(s);
    let n = v.len();
    let mut i: usize = 0;
    assert(v@.skip(0) =~= v@);
    while i < n && !space(v[i])
        invariant
            n == v@.len(),
            i <= n,
            first_space(v@) == i + first_space(v@.skip(i as int)),
        decreases n - i,
    {
        assert(v@.skip(i as int).drop_first() =~= v@.skip(i as int + 1));
        i = i + 1;
    }
    if i == n {
        return None;
    }
    let a = slice_chars(&v, 0, i);
    let b = slice_chars(&v, i + 1, n);
    assert(a@ =~= s@.take(i as int));
    assert(b@ =~= s@.skip(i as int + 1));
    Some((a, b))
}

/// Whether `c` is an ASCII digit.
pub open spec fn is_digit(c: char) -> bool {
    '0' <= c <= '9'
}

/// The number that the digits of `s` write.
pub open spec fn digits_value(s: Seq<char>) -> nat
    decreases s.len(),
{
    if s.len() == 0 {
        0
    } else {
        digits_value(s.drop_last()) * 10 + ((s.last() as u32 - '0' as u32) as nat)
    }
}

/// The digits of `s` behind an optional plus sign.
pub open spec fn unsigned_part(s: Seq<char>) -> Seq<char> {
    if s.len() > 0 && s.first() == '+' {
        s.drop_first()
    } else {
        s
    }
}

/// The number that `s` writes in decimal, if it is one and at most `max`: an
/// optional plus sign, then at least one digit.
pub open spec fn parsed_uint(s: Seq<char>, max: nat) -> Option<nat> {
    let d = unsigned_part(s);
    if d.len() > 0 && (forall|i: int| 0 <= i < d.len() ==> is_digit(#[trigger] d[i]))
        && digits_value(d) <= max {
        Some(digits_value(d))
    } else {
        None
    }
}

proof fn lemma_digits_grow(s: Seq<char>, i: int)
    requires
        0 <= i <= s.len(),
    ensures
        digits_value(s.take(i)) <= digits_value(s),
    decreases s.len() - i,
{
    if i < s.len() {
        assert(s.take(i + 1).drop_last() =~= s.take(i));
        lemma_digits_grow(s, i + 1);
    } else {
        assert(s.take(i) =~= s);
    }
}

/// Read a decimal number of at most `max`.
pub fn parse_uint(s: &str, max: usize) -> (r: Option<usize>)
    ensures
        r is Some <==> parsed_uint(s@, max as nat) is Some,
        r is Some ==> Some(r->0 as nat) == parsed_uint(s@, max as nat),
{
    let v = to_chars(s);
    let start: usize = if v.len() > 0 && v[0] == '+' {
        1
    } else {
        0
    };
    let ghost d = unsigned_part(s@);
    assert(d =~= v@.subrange(start as int, v@.len() as int));
    if v.len() == start {
        return None;
    }
    let mut n: usize = 0;
    for i in start..v.len()
        invariant
            v@ == s@,
            start <= v@.len(),
            d == unsigned_part(s@),
            d == v@.subrange(start as int, v@.len() as int),
            n as nat == digits_value(d.take(i - start)),
            n <= max,
            forall|j: int| 0 <= j < i - start ==> is_digit(#[trigger] d[j]),
    {
        let c = v[i];
        assert(d[i - start] == c);
        assert(d.take(i - start + 1).drop_last() =~= d.take(i - start));
        assert(d.take(i - start + 1).last() == c);
        if !('0' <= c && c <= '9') {
            assert(!is_digit(d[i - start]));
            return None;
        }
        let k: usize = (c as u32 - '0' as u32) as usize;
        proof {
            lemma_digits_grow(d, i - start + 1);
        }
        if k > max || n > max / 10 || n * 10 > max - k {
            assert(digits_value(d.take(i - start + 1)) > max);
            return None;
        }
        n = n * 10 + k;
    }
    assert(d.take(d.len() as int) =~= d);
    Some(n)
}

/// The digit character for `n`.
pub open spec fn digit(n: nat) -> char {
    ('0' as u32 + n) as u32 as char
}

/// `n` in decimal.
pub open spec fn dec(n: nat) -> Seq<char>
    decreases n,
{
    if n < 10 {
        seq![digit(n)]
    } else {
        dec(n / 10).push(digit(n % 10))
    }
}

/// Write `n` in decimal.
pub fn decimal(n: usize) -> (r: String)
    ensures
        r@ == dec(n as nat),
    decreases n,
{
    let d: char = ((48 + n % 10) as u8) as char;
    if n < 10 {
        let mut s = String::new();
        s.push(d);
        assert(s@ =~= seq![digit(n as nat)]);
        s
    } else {
        let mut s = decimal(n / 10);
        s.push(d);
        s
    }
}

/// A decimal number reads back as the number it was written from.
pub proof fn law_decimal_reads_back(n: nat)
    ensures
        parsed_uint(dec(n), n) == Some(n),
{
    lemma_dec_digits(n);
    let s = dec(n);
    assert(is_digit(s[0]));
    assert(unsigned_part(s) == s);
}

proof fn lemma_dec_digits(n: nat)
    ensures
        dec(n).len() > 0,
        digits_value(dec(n)) == n,
        forall|i: int| 0 <= i < dec(n).len() ==> is_digit(#[trigger] dec(n)[i]),
    decreases n,
{
    if n < 10 {
        assert(dec(n).drop_last() =~= Seq::<char>::empty());
        assert(digits_value(dec(n).drop_last()) == 0);
    } else {
        lemma_dec_digits(n / 10);
        let p = dec(n / 10);
        assert(p.push(digit(n % 10)).drop_last() =~= p);
    }
}

/// `n` copies of `c`.
pub open spec fn copies(c: char, n: nat) -> Seq<char> {
    Seq::new(n, |i: int| c)
}

/// Repeat `c` `n` times.
pub fn repeat(c: char, n: usize) -> (r: String)
    ensures
        r@ == copies(c, n as nat),
{
    let mut s = String::new();
    for i in 0..n
        invariant
            s@ == copies(c, i as nat),
    {
        assert(copies(c, i as nat).push(c) =~= copies(c, (i + 1) as nat));
        s.push(c);
    }
    assert(s@ =~= copies(c, n as nat));
    s
}

/// `s` put behind enough spaces to be at least `w` characters long.
pub open spec fn right_aligned(s: Seq<char>, w: nat) -> Seq<char> {
    if s.len() < w {
        copies(' ', (w - s.len()) as nat) + s
    } else {
        s
    }
}

/// Align a text at the right of a field of `w` characters.
pub fn align_right(s: &str, w: usize) -> (r: String)
    ensures
        r@ == right_aligned(s@, w as nat),
{
    let n = to_chars(s).len();
    let mut out = if n < w {
        repeat(' ', w - n)
    } else {
        String::new()
    };
    out.push_str(s);
    assert(out@ =~= right_aligned(s@, w as nat));
    out
}

/// The texts of `v` one behind the other, with `sep` between them.
pub open spec fn joined(v: Seq<Seq<char>>, sep: Seq<char>) -> Seq<char>
    decreases v.len(),
{
    if v.len() == 0 {
        Seq::empty()
    } else if v.len() == 1 {
        v[0]
    } else {
        joined(v.drop_last(), sep) + sep + v.last()
    }
}

/// Join texts with a separator.
pub fn join(v: &Vec<String>, sep: &str) -> (r: String)
    ensures
        r@ == joined(texts(v@), sep@),
{
    let mut out = String::new();
    let ghost t = texts(v@);
    for i in 0..v.len()
        invariant
            t == texts(v@),
            out@ == joined(t.take(i as int), sep@),
    {
        assert(t.take(i as int + 1).drop_last() =~= t.take(i as int));
        assert(t[i as int] == v@[i as int]@);
        if i > 0 {
            out.push_str(sep);
        }
        out.push_str(v[i].as_str());
        assert(out@ =~= joined(t.take(i as int + 1), sep@));
    }
    assert(t.take(t.len() as int) =~= t);
    out
}

/// The strings of `a` followed by those of `b`.
pub fn extend(a: &mut Vec<String>, b: &Vec<String>)
    ensures
        texts(final(a)@) == texts(old(a)@) + texts(b@),
{
    let ghost start = texts(a@);
    let ghost t = texts(b@);
    for i in 0..b.len()
        invariant
            t == texts(b@),
            texts(a@) == start + t.take(i as int),
    {
        let s = b[i].clone();
        proof {
            lemma_texts_push(a@, s);
        }
        a.push(s);
        assert(t.take(i as int + 1) =~= t.take(i as int).push(t[i as int]));
        assert(texts(a@) =~= start + t.take(i as int + 1));
    }
    assert(t.take(t.len() as int) =~= t);
    assert(texts(a@) =~= start + t);
}

/// Append one text.
pub fn add_text(a: &mut Vec<String>, s: &str)
    ensures
        texts(final(a)@) == texts(old(a)@).push(s@),
{
    let o = s.to_owned();
    proof {
        lemma_texts_push(a@, o);
    }
    a.push(o);
}

/// Splitting loses nothing: the pieces, joined again, are the text, and no
/// piece holds the character that it was split at.
pub proof fn law_split_pieces_join(s: Seq<char>, c: char)
    ensures
        joined(split_at(s, c), seq![c]) == s,
        forall|i: int| 0 <= i < split_at(s, c).len() ==> !(#[trigger] split_at(s, c)[i]).contains(c),
    decreases s.len(),
{
    let f = is_char(c);
    if s.len() == 0 {
        assert(s =~= Seq::<char>::empty());
    } else {
        let d = s.drop_last();
        law_split_pieces_join(d, c);
        lemma_split_some(d, f);
        let r = split_if(d, f);
        let all = split_if(s, f);
        if s.last() == c {
            assert(all.drop_last() =~= r);
            assert(joined(all, seq![c]) =~= s);
        } else {
            let last = r.last().push(s.last());
            assert(all.drop_last() =~= r.drop_last());
            assert(all.last() == last);
            assert(joined(r, seq![c]) == d);
            assert(joined(all, seq![c]) =~= d.push(s.last())) by {
                if r.len() == 1 {
                    assert(all[0] == last);
                } else {
                    assert(joined(all, seq![c]) == joined(r.drop_last(), seq![c]) + seq![c] + last);
                }
            }
            assert(d.push(s.last()) =~= s);
            assert forall|i: int| 0 <= i < all.len() implies !(#[trigger] all[i]).contains(c) by {
                assert(!r[i].contains(c));
                if i == all.len() - 1 {
                    assert forall|k: int| 0 <= k < last.len() implies last[k] != c by {
                        if k < r.last().len() {
                            assert(r.last()[k] != c);
                        }
                    }
                }
            }
        }
    }
}

/// Trimming takes white space off both ends and nothing else.
pub proof fn law_trim_takes_the_ends_off(s: Seq<char>) -> (r: (int, int))
    ensures
        0 <= r.0 <= r.1 <= s.len(),
        trimmed(s) == s.subrange(r.0, r.1),
        forall|i: int| 0 <= i < r.0 || r.1 <= i < s.len() ==> is_space(#[trigger] s[i]),
        trimmed(s).len() > 0 ==> !is_space(trimmed(s).first()) && !is_space(trimmed(s).last()),
{
    let a = lemma_trim_start(s);
    let t = s.skip(a);
    let b = lemma_trim_end(t);
    assert(t.take(b) =~= s.subrange(a, a + b));
    assert forall|i: int| a + b <= i < s.len() implies is_space(#[trigger] s[i]) by {
        assert(is_space(t[i - a]));
    }
    (a, a + b)
}

proof fn lemma_trim_start(s: Seq<char>) -> (a: int)
    ensures
        0 <= a <= s.len(),
        trim_start(s) == s.skip(a),
        forall|i: int| 0 <= i < a ==> is_space(#[trigger] s[i]),
        a < s.len() ==> !is_space(s[a]),
    decreases s.len(),
{
    if s.len() > 0 && is_space(s.first()) {
        let d = s.drop_first();
        let a = lemma_trim_start(d);
        assert(d.skip(a) =~= s.skip(a + 1));
        assert forall|i: int| 0 <= i < a + 1 implies is_space(#[trigger] s[i]) by {
            if i > 0 {
                assert(is_space(d[i - 1]));
            }
        }
        a + 1
    } else {
        assert(s.skip(0) =~= s);
        0
    }
}

proof fn lemma_trim_end(s: Seq<char>) -> (b: int)
    ensures
        0 <= b <= s.len(),
        trim_end(s) == s.take(b),
        forall|i: int| b <= i < s.len() ==> is_space(#[trigger] s[i]),
        b > 0 ==> !is_space(s[b - 1]),
    decreases s.len(),
{
    if s.len() > 0 && is_space(s.last()) {
        let d = s.drop_last();
        let b = lemma_trim_end(d);
        assert(d.take(b) =~= s.take(b));
        assert forall|i: int| b <= i < s.len() implies is_space(#[trigger] s[i]) by {
            if i < s.len() - 1 {
                assert(is_space(d[i]));
            }
        }
        b
    } else {
        assert(s.take(s.len() as int) =~= s);
        s.len() as int
    }
}

/// White space is what Unicode calls so: among ASCII characters the blank and
/// those from the tab to the carriage return.
pub proof fn law_ascii_space(c: char)
    requires
        c as u32 <= 0x7f,
    ensures
        is_space(c) <==> c == ' ' || c == '\t' || c == '\n' || c == '\r' || c as u32 == 0x0b || c as u32
            == 0x0c,
{
}

/// A number stands at the right of its field, behind blanks alone.
pub proof fn law_right_aligned(s: Seq<char>, w: nat)
    ensures
        s.len() <= w ==> right_aligned(s, w).len() == w,
        s.len() >= w ==> right_aligned(s, w) == s,
        right_aligned(s, w).skip(right_aligned(s, w).len() - s.len()) == s,
        forall|i: int|
            0 <= i < right_aligned(s, w).len() - s.len() ==> (#[trigger] right_aligned(s, w)[i])
                == ' ',
{
    assert(right_aligned(s, w).skip(right_aligned(s, w).len() - s.len()) =~= s);
}

/// Small letters stay, and capitals become them.
pub proof fn law_lowering(s: Seq<char>, i: int)
    requires
        0 <= i < s.len(),
    ensures
        lowered(s).len() == s.len(),
        !('A' <= s[i] <= 'Z') ==> lowered(s)[i] == s[i],
        'A' <= s[i] <= 'Z' ==> 'a' <= lowered(s)[i] <= 'z' && lowered(s)[i] as u32 == s[i] as u32
            + 32,
{
    let c = s[i];
    if 'A' <= c <= 'Z' {
        let v = ((c as u8) + 32) as u8;
        assert(97 <= v <= 122);
        assert((v as char) as u32 == v);
    }
}

/// A text of lines that each end in a line feed has these lines.
pub proof fn law_lines_read_back(v: Seq<Seq<char>>)
    requires
        forall|i: int|
            0 <= i < v.len() ==> !(#[trigger] v[i]).contains('\n') && !v[i].contains('\r'),
    ensures
        line_texts(lines_text(v)) == v,
    decreases v.len(),
{
    let f = is_char('\n');
    lemma_lines_split(v);
    let p = split_at(lines_text(v), '\n');
    assert(p.drop_last() =~= v);
    assert(p.last() =~= Seq::<char>::empty());
    let g = |l: Seq<char>| strip_cr(l);
    assert(v.map_values(g) =~= v) by {
        assert forall|i: int| 0 <= i < v.len() implies #[trigger] v.map_values(g)[i] == v[i] by {
            assert(!v[i].contains('\r'));
            if v[i].len() > 0 {
                assert(v[i][v[i].len() - 1] != '\r');
            }
        }
    }
}

/// Texts as lines, one behind the other.
pub open spec fn lines_text(v: Seq<Seq<char>>) -> Seq<char>
    decreases v.len(),
{
    if v.len() == 0 {
        Seq::empty()
    } else {
        lines_text(v.drop_last()) + v.last().push('\n')
    }
}

proof fn lemma_lines_split(v: Seq<Seq<char>>)
    requires
        forall|i: int| 0 <= i < v.len() ==> !(#[trigger] v[i]).contains('\n'),
    ensures
        split_at(lines_text(v), '\n') == v.push(Seq::<char>::empty()),
    decreases v.len(),
{
    if v.len() == 0 {
        assert(v.push(Seq::<char>::empty()) =~= seq![Seq::<char>::empty()]);
    } else {
        let w = v.drop_last();
        assert forall|i: int| 0 <= i < w.len() implies !(#[trigger] w[i]).contains('\n') by {
            assert(!v[i].contains('\n'));
        }
        lemma_lines_split(w);
        assert(!v[v.len() - 1].contains('\n'));
        lemma_split_more(lines_text(w), v.last(), '\n');
        let s = lines_text(v);
        assert(s.drop_last() =~= lines_text(w) + v.last());
        let r = split_at(lines_text(w), '\n');
        assert(split_at(s, '\n') =~= v.push(Seq::<char>::empty()));
    }
}

/// Text behind the last piece belongs to it.
proof fn lemma_split_more(a: Seq<char>, b: Seq<char>, c: char)
    requires
        !b.contains(c),
    ensures
        split_at(a + b, c) == split_at(a, c).update(
            split_at(a, c).len() - 1,
            split_at(a, c).last() + b,
        ),
    decreases b.len(),
{
    let f = is_char(c);
    lemma_split_some(a, f);
    let r = split_at(a, c);
    if b.len() == 0 {
        assert(a + b =~= a);
        assert(r.last() + b =~= r.last());
        assert(r.update(r.len() - 1, r.last() + b) =~= r);
    } else {
        let d = b.drop_last();
        assert(!d.contains(c)) by {
            assert forall|i: int| 0 <= i < d.len() implies d[i] != c by {
                assert(b[i] != c);
            }
        }
        lemma_split_more(a, d, c);
        assert(b[b.len() - 1] != c);
        assert((a + b).drop_last() =~= a + d);
        assert((r.last() + d).push(b.last()) =~= r.last() + b);
        assert(split_at(a + b, c) =~= r.update(r.len() - 1, r.last() + b));
    }
}

} // verus!
