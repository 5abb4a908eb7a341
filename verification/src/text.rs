//! Character-level helpers shared by the other modules: conversions between
//! strings and character vectors, whitespace trimming and decimal numerals.

use vstd::prelude::*;

verus! {

/// `String::push` appends the given character to the end of the string.
pub assume_specification[ String::push ](s: &mut String, c: char)
    ensures
        final(s)@ == old(s)@.push(c),
;

/// The characters of `s`, in order.
pub fn chars_of(s: &str) -> (v: Vec<char>)
    ensures
        v@ == s@,
{
    let mut v: Vec<char> = Vec::new();
    for c in it: s.chars()
        invariant
            v@ == it.seq().take(it.index()),
            it.seq() == s@,
    {
        v.push(c);
    }
    v
}

/// The string made of the characters of `v`, in order.
pub fn string_of(v: &Vec<char>) -> (s: String)
    ensures
        s@ == v@,
{
    let mut s = String::new();
    let mut i: usize = 0;
    while i < v.len()
        invariant
            i <= v.len(),
            s@ == v@.take(i as int),
        decreases v.len() - i,
    {
        s.push(v[i]);
        i += 1;
    }
    s
}

/// Appends the characters of `s` to `out`.
pub fn push_str(out: &mut Vec<char>, s: &str)
    ensures
        final(out)@ == old(out)@ + s@,
{
    for c in it: s.chars()
        invariant
            out@ == old(out)@ + it.seq().take(it.index()),
            it.seq() == s@,
    {
        out.push(c);
    }
}

/// Appends the characters of `v` to `out`.
pub fn push_chars(out: &mut Vec<char>, v: &Vec<char>)
    ensures
        final(out)@ == old(out)@ + v@,
{
    let mut i: usize = 0;
    while i < v.len()
        invariant
            i <= v.len(),
            out@ == old(out)@ + v@.take(i as int),
        decreases v.len() - i,
    {
        out.push(v[i]);
        i += 1;
    }
}

/// The view of an optional string slice.
pub open spec fn optional_str(text: Option<&str>) -> Option<Seq<char>> {
    match text {
        Some(t) => Some(t@),
        None => None,
    }
}

/// The view of an optional string.
pub open spec fn optional_string(text: Option<String>) -> Option<Seq<char>> {
    match text {
        Some(t) => Some(t@),
        None => None,
    }
}

/// The view of an optional vector of characters.
pub open spec fn optional_chars(text: Option<Vec<char>>) -> Option<Seq<char>> {
    match text {
        Some(t) => Some(t@),
        None => None,
    }
}

/// Whether `text` ends with the characters of `suffix`.
pub open spec fn ends_with(text: Seq<char>, suffix: Seq<char>) -> bool {
    text.len() >= suffix.len() && text.subrange(text.len() - suffix.len(), text.len() as int)
        == suffix
}

/// Whether `c` has the Unicode property `White_Space`.
pub open spec fn whitespace(c: char) -> bool {
    let n = c as u32;
    ||| 0x09 <= n <= 0x0D
    ||| n == 0x20
    ||| n == 0x85
    ||| n == 0xA0
    ||| n == 0x1680
    ||| 0x2000 <= n <= 0x200A
    ||| n == 0x2028
    ||| n == 0x2029
    ||| n == 0x202F
    ||| n == 0x205F
    ||| n == 0x3000
}

/// Tests `c` for the Unicode property `White_Space`.
pub fn is_whitespace(c: char) -> (b: bool)
    ensures
        b == whitespace(c),
{
    let n: u32 = c as u32;
    (0x09 <= n && n <= 0x0D) || n == 0x20 || n == 0x85 || n == 0xA0 || n == 0x1680 || (0x2000 <= n
        && n <= 0x200A) || n == 0x2028 || n == 0x2029 || n == 0x202F || n == 0x205F || n == 0x3000
}

/// `s` without its leading whitespace.
pub open spec fn trim_start(s: Seq<char>) -> Seq<char>
    decreases s.len(),
{
    if s.len() > 0 && whitespace(s[0]) {
        trim_start(s.drop_first())
    } else {
        s
    }
}

/// `s` without its trailing whitespace.
pub open spec fn trim_end(s: Seq<char>) -> Seq<char>
    decreases s.len(),
{
    if s.len() > 0 && whitespace(s.last()) {
        trim_end(s.drop_last())
    } else {
        s
    }
}

/// `s` without its leading and trailing whitespace.
pub open spec fn trim(s: Seq<char>) -> Seq<char> {
    trim_end(trim_start(s))
}

/// The number of characters that stand before the first whitespace of `s`.
pub open spec fn word_len(s: Seq<char>) -> nat
    decreases s.len(),
{
    if s.len() > 0 && !whitespace(s[0]) {
        1 + word_len(s.drop_first())
    } else {
        0
    }
}

/// The first whitespace-delimited word of `s`, if it has one.
pub open spec fn first_word(s: Seq<char>) -> Option<Seq<char>> {
    let t = trim_start(s);
    if t.len() == 0 {
        None
    } else {
        Some(t.take(word_len(t) as int))
    }
}

/// The index at which the text of `v` begins once leading whitespace is skipped,
/// looking only at the first `end` characters.
pub fn trim_start_index(v: &Vec<char>, end: usize) -> (k: usize)
    requires
        end <= v.len(),
    ensures
        k <= end,
        v@.subrange(k as int, end as int) == trim_start(v@.take(end as int)),
{
    let mut k: usize = 0;
    while k < end && is_whitespace(v[k])
        invariant
            k <= end <= v.len(),
            trim_start(v@.subrange(k as int, end as int)) == trim_start(v@.take(end as int)),
        decreases end - k,
    {
        assert(v@.subrange(k as int, end as int).drop_first() == v@.subrange(
            k as int + 1,
            end as int,
        ));
        k += 1;
    }
    k
}

/// The length of `v` once trailing whitespace is dropped.
pub fn trim_end_len(v: &Vec<char>) -> (n: usize)
    ensures
        n <= v.len(),
        v@.take(n as int) == trim_end(v@),
{
    let mut n: usize = v.len();
    assert(v@.take(n as int) == v@);
    while n > 0 && is_whitespace(v[n - 1])
        invariant
            n <= v.len(),
            trim_end(v@.take(n as int)) == trim_end(v@),
        decreases n,
    {
        assert(v@.take(n as int).drop_last() == v@.take(n as int - 1));
        n -= 1;
    }
    n
}

/// Copies `v[from..to]` into a new vector.
pub fn slice_chars(v: &Vec<char>, from: usize, to: usize) -> (r: Vec<char>)
    requires
        from <= to <= v.len(),
    ensures
        r@ == v@.subrange(from as int, to as int),
{
    let mut r: Vec<char> = Vec::new();
    let mut i: usize = from;
    while i < to
        invariant
            from <= i <= to <= v.len(),
            r@ == v@.subrange(from as int, i as int),
        decreases to - i,
    {
        r.push(v[i]);
        i += 1;
    }
    r
}

/// `v` without its trailing whitespace.
pub fn trimmed_end(v: &Vec<char>) -> (r: Vec<char>)
    ensures
        r@ == trim_end(v@),
{
    let n = trim_end_len(v);
    slice_chars(v, 0, n)
}

/// `v` without its leading and trailing whitespace.
pub fn trimmed(v: &Vec<char>) -> (r: Vec<char>)
    ensures
        r@ == trim(v@),
{
    let k = trim_start_index(v, v.len());
    assert(v@.take(v.len() as int) == v@);
    let tail = slice_chars(v, k, v.len());
    trimmed_end(&tail)
}

/// The first whitespace-delimited word of `v`, if it has one.
pub fn first_word_of(v: &Vec<char>) -> (r: Option<Vec<char>>)
    ensures
        r is Some <==> first_word(v@) is Some,
        r is Some ==> r->0@ == first_word(v@)->0,
{
    let k = trim_start_index(v, v.len());
    assert(v@.take(v.len() as int) == v@);
    if k == v.len() {
        return None;
    }
    let ghost t = v@.subrange(k as int, v.len() as int);
    let mut j: usize = k;
    while j < v.len() && !is_whitespace(v[j])
        invariant
            k <= j <= v.len(),
            t == v@.subrange(k as int, v.len() as int),
            word_len(t) == (j - k) + word_len(v@.subrange(j as int, v.len() as int)),
        decreases v.len() - j,
    {
        assert(v@.subrange(j as int, v.len() as int).drop_first() == v@.subrange(
            j as int + 1,
            v.len() as int,
        ));
        j += 1;
    }
    assert(t.take((j - k) as int) == v@.subrange(k as int, j as int));
    Some(slice_chars(v, k, j))
}

/// The character of the decimal digit `d`.
pub open spec fn digit_char(d: nat) -> char {
    (0x30 + d) as char
}

/// The decimal numeral of `n`, without leading zeros.
pub open spec fn decimal(n: nat) -> Seq<char>
    decreases n,
{
    if n < 10 {
        seq![digit_char(n)]
    } else {
        decimal(n / 10).push(digit_char(n % 10))
    }
}

/// The decimal numeral of `n`, padded with leading zeros to at least `width` characters.
pub open spec fn decimal_padded(n: nat, width: nat) -> Seq<char> {
    let d = decimal(n);
    if d.len() >= width {
        d
    } else {
        Seq::new((width - d.len()) as nat, |i: int| '0') + d
    }
}

/// The decimal numeral of `n`.
pub fn decimal_of(n: u64) -> (r: Vec<char>)
    ensures
        r@ == decimal(n as nat),
    decreases n,
{
    let d: u8 = (n % 10) as u8;
    let c: char = (48u8 + d) as char;
    if n < 10 {
        let mut r: Vec<char> = Vec::new();
        r.push(c);
        assert(r@ == seq![c]);
        r
    } else {
        let mut r = decimal_of(n / 10);
        r.push(c);
        r
    }
}

/// The decimal numeral of `n`, padded with leading zeros to at least `width` characters.
pub fn decimal_padded_of(n: u64, width: usize) -> (r: Vec<char>)
    ensures
        r@ == decimal_padded(n as nat, width as nat),
{
    let d = decimal_of(n);
    let mut r: Vec<char> = Vec::new();
    if d.len() < width {
        let pad: usize = width - d.len();
        while r.len() < pad
            invariant
                r.len() <= pad,
                r@ == Seq::new(r.len() as nat, |i: int| '0'),
            decreases pad - r.len(),
        {
            r.push('0');
        }
    }
    push_chars(&mut r, &d);
    r
}

} // verus!
