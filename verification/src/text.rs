//! Text helpers: decimal and exponent rendering of integers, joining, and
//! character-level access to strings.
use vstd::prelude::*;

verus! {

/// `String::push` appends one character.
pub assume_specification[ std::string::String::push ](s: &mut std::string::String, ch: char)
    ensures
        final(s)@ == old(s)@.push(ch),
;

/// The character for a decimal digit `d < 10`.
pub open spec fn digit_char(d: nat) -> char {
    (d + 48) as char
}

/// The decimal rendering of a natural number, without leading zeros.
pub open spec fn decimal(n: nat) -> Seq<char>
    decreases n,
{
    if n < 10 {
        seq![digit_char(n)]
    } else {
        decimal(n / 10).push(digit_char(n % 10))
    }
}

/// The decimal rendering of an integer, with a leading `-` when negative.
pub open spec fn int_text(i: int) -> Seq<char> {
    if i < 0 {
        seq!['-'] + decimal((-i) as nat)
    } else {
        decimal(i as nat)
    }
}

/// `n` with its trailing decimal zeros removed (keeping at least one digit),
/// together with how many zeros were removed.
pub open spec fn strip_zeros(n: nat) -> (nat, nat)
    decreases n,
{
    if n >= 10 && n % 10 == 0 {
        let (m, k) = strip_zeros(n / 10);
        (m, k + 1)
    } else {
        (n, 0)
    }
}

/// The scientific rendering of a natural number, as Rust's `{:e}` (or `{:E}`
/// when `upper`) prints an integer: the significant digits with a `.` after
/// the first one when there are more, then the marker, then the exponent.
pub open spec fn exp_nat_text(n: nat, upper: bool) -> Seq<char> {
    let (m, k) = strip_zeros(n);
    let d = decimal(m);
    let mantissa = if d.len() > 1 {
        seq![d[0], '.'] + d.skip(1)
    } else {
        d
    };
    let marker = if upper {
        'E'
    } else {
        'e'
    };
    mantissa.push(marker) + decimal((k + d.len() - 1) as nat)
}

/// The scientific rendering of an integer, with a leading `-` when negative.
pub open spec fn exp_int_text(i: int, upper: bool) -> Seq<char> {
    if i < 0 {
        seq!['-'] + exp_nat_text((-i) as nat, upper)
    } else {
        exp_nat_text(i as nat, upper)
    }
}

/// The parts joined with `sep` between each two neighbours.
pub open spec fn join(parts: Seq<Seq<char>>, sep: Seq<char>) -> Seq<char>
    decreases parts.len(),
{
    if parts.len() == 0 {
        seq![]
    } else if parts.len() == 1 {
        parts[0]
    } else {
        join(parts.drop_last(), sep) + sep + parts.last()
    }
}

/// Joining one more part appends the separator and that part.
pub proof fn lemma_join_push(parts: Seq<Seq<char>>, sep: Seq<char>, p: Seq<char>)
    ensures
        join(parts.push(p), sep) == if parts.len() == 0 {
            p
        } else {
            join(parts, sep) + sep + p
        },
{
    assert(parts.push(p).drop_last() =~= parts);
}

/// Joining two non-empty runs of parts one after the other is joining each
/// and putting the separator between them.
pub proof fn lemma_join_concat(x: Seq<Seq<char>>, y: Seq<Seq<char>>, sep: Seq<char>)
    requires
        x.len() > 0,
        y.len() > 0,
    ensures
        join(x + y, sep) == join(x, sep) + sep + join(y, sep),
    decreases y.len(),
{
    if y.len() == 1 {
        assert(x + y =~= x.push(y[0]));
        lemma_join_push(x, sep, y[0]);
    } else {
        let z = y.drop_last();
        lemma_join_concat(x, z, sep);
        assert(x + y =~= (x + z).push(y.last()));
        lemma_join_push(x + z, sep, y.last());
        assert(z.push(y.last()) =~= y);
        lemma_join_push(z, sep, y.last());
        assert(join(x + y, sep) =~= join(x, sep) + sep + join(y, sep));
    }
}

/// The digit character for `d`.
pub fn digit(d: u8) -> (c: char)
    requires
        d < 10,
    ensures
        c == digit_char(d as nat),
{
    match d {
        0 => '0',
        1 => '1',
        2 => '2',
        3 => '3',
        4 => '4',
        5 => '5',
        6 => '6',
        7 => '7',
        8 => '8',
        _ => '9',
    }
}

/// Appends the decimal rendering of `n`.
pub fn write_decimal(out: &mut String, n: u128)
    ensures
        final(out)@ == old(out)@ + decimal(n as nat),
    decreases n,
{
    if n >= 10 {
        write_decimal(out, n / 10);
        let d = (n % 10) as u8;
        out.push(digit(d));
        assert(final(out)@ =~= old(out)@ + decimal(n as nat));
    } else {
        let d = n as u8;
        out.push(digit(d));
        assert(final(out)@ =~= old(out)@ + decimal(n as nat));
    }
}

/// The magnitude of an `i128`, which always fits in a `u128`.
pub fn magnitude(i: i128) -> (m: u128)
    ensures
        m as int == if i < 0 {
            -i
        } else {
            i as int
        },
{
    if i < 0 {
        let j: i128 = -(i + 1);
        (j as u128) + 1
    } else {
        i as u128
    }
}

/// Appends the decimal rendering of an integer.
pub fn write_int(out: &mut String, i: i128)
    ensures
        final(out)@ == old(out)@ + int_text(i as int),
{
    let m = magnitude(i);
    if i < 0 {
        out.push('-');
    }
    write_decimal(out, m);
    assert(final(out)@ =~= old(out)@ + int_text(i as int));
}

/// A decimal rendering has at least one digit.
pub proof fn lemma_decimal_nonempty(n: nat)
    ensures
        decimal(n).len() >= 1,
    decreases n,
{
    if n >= 10 {
        lemma_decimal_nonempty(n / 10);
    }
}

/// The trailing-zero split of `n`, computed.
fn strip(n: u128) -> (r: (u128, u128))
    ensures
        r.0 as nat == strip_zeros(n as nat).0,
        r.1 as nat == strip_zeros(n as nat).1,
        r.1 <= n,
    decreases n,
{
    if n >= 10 && n % 10 == 0 {
        let (m, k) = strip(n / 10);
        (m, k + 1)
    } else {
        (n, 0)
    }
}

/// Appends the scientific rendering of an integer, as `{:e}` (or `{:E}` when
/// `upper`) renders it.
pub fn write_exp(out: &mut String, i: i128, upper: bool)
    ensures
        final(out)@ == old(out)@ + exp_int_text(i as int, upper),
{
    let n = magnitude(i);
    if i < 0 {
        out.push('-');
    }
    let ghost start = out@;
    let (m, k) = strip(n);
    let mut digits = String::new();
    write_decimal(&mut digits, m);
    proof {
        lemma_decimal_nonempty(m as nat);
    }
    let len = digits.as_str().unicode_len();
    let first = digits.as_str().get_char(0);
    out.push(first);
    if len > 1 {
        out.push('.');
        let rest = digits.as_str().substring_char(1, len);
        out.append(rest);
    }
    if upper {
        out.push('E');
    } else {
        out.push('e');
    }
    assert(k + len - 1 < u128::MAX) by {
        assert(len <= usize::MAX);
    }
    write_decimal(out, k + (len as u128) - 1);
    proof {
        let d = decimal(m as nat);
        let mantissa = if d.len() > 1 {
            seq![d[0], '.'] + d.skip(1)
        } else {
            d
        };
        assert(out@ =~= start + mantissa.push(if upper { 'E' } else { 'e' }) + decimal(
            (k + d.len() - 1) as nat,
        ));
        assert(final(out)@ =~= old(out)@ + exp_int_text(i as int, upper));
    }
}

/// Appends the decimal rendering of a `usize`.
pub fn write_usize(out: &mut String, n: usize)
    ensures
        final(out)@ == old(out)@ + decimal(n as nat),
{
    write_decimal(out, n as u128);
}

/// Appends the text of a string slice.
pub fn write_str(out: &mut String, s: &str)
    ensures
        final(out)@ == old(out)@ + s@,
{
    out.append(s);
}

/// A `String` with the same characters as `s`.
pub fn string_of(s: &str) -> (r: String)
    ensures
        r@ == s@,
{
    s.to_owned()
}

/// The characters of `s`, one by one.
pub fn chars_of(s: &str) -> (v: Vec<char>)
    ensures
        v@ == s@,
{
    let len = s.unicode_len();
    let mut v: Vec<char> = Vec::new();
    let mut i: usize = 0;
    while i < len
        invariant
            len == s@.len(),
            i <= len,
            v@ == s@.take(i as int),
        decreases len - i,
    {
        v.push(s.get_char(i));
        i = i + 1;
        assert(v@ =~= s@.take(i as int));
    }
    assert(s@.take(len as int) =~= s@);
    v
}

/// A `String` holding `v[lo..hi]`.
pub fn string_from(v: &Vec<char>, lo: usize, hi: usize) -> (r: String)
    requires
        lo <= hi <= v@.len(),
    ensures
        r@ == v@.subrange(lo as int, hi as int),
{
    let mut r = String::new();
    let mut i = lo;
    while i < hi
        invariant
            lo <= i <= hi <= v@.len(),
            r@ == v@.subrange(lo as int, i as int),
        decreases hi - i,
    {
        r.push(v[i]);
        i = i + 1;
        assert(r@ =~= v@.subrange(lo as int, i as int));
    }
    r
}

/// The position of the first `c` in `s` at or after `i`, or `s.len()` when
/// there is none.
pub open spec fn index_from(s: Seq<char>, c: char, i: int) -> int
    decreases s.len() - i,
{
    if i >= s.len() {
        s.len() as int
    } else if s[i] == c {
        i
    } else {
        index_from(s, c, i + 1)
    }
}

/// The position of the first `c` in `s`, or `s.len()` when there is none.
pub open spec fn first_index(s: Seq<char>, c: char) -> int {
    index_from(s, c, 0)
}

/// Whether `c` occurs in `s`.
pub open spec fn has_char(s: Seq<char>, c: char) -> bool {
    first_index(s, c) < s.len()
}

/// What `index_from` finds: no `c` before it, and a `c` at it unless it is
/// the end.
pub proof fn lemma_index_from(s: Seq<char>, c: char, i: int)
    requires
        0 <= i <= s.len(),
    ensures
        i <= index_from(s, c, i) <= s.len(),
        forall|j: int| i <= j < index_from(s, c, i) ==> s[j] != c,
        index_from(s, c, i) < s.len() ==> s[index_from(s, c, i)] == c,
    decreases s.len() - i,
{
    if i < s.len() && s[i] != c {
        lemma_index_from(s, c, i + 1);
    }
}

/// What `first_index` finds: no `c` before it, and a `c` at it unless it is
/// the end.
pub proof fn lemma_first_index(s: Seq<char>, c: char)
    ensures
        0 <= first_index(s, c) <= s.len(),
        forall|j: int| 0 <= j < first_index(s, c) ==> s[j] != c,
        has_char(s, c) ==> s[first_index(s, c)] == c,
        has_char(s, c) <==> exists|j: int| 0 <= j < s.len() && s[j] == c,
{
    lemma_index_from(s, c, 0);
}

/// The position of the first `c` in `v[lo..hi]`, relative to the whole
/// vector, or `hi` when there is none.
pub fn find_char(v: &Vec<char>, lo: usize, hi: usize, c: char) -> (r: usize)
    requires
        lo <= hi <= v@.len(),
    ensures
        lo <= r <= hi,
        r - lo == first_index(v@.subrange(lo as int, hi as int), c),
{
    let ghost sub = v@.subrange(lo as int, hi as int);
    let mut i = lo;
    while i < hi
        invariant
            lo <= i <= hi <= v@.len(),
            sub == v@.subrange(lo as int, hi as int),
            index_from(sub, c, 0) == index_from(sub, c, i - lo),
        decreases hi - i,
    {
        if v[i] == c {
            assert(sub[i - lo] == c);
            return i;
        }
        assert(sub[i - lo] != c);
        i = i + 1;
    }
    hi
}

/// An ASCII decimal digit.
pub open spec fn is_digit(c: char) -> bool {
    '0' <= c <= '9'
}

/// Every character is an ASCII decimal digit.
pub open spec fn all_digits(s: Seq<char>) -> bool {
    forall|i: int| 0 <= i < s.len() ==> is_digit(#[trigger] s[i])
}

/// The number that a string of decimal digits denotes.
pub open spec fn digits_value(s: Seq<char>) -> nat
    decreases s.len(),
{
    if s.len() == 0 {
        0
    } else {
        digits_value(s.drop_last()) * 10 + (s.last() as nat - 48) as nat
    }
}

/// What Rust's `usize::from_str` accepts: an optional `+`, then one or more
/// decimal digits whose value fits in a `usize`.
pub open spec fn parse_usize_spec(s: Seq<char>) -> Option<usize> {
    let body = if s.len() > 0 && s[0] == '+' {
        s.drop_first()
    } else {
        s
    };
    if body.len() > 0 && all_digits(body) && digits_value(body) <= usize::MAX {
        Some(digits_value(body) as usize)
    } else {
        None
    }
}

/// A digit string denotes at least as much as any of its prefixes.
pub proof fn lemma_digits_value_prefix(s: Seq<char>, k: int)
    requires
        all_digits(s),
        0 <= k <= s.len(),
    ensures
        digits_value(s.take(k)) <= digits_value(s),
    decreases s.len(),
{
    if k < s.len() {
        let t = s.drop_last();
        assert(all_digits(t)) by {
            assert forall|i: int| 0 <= i < t.len() implies is_digit(#[trigger] t[i]) by {
                assert(t[i] == s[i]);
            }
        }
        lemma_digits_value_prefix(t, k);
        assert(t.take(k) =~= s.take(k));
        assert(is_digit(s[s.len() - 1]));
    } else {
        assert(s.take(k) =~= s);
    }
}

/// Parses `v[lo..hi]` as Rust's `usize::from_str` does.
pub fn parse_usize(v: &Vec<char>, lo: usize, hi: usize) -> (r: Option<usize>)
    requires
        lo <= hi <= v@.len(),
    ensures
        r == parse_usize_spec(v@.subrange(lo as int, hi as int)),
{
    let ghost s = v@.subrange(lo as int, hi as int);
    let mut start = lo;
    if lo < hi && v[lo] == '+' {
        start = lo + 1;
    }
    let ghost body = v@.subrange(start as int, hi as int);
    assert(body =~= if s.len() > 0 && s[0] == '+' {
        s.drop_first()
    } else {
        s
    });
    if start == hi {
        return None;
    }
    let mut acc: usize = 0;
    let mut i = start;
    while i < hi
        invariant
            lo <= start <= i <= hi <= v@.len(),
            start < hi,
            s == v@.subrange(lo as int, hi as int),
            body == v@.subrange(start as int, hi as int),
            body == if s.len() > 0 && s[0] == '+' {
                s.drop_first()
            } else {
                s
            },
            all_digits(v@.subrange(start as int, i as int)),
            acc as nat == digits_value(v@.subrange(start as int, i as int)),
        decreases hi - i,
    {
        let c = v[i];
        let ghost pre = v@.subrange(start as int, i as int);
        let ghost next = v@.subrange(start as int, i + 1);
        assert(next.drop_last() =~= pre);
        assert(body.take(i - start + 1) =~= next);
        if !('0' <= c && c <= '9') {
            assert(!is_digit(body[i - start]));
            return None;
        }
        assert(all_digits(next)) by {
            assert forall|j: int| 0 <= j < next.len() implies is_digit(#[trigger] next[j]) by {
                if j < pre.len() {
                    assert(next[j] == pre[j]);
                }
            }
        }
        let d = (c as u32 - 48) as usize;
        match acc.checked_mul(10) {
            Some(x) => match x.checked_add(d) {
                Some(y) => {
                    acc = y;
                },
                None => {
                    proof {
                        if all_digits(body) {
                            lemma_digits_value_prefix(body, i - start + 1);
                        }
                    }
                    return None;
                },
            },
            None => {
                proof {
                    if all_digits(body) {
                        lemma_digits_value_prefix(body, i - start + 1);
                    }
                }
                return None;
            },
        }
        i = i + 1;
    }
    assert(v@.subrange(start as int, hi as int) =~= body);
    Some(acc)
}

/// Appends the texts separated by `sep`.
pub fn write_joined(parts: &Vec<String>, sep: &str, out: &mut String)
    ensures
        final(out)@ == old(out)@ + join(parts@.map_values(|p: String| p@), sep@),
{
    let ghost start = out@;
    let ghost ps = parts@.map_values(|p: String| p@);
    let mut i: usize = 0;
    while i < parts.len()
        invariant
            i <= parts@.len(),
            ps == parts@.map_values(|p: String| p@),
            out@ == start + join(ps.take(i as int), sep@),
        decreases parts@.len() - i,
    {
        if i > 0 {
            out.append(sep);
        }
        out.append(parts[i].as_str());
        proof {
            lemma_join_push(ps.take(i as int), sep@, ps[i as int]);
            assert(ps.take(i + 1) =~= ps.take(i as int).push(ps[i as int]));
        }
        i = i + 1;
        assert(out@ =~= start + join(ps.take(i as int), sep@));
    }
    assert(ps.take(i as int) =~= ps);
}

/// A decimal rendering is a non-empty string of digits denoting the number.
pub proof fn lemma_decimal_digits(n: nat)
    ensures
        decimal(n).len() >= 1,
        all_digits(decimal(n)),
        digits_value(decimal(n)) == n,
    decreases n,
{
    if n >= 10 {
        lemma_decimal_digits(n / 10);
        let s = decimal(n / 10);
        let t = decimal(n);
        let d = (n % 10) as nat;
        assert(t == s.push(digit_char(d)));
        assert(t.drop_last() =~= s);
        assert((digit_char(d) as nat) == d + 48);
        assert(t.last() == digit_char(d));
        assert(digits_value(t) == digits_value(s) * 10 + d);
        assert((n / 10) * 10 + n % 10 == n);
        assert forall|i: int| 0 <= i < t.len() implies is_digit(#[trigger] t[i]) by {
            if i < s.len() {
                assert(t[i] == s[i]);
            }
        }
    } else {
        let t = decimal(n);
        assert(t == seq![digit_char(n)]);
        assert(t.drop_last() =~= Seq::<char>::empty());
        assert((digit_char(n) as nat) == n + 48);
        assert(digits_value(t) == digits_value(Seq::<char>::empty()) * 10 + n);
    }
}

/// Parsing the decimal rendering of a `usize` gives it back.
pub proof fn lemma_parse_decimal(n: usize)
    ensures
        parse_usize_spec(decimal(n as nat)) == Some(n),
{
    lemma_decimal_digits(n as nat);
    let s = decimal(n as nat);
    assert(is_digit(s[0]));
}

/// Where a character first occurs in `a + b`, when it does not occur in
/// `a`.
pub proof fn lemma_first_index_concat(a: Seq<char>, b: Seq<char>, c: char)
    requires
        !has_char(a, c),
    ensures
        first_index(a + b, c) == a.len() + first_index(b, c),
        has_char(a + b, c) == has_char(b, c),
{
    lemma_first_index(a, c);
    lemma_first_index(b, c);
    lemma_first_index(a + b, c);
    let s = a + b;
    let f = first_index(s, c);
    let k = first_index(b, c);
    if f < a.len() {
        assert(s[f] == a[f]);
    } else if f < a.len() + k {
        assert(s[f] == b[f - a.len()]);
    } else if f > a.len() + k {
        assert(s[a.len() + k] == b[k]);
    }
}

} // verus!
