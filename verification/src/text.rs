//! Character-level helpers shared by the wire codec and the pairing
//! URL builder: string building, decimal rendering of a port number,
//! and the grammar of decimal number text (the form the playback
//! volume is carried in).

use vstd::prelude::*;
use vstd::string::StrSliceExecFns;
use vstd::string::StringExecFns;

verus! {

/// Relies on std's String::push: appends exactly one character.
#[verifier::external_body]
pub fn push_char(s: &mut String, c: char)
    ensures
        final(s)@ == old(s)@.push(c),
{
    s.push(c);
}

/// Copies the characters of a string slice into a vector.
pub fn str_to_chars(s: &str) -> (r: Vec<char>)
    ensures
        r@ == s@,
{
    let n = s.unicode_len();
    let mut v: Vec<char> = Vec::new();
    let mut i: usize = 0;
    while i < n
        invariant
            i <= n,
            n as nat == s@.len(),
            v@ =~= s@.subrange(0, i as int),
        decreases n - i,
    {
        let c = s.get_char(i);
        v.push(c);
        assert(v@ =~= s@.subrange(0, i + 1 as int));
        i += 1;
    }
    assert(v@ =~= s@);
    v
}

/// Builds a string from a range of a character vector.
pub fn chars_to_string(v: &Vec<char>, from: usize, to: usize) -> (r: String)
    requires
        from <= to <= v@.len(),
    ensures
        r@ == v@.subrange(from as int, to as int),
{
    let mut s = String::new();
    let mut i: usize = from;
    while i < to
        invariant
            from <= i <= to,
            to <= v@.len(),
            s@ =~= v@.subrange(from as int, i as int),
        decreases to - i,
    {
        push_char(&mut s, v[i]);
        assert(s@ =~= v@.subrange(from as int, i + 1 as int));
        i += 1;
    }
    assert(s@ =~= v@.subrange(from as int, to as int));
    s
}

pub open spec fn spec_digit_char(d: int) -> char {
    if d == 0 { '0' } else if d == 1 { '1' } else if d == 2 { '2' }
    else if d == 3 { '3' } else if d == 4 { '4' } else if d == 5 { '5' }
    else if d == 6 { '6' } else if d == 7 { '7' } else if d == 8 { '8' }
    else { '9' }
}

fn digit_char(d: u16) -> (c: char)
    requires
        d < 10,
    ensures
        c == spec_digit_char(d as int),
{
    if d == 0 { '0' } else if d == 1 { '1' } else if d == 2 { '2' }
    else if d == 3 { '3' } else if d == 4 { '4' } else if d == 5 { '5' }
    else if d == 6 { '6' } else if d == 7 { '7' } else if d == 8 { '8' }
    else { '9' }
}

/// Decimal rendering of a non-negative integer, most significant
/// digit first, no leading zeros (a single zero for zero itself).
pub open spec fn spec_dec(n: int) -> Seq<char>
    decreases n,
{
    if n < 10 {
        seq![spec_digit_char(n)]
    } else {
        spec_dec(n / 10).push(spec_digit_char(n % 10))
    }
}

/// Renders a port number as decimal text.
pub fn u16_to_dec(n: u16) -> (s: String)
    ensures
        s@ == spec_dec(n as int),
    decreases n,
{
    if n < 10 {
        let mut s = String::new();
        push_char(&mut s, digit_char(n));
        assert(s@ =~= spec_dec(n as int));
        s
    } else {
        let mut s = u16_to_dec(n / 10);
        push_char(&mut s, digit_char(n % 10));
        assert(s@ =~= spec_dec(n as int));
        s
    }
}

pub open spec fn is_digit(c: char) -> bool {
    48 <= c as u32 && c as u32 <= 57
}

/// Every character of a decimal rendering is a digit.
pub proof fn lemma_dec_digits(n: int)
    requires
        n >= 0,
    ensures
        forall|i: int| 0 <= i < spec_dec(n).len() ==> is_digit(#[trigger] spec_dec(n)[i]),
    decreases n,
{
    if n < 10 {
        assert(is_digit(spec_digit_char(n)));
    } else {
        lemma_dec_digits(n / 10);
        assert forall|i: int| 0 <= i < spec_dec(n).len() implies is_digit(
            #[trigger] spec_dec(n)[i],
        ) by {
            if i < spec_dec(n / 10).len() {
                assert(spec_dec(n)[i] == spec_dec(n / 10)[i]);
            } else {
                assert(spec_dec(n)[i] == spec_digit_char(n % 10));
                assert(is_digit(spec_digit_char(n % 10)));
            }
        }
    }
}

fn is_digit_exec(c: char) -> (r: bool)
    ensures
        r == is_digit(c),
{
    let u = c as u32;
    48 <= u && u <= 57
}

/// First index at or after `i` whose character is not a digit
/// (the length of the sequence if all of them are).
pub open spec fn spec_skip_digits(s: Seq<char>, i: int) -> int
    decreases s.len() - i,
{
    if 0 <= i < s.len() && is_digit(s[i]) {
        spec_skip_digits(s, i + 1)
    } else {
        i
    }
}

fn skip_digits(v: &Vec<char>, i: usize) -> (r: usize)
    requires
        i <= v@.len(),
    ensures
        r as int == spec_skip_digits(v@, i as int),
        i <= r <= v@.len(),
{
    let mut j = i;
    while j < v.len() && is_digit_exec(v[j])
        invariant
            i <= j <= v@.len(),
            spec_skip_digits(v@, i as int) == spec_skip_digits(v@, j as int),
        decreases v@.len() - j,
    {
        assert(spec_skip_digits(v@, j as int) == spec_skip_digits(v@, j + 1 as int));
        j += 1;
    }
    assert(spec_skip_digits(v@, j as int) == j as int);
    j
}

/// Whether a sequence is decimal number text in the form JSON allows:
/// an optional minus sign, an integer part without leading zeros, an
/// optional fractional part, and an optional exponent.
pub open spec fn is_number_text(s: Seq<char>) -> bool {
    let i0: int = if s.len() > 0 && s[0] == '-' { 1 } else { 0 };
    let j = spec_skip_digits(s, i0);
    &&& i0 < s.len()
    &&& j > i0
    &&& (s[i0] != '0' || j == i0 + 1)
    &&& number_tail_ok(s, j)
}

/// What may follow the integer part: nothing, a fraction (then an
/// optional exponent), or an exponent.
pub open spec fn number_tail_ok(s: Seq<char>, j: int) -> bool {
    if j == s.len() {
        true
    } else if 0 <= j < s.len() && s[j] == '.' {
        let k = spec_skip_digits(s, j + 1);
        k > j + 1 && (k == s.len() || exponent_ok(s, k))
    } else {
        exponent_ok(s, j)
    }
}

/// An exponent: `e` or `E`, an optional sign, then digits to the end.
pub open spec fn exponent_ok(s: Seq<char>, j: int) -> bool {
    &&& 0 <= j < s.len()
    &&& (s[j] == 'e' || s[j] == 'E')
    &&& {
        let j2: int = if j + 1 < s.len() && (s[j + 1] == '+' || s[j + 1] == '-') {
            j + 2
        } else {
            j + 1
        };
        let m = spec_skip_digits(s, j2);
        m > j2 && m == s.len()
    }
}

fn exponent_check(v: &Vec<char>, j: usize) -> (r: bool)
    requires
        j <= v@.len(),
    ensures
        r == exponent_ok(v@, j as int),
{
    if j >= v.len() {
        return false;
    }
    if !(v[j] == 'e' || v[j] == 'E') {
        return false;
    }
    let j2: usize = if j + 1 < v.len() && (v[j + 1] == '+' || v[j + 1] == '-') {
        j + 2
    } else {
        j + 1
    };
    if j2 > v.len() {
        return false;
    }
    let m = skip_digits(v, j2);
    m > j2 && m == v.len()
}

/// Checks the number grammar over a range of a character vector.
pub fn check_number(v: &Vec<char>, from: usize, to: usize) -> (r: bool)
    requires
        from <= to <= v@.len(),
    ensures
        r == is_number_text(v@.subrange(from as int, to as int)),
{
    let sub = subvec(v, from, to);
    check_number_whole(&sub)
}

/// Copies a range of a character vector.
pub fn subvec(v: &Vec<char>, from: usize, to: usize) -> (r: Vec<char>)
    requires
        from <= to <= v@.len(),
    ensures
        r@ == v@.subrange(from as int, to as int),
{
    let mut out: Vec<char> = Vec::new();
    let mut i: usize = from;
    while i < to
        invariant
            from <= i <= to,
            to <= v@.len(),
            out@ =~= v@.subrange(from as int, i as int),
        decreases to - i,
    {
        out.push(v[i]);
        assert(out@ =~= v@.subrange(from as int, i + 1 as int));
        i += 1;
    }
    assert(out@ =~= v@.subrange(from as int, to as int));
    out
}

fn check_number_whole(v: &Vec<char>) -> (r: bool)
    ensures
        r == is_number_text(v@),
{
    let i0: usize = if v.len() > 0 && v[0] == '-' { 1 } else { 0 };
    if i0 >= v.len() {
        return false;
    }
    let j = skip_digits(v, i0);
    if j <= i0 {
        return false;
    }
    if v[i0] == '0' && j != i0 + 1 {
        return false;
    }
    if j == v.len() {
        return true;
    }
    if v[j] == '.' {
        let k = skip_digits(v, j + 1);
        if k <= j + 1 {
            return false;
        }
        if k == v.len() {
            return true;
        }
        return exponent_check(v, k);
    }
    exponent_check(v, j)
}

} // verus!
