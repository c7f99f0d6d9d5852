//! Conversions between strings and character sequences.
use vstd::prelude::*;

verus! {

/// Appends one character to a string (`String::push`).
#[verifier::external_body]
pub(crate) fn push_char(s: &mut String, c: char)
    ensures
        final(s)@ == old(s)@.push(c),
{
    s.push(c);
}

/// The characters of `s`, in order.
pub fn chars_of(s: &str) -> (out: Vec<char>)
    ensures
        out@ == s@,
{
    let mut out: Vec<char> = Vec::new();
    for c in it: s.chars()
        invariant
            out@ == it.seq().take(it.index() as int),
    {
        out.push(c);
    }
    out
}

/// A string holding exactly the given characters.
pub fn string_of(cs: &[char]) -> (out: String)
    ensures
        out@ == cs@,
{
    let mut out = String::new();
    let mut i: usize = 0;
    while i < cs.len()
        invariant
            i <= cs.len(),
            out@ == cs@.take(i as int),
        decreases cs.len() - i,
    {
        push_char(&mut out, cs[i]);
        assert(cs@.take(i as int + 1) == cs@.take(i as int).push(cs@[i as int]));
        i += 1;
    }
    assert(cs@.take(cs.len() as int) == cs@);
    out
}

/// Whether two strings hold the same characters.
pub fn chars_eq(a: &str, b: &str) -> (res: bool)
    ensures
        res == (a@ == b@),
{
    let ac = chars_of(a);
    let bc = chars_of(b);
    if ac.len() != bc.len() {
        return false;
    }
    let mut k: usize = 0;
    while k < ac.len()
        invariant
            ac@ == a@,
            bc@ == b@,
            ac@.len() == bc@.len(),
            k <= ac@.len(),
            forall|m: int| 0 <= m < k ==> ac@[m] == bc@[m],
        decreases ac@.len() - k,
    {
        if ac[k] != bc[k] {
            return false;
        }
        k += 1;
    }
    assert(a@ =~= b@);
    true
}

/// `s` starts with `p`.
pub open spec fn has_prefix(s: Seq<char>, p: Seq<char>) -> bool {
    p.len() <= s.len() && s.take(p.len() as int) == p
}

/// Whether `s` starts with `p`.
pub fn starts_with(s: &str, p: &str) -> (res: bool)
    ensures
        res == has_prefix(s@, p@),
{
    let sc = chars_of(s);
    let pc = chars_of(p);
    if pc.len() > sc.len() {
        return false;
    }
    let mut k: usize = 0;
    while k < pc.len()
        invariant
            pc@ == p@,
            sc@ == s@,
            pc@.len() <= sc@.len(),
            k <= pc@.len(),
            forall|m: int| 0 <= m < k ==> sc@[m] == pc@[m],
        decreases pc@.len() - k,
    {
        if sc[k] != pc[k] {
            assert(s@.take(p@.len() as int)[k as int] != p@[k as int]);
            return false;
        }
        k += 1;
    }
    assert(s@.take(p@.len() as int) =~= p@);
    true
}

} // verus!

verus! {

/// `std::str::from_utf8`: the text the bytes encode, when they are valid UTF-8.
#[verifier::external_body]
pub(crate) fn utf8_str(bytes: &[u8]) -> (res: Option<&str>)
    ensures
        res is Some <==> vstd::utf8::valid_utf8(bytes@),
        res matches Some(s) ==> s@ == vstd::utf8::decode_utf8(bytes@),
{
    std::str::from_utf8(bytes).ok()
}

/// The text that `bytes` encode when they are valid UTF-8, else nothing.
pub open spec fn decoded_or_empty(bytes: Seq<u8>) -> Seq<char> {
    if vstd::utf8::valid_utf8(bytes) {
        vstd::utf8::decode_utf8(bytes)
    } else {
        Seq::empty()
    }
}

/// The digit character of a number below ten.
pub open spec fn digit_char(d: nat) -> char {
    ((d + 48) as u8) as char
}

/// A number written in decimal, without leading zeros.
pub open spec fn decimal_digits(n: nat) -> Seq<char>
    decreases n,
{
    if n < 10 {
        seq![digit_char(n)]
    } else {
        decimal_digits(n / 10).push(digit_char(n % 10))
    }
}

/// A number written in decimal (see [`decimal_digits`]).
pub fn decimal_text(n: usize) -> (res: String)
    ensures
        res@ == decimal_digits(n as nat),
{
    let mut low: Vec<char> = Vec::new();
    let mut m: usize = n;
    while m >= 10
        invariant
            decimal_digits(n as nat) == decimal_digits(m as nat) + low@,
        decreases m,
    {
        let d = ((m % 10) as u8 + 48) as char;
        assert(d == digit_char((m % 10) as nat));
        let ghost before = low@;
        low.insert(0, d);
        assert(low@ =~= seq![d] + before);
        assert(decimal_digits(m as nat) == decimal_digits((m / 10) as nat).push(d));
        assert(decimal_digits((m / 10) as nat).push(d) + before =~= decimal_digits((m / 10) as nat) + low@);
        m = m / 10;
    }
    let d = (m as u8 + 48) as char;
    assert(d == digit_char(m as nat));
    let ghost before = low@;
    low.insert(0, d);
    assert(low@ =~= seq![d] + before);
    assert(low@ =~= decimal_digits(n as nat));
    string_of(low.as_slice())
}

} // verus!
