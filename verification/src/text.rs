use vstd::prelude::*;
use vstd::string::StringExecFns;
use crate::addr::Ipv4;

verus! {

/// The value of a decimal digit character, `None` for any other character.
pub open spec fn char_val(c: char) -> Option<int> {
    if c == '0' {
        Some(0int)
    } else if c == '1' {
        Some(1int)
    } else if c == '2' {
        Some(2int)
    } else if c == '3' {
        Some(3int)
    } else if c == '4' {
        Some(4int)
    } else if c == '5' {
        Some(5int)
    } else if c == '6' {
        Some(6int)
    } else if c == '7' {
        Some(7int)
    } else if c == '8' {
        Some(8int)
    } else if c == '9' {
        Some(9int)
    } else {
        None
    }
}

/// The decimal digit character for a value below ten.
pub open spec fn digit_of(d: int) -> char {
    if d == 0 {
        '0'
    } else if d == 1 {
        '1'
    } else if d == 2 {
        '2'
    } else if d == 3 {
        '3'
    } else if d == 4 {
        '4'
    } else if d == 5 {
        '5'
    } else if d == 6 {
        '6'
    } else if d == 7 {
        '7'
    } else if d == 8 {
        '8'
    } else {
        '9'
    }
}

/// The shortest decimal text of an octet value: no leading zeros, one to
/// three digits.
pub open spec fn octet_chars(n: int) -> Seq<char> {
    if n < 10 {
        seq![digit_of(n)]
    } else if n < 100 {
        seq![digit_of(n / 10), digit_of(n % 10)]
    } else {
        seq![digit_of(n / 100), digit_of((n / 10) % 10), digit_of(n % 10)]
    }
}

/// The canonical dotted-decimal text of an address: four octets in shortest
/// decimal form, joined by single dots.
pub open spec fn ipv4_chars(x: Ipv4) -> Seq<char> {
    octet_chars(x.a as int) + seq!['.'] + octet_chars(x.b as int) + seq!['.'] + octet_chars(
        x.c as int,
    ) + seq!['.'] + octet_chars(x.d as int)
}

fn digit_str(d: u8) -> (r: &'static str)
    requires
        d < 10,
    ensures
        r@ =~= seq![digit_of(d as int)],
{
    proof {
        reveal_strlit("0");
        reveal_strlit("1");
        reveal_strlit("2");
        reveal_strlit("3");
        reveal_strlit("4");
        reveal_strlit("5");
        reveal_strlit("6");
        reveal_strlit("7");
        reveal_strlit("8");
        reveal_strlit("9");
    }
    if d == 0 {
        "0"
    } else if d == 1 {
        "1"
    } else if d == 2 {
        "2"
    } else if d == 3 {
        "3"
    } else if d == 4 {
        "4"
    } else if d == 5 {
        "5"
    } else if d == 6 {
        "6"
    } else if d == 7 {
        "7"
    } else if d == 8 {
        "8"
    } else {
        "9"
    }
}

fn push_octet(s: &mut String, n: u8)
    ensures
        final(s)@ == old(s)@ + octet_chars(n as int),
{
    if n >= 100 {
        s.append(digit_str(n / 100));
        s.append(digit_str((n / 10) % 10));
        s.append(digit_str(n % 10));
        assert(s@ =~= old(s)@ + octet_chars(n as int));
    } else if n >= 10 {
        s.append(digit_str(n / 10));
        s.append(digit_str(n % 10));
        assert(s@ =~= old(s)@ + octet_chars(n as int));
    } else {
        s.append(digit_str(n));
        assert(s@ =~= old(s)@ + octet_chars(n as int));
    }
}

/// The dotted-decimal text of an address, the form the update request and
/// the resolver's response body carry.
pub fn ipv4_to_string(x: &Ipv4) -> (r: String)
    ensures
        r@ == ipv4_chars(*x),
{
    proof {
        reveal_strlit(".");
    }
    let mut s = String::new();
    push_octet(&mut s, x.a);
    s.append(".");
    push_octet(&mut s, x.b);
    s.append(".");
    push_octet(&mut s, x.c);
    s.append(".");
    push_octet(&mut s, x.d);
    assert(s@ =~= ipv4_chars(*x));
    s
}


/// One octet scanned from position `i`: its value and the position after it.
/// Greedy over at most three digits; a leading zero is only the octet "0";
/// the value must fit in an octet.
pub open spec fn spec_scan_octet(s: Seq<char>, i: int) -> Option<(int, int)> {
    if 0 <= i < s.len() && char_val(s[i]) is Some {
        let d0 = char_val(s[i])->Some_0;
        if i + 1 < s.len() && char_val(s[i + 1]) is Some {
            if d0 == 0 {
                None
            } else {
                let d1 = char_val(s[i + 1])->Some_0;
                if i + 2 < s.len() && char_val(s[i + 2]) is Some {
                    let d2 = char_val(s[i + 2])->Some_0;
                    let v = d0 * 100 + d1 * 10 + d2;
                    if v <= 255 {
                        Some((v, i + 3))
                    } else {
                        None
                    }
                } else {
                    Some((d0 * 10 + d1, i + 2))
                }
            }
        } else {
            Some((d0, i + 1))
        }
    } else {
        None
    }
}

/// A dot at position `i` followed by an octet.
pub open spec fn spec_scan_dot_octet(s: Seq<char>, i: int) -> Option<(int, int)> {
    if 0 <= i < s.len() && s[i] == '.' {
        spec_scan_octet(s, i + 1)
    } else {
        None
    }
}

/// The address a character sequence denotes: exactly four octets in
/// shortest decimal form joined by single dots, nothing before or after.
/// `None` for any other sequence.
pub open spec fn spec_parse_ipv4(s: Seq<char>) -> Option<Ipv4> {
    match spec_scan_octet(s, 0) {
        None => None,
        Some((v0, i0)) => match spec_scan_dot_octet(s, i0) {
            None => None,
            Some((v1, i1)) => match spec_scan_dot_octet(s, i1) {
                None => None,
                Some((v2, i2)) => match spec_scan_dot_octet(s, i2) {
                    None => None,
                    Some((v3, i3)) => if i3 == s.len() {
                        Some(Ipv4 { a: v0 as u8, b: v1 as u8, c: v2 as u8, d: v3 as u8 })
                    } else {
                        None
                    },
                },
            },
        },
    }
}

fn char_digit(c: char) -> (r: Option<u8>)
    ensures
        match r {
            Some(v) => char_val(c) == Some(v as int),
            None => char_val(c) is None,
        },
{
    if c == '0' {
        Some(0)
    } else if c == '1' {
        Some(1)
    } else if c == '2' {
        Some(2)
    } else if c == '3' {
        Some(3)
    } else if c == '4' {
        Some(4)
    } else if c == '5' {
        Some(5)
    } else if c == '6' {
        Some(6)
    } else if c == '7' {
        Some(7)
    } else if c == '8' {
        Some(8)
    } else if c == '9' {
        Some(9)
    } else {
        None
    }
}

fn scan_octet(s: &str, i: usize) -> (r: Option<(u8, usize)>)
    requires
        i <= s@.len(),
        s@.len() <= usize::MAX - 3,
    ensures
        match r {
            Some((v, j)) => spec_scan_octet(s@, i as int) == Some((v as int, j as int)),
            None => spec_scan_octet(s@, i as int) is None,
        },
{
    let n = s.unicode_len();
    if i >= n {
        return None;
    }
    let d0 = match char_digit(s.get_char(i)) {
        Some(d) => d,
        None => { return None; },
    };
    if i + 1 < n {
        if let Some(d1) = char_digit(s.get_char(i + 1)) {
            if d0 == 0 {
                return None;
            }
            if i + 2 < n {
                if let Some(d2) = char_digit(s.get_char(i + 2)) {
                    let v: u16 = d0 as u16 * 100 + d1 as u16 * 10 + d2 as u16;
                    if v <= 255 {
                        return Some((v as u8, i + 3));
                    } else {
                        return None;
                    }
                }
            }
            return Some((d0 * 10 + d1, i + 2));
        }
    }
    Some((d0, i + 1))
}

fn scan_dot_octet(s: &str, i: usize) -> (r: Option<(u8, usize)>)
    requires
        i <= s@.len(),
        s@.len() <= usize::MAX - 3,
    ensures
        match r {
            Some((v, j)) => spec_scan_dot_octet(s@, i as int) == Some((v as int, j as int)),
            None => spec_scan_dot_octet(s@, i as int) is None,
        },
{
    let n = s.unicode_len();
    if i < n && s.get_char(i) == '.' {
        scan_octet(s, i + 1)
    } else {
        None
    }
}

/// Parses a dotted-decimal address, accepting exactly the canonical texts:
/// four octets, one to three digits each, no leading zeros, single dots,
/// nothing else in the input.
pub fn parse_ipv4(s: &str) -> (r: Option<Ipv4>)
    requires
        s@.len() <= usize::MAX - 3,
    ensures
        r == spec_parse_ipv4(s@),
{
    let n = s.unicode_len();
    let (v0, i0) = match scan_octet(s, 0) {
        Some(p) => p,
        None => { return None; },
    };
    let (v1, i1) = match scan_dot_octet(s, i0) {
        Some(p) => p,
        None => { return None; },
    };
    let (v2, i2) = match scan_dot_octet(s, i1) {
        Some(p) => p,
        None => { return None; },
    };
    let (v3, i3) = match scan_dot_octet(s, i2) {
        Some(p) => p,
        None => { return None; },
    };
    if i3 == n {
        Some(Ipv4 { a: v0, b: v1, c: v2, d: v3 })
    } else {
        None
    }
}


/// A digit's character reads back as that digit.
proof fn lemma_digit_roundtrip(d: int)
    requires
        0 <= d <= 9,
    ensures
        char_val(digit_of(d)) == Some(d),
{
}

/// A character that reads as a digit is that digit's character.
proof fn lemma_char_digit_inverse(c: char)
    requires
        char_val(c) is Some,
    ensures
        0 <= char_val(c)->Some_0 <= 9,
        digit_of(char_val(c)->Some_0) == c,
{
}

/// What a scanned octet covers: a value that fits in an octet, whose
/// shortest decimal form is exactly the characters scanned.
pub proof fn lemma_scan_octet_sound(s: Seq<char>, i: int, v: int, j: int)
    requires
        spec_scan_octet(s, i) == Some((v, j)),
    ensures
        0 <= v <= 255,
        i < j <= s.len(),
        j - i == octet_chars(v).len(),
        s.subrange(i, j) =~= octet_chars(v),
{
    let d0 = char_val(s[i])->Some_0;
    lemma_char_digit_inverse(s[i]);
    if i + 1 < s.len() && char_val(s[i + 1]) is Some {
        let d1 = char_val(s[i + 1])->Some_0;
        lemma_char_digit_inverse(s[i + 1]);
        if i + 2 < s.len() && char_val(s[i + 2]) is Some {
            let d2 = char_val(s[i + 2])->Some_0;
            lemma_char_digit_inverse(s[i + 2]);
            assert(v == d0 * 100 + d1 * 10 + d2 && 1 <= d0);
            assert(v / 100 == d0 && v / 10 == d0 * 10 + d1 && (v / 10) % 10 == d1 && v % 10
                == d2);
            assert(s.subrange(i, j) =~= octet_chars(v));
        } else {
            assert(v == d0 * 10 + d1 && 1 <= d0);
            assert(v / 10 == d0 && v % 10 == d1);
            assert(s.subrange(i, j) =~= octet_chars(v));
        }
    } else {
        assert(v == d0 && j == i + 1);
        assert(s.subrange(i, j) =~= octet_chars(v));
    }
}

/// Where an octet's shortest decimal form lies in the text, followed by no
/// further digit, the scan finds exactly that octet.
pub proof fn lemma_scan_octet_complete(s: Seq<char>, i: int, v: int)
    requires
        0 <= v <= 255,
        0 <= i,
        i + octet_chars(v).len() <= s.len(),
        s.subrange(i, i + octet_chars(v).len()) =~= octet_chars(v),
        i + octet_chars(v).len() == s.len() || char_val(s[i + octet_chars(v).len()]) is None,
    ensures
        spec_scan_octet(s, i) == Some((v, i + octet_chars(v).len())),
{
    let l = octet_chars(v).len() as int;
    if v < 10 {
        assert(s[i] == octet_chars(v)[0]);
        lemma_digit_roundtrip(v);
        assert(char_val(s[i]) == Some(v));
    } else if v < 100 {
        assert(s[i] == octet_chars(v)[0] && s[i + 1] == octet_chars(v)[1]);
        lemma_digit_roundtrip(v / 10);
        lemma_digit_roundtrip(v % 10);
        assert(char_val(s[i]) == Some(v / 10) && char_val(s[i + 1]) == Some(v % 10));
        assert(v / 10 >= 1);
        assert((v / 10) * 10 + v % 10 == v);
    } else {
        assert(s[i] == octet_chars(v)[0] && s[i + 1] == octet_chars(v)[1] && s[i + 2]
            == octet_chars(v)[2]);
        lemma_digit_roundtrip(v / 100);
        lemma_digit_roundtrip((v / 10) % 10);
        lemma_digit_roundtrip(v % 10);
        assert(char_val(s[i]) == Some(v / 100) && char_val(s[i + 1]) == Some((v / 10) % 10)
            && char_val(s[i + 2]) == Some(v % 10));
        assert(v / 100 >= 1);
        assert((v / 100) * 100 + ((v / 10) % 10) * 10 + v % 10 == v);
    }
}

/// Soundness of the parser: a text it accepts is exactly the canonical
/// dotted-decimal text of the address it returns.
pub proof fn lemma_parse_sound(s: Seq<char>)
    requires
        spec_parse_ipv4(s) is Some,
    ensures
        s == ipv4_chars(spec_parse_ipv4(s)->Some_0),
{
    let (v0, i0) = spec_scan_octet(s, 0)->Some_0;
    let (v1, i1) = spec_scan_dot_octet(s, i0)->Some_0;
    let (v2, i2) = spec_scan_dot_octet(s, i1)->Some_0;
    let (v3, i3) = spec_scan_dot_octet(s, i2)->Some_0;
    lemma_scan_octet_sound(s, 0, v0, i0);
    lemma_scan_octet_sound(s, i0 + 1, v1, i1);
    lemma_scan_octet_sound(s, i1 + 1, v2, i2);
    lemma_scan_octet_sound(s, i2 + 1, v3, i3);
    let x = spec_parse_ipv4(s)->Some_0;
    assert(x.a as int == v0 && x.b as int == v1 && x.c as int == v2 && x.d as int == v3);
    assert(s[i0] == '.' && s[i1] == '.' && s[i2] == '.');
    let t = ipv4_chars(x);
    assert(t.len() == s.len());
    assert forall|k: int| 0 <= k < s.len() implies s[k] == t[k] by {
        if k < i0 {
            assert(s[k] == s.subrange(0, i0)[k]);
        } else if i0 < k < i1 {
            assert(s[k] == s.subrange(i0 + 1, i1)[k - i0 - 1]);
        } else if i1 < k < i2 {
            assert(s[k] == s.subrange(i1 + 1, i2)[k - i1 - 1]);
        } else if i2 < k < i3 {
            assert(s[k] == s.subrange(i2 + 1, i3)[k - i2 - 1]);
        }
    }
    assert(s =~= t);
}

/// Completeness of the parser: the canonical dotted-decimal text of every
/// address parses back to that address.
pub proof fn lemma_parse_complete(x: Ipv4)
    ensures
        spec_parse_ipv4(ipv4_chars(x)) == Some(x),
{
    let t = ipv4_chars(x);
    let l0 = octet_chars(x.a as int).len() as int;
    let l1 = octet_chars(x.b as int).len() as int;
    let l2 = octet_chars(x.c as int).len() as int;
    let l3 = octet_chars(x.d as int).len() as int;
    let p1 = l0 + 1;
    let p2 = p1 + l1 + 1;
    let p3 = p2 + l2 + 1;
    assert(t.len() == l0 + l1 + l2 + l3 + 3);
    assert(t.subrange(0, l0) =~= octet_chars(x.a as int));
    assert(t[l0] == '.');
    assert(t.subrange(p1, p1 + l1) =~= octet_chars(x.b as int));
    assert(t[p1 + l1] == '.');
    assert(t.subrange(p2, p2 + l2) =~= octet_chars(x.c as int));
    assert(t[p2 + l2] == '.');
    assert(t.subrange(p3, p3 + l3) =~= octet_chars(x.d as int));
    assert(char_val('.') is None);
    lemma_scan_octet_complete(t, 0, x.a as int);
    lemma_scan_octet_complete(t, p1, x.b as int);
    lemma_scan_octet_complete(t, p2, x.c as int);
    lemma_scan_octet_complete(t, p3, x.d as int);
    assert(spec_scan_octet(t, 0) == Some((x.a as int, l0)));
    assert(spec_scan_dot_octet(t, l0) == Some((x.b as int, p1 + l1)));
    assert(spec_scan_dot_octet(t, p1 + l1) == Some((x.c as int, p2 + l2)));
    assert(spec_scan_dot_octet(t, p2 + l2) == Some((x.d as int, p3 + l3)));
    assert(p3 + l3 == t.len());
}

/// The parser and the canonical text agree exactly: a text denotes an
/// address if and only if it is that address's dotted-decimal form.
pub proof fn lemma_parse_exact(s: Seq<char>, x: Ipv4)
    ensures
        spec_parse_ipv4(s) == Some(x) <==> s == ipv4_chars(x),
{
    if spec_parse_ipv4(s) == Some(x) {
        lemma_parse_sound(s);
    }
    if s == ipv4_chars(x) {
        lemma_parse_complete(x);
    }
}

} // verus!


