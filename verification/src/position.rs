use vstd::prelude::*;
use vstd::string::StringExecFns;

verus! {

/// The character for one decimal digit.
pub open spec fn dec_digit(d: int) -> char
    recommends
        0 <= d < 10,
{
    if d == 0 {
        '0'
    } else if d == 1 {
        '1'
    } else if d == 2 {
        '2'
    } else if d == 3 {
        '3'
    } else if d == 4 {
        '4'
    } else if d == 5 {
        '5'
    } else if d == 6 {
        '6'
    } else if d == 7 {
        '7'
    } else if d == 8 {
        '8'
    } else {
        '9'
    }
}

/// Canonical decimal rendering of a natural number, most significant digit
/// first, without leading zeros.
pub open spec fn dec_str(n: nat) -> Seq<char>
    decreases n,
{
    if n < 10 {
        seq![dec_digit(n as int)]
    } else {
        dec_str(n / 10).push(dec_digit((n % 10) as int))
    }
}

/// The canonical position string of a stream record at native offset `k`.
pub open spec fn offset_position_text(k: int) -> Seq<char> {
    "offset:"@ + if k < 0 {
        seq!['-'] + dec_str((-k) as nat)
    } else {
        dec_str(k as nat)
    }
}

/// The digit characters of `ds`, reversed: the digits are collected least
/// significant first, so this is the printed order.
pub open spec fn digit_chars_rev(ds: Seq<u8>) -> Seq<char>
    decreases ds.len(),
{
    if ds.len() == 0 {
        Seq::<char>::empty()
    } else {
        seq![dec_digit(ds.last() as int)] + digit_chars_rev(ds.drop_last())
    }
}

/// The one-character string for a decimal digit.
fn digit_str(d: u8) -> (r: &'static str)
    requires
        d < 10,
    ensures
        r@ == seq![dec_digit(d as int)],
{
    proof {
        reveal_strlit("0");
        reveal_strlit("1");
        reveal_strlit("2");
        reveal_strlit("3");
        reveal_strlit("4");
        reveal_strlit("5");
        reveal_strlit("6");
        reveal_strlit("7");
        reveal_strlit("8");
        reveal_strlit("9");
    }
    if d == 0 {
        proof {
            assert("0"@ =~= seq![dec_digit(0)]);
        }
        "0"
    } else if d == 1 {
        proof {
            assert("1"@ =~= seq![dec_digit(1)]);
        }
        "1"
    } else if d == 2 {
        proof {
            assert("2"@ =~= seq![dec_digit(2)]);
        }
        "2"
    } else if d == 3 {
        proof {
            assert("3"@ =~= seq![dec_digit(3)]);
        }
        "3"
    } else if d == 4 {
        proof {
            assert("4"@ =~= seq![dec_digit(4)]);
        }
        "4"
    } else if d == 5 {
        proof {
            assert("5"@ =~= seq![dec_digit(5)]);
        }
        "5"
    } else if d == 6 {
        proof {
            assert("6"@ =~= seq![dec_digit(6)]);
        }
        "6"
    } else if d == 7 {
        proof {
            assert("7"@ =~= seq![dec_digit(7)]);
        }
        "7"
    } else if d == 8 {
        proof {
            assert("8"@ =~= seq![dec_digit(8)]);
        }
        "8"
    } else {
        proof {
            assert("9"@ =~= seq![dec_digit(9)]);
        }
        "9"
    }
}

/// Appends the canonical decimal rendering of `n` to `s`.
pub fn push_dec(s: &mut String, n: u64)
    ensures
        final(s)@ == old(s)@ + dec_str(n as nat),
{
    if n == 0 {
        s.append(digit_str(0));
        proof {
            assert(s@ =~= old(s)@ + dec_str(0));
        }
        return ;
    }
    let mut digits: Vec<u8> = Vec::new();
    let mut m: u64 = n;
    while m > 0
        invariant
            m <= n,
            n > 0,
            m > 0 ==> dec_str(n as nat) == dec_str(m as nat) + digit_chars_rev(digits@),
            m == 0 ==> dec_str(n as nat) == digit_chars_rev(digits@),
            forall|j: int| 0 <= j < digits@.len() ==> digits@[j] < 10,
        decreases m,
    {
        let ghost ds0 = digits@;
        let ghost m0 = m as nat;
        let d: u8 = (m % 10) as u8;
        digits.push(d);
        m = m / 10;
        proof {
            assert(digits@.last() == d);
            assert(digits@.drop_last() =~= ds0);
            assert(digit_chars_rev(digits@) =~= seq![dec_digit(d as int)] + digit_chars_rev(ds0));
            if m0 >= 10 {
                assert(dec_str(m0) == dec_str(m0 / 10).push(dec_digit((m0 % 10) as int)));
                assert(dec_str(m as nat) + digit_chars_rev(digits@) =~= dec_str(m0)
                    + digit_chars_rev(ds0));
            } else {
                assert(dec_str(m0) =~= seq![dec_digit(m0 as int)]);
                assert(digit_chars_rev(digits@) =~= dec_str(m0) + digit_chars_rev(ds0));
            }
        }
    }
    while digits.len() > 0
        invariant
            s@ + digit_chars_rev(digits@) == old(s)@ + dec_str(n as nat),
            forall|j: int| 0 <= j < digits@.len() ==> digits@[j] < 10,
        decreases digits@.len(),
    {
        let ghost ds0 = digits@;
        let ghost s0 = s@;
        let d: u8 = digits.pop().unwrap();
        s.append(digit_str(d));
        proof {
            assert(ds0.last() == d);
            assert(ds0.drop_last() =~= digits@);
            assert(digit_chars_rev(ds0) =~= seq![dec_digit(d as int)] + digit_chars_rev(digits@));
            assert(s@ + digit_chars_rev(digits@) =~= s0 + digit_chars_rev(ds0));
        }
    }
    proof {
        assert(s@ =~= old(s)@ + dec_str(n as nat));
    }
}

/// The position string of a stream record at native offset `offset`:
/// `"offset:"` followed by the canonical decimal rendering of the offset.
pub fn offset_position(offset: i64) -> (s: String)
    ensures
        s@ == offset_position_text(offset as int),
{
    let mut s = String::from_str("offset:");
    if offset < 0 {
        proof {
            reveal_strlit("-");
        }
        s.append("-");
        let mag: u64 = if offset == i64::MIN {
            9223372036854775808u64
        } else {
            (-offset) as u64
        };
        proof {
            assert(mag as nat == (-(offset as int)) as nat);
        }
        push_dec(&mut s, mag);
        proof {
            assert("-"@ =~= seq!['-']);
            assert(s@ =~= offset_position_text(offset as int));
        }
    } else {
        push_dec(&mut s, offset as u64);
        proof {
            assert(s@ =~= offset_position_text(offset as int));
        }
    }
    s
}

/// The value of a character as a decimal digit; ten for any other character.
pub open spec fn digit_val(c: char) -> nat {
    if c == '0' {
        0
    } else if c == '1' {
        1
    } else if c == '2' {
        2
    } else if c == '3' {
        3
    } else if c == '4' {
        4
    } else if c == '5' {
        5
    } else if c == '6' {
        6
    } else if c == '7' {
        7
    } else if c == '8' {
        8
    } else if c == '9' {
        9
    } else {
        10
    }
}

/// The number a digit string denotes in base ten.
pub open spec fn dec_val(s: Seq<char>) -> nat
    decreases s.len(),
{
    if s.len() == 0 {
        0
    } else {
        10 * dec_val(s.drop_last()) + digit_val(s.last())
    }
}

/// The canonical rendering consists of digits only and denotes its own value.
proof fn lemma_dec_str_val(n: nat)
    ensures
        dec_val(dec_str(n)) == n,
        forall|j: int| 0 <= j < dec_str(n).len() ==> digit_val(#[trigger] dec_str(n)[j]) < 10,
    decreases n,
{
    if n < 10 {
        assert(dec_str(n).drop_last() =~= Seq::<char>::empty());
        assert(digit_val(dec_digit(n as int)) == n);
        assert(dec_str(n).last() == dec_digit(n as int));
        assert(dec_val(dec_str(n).drop_last()) == 0);
        assert(dec_val(dec_str(n)) == n);
    } else {
        lemma_dec_str_val(n / 10);
        let w = dec_str(n / 10);
        let c = dec_digit((n % 10) as int);
        assert(w.push(c).drop_last() =~= w);
        assert(w.push(c).last() == c);
        assert(dec_val(w.push(c)) == 10 * dec_val(w) + digit_val(c));
        assert(digit_val(c) == n % 10);
        vstd::arithmetic::div_mod::lemma_fundamental_div_mod(n as int, 10);
        assert(dec_val(dec_str(n)) == 10 * (n / 10) + n % 10);
        assert(forall|j: int| 0 <= j < w.len() ==> w.push(c)[j] == #[trigger] w[j]);
    }
}

/// A prefix of a digit string never denotes more than the whole string.
proof fn lemma_dec_val_prefix(s: Seq<char>, j: int)
    requires
        0 <= j <= s.len(),
    ensures
        dec_val(s.subrange(0, j)) <= dec_val(s),
    decreases s.len(),
{
    if j == s.len() {
        assert(s.subrange(0, j) =~= s);
    } else {
        let w = s.drop_last();
        assert(s.subrange(0, j) =~= w.subrange(0, j));
        lemma_dec_val_prefix(w, j);
    }
}

/// Taking one more character multiplies the prefix value by ten and adds the
/// new digit.
proof fn lemma_dec_val_step(s: Seq<char>, j: int)
    requires
        0 <= j < s.len(),
    ensures
        dec_val(s.subrange(0, j + 1)) == 10 * dec_val(s.subrange(0, j)) + digit_val(s[j]),
{
    assert(s.subrange(0, j + 1).drop_last() =~= s.subrange(0, j));
    assert(s.subrange(0, j + 1).last() == s[j]);
}

/// What a canonical position string looks like, piece by piece.
proof fn lemma_canonical_shape(s: Seq<char>, k: int)
    requires
        s == offset_position_text(k),
        -9223372036854775808 <= k <= 9223372036854775807,
    ensures
        s.len() >= 8,
        forall|i: int| 0 <= i < 7 ==> s[i] == "offset:"@[i],
        k >= 0 ==> digit_val(s[7]) < 10 && s.subrange(7, s.len() as int) == dec_str(k as nat)
            && dec_val(s.subrange(7, s.len() as int)) == k,
        k < 0 ==> s[7] == '-' && s.len() >= 9 && s.subrange(8, s.len() as int) == dec_str(
            (-k) as nat,
        ) && dec_val(s.subrange(8, s.len() as int)) == -k,
{
    reveal_strlit("offset:");
    if k >= 0 {
        let m = k as nat;
        assert(dec_str(m).len() >= 1);
        lemma_dec_str_val(m);
        assert(s.subrange(7, s.len() as int) =~= dec_str(m));
        assert(s[7] == dec_str(m)[0]);
    } else {
        let m = (-k) as nat;
        assert(dec_str(m).len() >= 1);
        lemma_dec_str_val(m);
        assert(s.subrange(8, s.len() as int) =~= dec_str(m));
    }
}

/// The decimal digit a character denotes, if any.
fn char_digit(c: char) -> (r: Option<u8>)
    ensures
        match r {
            Some(d) => d < 10 && digit_val(c) == d as nat && dec_digit(d as int) == c,
            None => digit_val(c) == 10,
        },
{
    if c == '0' {
        Some(0)
    } else if c == '1' {
        Some(1)
    } else if c == '2' {
        Some(2)
    } else if c == '3' {
        Some(3)
    } else if c == '4' {
        Some(4)
    } else if c == '5' {
        Some(5)
    } else if c == '6' {
        Some(6)
    } else if c == '7' {
        Some(7)
    } else if c == '8' {
        Some(8)
    } else if c == '9' {
        Some(9)
    } else {
        None
    }
}


/// Scans the offset a position string would denote. On every canonical
/// position string it recovers exactly the rendered offset; on any other
/// string its result carries no meaning and the caller filters it out.
fn scan_candidate(s: &str) -> (r: Option<i64>)
    ensures
        forall|k: i64| s@ == offset_position_text(k as int) ==> r == Some(k),
{
    let n = s.unicode_len();
    if n < 8 {
        proof {
            assert forall|k: i64| s@ != offset_position_text(k as int) by {
                if s@ == offset_position_text(k as int) {
                    lemma_canonical_shape(s@, k as int);
                }
            }
        }
        return None;
    }
    let c7 = s.get_char(7);
    let neg = c7 == '-';
    let start: usize = if neg {
        8
    } else {
        7
    };
    if n <= start {
        proof {
            assert forall|k: i64| s@ != offset_position_text(k as int) by {
                if s@ == offset_position_text(k as int) {
                    lemma_canonical_shape(s@, k as int);
                }
            }
        }
        return None;
    }
    let mut v: u64 = 0;
    let mut j: usize = start;
    while j < n
        invariant
            n == s@.len(),
            n >= 8,
            neg == (s@[7] == '-'),
            start == if neg {
                8usize
            } else {
                7usize
            },
            start < n,
            start <= j <= n,
            v as nat == dec_val(s@.subrange(start as int, j as int)),
        decreases n - j,
    {
        let c = s.get_char(j);
        match char_digit(c) {
            None => {
                proof {
                    assert forall|k: i64| s@ != offset_position_text(k as int) by {
                        if s@ == offset_position_text(k as int) {
                            lemma_canonical_shape(s@, k as int);
                            if k as int >= 0 {
                                let m = (k as int) as nat;
                                lemma_dec_str_val(m);
                                assert(digit_val(s@[j as int]) == digit_val(
                                    dec_str(m)[j as int - 7],
                                ));
                            } else {
                                let m = (-(k as int)) as nat;
                                lemma_dec_str_val(m);
                                assert(digit_val(s@[j as int]) == digit_val(
                                    dec_str(m)[j as int - 8],
                                ));
                            }
                        }
                    }
                }
                return None;
            },
            Some(d) => {
                let ghost pre = s@.subrange(start as int, j as int);
                let ghost region = s@.subrange(start as int, n as int);
                proof {
                    assert(pre =~= region.subrange(0, j - start));
                    lemma_dec_val_step(region, j - start);
                    lemma_dec_val_prefix(region, j - start + 1);
                    assert(region[j - start] == s@[j as int]);
                    assert(dec_val(region.subrange(0, j - start + 1)) == 10 * (v as nat) + (
                    d as nat));
                }
                let v10_opt = v.checked_mul(10);
                if v10_opt.is_none() {
                    proof {
                        assert forall|k: i64| s@ != offset_position_text(k as int) by {
                            if s@ == offset_position_text(k as int) {
                                lemma_canonical_shape(s@, k as int);
                                if k as int >= 0 {
                                    assert(dec_val(region) == k as int);
                                } else {
                                    assert(dec_val(region) == -(k as int));
                                }
                                assert(10 * (v as nat) <= dec_val(region));
                            }
                        }
                    }
                    return None;
                }
                let v10 = v10_opt.unwrap();
                let v2_opt = v10.checked_add(d as u64);
                if v2_opt.is_none() {
                    proof {
                        assert forall|k: i64| s@ != offset_position_text(k as int) by {
                            if s@ == offset_position_text(k as int) {
                                lemma_canonical_shape(s@, k as int);
                                if k as int >= 0 {
                                    assert(dec_val(region) == k as int);
                                } else {
                                    assert(dec_val(region) == -(k as int));
                                }
                                assert(10 * (v as nat) + (d as nat) <= dec_val(region));
                            }
                        }
                    }
                    return None;
                }
                v = v2_opt.unwrap();
                j += 1;
                proof {
                    assert(s@.subrange(start as int, j as int) =~= region.subrange(
                        0,
                        j - start,
                    ));
                }
            },
        }
    }
    proof {
        assert(s@.subrange(start as int, n as int) =~= s@.subrange(start as int, j as int));
    }
    if neg {
        if v > 9223372036854775808u64 {
            proof {
                assert forall|k: i64| s@ != offset_position_text(k as int) by {
                    if s@ == offset_position_text(k as int) {
                        lemma_canonical_shape(s@, k as int);
                    }
                }
            }
            None
        } else if v == 9223372036854775808u64 {
            proof {
                assert forall|k: i64|
                    s@ == offset_position_text(k as int) implies k == i64::MIN by {
                    lemma_canonical_shape(s@, k as int);
                }
            }
            Some(i64::MIN)
        } else {
            proof {
                assert forall|k: i64|
                    s@ == offset_position_text(k as int) implies k == -(v as i64) by {
                    lemma_canonical_shape(s@, k as int);
                }
            }
            Some(-(v as i64))
        }
    } else {
        if v > 9223372036854775807u64 {
            proof {
                assert forall|k: i64| s@ != offset_position_text(k as int) by {
                    if s@ == offset_position_text(k as int) {
                        lemma_canonical_shape(s@, k as int);
                    }
                }
            }
            None
        } else {
            proof {
                assert forall|k: i64|
                    s@ == offset_position_text(k as int) implies k == v as i64 by {
                    lemma_canonical_shape(s@, k as int);
                }
            }
            Some(v as i64)
        }
    }
}

/// Reads an offset back out of its canonical position string: the exact
/// inverse of `offset_position`. Any string that is not the canonical
/// rendering of some offset is rejected.
pub fn parse_offset_position(s: &str) -> (r: Option<i64>)
    ensures
        r matches Some(k) ==> s@ == offset_position_text(k as int),
        r matches None ==> forall|k: i64| s@ != offset_position_text(k as int),
{
    match scan_candidate(s) {
        Some(k) => {
            let rendered = offset_position(k);
            if crate::strutil::str_equal(s, rendered.as_str()) {
                Some(k)
            } else {
                None
            }
        },
        None => None,
    }
}

} // verus!
