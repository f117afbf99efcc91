use vstd::prelude::*;

verus! {

/// The decimal digit characters, in order.
pub const DIGITS: &'static str = "0123456789";

/// The character of the decimal digit `d`.
pub open spec fn digit_char(d: nat) -> char {
    ((48 + d) as u32) as char
}

/// The decimal notation of `n`, without sign or leading zeros.
pub open spec fn decimal(n: nat) -> Seq<char>
    decreases n,
{
    if n < 10 {
        seq![digit_char(n)]
    } else {
        decimal(n / 10).push(digit_char(n % 10))
    }
}

fn digit_string(d: u64) -> (s: String)
    requires
        d < 10,
    ensures
        s@ == seq![digit_char(d as nat)],
{
    proof {
        reveal_strlit("0123456789");
    }
    let piece = DIGITS.substring_char(d as usize, (d + 1) as usize);
    assert(piece@ =~= seq![digit_char(d as nat)]);
    String::from_str(piece)
}

/// Writes `n` in decimal, as `format!("{}", n)` does.
pub fn decimal_string(n: u64) -> (s: String)
    ensures
        s@ == decimal(n as nat),
    decreases n,
{
    if n < 10 {
        digit_string(n)
    } else {
        let mut s = decimal_string(n / 10);
        let last = digit_string(n % 10);
        s.append(last.as_str());
        s
    }
}

} // verus!

verus! {

/// The characters of `s`, in order.
pub fn chars_of(s: &str) -> (v: Vec<char>)
    ensures
        v@ == s@,
{
    let mut v: Vec<char> = Vec::new();
    for c in it: s.chars()
        invariant
            v@ == it.seq().take(it.index() as int),
            it.seq() == s@,
    {
        v.push(c);
    }
    v
}

} // verus!

verus! {

/// The decimal notation of `i`, with a leading `-` when it is negative.
pub open spec fn signed_decimal(i: int) -> Seq<char> {
    if i < 0 {
        seq!['-'] + decimal((-i) as nat)
    } else {
        decimal(i as nat)
    }
}

/// Writes `i` in decimal, as `i.to_string()` does.
pub fn signed_decimal_string(i: i64) -> (s: String)
    ensures
        s@ == signed_decimal(i as int),
{
    if i < 0 {
        let magnitude: u64 = (-(i + 1)) as u64 + 1;
        proof {
            reveal_strlit("-");
        }
        let mut s = String::from_str("-");
        let digits = decimal_string(magnitude);
        s.append(digits.as_str());
        s
    } else {
        decimal_string(i as u64)
    }
}

/// What `format!("{:?}", o)` writes for an optional count.
pub open spec fn debug_count(o: Option<u64>) -> Seq<char> {
    match o {
        Some(n) => "Some("@ + decimal(n as nat) + ")"@,
        None => "None"@,
    }
}

/// Writes `o` as `format!("{:?}", o)` does.
pub fn debug_count_string(o: Option<u64>) -> (s: String)
    ensures
        s@ == debug_count(o),
{
    match o {
        Some(n) => {
            let mut s = String::from_str("Some(");
            let digits = decimal_string(n);
            s.append(digits.as_str());
            s.append(")");
            s
        },
        None => String::from_str("None"),
    }
}

} // verus!

verus! {

/// `c` is one of the decimal digits `0` to `9`.
pub open spec fn is_digit(c: char) -> bool {
    '0' <= c && c <= '9'
}

/// The number that a string of decimal digits stands for, read from the
/// most significant digit on.
pub open spec fn digits_value(s: Seq<char>) -> nat
    decreases s.len(),
{
    if s.len() == 0 {
        0
    } else {
        digits_value(s.drop_last()) * 10 + ((s.last() as u32) - 48) as nat
    }
}

/// `decimal(n)` is the decimal notation of `n`: one or more digits, without
/// a leading zero unless it is `0` itself, that read back as `n`.
pub proof fn law_decimal_reads_back(n: nat)
    ensures
        decimal(n).len() >= 1,
        forall|i: int| 0 <= i < decimal(n).len() ==> is_digit(#[trigger] decimal(n)[i]),
        digits_value(decimal(n)) == n,
        decimal(n).len() > 1 ==> decimal(n)[0] != '0',
        n < 10 <==> decimal(n).len() == 1,
    decreases n,
{
    if n < 10 {
        let c = digit_char(n);
        assert(c as u32 == 48 + n);
        assert(seq![c].drop_last() =~= Seq::<char>::empty());
        assert(digits_value(Seq::<char>::empty()) == 0);
        assert(digits_value(seq![c]) == digits_value(seq![c].drop_last()) * 10 + ((c as u32)
            - 48) as nat);
    } else {
        let m = n / 10;
        law_decimal_reads_back(m);
        let d = decimal(m);
        let c = digit_char(n % 10);
        assert(c as u32 == 48 + n % 10);
        assert(decimal(n) == d.push(c));
        assert(d.push(c).drop_last() =~= d);
        assert(digits_value(d.push(c)) == digits_value(d) * 10 + ((c as u32) - 48) as nat);
        assert forall|i: int| 0 <= i < decimal(n).len() implies is_digit(#[trigger] decimal(n)[i]) by {
            if i < d.len() {
                assert(decimal(n)[i] == d[i]);
            }
        }
        assert(n == m * 10 + n % 10);
        assert(decimal(n)[0] == d[0]);
        if m < 10 {
            assert(d == seq![digit_char(m)]);
            assert(digit_char(m) as u32 == 48 + m);
        }
    }
}

/// A zero written in front of a string of digits does not change what it
/// reads as.
pub proof fn law_leading_zero(s: Seq<char>)
    ensures
        digits_value(seq!['0'] + s) == digits_value(s),
    decreases s.len(),
{
    let t = seq!['0'] + s;
    if s.len() == 0 {
        assert(t.drop_last() =~= Seq::<char>::empty());
        assert(digits_value(Seq::<char>::empty()) == 0);
        assert(digits_value(t) == digits_value(t.drop_last()) * 10 + (('0' as u32) - 48) as nat);
    } else {
        let u = s.drop_last();
        assert(t.drop_last() =~= seq!['0'] + u);
        assert(t.last() == s.last());
        law_leading_zero(u);
        assert(digits_value(t) == digits_value(seq!['0'] + u) * 10 + ((s.last() as u32) - 48) as nat);
    }
}

/// `signed_decimal(i)` reads back as `i`: a `-` before the notation of `-i`
/// when `i` is negative, the notation of `i` otherwise.
pub proof fn law_signed_decimal_reads_back(i: int)
    ensures
        i < 0 ==> signed_decimal(i)[0] == '-' && digits_value(signed_decimal(i).skip(1)) == -i,
        i >= 0 ==> digits_value(signed_decimal(i)) == i && signed_decimal(i)[0] != '-',
{
    if i < 0 {
        law_decimal_reads_back((-i) as nat);
        assert(signed_decimal(i).skip(1) =~= decimal((-i) as nat));
    } else {
        law_decimal_reads_back(i as nat);
        assert(is_digit(decimal(i as nat)[0]));
    }
}

/// What `{:?}` writes for an optional count: `None`, or the count in decimal
/// inside `Some(` and `)`.
pub proof fn law_debug_count_shape(o: Option<u64>)
    ensures
        o is None ==> debug_count(o) == "None"@,
        o matches Some(n) ==> ({
            let t = debug_count(o);
            let k = "Some("@.len();
            &&& t.take(k as int) == "Some("@
            &&& t.last() == ')'
            &&& digits_value(t.subrange(k as int, t.len() - 1)) == n
        }),
{
    if let Some(n) = o {
        reveal_strlit("Some(");
        reveal_strlit(")");
        law_decimal_reads_back(n as nat);
        let t = debug_count(o);
        assert(t.take(5) =~= "Some("@);
        assert(t.subrange(5, t.len() - 1) =~= decimal(n as nat));
    }
}

} // verus!
