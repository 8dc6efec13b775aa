use crate::errors::FirehoseError;
use vstd::prelude::*;
use vstd::string::StrSliceExecFns;

verus! {

/// Numeric value of one hexadecimal digit, or -1 for any other character.
pub open spec fn hex_val(c: char) -> int {
    if 48 <= c as int && c as int <= 57 {
        c as int - 48
    } else if 97 <= c as int && c as int <= 102 {
        c as int - 87
    } else if 65 <= c as int && c as int <= 70 {
        c as int - 55
    } else {
        -1
    }
}

pub open spec fn is_hex_digit(c: char) -> bool {
    hex_val(c) >= 0
}

/// Every character of `s` is a hexadecimal digit.
pub open spec fn hex_body_ok(s: Seq<char>) -> bool {
    forall|i: int| 0 <= i < s.len() ==> is_hex_digit(#[trigger] s[i])
}

/// `s` is a well-formed "0x"-prefixed hexadecimal string (of any digit count,
/// including zero digits).
pub open spec fn valid_prefix_hex(s: Seq<char>) -> bool {
    &&& s.len() >= 2
    &&& s[0] == '0'
    &&& s[1] == 'x'
    &&& hex_body_ok(s.skip(2))
}

/// Re-pad a digit sequence of odd length with one leading zero digit.
pub open spec fn pad_even(s: Seq<char>) -> Seq<char> {
    if s.len() % 2 == 1 {
        seq!['0'] + s
    } else {
        s
    }
}

/// Big-endian bytes denoted by an even-length digit sequence.
pub open spec fn bytes_of_hex(s: Seq<char>) -> Seq<u8> {
    Seq::new(s.len() / 2, |k: int| (hex_val(s[2 * k]) * 16 + hex_val(s[2 * k + 1])) as u8)
}

/// Bytes denoted by a "0x"-prefixed hexadecimal string, an odd digit count
/// read as a value whose high nibble was omitted.
pub open spec fn hex_bytes(s: Seq<char>) -> Seq<u8> {
    bytes_of_hex(pad_even(s.skip(2)))
}

fn hex_digit(c: char) -> (r: Option<u8>)
    ensures
        r matches Some(v) ==> is_hex_digit(c) && v as int == hex_val(c) && v < 16,
        r is None ==> !is_hex_digit(c),
{
    let u = c as u32;
    if 48 <= u && u <= 57 {
        Some((u - 48) as u8)
    } else if 97 <= u && u <= 102 {
        Some((u - 87) as u8)
    } else if 65 <= u && u <= 70 {
        Some((u - 55) as u8)
    } else {
        None
    }
}

/// Decode a "0x"-prefixed hexadecimal string into its raw big-endian bytes.
/// An odd digit count is treated as a high-nibble-omitted value and re-padded
/// with a leading zero digit; any other defect is `MalformedHex`.
pub fn vec_from_hex(value: &str) -> (r: Result<Vec<u8>, FirehoseError>)
    ensures
        r is Ok <==> valid_prefix_hex(value@),
        r matches Ok(b) ==> b@ == hex_bytes(value@),
        r is Err ==> r == Err::<Vec<u8>, FirehoseError>(FirehoseError::MalformedHex),
{
    let n = value.unicode_len();
    if n < 2 {
        return Err(FirehoseError::MalformedHex);
    }
    if value.get_char(0) != '0' || value.get_char(1) != 'x' {
        return Err(FirehoseError::MalformedHex);
    }
    let ghost digits = value@.skip(2);
    let ghost p = pad_even(digits);
    let ghost off: int = if (n - 2) % 2 == 1 { 1 } else { 0 };
    proof {
        assert(digits.len() == n - 2);
        assert(p.len() == n - 2 + off);
        assert(forall|i: int| 0 <= i < digits.len() ==> digits[i] == value@[i + 2]);
        assert(forall|i: int| off <= i < p.len() ==> p[i] == value@[i + 2 - off]);
    }
    let mut out: Vec<u8> = Vec::new();
    let mut pos: usize = 2;
    if (n - 2) % 2 == 1 {
        match hex_digit(value.get_char(2)) {
            Some(v) => {
                out.push(v);
                pos = 3;
                proof {
                    assert(p[0] == '0');
                    assert(hex_val('0') == 0);
                    assert(p[1] == value@[2]);
                    assert(out@[0] as int == hex_val(p[0]) * 16 + hex_val(p[1]));
                }
            },
            None => {
                proof {
                    assert(!is_hex_digit(digits[0]));
                }
                return Err(FirehoseError::MalformedHex);
            },
        }
    }
    while pos < n
        invariant
            n == value@.len(),
            n >= 2,
            2 <= pos <= n,
            digits == value@.skip(2),
            p == pad_even(digits),
            off == if (n - 2) % 2 == 1 { 1int } else { 0int },
            p.len() == n - 2 + off,
            (pos - 2 + off) % 2 == 0,
            out@.len() == (pos - 2 + off) / 2,
            forall|k: int|
                0 <= k < out@.len() ==> out@[k] as int == hex_val(p[2 * k]) * 16 + hex_val(
                    p[2 * k + 1],
                ),
            forall|j: int| 2 <= j < pos ==> is_hex_digit(#[trigger] value@[j]),
            forall|i: int| off <= i < p.len() ==> p[i] == value@[i + 2 - off],
        decreases n - pos,
    {
        let v1 = match hex_digit(value.get_char(pos)) {
            Some(v) => v,
            None => {
                proof {
                    assert(!is_hex_digit(digits[pos - 2]));
                }
                return Err(FirehoseError::MalformedHex);
            },
        };
        proof {
            assert(pos + 1 < n);
        }
        let v2 = match hex_digit(value.get_char(pos + 1)) {
            Some(v) => v,
            None => {
                proof {
                    assert(!is_hex_digit(digits[pos + 1 - 2]));
                }
                return Err(FirehoseError::MalformedHex);
            },
        };
        let ghost k = out@.len() as int;
        out.push(v1 * 16 + v2);
        proof {
            assert(2 * k == pos - 2 + off);
            assert(p[2 * k] == value@[pos as int]);
            assert(p[2 * k + 1] == value@[pos + 1]);
            assert(out@[k] as int == hex_val(p[2 * k]) * 16 + hex_val(p[2 * k + 1]));
        }
        pos = pos + 2;
    }
    proof {
        assert(hex_body_ok(digits));
        assert(valid_prefix_hex(value@));
        assert(out@.len() == p.len() / 2);
        assert(out@ =~= bytes_of_hex(p));
    }
    Ok(out)
}

/// The digit sequence of a quantity: one leading "0x" is stripped, any other
/// text is taken whole.
pub open spec fn strip_hex_prefix(s: Seq<char>) -> Seq<char> {
    if s.len() >= 2 && s[0] == '0' && s[1] == 'x' {
        s.skip(2)
    } else {
        s
    }
}

/// Unsigned value denoted by a big-endian hexadecimal digit sequence.
pub open spec fn hex_uint(s: Seq<char>) -> int
    decreases s.len(),
{
    if s.len() == 0 {
        0
    } else {
        hex_uint(s.drop_last()) * 16 + hex_val(s.last())
    }
}

/// The quantity text has at least one digit after prefix stripping, and only
/// hexadecimal digits.
pub open spec fn qty_digits_ok(s: Seq<char>) -> bool {
    strip_hex_prefix(s).len() > 0 && hex_body_ok(strip_hex_prefix(s))
}

/// The quantity text denotes a value that fits in 64 bits.
pub open spec fn valid_qty(s: Seq<char>) -> bool {
    qty_digits_ok(s) && hex_uint(strip_hex_prefix(s)) <= u64::MAX
}

pub proof fn lemma_hex_uint_nonneg(s: Seq<char>)
    requires
        hex_body_ok(s),
    ensures
        hex_uint(s) >= 0,
    decreases s.len(),
{
    if s.len() > 0 {
        assert(forall|i: int| 0 <= i < s.len() - 1 ==> s.drop_last()[i] == s[i]);
        lemma_hex_uint_nonneg(s.drop_last());
    }
}

/// Dropping trailing digits never increases the denoted value.
pub proof fn lemma_hex_uint_prefix(s: Seq<char>, i: int)
    requires
        hex_body_ok(s),
        0 <= i <= s.len(),
    ensures
        hex_uint(s.take(i)) <= hex_uint(s),
    decreases s.len() - i,
{
    if i < s.len() {
        assert(s.take(i + 1).drop_last() =~= s.take(i));
        assert(s.take(i + 1).last() == s[i]);
        assert(forall|j: int| 0 <= j < i ==> s.take(i)[j] == s[j]);
        lemma_hex_uint_nonneg(s.take(i));
        assert(hex_uint(s.take(i + 1)) == hex_uint(s.take(i)) * 16 + hex_val(s[i]));
        lemma_hex_uint_prefix(s, i + 1);
    } else {
        assert(s.take(i) =~= s);
    }
}

/// Decide whether a quantity text has a well-formed digit sequence, without
/// parsing its value.
pub fn check_qty_digits(value: &String) -> (b: bool)
    ensures
        b == qty_digits_ok(value@),
{
    let s = value.as_str();
    let n = s.unicode_len();
    let start: usize = if n >= 2 && s.get_char(0) == '0' && s.get_char(1) == 'x' {
        2
    } else {
        0
    };
    let ghost d = strip_hex_prefix(value@);
    proof {
        assert(d.len() == n - start);
        assert(forall|j: int| 0 <= j < d.len() ==> d[j] == value@[j + start]);
    }
    if n == start {
        return false;
    }
    let mut i: usize = start;
    while i < n
        invariant
            n == value@.len(),
            s@ == value@,
            start <= i <= n,
            start == 0 || start == 2,
            d == strip_hex_prefix(value@),
            d.len() == n - start,
            forall|j: int| 0 <= j < d.len() ==> d[j] == value@[j + start],
            forall|j: int| 0 <= j < i - start ==> is_hex_digit(#[trigger] d[j]),
        decreases n - i,
    {
        match hex_digit(s.get_char(i)) {
            Some(_) => {},
            None => {
                proof {
                    assert(!is_hex_digit(d[i - start]));
                }
                return false;
            },
        }
        i = i + 1;
    }
    proof {
        assert(hex_body_ok(d));
    }
    true
}

/// Parse a hexadecimal quantity (an optional "0x" prefix, then big-endian
/// digits) into an unsigned 64-bit integer. A missing or invalid digit is
/// `MalformedHex`; a value beyond 64 bits is `IntegerOverflow`.
pub fn qty2int(value: &String) -> (r: Result<u64, FirehoseError>)
    ensures
        r is Ok <==> valid_qty(value@),
        r matches Ok(v) ==> v as int == hex_uint(strip_hex_prefix(value@)),
        r == Err::<u64, FirehoseError>(FirehoseError::MalformedHex) <==> !qty_digits_ok(value@),
        r == Err::<u64, FirehoseError>(FirehoseError::IntegerOverflow) <==> qty_digits_ok(value@)
            && hex_uint(strip_hex_prefix(value@)) > u64::MAX,
{
    let s = value.as_str();
    let n = s.unicode_len();
    let start: usize = if n >= 2 && s.get_char(0) == '0' && s.get_char(1) == 'x' {
        2
    } else {
        0
    };
    let ghost d = strip_hex_prefix(value@);
    proof {
        assert(d.len() == n - start);
        assert(forall|j: int| 0 <= j < d.len() ==> d[j] == value@[j + start]);
    }
    if n == start {
        return Err(FirehoseError::MalformedHex);
    }
    let mut i: usize = start;
    while i < n
        invariant
            n == value@.len(),
            s@ == value@,
            start <= i <= n,
            start == 0 || start == 2,
            d == strip_hex_prefix(value@),
            d.len() == n - start,
            forall|j: int| 0 <= j < d.len() ==> d[j] == value@[j + start],
            forall|j: int| 0 <= j < i - start ==> is_hex_digit(#[trigger] d[j]),
        decreases n - i,
    {
        match hex_digit(s.get_char(i)) {
            Some(_) => {},
            None => {
                proof {
                    assert(!is_hex_digit(d[i - start]));
                }
                return Err(FirehoseError::MalformedHex);
            },
        }
        i = i + 1;
    }
    proof {
        assert(hex_body_ok(d));
        assert(qty_digits_ok(value@));
    }
    let mut acc: u64 = 0;
    let mut i2: usize = start;
    while i2 < n
        invariant
            n == value@.len(),
            s@ == value@,
            start <= i2 <= n,
            start == 0 || start == 2,
            d == strip_hex_prefix(value@),
            d.len() == n - start,
            hex_body_ok(d),
            forall|j: int| 0 <= j < d.len() ==> d[j] == value@[j + start],
            acc as int == hex_uint(d.take(i2 - start)),
        decreases n - i2,
    {
        let ghost k = i2 - start;
        let v = match hex_digit(s.get_char(i2)) {
            Some(v) => v,
            None => {
                proof {
                    assert(is_hex_digit(d[i2 - start]));
                    assert(false);
                }
                return Err(FirehoseError::MalformedHex);
            },
        };
        proof {
            assert(d.take(k + 1).drop_last() =~= d.take(k));
            assert(d.take(k + 1).last() == d[k]);
            assert(hex_uint(d.take(k + 1)) == hex_uint(d.take(k)) * 16 + hex_val(d[k]));
        }
        let next = match acc.checked_mul(16) {
            Some(m) => m.checked_add(v as u64),
            None => None,
        };
        match next {
            Some(a) => {
                acc = a;
            },
            None => {
                proof {
                    assert(hex_uint(d.take(k + 1)) > u64::MAX);
                    lemma_hex_uint_prefix(d, k + 1);
                }
                return Err(FirehoseError::IntegerOverflow);
            },
        }
        i2 = i2 + 1;
    }
    proof {
        assert(d.take(n - start) =~= d);
    }
    Ok(acc)
}

/// The lowercase hexadecimal digit character for a value below 16.
pub open spec fn hex_char_of(v: int) -> char {
    if v == 0 {
        '0'
    } else if v == 1 {
        '1'
    } else if v == 2 {
        '2'
    } else if v == 3 {
        '3'
    } else if v == 4 {
        '4'
    } else if v == 5 {
        '5'
    } else if v == 6 {
        '6'
    } else if v == 7 {
        '7'
    } else if v == 8 {
        '8'
    } else if v == 9 {
        '9'
    } else if v == 10 {
        'a'
    } else if v == 11 {
        'b'
    } else if v == 12 {
        'c'
    } else if v == 13 {
        'd'
    } else if v == 14 {
        'e'
    } else {
        'f'
    }
}

/// Two lowercase digits for each byte, in order.
pub open spec fn hex_str_of(b: Seq<u8>) -> Seq<char> {
    Seq::new(
        2 * b.len(),
        |i: int|
            if i % 2 == 0 {
                hex_char_of(b[i / 2] as int / 16)
            } else {
                hex_char_of(b[i / 2] as int % 16)
            },
    )
}

fn digit_str(v: u8) -> (r: &'static str)
    requires
        v < 16,
    ensures
        r@ =~= seq![hex_char_of(v as int)],
{
    proof {
        reveal_strlit("0");
        reveal_strlit("1");
        reveal_strlit("2");
        reveal_strlit("3");
        reveal_strlit("4");
        reveal_strlit("5");
        reveal_strlit("6");
        reveal_strlit("7");
        reveal_strlit("8");
        reveal_strlit("9");
        reveal_strlit("a");
        reveal_strlit("b");
        reveal_strlit("c");
        reveal_strlit("d");
        reveal_strlit("e");
        reveal_strlit("f");
    }
    match v {
        0 => "0",
        1 => "1",
        2 => "2",
        3 => "3",
        4 => "4",
        5 => "5",
        6 => "6",
        7 => "7",
        8 => "8",
        9 => "9",
        10 => "a",
        11 => "b",
        12 => "c",
        13 => "d",
        14 => "e",
        _ => "f",
    }
}

/// Encode raw bytes as a "0x"-prefixed lowercase hexadecimal string, two
/// digits for each byte.
pub fn to_prefix_hex(bytes: &Vec<u8>) -> (r: String)
    ensures
        r@ == seq!['0', 'x'] + hex_str_of(bytes@),
{
    let mut s = "0x".to_owned();
    proof {
        reveal_strlit("0x");
        assert(s@ =~= seq!['0', 'x']);
        assert(s@ =~= seq!['0', 'x'] + hex_str_of(bytes@.take(0)));
    }
    let mut i: usize = 0;
    while i < bytes.len()
        invariant
            0 <= i <= bytes@.len(),
            s@ == seq!['0', 'x'] + hex_str_of(bytes@.take(i as int)),
        decreases bytes@.len() - i,
    {
        let b = bytes[i];
        s.append(digit_str(b / 16));
        s.append(digit_str(b % 16));
        proof {
            assert(hex_str_of(bytes@.take(i + 1)) =~= hex_str_of(bytes@.take(i as int)) + seq![
                hex_char_of(b as int / 16),
                hex_char_of(b as int % 16),
            ]);
            assert(s@ =~= seq!['0', 'x'] + hex_str_of(bytes@.take(i + 1)));
        }
        i = i + 1;
    }
    proof {
        assert(bytes@.take(bytes@.len() as int) =~= bytes@);
    }
    s
}

/// Encoding then decoding hands every byte sequence back unchanged.
pub proof fn lemma_hex_round_trip(b: Seq<u8>)
    ensures
        valid_prefix_hex(seq!['0', 'x'] + hex_str_of(b)),
        hex_bytes(seq!['0', 'x'] + hex_str_of(b)) == b,
{
    let s = seq!['0', 'x'] + hex_str_of(b);
    assert forall|v: int| 0 <= v < 16 implies hex_val(hex_char_of(v)) == v && is_hex_digit(
        hex_char_of(v),
    ) by {}
    assert(s.skip(2) =~= hex_str_of(b));
    assert forall|i: int| 0 <= i < hex_str_of(b).len() implies is_hex_digit(
        #[trigger] hex_str_of(b)[i],
    ) by {
        assert(0 <= b[i / 2] as int / 16 < 16);
        assert(0 <= b[i / 2] as int % 16 < 16);
    }
    assert(pad_even(hex_str_of(b)) == hex_str_of(b));
    assert forall|k: int| 0 <= k < b.len() implies bytes_of_hex(hex_str_of(b))[k] == b[k] by {
        let h = hex_str_of(b);
        assert(h[2 * k] == hex_char_of(b[k] as int / 16));
        assert(h[2 * k + 1] == hex_char_of(b[k] as int % 16));
        assert(hex_val(h[2 * k]) == b[k] as int / 16);
        assert(hex_val(h[2 * k + 1]) == b[k] as int % 16);
        assert((b[k] as int / 16) * 16 + b[k] as int % 16 == b[k] as int);
    }
    assert(hex_bytes(s) =~= b);
}

/// The digit characters of a non-negative integer, in decimal.
pub open spec fn dec_str_of(n: nat) -> Seq<char>
    decreases n,
{
    if n < 10 {
        seq![hex_char_of(n as int)]
    } else {
        dec_str_of(n / 10) + seq![hex_char_of(n as int % 10)]
    }
}

spec fn rev_chars(v: Seq<u8>) -> Seq<char> {
    Seq::new(v.len(), |i: int| hex_char_of(v[v.len() - 1 - i] as int))
}

/// Render an unsigned 64-bit height as its decimal string, the cursor format
/// of the response stream.
pub fn u64_to_dec(n: u64) -> (r: String)
    ensures
        r@ == dec_str_of(n as nat),
{
    let mut rev: Vec<u8> = Vec::new();
    let mut m = n;
    while m >= 10
        invariant
            dec_str_of(n as nat) =~= dec_str_of(m as nat) + rev_chars(rev@),
            forall|j: int| 0 <= j < rev@.len() ==> rev@[j] < 10,
        decreases m,
    {
        let ghost old_rev = rev@;
        rev.push((m % 10) as u8);
        proof {
            assert(rev_chars(rev@) =~= seq![hex_char_of(m as int % 10)] + rev_chars(old_rev));
            assert(dec_str_of(m as nat) == dec_str_of((m / 10) as nat) + seq![
                hex_char_of(m as int % 10),
            ]);
            assert(dec_str_of(n as nat) =~= dec_str_of((m / 10) as nat) + rev_chars(rev@));
        }
        m = m / 10;
    }
    let mut s = String::new();
    s.append(digit_str(m as u8));
    proof {
        assert(s@ =~= seq![hex_char_of(m as int)]);
        assert(rev_chars(rev@).take(0) =~= Seq::<char>::empty());
        assert(s@ =~= seq![hex_char_of(m as int)] + rev_chars(rev@).take(0));
    }
    let mut j = rev.len();
    while j > 0
        invariant
            0 <= j <= rev@.len(),
            m < 10,
            forall|i: int| 0 <= i < rev@.len() ==> rev@[i] < 10,
            dec_str_of(n as nat) =~= dec_str_of(m as nat) + rev_chars(rev@),
            s@ =~= seq![hex_char_of(m as int)] + rev_chars(rev@).take(rev@.len() - j),
        decreases j,
    {
        j = j - 1;
        let ghost k = rev@.len() - j - 1;
        s.append(digit_str(rev[j]));
        proof {
            assert(rev_chars(rev@)[k] == hex_char_of(rev@[j as int] as int));
            assert(rev_chars(rev@).take(k + 1) =~= rev_chars(rev@).take(k) + seq![
                rev_chars(rev@)[k],
            ]);
            assert(s@ =~= seq![hex_char_of(m as int)] + rev_chars(rev@).take(rev@.len() - j));
        }
    }
    proof {
        assert(rev_chars(rev@).take(rev@.len() as int) =~= rev_chars(rev@));
        assert(s@ =~= dec_str_of(n as nat));
    }
    s
}

/// Numeric value of one decimal digit, or -1 for any other character.
pub open spec fn dec_val(c: char) -> int {
    if 48 <= c as int && c as int <= 57 {
        c as int - 48
    } else {
        -1
    }
}

pub open spec fn is_dec_digit(c: char) -> bool {
    dec_val(c) >= 0
}

pub open spec fn dec_body_ok(s: Seq<char>) -> bool {
    forall|i: int| 0 <= i < s.len() ==> is_dec_digit(#[trigger] s[i])
}

/// Unsigned value denoted by a decimal digit sequence.
pub open spec fn dec_uint(s: Seq<char>) -> int
    decreases s.len(),
{
    if s.len() == 0 {
        0
    } else {
        dec_uint(s.drop_last()) * 10 + dec_val(s.last())
    }
}

/// The text is a plain decimal numeral whose value fits in 64 bits.
pub open spec fn valid_dec(s: Seq<char>) -> bool {
    s.len() > 0 && dec_body_ok(s) && dec_uint(s) <= u64::MAX
}

pub proof fn lemma_dec_uint_nonneg(s: Seq<char>)
    requires
        dec_body_ok(s),
    ensures
        dec_uint(s) >= 0,
    decreases s.len(),
{
    if s.len() > 0 {
        assert(forall|i: int| 0 <= i < s.len() - 1 ==> s.drop_last()[i] == s[i]);
        lemma_dec_uint_nonneg(s.drop_last());
    }
}

pub proof fn lemma_dec_uint_prefix(s: Seq<char>, i: int)
    requires
        dec_body_ok(s),
        0 <= i <= s.len(),
    ensures
        dec_uint(s.take(i)) <= dec_uint(s),
    decreases s.len() - i,
{
    if i < s.len() {
        assert(s.take(i + 1).drop_last() =~= s.take(i));
        assert(s.take(i + 1).last() == s[i]);
        assert(forall|j: int| 0 <= j < i ==> s.take(i)[j] == s[j]);
        lemma_dec_uint_nonneg(s.take(i));
        assert(dec_uint(s.take(i + 1)) == dec_uint(s.take(i)) * 10 + dec_val(s[i]));
        lemma_dec_uint_prefix(s, i + 1);
    } else {
        assert(s.take(i) =~= s);
    }
}

fn dec_digit(c: char) -> (r: Option<u8>)
    ensures
        r matches Some(v) ==> is_dec_digit(c) && v as int == dec_val(c) && v < 10,
        r is None ==> !is_dec_digit(c),
{
    let u = c as u32;
    if 48 <= u && u <= 57 {
        Some((u - 48) as u8)
    } else {
        None
    }
}

/// Parse a decimal cursor back into a height; any text that is not a plain
/// decimal numeral fitting in 64 bits is `InvalidCursor`.
pub fn parse_dec(s: &str) -> (r: Result<u64, FirehoseError>)
    ensures
        r is Ok <==> valid_dec(s@),
        r matches Ok(v) ==> v as int == dec_uint(s@),
        r is Err ==> r == Err::<u64, FirehoseError>(FirehoseError::InvalidCursor),
{
    let n = s.unicode_len();
    if n == 0 {
        return Err(FirehoseError::InvalidCursor);
    }
    let mut acc: u64 = 0;
    let mut i: usize = 0;
    while i < n
        invariant
            n == s@.len(),
            0 <= i <= n,
            forall|j: int| 0 <= j < i ==> is_dec_digit(#[trigger] s@[j]),
            acc as int == dec_uint(s@.take(i as int)),
        decreases n - i,
    {
        let v = match dec_digit(s.get_char(i)) {
            Some(v) => v,
            None => {
                return Err(FirehoseError::InvalidCursor);
            },
        };
        proof {
            assert(s@.take(i + 1).drop_last() =~= s@.take(i as int));
            assert(s@.take(i + 1).last() == s@[i as int]);
            assert(dec_uint(s@.take(i + 1)) == dec_uint(s@.take(i as int)) * 10 + dec_val(
                s@[i as int],
            ));
        }
        let next = match acc.checked_mul(10) {
            Some(m) => m.checked_add(v as u64),
            None => None,
        };
        match next {
            Some(a) => {
                acc = a;
            },
            None => {
                proof {
                    assert(forall|j: int| 0 <= j < i + 1 ==> is_dec_digit(#[trigger] s@[j]));
                    if dec_body_ok(s@) {
                        lemma_dec_uint_prefix(s@, i + 1);
                    }
                }
                return Err(FirehoseError::InvalidCursor);
            },
        }
        i = i + 1;
    }
    proof {
        assert(s@.take(n as int) =~= s@);
    }
    Ok(acc)
}

/// The cursor representation is lossless: rendering a height in decimal and
/// parsing it back yields the same height.
pub proof fn lemma_cursor_round_trip(n: u64)
    ensures
        valid_dec(dec_str_of(n as nat)),
        dec_uint(dec_str_of(n as nat)) == n as int,
    decreases n,
{
    assert forall|v: int| 0 <= v < 10 implies dec_val(hex_char_of(v)) == v && is_dec_digit(
        hex_char_of(v),
    ) by {}
    if n < 10 {
        let s = dec_str_of(n as nat);
        assert(s.len() == 1);
        assert(s.drop_last() =~= Seq::<char>::empty());
        assert(dec_uint(Seq::<char>::empty()) == 0);
        assert(s.last() == hex_char_of(n as int));
        assert(dec_uint(s) == dec_uint(s.drop_last()) * 10 + dec_val(s.last()));
        assert(dec_uint(s) == dec_val(hex_char_of(n as int)));
    } else {
        lemma_cursor_round_trip(n / 10);
        let s = dec_str_of(n as nat);
        let p = dec_str_of((n / 10) as nat);
        assert(s == p + seq![hex_char_of(n as int % 10)]);
        assert(s.drop_last() =~= p);
        assert(s.last() == hex_char_of(n as int % 10));
        assert(dec_uint(s) == dec_uint(p) * 10 + dec_val(hex_char_of(n as int % 10)));
        assert(dec_uint(s) == (n / 10) as int * 10 + n as int % 10);
        assert forall|i: int| 0 <= i < s.len() implies is_dec_digit(#[trigger] s[i]) by {
            if i < p.len() {
                assert(s[i] == p[i]);
            }
        }
    }
}

} // verus!
