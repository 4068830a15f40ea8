use vstd::prelude::*;
use vstd::string::*;

verus! {

/// `String::push` of the standard library: the character is appended at the
/// end and the rest of the string stays as it was.
#[verifier::external_body]
pub(crate) fn push_char(s: &mut String, c: char)
    ensures
        final(s)@ == old(s)@.push(c),
{
    s.push(c);
}

/// The character that shows the digit `d`.
pub open spec fn digit_char(d: nat) -> char
    recommends
        d < 10,
{
    ((48 + d) as u8) as char
}

/// Decimal notation of `n`, without sign or leading zeros.
pub open spec fn decimal(n: nat) -> Seq<char>
    decreases n,
{
    if n < 10 {
        seq![digit_char(n)]
    } else {
        decimal(n / 10).push(digit_char(n % 10))
    }
}

/// Whether a character is a decimal digit.
pub open spec fn is_digit(c: char) -> bool {
    '0' <= c && c <= '9'
}

/// The number that a digit shows.
pub open spec fn digit_value(c: char) -> nat
    recommends
        is_digit(c),
{
    (c as u32 - 48) as nat
}

/// Whether a text holds digits only.
pub open spec fn all_digits(s: Seq<char>) -> bool {
    forall|i: int| 0 <= i < s.len() ==> is_digit(#[trigger] s[i])
}

/// Value of a run of digits read as a decimal number.
pub open spec fn digits_value(s: Seq<char>) -> nat
    decreases s.len(),
{
    if s.len() == 0 {
        0
    } else {
        digits_value(s.drop_last()) * 10 + digit_value(s.last())
    }
}

/// The digits of a number once a leading sign is taken off.
pub open spec fn unsigned_part(s: Seq<char>) -> Seq<char> {
    if s.len() > 0 && (s[0] == '+' || s[0] == '-') {
        s.subrange(1, s.len() as int)
    } else {
        s
    }
}

/// What a text means as an unsigned number no larger than `max`: an optional
/// `+`, then one digit or more. Anything else means nothing.
pub open spec fn parse_unsigned(s: Seq<char>, max: nat) -> Option<nat> {
    let body = unsigned_part(s);
    if (s.len() > 0 && s[0] == '-') || body.len() == 0 || !all_digits(body) || digits_value(body)
        > max {
        None
    } else {
        Some(digits_value(body))
    }
}

/// What a text means as a signed 32-bit number: an optional `+` or `-`, then
/// one digit or more, the whole within the range of `i32`.
pub open spec fn parse_signed(s: Seq<char>) -> Option<int> {
    let body = unsigned_part(s);
    let negative = s.len() > 0 && s[0] == '-';
    let value = if negative {
        -(digits_value(body) as int)
    } else {
        digits_value(body) as int
    };
    if body.len() == 0 || !all_digits(body) || value < i32::MIN || value > i32::MAX {
        None
    } else {
        Some(value)
    }
}

/// A run of digits is worth at least as much as any of its beginnings.
pub proof fn lemma_digits_value_prefix(s: Seq<char>, i: int)
    requires
        0 <= i <= s.len(),
    ensures
        digits_value(s.subrange(0, i)) <= digits_value(s),
    decreases s.len(),
{
    if i == s.len() {
        assert(s.subrange(0, i) =~= s);
    } else {
        lemma_digits_value_prefix(s.drop_last(), i);
        assert(s.drop_last().subrange(0, i) =~= s.subrange(0, i));
    }
}

/// Reading the decimal notation of a number gives the number back.
pub proof fn lemma_decimal_round_trip(n: nat)
    ensures
        decimal(n).len() > 0,
        all_digits(decimal(n)),
        digits_value(decimal(n)) == n,
    decreases n,
{
    if n < 10 {
        let s = decimal(n);
        assert(s.len() == 1);
        assert(s.drop_last().len() == 0);
        assert(digits_value(s.drop_last()) == 0);
        assert(s.last() == digit_char(n));
    } else {
        lemma_decimal_round_trip(n / 10);
        let s = decimal(n);
        assert(s.drop_last() =~= decimal(n / 10));
        assert(s.last() == digit_char(n % 10));
    }
}

/// A number written in decimal and read again as an unsigned number is itself.
pub proof fn lemma_parse_decimal(n: nat, max: nat)
    requires
        n <= max,
    ensures
        parse_unsigned(decimal(n), max) == Some(n),
{
    lemma_decimal_round_trip(n);
    let s = decimal(n);
    assert(is_digit(s[0]));
}

/// Decimal notation of a 64-bit number.
pub fn u64_to_decimal(n: u64) -> (s: String)
    ensures
        s@ == decimal(n as nat),
    decreases n,
{
    if n < 10 {
        let mut s = String::new();
        push_char(&mut s, (48u8 + (n as u8)) as char);
        assert(s@ =~= decimal(n as nat));
        s
    } else {
        let mut s = u64_to_decimal(n / 10);
        push_char(&mut s, (48u8 + ((n % 10) as u8)) as char);
        s
    }
}

/// Decimal notation of `n`.
pub fn to_decimal(n: usize) -> (s: String)
    ensures
        s@ == decimal(n as nat),
{
    u64_to_decimal(n as u64)
}

/// Decimal notation of a signed number: `-` before a negative one.
pub open spec fn signed_decimal(n: int) -> Seq<char> {
    if n < 0 {
        seq!['-'] + decimal((-n) as nat)
    } else {
        decimal(n as nat)
    }
}

/// Decimal notation of a signed number.
pub fn to_signed_decimal(n: i32) -> (s: String)
    ensures
        s@ == signed_decimal(n as int),
{
    if n < 0 {
        let mut s = String::new();
        push_char(&mut s, '-');
        let magnitude: usize = (-(n as i64)) as usize;
        let digits = to_decimal(magnitude);
        s.append(digits.as_str());
        assert(s@ =~= signed_decimal(n as int));
        s
    } else {
        to_decimal(n as usize)
    }
}

/// Whether two texts hold the same characters.
pub fn same_text(a: &str, b: &str) -> (same: bool)
    ensures
        same == (a@ == b@),
{
    let n = a.unicode_len();
    if n != b.unicode_len() {
        return false;
    }
    let mut i: usize = 0;
    while i < n
        invariant
            i <= n,
            n == a@.len(),
            n == b@.len(),
            forall|k: int| 0 <= k < i ==> a@[k] == b@[k],
        decreases n - i,
    {
        if a.get_char(i) != b.get_char(i) {
            return false;
        }
        i += 1;
    }
    assert(a@ =~= b@);
    true
}

/// The characters of a text, one by one.
pub fn chars_of(s: &str) -> (v: Vec<char>)
    ensures
        v@ == s@,
{
    let n = s.unicode_len();
    let mut v: Vec<char> = Vec::new();
    let mut i: usize = 0;
    while i < n
        invariant
            i <= n,
            n == s@.len(),
            v@ == s@.subrange(0, i as int),
        decreases n - i,
    {
        v.push(s.get_char(i));
        assert(v@ =~= s@.subrange(0, i + 1));
        i += 1;
    }
    assert(v@ =~= s@);
    v
}

/// The text made of the characters `v[from..to]`.
pub fn text_of(v: &Vec<char>, from: usize, to: usize) -> (s: String)
    requires
        from <= to <= v.len(),
    ensures
        s@ == v@.subrange(from as int, to as int),
{
    let mut s = String::new();
    let mut i: usize = from;
    while i < to
        invariant
            from <= i <= to <= v.len(),
            s@ == v@.subrange(from as int, i as int),
        decreases to - i,
    {
        push_char(&mut s, v[i]);
        assert(s@ =~= v@.subrange(from as int, i + 1));
        i += 1;
    }
    s
}

/// Reads the digits `v[from..]` as a number no larger than `max`.
fn read_digits(v: &Vec<char>, from: usize, max: u64) -> (r: Option<u64>)
    requires
        from <= v.len(),
    ensures
        ({
            let body = v@.subrange(from as int, v.len() as int);
            r == if body.len() == 0 || !all_digits(body) || digits_value(body) > max {
                None::<u64>
            } else {
                Some(digits_value(body) as u64)
            }
        }),
{
    let ghost body = v@.subrange(from as int, v.len() as int);
    if from == v.len() {
        return None;
    }
    let mut acc: u64 = 0;
    let mut i: usize = from;
    while i < v.len()
        invariant
            from <= i <= v.len(),
            body == v@.subrange(from as int, v.len() as int),
            acc == digits_value(body.subrange(0, i - from)),
            acc <= max,
            forall|k: int| 0 <= k < i - from ==> is_digit(#[trigger] body[k]),
        decreases v.len() - i,
    {
        let c = v[i];
        assert(body[i - from] == c);
        if !('0' <= c && c <= '9') {
            return None;
        }
        let d: u64 = ((c as u32) - 48) as u64;
        let ghost next = body.subrange(0, i - from + 1);
        assert(next.drop_last() =~= body.subrange(0, i - from));
        assert(next.last() == c);
        assert(digits_value(next) == acc * 10 + d);
        if d > max || acc > (max - d) / 10 {
            proof {
                lemma_digits_value_prefix(body, i - from + 1);
                assert(acc * 10 + d > max) by (nonlinear_arith)
                    requires
                        d > max || (d <= max && acc > (max - d) / 10),
                        acc >= 0,
                ;
            }
            return None;
        }
        assert(acc * 10 + d <= max) by (nonlinear_arith)
            requires
                acc <= (max - d) / 10,
                d <= max,
        ;
        acc = acc * 10 + d;
        i += 1;
    }
    assert(body.subrange(0, i - from) =~= body);
    Some(acc)
}

/// The characters of `v[from..]` once a leading `+` is passed over, or
/// nothing where a `-` leads.
fn unsigned_start(v: &Vec<char>, from: usize) -> (start: Option<usize>)
    requires
        from <= v.len(),
    ensures
        ({
            let whole = v@.subrange(from as int, v.len() as int);
            &&& start is None <==> whole.len() > 0 && whole[0] == '-'
            &&& start is Some ==> from <= start->0 <= v.len() && unsigned_part(whole) == v@.subrange(
                start->0 as int,
                v.len() as int,
            )
        }),
{
    let ghost whole = v@.subrange(from as int, v.len() as int);
    if from < v.len() && v[from] == '-' {
        assert(whole[0] == '-');
        return None;
    }
    let start: usize = if from < v.len() && v[from] == '+' {
        from + 1
    } else {
        from
    };
    proof {
        if from < v.len() {
            assert(whole[0] == v@[from as int]);
        }
        assert(unsigned_part(whole) =~= v@.subrange(start as int, v.len() as int));
    }
    Some(start)
}

/// Reads the characters `v[from..]` as an unsigned number: an optional `+`,
/// then digits.
pub fn parse_usize_chars(v: &Vec<char>, from: usize) -> (r: Option<usize>)
    requires
        from <= v.len(),
    ensures
        r is Some <==> parse_unsigned(v@.subrange(from as int, v.len() as int), usize::MAX as nat)
            is Some,
        r is Some ==> r->0 as nat == parse_unsigned(
            v@.subrange(from as int, v.len() as int),
            usize::MAX as nat,
        )->0,
{
    match unsigned_start(v, from) {
        None => None,
        Some(start) => match read_digits(v, start, usize::MAX as u64) {
            Some(n) => Some(n as usize),
            None => None,
        },
    }
}

/// Reads a text as an unsigned 64-bit number: an optional `+`, then digits.
pub fn parse_u64(s: &str) -> (r: Option<u64>)
    ensures
        r is Some <==> parse_unsigned(s@, u64::MAX as nat) is Some,
        r is Some ==> r->0 as nat == parse_unsigned(s@, u64::MAX as nat)->0,
{
    let v = chars_of(s);
    assert(v@.subrange(0, v.len() as int) =~= s@);
    match unsigned_start(&v, 0) {
        None => None,
        Some(start) => read_digits(&v, start, u64::MAX),
    }
}

/// Reads a text as an unsigned number: an optional `+`, then digits.
pub fn parse_usize(s: &str) -> (r: Option<usize>)
    ensures
        r is Some <==> parse_unsigned(s@, usize::MAX as nat) is Some,
        r is Some ==> r->0 as nat == parse_unsigned(s@, usize::MAX as nat)->0,
{
    let v = chars_of(s);
    assert(v@.subrange(0, v.len() as int) =~= s@);
    parse_usize_chars(&v, 0)
}

/// Reads a text as a signed 32-bit number: an optional sign, then digits.
pub fn parse_i32(s: &str) -> (r: Option<i32>)
    ensures
        r is Some <==> parse_signed(s@) is Some,
        r is Some ==> r->0 as int == parse_signed(s@)->0,
{
    let v = chars_of(s);
    let negative = v.len() > 0 && v[0] == '-';
    let from: usize = if v.len() > 0 && (v[0] == '+' || v[0] == '-') {
        1
    } else {
        0
    };
    assert(unsigned_part(s@) =~= v@.subrange(from as int, v.len() as int));
    match read_digits(&v, from, 2147483648) {
        None => None,
        Some(m) => {
            if negative {
                Some((-(m as i64)) as i32)
            } else if m == 2147483648 {
                None
            } else {
                Some(m as i32)
            }
        },
    }
}

/// A run of `n` spaces.
pub open spec fn spaces(n: nat) -> Seq<char> {
    Seq::new(n, |i: int| ' ')
}

/// A text filled up with spaces on the right to `width` characters; a text
/// that is as long or longer stays as it is.
pub open spec fn pad_right(s: Seq<char>, width: nat) -> Seq<char> {
    if s.len() >= width {
        s
    } else {
        s + spaces((width - s.len()) as nat)
    }
}

/// Appends `text`, filled up with spaces to `width` characters, to `out`.
pub fn append_padded(out: &mut String, text: &str, width: usize)
    ensures
        final(out)@ == old(out)@ + pad_right(text@, width as nat),
{
    out.append(text);
    let n = text.unicode_len();
    let mut k: usize = n;
    while k < width
        invariant
            n == text@.len(),
            n <= k,
            k <= width || k == n,
            out@ == old(out)@ + text@ + spaces((k - n) as nat),
        decreases width - k,
    {
        push_char(out, ' ');
        assert(spaces((k + 1 - n) as nat) =~= spaces((k - n) as nat).push(' '));
        assert(out@ =~= old(out)@ + text@ + spaces((k + 1 - n) as nat));
        k += 1;
    }
    assert(out@ =~= old(out)@ + pad_right(text@, width as nat)) by {
        assert(spaces(0) =~= Seq::<char>::empty());
    }
}

/// Whether a text starts with another.
pub open spec fn starts_with(s: Seq<char>, prefix: Seq<char>) -> bool {
    prefix.len() <= s.len() && s.subrange(0, prefix.len() as int) == prefix
}

/// What follows `prefix` in a text that starts with it.
pub fn after_prefix(s: &str, prefix: &str) -> (rest: Option<String>)
    ensures
        rest is Some <==> starts_with(s@, prefix@),
        rest is Some ==> rest->0@ == s@.subrange(prefix@.len() as int, s@.len() as int),
{
    let v = chars_of(s);
    let p = chars_of(prefix);
    if p.len() > v.len() {
        return None;
    }
    let mut i: usize = 0;
    while i < p.len()
        invariant
            i <= p.len() <= v.len(),
            v@ == s@,
            p@ == prefix@,
            forall|k: int| 0 <= k < i ==> v@[k] == p@[k],
        decreases p.len() - i,
    {
        if v[i] != p[i] {
            assert(s@.subrange(0, prefix@.len() as int)[i as int] != prefix@[i as int]);
            return None;
        }
        i += 1;
    }
    assert(s@.subrange(0, prefix@.len() as int) =~= prefix@);
    Some(text_of(&v, p.len(), v.len()))
}

/// A text filled up with spaces on the left to `width` characters; a text
/// that is as long or longer stays as it is.
pub open spec fn pad_left(s: Seq<char>, width: nat) -> Seq<char> {
    if s.len() >= width {
        s
    } else {
        spaces((width - s.len()) as nat) + s
    }
}

/// Appends `text` to `out`, after the spaces that fill it up to `width`
/// characters.
pub fn append_padded_left(out: &mut String, text: &str, width: usize)
    ensures
        final(out)@ == old(out)@ + pad_left(text@, width as nat),
{
    let n = text.unicode_len();
    let mut k: usize = n;
    assert(spaces(0) =~= Seq::<char>::empty());
    assert(out@ =~= old(out)@ + spaces(0));
    while k < width
        invariant
            n == text@.len(),
            n <= k,
            k <= width || k == n,
            out@ == old(out)@ + spaces((k - n) as nat),
        decreases width - k,
    {
        push_char(out, ' ');
        assert(spaces((k + 1 - n) as nat) =~= spaces((k - n) as nat).push(' '));
        assert(out@ =~= old(out)@ + spaces((k + 1 - n) as nat));
        k += 1;
    }
    out.append(text);
    assert(out@ =~= old(out)@ + pad_left(text@, width as nat));
}

/// A line without the line feed at its end, if it has one.
pub open spec fn without_newline(s: Seq<char>) -> Seq<char> {
    if s.len() > 0 && s.last() == '\n' {
        s.drop_last()
    } else {
        s
    }
}

/// Takes the line feed at the end of a line off.
pub fn strip_newline(line: &str) -> (s: String)
    ensures
        s@ == without_newline(line@),
{
    let v = chars_of(line);
    let end: usize = if v.len() > 0 && v[v.len() - 1] == '\n' {
        v.len() - 1
    } else {
        v.len()
    };
    let s = text_of(&v, 0, end);
    assert(s@ =~= without_newline(line@));
    s
}

} // verus!
