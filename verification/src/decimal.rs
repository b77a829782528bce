//! Decimal text: trimming white space, reading integers the way `str::parse`
//! reads them, and writing them the way `to_string` writes them. The state
//! files of the relay hold a process id and a port in this form.

use vstd::prelude::*;
use vstd::string::StrSliceExecFns;
use vstd::string::StringExecFns;

verus! {

/// Unicode's `White_Space` property: the characters `char::is_whitespace` accepts.
pub open spec fn is_white_space(c: char) -> bool {
    let u = c as int;
    ||| (0x9 <= u && u <= 0xd)
    ||| u == 0x20
    ||| u == 0x85
    ||| u == 0xa0
    ||| u == 0x1680
    ||| (0x2000 <= u && u <= 0x200a)
    ||| u == 0x2028
    ||| u == 0x2029
    ||| u == 0x202f
    ||| u == 0x205f
    ||| u == 0x3000
}

/// `s` without its leading white space.
pub open spec fn trim_start(s: Seq<char>) -> Seq<char>
    decreases s.len(),
{
    if s.len() > 0 && is_white_space(s[0]) {
        trim_start(s.drop_first())
    } else {
        s
    }
}

/// `s` without its trailing white space.
pub open spec fn trim_end(s: Seq<char>) -> Seq<char>
    decreases s.len(),
{
    if s.len() > 0 && is_white_space(s.last()) {
        trim_end(s.drop_last())
    } else {
        s
    }
}

/// `s` without leading and trailing white space (what `str::trim` gives).
pub open spec fn trimmed(s: Seq<char>) -> Seq<char> {
    trim_end(trim_start(s))
}

/// An ASCII decimal digit.
pub open spec fn is_digit(c: char) -> bool {
    '0' as int <= c as int && c as int <= '9' as int
}

pub open spec fn all_digits(s: Seq<char>) -> bool {
    forall|i: int| 0 <= i < s.len() ==> #[trigger] is_digit(s[i])
}

pub open spec fn digit_value(c: char) -> int {
    c as int - '0' as int
}

/// The number that the digits `s` write in base ten.
pub open spec fn decimal_value(s: Seq<char>) -> int
    decreases s.len(),
{
    if s.len() == 0 {
        0
    } else {
        decimal_value(s.drop_last()) * 10 + digit_value(s.last())
    }
}

/// The digits of an unsigned number, after an optional leading `+`.
pub open spec fn unsigned_digits(s: Seq<char>) -> Seq<char> {
    if s.len() > 0 && s[0] == '+' {
        s.drop_first()
    } else {
        s
    }
}

/// What `str::parse::<u16>` gives for `s`: an optional `+`, then one or more
/// ASCII digits whose value fits in a `u16`.
pub open spec fn parse_u16_spec(s: Seq<char>) -> Option<u16> {
    let d = unsigned_digits(s);
    if d.len() > 0 && all_digits(d) && decimal_value(d) <= u16::MAX {
        Some(decimal_value(d) as u16)
    } else {
        None
    }
}

/// Whether `s` starts with a minus sign.
pub open spec fn negative_sign(s: Seq<char>) -> bool {
    s.len() > 0 && s[0] == '-'
}

/// The digits of a signed number, after an optional leading `+` or `-`.
pub open spec fn signed_digits(s: Seq<char>) -> Seq<char> {
    if s.len() > 0 && (s[0] == '+' || s[0] == '-') {
        s.drop_first()
    } else {
        s
    }
}

/// What `str::parse::<i32>` gives for `s`: an optional sign, then one or more
/// ASCII digits whose signed value fits in an `i32`.
pub open spec fn parse_i32_spec(s: Seq<char>) -> Option<i32> {
    let d = signed_digits(s);
    let v: int = if negative_sign(s) { -decimal_value(d) } else { decimal_value(d) };
    if d.len() > 0 && all_digits(d) && i32::MIN <= v && v <= i32::MAX {
        Some(v as i32)
    } else {
        None
    }
}

/// The digit character for `d` in `0..10`.
pub open spec fn digit_char(d: int) -> char {
    if d == 0 {
        '0'
    } else if d == 1 {
        '1'
    } else if d == 2 {
        '2'
    } else if d == 3 {
        '3'
    } else if d == 4 {
        '4'
    } else if d == 5 {
        '5'
    } else if d == 6 {
        '6'
    } else if d == 7 {
        '7'
    } else if d == 8 {
        '8'
    } else {
        '9'
    }
}

/// The shortest base-ten writing of `n` (what `to_string` gives for an unsigned number).
pub open spec fn decimal_string(n: nat) -> Seq<char>
    decreases n,
{
    if n < 10 {
        seq![digit_char(n as int)]
    } else {
        decimal_string(n / 10).push(digit_char((n % 10) as int))
    }
}

/// What `to_string` gives for a signed number.
pub open spec fn signed_decimal_string(n: int) -> Seq<char> {
    if n < 0 {
        seq!['-'] + decimal_string((-n) as nat)
    } else {
        decimal_string(n as nat)
    }
}

proof fn lemma_decimal_value_prefix(d: Seq<char>, j: int)
    requires
        all_digits(d),
        0 <= j <= d.len(),
    ensures
        0 <= decimal_value(d.take(j)) <= decimal_value(d),
    decreases d.len(),
{
    if j == d.len() {
        assert(d.take(j) =~= d);
        lemma_decimal_value_nonneg(d);
    } else {
        let p = d.drop_last();
        assert(all_digits(p)) by {
            assert forall|i: int| 0 <= i < p.len() implies #[trigger] is_digit(p[i]) by {
                assert(is_digit(d[i]));
            }
        }
        lemma_decimal_value_prefix(p, j);
        assert(p.take(j) =~= d.take(j));
        assert(is_digit(d[d.len() - 1]));
        lemma_decimal_value_nonneg(p);
    }
}

proof fn lemma_decimal_value_nonneg(d: Seq<char>)
    requires
        all_digits(d),
    ensures
        decimal_value(d) >= 0,
    decreases d.len(),
{
    if d.len() > 0 {
        let p = d.drop_last();
        assert(all_digits(p)) by {
            assert forall|i: int| 0 <= i < p.len() implies #[trigger] is_digit(p[i]) by {
                assert(is_digit(d[i]));
            }
        }
        lemma_decimal_value_nonneg(p);
        assert(is_digit(d[d.len() - 1]));
    }
}

/// Digit characters read back as the digit they write.
proof fn lemma_digit_char(d: int)
    requires
        0 <= d < 10,
    ensures
        is_digit(digit_char(d)),
        digit_value(digit_char(d)) == d,
        !is_white_space(digit_char(d)),
        digit_char(d) != '+',
        digit_char(d) != '-',
{
}

/// The writing of `n` is a non-empty run of digits that reads back as `n`.
pub proof fn lemma_decimal_string(n: nat)
    ensures
        decimal_string(n).len() > 0,
        all_digits(decimal_string(n)),
        decimal_value(decimal_string(n)) == n,
        !is_white_space(decimal_string(n)[0]),
        !is_white_space(decimal_string(n).last()),
        decimal_string(n)[0] != '+',
        decimal_string(n)[0] != '-',
    decreases n,
{
    if n < 10 {
        lemma_digit_char(n as int);
        let s = decimal_string(n);
        assert(s.drop_last() =~= Seq::<char>::empty());
        assert(decimal_value(s) == decimal_value(s.drop_last()) * 10 + digit_value(s.last()));
    } else {
        lemma_decimal_string(n / 10);
        lemma_digit_char((n % 10) as int);
        let s = decimal_string(n);
        let p = decimal_string(n / 10);
        assert(s.drop_last() =~= p);
        assert(s[0] == p[0]);
        assert(s.last() == digit_char((n % 10) as int));
        assert(decimal_value(s) == decimal_value(p) * 10 + digit_value(s.last()));
        assert((n / 10) * 10 + n % 10 == n) by (nonlinear_arith);
        assert(all_digits(s)) by {
            assert forall|i: int| 0 <= i < s.len() implies #[trigger] is_digit(s[i]) by {
                if i < p.len() {
                    assert(is_digit(p[i]));
                }
            }
        }
    }
}

/// A run that neither starts nor ends with white space is its own trimming.
proof fn lemma_trimmed_unchanged(s: Seq<char>)
    requires
        s.len() > 0,
        !is_white_space(s[0]),
        !is_white_space(s.last()),
    ensures
        trimmed(s) == s,
{
    assert(trim_start(s) == s);
    assert(trim_end(s) == s);
}

/// Whether `c` is white space; see `is_white_space`.
pub fn is_white_space_char(c: char) -> (r: bool)
    ensures
        r == is_white_space(c),
{
    let u: u32 = c as u32;
    (0x9 <= u && u <= 0xd) || u == 0x20 || u == 0x85 || u == 0xa0 || u == 0x1680 || (0x2000 <= u
        && u <= 0x200a) || u == 0x2028 || u == 0x2029 || u == 0x202f || u == 0x205f || u == 0x3000
}

/// `s` without leading and trailing white space, as `str::trim` gives it.
pub fn trim_white_space(s: &str) -> (r: &str)
    ensures
        r@ == trimmed(s@),
{
    let n = s.unicode_len();
    let mut a: usize = 0;
    assert(s@.skip(0) =~= s@);
    while a < n && is_white_space_char(s.get_char(a))
        invariant
            a <= n,
            n == s@.len(),
            trim_start(s@) == trim_start(s@.skip(a as int)),
        decreases n - a,
    {
        assert(s@.skip(a as int).drop_first() =~= s@.skip(a + 1));
        a = a + 1;
    }
    let ghost front = s@.skip(a as int);
    assert(trim_start(s@) == front) by {
        if a < n {
            assert(front[0] == s@[a as int]);
        }
    }
    let mut b: usize = n;
    assert(front =~= s@.subrange(a as int, b as int));
    while b > a && is_white_space_char(s.get_char(b - 1))
        invariant
            a <= b <= n,
            n == s@.len(),
            front == s@.skip(a as int),
            trim_end(front) == trim_end(s@.subrange(a as int, b as int)),
        decreases b - a,
    {
        assert(s@.subrange(a as int, b as int).drop_last() =~= s@.subrange(a as int, b - 1));
        b = b - 1;
    }
    let r = s.substring_char(a, b);
    proof {
        let t = s@.subrange(a as int, b as int);
        if b > a {
            assert(t.last() == s@[b - 1]);
        }
        assert(trim_end(t) == t);
    }
    r
}

/// The value of the digits of `s` from `start` on, where they are all ASCII
/// digits, there is at least one, and the value is at most `limit`.
fn parse_digits(s: &str, start: usize, limit: u64) -> (r: Option<u64>)
    requires
        start <= s@.len(),
        limit <= u32::MAX,
    ensures
        ({
            let d = s@.skip(start as int);
            r == (if d.len() > 0 && all_digits(d) && decimal_value(d) <= limit {
                Some(decimal_value(d) as u64)
            } else {
                None
            })
        }),
        r matches Some(v) ==> v <= limit,
{
    let n = s.unicode_len();
    let ghost d = s@.skip(start as int);
    if start >= n {
        return None;
    }
    let mut i: usize = start;
    let mut acc: u64 = 0;
    assert(s@.subrange(start as int, start as int) =~= Seq::<char>::empty());
    while i < n
        invariant
            start <= i <= n,
            n == s@.len(),
            limit <= u32::MAX,
            d == s@.skip(start as int),
            all_digits(s@.subrange(start as int, i as int)),
            acc == decimal_value(s@.subrange(start as int, i as int)),
            acc <= limit,
        decreases n - i,
    {
        let c = s.get_char(i);
        let u: u32 = c as u32;
        assert(d[i - start] == c);
        if u < 48 || u > 57 {
            assert(!is_digit(d[i - start]));
            return None;
        }
        let next: u64 = acc * 10 + (u - 48) as u64;
        let ghost q = s@.subrange(start as int, i + 1);
        assert(q.drop_last() =~= s@.subrange(start as int, i as int));
        assert(all_digits(q)) by {
            assert forall|k: int| 0 <= k < q.len() implies #[trigger] is_digit(q[k]) by {
                if k < q.len() - 1 {
                    assert(is_digit(s@.subrange(start as int, i as int)[k]));
                }
            }
        }
        assert(next == decimal_value(q));
        if next > limit {
            proof {
                if all_digits(d) {
                    assert(d.take(i + 1 - start) =~= q);
                    lemma_decimal_value_prefix(d, i + 1 - start);
                }
            }
            return None;
        }
        acc = next;
        i = i + 1;
    }
    assert(s@.subrange(start as int, n as int) =~= d);
    Some(acc)
}

/// Reads `s` as `str::parse::<u16>` does.
pub fn parse_u16(s: &str) -> (r: Option<u16>)
    ensures
        r == parse_u16_spec(s@),
{
    let n = s.unicode_len();
    let mut start: usize = 0;
    if n > 0 && s.get_char(0) as u32 == 43 {
        start = 1;
    }
    assert(unsigned_digits(s@) =~= s@.skip(start as int));
    match parse_digits(s, start, 65535) {
        Some(v) => {
            proof {
                lemma_decimal_value_nonneg(unsigned_digits(s@));
            }
            Some(v as u16)
        },
        None => None,
    }
}

/// Reads `s` as `str::parse::<i32>` does.
pub fn parse_i32(s: &str) -> (r: Option<i32>)
    ensures
        r == parse_i32_spec(s@),
{
    let n = s.unicode_len();
    let mut start: usize = 0;
    let mut negative: bool = false;
    if n > 0 {
        let c: u32 = s.get_char(0) as u32;
        if c == 43 {
            start = 1;
        } else if c == 45 {
            start = 1;
            negative = true;
        }
    }
    assert(signed_digits(s@) =~= s@.skip(start as int));
    assert(negative == negative_sign(s@));
    let limit: u64 = if negative {
        2147483648
    } else {
        2147483647
    };
    match parse_digits(s, start, limit) {
        Some(v) => {
            proof {
                lemma_decimal_value_nonneg(signed_digits(s@));
            }
            if negative {
                let w: i64 = 0 - (v as i64);
                Some(w as i32)
            } else {
                Some(v as i32)
            }
        },
        None => {
            proof {
                let d = signed_digits(s@);
                if d.len() > 0 && all_digits(d) {
                    lemma_decimal_value_nonneg(d);
                }
            }
            None
        },
    }
}

/// Reads a process id from the text of a state file: white space around it
/// is ignored, as `content.trim().parse::<i32>()` ignores it.
pub fn parse_pid_text(content: &str) -> (r: Option<i32>)
    ensures
        r == parse_i32_spec(trimmed(content@)),
{
    parse_i32(trim_white_space(content))
}

/// Reads a port from the text of a state file, as `content.trim().parse::<u16>()` reads it.
pub fn parse_port_text(content: &str) -> (r: Option<u16>)
    ensures
        r == parse_u16_spec(trimmed(content@)),
{
    parse_u16(trim_white_space(content))
}

fn digit_str(d: u64) -> (s: &'static str)
    requires
        d < 10,
    ensures
        s@ == seq![digit_char(d as int)],
{
    if d == 0 {
        proof {
            reveal_strlit("0");
        }
        "0"
    } else if d == 1 {
        proof {
            reveal_strlit("1");
        }
        "1"
    } else if d == 2 {
        proof {
            reveal_strlit("2");
        }
        "2"
    } else if d == 3 {
        proof {
            reveal_strlit("3");
        }
        "3"
    } else if d == 4 {
        proof {
            reveal_strlit("4");
        }
        "4"
    } else if d == 5 {
        proof {
            reveal_strlit("5");
        }
        "5"
    } else if d == 6 {
        proof {
            reveal_strlit("6");
        }
        "6"
    } else if d == 7 {
        proof {
            reveal_strlit("7");
        }
        "7"
    } else if d == 8 {
        proof {
            reveal_strlit("8");
        }
        "8"
    } else {
        proof {
            reveal_strlit("9");
        }
        "9"
    }
}

fn push_decimal(out: &mut String, n: u64)
    ensures
        final(out)@ == old(out)@ + decimal_string(n as nat),
    decreases n,
{
    if n >= 10 {
        push_decimal(out, n / 10);
    }
    out.append(digit_str(n % 10));
    proof {
        if n >= 10 {
            assert(decimal_string(n as nat) == decimal_string((n / 10) as nat).push(
                digit_char((n % 10) as int),
            ));
        }
    }
}

/// Writes `n` in base ten, as `to_string` does.
pub fn format_u16(n: u16) -> (r: String)
    ensures
        r@ == decimal_string(n as nat),
{
    let mut out = String::new();
    push_decimal(&mut out, n as u64);
    out
}

/// Writes `n` in base ten with a leading `-` when negative, as `to_string` does.
pub fn format_i32(n: i32) -> (r: String)
    ensures
        r@ == signed_decimal_string(n as int),
{
    let mut out = String::new();
    if n < 0 {
        proof {
            reveal_strlit("-");
        }
        out.append("-");
        let m: i64 = 0 - (n as i64);
        push_decimal(&mut out, m as u64);
    } else {
        push_decimal(&mut out, n as u64);
    }
    out
}

/// A port written to a state file reads back as the same port.
pub proof fn lemma_port_text_round_trip(port: u16)
    ensures
        parse_u16_spec(trimmed(decimal_string(port as nat))) == Some(port),
{
    let s = decimal_string(port as nat);
    lemma_decimal_string(port as nat);
    lemma_trimmed_unchanged(s);
    assert(unsigned_digits(s) == s);
}

/// A process id written to a state file reads back as the same process id.
pub proof fn lemma_pid_text_round_trip(pid: i32)
    ensures
        parse_i32_spec(trimmed(signed_decimal_string(pid as int))) == Some(pid),
{
    let s = signed_decimal_string(pid as int);
    if pid < 0 {
        let m: nat = (-pid) as nat;
        let t = decimal_string(m);
        lemma_decimal_string(m);
        assert(s[0] == '-');
        assert(s.last() == t.last());
        lemma_trimmed_unchanged(s);
        assert(signed_digits(s) =~= t);
    } else {
        lemma_decimal_string(pid as nat);
        lemma_trimmed_unchanged(s);
        assert(signed_digits(s) == s);
    }
}

} // verus!
