//! Plain-text rendering: decimal numbers, dotted-quad addresses, and the
//! JSON documents posted to the collector.

use vstd::prelude::*;
use crate::ext::push_char;

verus! {

/// The decimal digit character for one digit value.
pub open spec fn spec_digit(d: int) -> char {
    if d == 0 {
        '0'
    } else if d == 1 {
        '1'
    } else if d == 2 {
        '2'
    } else if d == 3 {
        '3'
    } else if d == 4 {
        '4'
    } else if d == 5 {
        '5'
    } else if d == 6 {
        '6'
    } else if d == 7 {
        '7'
    } else if d == 8 {
        '8'
    } else {
        '9'
    }
}

/// The decimal rendering of a non-negative integer, most significant digit
/// first, with no leading zeros (and `0` itself rendered as "0").
pub open spec fn spec_decimal(n: int) -> Seq<char>
    recommends
        n >= 0,
    decreases n,
{
    if n < 10 {
        seq![spec_digit(n)]
    } else {
        spec_decimal(n / 10).push(spec_digit(n % 10))
    }
}

fn digit_char(d: u64) -> (c: char)
    requires
        d < 10,
    ensures
        c == spec_digit(d as int),
{
    if d == 0 {
        '0'
    } else if d == 1 {
        '1'
    } else if d == 2 {
        '2'
    } else if d == 3 {
        '3'
    } else if d == 4 {
        '4'
    } else if d == 5 {
        '5'
    } else if d == 6 {
        '6'
    } else if d == 7 {
        '7'
    } else if d == 8 {
        '8'
    } else {
        '9'
    }
}

/// Renders a number in decimal.
pub fn u64_to_string(n: u64) -> (r: String)
    ensures
        r@ == spec_decimal(n as int),
{
    if n == 0 {
        let r = String::from_str("0");
        proof {
            reveal_strlit("0");
            assert(r@ =~= spec_decimal(0));
        }
        return r;
    }
    let mut digits: Vec<char> = Vec::new();
    let ghost mut acc: Seq<char> = Seq::empty();
    let mut m: u64 = n;
    while m > 0
        invariant
            m <= n,
            n > 0,
            digits@.len() == acc.len(),
            forall|j: int| 0 <= j < acc.len() ==> digits@[j] == acc[acc.len() - 1 - j],
            if m > 0 {
                spec_decimal(n as int) == spec_decimal(m as int) + acc
            } else {
                spec_decimal(n as int) == acc
            },
        decreases m,
    {
        let ghost m0 = m as int;
        let d = m % 10;
        let c = digit_char(d);
        digits.push(c);
        m = m / 10;
        proof {
            let acc0 = acc;
            acc = seq![c] + acc;
            assert(m == m0 / 10) by (nonlinear_arith)
                requires m0 > 0 && m == m0 as u64 / 10 && m0 == m0 as u64;
            assert(0 <= m0 / 10 < m0) by (nonlinear_arith)
                requires m0 > 0;
            assert(forall|j: int| 0 <= j < acc.len() ==> digits@[j] == acc[acc.len() - 1 - j]);
            if m0 < 10 {
                assert(spec_decimal(m0) == seq![spec_digit(m0)]);
                assert(d == m0);
                assert(spec_decimal(n as int) =~= acc);
            } else {
                assert(spec_decimal(m0) == spec_decimal(m0 / 10).push(spec_digit(m0 % 10)));
                assert(spec_decimal(m0 / 10) + acc =~= spec_decimal(m0) + acc0);
                assert(spec_decimal(n as int) == spec_decimal(m as int) + acc);
            }
        }
    }
    let len = digits.len();
    let mut out = String::new();
    let mut i: usize = 0;
    while i < len
        invariant
            i <= len,
            len == digits@.len(),
            digits@.len() == acc.len(),
            forall|j: int| 0 <= j < acc.len() ==> digits@[j] == acc[acc.len() - 1 - j],
            out@ =~= acc.take(i as int),
        decreases len - i,
    {
        let c = digits[len - 1 - i];
        proof {
            assert(digits@[len - 1 - i] == acc[i as int]);
            assert(acc.take(i as int).push(acc[i as int]) =~= acc.take(i + 1));
        }
        push_char(&mut out, c);
        i += 1;
    }
    proof {
        assert(acc.take(len as int) =~= acc);
    }
    out
}

/// Renders a port number in decimal.
pub fn u16_to_string(n: u16) -> (r: String)
    ensures
        r@ == spec_decimal(n as int),
{
    u64_to_string(n as u64)
}

/// Renders a syscall number in decimal.
pub fn u32_to_string(n: u32) -> (r: String)
    ensures
        r@ == spec_decimal(n as int),
{
    u64_to_string(n as u64)
}

/// The dotted-quad presentation of an IPv4 address held in network byte
/// order: the lowest-addressed octet of the wire format comes first.
pub open spec fn spec_ipv4_be(a: int) -> Seq<char> {
    spec_decimal(a % 256) + "."@ + spec_decimal(a / 256 % 256) + "."@ + spec_decimal(
        a / 65536 % 256,
    ) + "."@ + spec_decimal(a / 16777216 % 256)
}

/// Renders a network-byte-order IPv4 address as a dotted quad.
pub fn ipv4_be_string(a: u32) -> (r: String)
    ensures
        r@ == spec_ipv4_be(a as int),
{
    let o0 = a % 256;
    let o1 = a / 256 % 256;
    let o2 = a / 65536 % 256;
    let o3 = a / 16777216 % 256;
    let mut out = u64_to_string(o0 as u64);
    out.append(".");
    let s1 = u64_to_string(o1 as u64);
    out.append(s1.as_str());
    out.append(".");
    let s2 = u64_to_string(o2 as u64);
    out.append(s2.as_str());
    out.append(".");
    let s3 = u64_to_string(o3 as u64);
    out.append(s3.as_str());
    proof {
        assert(out@ =~= spec_ipv4_be(a as int));
    }
    out
}

/// The escaping applied to every character placed inside a JSON string:
/// quotes, backslashes and the common control characters get a backslash
/// escape; everything else passes through unchanged.
pub open spec fn json_escape_char(c: char) -> Seq<char> {
    if c == '"' {
        seq!['\\', '"']
    } else if c == '\\' {
        seq!['\\', '\\']
    } else if c == '\n' {
        seq!['\\', 'n']
    } else if c == '\r' {
        seq!['\\', 'r']
    } else if c == '\t' {
        seq!['\\', 't']
    } else {
        seq![c]
    }
}

/// The escaped form of a whole string.
pub open spec fn json_escape_seq(s: Seq<char>) -> Seq<char>
    decreases s.len(),
{
    if s.len() == 0 {
        Seq::empty()
    } else {
        json_escape_char(s[0]) + json_escape_seq(s.drop_first())
    }
}

proof fn lemma_json_escape_push(s: Seq<char>, c: char)
    ensures
        json_escape_seq(s.push(c)) == json_escape_seq(s) + json_escape_char(c),
    decreases s.len(),
{
    if s.len() == 0 {
        assert(s.push(c)[0] == c);
        assert(s.push(c).drop_first() =~= Seq::<char>::empty());
        assert(json_escape_seq(Seq::<char>::empty()) == Seq::<char>::empty());
        assert(json_escape_seq(s.push(c)) == json_escape_char(c) + Seq::<char>::empty());
        assert(json_escape_seq(s.push(c)) =~= json_escape_seq(s) + json_escape_char(c));
    } else {
        assert(s.push(c).drop_first() =~= s.drop_first().push(c));
        lemma_json_escape_push(s.drop_first(), c);
        assert(json_escape_seq(s.push(c)) =~= json_escape_seq(s) + json_escape_char(c));
    }
}

/// Escapes a string for inclusion inside a JSON string literal.
pub fn json_escape(s: &str) -> (r: String)
    ensures
        r@ == json_escape_seq(s@),
{
    let n = s.unicode_len();
    let mut out = String::new();
    let mut i: usize = 0;
    while i < n
        invariant
            i <= n,
            n == s@.len(),
            out@ == json_escape_seq(s@.take(i as int)),
        decreases n - i,
    {
        let c = s.get_char(i);
        if c == '"' {
            out.append("\\\"");
            proof {
                reveal_strlit("\\\"");
            }
        } else if c == '\\' {
            out.append("\\\\");
            proof {
                reveal_strlit("\\\\");
            }
        } else if c == '\n' {
            out.append("\\n");
            proof {
                reveal_strlit("\\n");
            }
        } else if c == '\r' {
            out.append("\\r");
            proof {
                reveal_strlit("\\r");
            }
        } else if c == '\t' {
            out.append("\\t");
            proof {
                reveal_strlit("\\t");
            }
        } else {
            push_char(&mut out, c);
        }
        proof {
            assert(s@.take(i as int).push(s@[i as int]) =~= s@.take(i + 1));
            lemma_json_escape_push(s@.take(i as int), s@[i as int]);
            assert(out@ =~= json_escape_seq(s@.take(i + 1)));
        }
        i += 1;
    }
    proof {
        assert(s@.take(n as int) =~= s@);
    }
    out
}

/// A JSON string literal: quoted and escaped.
pub open spec fn jstr(s: Seq<char>) -> Seq<char> {
    seq!['"'] + json_escape_seq(s) + seq!['"']
}

/// A JSON string literal or null, for an optional field.
pub open spec fn jopt(o: Option<String>) -> Seq<char> {
    match o {
        Some(s) => jstr(s@),
        None => "null"@,
    }
}

/// Renders a JSON string literal.
pub fn json_string(s: &str) -> (r: String)
    ensures
        r@ == jstr(s@),
{
    let mut out = String::new();
    push_char(&mut out, '"');
    let e = json_escape(s);
    out.append(e.as_str());
    push_char(&mut out, '"');
    proof {
        assert(out@ =~= jstr(s@));
    }
    out
}

/// Appends a JSON string literal to `out`.
pub fn append_json_string(out: &mut String, s: &str)
    ensures
        final(out)@ == old(out)@ + jstr(s@),
{
    push_char(out, '"');
    let e = json_escape(s);
    out.append(e.as_str());
    push_char(out, '"');
    proof {
        assert(final(out)@ =~= old(out)@ + jstr(s@));
    }
}

/// Appends a JSON string literal, or `null` when the field is absent.
pub fn append_json_opt(out: &mut String, o: &Option<String>)
    ensures
        final(out)@ == old(out)@ + jopt(*o),
{
    match o {
        Some(s) => append_json_string(out, s.as_str()),
        None => out.append("null"),
    }
}

/// The comma-separated rendering of a list of JSON string literals.
pub open spec fn json_string_items(ss: Seq<Seq<char>>) -> Seq<char>
    decreases ss.len(),
{
    if ss.len() == 0 {
        Seq::empty()
    } else if ss.len() == 1 {
        jstr(ss[0])
    } else {
        jstr(ss[0]) + ","@ + json_string_items(ss.drop_first())
    }
}

/// The rendering of a JSON array of string literals.
pub open spec fn json_string_array_seq(ss: Seq<Seq<char>>) -> Seq<char> {
    seq!['['] + json_string_items(ss) + seq![']']
}

proof fn lemma_json_string_items_push(ss: Seq<Seq<char>>, v: Seq<char>)
    requires
        ss.len() > 0,
    ensures
        json_string_items(ss.push(v)) == json_string_items(ss) + ","@ + jstr(v),
    decreases ss.len(),
{
    if ss.len() == 1 {
        assert(ss.push(v).drop_first() =~= seq![v]);
        assert(seq![v].len() == 1 && seq![v][0] == v);
        assert(json_string_items(seq![v]) == jstr(v));
        assert(ss.push(v)[0] == ss[0]);
        assert(json_string_items(ss.push(v)) =~= json_string_items(ss) + ","@ + jstr(v));
    } else {
        assert(ss.push(v).drop_first() =~= ss.drop_first().push(v));
        lemma_json_string_items_push(ss.drop_first(), v);
        assert(json_string_items(ss.push(v)) =~= json_string_items(ss) + ","@ + jstr(v));
    }
}

/// Renders a JSON array of string literals.
pub fn json_string_array(vs: &Vec<String>) -> (r: String)
    ensures
        r@ == json_string_array_seq(vs@.map_values(|s: String| s@)),
{
    let ghost views = vs@.map_values(|s: String| s@);
    let mut out = String::new();
    push_char(&mut out, '[');
    let mut i: usize = 0;
    while i < vs.len()
        invariant
            i <= vs@.len(),
            views == vs@.map_values(|s: String| s@),
            views.len() == vs@.len(),
            out@ == seq!['['] + json_string_items(views.take(i as int)),
        decreases vs@.len() - i,
    {
        if i > 0 {
            out.append(",");
        }
        let ghost o1 = out@;
        append_json_string(&mut out, vs[i].as_str());
        proof {
            let pre = views.take(i as int);
            let v = views[i as int];
            assert(v == vs@[i as int]@);
            assert(out@ == o1 + jstr(v));
            assert(pre.push(v) =~= views.take(i + 1));
            if i > 0 {
                lemma_json_string_items_push(pre, v);
                assert(json_string_items(views.take(i + 1)) == json_string_items(pre) + ","@
                    + jstr(v));
            } else {
                assert(pre.len() == 0);
                assert(json_string_items(pre) == Seq::<char>::empty());
                assert(views.take(1).len() == 1);
                assert(views.take(1)[0] == v);
                assert(json_string_items(views.take(1)) == jstr(v));
            }
            assert(out@ =~= seq!['['] + json_string_items(views.take(i + 1)));
        }
        i += 1;
    }
    push_char(&mut out, ']');
    proof {
        assert(views.take(views.len() as int) =~= views);
        assert(out@ =~= json_string_array_seq(views));
    }
    out
}

} // verus!
