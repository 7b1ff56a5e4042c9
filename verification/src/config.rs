//! How the server is set up.

use vstd::prelude::*;

use crate::text;

verus! {

/// The port of the server where none is configured.
pub const DEFAULT_PORT: u16 = 3000;

/// The port for management where none is configured.
pub const DEFAULT_MGMT_PORT: u16 = 4433;

/// The directory of the web pages where none is configured.
pub const DEFAULT_PUBLIC_DIR: &'static str = "./public";

/// The directory of the stored content.
pub const UPLOADS_DIR: &'static str = "./data/uploads";

/// The file of the database.
pub const DATABASE_FILE: &'static str = "./data/metadata.db";

/// For how long clients remember that the server speaks HTTP/3, in seconds.
pub const ALT_SVC_MAX_AGE_SECS: u32 = 86400;

// ---- numbers in decimal notation ----

/// The value of a decimal digit.
pub open spec fn digit_value(c: char) -> Option<nat> {
    if '0' <= c && c <= '9' {
        Some((c as int - '0' as int) as nat)
    } else {
        None
    }
}

/// The number that a sequence of decimal digits stands for; the empty one stands for zero.
pub open spec fn digits_value(s: Seq<char>) -> Option<nat>
    decreases s.len(),
{
    if s.len() == 0 {
        Some(0)
    } else {
        match (digits_value(s.drop_last()), digit_value(s.last())) {
            (Some(head), Some(last)) => Some(10 * head + last),
            _ => None,
        }
    }
}

/// The number that a text stands for: decimal digits, at least one, which may follow a plus
/// sign.
pub open spec fn number(s: Seq<char>) -> Option<nat> {
    let digits = if s.len() > 0 && s[0] == '+' {
        s.skip(1)
    } else {
        s
    };
    if digits.len() == 0 {
        None
    } else {
        digits_value(digits)
    }
}

/// The port that a text stands for.
pub open spec fn port_number(s: Seq<char>) -> Option<nat> {
    match number(s) {
        Some(n) => if n <= 65535 {
            Some(n)
        } else {
            None
        },
        None => None,
    }
}

/// A number that is too large, or not one, stays so with more digits behind it.
proof fn lemma_no_way_back(s: Seq<char>, n: int)
    requires
        0 <= n <= s.len(),
    ensures
        digits_value(s.take(n)).is_none() ==> digits_value(s).is_none(),
        digits_value(s).is_some() ==> digits_value(s.take(n)).unwrap() <= digits_value(s).unwrap(),
    decreases s.len() - n,
{
    if n < s.len() {
        lemma_no_way_back(s, n + 1);
        assert(s.take(n + 1).drop_last() =~= s.take(n));
    } else {
        assert(s.take(n) =~= s);
    }
}

/// Reads a port.
pub fn parse_port(s: &str) -> (r: Option<u16>)
    ensures
        r.is_some() == port_number(s@).is_some(),
        r.is_some() ==> r.unwrap() == port_number(s@).unwrap(),
{
    let size: usize = s.unicode_len();
    let signed = size > 0 && s.get_char(0) == '+';
    let start: usize = if signed {
        1
    } else {
        0
    };
    if start == size {
        return None;
    }
    let ghost digits = s@.skip(start as int);
    assert(start == 0 ==> digits =~= s@);
    let mut value: u32 = 0;
    let mut n: usize = start;
    assert(digits.take(0) =~= Seq::empty());
    while n < size
        invariant
            start <= n <= size,
            start <= 1,
            size == s@.len(),
            digits == s@.skip(start as int),
            number(s@) == digits_value(digits),
            value <= 65535,
            digits_value(digits.take(n - start)) == Some(value as nat),
        decreases size - n,
    {
        let c = s.get_char(n);
        proof {
            assert(digits.take(n - start + 1).drop_last() =~= digits.take(n - start));
            assert(digits.take(n - start + 1).last() == c);
            lemma_no_way_back(digits, n - start + 1);
        }
        if c < '0' || '9' < c {
            return None;
        }
        value = 10 * value + (c as u32 - '0' as u32);
        if value > 65535 {
            return None;
        }
        n = n + 1;
    }
    assert(digits.take(n - start) =~= digits);
    Some(value as u16)
}

/// The configured port, or the given one where none is configured or what is configured is
/// no port.
pub fn port_or(configured: Option<&str>, default_port: u16) -> (r: u16)
    ensures
        r == (if configured.is_some() && port_number(configured.unwrap()@).is_some() {
            port_number(configured.unwrap()@).unwrap()
        } else {
            default_port as nat
        }),
{
    match configured {
        Some(s) => {
            match parse_port(s) {
                Some(port) => port,
                None => default_port,
            }
        },
        None => default_port,
    }
}

/// The configured text, or the given one where none is configured.
pub fn text_or(configured: Option<String>, default_text: &str) -> (r: String)
    ensures
        r@ == (if configured.is_some() {
            configured.unwrap()@
        } else {
            default_text@
        }),
{
    match configured {
        Some(s) => s,
        None => default_text.to_owned(),
    }
}

// ---- the header that announces HTTP/3 ----

/// What one protocol on one port is announced as.
pub open spec fn alternative(protocol: Seq<char>, port: nat) -> Seq<char> {
    protocol + "=\":"@ + text::decimal(port) + "\"; ma="@ + text::decimal(
        ALT_SVC_MAX_AGE_SECS as nat,
    )
}

/// The value of the header `Alt-Svc` for a server on the given port.
pub fn alt_svc(port: u16) -> (r: String)
    ensures
        r@ == alternative("h3"@, port as nat) + ", "@ + alternative("h3-29"@, port as nat),
{
    let first = alternative_text("h3", port);
    let second = alternative_text("h3-29", port);
    text::joined3(first.as_str(), ", ", second.as_str())
}

fn alternative_text(protocol: &str, port: u16) -> (r: String)
    ensures
        r@ == alternative(protocol@, port as nat),
{
    let mut r = text::joined3(protocol, "=\":", text::decimal_text(port as u64).as_str());
    r.append("\"; ma=");
    r.append(text::decimal_text(ALT_SVC_MAX_AGE_SECS as u64).as_str());
    r
}

// ---- laws ----

/// A port that is written in decimal notation is read back.
pub proof fn law_port_round_trip(port: nat)
    requires
        port <= 65535,
    ensures
        port_number(text::decimal(port)) == Some(port),
{
    lemma_digits_of(port);
    let s = text::decimal(port);
    assert(s[0] != '+') by {
        lemma_first_digit(port);
    }
}

proof fn lemma_digits_of(n: nat)
    ensures
        digits_value(text::decimal(n)) == Some(n),
        text::decimal(n).len() > 0,
    decreases n,
{
    let s = text::decimal(n);
    if n < 10 {
        assert(s.drop_last() =~= Seq::empty());
        assert(digits_value(s.drop_last()) == Some(0nat));
        assert(digit_value(s.last()) == Some(n));
    } else {
        lemma_digits_of(n / 10);
        assert(s.drop_last() =~= text::decimal(n / 10));
        assert(digit_value(s.last()) == Some(n % 10));
    }
}

proof fn lemma_first_digit(n: nat)
    ensures
        text::decimal(n).len() > 0,
        digit_value(text::decimal(n)[0]).is_some(),
    decreases n,
{
    if n >= 10 {
        lemma_first_digit(n / 10);
        assert(text::decimal(n)[0] == text::decimal(n / 10)[0]);
    }
}

/// A text stands for a number if and only if it has digits and nothing else, but for one plus
/// sign that may come first; and one more digit behind it counts the units of a number whose
/// tens the others count.
pub proof fn law_numbers_are_made_of_digits(s: Seq<char>, c: char)
    ensures
        number(Seq::empty()).is_none(),
        number(seq!['+']).is_none(),
        digits_value(s).is_some() <==> forall|i: int|
            0 <= i < s.len() ==> '0' <= #[trigger] s[i] && s[i] <= '9',
        digits_value(s).is_some() && '0' <= c && c <= '9' ==> digits_value(s.push(c)) == Some(
            (10 * digits_value(s).unwrap() + (c as int - '0' as int)) as nat,
        ),
        s.len() > 0 && s[0] != '+' ==> number(s) == digits_value(s),
        s.len() > 0 ==> number(seq!['+'] + s) == digits_value(s),
        port_number(s).is_some() <==> number(s).is_some() && number(s).unwrap() <= 65535,
        port_number(s).is_some() ==> port_number(s) == number(s),
{
    lemma_digits_only(s);
    assert(s.push(c).drop_last() =~= s);
    let plus = seq!['+'] + s;
    assert(plus.skip(1) =~= s);
    assert(seq!['+'].skip(1) =~= Seq::<char>::empty());
}

proof fn lemma_digits_only(s: Seq<char>)
    ensures
        digits_value(s).is_some() <==> forall|i: int|
            0 <= i < s.len() ==> '0' <= #[trigger] s[i] && s[i] <= '9',
    decreases s.len(),
{
    if s.len() > 0 {
        let front = s.drop_last();
        lemma_digits_only(front);
        if digits_value(s).is_some() {
            assert forall|i: int| 0 <= i < s.len() implies '0' <= #[trigger] s[i] && s[i]
                <= '9' by {
                if i < front.len() {
                    assert(front[i] == s[i]);
                }
            }
        }
        if forall|i: int| 0 <= i < s.len() ==> '0' <= #[trigger] s[i] && s[i] <= '9' {
            assert forall|i: int| 0 <= i < front.len() implies '0' <= #[trigger] front[i]
                && front[i] <= '9' by {
                assert(s[i] == front[i]);
            }
            assert('0' <= s[s.len() - 1] && s[s.len() - 1] <= '9');
        }
    }
}

/// A protocol on a port is announced by its name, the port, and a day for which it is good.
pub proof fn law_alternatives_are_good_for_a_day(protocol: Seq<char>, port: nat)
    ensures
        alternative(protocol, port) == protocol + "=\":"@ + text::decimal(port) + "\"; ma="@
            + text::decimal(24 * 3600),
{
}

} // verus!
