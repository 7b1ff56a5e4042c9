//! Building and taking apart text.

use vstd::prelude::*;

verus! {

/// The character that stands for a decimal digit.
pub open spec fn digit_char(d: nat) -> char {
    if d == 0 {
        '0'
    } else if d == 1 {
        '1'
    } else if d == 2 {
        '2'
    } else if d == 3 {
        '3'
    } else if d == 4 {
        '4'
    } else if d == 5 {
        '5'
    } else if d == 6 {
        '6'
    } else if d == 7 {
        '7'
    } else if d == 8 {
        '8'
    } else {
        '9'
    }
}

/// A natural number in decimal notation, without leading zeros.
pub open spec fn decimal(n: nat) -> Seq<char>
    decreases n,
{
    if n < 10 {
        seq![digit_char(n)]
    } else {
        decimal(n / 10).push(digit_char(n % 10))
    }
}

/// An integer in decimal notation, with a minus sign where it is negative.
pub open spec fn signed_decimal(n: int) -> Seq<char> {
    if n < 0 {
        seq!['-'] + decimal((-n) as nat)
    } else {
        decimal(n as nat)
    }
}

fn digit_text(d: u64) -> (r: &'static str)
    requires
        d < 10,
    ensures
        r@ == seq![digit_char(d as nat)],
{
    proof {
        reveal_strlit("0");
        reveal_strlit("1");
        reveal_strlit("2");
        reveal_strlit("3");
        reveal_strlit("4");
        reveal_strlit("5");
        reveal_strlit("6");
        reveal_strlit("7");
        reveal_strlit("8");
        reveal_strlit("9");
    }
    let r: &'static str = match d {
        0 => "0",
        1 => "1",
        2 => "2",
        3 => "3",
        4 => "4",
        5 => "5",
        6 => "6",
        7 => "7",
        8 => "8",
        _ => "9",
    };
    assert(r@ =~= seq![digit_char(d as nat)]);
    r
}

/// Writes a number in decimal notation.
pub fn decimal_text(n: u64) -> (r: String)
    ensures
        r@ == decimal(n as nat),
    decreases n,
{
    if n < 10 {
        digit_text(n).to_owned()
    } else {
        let mut head = decimal_text(n / 10);
        head.append(digit_text(n % 10));
        assert(head@ =~= decimal(n as nat));
        head
    }
}

/// Writes a signed number in decimal notation.
pub fn signed_decimal_text(n: i64) -> (r: String)
    ensures
        r@ == signed_decimal(n as int),
{
    if n >= 0 {
        decimal_text(n as u64)
    } else {
        proof {
            reveal_strlit("-");
        }
        let magnitude: u64 = (-(n as i128)) as u64;
        let r = joined("-", decimal_text(magnitude).as_str());
        assert("-"@ =~= seq!['-']);
        r
    }
}

/// A text that may be there.
pub open spec fn seen(s: Option<&str>) -> Option<Seq<char>> {
    match s {
        Some(s) => Some(s@),
        None => None,
    }
}

/// The contents of a list of texts.
pub open spec fn names(list: Seq<String>) -> Seq<Seq<char>> {
    list.map_values(|s: String| s@)
}

/// Whether one of the texts in the list is the given one.
pub fn lists(list: &Vec<String>, wanted: &str) -> (r: bool)
    ensures
        r == names(list@).contains(wanted@),
{
    let mut n: usize = 0;
    while n < list.len()
        invariant
            n <= list@.len(),
            forall|i: int| 0 <= i < n ==> (#[trigger] list@[i])@ != wanted@,
        decreases list.len() - n,
    {
        if same_text(list[n].as_str(), wanted) {
            assert(names(list@)[n as int] == wanted@);
            return true;
        }
        n = n + 1;
    }
    proof {
        if names(list@).contains(wanted@) {
            let i = choose|i: int| 0 <= i < names(list@).len() && names(list@)[i] == wanted@;
            assert(list@[i]@ == wanted@);
        }
    }
    false
}

/// A copy of a list of texts.
pub fn copied(list: &Vec<String>) -> (r: Vec<String>)
    ensures
        names(r@) == names(list@),
{
    let mut r: Vec<String> = Vec::new();
    let mut n: usize = 0;
    while n < list.len()
        invariant
            n <= list@.len(),
            r@.len() == n,
            forall|i: int| 0 <= i < n ==> (#[trigger] r@[i])@ == list@[i]@,
        decreases list.len() - n,
    {
        r.push(list[n].clone());
        n = n + 1;
    }
    assert(names(r@) =~= names(list@));
    r
}

/// Says of a text whether it is another than the given one.
pub open spec fn other_than(s: Seq<char>) -> spec_fn(Seq<char>) -> bool {
    |x: Seq<char>| x != s
}

/// The list without the given text, in the order that it had.
pub fn without(list: Vec<String>, unwanted: &str) -> (r: Vec<String>)
    ensures
        names(r@) == names(list@).filter(other_than(unwanted@)),
{
    let mut r: Vec<String> = Vec::new();
    let mut n: usize = 0;
    assert(names(list@).take(0) =~= Seq::<Seq<char>>::empty());
    assert(names(r@) =~= Seq::<Seq<char>>::empty());
    while n < list.len()
        invariant
            n <= list@.len(),
            names(r@) == names(list@).take(n as int).filter(other_than(unwanted@)),
        decreases list.len() - n,
    {
        proof {
            reveal(Seq::filter);
        }
        assert(names(list@).take(n + 1).drop_last() =~= names(list@).take(n as int));
        assert(names(list@).take(n + 1).last() == list@[n as int]@);
        if !same_text(list[n].as_str(), unwanted) {
            let ghost before = r@;
            r.push(list[n].clone());
            assert(names(r@) =~= names(before).push(list@[n as int]@));
        }
        n = n + 1;
    }
    assert(names(list@).take(n as int) =~= names(list@));
    r
}

/// Taking a text out of a list takes it out of the set of its texts, and a list
/// without repetition stays one.
pub proof fn lemma_without(list: Seq<Seq<char>>, s: Seq<char>)
    ensures
        list.filter(other_than(s)).to_set() == list.to_set().remove(s),
        list.no_duplicates() ==> list.filter(other_than(s)).no_duplicates(),
    decreases list.len(),
{
    reveal(Seq::filter);
    let kept = list.filter(other_than(s));
    if list.len() == 0 {
        assert(kept.to_set() =~= list.to_set().remove(s));
    } else {
        let front = list.drop_last();
        let rest = front.filter(other_than(s));
        lemma_without(front, s);
        assert(list =~= front.push(list.last()));
        assert(list.to_set() =~= front.to_set().insert(list.last())) by {
            assert forall|x: Seq<char>| list.to_set().contains(x) <==> front.to_set().insert(
                list.last(),
            ).contains(x) by {
                if list.contains(x) && x != list.last() {
                    let i = choose|i: int| 0 <= i < list.len() && list[i] == x;
                    assert(front[i] == x);
                }
                if front.contains(x) {
                    let i = choose|i: int| 0 <= i < front.len() && front[i] == x;
                    assert(list[i] == x);
                }
                assert(list[list.len() - 1] == list.last());
            }
        }
        if list.last() != s {
            assert(kept == rest.push(list.last()));
            lemma_pushed(rest, list.last());
            assert(kept.to_set() =~= list.to_set().remove(s));
            if list.no_duplicates() {
                assert forall|i: int, j: int|
                    0 <= i < front.len() && 0 <= j < front.len() && i != j implies front[i]
                    != front[j] by {
                    assert(list[i] != list[j]);
                }
                assert(!rest.contains(list.last())) by {
                    if rest.contains(list.last()) {
                        assert(rest.to_set().contains(list.last()));
                        assert(front.to_set().contains(list.last()));
                        let i = choose|i: int|
                            0 <= i < front.len() && front[i] == list.last();
                        assert(list[i] == list[list.len() - 1]);
                    }
                }
            }
        } else {
            assert(kept == rest);
            assert(kept.to_set() =~= list.to_set().remove(s));
            if list.no_duplicates() {
                assert forall|i: int, j: int|
                    0 <= i < front.len() && 0 <= j < front.len() && i != j implies front[i]
                    != front[j] by {
                    assert(list[i] != list[j]);
                }
            }
        }
    }
}

/// Putting a text at the end of a list puts it into the set of its texts, and a
/// list without repetition stays one where the text is new to it.
pub proof fn lemma_pushed(list: Seq<Seq<char>>, s: Seq<char>)
    ensures
        list.push(s).to_set() == list.to_set().insert(s),
        list.no_duplicates() && !list.contains(s) ==> list.push(s).no_duplicates(),
{
    assert forall|x: Seq<char>| list.push(s).to_set().contains(x) <==> list.to_set().insert(
        s,
    ).contains(x) by {
        if list.contains(x) {
            let i = choose|i: int| 0 <= i < list.len() && list[i] == x;
            assert(list.push(s)[i] == x);
        }
        assert(list.push(s)[list.len() as int] == s);
        if list.push(s).contains(x) && x != s {
            let i = choose|i: int| 0 <= i < list.push(s).len() && list.push(s)[i] == x;
            assert(list[i] == x);
        }
    }
    assert(list.push(s).to_set() =~= list.to_set().insert(s));
    if list.no_duplicates() && !list.contains(s) {
        assert forall|i: int, j: int|
            0 <= i < list.push(s).len() && 0 <= j < list.push(s).len() && i != j implies list.push(
            s,
        )[i] != list.push(s)[j] by {
            if i == list.len() {
                assert(list.contains(list[j]));
            }
            if j == list.len() {
                assert(list.contains(list[i]));
            }
        }
    }
}

/// Puts one text behind another.
pub fn joined(first: &str, second: &str) -> (r: String)
    ensures
        r@ == first@ + second@,
{
    let mut r = first.to_owned();
    r.append(second);
    r
}

/// Puts three texts behind one another.
pub fn joined3(first: &str, second: &str, third: &str) -> (r: String)
    ensures
        r@ == first@ + second@ + third@,
{
    let mut r = joined(first, second);
    r.append(third);
    r
}

/// Whether two texts hold the same characters.
pub fn same_text(a: &str, b: &str) -> (r: bool)
    ensures
        r == (a@ == b@),
{
    a.to_owned() == b.to_owned()
}

/// Whether `prefix` is how `s` begins.
pub open spec fn begins_with(s: Seq<char>, prefix: Seq<char>) -> bool {
    prefix.len() <= s.len() && s.take(prefix.len() as int) == prefix
}

/// What stands behind `prefix`, where the text begins with it.
pub fn after_prefix(s: &str, prefix: &str) -> (r: Option<String>)
    ensures
        r is Some <==> begins_with(s@, prefix@),
        r matches Some(rest) ==> rest@ == s@.skip(prefix@.len() as int),
{
    let n: usize = prefix.unicode_len();
    let len: usize = s.unicode_len();
    if len < n {
        return None;
    }
    if same_text(s.substring_char(0, n), prefix) {
        let rest = s.substring_char(n, len).to_owned();
        assert(rest@ =~= s@.skip(n as int));
        assert(s@.subrange(0, n as int) =~= s@.take(n as int));
        Some(rest)
    } else {
        assert(s@.subrange(0, n as int) =~= s@.take(n as int));
        None
    }
}

/// A text without the slashes at its end.
pub open spec fn without_end_slashes(s: Seq<char>) -> Seq<char>
    decreases s.len(),
{
    if s.len() > 0 && s.last() == '/' {
        without_end_slashes(s.drop_last())
    } else {
        s
    }
}

/// Takes the slashes at the end of a text away.
pub fn trim_end_slashes(s: &str) -> (r: String)
    ensures
        r@ == without_end_slashes(s@),
{
    let mut n: usize = s.unicode_len();
    assert(s@.take(n as int) =~= s@);
    while n > 0 && s.get_char(n - 1) == '/'
        invariant
            n <= s@.len(),
            without_end_slashes(s@.take(n as int)) == without_end_slashes(s@),
        decreases n,
    {
        assert(s@.take(n as int).drop_last() =~= s@.take(n - 1));
        n = n - 1;
    }
    assert(s@.subrange(0, n as int) =~= s@.take(n as int));
    s.substring_char(0, n).to_owned()
}

// ---- laws ----

/// The contents of a list of texts are those of its texts, one for one and in order.
pub proof fn law_names_are_those_of_the_list(list: Seq<String>)
    ensures
        names(list).len() == list.len(),
        forall|i: int| 0 <= i < list.len() ==> #[trigger] names(list)[i] == list[i]@,
{
}

/// A number below ten is written as its digit, and one more digit stands behind the others: it
/// counts the units of a number whose tens the others count.
pub proof fn law_decimal_notation(tens: nat, digit: nat)
    requires
        digit < 10,
    ensures
        decimal(digit) == seq![(('0' as int) + digit) as char],
        tens > 0 ==> decimal(10 * tens + digit) == decimal(tens).push(
            (('0' as int) + digit) as char,
        ),
{
    assert(digit_char(digit) == (('0' as int) + digit) as char);
    if tens > 0 {
        let n = 10 * tens + digit;
        assert(n / 10 == tens);
        assert(n % 10 == digit);
    }
}

/// A negative number is written like its opposite, behind a minus sign.
pub proof fn law_signed_notation(n: nat)
    ensures
        signed_decimal(n as int) == decimal(n),
        n > 0 ==> signed_decimal(-(n as int)) == seq!['-'] + decimal(n),
{
}

/// A text begins with another if and only if it is the other with something behind it.
pub proof fn law_prefix(prefix: Seq<char>, rest: Seq<char>, s: Seq<char>)
    ensures
        begins_with(prefix + rest, prefix),
        (prefix + rest).skip(prefix.len() as int) == rest,
        begins_with(s, prefix) ==> s == prefix + s.skip(prefix.len() as int),
{
    assert((prefix + rest).take(prefix.len() as int) =~= prefix);
    assert((prefix + rest).skip(prefix.len() as int) =~= rest);
    if begins_with(s, prefix) {
        assert(s =~= s.take(prefix.len() as int) + s.skip(prefix.len() as int));
    }
}

/// What loses its slashes at the end ends in none, and has lost nothing but slashes.
pub proof fn law_end_slashes_are_gone(s: Seq<char>)
    ensures
        without_end_slashes(s).len() <= s.len(),
        without_end_slashes(s) == s.take(without_end_slashes(s).len() as int),
        without_end_slashes(s).len() > 0 ==> without_end_slashes(s).last() != '/',
        forall|i: int| without_end_slashes(s).len() <= i < s.len() ==> #[trigger] s[i] == '/',
    decreases s.len(),
{
    if s.len() > 0 && s.last() == '/' {
        let front = s.drop_last();
        law_end_slashes_are_gone(front);
        assert(front.take(without_end_slashes(front).len() as int) =~= s.take(
            without_end_slashes(front).len() as int,
        ));
        assert forall|i: int| without_end_slashes(s).len() <= i < s.len() implies #[trigger] s[i]
            == '/' by {
            if i < front.len() {
                assert(front[i] == '/');
            }
        }
    } else {
        assert(s.take(s.len() as int) =~= s);
    }
}

/// What is seen of a text that is there is the text.
pub proof fn law_seen_as_it_is(s: Option<&str>)
    ensures
        seen(s).is_some() <==> s.is_some(),
        s.is_some() ==> seen(s).unwrap() == s.unwrap()@,
{
}

} // verus!
