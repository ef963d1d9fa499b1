//! Reading and writing the small pieces of text that names, versions and paths
//! are made of.

use vstd::prelude::*;

verus! {

/// The pieces of `s` between the occurrences of `sep`, in order. There is
/// always one more piece than there are separators.
pub open spec fn pieces(s: Seq<char>, sep: char) -> Seq<Seq<char>>
    decreases s.len(),
{
    if s.len() == 0 {
        seq![Seq::<char>::empty()]
    } else {
        let before = pieces(s.drop_last(), sep);
        if s.last() == sep {
            before.push(Seq::<char>::empty())
        } else {
            before.drop_last().push(before.last().push(s.last()))
        }
    }
}

/// The digit character of a number below ten.
pub open spec fn digit(d: nat) -> char {
    (('0' as u32) + d) as char
}

/// `n` written in decimal, without leading zeros.
pub open spec fn decimal(n: nat) -> Seq<char>
    decreases n,
{
    if n < 10 {
        seq![digit(n)]
    } else {
        decimal(n / 10).push(digit(n % 10))
    }
}

pub open spec fn is_digit(c: char) -> bool {
    '0' <= c <= '9'
}

pub open spec fn all_digits(s: Seq<char>) -> bool {
    forall|i: int| 0 <= i < s.len() ==> is_digit(#[trigger] s[i])
}

/// The number that a run of digits stands for.
pub open spec fn digits_value(s: Seq<char>) -> nat
    decreases s.len(),
{
    if s.len() == 0 {
        0
    } else {
        digits_value(s.drop_last()) * 10 + (s.last() as u32 - '0' as u32) as nat
    }
}

/// The number that `s` stands for: digits only, at least one of them, and no
/// more than a `u64` can hold.
pub open spec fn number(s: Seq<char>) -> Option<u64> {
    if s.len() > 0 && all_digits(s) && digits_value(s) <= u64::MAX {
        Some(digits_value(s) as u64)
    } else {
        None
    }
}

/// Splits `s` at every `sep`.
pub fn split(s: &str, sep: char) -> (parts: Vec<String>)
    ensures
        parts.deep_view() == pieces(s@, sep),
{
    let n: usize = s.unicode_len();
    let mut parts: Vec<String> = Vec::new();
    let mut start: usize = 0;
    let mut i: usize = 0;
    assert(s@.take(0) =~= Seq::<char>::empty());
    assert(parts.deep_view().push(s@.subrange(0, 0)) =~= seq![Seq::<char>::empty()]);
    while i < n
        invariant
            n == s@.len(),
            start <= i <= n,
            pieces(s@.take(i as int), sep) == parts.deep_view().push(
                s@.subrange(start as int, i as int),
            ),
        decreases n - i,
    {
        let ghost before = s@.take(i as int);
        let ghost after = s@.take(i + 1);
        let ghost found = parts.deep_view();
        let ghost open = s@.subrange(start as int, i as int);
        assert(after.drop_last() =~= before);
        assert(after.last() == s@[i as int]);
        assert(found.push(open).drop_last() =~= found);
        if s.get_char(i) == sep {
            let part: String = s.substring_char(start, i).to_owned();
            parts.push(part);
            assert(parts.deep_view() =~= found.push(open));
            start = i + 1;
            assert(s@.subrange(start as int, i + 1) =~= Seq::<char>::empty());
        } else {
            assert(s@.subrange(start as int, i + 1) =~= open.push(s@[i as int]));
        }
        i = i + 1;
    }
    let ghost found = parts.deep_view();
    let part: String = s.substring_char(start, n).to_owned();
    parts.push(part);
    assert(parts.deep_view() =~= found.push(s@.subrange(start as int, n as int)));
    assert(s@.take(n as int) =~= s@);
    parts
}

/// Whether two pieces of text are the same.
pub fn same(a: &str, b: &str) -> (r: bool)
    ensures
        r == (a@ == b@),
{
    a.to_owned() == b.to_owned()
}

/// Whether `s` holds the character `c`.
pub fn has(s: &str, c: char) -> (r: bool)
    ensures
        r == s@.contains(c),
{
    let n: usize = s.unicode_len();
    let mut i: usize = 0;
    while i < n
        invariant
            n == s@.len(),
            i <= n,
            forall|j: int| 0 <= j < i ==> s@[j] != c,
        decreases n - i,
    {
        if s.get_char(i) == c {
            assert(s@[i as int] == c);
            return true;
        }
        i = i + 1;
    }
    false
}

/// Reads a number written in decimal.
pub fn parse_number(s: &str) -> (r: Option<u64>)
    ensures
        r == number(s@),
{
    let n: usize = s.unicode_len();
    if n == 0 {
        return None;
    }
    let mut value: u64 = 0;
    let mut i: usize = 0;
    while i < n
        invariant
            0 < n == s@.len(),
            i <= n,
            all_digits(s@.take(i as int)),
            value == digits_value(s@.take(i as int)),
        decreases n - i,
    {
        let c: char = s.get_char(i);
        let ghost after = s@.take(i + 1);
        assert(after.drop_last() =~= s@.take(i as int));
        assert(after.last() == c);
        if c < '0' || c > '9' {
            return None;
        }
        let d: u64 = c as u64 - '0' as u64;
        proof {
            assert(all_digits(after)) by {
                assert forall|j: int| 0 <= j < after.len() implies is_digit(#[trigger] after[j]) by {
                    if j < i {
                        assert(after[j] == s@.take(i as int)[j]);
                    }
                }
            }
            lemma_value_of_prefix(s@, i + 1);
        }
        if value > (u64::MAX - d) / 10 {
            return None;
        }
        value = value * 10 + d;
        i = i + 1;
    }
    assert(s@.take(n as int) =~= s@);
    Some(value)
}

/// Writes a number in decimal.
pub fn decimal_text(n: u64) -> (r: String)
    ensures
        r@ == decimal(n as nat),
    decreases n,
{
    if n < 10 {
        digit_text(n)
    } else {
        let head: String = decimal_text(n / 10);
        let tail: String = digit_text(n % 10);
        let r: String = head.concat(tail.as_str());
        assert(r@ =~= decimal(n as nat));
        r
    }
}

fn digit_text(d: u64) -> (r: String)
    requires
        d < 10,
    ensures
        r@ == seq![digit(d as nat)],
{
    proof {
        reveal_strlit("0");
        reveal_strlit("1");
        reveal_strlit("2");
        reveal_strlit("3");
        reveal_strlit("4");
        reveal_strlit("5");
        reveal_strlit("6");
        reveal_strlit("7");
        reveal_strlit("8");
        reveal_strlit("9");
    }
    let text: &str = match d {
        0 => "0",
        1 => "1",
        2 => "2",
        3 => "3",
        4 => "4",
        5 => "5",
        6 => "6",
        7 => "7",
        8 => "8",
        _ => "9",
    };
    assert(text@ =~= seq![digit(d as nat)]);
    text.to_owned()
}

/// A run of digits is worth at least as much as any run it starts with.
proof fn lemma_value_of_prefix(s: Seq<char>, n: int)
    requires
        0 <= n <= s.len(),
    ensures
        digits_value(s.take(n)) <= digits_value(s),
    decreases s.len() - n,
{
    if n < s.len() {
        lemma_value_of_prefix(s, n + 1);
        assert(s.take(n + 1).drop_last() =~= s.take(n));
    } else {
        assert(s.take(n) =~= s);
    }
}

/// Reading a number back from its decimal text gives the number.
pub proof fn lemma_number_of_decimal(n: u64)
    ensures
        number(decimal(n as nat)) == Some(n),
{
    lemma_decimal_value(n as nat);
}

/// The decimal text of a number is a non-empty run of digits worth that number.
pub proof fn lemma_decimal_value(n: nat)
    ensures
        decimal(n).len() > 0,
        all_digits(decimal(n)),
        digits_value(decimal(n)) == n,
    decreases n,
{
    if n < 10 {
        assert(decimal(n).drop_last() =~= Seq::<char>::empty());
        assert(digits_value(decimal(n).drop_last()) == 0);
    } else {
        lemma_decimal_value(n / 10);
        let head = decimal(n / 10);
        let whole = decimal(n);
        assert(whole.drop_last() =~= head);
        assert forall|i: int| 0 <= i < whole.len() implies is_digit(#[trigger] whole[i]) by {
            if i < head.len() {
                assert(whole[i] == head[i]);
            }
        }
    }
}

/// Text without the separator is a single piece.
pub proof fn lemma_single_piece(s: Seq<char>, sep: char)
    requires
        !s.contains(sep),
    ensures
        pieces(s, sep) == seq![s],
    decreases s.len(),
{
    if s.len() > 0 {
        assert forall|i: int| 0 <= i < s.drop_last().len() implies s.drop_last()[i] != sep by {
            assert(s[i] == s.drop_last()[i]);
        }
        lemma_single_piece(s.drop_last(), sep);
        assert(s.last() == s[s.len() - 1]);
        assert(s.drop_last().push(s.last()) =~= s);
        assert(pieces(s, sep) =~= seq![s]);
    } else {
        assert(s =~= Seq::<char>::empty());
    }
}

/// A separator followed by text without one adds that text as the last piece.
pub proof fn lemma_last_piece(a: Seq<char>, b: Seq<char>, sep: char)
    requires
        !b.contains(sep),
    ensures
        pieces(a.push(sep) + b, sep) == pieces(a, sep).push(b),
    decreases b.len(),
{
    let whole = a.push(sep) + b;
    if b.len() == 0 {
        assert(whole =~= a.push(sep));
        assert(whole.drop_last() =~= a);
        assert(b =~= Seq::<char>::empty());
    } else {
        let short = b.drop_last();
        assert forall|i: int| 0 <= i < short.len() implies short[i] != sep by {
            assert(b[i] == short[i]);
        }
        lemma_last_piece(a, short, sep);
        assert(whole.drop_last() =~= a.push(sep) + short);
        assert(whole.last() == b[b.len() - 1]);
        assert(pieces(a, sep).push(short).drop_last() =~= pieces(a, sep));
        assert(short.push(b.last()) =~= b);
    }
}

/// A number below ten is written as one character, as far behind `0` as the
/// number says. Writing one more digit behind a number makes it ten times as
/// large, and adds the digit.
pub proof fn lemma_decimal_digits(n: nat, d: nat)
    requires
        d < 10,
    ensures
        decimal(d).len() == 1,
        decimal(d)[0] as u32 == '0' as u32 + d,
        n > 0 ==> {
            let longer = decimal(n * 10 + d);
            &&& longer.len() == decimal(n).len() + 1
            &&& longer.take(decimal(n).len() as int) == decimal(n)
            &&& longer.last() as u32 == '0' as u32 + d
        },
{
    if n > 0 {
        assert((n * 10 + d) / 10 == n);
        assert((n * 10 + d) % 10 == d);
        assert(decimal(n * 10 + d).take(decimal(n).len() as int) =~= decimal(n));
    }
}

/// No number starts with a zero, except zero itself.
pub proof fn lemma_no_leading_zero(n: nat)
    requires
        n > 0,
    ensures
        decimal(n).len() > 0,
        decimal(n)[0] != '0',
    decreases n,
{
    if n >= 10 {
        lemma_no_leading_zero(n / 10);
        assert(decimal(n)[0] == decimal(n / 10)[0]);
    }
}

/// No text stands for a number unless it is made of digits. A digit stands for
/// how far it is behind `0`. One more digit behind a number makes it ten times as
/// large, and adds the digit, as long as a `u64` can hold that.
pub proof fn lemma_number_digits(s: Seq<char>, c: char)
    ensures
        number(Seq::empty()) is None,
        number(seq![c]) == (if '0' <= c <= '9' {
            Some((c as u32 - '0' as u32) as u64)
        } else {
            None
        }),
        s.len() > 0 ==> number(s.push(c)) == (match number(s) {
            Some(n) => if '0' <= c <= '9' && n * 10 + (c as u32 - '0' as u32) <= u64::MAX {
                Some((n * 10 + (c as u32 - '0' as u32)) as u64)
            } else {
                None
            },
            None => None,
        }),
{
    let one = seq![c];
    assert(one.drop_last() =~= Seq::<char>::empty());
    assert(digits_value(one.drop_last()) == 0);
    assert(one[0] == c);
    let more = s.push(c);
    assert(more.drop_last() =~= s);
    assert(more[s.len() as int] == c);
    if all_digits(more) {
        assert forall|i: int| 0 <= i < s.len() implies is_digit(#[trigger] s[i]) by {
            assert(more[i] == s[i]);
        }
    }
    if all_digits(s) && is_digit(c) {
        assert forall|i: int| 0 <= i < more.len() implies is_digit(#[trigger] more[i]) by {
            if i < s.len() {
                assert(more[i] == s[i]);
            }
        }
    }
}

/// The last piece holds no separator. What stands in front of it ends with a
/// separator, and without that it has the other pieces; where there are none, the
/// last piece is all there is. `front` is what is left once the last piece and
/// the separator are taken off.
pub proof fn lemma_take_off_piece(s: Seq<char>, sep: char) -> (front: Seq<char>)
    ensures
        pieces(s, sep).len() > 0,
        !pieces(s, sep).last().contains(sep),
        pieces(s, sep).len() == 1 ==> s == pieces(s, sep)[0],
        pieces(s, sep).len() > 1 ==> s == front.push(sep) + pieces(s, sep).last() && pieces(
            front,
            sep,
        ) == pieces(s, sep).drop_last(),
    decreases s.len(),
{
    if s.len() == 0 {
        assert(s =~= Seq::<char>::empty());
        s
    } else {
        let short = s.drop_last();
        let before = pieces(short, sep);
        let now = pieces(s, sep);
        let front = lemma_take_off_piece(short, sep);
        assert(short.push(s.last()) =~= s);
        if s.last() == sep {
            assert(now.drop_last() =~= before);
            assert(s =~= short.push(sep) + now.last());
            short
        } else {
            let last = before.last();
            assert forall|i: int| 0 <= i < now.last().len() implies now.last()[i] != sep by {
                if i < last.len() {
                    assert(last[i] == now.last()[i]);
                    assert(last.contains(last[i]));
                }
            }
            assert(now.drop_last() =~= before.drop_last());
            if now.len() > 1 {
                assert(s =~= front.push(sep) + now.last());
            }
            front
        }
    }
}

/// Two pieces, and the separator between them, make up the text.
pub proof fn lemma_two_pieces(s: Seq<char>, sep: char)
    requires
        pieces(s, sep).len() == 2,
    ensures
        s == pieces(s, sep)[0].push(sep) + pieces(s, sep)[1],
        !pieces(s, sep)[0].contains(sep),
        !pieces(s, sep)[1].contains(sep),
{
    let front = lemma_take_off_piece(s, sep);
    lemma_take_off_piece(front, sep);
    assert(pieces(front, sep)[0] == pieces(s, sep)[0]);
}

} // verus!
