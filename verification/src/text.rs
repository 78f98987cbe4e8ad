//! Building text: decimal numbers, padded columns, repeated and joined pieces.

use vstd::prelude::*;
use vstd::string::*;

verus! {

/// `String::push` appends one character at the end of the text and changes nothing else.
pub assume_specification[ String::push ](text: &mut String, ch: char)
    ensures
        final(text)@ == old(text)@.push(ch),
;

/// The decimal digit that stands for `d`.
pub open spec fn digit(d: int) -> char {
    (48 + d) as char
}

/// `n` in decimal notation, without leading zeros.
pub open spec fn decimal(n: nat) -> Seq<char>
    decreases n,
{
    if n < 10 {
        seq![digit(n as int)]
    } else {
        decimal(n / 10).push(digit((n % 10) as int))
    }
}

/// `i` in decimal notation, with a minus sign in front where `i` is negative.
pub open spec fn signed_decimal(i: int) -> Seq<char> {
    if i < 0 {
        seq!['-'] + decimal((-i) as nat)
    } else {
        decimal(i as nat)
    }
}

/// Appends the decimal digit for `d`.
fn push_digit(text: &mut String, d: u64)
    requires
        d < 10,
    ensures
        final(text)@ == old(text)@.push(digit(d as int)),
{
    let c: char = match d {
        0 => '0',
        1 => '1',
        2 => '2',
        3 => '3',
        4 => '4',
        5 => '5',
        6 => '6',
        7 => '7',
        8 => '8',
        _ => '9',
    };
    text.push(c);
}

/// Appends `n` in decimal notation.
pub fn push_decimal(text: &mut String, n: u64)
    ensures
        final(text)@ == old(text)@ + decimal(n as nat),
    decreases n,
{
    if n >= 10 {
        push_decimal(text, n / 10);
    }
    push_digit(text, n % 10);
    proof {
        assert(final(text)@ =~= old(text)@ + decimal(n as nat));
    }
}

/// Appends `i` in decimal notation, with its sign where it is negative.
pub fn push_signed(text: &mut String, i: i64)
    ensures
        final(text)@ == old(text)@ + signed_decimal(i as int),
{
    if i < 0 {
        text.push('-');
        let magnitude: u64 = (-(i + 1)) as u64 + 1;
        push_decimal(text, magnitude);
        assert(final(text)@ =~= old(text)@ + signed_decimal(i as int));
    } else {
        push_decimal(text, i as u64);
    }
}

/// `n` in decimal notation.
pub fn decimal_text(n: usize) -> (text: String)
    ensures
        text@ == decimal(n as nat),
{
    let mut text = String::new();
    push_decimal(&mut text, n as u64);
    assert(text@ =~= decimal(n as nat));
    text
}

/// `i` in decimal notation, with its sign where it is negative.
pub fn signed_text(i: i64) -> (text: String)
    ensures
        text@ == signed_decimal(i as int),
{
    let mut text = String::new();
    push_signed(&mut text, i);
    assert(text@ =~= signed_decimal(i as int));
    text
}

/// `n` blanks.
pub open spec fn blanks(n: nat) -> Seq<char> {
    Seq::new(n, |i: int| ' ')
}

/// `text` in a column of `width` characters: blanks follow it where it is shorter.
pub open spec fn padded(text: Seq<char>, width: nat) -> Seq<char> {
    if text.len() < width {
        text + blanks((width - text.len()) as nat)
    } else {
        text
    }
}

/// Appends `piece` in a column of `width` characters.
pub fn push_padded(text: &mut String, piece: &str, width: usize)
    ensures
        final(text)@ == old(text)@ + padded(piece@, width as nat),
{
    text.append(piece);
    let mut filled: usize = piece.unicode_len();
    let ghost start = filled as int;
    assert(text@ =~= old(text)@ + piece@ + blanks(0));
    while filled < width
        invariant
            start == piece@.len(),
            start <= filled,
            start < width ==> filled <= width,
            start >= width ==> filled == start,
            text@ == old(text)@ + piece@ + blanks((filled - start) as nat),
        decreases width - filled,
    {
        text.push(' ');
        filled = filled + 1;
        assert(text@ =~= old(text)@ + piece@ + blanks((filled - start) as nat));
    }
    assert(final(text)@ =~= old(text)@ + padded(piece@, width as nat));
}

/// `unit`, `n` times over.
pub open spec fn repeated(unit: Seq<char>, n: nat) -> Seq<char>
    decreases n,
{
    if n == 0 {
        Seq::empty()
    } else {
        repeated(unit, (n - 1) as nat) + unit
    }
}

/// `unit`, `n` times over.
pub fn repeat_text(unit: &str, n: usize) -> (text: String)
    ensures
        text@ == repeated(unit@, n as nat),
{
    let mut text = String::new();
    let mut i: usize = 0;
    while i < n
        invariant
            i <= n,
            text@ == repeated(unit@, i as nat),
        decreases n - i,
    {
        text.append(unit);
        i = i + 1;
    }
    text
}

/// The characters of `text`, in order.
pub fn chars_of(text: &str) -> (chars: Vec<char>)
    ensures
        chars@ == text@,
{
    let mut chars: Vec<char> = Vec::new();
    for c in it: text.chars()
        invariant
            chars@ == it.seq().take(it.index()),
    {
        chars.push(c);
    }
    chars
}

/// Where one thing stands in relation to another in some order.
#[derive(Clone, Copy, Debug, PartialEq, Eq, Structural)]
pub enum Order {
    Less,
    Equal,
    Greater,
}

impl Order {
    /// The same relation, seen from the other side.
    pub open spec fn reversed(self) -> Order {
        match self {
            Order::Less => Order::Greater,
            Order::Equal => Order::Equal,
            Order::Greater => Order::Less,
        }
    }
}

/// The order of two integers.
pub open spec fn int_order(a: int, b: int) -> Order {
    if a < b {
        Order::Less
    } else if a == b {
        Order::Equal
    } else {
        Order::Greater
    }
}

/// The lexicographic order of two sequences of integers: the first difference decides, and a
/// sequence stands before those that it begins.
pub open spec fn lexicographic(a: Seq<int>, b: Seq<int>) -> Order
    decreases a.len(),
{
    if a.len() == 0 || b.len() == 0 {
        int_order(a.len() as int, b.len() as int)
    } else if a[0] == b[0] {
        lexicographic(a.drop_first(), b.drop_first())
    } else {
        int_order(a[0], b[0])
    }
}

/// The code points of a text.
pub open spec fn code_points(text: Seq<char>) -> Seq<int> {
    Seq::new(text.len(), |i: int| text[i] as int)
}

/// Bytes as integers.
pub open spec fn byte_values(bytes: Seq<u8>) -> Seq<int> {
    Seq::new(bytes.len(), |i: int| bytes[i] as int)
}

/// The order of two texts, by their code points.
pub fn text_order(a: &str, b: &str) -> (order: Order)
    ensures
        order == lexicographic(code_points(a@), code_points(b@)),
{
    let x: Vec<char> = chars_of(a);
    let y: Vec<char> = chars_of(b);
    let ghost s = code_points(a@);
    let ghost u = code_points(b@);
    let mut i: usize = 0;
    assert(s.skip(0) =~= s && u.skip(0) =~= u);
    while i < x.len() && i < y.len()
        invariant
            x@ == a@,
            y@ == b@,
            s == code_points(a@),
            u == code_points(b@),
            i <= x.len(),
            i <= y.len(),
            lexicographic(s, u) == lexicographic(s.skip(i as int), u.skip(i as int)),
        decreases x.len() - i,
    {
        if x[i] < y[i] {
            return Order::Less;
        }
        if x[i] > y[i] {
            return Order::Greater;
        }
        assert(s.skip(i as int).drop_first() =~= s.skip(i + 1));
        assert(u.skip(i as int).drop_first() =~= u.skip(i + 1));
        i = i + 1;
    }
    if i < y.len() {
        Order::Less
    } else if i < x.len() {
        Order::Greater
    } else {
        Order::Equal
    }
}

/// The order of two byte strings.
pub fn bytes_order(x: &Vec<u8>, y: &Vec<u8>) -> (order: Order)
    ensures
        order == lexicographic(byte_values(x@), byte_values(y@)),
{
    let ghost s = byte_values(x@);
    let ghost u = byte_values(y@);
    let mut i: usize = 0;
    assert(s.skip(0) =~= s && u.skip(0) =~= u);
    while i < x.len() && i < y.len()
        invariant
            s == byte_values(x@),
            u == byte_values(y@),
            i <= x.len(),
            i <= y.len(),
            lexicographic(s, u) == lexicographic(s.skip(i as int), u.skip(i as int)),
        decreases x.len() - i,
    {
        if x[i] < y[i] {
            return Order::Less;
        }
        if x[i] > y[i] {
            return Order::Greater;
        }
        assert(s.skip(i as int).drop_first() =~= s.skip(i + 1));
        assert(u.skip(i as int).drop_first() =~= u.skip(i + 1));
        i = i + 1;
    }
    if i < y.len() {
        Order::Less
    } else if i < x.len() {
        Order::Greater
    } else {
        Order::Equal
    }
}

/// Seen from the other side, the lexicographic order is reversed.
pub proof fn lemma_lexicographic_reversed(a: Seq<int>, b: Seq<int>)
    ensures
        lexicographic(b, a) == lexicographic(a, b).reversed(),
    decreases a.len(),
{
    if a.len() > 0 && b.len() > 0 && a[0] == b[0] {
        lemma_lexicographic_reversed(a.drop_first(), b.drop_first());
    }
}

/// Two sequences that the lexicographic order does not tell apart are the same.
pub proof fn lemma_lexicographic_equal(a: Seq<int>, b: Seq<int>)
    ensures
        lexicographic(a, b) == Order::Equal <==> a == b,
    decreases a.len(),
{
    if a.len() > 0 && b.len() > 0 && a[0] == b[0] {
        lemma_lexicographic_equal(a.drop_first(), b.drop_first());
        if a.drop_first() == b.drop_first() {
            assert(a =~= seq![a[0]] + a.drop_first());
            assert(b =~= seq![b[0]] + b.drop_first());
        }
    } else if a.len() == 0 && b.len() == 0 {
        assert(a =~= b);
    }
}

/// The characters with the Unicode property `White_Space`.
pub open spec fn is_white_space(c: char) -> bool {
    let code = c as int;
    ||| 0x9 <= code <= 0xd
    ||| code == 0x20
    ||| code == 0x85
    ||| code == 0xa0
    ||| code == 0x1680
    ||| 0x2000 <= code <= 0x200a
    ||| code == 0x2028
    ||| code == 0x2029
    ||| code == 0x202f
    ||| code == 0x205f
    ||| code == 0x3000
}

/// The set of white space characters.
pub open spec fn white_space() -> Set<char> {
    Set::new(|c: char| is_white_space(c))
}

/// `text` without the characters of `strip` at its two ends.
pub open spec fn trimmed(text: Seq<char>, strip: Set<char>) -> Seq<char>
    decreases text.len(),
{
    if text.len() > 0 && strip.contains(text.first()) {
        trimmed(text.drop_first(), strip)
    } else if text.len() > 0 && strip.contains(text.last()) {
        trimmed(text.drop_last(), strip)
    } else {
        text
    }
}

/// Tells whether `c` is white space.
fn white_space_char(c: char) -> (b: bool)
    ensures
        b == is_white_space(c),
{
    let code: u32 = c as u32;
    (0x9 <= code && code <= 0xd) || code == 0x20 || code == 0x85 || code == 0xa0 || code == 0x1680
        || (0x2000 <= code && code <= 0x200a) || code == 0x2028 || code == 0x2029 || code == 0x202f
        || code == 0x205f || code == 0x3000
}

/// Tells whether `c` is one of `chars`.
fn one_of(chars: &Vec<char>, c: char) -> (b: bool)
    ensures
        b == chars@.to_set().contains(c),
{
    let mut i: usize = 0;
    while i < chars.len()
        invariant
            i <= chars.len(),
            forall|j: int| 0 <= j < i ==> chars@[j] != c,
        decreases chars.len() - i,
    {
        if chars[i] == c {
            assert(chars@.contains(chars@[i as int]));
            return true;
        }
        i = i + 1;
    }
    false
}

/// The part of `text` that is left when the flagged characters at its two ends are taken away.
#[verifier::rlimit(60)]
fn cut_ends(text: &str, flags: &Vec<bool>, Ghost(strip): Ghost<Set<char>>) -> (rest: String)
    requires
        flags@.len() == text@.len(),
        forall|i: int| 0 <= i < text@.len() ==> flags@[i] == strip.contains(#[trigger] text@[i]),
    ensures
        rest@ == trimmed(text@, strip),
{
    let mut from: usize = 0;
    let mut to: usize = flags.len();
    assert(text@.subrange(0, to as int) =~= text@);
    while from < to && flags[from]
        invariant
            from <= to == text@.len(),
            flags@.len() == text@.len(),
            forall|i: int|
                0 <= i < text@.len() ==> flags@[i] == strip.contains(#[trigger] text@[i]),
            trimmed(text@, strip) == trimmed(text@.subrange(from as int, to as int), strip),
        decreases to - from,
    {
        let ghost part = text@.subrange(from as int, to as int);
        assert(part.first() == text@[from as int]);
        assert(part.drop_first() =~= text@.subrange(from + 1, to as int));
        from = from + 1;
    }
    while from < to && flags[to - 1]
        invariant
            from <= to <= text@.len(),
            flags@.len() == text@.len(),
            forall|i: int|
                0 <= i < text@.len() ==> flags@[i] == strip.contains(#[trigger] text@[i]),
            from < to ==> !flags@[from as int],
            trimmed(text@, strip) == trimmed(text@.subrange(from as int, to as int), strip),
        decreases to - from,
    {
        let ghost part = text@.subrange(from as int, to as int);
        assert(part.first() == text@[from as int]);
        assert(part.last() == text@[to - 1]);
        assert(part.drop_last() =~= text@.subrange(from as int, to - 1));
        to = to - 1;
    }
    proof {
        let part = text@.subrange(from as int, to as int);
        if from < to {
            assert(part.first() == text@[from as int]);
            assert(part.last() == text@[to - 1]);
        }
    }
    text.substring_char(from, to).to_owned()
}

/// `text` without the white space at its two ends.
pub fn trim_white_space(text: &str) -> (rest: String)
    ensures
        rest@ == trimmed(text@, white_space()),
{
    let mut flags: Vec<bool> = Vec::new();
    for c in it: text.chars()
        invariant
            flags@.len() == it.index(),
            forall|i: int|
                0 <= i < it.index() ==> flags@[i] == white_space().contains(
                    #[trigger] it.seq()[i],
                ),
    {
        flags.push(white_space_char(c));
    }
    cut_ends(text, &flags, Ghost(white_space()))
}

/// `text` without the characters of `strip` at its two ends.
pub fn trim_chars(text: &str, strip: &str) -> (rest: String)
    ensures
        rest@ == trimmed(text@, strip@.to_set()),
{
    let chars: Vec<char> = chars_of(strip);
    let mut flags: Vec<bool> = Vec::new();
    for c in it: text.chars()
        invariant
            chars@ == strip@,
            flags@.len() == it.index(),
            forall|i: int|
                0 <= i < it.index() ==> flags@[i] == strip@.to_set().contains(
                    #[trigger] it.seq()[i],
                ),
    {
        flags.push(one_of(&chars, c));
    }
    cut_ends(text, &flags, Ghost(strip@.to_set()))
}

/// Tells whether `text` from `from` up to `to` is what is left of it when characters of `strip` are
/// cut off at its two ends.
pub open spec fn is_left(text: Seq<char>, strip: Set<char>, from: int, to: int) -> bool {
    &&& 0 <= from <= to <= text.len()
    &&& trimmed(text, strip) == text.subrange(from, to)
    &&& forall|i: int| 0 <= i < from || to <= i < text.len() ==> #[trigger] strip.contains(text[i])
}

/// What is left without the first character, where it is to be stripped, is what is left.
proof fn lemma_left_first(text: Seq<char>, strip: Set<char>, from: int, to: int)
    requires
        text.len() > 0,
        strip.contains(text.first()),
        is_left(text.drop_first(), strip, from, to),
    ensures
        is_left(text, strip, from + 1, to + 1),
{
    let rest = text.drop_first();
    assert(rest.subrange(from, to) =~= text.subrange(from + 1, to + 1));
    assert forall|i: int|
        0 <= i < from + 1 || to + 1 <= i < text.len() implies #[trigger] strip.contains(
        text[i],
    ) by {
        if i > 0 {
            assert(strip.contains(rest[i - 1]));
        }
    }
}

/// What is left without the last character, where it is to be stripped and the first one is not, is
/// what is left.
proof fn lemma_left_last(text: Seq<char>, strip: Set<char>, from: int, to: int)
    requires
        text.len() > 0,
        !strip.contains(text.first()),
        strip.contains(text.last()),
        is_left(text.drop_last(), strip, from, to),
    ensures
        is_left(text, strip, from, to),
{
    let rest = text.drop_last();
    assert(rest.subrange(from, to) =~= text.subrange(from, to));
    assert forall|i: int| 0 <= i < from || to <= i < text.len() implies #[trigger] strip.contains(
        text[i],
    ) by {
        if i < rest.len() {
            assert(strip.contains(rest[i]));
        }
    }
}

/// A trimmed text neither begins nor ends with a character that was to be stripped. It is a
/// contiguous part of the text that it comes from, and all that is cut off before and behind it was
/// to be stripped.
pub proof fn law_trimmed_ends(text: Seq<char>, strip: Set<char>)
    ensures
        trimmed(text, strip).len() > 0 ==> {
            &&& !strip.contains(trimmed(text, strip).first())
            &&& !strip.contains(trimmed(text, strip).last())
        },
        exists|from: int, to: int| is_left(text, strip, from, to),
    decreases text.len(),
{
    if text.len() > 0 && strip.contains(text.first()) {
        let rest = text.drop_first();
        law_trimmed_ends(rest, strip);
        let (from, to) = choose|from: int, to: int| is_left(rest, strip, from, to);
        lemma_left_first(text, strip, from, to);
    } else if text.len() > 0 && strip.contains(text.last()) {
        let rest = text.drop_last();
        law_trimmed_ends(rest, strip);
        let (from, to) = choose|from: int, to: int| is_left(rest, strip, from, to);
        lemma_left_last(text, strip, from, to);
    } else {
        assert(text.subrange(0, text.len() as int) =~= text);
        assert(is_left(text, strip, 0, text.len() as int));
    }
}

/// Trimming a trimmed text changes nothing.
pub proof fn law_trimmed_twice(text: Seq<char>, strip: Set<char>)
    ensures
        trimmed(trimmed(text, strip), strip) == trimmed(text, strip),
{
    law_trimmed_ends(text, strip);
}

/// The number that decimal digits stand for.
pub open spec fn digits_value(digits: Seq<char>) -> int
    decreases digits.len(),
{
    if digits.len() == 0 {
        0
    } else {
        10 * digits_value(digits.drop_last()) + (digits.last() as int - '0' as int)
    }
}

/// A number in decimal notation reads as that number; it has digits alone, and no zero in front but
/// for zero itself.
pub proof fn law_decimal_reads_back(n: nat)
    ensures
        digits_value(decimal(n)) == n,
        decimal(n).len() > 0,
        forall|i: int| 0 <= i < decimal(n).len() ==> '0' <= (#[trigger] decimal(n)[i]) <= '9',
        n > 0 ==> decimal(n)[0] != '0',
        n < 10 ==> decimal(n).len() == 1,
    decreases n,
{
    if n >= 10 {
        law_decimal_reads_back(n / 10);
        assert(decimal(n).drop_last() =~= decimal(n / 10));
        assert(decimal(n)[0] == decimal(n / 10)[0]);
    } else {
        assert(decimal(n).drop_last() =~= Seq::empty());
        assert(digits_value(decimal(n).drop_last()) == 0);
    }
}

/// A number with its sign: a minus stands before a negative one, and nothing else before its
/// digits.
pub proof fn law_signed_decimal(i: int)
    ensures
        i >= 0 ==> digits_value(signed_decimal(i)) == i && signed_decimal(i)[0] != '-',
        i < 0 ==> signed_decimal(i)[0] == '-' && digits_value(signed_decimal(i).drop_first()) == -i,
{
    if i >= 0 {
        law_decimal_reads_back(i as nat);
    } else {
        law_decimal_reads_back((-i) as nat);
        assert(signed_decimal(i).drop_first() =~= decimal((-i) as nat));
    }
}

/// A text in a column begins with the text itself; blanks alone follow, until the column is full. A
/// text that is longer than its column is not cut.
pub proof fn law_padded(text: Seq<char>, width: nat)
    ensures
        padded(text, width).len() == if text.len() < width {
            width
        } else {
            text.len()
        },
        padded(text, width).take(text.len() as int) == text,
        forall|i: int|
            text.len() <= i < padded(text, width).len() ==> #[trigger] padded(text, width)[i]
                == ' ',
{
    assert(padded(text, width).take(text.len() as int) =~= text);
}

/// A text that is repeated has the text's own characters, over and over.
pub proof fn law_repeated(unit: Seq<char>, n: nat)
    ensures
        repeated(unit, 0) == Seq::<char>::empty(),
        repeated(unit, n + 1) == repeated(unit, n) + unit,
        repeated(unit, n).len() == n * unit.len(),
    decreases n,
{
    if n > 0 {
        law_repeated(unit, (n - 1) as nat);
        assert((n - 1) * unit.len() + unit.len() == n * unit.len()) by (nonlinear_arith);
    } else {
        assert(0 * unit.len() == 0);
    }
}

/// The order of two integers.
pub proof fn law_int_order(a: int, b: int)
    ensures
        int_order(a, b) is Less <==> a < b,
        int_order(a, b) is Equal <==> a == b,
        int_order(a, b) is Greater <==> a > b,
{
}

/// The first place at which two sequences differ decides their order; where there is none, the
/// shorter one comes first.
pub proof fn law_first_difference_decides(a: Seq<int>, b: Seq<int>, k: int)
    requires
        0 <= k <= a.len(),
        k <= b.len(),
        forall|i: int| 0 <= i < k ==> a[i] == b[i],
    ensures
        k < a.len() && k < b.len() && a[k] < b[k] ==> lexicographic(a, b) is Less,
        k < a.len() && k < b.len() && a[k] > b[k] ==> lexicographic(a, b) is Greater,
        k == a.len() && k < b.len() ==> lexicographic(a, b) is Less,
        k == b.len() && k < a.len() ==> lexicographic(a, b) is Greater,
        k == a.len() && k == b.len() ==> lexicographic(a, b) is Equal,
    decreases k,
{
    if k > 0 {
        let (s, t) = (a.drop_first(), b.drop_first());
        assert(a[0] == b[0]);
        assert forall|i: int| 0 <= i < k - 1 implies s[i] == t[i] by {
            assert(a[i + 1] == b[i + 1]);
        }
        law_first_difference_decides(s, t, k - 1);
    }
}

/// The white space characters, by their code points.
pub proof fn law_white_space(c: char)
    ensures
        white_space().contains(c) <==> {
            ||| c == ' '
            ||| '\t' <= c <= '\r'
            ||| c == '\u{85}'
            ||| c == '\u{a0}'
            ||| c == '\u{1680}'
            ||| '\u{2000}' <= c <= '\u{200a}'
            ||| c == '\u{2028}'
            ||| c == '\u{2029}'
            ||| c == '\u{202f}'
            ||| c == '\u{205f}'
            ||| c == '\u{3000}'
        },
{
}

} // verus!
