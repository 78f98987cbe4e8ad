//! The functions of the values of one row, and the test that `If` and `IfNot` make.

use std::rc::Rc;
use vstd::prelude::*;
use vstd::string::*;
use vstd::utf8::encode_utf8;
use crate::double::{
    integer_bits, is_nan, is_nearest, law_nearest_below_one, law_nearest_is_one,
    law_units_increase, nearest_bits, numeric, order_bits, real_order, Double, DoubleView, ONE,
};
use crate::print::shown;
use crate::text::{trim_chars, trim_white_space, trimmed, white_space, Order};
use crate::value::{OwnedValue, ValueView};

verus! {

/// What `str::to_lowercase` returns.
pub uninterp spec fn lowercase(text: Seq<char>) -> Seq<char>;

/// What `str::to_uppercase` returns.
pub uninterp spec fn uppercase(text: Seq<char>) -> Seq<char>;

/// Tells whether a text has nothing but ASCII characters.
pub open spec fn is_ascii_text(text: Seq<char>) -> bool {
    forall|i: int| 0 <= i < text.len() ==> (#[trigger] text[i]) as int <= 0x7f
}

/// An ASCII character in lower case.
pub open spec fn lower_char(c: char) -> char {
    if 'A' <= c <= 'Z' {
        (c as int + 32) as char
    } else {
        c
    }
}

/// An ASCII character in upper case.
pub open spec fn upper_char(c: char) -> char {
    if 'a' <= c <= 'z' {
        (c as int - 32) as char
    } else {
        c
    }
}

/// An ASCII text in lower case.
pub open spec fn lower_ascii(text: Seq<char>) -> Seq<char> {
    Seq::new(text.len(), |i: int| lower_char(text[i]))
}

/// An ASCII text in upper case.
pub open spec fn upper_ascii(text: Seq<char>) -> Seq<char> {
    Seq::new(text.len(), |i: int| upper_char(text[i]))
}

/// `str::to_lowercase` depends on the text alone; `lowercase` names what it returns: the text in
/// lower case, as Unicode defines it. In ASCII text the letters from A to Z are replaced by those
/// from a to z, and nothing else is changed.
pub assume_specification[ str::to_lowercase ](text: &str) -> (lower: String)
    ensures
        lower@ == lowercase(text@),
        is_ascii_text(text@) ==> lower@ == lower_ascii(text@),
;

/// `str::to_uppercase` depends on the text alone; `uppercase` names what it returns: the text in
/// upper case, as Unicode defines it. In ASCII text the letters from a to z are replaced by those
/// from A to Z, and nothing else is changed.
pub assume_specification[ str::to_uppercase ](text: &str) -> (upper: String)
    ensures
        upper@ == uppercase(text@),
        is_ascii_text(text@) ==> upper@ == upper_ascii(text@),
;

/// A text in lower case.
pub open spec fn lower_text(text: Seq<char>) -> Seq<char> {
    if is_ascii_text(text) {
        lower_ascii(text)
    } else {
        lowercase(text)
    }
}

/// A text in upper case.
pub open spec fn upper_text(text: Seq<char>) -> Seq<char> {
    if is_ascii_text(text) {
        upper_ascii(text)
    } else {
        uppercase(text)
    }
}

/// A value in lower case: text is mapped, any other value is kept.
pub open spec fn lower_value(v: ValueView) -> ValueView {
    match v {
        ValueView::Text(t) => ValueView::Text(lower_text(t)),
        _ => v,
    }
}

/// A value in upper case: text is mapped, any other value is kept.
pub open spec fn upper_value(v: ValueView) -> ValueView {
    match v {
        ValueView::Text(t) => ValueView::Text(upper_text(t)),
        _ => v,
    }
}

/// A value in lower case.
pub fn exec_lower(reg: &OwnedValue) -> (v: Option<OwnedValue>)
    ensures
        v matches Some(x) && x@ == lower_value(reg@),
{
    match reg {
        OwnedValue::Text(t) => Some(OwnedValue::Text(Rc::new(t.as_str().to_lowercase()))),
        other => Some(other.clone()),
    }
}

/// A value in upper case.
pub fn exec_upper(reg: &OwnedValue) -> (v: Option<OwnedValue>)
    ensures
        v matches Some(x) && x@ == upper_value(reg@),
{
    match reg {
        OwnedValue::Text(t) => Some(OwnedValue::Text(Rc::new(t.as_str().to_uppercase()))),
        other => Some(other.clone()),
    }
}

/// The length of a value: the number of bytes of text and numbers as they are shown and of byte
/// strings. Any other value is kept.
pub open spec fn length_value(v: ValueView) -> ValueView {
    match v {
        ValueView::Text(_) | ValueView::Integer(_) | ValueView::Float(_) => ValueView::Integer(
            encode_utf8(shown(v)).len() as i64,
        ),
        ValueView::Blob(b) => ValueView::Integer(b.len() as i64),
        _ => v,
    }
}

/// The length of a value.
pub fn exec_length(reg: &OwnedValue) -> (v: OwnedValue)
    ensures
        v@ == length_value(reg@),
{
    match reg {
        OwnedValue::Text(_) | OwnedValue::Integer(_) | OwnedValue::Float(_) => {
            let text: String = reg.to_text();
            OwnedValue::Integer(text.as_str().as_bytes().len() as i64)
        },
        OwnedValue::Blob(b) => OwnedValue::Integer(b.len() as i64),
        _ => reg.clone(),
    }
}

/// The absolute value of a number. That of NULL is NULL, that of any other value is zero.
pub open spec fn abs_value(v: ValueView) -> ValueView {
    match v {
        ValueView::Integer(x) => ValueView::Integer(
            if x < 0 {
                (-x) as i64
            } else {
                x
            },
        ),
        ValueView::Float(d) => ValueView::Float(d.abs()),
        ValueView::Null => ValueView::Null,
        _ => ValueView::Float(DoubleView::zero()),
    }
}

/// The absolute value of a value.
pub fn exec_abs(reg: &OwnedValue) -> (v: Option<OwnedValue>)
    requires
        reg@ != ValueView::Integer(i64::MIN),
    ensures
        v matches Some(x) && x@ == abs_value(reg@),
{
    match reg {
        OwnedValue::Integer(x) => if *x < 0 {
            Some(OwnedValue::Integer(-*x))
        } else {
            Some(OwnedValue::Integer(*x))
        },
        OwnedValue::Float(d) => Some(OwnedValue::Float(d.abs())),
        OwnedValue::Null => Some(OwnedValue::Null),
        _ => Some(OwnedValue::Float(Double::zero())),
    }
}

/// A value without what `pattern` says at its two ends: the characters of the pattern as it is
/// shown, or white space where there is no pattern. With a pattern, a number is taken as it is
/// shown; without one, only text is trimmed. Any other value is kept.
pub open spec fn trim_value(v: ValueView, pattern: Option<ValueView>) -> ValueView {
    match pattern {
        Some(p) => match v {
            ValueView::Text(_) | ValueView::Integer(_) | ValueView::Float(_) => ValueView::Text(
                trimmed(shown(v), shown(p).to_set()),
            ),
            _ => v,
        },
        None => match v {
            ValueView::Text(t) => ValueView::Text(trimmed(t, white_space())),
            _ => v,
        },
    }
}

/// A value that may be missing, by what it holds.
pub open spec fn option_view(v: Option<OwnedValue>) -> Option<ValueView> {
    match v {
        Some(x) => Some(x@),
        None => None,
    }
}

/// A value without what `pattern` says at its two ends.
pub fn exec_trim(reg: &OwnedValue, pattern: Option<OwnedValue>) -> (v: OwnedValue)
    ensures
        v@ == trim_value(reg@, option_view(pattern)),
{
    match (reg, pattern) {
        (reg, Some(pattern)) => match reg {
            OwnedValue::Text(_) | OwnedValue::Integer(_) | OwnedValue::Float(_) => {
                let strip: String = pattern.to_text();
                let text: String = reg.to_text();
                OwnedValue::Text(Rc::new(trim_chars(text.as_str(), strip.as_str())))
            },
            _ => reg.clone(),
        },
        (OwnedValue::Text(t), None) => OwnedValue::Text(Rc::new(trim_white_space(t.as_str()))),
        (reg, _) => reg.clone(),
    }
}

/// An operand of rounding: a double, by its bits, or text that is to be read as a number.
#[derive(Debug)]
pub enum RoundOperand {
    Text(String),
    Number(u64),
}

/// What a `RoundOperand` holds.
pub enum RoundOperandView {
    Text(Seq<char>),
    Number(u64),
}

impl View for RoundOperand {
    type V = RoundOperandView;

    open spec fn view(&self) -> RoundOperandView {
        match *self {
            RoundOperand::Text(t) => RoundOperandView::Text(t@),
            RoundOperand::Number(bits) => RoundOperandView::Number(bits),
        }
    }
}

/// What comes of rounding a value.
#[derive(Debug)]
pub enum Rounding {
    /// This value: there is nothing to round, or nothing to round to.
    Value(OwnedValue),
    /// Floating-point arithmetic has to round `value` to `precision` decimal places.
    Host { value: RoundOperand, precision: RoundOperand },
}

/// What a `Rounding` holds.
pub enum RoundingView {
    Value(ValueView),
    Host { value: RoundOperandView, precision: RoundOperandView },
}

impl View for Rounding {
    type V = RoundingView;

    open spec fn view(&self) -> RoundingView {
        match *self {
            Rounding::Value(v) => RoundingView::Value(v@),
            Rounding::Host { value, precision } => RoundingView::Host {
                value: value@,
                precision: precision@,
            },
        }
    }
}

/// A value as an operand of rounding, where it is one. An integer is taken as the double nearest to
/// it.
pub open spec fn round_operand(v: ValueView) -> Option<RoundOperandView> {
    match v {
        ValueView::Text(t) => Some(RoundOperandView::Text(t)),
        ValueView::Integer(i) => Some(RoundOperandView::Number(nearest_bits(i as int))),
        ValueView::Float(d) => Some(RoundOperandView::Number(d.bits)),
        _ => None,
    }
}

/// Tells whether a value is a number less than one.
pub open spec fn below_one(v: ValueView) -> bool {
    match v {
        ValueView::Integer(i) => i < 1,
        ValueView::Float(d) => real_order(d.bits, ONE) == Some(Order::Less),
        _ => false,
    }
}

/// A number of decimal places as an operand of rounding, where it is one. What is less than one
/// counts as none. Text is left as it is: it has to be read first.
pub open spec fn places_operand(v: ValueView) -> Option<RoundOperandView> {
    if below_one(v) {
        Some(RoundOperandView::Number(0))
    } else {
        round_operand(v)
    }
}

/// What comes of rounding `v` to `precision` decimal places, none where it is missing: NULL where
/// the precision is neither a number nor text, the value itself where that holds of the value.
pub open spec fn round_value(v: ValueView, precision: Option<ValueView>) -> RoundingView {
    let places = match precision {
        Some(p) => places_operand(p),
        None => Some(RoundOperandView::Number(0)),
    };
    match (places, round_operand(v)) {
        (None, _) => RoundingView::Value(ValueView::Null),
        (_, None) => RoundingView::Value(v),
        (Some(p), Some(x)) => RoundingView::Host { value: x, precision: p },
    }
}

/// A value as an operand of rounding, where it is one.
fn to_round_operand(v: &OwnedValue) -> (o: Option<RoundOperand>)
    ensures
        match o {
            Some(x) => round_operand(v@) == Some(x@),
            None => round_operand(v@) is None,
        },
{
    match v {
        OwnedValue::Text(t) => Some(RoundOperand::Text((**t).clone())),
        OwnedValue::Integer(i) => Some(RoundOperand::Number(integer_bits(*i))),
        OwnedValue::Float(d) => Some(RoundOperand::Number(d.bits)),
        _ => None,
    }
}

/// A number of decimal places as an operand of rounding, where it is one.
fn to_places_operand(v: &OwnedValue) -> (o: Option<RoundOperand>)
    ensures
        match o {
            Some(x) => places_operand(v@) == Some(x@),
            None => places_operand(v@) is None,
        },
{
    let none: bool = match v {
        OwnedValue::Integer(i) => *i < 1,
        OwnedValue::Float(d) => match order_bits(d.bits, ONE) {
            Some(Order::Less) => true,
            _ => false,
        },
        _ => false,
    };
    if none {
        Some(RoundOperand::Number(0))
    } else {
        to_round_operand(v)
    }
}

/// What comes of rounding `reg` to `precision` decimal places, none where it is missing.
pub fn exec_round(reg: &OwnedValue, precision: Option<OwnedValue>) -> (r: Rounding)
    ensures
        r@ == round_value(reg@, option_view(precision)),
{
    let places: RoundOperand = match &precision {
        Some(p) => match to_places_operand(p) {
            Some(o) => o,
            None => return Rounding::Value(OwnedValue::Null),
        },
        None => RoundOperand::Number(0),
    };
    match to_round_operand(reg) {
        Some(value) => Rounding::Host { value, precision: places },
        None => Rounding::Value(reg.clone()),
    }
}

/// The bits of the double that an operand of rounding stands for. `parsed` holds those of the
/// number that its text is read as, where the text is that of a number; other text is zero.
pub open spec fn value_bits(o: RoundOperandView, parsed: Option<u64>) -> u64 {
    match o {
        RoundOperandView::Number(bits) => bits,
        RoundOperandView::Text(_) => match parsed {
            Some(bits) => bits,
            None => 0,
        },
    }
}

/// The bits of the number of decimal places that an operand of rounding stands for. What is less
/// than one counts as none.
pub open spec fn places_bits(o: RoundOperandView, parsed: Option<u64>) -> u64 {
    let bits = value_bits(o, parsed);
    if real_order(bits, ONE) == Some(Order::Less) {
        0
    } else {
        bits
    }
}

/// The bits of the double that an operand of rounding stands for, with those of the number that its
/// text is read as.
pub fn operand_value(o: &RoundOperand, parsed: Option<u64>) -> (bits: u64)
    ensures
        bits == value_bits(o@, parsed),
{
    match o {
        RoundOperand::Number(bits) => *bits,
        RoundOperand::Text(_) => match parsed {
            Some(bits) => bits,
            None => 0,
        },
    }
}

/// The bits of the number of decimal places that an operand of rounding stands for, with those of
/// the number that its text is read as.
pub fn operand_places(o: &RoundOperand, parsed: Option<u64>) -> (bits: u64)
    ensures
        bits == places_bits(o@, parsed),
{
    let bits: u64 = operand_value(o, parsed);
    match order_bits(bits, ONE) {
        Some(Order::Less) => 0,
        _ => bits,
    }
}

/// What an operand's text is read as, where it has text.
pub open spec fn parsed_by(
    o: RoundOperandView,
    read: spec_fn(Seq<char>) -> Option<u64>,
) -> Option<u64> {
    match o {
        RoundOperandView::Text(t) => read(t),
        RoundOperandView::Number(_) => None,
    }
}

/// What comes of rounding `v` to `precision` decimal places when text is read by `read`: a value,
/// or two numbers on which floating-point arithmetic has to do the rest.
pub open spec fn round_read(
    v: ValueView,
    precision: Option<ValueView>,
    read: spec_fn(Seq<char>) -> Option<u64>,
) -> RoundingView {
    match round_value(v, precision) {
        RoundingView::Value(x) => RoundingView::Value(x),
        RoundingView::Host { value, precision } => RoundingView::Host {
            value: RoundOperandView::Number(value_bits(value, parsed_by(value, read))),
            precision: RoundOperandView::Number(
                places_bits(precision, parsed_by(precision, read)),
            ),
        },
    }
}

/// Tells whether a value is the number zero.
pub open spec fn is_zero(v: ValueView) -> bool {
    match v {
        ValueView::Integer(i) => i == 0,
        ValueView::Float(d) => d.is_zero(),
        _ => false,
    }
}

/// Tells whether a value is a number.
pub open spec fn is_number(v: ValueView) -> bool {
    v is Integer || v is Float
}

/// Tells whether to jump. A number decides by whether it is other than zero, and the other way
/// round with `not`; for NULL, jump where `null_value` is a number other than zero; do not jump for
/// any other value.
pub open spec fn jumps(v: ValueView, null_value: ValueView, not: bool) -> bool {
    if is_number(v) {
        is_zero(v) == not
    } else {
        v is Null && is_number(null_value) && !is_zero(null_value)
    }
}

/// Tells whether to jump.
pub fn exec_if(reg: &OwnedValue, null_reg: &OwnedValue, not: bool) -> (jump: bool)
    ensures
        jump == jumps(reg@, null_reg@, not),
{
    match reg {
        OwnedValue::Integer(i) => (*i == 0) == not,
        OwnedValue::Float(d) => d.is_zero() == not,
        OwnedValue::Null => match null_reg {
            OwnedValue::Integer(i) => *i != 0,
            OwnedValue::Float(d) => !d.is_zero(),
            _ => false,
        },
        _ => false,
    }
}

/// On a number, just one of the two tests jumps: the one with `not` or the one without. On any
/// other value the two agree.
pub proof fn law_if_or_if_not(v: ValueView, null_value: ValueView)
    ensures
        is_number(v) ==> jumps(v, null_value, true) != jumps(v, null_value, false),
        !is_number(v) ==> jumps(v, null_value, true) == jumps(v, null_value, false),
{
}

/// The absolute value of an integer is not negative, and taking it again changes nothing.
pub proof fn law_abs_integer(x: i64)
    requires
        x != i64::MIN,
    ensures
        abs_value(ValueView::Integer(x)) matches ValueView::Integer(y) && y >= 0 && (y == x || y
            == -x),
        abs_value(abs_value(ValueView::Integer(x))) == abs_value(ValueView::Integer(x)),
{
}

/// Upper and lower case of ASCII text: to change the case twice is to change it the second time
/// alone, and the length is kept.
pub proof fn law_case_of_ascii(text: Seq<char>)
    requires
        is_ascii_text(text),
    ensures
        lower_text(upper_text(text)) == lower_text(text),
        lower_text(lower_text(text)) == lower_text(text),
        upper_text(lower_text(text)) == upper_text(text),
        upper_text(upper_text(text)) == upper_text(text),
        lower_text(text).len() == text.len(),
        upper_text(text).len() == text.len(),
{
    let (lower, upper) = (lower_text(text), upper_text(text));
    assert forall|i: int| 0 <= i < text.len() implies (#[trigger] lower[i]) as int <= 0x7f by {
        assert(text[i] as int <= 0x7f);
    }
    assert forall|i: int| 0 <= i < text.len() implies (#[trigger] upper[i]) as int <= 0x7f by {
        assert(text[i] as int <= 0x7f);
    }
    assert(lower_text(upper) =~= lower);
    assert(lower_text(lower) =~= lower);
    assert(upper_text(lower) =~= upper);
    assert(upper_text(upper) =~= upper);
}

/// Upper and lower case of values: of ASCII text as `law_case_of_ascii` says, and other values than
/// text are kept.
pub proof fn law_case_of_values(v: ValueView)
    requires
        v matches ValueView::Text(t) ==> is_ascii_text(t),
    ensures
        lower_value(upper_value(v)) == lower_value(v),
        lower_value(lower_value(v)) == lower_value(v),
        upper_value(lower_value(v)) == upper_value(v),
        upper_value(upper_value(v)) == upper_value(v),
        !(v is Text) ==> lower_value(v) == v && upper_value(v) == v,
{
    if let ValueView::Text(t) = v {
        law_case_of_ascii(t);
    }
}

/// A number of decimal places that is less than one, zero and negative ones among them, counts as
/// none.
pub proof fn law_round_to_less_than_one(v: ValueView, precision: ValueView)
    requires
        below_one(precision),
    ensures
        round_value(v, Some(precision)) == round_value(v, None),
{
}

/// Rounding takes an integer as the double nearest to it, be it the value or the precision.
pub proof fn law_round_integer_as_double(
    v: ValueView,
    precision: Option<ValueView>,
    i: i64,
    d: DoubleView,
)
    requires
        is_nearest(d.bits, i as int),
    ensures
        round_value(ValueView::Integer(i), precision) == round_value(
            ValueView::Float(d),
            precision,
        ),
        round_value(v, Some(ValueView::Integer(i))) == round_value(v, Some(ValueView::Float(d))),
{
    law_nearest_is_one(d.bits, i as int);
    law_nearest_below_one(d.bits, i as int);
}

/// Rounding takes text as the double that it is read as, and as zero where it is not that of a
/// number, be it the value or the precision. A precision that is not that of a number counts as
/// none. All this holds however text is read.
pub proof fn law_round_text_as_double(
    v: ValueView,
    precision: Option<ValueView>,
    text: Seq<char>,
    d: DoubleView,
    read: spec_fn(Seq<char>) -> Option<u64>,
)
    requires
        d.bits == match read(text) {
            Some(bits) => bits,
            None => 0,
        },
    ensures
        round_read(ValueView::Text(text), precision, read) == round_read(
            ValueView::Float(d),
            precision,
            read,
        ),
        round_read(v, Some(ValueView::Text(text)), read) == round_read(
            v,
            Some(ValueView::Float(d)),
            read,
        ),
        read(text) is None ==> round_read(v, Some(ValueView::Text(text)), read) == round_read(
            v,
            None,
            read,
        ),
{
}

/// Trimming a value that has been trimmed the same way changes nothing.
pub proof fn law_trim_value_twice(v: ValueView, pattern: Option<ValueView>)
    ensures
        trim_value(trim_value(v, pattern), pattern) == trim_value(v, pattern),
{
    match pattern {
        Some(p) => {
            crate::text::law_trimmed_twice(shown(v), shown(p).to_set());
        },
        None => {
            if let ValueView::Text(t) = v {
                crate::text::law_trimmed_twice(t, white_space());
            }
        },
    }
}

/// ASCII text in lower case has the letters from A to Z replaced by those from a to z, each by its
/// own; in upper case it is the other way round. Every other character stays as it is.
pub proof fn law_case_by_letters(text: Seq<char>, i: int)
    requires
        is_ascii_text(text),
        0 <= i < text.len(),
    ensures
        lower_value(ValueView::Text(text)) matches ValueView::Text(lower) && {
            &&& lower.len() == text.len()
            &&& 'A' <= text[i] <= 'Z' ==> lower[i] as int - 'a' as int == text[i] as int
                - 'A' as int
            &&& !('A' <= text[i] <= 'Z') ==> lower[i] == text[i]
        },
        upper_value(ValueView::Text(text)) matches ValueView::Text(upper) && {
            &&& upper.len() == text.len()
            &&& 'a' <= text[i] <= 'z' ==> upper[i] as int - 'A' as int == text[i] as int
                - 'a' as int
            &&& !('a' <= text[i] <= 'z') ==> upper[i] == text[i]
        },
{
}

/// A code point is not negative.
proof fn lemma_code_point(c: char)
    ensures
        0 <= c as int,
{
}

/// ASCII text has as many bytes as characters.
proof fn lemma_ascii_bytes(text: Seq<char>)
    requires
        is_ascii_text(text),
    ensures
        encode_utf8(text).len() == text.len(),
{
    assert forall|i: int| 0 <= i < text.len() implies '\0' <= #[trigger] text[i] <= '\u{7f}' by {
        assert(text[i] as int <= 0x7f);
        lemma_code_point(text[i]);
    }
    vstd::utf8::is_ascii_chars_encode_utf8(text);
}

/// The length of text is the number of bytes of its UTF-8 form, so that of ASCII text is the number
/// of its characters; that of a number is the length of the text that shows it; that of a byte
/// string is the number of its bytes. NULL and other values are kept.
pub proof fn law_length(v: ValueView)
    ensures
        v matches ValueView::Text(t) ==> {
            &&& encode_utf8(t).len() <= i64::MAX ==> length_value(v) == ValueView::Integer(
                encode_utf8(t).len() as i64,
            )
            &&& is_ascii_text(t) ==> length_value(v) == ValueView::Integer(t.len() as i64)
        },
        v is Integer || v is Float ==> length_value(v) == length_value(ValueView::Text(shown(v))),
        v matches ValueView::Blob(b) ==> length_value(v) == ValueView::Integer(b.len() as i64),
        v is Null || v is Agg || v is Record ==> length_value(v) == v,
{
    if let ValueView::Text(t) = v {
        if is_ascii_text(t) {
            lemma_ascii_bytes(t);
        }
    }
}

/// The absolute value, kind by kind: a number without its sign, NULL of NULL, and zero of all else.
pub proof fn law_abs(v: ValueView)
    ensures
        v matches ValueView::Integer(x) ==> {
            &&& x >= 0 ==> abs_value(v) == v
            &&& i64::MIN < x < 0 ==> abs_value(v) == ValueView::Integer((-x) as i64)
        },
        v matches ValueView::Float(d) ==> (abs_value(v) matches ValueView::Float(e) && e == d.abs()),
        v is Null ==> abs_value(v) is Null,
        v is Text || v is Blob || v is Agg || v is Record ==> abs_value(v) == ValueView::Float(
            DoubleView { bits: 0, plain: "0"@, marked: "0.0"@ },
        ),
{
}

/// Trimming, kind by kind: with a pattern, text and numbers as they are shown lose the characters
/// of the pattern as it is shown; without one, text loses white space. Other values are kept.
pub proof fn law_trim(v: ValueView, p: ValueView, text: Seq<char>)
    ensures
        trim_value(ValueView::Text(text), Some(p)) == ValueView::Text(
            trimmed(text, shown(p).to_set()),
        ),
        trim_value(ValueView::Text(text), None) == ValueView::Text(trimmed(text, white_space())),
        v is Integer || v is Float ==> trim_value(v, Some(p)) == trim_value(
            ValueView::Text(shown(v)),
            Some(p),
        ) && trim_value(v, None) == v,
        v is Null || v is Blob || v is Agg || v is Record ==> trim_value(v, Some(p)) == v
            && trim_value(v, None) == v,
{
}

/// Rounding, kind by kind: the host gets a float by its bits, an integer as the double nearest to
/// it, and text as it is; and the number of places in the same way, but zero for what is less than
/// one and where none is given. There is no rounding to what is neither a number nor text, and none
/// of it.
pub proof fn law_round(v: ValueView, p: ValueView, x: u64, y: u64)
    ensures
        ({
            let value = match v {
                ValueView::Text(t) => RoundOperandView::Text(t),
                ValueView::Float(d) => RoundOperandView::Number(d.bits),
                _ => RoundOperandView::Number(x),
            };
            let places = match p {
                ValueView::Text(t) => RoundOperandView::Text(t),
                ValueView::Float(d) => RoundOperandView::Number(
                    if !is_nan(d.bits) && numeric(d.bits) < numeric(0x3ff0_0000_0000_0000) {
                        0
                    } else {
                        d.bits
                    },
                ),
                ValueView::Integer(i) => RoundOperandView::Number(
                    if i < 1 {
                        0
                    } else {
                        y
                    },
                ),
                _ => RoundOperandView::Number(0),
            };
            let rounded = v is Text || v is Float || (v matches ValueView::Integer(i) && is_nearest(
                x,
                i as int,
            ));
            let placed = p is Text || p is Float || (p matches ValueView::Integer(i) && is_nearest(
                y,
                i as int,
            ));
            &&& rounded && placed ==> round_value(v, Some(p)) == (RoundingView::Host {
                value,
                precision: places,
            })
            &&& rounded ==> round_value(v, None) == (RoundingView::Host {
                value,
                precision: RoundOperandView::Number(0),
            })
            &&& p is Null || p is Blob || p is Agg || p is Record ==> round_value(v, Some(p))
                == RoundingView::Value(ValueView::Null)
            &&& v is Null || v is Blob || v is Agg || v is Record ==> round_value(v, None)
                == RoundingView::Value(v) && (placed ==> round_value(v, Some(p))
                == RoundingView::Value(v))
        }),
{
    if let ValueView::Integer(i) = v {
        if is_nearest(x, i as int) {
            law_nearest_is_one(x, i as int);
        }
    }
    if let ValueView::Integer(i) = p {
        if is_nearest(y, i as int) {
            law_nearest_is_one(y, i as int);
        }
    }
    assert(!is_nan(ONE));
}

/// What an operand of rounding stands for: a number for itself, text for the number that it was
/// read as, or zero. A number of places that is less than one counts as zero.
pub proof fn law_round_operands(bits: u64, text: Seq<char>, parsed: Option<u64>)
    ensures
        value_bits(RoundOperandView::Number(bits), parsed) == bits,
        value_bits(RoundOperandView::Text(text), Some(bits)) == bits,
        value_bits(RoundOperandView::Text(text), None) == 0,
        ({
            let places = if !is_nan(bits) && numeric(bits) < numeric(0x3ff0_0000_0000_0000) {
                0
            } else {
                bits
            };
            &&& places_bits(RoundOperandView::Number(bits), parsed) == places
            &&& places_bits(RoundOperandView::Text(text), Some(bits)) == places
        }),
        places_bits(RoundOperandView::Text(text), None) == 0,
{
    assert(!is_nan(ONE));
    law_units_increase(0, ONE as int);
}

/// An operand of rounding and what comes of it hold what they were made of, in that order.
pub proof fn law_rounding_views(
    text: String,
    bits: u64,
    value: RoundOperand,
    precision: RoundOperand,
    v: OwnedValue,
)
    ensures
        RoundOperand::Text(text)@ == RoundOperandView::Text(text@),
        RoundOperand::Number(bits)@ == RoundOperandView::Number(bits),
        Rounding::Value(v)@ == RoundingView::Value(v@),
        (Rounding::Host { value, precision })@ == (RoundingView::Host {
            value: value@,
            precision: precision@,
        }),
        option_view(Some(v)) == Some(v@),
        option_view(None) is None,
{
}

} // verus!
