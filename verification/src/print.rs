//! Values as text: the form that SQL functions and listings see, and the form that shows a value's
//! kind as well.

use vstd::prelude::*;
use vstd::string::*;
use crate::text::{decimal, push_decimal, push_signed, signed_decimal};
use crate::value::{
    agg_view, lemma_record_view, value_view, values_view, AggContext, AggView, OwnedValue, ValueView,
};

verus! {

/// `parts` one after the other, with `separator` between any two of them.
pub open spec fn joined(parts: Seq<Seq<char>>, separator: Seq<char>) -> Seq<char>
    decreases parts.len(),
{
    if parts.len() == 0 {
        Seq::empty()
    } else if parts.len() == 1 {
        parts[0]
    } else {
        joined(parts.drop_last(), separator) + separator + parts.last()
    }
}

/// `parts` in brackets, with commas between them.
pub open spec fn listed(parts: Seq<Seq<char>>) -> Seq<char> {
    "["@ + joined(parts, ", "@) + "]"@
}

/// One part more: the separator comes before it, unless it is the first.
pub proof fn lemma_joined_next(parts: Seq<Seq<char>>, separator: Seq<char>, i: int)
    requires
        0 <= i < parts.len(),
    ensures
        i == 0 ==> joined(parts.take(1), separator) == parts[0],
        i > 0 ==> joined(parts.take(i + 1), separator) == joined(parts.take(i), separator)
            + separator + parts[i],
{
    if i > 0 {
        assert(parts.take(i + 1).drop_last() =~= parts.take(i));
    }
}

/// A quoted text: in double quotes, with what cannot stand between them escaped.
pub uninterp spec fn quoted(text: Seq<char>) -> Seq<char>;

/// Calls `format!` with `{:?}` on a text. The result depends on the text alone, and `quoted` names
/// it: the text in double quotes, with quotes, backslashes and characters that do not print
/// escaped as `str`'s `Debug` implementation escapes them.
#[verifier::external_body]
fn quote(text: &str) -> (q: String)
    ensures
        q@ == quoted(text@),
{
    format!("{:?}", text)
}

/// The decimal forms of bytes.
pub open spec fn byte_texts(bytes: Seq<u8>) -> Seq<Seq<char>> {
    Seq::new(bytes.len(), |i: int| decimal(bytes[i] as nat))
}

/// A value in the form that shows its kind.
pub open spec fn debug_text(v: ValueView) -> Seq<char>
    decreases v,
{
    match v {
        ValueView::Null => "Null"@,
        ValueView::Integer(i) => "Integer("@ + signed_decimal(i as int) + ")"@,
        ValueView::Float(d) => "Float("@ + d.marked + ")"@,
        ValueView::Text(t) => "Text("@ + quoted(t) + ")"@,
        ValueView::Blob(b) => "Blob("@ + listed(byte_texts(b)) + ")"@,
        ValueView::Agg(a) => "Agg("@ + debug_agg(*a) + ")"@,
        ValueView::Record(r) => "Record(OwnedRecord { values: "@ + listed(debug_texts(r)) + " })"@,
    }
}

/// The values of a row, each in the form that shows its kind.
pub open spec fn debug_texts(r: Seq<ValueView>) -> Seq<Seq<char>>
    decreases r,
{
    Seq::new(
        r.len(),
        |i: int|
            if 0 <= i < r.len() {
                debug_text(r[i])
            } else {
                Seq::empty()
            },
    )
}

/// An aggregate's state in the form that shows its kind.
pub open spec fn debug_agg(a: AggView) -> Seq<char>
    decreases a,
{
    match a {
        AggView::Avg(sum, count) => "Avg("@ + debug_text(sum) + ", "@ + debug_text(count) + ")"@,
        AggView::Sum(v) => "Sum("@ + debug_text(v) + ")"@,
        AggView::Count(v) => "Count("@ + debug_text(v) + ")"@,
        AggView::Max(v) => "Max("@ + debug_text(v) + ")"@,
        AggView::Min(v) => "Min("@ + debug_text(v) + ")"@,
        AggView::GroupConcat(v) => "GroupConcat("@ + debug_text(v) + ")"@,
    }
}

/// A value in the form that SQL sees.
pub open spec fn shown(v: ValueView) -> Seq<char>
    decreases v,
{
    match v {
        ValueView::Null => "NULL"@,
        ValueView::Integer(i) => signed_decimal(i as int),
        ValueView::Float(d) => d.marked,
        ValueView::Text(t) => t,
        ValueView::Blob(b) => listed(byte_texts(b)),
        ValueView::Agg(a) => match *a {
            AggView::Avg(acc, _) => shown(acc),
            AggView::Sum(acc) => shown(acc),
            AggView::Count(acc) => shown(acc),
            AggView::Max(acc) => shown(acc),
            AggView::Min(acc) => shown(acc),
            AggView::GroupConcat(acc) => shown(acc),
        },
        ValueView::Record(r) => "OwnedRecord { values: "@ + listed(debug_texts(r)) + " }"@,
    }
}

/// Appends bytes as a list.
fn push_bytes(text: &mut String, bytes: &Vec<u8>)
    ensures
        final(text)@ == old(text)@ + listed(byte_texts(bytes@)),
{
    let ghost start = text@;
    let ghost parts = byte_texts(bytes@);
    text.append("[");
    let mut i: usize = 0;
    assert(text@ =~= start + "["@ + joined(parts.take(0), ", "@));
    while i < bytes.len()
        invariant
            i <= bytes.len(),
            parts == byte_texts(bytes@),
            text@ == start + "["@ + joined(parts.take(i as int), ", "@),
        decreases bytes.len() - i,
    {
        proof {
            lemma_joined_next(parts, ", "@, i as int);
        }
        if i > 0 {
            text.append(", ");
        }
        push_decimal(text, bytes[i] as u64);
        i = i + 1;
        assert(text@ =~= start + "["@ + joined(parts.take(i as int), ", "@));
    }
    assert(parts.take(i as int) =~= parts);
    text.append("]");
    assert(text@ =~= start + listed(parts));
}

/// Appends a value in the form that shows its kind.
pub fn push_debug(text: &mut String, v: &OwnedValue)
    ensures
        final(text)@ == old(text)@ + debug_text(v@),
    decreases v,
{
    let ghost start = text@;
    match v {
        OwnedValue::Null => {
            text.append("Null");
        },
        OwnedValue::Integer(i) => {
            text.append("Integer(");
            push_signed(text, *i);
            text.append(")");
        },
        OwnedValue::Float(d) => {
            text.append("Float(");
            text.append(d.marked.as_str());
            text.append(")");
        },
        OwnedValue::Text(t) => {
            text.append("Text(");
            let q: String = quote(t.as_str());
            text.append(q.as_str());
            text.append(")");
        },
        OwnedValue::Blob(b) => {
            text.append("Blob(");
            push_bytes(text, &**b);
            text.append(")");
        },
        OwnedValue::Agg(a) => {
            text.append("Agg(");
            push_debug_agg(text, &**a);
            text.append(")");
        },
        OwnedValue::Record(r) => {
            text.append("Record(OwnedRecord { values: ");
            push_debug_list(text, &r.values);
            text.append(" })");
            proof {
                lemma_record_view(*r);
            }
        },
    }
    assert(text@ =~= start + debug_text(v@));
}

/// Appends an aggregate's state in the form that shows its kind.
fn push_debug_agg(text: &mut String, a: &AggContext)
    ensures
        final(text)@ == old(text)@ + debug_agg(a@),
    decreases a,
{
    let ghost start = text@;
    match a {
        AggContext::Avg(sum, count) => {
            text.append("Avg(");
            push_debug(text, sum);
            text.append(", ");
            push_debug(text, count);
        },
        AggContext::Sum(v) => {
            text.append("Sum(");
            push_debug(text, v);
        },
        AggContext::Count(v) => {
            text.append("Count(");
            push_debug(text, v);
        },
        AggContext::Max(v) => {
            text.append("Max(");
            push_debug(text, v);
        },
        AggContext::Min(v) => {
            text.append("Min(");
            push_debug(text, v);
        },
        AggContext::GroupConcat(v) => {
            text.append("GroupConcat(");
            push_debug(text, v);
        },
    }
    text.append(")");
    assert(text@ =~= start + debug_agg(a@));
}

/// Appends the values of a row as a list.
fn push_debug_list(text: &mut String, values: &Vec<OwnedValue>)
    ensures
        final(text)@ == old(text)@ + listed(debug_texts(values_view(values@))),
    decreases values,
{
    let ghost start = text@;
    let ghost parts = debug_texts(values_view(values@));
    text.append("[");
    let mut i: usize = 0;
    assert(text@ =~= start + "["@ + joined(parts.take(0), ", "@));
    while i < values.len()
        invariant
            i <= values.len(),
            parts == debug_texts(values_view(values@)),
            text@ == start + "["@ + joined(parts.take(i as int), ", "@),
        decreases values.len() - i,
    {
        proof {
            lemma_joined_next(parts, ", "@, i as int);
        }
        if i > 0 {
            text.append(", ");
        }
        assert(decreases_to!(*values => values[i as int]));
        push_debug(text, &values[i]);
        assert(parts[i as int] == debug_text(values@[i as int]@));
        i = i + 1;
        assert(text@ =~= start + "["@ + joined(parts.take(i as int), ", "@));
    }
    assert(parts.take(i as int) =~= parts);
    text.append("]");
    assert(text@ =~= start + listed(parts));
}

/// A value in the form that shows its kind.
pub fn debug_string(v: &OwnedValue) -> (text: String)
    ensures
        text@ == debug_text(v@),
{
    let mut text = String::new();
    push_debug(&mut text, v);
    assert(text@ =~= debug_text(v@));
    text
}

impl OwnedValue {
    /// The value in the form that SQL sees.
    pub fn to_text(&self) -> (text: String)
        ensures
            text@ == shown(self@),
        decreases self,
    {
        proof {
            reveal_with_fuel(value_view, 3);
            reveal_with_fuel(agg_view, 2);
        }
        match self {
            OwnedValue::Null => "NULL".to_owned(),
            OwnedValue::Integer(i) => crate::text::signed_text(*i),
            OwnedValue::Float(d) => d.marked.clone(),
            OwnedValue::Text(t) => (**t).clone(),
            OwnedValue::Blob(b) => {
                let mut text = String::new();
                push_bytes(&mut text, &**b);
                assert(text@ =~= listed(byte_texts(b@)));
                text
            },
            OwnedValue::Agg(a) => match &**a {
                AggContext::Avg(acc, _) => acc.to_text(),
                AggContext::Sum(acc) => acc.to_text(),
                AggContext::Count(acc) => acc.to_text(),
                AggContext::Max(acc) => acc.to_text(),
                AggContext::Min(acc) => acc.to_text(),
                AggContext::GroupConcat(acc) => acc.to_text(),
            },
            OwnedValue::Record(r) => {
                let mut text = "OwnedRecord { values: ".to_owned();
                push_debug_list(&mut text, &r.values);
                text.append(" }");
                proof {
                    lemma_record_view(*r);
                }
                text
            },
        }
    }
}

/// Joining parts: without a part there is nothing, one part is itself, and each further part stands
/// behind the separator.
pub proof fn law_joined(parts: Seq<Seq<char>>, last: Seq<char>, separator: Seq<char>)
    ensures
        joined(Seq::empty(), separator) == Seq::<char>::empty(),
        joined(seq![last], separator) == last,
        parts.len() > 0 ==> joined(parts.push(last), separator) == joined(parts, separator)
            + separator + last,
{
    assert(parts.push(last).drop_last() =~= parts);
}

/// A list stands in brackets, and a comma and a blank stand between its parts.
pub proof fn law_listed(first: Seq<char>, second: Seq<char>, parts: Seq<Seq<char>>)
    ensures
        listed(Seq::empty()) == seq!['[', ']'],
        listed(seq![first]) == seq!['['] + first + seq![']'],
        listed(seq![first, second]) == seq!['['] + first + seq![',', ' '] + second + seq![']'],
        listed(parts) == seq!['['] + joined(parts, seq![',', ' ']) + seq![']'],
{
    reveal_strlit("[");
    reveal_strlit("]");
    reveal_strlit(", ");
    assert("["@ =~= seq!['[']);
    assert("]"@ =~= seq![']']);
    assert(", "@ =~= seq![',', ' ']);
    law_joined(Seq::empty(), first, ", "@);
    law_joined(seq![first], second, ", "@);
    assert(seq![first].push(second) =~= seq![first, second]);
    assert(listed(Seq::empty()) =~= seq!['[', ']']);
}

/// How values are shown: NULL by its name, integers in decimal, floats in the form that shows that
/// they are floats, text as it is, byte strings as the list of their bytes in decimal, aggregates
/// by the value that they have come to.
pub proof fn law_shown(v: ValueView, w: ValueView, b: Seq<u8>, i: int)
    ensures
        shown(ValueView::Null) == seq!['N', 'U', 'L', 'L'],
        v matches ValueView::Integer(n) ==> shown(v) == signed_decimal(n as int),
        v matches ValueView::Float(d) ==> shown(v) == d.marked,
        v matches ValueView::Text(t) ==> shown(v) == t,
        shown(ValueView::Blob(b)) == listed(byte_texts(b)),
        byte_texts(b).len() == b.len(),
        0 <= i < b.len() ==> byte_texts(b)[i] == decimal(b[i] as nat),
        shown(ValueView::Agg(Box::new(AggView::Avg(v, w)))) == shown(v),
        shown(ValueView::Agg(Box::new(AggView::Sum(v)))) == shown(v),
        shown(ValueView::Agg(Box::new(AggView::Count(v)))) == shown(v),
        shown(ValueView::Agg(Box::new(AggView::Max(v)))) == shown(v),
        shown(ValueView::Agg(Box::new(AggView::Min(v)))) == shown(v),
        shown(ValueView::Agg(Box::new(AggView::GroupConcat(v)))) == shown(v),
{
    reveal_with_fuel(shown, 2);
    reveal_strlit("NULL");
    assert("NULL"@ =~= seq!['N', 'U', 'L', 'L']);
}

/// The form that shows a value's kind: the kind's name, and in round brackets what the value holds.
/// That of an aggregate names the function's kind as well, that of a row is the list of its values'
/// forms.
pub proof fn law_debug_text(v: ValueView, w: ValueView, r: Seq<ValueView>, i: int)
    ensures
        debug_text(ValueView::Null) == "Null"@,
        v matches ValueView::Integer(n) ==> debug_text(v) == "Integer("@ + signed_decimal(n as int)
            + ")"@,
        v matches ValueView::Float(d) ==> debug_text(v) == "Float("@ + d.marked + ")"@,
        v matches ValueView::Text(t) ==> debug_text(v) == "Text("@ + quoted(t) + ")"@,
        v matches ValueView::Blob(b) ==> debug_text(v) == "Blob("@ + shown(v) + ")"@,
        debug_text(ValueView::Agg(Box::new(AggView::Avg(v, w)))) == "Agg("@ + ("Avg("@ + debug_text(v)
            + ", "@ + debug_text(w) + ")"@) + ")"@,
        debug_text(ValueView::Agg(Box::new(AggView::Sum(v)))) == "Agg("@ + ("Sum("@ + debug_text(v)
            + ")"@) + ")"@,
        debug_text(ValueView::Agg(Box::new(AggView::Count(v)))) == "Agg("@ + ("Count("@ + debug_text(
            v,
        ) + ")"@) + ")"@,
        debug_text(ValueView::Agg(Box::new(AggView::Max(v)))) == "Agg("@ + ("Max("@ + debug_text(v)
            + ")"@) + ")"@,
        debug_text(ValueView::Agg(Box::new(AggView::Min(v)))) == "Agg("@ + ("Min("@ + debug_text(v)
            + ")"@) + ")"@,
        debug_text(ValueView::Agg(Box::new(AggView::GroupConcat(v)))) == "Agg("@ + ("GroupConcat("@
            + debug_text(v) + ")"@) + ")"@,
        debug_text(ValueView::Record(r)) == "Record("@ + shown(ValueView::Record(r)) + ")"@,
        shown(ValueView::Record(r)) == "OwnedRecord { values: "@ + listed(debug_texts(r)) + " }"@,
        debug_texts(r).len() == r.len(),
        0 <= i < r.len() ==> debug_texts(r)[i] == debug_text(r[i]),
{
    reveal_with_fuel(debug_text, 3);
    reveal_with_fuel(debug_agg, 3);
    reveal_with_fuel(debug_texts, 2);
    reveal_strlit("Record(");
    reveal_strlit("Record(OwnedRecord { values: ");
    reveal_strlit("OwnedRecord { values: ");
    reveal_strlit(" })");
    reveal_strlit(" }");
    reveal_strlit(")");
    assert("Record(OwnedRecord { values: "@ =~= "Record("@ + "OwnedRecord { values: "@);
    assert(" })"@ =~= " }"@ + ")"@);
    assert(debug_text(ValueView::Record(r)) =~= "Record("@ + shown(ValueView::Record(r)) + ")"@);
}

} // verus!
