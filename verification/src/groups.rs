//! Laws of aggregate functions: what comes of a group of rows.

use vstd::prelude::*;
use crate::aggregate::{
    agg_final, agg_start, agg_step, agg_value, mixed_kinds, number_of, FedView,
};
use crate::arith::{fits, quotient_of, sum_of, ComputedView, NumberView};
use crate::double::{is_nan, law_infinities, numeric, DoubleView};
use crate::function::AggFunc;
use crate::insn::Insn;
use crate::print::{joined, shown};
use crate::protocol::{ReplyView, RequestView, StepError};
use crate::semantics::{executed, fed};
use crate::state::StateView;
use crate::text::signed_decimal;
use crate::value::{handed_out, AggView, ValueView};

verus! {

/// The value of an aggregate's register after the rows `cols`, one after the other; none where a
/// row cannot be taken in, or the host has to compute something for it.
pub open spec fn agg_over(
    func: AggFunc,
    cols: Seq<ValueView>,
    delimiter: ValueView,
) -> Option<ValueView>
    decreases cols.len(),
{
    if cols.len() == 0 {
        Some(ValueView::Null)
    } else {
        match agg_over(func, cols.drop_last(), delimiter) {
            Some(acc) => match agg_step(
                func,
                acc,
                Some(cols.last()),
                Some(delimiter),
                ReplyView::Nothing,
            ) {
                FedView::Value(v) => Some(v),
                _ => None,
            },
            None => None,
        }
    }
}

/// `AggStep` takes the value of one register into the aggregate of another, where the registers are
/// different ones.
pub proof fn law_agg_step_instruction(
    st: StateView,
    acc_reg: usize,
    col: usize,
    delimiter: usize,
    func: AggFunc,
    reply: ReplyView,
    draw: Option<i64>,
)
    requires
        st.has(acc_reg),
        col != acc_reg,
        delimiter != acc_reg,
    ensures
        executed(Insn::AggStep { acc_reg, col, delimiter, func }, st, reply, draw) == fed(
            st,
            acc_reg,
            agg_step(
                func,
                st.reg(acc_reg),
                st.maybe_reg(col as int),
                st.maybe_reg(delimiter as int),
                reply,
            ),
        ),
{
    reveal(executed);
}

/// A count is the number of rows, whatever the rows hold, and zero without a row.
pub proof fn law_count(cols: Seq<ValueView>, delimiter: ValueView)
    requires
        cols.len() <= i64::MAX,
    ensures
        cols.len() > 0 ==> agg_over(AggFunc::Count, cols, delimiter) == Some(
            agg_value(AggView::Count(ValueView::Integer(cols.len() as i64))),
        ),
        agg_over(AggFunc::Count, cols, delimiter) matches Some(acc) && agg_final(
            AggFunc::Count,
            acc,
            ReplyView::Nothing,
        ) matches FedView::Value(v) && handed_out(v) == Some(
            ValueView::Integer(cols.len() as i64),
        ),
    decreases cols.len(),
{
    if cols.len() > 0 {
        law_count(cols.drop_last(), delimiter);
    }
}

/// The sum of integers.
pub open spec fn integer_sum(cols: Seq<ValueView>) -> int
    decreases cols.len(),
{
    if cols.len() == 0 {
        0
    } else {
        integer_sum(cols.drop_last()) + cols.last()->Integer_0
    }
}

/// Tells whether the rows hold integers.
pub open spec fn all_integers(cols: Seq<ValueView>) -> bool {
    forall|i: int| 0 <= i < cols.len() ==> (#[trigger] cols[i]) is Integer
}

/// The sum of integers is the integer sum, where neither it nor a sum on the way to it overflows.
pub proof fn law_sum_of_integers(cols: Seq<ValueView>, delimiter: ValueView)
    requires
        cols.len() > 0,
        all_integers(cols),
        forall|n: int| 0 < n <= cols.len() ==> fits(integer_sum(#[trigger] cols.take(n))),
    ensures
        agg_over(AggFunc::Sum, cols, delimiter) == Some(
            agg_value(AggView::Sum(ValueView::Integer(integer_sum(cols) as i64))),
        ),
    decreases cols.len(),
{
    let before = cols.drop_last();
    assert(cols.take(cols.len() as int) =~= cols);
    assert(cols[cols.len() - 1] is Integer);
    if before.len() > 0 {
        assert forall|i: int| 0 <= i < before.len() implies (#[trigger] before[i]) is Integer by {
            assert(before[i] == cols[i]);
        }
        assert forall|n: int| 0 < n <= before.len() implies fits(
            integer_sum(#[trigger] before.take(n)),
        ) by {
            assert(before.take(n) =~= cols.take(n));
        }
        law_sum_of_integers(before, delimiter);
        assert(cols.take(cols.len() - 1) =~= before);
        assert(fits(integer_sum(cols.take(cols.len() - 1))));
    } else {
        assert(integer_sum(before) == 0);
        assert(agg_over(AggFunc::Sum, before, delimiter) == Some(ValueView::Null));
    }
}

/// The maximum of integers is one of them, and none of them is greater.
pub proof fn law_max_of_integers(cols: Seq<ValueView>, delimiter: ValueView)
    requires
        cols.len() > 0,
        all_integers(cols),
    ensures
        agg_over(AggFunc::Max, cols, delimiter) matches Some(ValueView::Agg(a))
            && *a matches AggView::Max(ValueView::Integer(m)) && cols.contains(
            ValueView::Integer(m),
        ) && forall|i: int| 0 <= i < cols.len() ==> (#[trigger] cols[i])->Integer_0 <= m,
    decreases cols.len(),
{
    let before = cols.drop_last();
    let last = cols.len() - 1;
    assert(cols[last] is Integer);
    if before.len() > 0 {
        assert forall|i: int| 0 <= i < before.len() implies (#[trigger] before[i]) is Integer by {
            assert(before[i] == cols[i]);
        }
        law_max_of_integers(before, delimiter);
        let m = (*agg_over(AggFunc::Max, before, delimiter)->0->Agg_0)->Max_0;
        let i = choose|i: int| 0 <= i < before.len() && before[i] == m;
        assert(cols[i] == m);
        assert forall|j: int| 0 <= j < last implies (#[trigger] cols[j])->Integer_0
            <= m->Integer_0 by {
            assert(cols[j] == before[j]);
        }
    } else {
        assert(agg_over(AggFunc::Max, before, delimiter) == Some(ValueView::Null));
    }
    assert(cols.last() == cols[last]);
}

/// The minimum of integers is one of them, and none of them is less.
pub proof fn law_min_of_integers(cols: Seq<ValueView>, delimiter: ValueView)
    requires
        cols.len() > 0,
        all_integers(cols),
    ensures
        agg_over(AggFunc::Min, cols, delimiter) matches Some(ValueView::Agg(a))
            && *a matches AggView::Min(ValueView::Integer(m)) && cols.contains(
            ValueView::Integer(m),
        ) && forall|i: int| 0 <= i < cols.len() ==> (#[trigger] cols[i])->Integer_0 >= m,
    decreases cols.len(),
{
    let before = cols.drop_last();
    let last = cols.len() - 1;
    assert(cols[last] is Integer);
    if before.len() > 0 {
        assert forall|i: int| 0 <= i < before.len() implies (#[trigger] before[i]) is Integer by {
            assert(before[i] == cols[i]);
        }
        law_min_of_integers(before, delimiter);
        let m = (*agg_over(AggFunc::Min, before, delimiter)->0->Agg_0)->Min_0;
        let i = choose|i: int| 0 <= i < before.len() && before[i] == m;
        assert(cols[i] == m);
        assert forall|j: int| 0 <= j < last implies (#[trigger] cols[j])->Integer_0
            >= m->Integer_0 by {
            assert(cols[j] == before[j]);
        }
    } else {
        assert(agg_over(AggFunc::Min, before, delimiter) == Some(ValueView::Null));
    }
    assert(cols.last() == cols[last]);
}

/// A value of another kind than a maximum or minimum has changes nothing.
pub proof fn law_mixed_kinds_change_nothing(
    func: AggFunc,
    a: AggView,
    col: ValueView,
    delimiter: Option<ValueView>,
)
    requires
        mixed_kinds(func, a, col),
    ensures
        agg_step(func, agg_value(a), Some(col), delimiter, ReplyView::Nothing) == FedView::Value(
            agg_value(a),
        ),
{
}

/// Texts as values.
pub open spec fn text_values(texts: Seq<Seq<char>>) -> Seq<ValueView> {
    Seq::new(texts.len(), |i: int| ValueView::Text(texts[i]))
}

/// Texts that are not empty are written one after the other, with the delimiter between them.
pub proof fn law_group_concat(func: AggFunc, texts: Seq<Seq<char>>, delimiter: Seq<char>)
    requires
        func is GroupConcat || func is StringAgg,
        texts.len() > 0,
        forall|i: int| 0 <= i < texts.len() ==> (#[trigger] texts[i]).len() > 0,
    ensures
        agg_over(func, text_values(texts), ValueView::Text(delimiter)) == Some(
            agg_value(AggView::GroupConcat(ValueView::Text(joined(texts, delimiter)))),
        ),
        joined(texts, delimiter).len() > 0,
    decreases texts.len(),
{
    let before = texts.drop_last();
    let cols = text_values(texts);
    assert(cols.drop_last() =~= text_values(before));
    assert(texts[texts.len() - 1].len() > 0);
    reveal_strlit("");
    if before.len() > 0 {
        assert forall|i: int| 0 <= i < before.len() implies (#[trigger] before[i]).len() > 0 by {
            assert(before[i] == texts[i]);
        }
        law_group_concat(func, before, delimiter);
        assert(joined(texts, delimiter) == joined(before, delimiter) + delimiter + texts.last());
    } else {
        assert(agg_over(func, cols.drop_last(), ValueView::Text(delimiter)) == Some(
            ValueView::Null,
        ));
    }
}

/// Tells whether a register holds a total: no row yet, or a sum that is no integer.
pub open spec fn is_total(acc: ValueView) -> bool {
    match acc {
        ValueView::Null => true,
        ValueView::Agg(a) => match *a {
            AggView::Sum(v) => v is Float || v is Text,
            _ => false,
        },
        _ => false,
    }
}

/// The result of a total is always a floating-point value, and no overflow is ever met on the way:
/// any row can be taken in, alone or with the host's help.
pub proof fn law_total_is_float(
    acc: ValueView,
    col: ValueView,
    delimiter: Option<ValueView>,
    reply: DoubleView,
)
    requires
        is_total(acc),
    ensures
        match agg_step(AggFunc::Total, acc, Some(col), delimiter, ReplyView::Nothing) {
            FedView::Value(v) => is_total(v) && !(v is Null),
            FedView::Ask(request) => request is Add && (agg_step(
                AggFunc::Total,
                acc,
                Some(col),
                delimiter,
                ReplyView::Float(reply),
            ) matches FedView::Value(v) && is_total(v) && !(v is Null)),
            FedView::Error(_) => false,
        },
        agg_final(AggFunc::Total, acc, ReplyView::Nothing) matches FedView::Value(v) && (handed_out(
            v,
        ) matches Some(ValueView::Float(_))),
{
}

/// A sum that has become a floating-point value never meets an overflow: any row can be taken in,
/// alone or with the host's help.
pub proof fn law_sum_after_float(
    sum: DoubleView,
    col: ValueView,
    delimiter: Option<ValueView>,
    reply: DoubleView,
)
    ensures
        ({
            let acc = agg_value(AggView::Sum(ValueView::Float(sum)));
            let step = agg_step(AggFunc::Sum, acc, Some(col), delimiter, ReplyView::Nothing);
            &&& !(step is Error)
            &&& step is Ask ==> agg_step(
                AggFunc::Sum,
                acc,
                Some(col),
                delimiter,
                ReplyView::Float(reply),
            ) == FedView::Value(agg_value(AggView::Sum(ValueView::Float(reply))))
        }),
{
}

/// An average has the host add up the numbers, counts the rows, and has the host divide at the end.
pub proof fn law_avg(
    sum: DoubleView,
    count: i64,
    col: ValueView,
    delimiter: Option<ValueView>,
    reply: DoubleView,
)
    requires
        col is Integer || col is Float,
        0 < count < i64::MAX,
    ensures
        ({
            let acc = agg_value(AggView::Avg(ValueView::Float(sum), ValueView::Integer(count)));
            &&& agg_step(AggFunc::Avg, acc, Some(col), delimiter, ReplyView::Nothing)
                == FedView::Ask(
                RequestView::Add(NumberView::Float(sum), number_of(col)->0),
            )
            &&& agg_step(AggFunc::Avg, acc, Some(col), delimiter, ReplyView::Float(reply))
                == FedView::Value(
                agg_value(
                    AggView::Avg(ValueView::Float(reply), ValueView::Integer((count + 1) as i64)),
                ),
            )
            &&& agg_final(AggFunc::Avg, acc, ReplyView::Nothing) == FedView::Ask(
                RequestView::Divide(NumberView::Float(sum), NumberView::Integer(count)),
            )
        }),
{
}

/// The value of an aggregate's register after one row more, with a host that answers each request
/// for arithmetic.
pub open spec fn hosted_step(
    func: AggFunc,
    acc: ValueView,
    col: ValueView,
    delimiter: ValueView,
    host: spec_fn(RequestView) -> DoubleView,
) -> Option<ValueView> {
    match agg_step(func, acc, Some(col), Some(delimiter), ReplyView::Nothing) {
        FedView::Value(v) => Some(v),
        FedView::Ask(request) => match agg_step(
            func,
            acc,
            Some(col),
            Some(delimiter),
            ReplyView::Float(host(request)),
        ) {
            FedView::Value(v) => Some(v),
            _ => None,
        },
        FedView::Error(_) => None,
    }
}

/// The value of an aggregate's register after the rows `cols`, with such a host.
pub open spec fn hosted_over(
    func: AggFunc,
    cols: Seq<ValueView>,
    delimiter: ValueView,
    host: spec_fn(RequestView) -> DoubleView,
) -> Option<ValueView>
    decreases cols.len(),
{
    if cols.len() == 0 {
        Some(ValueView::Null)
    } else {
        match hosted_over(func, cols.drop_last(), delimiter, host) {
            Some(acc) => hosted_step(func, acc, cols.last(), delimiter, host),
            None => None,
        }
    }
}

/// A number as an operand of the host's arithmetic.
pub open spec fn operand(v: ValueView) -> NumberView {
    match v {
        ValueView::Integer(i) => NumberView::Integer(i),
        _ => NumberView::Float(v->Float_0),
    }
}

/// The sum of numbers that the host adds up, one after the other, from `first` on.
pub open spec fn host_sum(
    first: DoubleView,
    cols: Seq<ValueView>,
    host: spec_fn(RequestView) -> DoubleView,
) -> DoubleView
    decreases cols.len(),
{
    if cols.len() == 0 {
        first
    } else {
        host(
            RequestView::Add(
                NumberView::Float(host_sum(first, cols.drop_last(), host)),
                operand(cols.last()),
            ),
        )
    }
}

/// Tells whether the rows hold numbers.
pub open spec fn all_numbers(cols: Seq<ValueView>) -> bool {
    forall|i: int| 0 <= i < cols.len() ==> (#[trigger] cols[i]) is Integer || cols[i] is Float
}

/// A total of numbers is what the host gets when it adds them all up, one after the other, from
/// zero on. An average has the same sum, counts the rows, and is the host's quotient of the two.
pub proof fn law_total_and_avg_add_up(
    cols: Seq<ValueView>,
    delimiter: ValueView,
    host: spec_fn(RequestView) -> DoubleView,
)
    requires
        0 < cols.len() <= i64::MAX,
        all_numbers(cols),
    ensures
        ({
            let zero = DoubleView { bits: 0, plain: "0"@, marked: "0.0"@ };
            let sum = host_sum(zero, cols, host);
            let n = cols.len() as i64;
            let avg = ValueView::Agg(
                Box::new(AggView::Avg(ValueView::Float(sum), ValueView::Integer(n))),
            );
            let quotient = host(
                RequestView::Divide(NumberView::Float(sum), NumberView::Integer(n)),
            );
            &&& hosted_over(AggFunc::Total, cols, delimiter, host) == Some(
                ValueView::Agg(Box::new(AggView::Sum(ValueView::Float(sum)))),
            )
            &&& hosted_over(AggFunc::Avg, cols, delimiter, host) == Some(avg)
            &&& agg_final(AggFunc::Avg, avg, ReplyView::Nothing) == FedView::Ask(
                RequestView::Divide(NumberView::Float(sum), NumberView::Integer(n)),
            )
            &&& agg_final(AggFunc::Avg, avg, ReplyView::Float(quotient)) == FedView::Value(
                ValueView::Agg(
                    Box::new(AggView::Avg(ValueView::Float(quotient), ValueView::Integer(n))),
                ),
            )
        }),
    decreases cols.len(),
{
    let rest = cols.drop_last();
    assert(cols[cols.len() - 1] is Integer || cols[cols.len() - 1] is Float);
    if rest.len() > 0 {
        assert forall|i: int| 0 <= i < rest.len() implies (#[trigger] rest[i]) is Integer
            || rest[i] is Float by {
            assert(rest[i] == cols[i]);
        }
        law_total_and_avg_add_up(rest, delimiter, host);
    } else {
        let zero = DoubleView { bits: 0, plain: "0"@, marked: "0.0"@ };
        assert(hosted_over(AggFunc::Total, rest, delimiter, host) == Some(ValueView::Null));
        assert(hosted_over(AggFunc::Avg, rest, delimiter, host) == Some(ValueView::Null));
        assert(host_sum(zero, rest, host) == zero);
    }
}

/// A sum of floats is what the host gets when it adds all the others to the first one, one after
/// the other.
pub proof fn law_sum_of_floats(
    cols: Seq<ValueView>,
    delimiter: ValueView,
    host: spec_fn(RequestView) -> DoubleView,
)
    requires
        cols.len() > 0,
        all_numbers(cols),
        cols[0] is Float,
    ensures
        hosted_over(AggFunc::Sum, cols, delimiter, host) == Some(
            ValueView::Agg(
                Box::new(
                    AggView::Sum(
                        ValueView::Float(host_sum(cols[0]->Float_0, cols.drop_first(), host)),
                    ),
                ),
            ),
        ),
    decreases cols.len(),
{
    let rest = cols.drop_last();
    assert(cols[cols.len() - 1] is Integer || cols[cols.len() - 1] is Float);
    if rest.len() > 0 {
        assert forall|i: int| 0 <= i < rest.len() implies (#[trigger] rest[i]) is Integer
            || rest[i] is Float by {
            assert(rest[i] == cols[i]);
        }
        law_sum_of_floats(rest, delimiter, host);
        assert(cols.drop_first().drop_last() =~= rest.drop_first());
        assert(cols.drop_first().last() == cols.last());
    } else {
        assert(hosted_over(AggFunc::Sum, rest, delimiter, host) == Some(ValueView::Null));
        assert(cols.drop_first().len() == 0);
        assert(cols.last() == cols[0]);
    }
}

/// One step of a sum or total of numbers: two integers are added, where that does not overflow;
/// where one of the two is a float, the host is asked for their sum, and its answer is the new sum.
/// NULL changes nothing.
pub proof fn law_sum_step(
    func: AggFunc,
    sum: ValueView,
    col: ValueView,
    delimiter: Option<ValueView>,
    d: DoubleView,
)
    requires
        func is Sum || func is Total,
        sum is Integer || sum is Float,
    ensures
        ({
            let acc = ValueView::Agg(Box::new(AggView::Sum(sum)));
            let asked = agg_step(func, acc, Some(col), delimiter, ReplyView::Nothing);
            let answered = agg_step(func, acc, Some(col), delimiter, ReplyView::Float(d));
            &&& sum is Integer && col is Integer ==> {
                let s = sum->Integer_0 + col->Integer_0;
                if i64::MIN <= s <= i64::MAX {
                    asked == FedView::Value(
                        ValueView::Agg(Box::new(AggView::Sum(ValueView::Integer(s as i64)))),
                    )
                } else {
                    asked is Error
                }
            }
            &&& (sum is Float && (col is Float || col is Integer)) || (sum is Integer && col
                is Float) ==> {
                &&& asked == FedView::Ask(RequestView::Add(operand(sum), operand(col)))
                &&& answered == FedView::Value(
                    ValueView::Agg(Box::new(AggView::Sum(ValueView::Float(d)))),
                )
            }
            &&& col is Null ==> asked == FedView::Value(acc)
        }),
{
}

/// The greatest of floats that are numbers: none of them is greater, and it is one of them, or all
/// of them are minus infinity.
pub proof fn law_max_of_floats(cols: Seq<ValueView>, delimiter: ValueView)
    requires
        cols.len() > 0,
        forall|i: int|
            0 <= i < cols.len() ==> (#[trigger] cols[i]) is Float && !is_nan(cols[i]->Float_0.bits),
    ensures
        agg_over(AggFunc::Max, cols, delimiter) matches Some(ValueView::Agg(a))
            && *a matches AggView::Max(ValueView::Float(m)) && !is_nan(m.bits) && (cols.contains(
            ValueView::Float(m),
        ) || m == DoubleView::minus_infinity()) && forall|i: int|
            0 <= i < cols.len() ==> numeric((#[trigger] cols[i])->Float_0.bits) <= numeric(m.bits),
    decreases cols.len(),
{
    let before = cols.drop_last();
    let last = cols.len() - 1;
    assert(cols[last] is Float && !is_nan(cols[last]->Float_0.bits));
    assert(cols.last() == cols[last]);
    assert(cols.contains(cols[last]));
    if before.len() > 0 {
        assert forall|i: int| 0 <= i < before.len() implies (#[trigger] before[i]) is Float
            && !is_nan(before[i]->Float_0.bits) by {
            assert(before[i] == cols[i]);
        }
        law_max_of_floats(before, delimiter);
        let m = (*agg_over(AggFunc::Max, before, delimiter)->0->Agg_0)->Max_0;
        if before.contains(m) {
            let i = choose|i: int| 0 <= i < before.len() && before[i] == m;
            assert(cols[i] == m);
        }
        assert forall|j: int| 0 <= j < last implies numeric((#[trigger] cols[j])->Float_0.bits)
            <= numeric(m->Float_0.bits) by {
            assert(cols[j] == before[j]);
        }
    } else {
        assert(agg_over(AggFunc::Max, before, delimiter) == Some(ValueView::Null));
        law_infinities(cols[last]->Float_0.bits);
    }
}

/// The least of floats that are numbers: none of them is less, and it is one of them, or all of
/// them are infinity.
pub proof fn law_min_of_floats(cols: Seq<ValueView>, delimiter: ValueView)
    requires
        cols.len() > 0,
        forall|i: int|
            0 <= i < cols.len() ==> (#[trigger] cols[i]) is Float && !is_nan(cols[i]->Float_0.bits),
    ensures
        agg_over(AggFunc::Min, cols, delimiter) matches Some(ValueView::Agg(a))
            && *a matches AggView::Min(ValueView::Float(m)) && !is_nan(m.bits) && (cols.contains(
            ValueView::Float(m),
        ) || m == DoubleView::infinity()) && forall|i: int|
            0 <= i < cols.len() ==> numeric((#[trigger] cols[i])->Float_0.bits) >= numeric(m.bits),
    decreases cols.len(),
{
    let before = cols.drop_last();
    let last = cols.len() - 1;
    assert(cols[last] is Float && !is_nan(cols[last]->Float_0.bits));
    assert(cols.last() == cols[last]);
    assert(cols.contains(cols[last]));
    if before.len() > 0 {
        assert forall|i: int| 0 <= i < before.len() implies (#[trigger] before[i]) is Float
            && !is_nan(before[i]->Float_0.bits) by {
            assert(before[i] == cols[i]);
        }
        law_min_of_floats(before, delimiter);
        let m = (*agg_over(AggFunc::Min, before, delimiter)->0->Agg_0)->Min_0;
        if before.contains(m) {
            let i = choose|i: int| 0 <= i < before.len() && before[i] == m;
            assert(cols[i] == m);
        }
        assert forall|j: int| 0 <= j < last implies numeric((#[trigger] cols[j])->Float_0.bits)
            >= numeric(m->Float_0.bits) by {
            assert(cols[j] == before[j]);
        }
    } else {
        assert(agg_over(AggFunc::Min, before, delimiter) == Some(ValueView::Null));
        law_infinities(cols[last]->Float_0.bits);
    }
}

/// Taking a row into a concatenation that is not empty: the delimiter and the row's text are
/// written behind it, be the row's text empty or not; a number is written in decimal; behind NULL
/// stands the delimiter alone. A concatenation that is empty becomes the row's value.
pub proof fn law_group_concat_step(
    func: AggFunc,
    text: Seq<char>,
    col: ValueView,
    between: Seq<char>,
)
    requires
        func is GroupConcat || func is StringAgg,
    ensures
        ({
            let acc = ValueView::Agg(Box::new(AggView::GroupConcat(ValueView::Text(text))));
            let step = agg_step(
                func,
                acc,
                Some(col),
                Some(ValueView::Text(between)),
                ReplyView::Nothing,
            );
            if text.len() == 0 {
                step == FedView::Value(ValueView::Agg(Box::new(AggView::GroupConcat(col))))
            } else {
                match col {
                    ValueView::Text(t) => step == FedView::Value(
                        ValueView::Agg(
                            Box::new(AggView::GroupConcat(ValueView::Text(text + between + t))),
                        ),
                    ),
                    ValueView::Integer(i) => step == FedView::Value(
                        ValueView::Agg(
                            Box::new(
                                AggView::GroupConcat(
                                    ValueView::Text(text + between + signed_decimal(i as int)),
                                ),
                            ),
                        ),
                    ),
                    ValueView::Float(d) => step == FedView::Value(
                        ValueView::Agg(
                            Box::new(
                                AggView::GroupConcat(ValueView::Text(text + between + d.plain)),
                            ),
                        ),
                    ),
                    ValueView::Null => step == FedView::Value(
                        ValueView::Agg(
                            Box::new(AggView::GroupConcat(ValueView::Text(text + between))),
                        ),
                    ),
                    _ => true,
                }
            }
        }),
{
}

/// What an aggregate is at its end: an average is divided, every other one is what it was. Without
/// a row a count is 0, a total is 0.0, and every other aggregate is NULL.
pub proof fn law_final(func: AggFunc, a: AggView)
    ensures
        !(func is Avg) ==> agg_final(func, ValueView::Agg(Box::new(a)), ReplyView::Nothing)
            == FedView::Value(ValueView::Agg(Box::new(a))),
        agg_final(AggFunc::Count, ValueView::Null, ReplyView::Nothing) == FedView::Value(
            ValueView::Integer(0),
        ),
        agg_final(AggFunc::Total, ValueView::Null, ReplyView::Nothing) == FedView::Value(
            ValueView::Float(DoubleView { bits: 0, plain: "0"@, marked: "0.0"@ }),
        ),
        !(func is Count) && !(func is Total) ==> agg_final(
            func,
            ValueView::Null,
            ReplyView::Nothing,
        ) == FedView::Value(ValueView::Null),
{
}

/// The first row of each aggregate.
pub proof fn law_first_row(col: ValueView, delimiter: Option<ValueView>)
    ensures
        agg_step(AggFunc::Count, ValueView::Null, Some(col), delimiter, ReplyView::Nothing)
            == FedView::Value(
            ValueView::Agg(Box::new(AggView::Count(ValueView::Integer(1)))),
        ),
        agg_step(AggFunc::Sum, ValueView::Null, Some(col), delimiter, ReplyView::Nothing)
            == FedView::Value(ValueView::Agg(Box::new(AggView::Sum(col)))),
        col is Integer ==> {
            &&& agg_step(AggFunc::Max, ValueView::Null, Some(col), delimiter, ReplyView::Nothing)
                == FedView::Value(ValueView::Agg(Box::new(AggView::Max(col))))
            &&& agg_step(AggFunc::Min, ValueView::Null, Some(col), delimiter, ReplyView::Nothing)
                == FedView::Value(ValueView::Agg(Box::new(AggView::Min(col))))
        },
        !(col is Integer) && !(col is Float) ==> {
            &&& agg_step(
                AggFunc::Max,
                ValueView::Null,
                Some(col),
                delimiter,
                ReplyView::Nothing,
            ) is Error
            &&& agg_step(
                AggFunc::Min,
                ValueView::Null,
                Some(col),
                delimiter,
                ReplyView::Nothing,
            ) is Error
        },
        delimiter is Some ==> {
            &&& agg_step(
                AggFunc::GroupConcat,
                ValueView::Null,
                Some(col),
                delimiter,
                ReplyView::Nothing,
            ) == FedView::Value(ValueView::Agg(Box::new(AggView::GroupConcat(col))))
            &&& agg_step(
                AggFunc::StringAgg,
                ValueView::Null,
                Some(col),
                delimiter,
                ReplyView::Nothing,
            ) == FedView::Value(ValueView::Agg(Box::new(AggView::GroupConcat(col))))
        },
{
    reveal_strlit("");
}

/// A sum, a total and the sum of an average take in any row by adding its value as values are
/// added: at once, or by asking the host. An average counts every row, also one that holds NULL.
pub proof fn law_sums_are_sums(
    func: AggFunc,
    sum: ValueView,
    n: i64,
    col: ValueView,
    delimiter: Option<ValueView>,
    d: DoubleView,
)
    requires
        func is Sum || func is Total,
        n < i64::MAX,
    ensures
        ({
            let acc = ValueView::Agg(Box::new(AggView::Sum(sum)));
            let avg = ValueView::Agg(Box::new(AggView::Avg(sum, ValueView::Integer(n))));
            let asked = agg_step(func, acc, Some(col), delimiter, ReplyView::Nothing);
            let averaged = agg_step(AggFunc::Avg, avg, Some(col), delimiter, ReplyView::Nothing);
            match sum_of(sum, col) {
                ComputedView::Value(s) => {
                    &&& asked == FedView::Value(ValueView::Agg(Box::new(AggView::Sum(s))))
                    &&& averaged == FedView::Value(
                        ValueView::Agg(
                            Box::new(AggView::Avg(s, ValueView::Integer((n + 1) as i64))),
                        ),
                    )
                },
                ComputedView::Host(x, y) => {
                    &&& asked == FedView::Ask(RequestView::Add(x, y))
                    &&& averaged == FedView::Ask(RequestView::Add(x, y))
                    &&& agg_step(AggFunc::Avg, avg, Some(col), delimiter, ReplyView::Float(d))
                        == FedView::Value(
                        ValueView::Agg(
                            Box::new(
                                AggView::Avg(
                                    ValueView::Float(d),
                                    ValueView::Integer((n + 1) as i64),
                                ),
                            ),
                        ),
                    )
                },
                ComputedView::Undefined => asked is Error && averaged is Error,
            }
        }),
{
}

/// An aggregate in another state than its function has cannot take in a row, nor can a register
/// that holds anything but an aggregate or NULL.
pub proof fn law_other_states(
    func: AggFunc,
    acc: ValueView,
    col: Option<ValueView>,
    delimiter: Option<ValueView>,
    reply: ReplyView,
)
    requires
        match acc {
            ValueView::Null => false,
            ValueView::Agg(a) => match *a {
                AggView::Avg(_, _) => !(func is Avg),
                AggView::Sum(_) => !(func is Sum) && !(func is Total),
                AggView::Count(_) => !(func is Count),
                AggView::Max(_) => !(func is Max),
                AggView::Min(_) => !(func is Min),
                AggView::GroupConcat(_) => !(func is GroupConcat) && !(func is StringAgg),
            },
            _ => true,
        },
    ensures
        agg_step(func, acc, col, delimiter, reply) is Error,
{
}

/// A row is taken into a concatenation that shows something by adding the delimiter and then the
/// row's value to it, as values are added. Where the host has to add, it is asked for the sum of
/// all three where they are numbers, and for that of the first two elsewhere.
pub proof fn law_group_concat_adds(
    func: AggFunc,
    acc: ValueView,
    delimiter: ValueView,
    col: ValueView,
    d: DoubleView,
)
    requires
        func is GroupConcat || func is StringAgg,
    ensures
        ({
            let agg = ValueView::Agg(Box::new(AggView::GroupConcat(acc)));
            let asked = agg_step(func, agg, Some(col), Some(delimiter), ReplyView::Nothing);
            let answered = agg_step(func, agg, Some(col), Some(delimiter), ReplyView::Float(d));
            let number = col is Integer || col is Float;
            if shown(acc).len() == 0 {
                asked == FedView::Value(ValueView::Agg(Box::new(AggView::GroupConcat(col))))
            } else {
                match sum_of(acc, delimiter) {
                    ComputedView::Value(v) => match sum_of(v, col) {
                        ComputedView::Value(w) => asked == FedView::Value(
                            ValueView::Agg(Box::new(AggView::GroupConcat(w))),
                        ),
                        ComputedView::Host(x, y) => asked == FedView::Ask(RequestView::Add(x, y))
                            && answered == FedView::Value(
                            ValueView::Agg(Box::new(AggView::GroupConcat(ValueView::Float(d)))),
                        ),
                        ComputedView::Undefined => asked is Error,
                    },
                    ComputedView::Host(x, y) => {
                        &&& number ==> asked == FedView::Ask(
                            RequestView::AddThree(x, y, operand(col)),
                        ) && answered == FedView::Value(
                            ValueView::Agg(Box::new(AggView::GroupConcat(ValueView::Float(d)))),
                        )
                        &&& !number ==> asked == FedView::Ask(RequestView::Add(x, y)) && (sum_of(
                            ValueView::Float(d),
                            col,
                        ) matches ComputedView::Value(w) && answered == FedView::Value(
                            ValueView::Agg(Box::new(AggView::GroupConcat(w))),
                        ))
                    },
                    ComputedView::Undefined => asked is Error,
                }
            }
        }),
{
}

/// A row that is taken in without the host's help takes no reply, and one for which the host is
/// asked takes nothing but a float.
pub proof fn law_step_replies(
    func: AggFunc,
    acc: ValueView,
    col: Option<ValueView>,
    delimiter: Option<ValueView>,
    reply: ReplyView,
)
    requires
        !(reply is Nothing),
    ensures
        agg_step(func, acc, col, delimiter, ReplyView::Nothing) is Value ==> agg_step(
            func,
            acc,
            col,
            delimiter,
            reply,
        ) == FedView::Error(StepError::BadReply),
        agg_step(func, acc, col, delimiter, ReplyView::Nothing) is Ask ==> {
            let step = agg_step(func, acc, col, delimiter, reply);
            &&& reply is Float ==> step is Value
            &&& !(reply is Float) ==> step == FedView::Error(StepError::BadReply)
        },
        agg_final(func, acc, ReplyView::Nothing) is Value ==> agg_final(func, acc, reply)
            == FedView::Error(StepError::BadReply),
        agg_final(func, acc, ReplyView::Nothing) is Ask && !(reply is Float) ==> agg_final(
            func,
            acc,
            reply,
        ) == FedView::Error(StepError::BadReply),
{
}

/// Where the register of a row's value is missing, only a count can take the row in: it counts it.
/// A concatenation needs its delimiter's register too. A count that cannot go further fails.
pub proof fn law_missing_registers(
    func: AggFunc,
    acc: ValueView,
    n: i64,
    col: Option<ValueView>,
    delimiter: Option<ValueView>,
)
    ensures
        !(func is Count) ==> agg_step(func, acc, None, delimiter, ReplyView::Nothing) is Error,
        (func is GroupConcat || func is StringAgg) ==> agg_step(
            func,
            acc,
            col,
            None,
            ReplyView::Nothing,
        ) is Error,
        ({
            let counted = agg_step(
                AggFunc::Count,
                ValueView::Agg(Box::new(AggView::Count(ValueView::Integer(n)))),
                col,
                delimiter,
                ReplyView::Nothing,
            );
            &&& n < i64::MAX ==> counted == FedView::Value(
                ValueView::Agg(Box::new(AggView::Count(ValueView::Integer((n + 1) as i64)))),
            )
            &&& n == i64::MAX ==> counted is Error
        }),
{
}

/// One row taken into a maximum or minimum: the greater or the lesser of two integers, or of two
/// floats by the numbers that they stand for, is kept, and of two that are equal the first; what is
/// not a number changes nothing.
pub proof fn law_max_and_min_step(m: ValueView, v: ValueView, delimiter: Option<ValueView>)
    ensures
        ({
            let max = agg_step(
                AggFunc::Max,
                ValueView::Agg(Box::new(AggView::Max(m))),
                Some(v),
                delimiter,
                ReplyView::Nothing,
            );
            let min = agg_step(
                AggFunc::Min,
                ValueView::Agg(Box::new(AggView::Min(m))),
                Some(v),
                delimiter,
                ReplyView::Nothing,
            );
            let (greater, less) = match (m, v) {
                (ValueView::Integer(x), ValueView::Integer(y)) => (y > x, y < x),
                (ValueView::Float(x), ValueView::Float(y)) => if is_nan(x.bits) || is_nan(y.bits) {
                    (false, false)
                } else {
                    (numeric(y.bits) > numeric(x.bits), numeric(y.bits) < numeric(x.bits))
                },
                _ => (false, false),
            };
            &&& max == FedView::Value(
                ValueView::Agg(
                    Box::new(
                        AggView::Max(
                            if greater {
                                v
                            } else {
                                m
                            },
                        ),
                    ),
                ),
            )
            &&& min == FedView::Value(
                ValueView::Agg(
                    Box::new(
                        AggView::Min(
                            if less {
                                v
                            } else {
                                m
                            },
                        ),
                    ),
                ),
            )
        }),
{
}

/// The end of an average: its sum is divided by the number of its rows, as values are divided, and
/// the number of rows is kept. No other aggregate can be completed as an average.
pub proof fn law_avg_final(a: AggView, sum: ValueView, count: ValueView, d: DoubleView)
    ensures
        ({
            let acc = ValueView::Agg(Box::new(AggView::Avg(sum, count)));
            let asked = agg_final(AggFunc::Avg, acc, ReplyView::Nothing);
            match quotient_of(sum, count) {
                ComputedView::Value(q) => asked == FedView::Value(
                    ValueView::Agg(Box::new(AggView::Avg(q, count))),
                ),
                ComputedView::Host(x, y) => asked == FedView::Ask(RequestView::Divide(x, y))
                    && agg_final(AggFunc::Avg, acc, ReplyView::Float(d)) == FedView::Value(
                    ValueView::Agg(Box::new(AggView::Avg(ValueView::Float(d), count))),
                ),
                ComputedView::Undefined => asked is Error,
            }
        }),
        !(a is Avg) ==> agg_final(
            AggFunc::Avg,
            ValueView::Agg(Box::new(a)),
            ReplyView::Nothing,
        ) is Error,
{
}

/// What an aggregate is before its first row: an average and a total are zero, a sum is nothing, a
/// count is zero, a concatenation is empty; a maximum is the least number of the kind of its first
/// value, a minimum the greatest, and there is neither for a first value that is no number.
pub proof fn law_starts(func: AggFunc, col: Option<ValueView>)
    ensures
        ({
            let zero = ValueView::Float(DoubleView { bits: 0, plain: "0"@, marked: "0.0"@ });
            let start = agg_start(func, col);
            match func {
                AggFunc::Avg => start == Some(AggView::Avg(zero, ValueView::Integer(0))),
                AggFunc::Total => start == Some(AggView::Sum(zero)),
                AggFunc::Sum => start == Some(AggView::Sum(ValueView::Null)),
                AggFunc::Count => start == Some(AggView::Count(ValueView::Integer(0))),
                AggFunc::GroupConcat | AggFunc::StringAgg => start matches Some(
                    AggView::GroupConcat(ValueView::Text(t)),
                ) && t.len() == 0,
                AggFunc::Max => match col {
                    Some(ValueView::Integer(_)) => start matches Some(
                        AggView::Max(ValueView::Integer(m)),
                    ) && m == i64::MIN,
                    Some(ValueView::Float(_)) => start matches Some(
                        AggView::Max(ValueView::Float(m)),
                    ) && m == (DoubleView {
                        bits: 0xfff0_0000_0000_0000,
                        plain: "-inf"@,
                        marked: "-inf"@,
                    }),
                    _ => start is None,
                },
                AggFunc::Min => match col {
                    Some(ValueView::Integer(_)) => start matches Some(
                        AggView::Min(ValueView::Integer(m)),
                    ) && m == i64::MAX,
                    Some(ValueView::Float(_)) => start matches Some(
                        AggView::Min(ValueView::Float(m)),
                    ) && m == (DoubleView {
                        bits: 0x7ff0_0000_0000_0000,
                        plain: "inf"@,
                        marked: "inf"@,
                    }),
                    _ => start is None,
                },
            }
        }),
{
    reveal_strlit("");
}

/// A first row is taken in as any other one, into the aggregate as it is before it; where there is
/// no such aggregate, the row cannot be taken in. Only an aggregate or NULL can be completed.
pub proof fn law_first_row_as_any(
    func: AggFunc,
    col: Option<ValueView>,
    delimiter: Option<ValueView>,
    other: ValueView,
    reply: ReplyView,
)
    ensures
        agg_start(func, col) matches Some(a) ==> agg_step(
            func,
            ValueView::Null,
            col,
            delimiter,
            reply,
        ) == agg_step(func, ValueView::Agg(Box::new(a)), col, delimiter, reply),
        agg_start(func, col) is None ==> agg_step(func, ValueView::Null, col, delimiter, reply)
            is Error,
        !(other is Agg) && !(other is Null) ==> agg_final(func, other, reply) is Error,
{
}

} // verus!
