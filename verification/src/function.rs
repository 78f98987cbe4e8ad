//! The functions that instructions apply.

use vstd::prelude::*;
use vstd::string::*;

verus! {

/// A function of a group of rows.
#[derive(Clone, Copy, Debug, PartialEq, Eq, Structural)]
pub enum AggFunc {
    Avg,
    Count,
    GroupConcat,
    Max,
    Min,
    StringAgg,
    Sum,
    Total,
}

impl AggFunc {
    /// The function's name in SQL.
    pub open spec fn name(self) -> Seq<char> {
        match self {
            AggFunc::Avg => "avg"@,
            AggFunc::Count => "count"@,
            AggFunc::GroupConcat => "group_concat"@,
            AggFunc::Max => "max"@,
            AggFunc::Min => "min"@,
            AggFunc::StringAgg => "string_agg"@,
            AggFunc::Sum => "sum"@,
            AggFunc::Total => "total"@,
        }
    }

    /// The function's name in SQL.
    pub fn to_text(&self) -> (name: String)
        ensures
            name@ == self.name(),
    {
        let name: &str = match self {
            AggFunc::Avg => "avg",
            AggFunc::Count => "count",
            AggFunc::GroupConcat => "group_concat",
            AggFunc::Max => "max",
            AggFunc::Min => "min",
            AggFunc::StringAgg => "string_agg",
            AggFunc::Sum => "sum",
            AggFunc::Total => "total",
        };
        name.to_owned()
    }
}

/// A function of the values of one row.
#[derive(Clone, Copy, Debug, PartialEq, Eq, Structural)]
pub enum SingleRowFunc {
    Coalesce,
    Like,
    Abs,
    Upper,
    Lower,
    Random,
    Trim,
    Length,
    Round,
}

impl SingleRowFunc {
    /// The function's name in SQL.
    pub open spec fn name(self) -> Seq<char> {
        match self {
            SingleRowFunc::Coalesce => "coalesce"@,
            SingleRowFunc::Like => "like"@,
            SingleRowFunc::Abs => "abs"@,
            SingleRowFunc::Upper => "upper"@,
            SingleRowFunc::Lower => "lower"@,
            SingleRowFunc::Random => "random"@,
            SingleRowFunc::Trim => "trim"@,
            SingleRowFunc::Length => "length"@,
            SingleRowFunc::Round => "round"@,
        }
    }

    /// The function's name in SQL.
    pub fn to_text(&self) -> (name: String)
        ensures
            name@ == self.name(),
    {
        let name: &str = match self {
            SingleRowFunc::Coalesce => "coalesce",
            SingleRowFunc::Like => "like",
            SingleRowFunc::Abs => "abs",
            SingleRowFunc::Upper => "upper",
            SingleRowFunc::Lower => "lower",
            SingleRowFunc::Random => "random",
            SingleRowFunc::Trim => "trim",
            SingleRowFunc::Length => "length",
            SingleRowFunc::Round => "round",
        };
        name.to_owned()
    }
}

/// The names of the functions, letter by letter.
pub proof fn law_function_names()
    ensures
        AggFunc::Avg.name() == seq!['a', 'v', 'g'],
        AggFunc::Count.name() == seq!['c', 'o', 'u', 'n', 't'],
        AggFunc::GroupConcat.name() == seq!['g', 'r', 'o', 'u', 'p', '_', 'c', 'o', 'n', 'c', 'a', 't'],
        AggFunc::Max.name() == seq!['m', 'a', 'x'],
        AggFunc::Min.name() == seq!['m', 'i', 'n'],
        AggFunc::StringAgg.name() == seq!['s', 't', 'r', 'i', 'n', 'g', '_', 'a', 'g', 'g'],
        AggFunc::Sum.name() == seq!['s', 'u', 'm'],
        AggFunc::Total.name() == seq!['t', 'o', 't', 'a', 'l'],
        SingleRowFunc::Coalesce.name() == seq!['c', 'o', 'a', 'l', 'e', 's', 'c', 'e'],
        SingleRowFunc::Like.name() == seq!['l', 'i', 'k', 'e'],
        SingleRowFunc::Abs.name() == seq!['a', 'b', 's'],
        SingleRowFunc::Upper.name() == seq!['u', 'p', 'p', 'e', 'r'],
        SingleRowFunc::Lower.name() == seq!['l', 'o', 'w', 'e', 'r'],
        SingleRowFunc::Random.name() == seq!['r', 'a', 'n', 'd', 'o', 'm'],
        SingleRowFunc::Trim.name() == seq!['t', 'r', 'i', 'm'],
        SingleRowFunc::Length.name() == seq!['l', 'e', 'n', 'g', 't', 'h'],
        SingleRowFunc::Round.name() == seq!['r', 'o', 'u', 'n', 'd'],
{
    reveal_strlit("avg");
    assert("avg"@ =~= seq!['a', 'v', 'g']);
    reveal_strlit("count");
    assert("count"@ =~= seq!['c', 'o', 'u', 'n', 't']);
    reveal_strlit("group_concat");
    assert("group_concat"@ =~= seq!['g', 'r', 'o', 'u', 'p', '_', 'c', 'o', 'n', 'c', 'a', 't']);
    reveal_strlit("max");
    assert("max"@ =~= seq!['m', 'a', 'x']);
    reveal_strlit("min");
    assert("min"@ =~= seq!['m', 'i', 'n']);
    reveal_strlit("string_agg");
    assert("string_agg"@ =~= seq!['s', 't', 'r', 'i', 'n', 'g', '_', 'a', 'g', 'g']);
    reveal_strlit("sum");
    assert("sum"@ =~= seq!['s', 'u', 'm']);
    reveal_strlit("total");
    assert("total"@ =~= seq!['t', 'o', 't', 'a', 'l']);
    reveal_strlit("coalesce");
    assert("coalesce"@ =~= seq!['c', 'o', 'a', 'l', 'e', 's', 'c', 'e']);
    reveal_strlit("like");
    assert("like"@ =~= seq!['l', 'i', 'k', 'e']);
    reveal_strlit("abs");
    assert("abs"@ =~= seq!['a', 'b', 's']);
    reveal_strlit("upper");
    assert("upper"@ =~= seq!['u', 'p', 'p', 'e', 'r']);
    reveal_strlit("lower");
    assert("lower"@ =~= seq!['l', 'o', 'w', 'e', 'r']);
    reveal_strlit("random");
    assert("random"@ =~= seq!['r', 'a', 'n', 'd', 'o', 'm']);
    reveal_strlit("trim");
    assert("trim"@ =~= seq!['t', 'r', 'i', 'm']);
    reveal_strlit("length");
    assert("length"@ =~= seq!['l', 'e', 'n', 'g', 't', 'h']);
    reveal_strlit("round");
    assert("round"@ =~= seq!['r', 'o', 'u', 'n', 'd']);
}

} // verus!
