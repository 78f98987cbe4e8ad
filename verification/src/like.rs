//! LIKE pattern matching.

use vstd::prelude::*;
use vstd::string::*;

verus! {

/// The error type of the regular expression engine.
#[verifier::external_type_specification]
#[verifier::external_body]
pub struct ExRegexError(regex::Error);

/// Whether `Regex::new` accepts a pattern: it is well formed, and not too big.
pub uninterp spec fn regex_accepts(pattern: Seq<char>) -> bool;

/// Tells whether a character can stand for something other than itself in a regular expression.
/// With a backslash before it, it stands for itself.
pub open spec fn is_special(c: char) -> bool {
    ||| c == '\\' || c == '.' || c == '+' || c == '*' || c == '?'
    ||| c == '(' || c == ')' || c == '[' || c == ']' || c == '{' || c == '}'
    ||| c == '|' || c == '^' || c == '$' || c == '#' || c == '&' || c == '-' || c == '~'
}

/// The regular expression for the character `c` itself.
pub open spec fn literal_piece(c: char) -> Seq<char> {
    if is_special(c) {
        seq!['\\', c]
    } else {
        seq![c]
    }
}

/// A regular expression that has to match the whole of a text, of however many lines.
pub open spec fn whole(re: Seq<char>) -> Seq<char> {
    "(?s)^(?:"@ + re + ")$"@
}

/// What a character of a LIKE pattern becomes in a regular expression: `%` stands for any text, `_`
/// and `.` for any one character, and every other character for itself.
pub open spec fn like_piece(c: char) -> Seq<char> {
    if c == '%' {
        ".*"@
    } else if c == '_' || c == '.' {
        "."@
    } else {
        literal_piece(c)
    }
}

/// The regular expression for what a LIKE pattern asks for.
pub open spec fn like_regex(pattern: Seq<char>) -> Seq<char>
    decreases pattern.len(),
{
    if pattern.len() == 0 {
        Seq::empty()
    } else {
        like_regex(pattern.drop_last()) + like_piece(pattern.last())
    }
}

/// The regular expression for a LIKE pattern, which is held against the whole of a text.
pub open spec fn whole_regex(pattern: Seq<char>) -> Seq<char> {
    whole(like_regex(pattern))
}

/// Tells whether a character of a LIKE pattern takes the character `c` of a text.
pub open spec fn takes(like: char, c: char) -> bool {
    like == '_' || like == '.' || like == c
}

/// Tells whether `text` is like `pattern`: `%` takes any text, `_` and `.` take any one character,
/// and every other character takes itself.
pub open spec fn is_like(pattern: Seq<char>, text: Seq<char>) -> bool
    decreases pattern.len(),
{
    if pattern.len() == 0 {
        text.len() == 0
    } else if pattern.first() == '%' {
        exists|n: int|
            0 <= n <= text.len() && is_like(pattern.drop_first(), #[trigger] text.skip(n))
    } else {
        text.len() > 0 && takes(pattern.first(), text.first()) && is_like(
            pattern.drop_first(),
            text.drop_first(),
        )
    }
}

/// Tells whether a LIKE pattern has a character that does not stand for itself.
pub open spec fn has_wildcard(pattern: Seq<char>) -> bool {
    pattern.contains('%') || pattern.contains('_') || pattern.contains('.')
}

/// Compiles `pattern`, the regular expression for a LIKE pattern, with `regex::Regex::new`, and
/// holds it against `text` with `regex::Regex::is_match`. Whether it is accepted depends on nothing
/// but the pattern, and `regex_accepts` names it: an error comes just where it is not. As the
/// pattern asks for the whole text and is made of dots, dots with a star, and characters that stand
/// for themselves, the answer is whether the text can be divided among them: one character, any
/// text, or that character.
#[verifier::external_body]
fn search(pattern: &str, text: &str) -> (found: Result<bool, regex::Error>)
    requires
        exists|like: Seq<char>| pattern@ == #[trigger] whole_regex(like),
    ensures
        found is Ok <==> regex_accepts(pattern@),
        found matches Ok(b) ==> forall|like: Seq<char>|
            pattern@ == #[trigger] whole_regex(like) ==> b == is_like(like, text@),
{
    let re = regex::Regex::new(pattern)?;
    Ok(re.is_match(text))
}

/// Tells whether a character can stand for something other than itself in a regular expression.
fn special_char(c: char) -> (b: bool)
    ensures
        b == is_special(c),
{
    c == '\\' || c == '.' || c == '+' || c == '*' || c == '?' || c == '(' || c == ')' || c == '['
        || c == ']' || c == '{' || c == '}' || c == '|' || c == '^' || c == '$' || c == '#'
        || c == '&' || c == '-' || c == '~'
}

/// The regular expression for a LIKE pattern, which is held against the whole of a text.
pub fn like_to_regex(pattern: &str) -> (re: String)
    ensures
        re@ == whole_regex(pattern@),
{
    let mut re = "(?s)^(?:".to_owned();
    let ghost start = re@;
    assert(re@ =~= start + like_regex(pattern@.take(0)));
    for c in it: pattern.chars()
        invariant
            it.seq() == pattern@,
            re@ == start + like_regex(pattern@.take(it.index())),
    {
        assert(pattern@.take(it.index() + 1).drop_last() =~= pattern@.take(it.index()));
        let ghost before = re@;
        if c == '%' {
            re.append(".*");
        } else if c == '_' || c == '.' {
            re.append(".");
        } else {
            if special_char(c) {
                re.push('\\');
            }
            re.push(c);
        }
        assert(re@ =~= before + like_piece(c));
        assert(re@ =~= start + like_regex(pattern@.take(it.index() + 1)));
    }
    assert(pattern@.take(pattern@.len() as int) =~= pattern@);
    re.append(")$");
    re
}

/// Tells whether `text` is like `pattern`.
pub fn exec_like(pattern: &str, text: &str) -> (b: bool)
    requires
        regex_accepts(whole_regex(pattern@)),
    ensures
        b == is_like(pattern@, text@),
{
    let re: String = like_to_regex(pattern);
    match search(re.as_str(), text) {
        Ok(b) => b,
        Err(_) => false,
    }
}

/// Tells whether `text` is like `pattern`; nothing where the regular expression for the pattern is
/// too big.
pub fn try_like(pattern: &str, text: &str) -> (b: Option<bool>)
    ensures
        b == if regex_accepts(whole_regex(pattern@)) {
            Some(is_like(pattern@, text@))
        } else {
            None
        },
{
    let re: String = like_to_regex(pattern);
    match search(re.as_str(), text) {
        Ok(_) => Some(exec_like(pattern, text)),
        Err(_) => None,
    }
}

/// A pattern that is put together from two parts becomes the regular expressions of the parts, one
/// after the other.
pub proof fn law_like_regex_parts(a: Seq<char>, b: Seq<char>)
    ensures
        like_regex(a + b) == like_regex(a) + like_regex(b),
    decreases b.len(),
{
    if b.len() == 0 {
        assert(a + b =~= a);
        assert(like_regex(a) + like_regex(b) =~= like_regex(a));
    } else {
        assert((a + b).drop_last() =~= a + b.drop_last());
        law_like_regex_parts(a, b.drop_last());
        assert(like_regex(a + b) =~= like_regex(a) + like_regex(b));
    }
}

/// Nothing but itself is like a pattern without wildcards, whatever other characters it has.
pub proof fn law_like_itself_alone(pattern: Seq<char>, text: Seq<char>)
    requires
        !has_wildcard(pattern),
    ensures
        is_like(pattern, text) <==> text == pattern,
    decreases pattern.len(),
{
    if pattern.len() == 0 {
        assert(text == pattern <==> text.len() == 0) by {
            if text.len() == 0 {
                assert(text =~= pattern);
            }
        }
    } else {
        let rest = pattern.drop_first();
        assert(pattern.contains(pattern[0]));
        assert forall|c: char| rest.contains(c) implies pattern.contains(c) by {
            let i = choose|i: int| 0 <= i < rest.len() && rest[i] == c;
            assert(pattern[i + 1] == c);
        }
        if text.len() > 0 {
            law_like_itself_alone(rest, text.drop_first());
            assert(pattern =~= seq![pattern[0]] + rest);
            assert(text =~= seq![text[0]] + text.drop_first());
            if text.drop_first() == rest && text[0] == pattern[0] {
                assert(text =~= pattern);
            }
        }
    }
}

/// Any text is like `%`, and any text of one character, and no other, is like `_`.
pub proof fn law_like_wildcards(text: Seq<char>)
    ensures
        is_like(seq!['%'], text),
        is_like(seq!['_'], text) <==> text.len() == 1,
        is_like(seq!['.'], text) <==> text.len() == 1,
{
    reveal_with_fuel(is_like, 2);
    assert(seq!['%'].drop_first() =~= Seq::empty());
    assert(seq!['_'].drop_first() =~= Seq::empty());
    assert(seq!['.'].drop_first() =~= Seq::empty());
    assert(is_like(seq!['%'].drop_first(), text.skip(text.len() as int)));
}

/// Tells whether the first `n` characters of `text` are like `a`, and the others like `b`.
pub open spec fn divides(a: Seq<char>, b: Seq<char>, text: Seq<char>, n: int) -> bool {
    0 <= n <= text.len() && is_like(a, text.take(n)) && is_like(b, text.skip(n))
}

/// A text is like a pattern that is put together from two parts just where it can be divided into
/// two texts that are like the parts.
pub proof fn law_like_parts(a: Seq<char>, b: Seq<char>, text: Seq<char>)
    ensures
        is_like(a + b, text) <==> exists|n: int| divides(a, b, text, n),
    decreases a.len(),
{
    let ab = a + b;
    if a.len() == 0 {
        assert(ab =~= b);
        assert(text.skip(0) =~= text);
        if is_like(ab, text) {
            assert(divides(a, b, text, 0));
        }
        if exists|n: int| divides(a, b, text, n) {
            let n = choose|n: int| divides(a, b, text, n);
            assert(n == 0);
        }
    } else {
        let rest = a.drop_first();
        assert(ab.drop_first() =~= rest + b);
        assert(ab.first() == a.first());
        if a.first() == '%' {
            if is_like(ab, text) {
                let k = choose|k: int|
                    0 <= k <= text.len() && is_like(ab.drop_first(), #[trigger] text.skip(k));
                law_like_parts(rest, b, text.skip(k));
                let m = choose|m: int| divides(rest, b, text.skip(k), m);
                assert(text.skip(k).take(m) =~= text.take(k + m).skip(k));
                assert(text.skip(k).skip(m) =~= text.skip(k + m));
                assert(is_like(rest, text.take(k + m).skip(k)));
                assert(is_like(a, text.take(k + m)));
                assert(divides(a, b, text, k + m));
            }
            if exists|n: int| divides(a, b, text, n) {
                let n = choose|n: int| divides(a, b, text, n);
                let t = text.take(n);
                let k = choose|k: int| 0 <= k <= t.len() && is_like(rest, #[trigger] t.skip(k));
                assert(text.skip(k).take(n - k) =~= t.skip(k));
                assert(text.skip(k).skip(n - k) =~= text.skip(n));
                assert(divides(rest, b, text.skip(k), n - k));
                law_like_parts(rest, b, text.skip(k));
                assert(is_like(ab.drop_first(), text.skip(k)));
            }
        } else {
            if text.len() > 0 {
                law_like_parts(rest, b, text.drop_first());
            }
            if is_like(ab, text) {
                let m = choose|m: int| divides(rest, b, text.drop_first(), m);
                assert(text.take(m + 1).drop_first() =~= text.drop_first().take(m));
                assert(text.skip(m + 1) =~= text.drop_first().skip(m));
                assert(divides(a, b, text, m + 1));
            }
            if exists|n: int| divides(a, b, text, n) {
                let n = choose|n: int| divides(a, b, text, n);
                assert(text.take(n).drop_first() =~= text.drop_first().take(n - 1));
                assert(text.skip(n) =~= text.drop_first().skip(n - 1));
                assert(divides(rest, b, text.drop_first(), n - 1));
            }
        }
    }
}

/// Like a pattern without wildcards that `%` stands behind is a text that begins with it.
pub proof fn law_like_prefix(prefix: Seq<char>, text: Seq<char>)
    requires
        !has_wildcard(prefix),
    ensures
        is_like(prefix.push('%'), text) <==> prefix.len() <= text.len() && text.take(
            prefix.len() as int,
        ) == prefix,
{
    let any = seq!['%'];
    assert(prefix.push('%') =~= prefix + any);
    law_like_parts(prefix, any, text);
    if is_like(prefix.push('%'), text) {
        let n = choose|n: int| divides(prefix, any, text, n);
        law_like_itself_alone(prefix, text.take(n));
    }
    if prefix.len() <= text.len() && text.take(prefix.len() as int) == prefix {
        let n = prefix.len() as int;
        law_like_itself_alone(prefix, text.take(n));
        law_like_wildcards(text.skip(n));
        assert(divides(prefix, any, text, n));
    }
}

/// Like a pattern without wildcards that `%` stands before is a text that ends with it.
pub proof fn law_like_suffix(suffix: Seq<char>, text: Seq<char>)
    requires
        !has_wildcard(suffix),
    ensures
        is_like(seq!['%'] + suffix, text) <==> suffix.len() <= text.len() && text.skip(
            text.len() - suffix.len(),
        ) == suffix,
{
    let any = seq!['%'];
    law_like_parts(any, suffix, text);
    if is_like(any + suffix, text) {
        let n = choose|n: int| divides(any, suffix, text, n);
        law_like_itself_alone(suffix, text.skip(n));
    }
    if suffix.len() <= text.len() && text.skip(text.len() - suffix.len()) == suffix {
        let n = text.len() - suffix.len();
        law_like_itself_alone(suffix, text.skip(n));
        law_like_wildcards(text.take(n));
        assert(divides(any, suffix, text, n));
    }
}

/// What each character becomes in the regular expression for a pattern, and what stands around it.
pub proof fn law_like_regex_pieces(c: char, pattern: Seq<char>)
    ensures
        like_regex(Seq::empty()) == Seq::<char>::empty(),
        like_regex(seq!['%']) == seq!['.', '*'],
        like_regex(seq!['_']) == seq!['.'],
        like_regex(seq!['.']) == seq!['.'],
        'a' <= c <= 'z' || 'A' <= c <= 'Z' || '0' <= c <= '9' ==> like_regex(seq![c]) == seq![c],
        whole_regex(pattern) == seq!['(', '?', 's', ')', '^', '(', '?', ':'] + like_regex(pattern)
            + seq![')', '$'],
{
    reveal_with_fuel(like_regex, 2);
    reveal_strlit(".*");
    reveal_strlit(".");
    reveal_strlit("(?s)^(?:");
    reveal_strlit(")$");
    assert(seq!['%'].drop_last() =~= Seq::empty());
    assert(seq!['_'].drop_last() =~= Seq::empty());
    assert(seq!['.'].drop_last() =~= Seq::empty());
    assert(seq![c].drop_last() =~= Seq::empty());
    assert(like_regex(seq!['%']) =~= seq!['.', '*']);
    assert(like_regex(seq!['_']) =~= seq!['.']);
    assert(like_regex(seq!['.']) =~= seq!['.']);
    assert("(?s)^(?:"@ =~= seq!['(', '?', 's', ')', '^', '(', '?', ':']);
    assert(")$"@ =~= seq![')', '$']);
    if 'a' <= c <= 'z' || 'A' <= c <= 'Z' || '0' <= c <= '9' {
        assert(like_regex(seq![c]) =~= seq![c]);
    }
}

/// A character with a meaning in regular expressions is escaped with a backslash where a pattern
/// has it for itself; any other character that is no wildcard stands as it is.
pub proof fn law_like_regex_escapes(c: char)
    requires
        c != '%',
        c != '_',
        c != '.',
    ensures
        like_regex(seq![c]) == if c == '\\' || c == '+' || c == '*' || c == '?' || c == '(' || c == ')'
            || c == '[' || c == ']' || c == '{' || c == '}' || c == '|' || c == '^' || c == '$'
            || c == '#' || c == '&' || c == '-' || c == '~' {
            seq!['\\', c]
        } else {
            seq![c]
        },
{
    reveal_with_fuel(like_regex, 2);
    assert(seq![c].drop_last() =~= Seq::empty());
    assert(like_regex(seq![c]) =~= like_piece(c));
}

} // verus!
