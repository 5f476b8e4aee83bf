//! What holds of the names that generated code is made of.

use vstd::prelude::*;

verus! {

use crate::tokens::{ident_continue, ident_start, is_ident, is_plain, text, word, Token};
use crate::words::{
    decimal, expect_name, lemma_decimal, matcher_name, mock_name, mod_name, phantom_name,
    static_name, sub_field_name, sub_name,
};

/// A digit more is ten times the number and the digit.
pub proof fn digits_count_tens(n: nat, digit: nat)
    requires
        digit < 10,
    ensures
        decimal(digit) == seq!["0123456789"@[digit as int]],
        n > 0 ==> decimal(10 * n + digit) == decimal(n) + decimal(digit),
{
    assert((10 * n + digit) / 10 == n);
    assert((10 * n + digit) as int % 10 == digit);
    assert(decimal(n) + seq!["0123456789"@[digit as int]] =~= decimal(n).push(
        "0123456789"@[digit as int],
    ));
}

/// Different numbers are written differently.
pub proof fn numbers_differ(a: nat, b: nat)
    requires
        a != b,
    ensures
        decimal(a) != decimal(b),
    decreases a,
{
    reveal_strlit("0123456789");
    let digits = "0123456789"@;
    let (x, y) = (decimal(a), decimal(b));
    assert(x.last() == digits[a as int % 10]);
    assert(y.last() == digits[b as int % 10]);
    lemma_decimal(a / 10);
    lemma_decimal(b / 10);
    if a < 10 || b < 10 {
        if x == y {
            assert(x.len() == 1 && y.len() == 1);
            assert(a < 10 && b < 10);
            assert(digits[a as int] == digits[b as int]);
        }
    } else if a % 10 == b % 10 {
        assert(a / 10 != b / 10);
        numbers_differ(a / 10, b / 10);
        assert(x.drop_last() =~= decimal(a / 10));
        assert(y.drop_last() =~= decimal(b / 10));
    } else {
        assert(digits[a as int % 10] != digits[b as int % 10]);
    }
}

/// Names that positions make are different for different positions.
pub proof fn numbered_names_differ(i: nat, j: nat)
    requires
        i != j,
    ensures
        phantom_name(i) != phantom_name(j),
        matcher_name(i) != matcher_name(j),
{
    numbers_differ(i, j);
    reveal_strlit("_t");
    reveal_strlit("p");
    assert(phantom_name(i).skip(2) =~= decimal(i) && phantom_name(j).skip(2) =~= decimal(j));
    assert(matcher_name(i).skip(1) =~= decimal(i) && matcher_name(j).skip(1) =~= decimal(j));
}

/// Every name holds the names that it is made of, whole, between fixed words.
pub proof fn names_hold_their_parts(a: Seq<char>, b: Seq<char>, c: Seq<char>, n: nat)
    ensures
        mock_name(a) == "Mock"@ + a,
        mod_name(a, None) == "__mock_"@ + a,
        mod_name(a, Some(b)) == "__mock_"@ + a + "_"@ + b,
        sub_name(a, b) == a + "_"@ + b,
        sub_field_name(a) == a + "_expectations"@,
        static_name(a, None, b) == a + "_"@ + b + "_expectation"@,
        static_name(a, Some(b), c) == a + "_"@ + b + "_"@ + c + "_expectation"@,
        expect_name(a) == "expect_"@ + a,
        phantom_name(n) == "_t"@ + decimal(n),
        matcher_name(n) == "p"@ + decimal(n),
{
}

/// What is made of different names is named differently.
pub proof fn made_names_differ(a: Seq<char>, b: Seq<char>, mock: Seq<char>, sub: Seq<char>)
    requires
        a != b,
    ensures
        mock_name(a) != mock_name(b),
        mod_name(a, None) != mod_name(b, None),
        mod_name(mock, Some(a)) != mod_name(mock, Some(b)),
        sub_name(mock, a) != sub_name(mock, b),
        sub_field_name(a) != sub_field_name(b),
        static_name(mock, None, a) != static_name(mock, None, b),
        static_name(mock, Some(sub), a) != static_name(mock, Some(sub), b),
        expect_name(a) != expect_name(b),
{
    lemma_between("Mock"@, a, b, Seq::empty());
    assert(mock_name(a) + Seq::empty() =~= mock_name(a));
    assert(mock_name(b) + Seq::empty() =~= mock_name(b));
    lemma_between("__mock_"@, a, b, Seq::empty());
    assert(mod_name(a, None) + Seq::empty() =~= mod_name(a, None));
    assert(mod_name(b, None) + Seq::empty() =~= mod_name(b, None));
    let head = "__mock_"@ + mock + "_"@;
    lemma_between(head, a, b, Seq::empty());
    assert(mod_name(mock, Some(a)) =~= head + a + Seq::empty());
    assert(mod_name(mock, Some(b)) =~= head + b + Seq::empty());
    let head = mock + "_"@;
    lemma_between(head, a, b, Seq::empty());
    assert(sub_name(mock, a) =~= head + a + Seq::empty());
    assert(sub_name(mock, b) =~= head + b + Seq::empty());
    lemma_between(Seq::empty(), a, b, "_expectations"@);
    assert(sub_field_name(a) =~= Seq::empty() + a + "_expectations"@);
    assert(sub_field_name(b) =~= Seq::empty() + b + "_expectations"@);
    lemma_between(head, a, b, "_expectation"@);
    let head = mock + "_"@ + sub + "_"@;
    lemma_between(head, a, b, "_expectation"@);
    lemma_between("expect_"@, a, b, Seq::empty());
    assert(expect_name(a) + Seq::empty() =~= expect_name(a));
    assert(expect_name(b) + Seq::empty() =~= expect_name(b));
}

proof fn lemma_between(head: Seq<char>, a: Seq<char>, b: Seq<char>, tail: Seq<char>)
    requires
        a != b,
    ensures
        head + a + tail != head + b + tail,
{
    if head + a + tail == head + b + tail {
        let n = head.len() as int;
        assert((head + a + tail).len() == head.len() + a.len() + tail.len());
        assert((head + b + tail).len() == head.len() + b.len() + tail.len());
        assert((head + a + tail).subrange(n, n + a.len()) =~= a);
        assert((head + b + tail).subrange(n, n + b.len()) =~= b);
    }
}

/// An identifier is a character that starts one and any that go on: one and a further part
/// make an identifier if and only if all characters of the part go on.
pub proof fn identifiers_go_on(c: char, a: Seq<char>, b: Seq<char>)
    requires
        is_ident(a),
    ensures
        !is_ident(Seq::empty()),
        is_ident(seq![c]) <==> (ident_start(c) && ident_continue(c)),
        is_ident(a + b) <==> forall|i: int| 0 <= i < b.len() ==> ident_continue(#[trigger] b[i]),
        c <= '\x7f' ==> (ident_continue(c) <==> ('a' <= c <= 'z' || 'A' <= c <= 'Z' || '0' <= c
            <= '9' || c == '_')),
        c <= '\x7f' ==> (ident_start(c) <==> (ident_continue(c) && !('0' <= c <= '9'))),
{
    if is_ident(a + b) {
        assert forall|i: int| 0 <= i < b.len() implies ident_continue(#[trigger] b[i]) by {
            assert(ident_continue((a + b)[a.len() + i]));
        }
    }
    assert(is_ident(seq![c]) ==> ident_start(seq![c][0]) && ident_continue(seq![c][0]));
}

/// Text is plain if and only if all of it is.
pub proof fn plain_text_is_plain_throughout(a: Seq<char>, b: Seq<char>, c: char)
    ensures
        is_plain(Seq::empty()),
        is_plain(seq![c]) <==> c < '\u{300}',
        is_plain(a + b) <==> is_plain(a) && is_plain(b),
{
    assert(seq![c][0] == c);
    if is_plain(a + b) {
        assert forall|i: int| 0 <= i < a.len() implies #[trigger] a[i] < '\u{300}' by {
            assert((a + b)[i] < '\u{300}');
        }
        assert forall|i: int| 0 <= i < b.len() implies #[trigger] b[i] < '\u{300}' by {
            assert((a + b)[a.len() + i] < '\u{300}');
        }
    }
}

/// A lone identifier is read as the text that it was made of; nothing else has a text.
pub proof fn words_are_read_back(name: Seq<char>, tokens: Seq<Token>)
    ensures
        text(word(name)) == name,
        tokens == word(name) ==> text(tokens) == name,
        text(tokens).len() > 0 ==> tokens == word(text(tokens)),
{
    if text(tokens).len() > 0 {
        assert(tokens =~= word(text(tokens)));
    }
}

} // verus!
