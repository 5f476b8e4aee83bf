//! What holds of tokens that can be read.

use crate::readable::{Before, Head, Place};
use crate::tokens::Delimiter;
use vstd::prelude::*;

verus! {

use crate::readable::{
    after_ident, after_other, after_punct, head_group, head_ident, head_punct, header, is_known,
    is_reserved, is_skipped, is_whole, reach, readable, readable_header, scan, start,
};
use crate::tokens::{braces, group, joint, parens, punct, word, Token};

/// Tokens are read from the left to the right: what follows is read from the place that is
/// reached, and nothing is read behind what cannot be.
pub proof fn tokens_are_read_in_order(a: Seq<Token>, b: Seq<Token>, place: Place)
    ensures
        scan(Seq::empty(), place) == Some(place),
        scan(a + b, place) == match scan(a, place) {
            Some(next) => scan(b, next),
            None => None,
        },
    decreases b.len(),
{
    if b.len() == 0 {
        assert(a + b =~= a);
    } else {
        assert((a + b).drop_last() =~= a + b.drop_last());
        assert((a + b).last() == b.last());
        tokens_are_read_in_order(a, b.drop_last(), place);
    }
}

/// Whether all literals in some tokens are known, at any depth, and the word `for` does not
/// occur.
pub open spec fn is_harmless(tokens: Seq<Token>) -> bool
    decreases tokens,
{
    tokens.len() > 0 ==> is_harmless(tokens.drop_last()) && match tokens.last() {
        Token::Ident(text) => text != "for"@,
        Token::Punct(..) => true,
        Token::Literal(text) => is_known(text),
        Token::Group(_, inner) => is_harmless(inner),
    }
}

proof fn lemma_harmless(tokens: Seq<Token>, place: Place)
    requires
        is_harmless(tokens),
        place.before == Before::Nothing,
    ensures
        scan(tokens, place) matches Some(next) && next.before == Before::Nothing,
    decreases tokens,
{
    if tokens.len() > 0 {
        lemma_harmless(tokens.drop_last(), place);
        if let Token::Group(delimiter, inner) = tokens.last() {
            if delimiter == Delimiter::Invisible {
                lemma_harmless(inner, scan(tokens.drop_last(), place)->Some_0);
            } else {
                lemma_harmless(inner, start());
            }
        }
    }
}

proof fn lemma_harmless_prefix(tokens: Seq<Token>, n: int)
    requires
        is_harmless(tokens),
        0 <= n <= tokens.len(),
    ensures
        is_harmless(tokens.take(n)),
    decreases tokens.len(),
{
    if n == tokens.len() {
        assert(tokens.take(n) =~= tokens);
    } else {
        assert(tokens.drop_last().take(n) =~= tokens.take(n));
        lemma_harmless_prefix(tokens.drop_last(), n);
    }
}

/// Tokens that have no literal but known ones and no `for` can be read, whatever else they
/// are.
pub proof fn harmless_tokens_are_readable(tokens: Seq<Token>)
    requires
        is_harmless(tokens),
    ensures
        readable(tokens),
        readable_header(tokens),
{
    parts_end_once(tokens);
    let n = reach(tokens).len() as int;
    lemma_harmless_prefix(tokens, n);
    lemma_harmless(tokens.take(n), start());
    if is_whole(reach(tokens)) {
        assert(reach(tokens).drop_last() =~= tokens.take(n - 1));
        lemma_harmless_prefix(tokens, n - 1);
        lemma_harmless(tokens.take(n - 1), start());
    }
}

/// A literal that is not known cannot be read, wherever it stands in what is read.
pub proof fn unknown_literals_are_unreadable(
    before: Seq<Token>,
    literal: Seq<char>,
    after: Seq<Token>,
    place: Place,
)
    requires
        !is_known(literal),
    ensures
        scan(before + seq![Token::Literal(literal)] + after, place) is None,
{
    let one = seq![Token::Literal(literal)];
    tokens_are_read_in_order(before + one, after, place);
    tokens_are_read_in_order(before, one, place);
    if let Some(next) = scan(before, place) {
        assert(one.drop_last() =~= Seq::empty());
        assert(scan(one.drop_last(), next) == Some(next));
        assert(one.last() == Token::Literal(literal));
        assert(scan(one, next) is None);
    }
}

/// A group in parentheses, brackets or braces is read where no macro is called or defined
/// before it and no attribute starts: then it must be readable by itself.
pub proof fn groups_are_read_by_themselves(
    delimiter: Delimiter,
    inner: Seq<Token>,
    other: Seq<Token>,
    place: Place,
)
    requires
        delimiter != Delimiter::Invisible,
    ensures
        ({
            let group = seq![Token::Group(delimiter, inner)];
            &&& place.head == Head::Other || place.head == Head::Name || place.head
                == Head::Apostrophe || place.head == Head::Macro ==> (scan(group, place) is Some
                <==> scan(inner, start()) is Some)
            &&& place.head == Head::Call || place.head == Head::Rules ==> scan(group, place) is Some
            &&& place.head == Head::Attribute && delimiter == Delimiter::Bracket ==> scan(
                group,
                place,
            ) is Some
            &&& scan(inner, start()) is Some && scan(other, start()) is Some ==> scan(group, place)
                == scan(seq![Token::Group(delimiter, other)], place)
        }),
{
    let group = seq![Token::Group(delimiter, inner)];
    let another = seq![Token::Group(delimiter, other)];
    assert(group.drop_last() =~= Seq::empty());
    assert(another.drop_last() =~= Seq::empty());
    assert(scan(group.drop_last(), place) == Some(place));
    assert(scan(another.drop_last(), place) == Some(place));
    assert(group.last() == Token::Group(delimiter, inner));
    assert(another.last() == Token::Group(delimiter, other));
}

/// A group without delimiters is as good as the tokens in it.
pub proof fn invisible_groups_do_not_matter(inner: Seq<Token>, place: Place)
    ensures
        scan(seq![Token::Group(Delimiter::Invisible, inner)], place) == scan(inner, place),
{
    let group = seq![Token::Group(Delimiter::Invisible, inner)];
    assert(group.drop_last() =~= Seq::empty());
    assert(scan(group.drop_last(), place) == Some(place));
    assert(group.last() == Token::Group(Delimiter::Invisible, inner));
}

proof fn lemma_one(token: Token, place: Place)
    ensures
        scan(seq![token], place) == match token {
            Token::Ident(text) => Some(
                Place {
                    before: after_ident(place.before, text),
                    head: head_ident(place.head, text),
                },
            ),
            Token::Punct(c, _) => match after_punct(place.before, c) {
                Some(before) => Some(
                    Place { before, head: head_punct(place.head, c) },
                ),
                None => None,
            },
            _ => scan(seq![token], place),
        },
{
    let one = seq![token];
    assert(one.drop_last() =~= Seq::empty());
    assert(scan(one.drop_last(), place) == Some(place));
    assert(one.last() == token);
}

/// Whatever is in the brackets of an attribute, or in those of the call of a macro, is not
/// read, whatever the macro is called.
pub proof fn attributes_and_calls_are_not_read(
    place: Place,
    name: Seq<char>,
    delimiter: Delimiter,
    inner: Seq<Token>,
    glued: bool,
)
    requires
        place == start(),
        !is_reserved(name),
        delimiter != Delimiter::Invisible,
    ensures
        scan(
            seq![Token::Punct('#', glued), Token::Group(Delimiter::Bracket, inner)],
            place,
        ) is Some,
        scan(
            seq![
                Token::Ident(name),
                Token::Punct('!', glued),
                Token::Group(delimiter, inner),
            ],
            place,
        ) is Some,
{
    let hash = seq![Token::Punct('#', glued)];
    let brackets = seq![Token::Group(Delimiter::Bracket, inner)];
    lemma_one(hash[0], place);
    tokens_are_read_in_order(hash, brackets, place);
    assert(hash + brackets =~= seq![
        Token::Punct('#', glued),
        Token::Group(Delimiter::Bracket, inner),
    ]);
    groups_are_read_by_themselves(
        Delimiter::Bracket,
        inner,
        inner,
        scan(hash, place)->Some_0,
    );
    let path = seq![Token::Ident(name)];
    let bang = seq![Token::Punct('!', glued)];
    let group = seq![Token::Group(delimiter, inner)];
    reveal_strlit("macro");
    lemma_one(path[0], place);
    tokens_are_read_in_order(path, bang, place);
    let named = scan(path, place)->Some_0;
    lemma_one(bang[0], named);
    tokens_are_read_in_order(path + bang, group, place);
    assert(path + bang + group =~= seq![
        Token::Ident(name),
        Token::Punct('!', glued),
        Token::Group(delimiter, inner),
    ]);
    assert(is_reserved("macro"@));
    assert(named.before == Before::Nothing);
    groups_are_read_by_themselves(delimiter, inner, inner, scan(bang, named)->Some_0);
}

/// A `dyn` type that starts with a lifetime cannot be read directly behind a `for<..>`, and
/// can be read where there is none.
pub proof fn bound_objects_start_with_a_trait(place: Place, name: Seq<char>)
    requires
        place.head != Head::Apostrophe,
        place.before == Before::Nothing,
    ensures
        scan(
            word("for"@) + punct('<') + joint('\'') + word(name) + punct('>') + word("dyn"@)
                + joint('\''),
            place,
        ) is None,
        scan(word("dyn"@) + joint('\''), place) is Some,
{
    reveal_strlit("for");
    reveal_strlit("dyn");
    let quote = joint('\'');
    assert("for"@.len() == 3 && "dyn"@.len() == 3 && "for"@[0] == 'f' && "dyn"@[0] == 'd');
    tokens_are_read_in_order(word("dyn"@), quote, place);
    lemma_one(word("dyn"@)[0], place);
    let at_dyn = scan(word("dyn"@), place)->Some_0;
    lemma_one(quote[0], at_dyn);
    let a = word("for"@);
    let p1 = scan(a, place);
    lemma_one(a[0], place);
    tokens_are_read_in_order(a, punct('<'), place);
    lemma_one(punct('<')[0], p1->Some_0);
    let b = a + punct('<');
    let p2 = scan(b, place);
    tokens_are_read_in_order(b, quote, place);
    lemma_one(quote[0], p2->Some_0);
    let c = b + quote;
    let p3 = scan(c, place);
    tokens_are_read_in_order(c, word(name), place);
    lemma_one(word(name)[0], p3->Some_0);
    let d = c + word(name);
    let p4 = scan(d, place);
    tokens_are_read_in_order(d, punct('>'), place);
    lemma_one(punct('>')[0], p4->Some_0);
    let e = d + punct('>');
    let p5 = scan(e, place);
    tokens_are_read_in_order(e, word("dyn"@), place);
    lemma_one(word("dyn"@)[0], p5->Some_0);
    let f = e + word("dyn"@);
    let p6 = scan(f, place);
    tokens_are_read_in_order(f, quote, place);
    lemma_one(quote[0], p6->Some_0);
}

/// What is read of a part of syntax is a start of the tokens: all of them, or up to where
/// the part has first ended, and without that end where only its header is read.
pub proof fn parts_end_once(tokens: Seq<Token>)
    ensures
        ({
            let n = reach(tokens).len() as int;
            &&& n <= tokens.len()
            &&& reach(tokens) == tokens.take(n)
            &&& n < tokens.len() ==> is_whole(tokens.take(n))
            &&& forall|i: int| 0 <= i < n ==> !is_whole(#[trigger] tokens.take(i))
            &&& header(tokens) == if is_whole(tokens.take(n)) {
                tokens.take(n - 1)
            } else {
                tokens
            }
        }),
    decreases tokens.len(),
{
    if tokens.len() > 0 {
        let before = tokens.drop_last();
        parts_end_once(before);
        let n = reach(before).len() as int;
        assert(before.take(n) =~= tokens.take(n));
        assert(before.take(before.len() as int) =~= before);
        assert(tokens.take(tokens.len() as int) =~= tokens);
        assert forall|i: int| 0 <= i < reach(tokens).len() implies !is_whole(
            #[trigger] tokens.take(i),
        ) by {
            if i < n {
                assert(before.take(i) =~= tokens.take(i));
            } else {
                assert(i == before.len());
                assert(tokens.take(i) =~= before);
            }
        }
    } else {
        assert(tokens.take(0) =~= tokens);
    }
    let n = reach(tokens).len() as int;
    if is_whole(reach(tokens)) {
        assert(reach(tokens).drop_last() =~= tokens.take(n - 1));
    }
}

/// A part ends with a semicolon wherever that stands.  It ends with braces, unless they can
/// be a generic argument, or an `=`, a `!` or a group without delimiters stands before them.
/// It ends with nothing else.
pub proof fn parts_end_with_semicolons_or_braces(before: Seq<Token>, token: Token)
    ensures
        is_whole(before.push(token)) <==> match token {
            Token::Punct(c, _) => c == ';',
            Token::Group(delimiter, _) => {
                &&& delimiter == Delimiter::Brace
                &&& forall|i: int|
                    0 <= i < before.len() ==> match #[trigger] before[i] {
                        Token::Punct(c, _) => c != '=' && c != '!',
                        Token::Group(delimiter, _) => delimiter != Delimiter::Invisible,
                        _ => true,
                    }
                &&& before.len() > 0 ==> match before.last() {
                    Token::Punct(c, _) => c != '<' && c != ',',
                    _ => true,
                }
            },
            _ => false,
        },
{
    let part = before.push(token);
    assert(part.last() == token);
    assert(forall|i: int| 0 <= i < before.len() ==> #[trigger] part[i] == before[i]);
    assert(forall|i: int| 0 <= i < before.len() ==> part[i] == #[trigger] before[i]);
}

/// A literal is known by how it starts.  A number in base two or eight must not go on with a
/// digit that its base does not have.
pub proof fn literals_are_known_by_their_start(literal: Seq<char>, rest: Seq<char>)
    ensures
        !is_known(Seq::empty()),
        is_known(seq!['"'] + rest),
        is_known(seq!['\''] + rest),
        is_known(seq!['r'] + rest),
        is_known(seq!['b'] + rest) <==> (rest.len() > 0 && (rest[0] == '"' || rest[0] == 'r'
            || rest[0] == '\'')),
        literal.len() > 0 && '1' <= literal[0] <= '9' ==> is_known(literal),
        literal.len() == 1 && literal[0] == '0' ==> is_known(literal),
        literal.len() > 1 && literal[0] == '0' && literal[1] != 'b' && literal[1] != 'o'
            ==> is_known(literal),
        rest.len() > 0 && '2' <= rest[0] <= '9' ==> !is_known(seq!['0', 'b'] + rest),
        rest.len() > 0 && '8' <= rest[0] <= '9' ==> !is_known(seq!['0', 'o'] + rest),
        (forall|i: int| 0 <= i < rest.len() ==> !('2' <= #[trigger] rest[i] <= '9')) ==> is_known(
            seq!['0', 'b'] + rest,
        ),
        (forall|i: int| 0 <= i < rest.len() ==> !('8' <= #[trigger] rest[i] <= '9')) ==> is_known(
            seq!['0', 'o'] + rest,
        ),
        literal == "true"@ || literal == "false"@ ==> is_known(literal),
        is_known(literal) && literal != "true"@ && literal != "false"@ ==> literal.len() > 0 && (
        "\"'rb0123456789"@.contains(literal[0])),
{
    reveal_strlit("true");
    reveal_strlit("false");
    reveal_strlit("\"'rb0123456789");
    let two = seq!['0', 'b'] + rest;
    let eight = seq!['0', 'o'] + rest;
    if rest.len() > 0 {
        assert(two[2] == rest[0] && eight[2] == rest[0]);
    }
    assert(forall|i: int| 2 <= i < two.len() ==> #[trigger] two[i] == rest[i - 2]);
    assert(forall|i: int| 2 <= i < eight.len() ==> #[trigger] eight[i] == rest[i - 2]);
    let starts = "\"'rb0123456789"@;
    assert(starts[0] == '"' && starts[1] == '\'' && starts[2] == 'r' && starts[3] == 'b');
    assert(starts[4] == '0' && starts[5] == '1' && starts[6] == '2' && starts[7] == '3');
    assert(starts[8] == '4' && starts[9] == '5' && starts[10] == '6' && starts[11] == '7');
    assert(starts[12] == '8' && starts[13] == '9');
    let b = seq!['b'] + rest;
    if rest.len() > 0 {
        assert(b[1] == rest[0]);
    }
}

/// Whatever is in the braces of the definition of a macro, and in the parentheses before
/// them, is not read, whatever the macro is called.
pub proof fn definitions_are_not_read(
    maker: Seq<char>,
    name: Seq<char>,
    params: Seq<Token>,
    inner: Seq<Token>,
)
    requires
        !is_reserved(maker),
        !is_reserved(name),
    ensures
        scan(word(maker) + punct('!') + word(name) + braces(inner), start()) is Some,
        scan(word("macro"@) + word(name) + braces(inner), start()) is Some,
        scan(word("macro"@) + word(name) + parens(params) + braces(inner), start()) is Some,
{
    reveal_strlit("macro");
    reveal_strlit("for");
    assert(is_reserved("macro"@) && is_reserved("for"@));
    assert("macro"@.len() == 5 && "for"@.len() == 3);
    let a = word(maker) + punct('!');
    tokens_are_read_in_order(word(maker), punct('!'), start());
    lemma_one(word(maker)[0], start());
    let p1 = scan(word(maker), start())->Some_0;
    lemma_one(punct('!')[0], p1);
    tokens_are_read_in_order(a, word(name), start());
    let p2 = scan(a, start())->Some_0;
    lemma_one(word(name)[0], p2);
    tokens_are_read_in_order(a + word(name), braces(inner), start());
    lemma_group(Delimiter::Brace, inner, scan(a + word(name), start())->Some_0);
    let b = word("macro"@) + word(name);
    tokens_are_read_in_order(word("macro"@), word(name), start());
    lemma_one(word("macro"@)[0], start());
    let q1 = scan(word("macro"@), start())->Some_0;
    lemma_one(word(name)[0], q1);
    let q2 = scan(b, start())->Some_0;
    tokens_are_read_in_order(b, braces(inner), start());
    lemma_group(Delimiter::Brace, inner, q2);
    tokens_are_read_in_order(b, parens(params), start());
    lemma_group(Delimiter::Parenthesis, params, q2);
    let q3 = scan(b + parens(params), start())->Some_0;
    tokens_are_read_in_order(b + parens(params), braces(inner), start());
    lemma_group(Delimiter::Brace, inner, q3);
}

proof fn lemma_group(delimiter: Delimiter, inner: Seq<Token>, place: Place)
    requires
        delimiter != Delimiter::Invisible,
    ensures
        is_skipped(place.head, delimiter) ==> scan(group(delimiter, inner), place) == Some(
            Place {
                before: after_other(place.before),
                head: head_group(place.head, delimiter),
            },
        ),
{
    let one = group(delimiter, inner);
    assert(one.drop_last() =~= Seq::empty());
    assert(scan(one.drop_last(), place) == Some(place));
    assert(one.last() == Token::Group(delimiter, inner));
}

/// The reserved words are the keywords of the language, those that it sets aside, and the
/// underscore.
pub proof fn reserved_words(text: Seq<char>)
    ensures
        is_reserved(text) <==> {
            ||| "_"@ == text || "as"@ == text || "break"@ == text || "const"@ == text
            ||| "continue"@ == text || "crate"@ == text || "else"@ == text || "enum"@ == text
            ||| "extern"@ == text || "false"@ == text || "fn"@ == text || "for"@ == text
            ||| "if"@ == text || "impl"@ == text || "in"@ == text || "let"@ == text
            ||| "loop"@ == text || "match"@ == text || "mod"@ == text || "move"@ == text
            ||| "mut"@ == text || "pub"@ == text || "ref"@ == text || "return"@ == text
            ||| "Self"@ == text || "self"@ == text || "static"@ == text || "struct"@ == text
            ||| "super"@ == text || "trait"@ == text || "true"@ == text || "type"@ == text
            ||| "unsafe"@ == text || "use"@ == text || "where"@ == text || "while"@ == text
            ||| "abstract"@ == text || "become"@ == text || "box"@ == text || "do"@ == text
            ||| "final"@ == text || "macro"@ == text || "override"@ == text || "priv"@ == text
            ||| "typeof"@ == text || "unsized"@ == text || "virtual"@ == text || "yield"@ == text
        },
{
}

} // verus!
