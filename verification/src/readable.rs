//! Tokens that can be read as Rust syntax.
//!
//! The parser of the `syn` crate gives up on some tokens without an error: on literals
//! that it does not know, and on a `dyn` type behind a `for<..>` whose first bound is a
//! lifetime.  Tokens without these are readable, whatever errors they may have.  What is
//! in the brackets of an attribute, or of the call or the definition of a macro, is not read
//! at all.  Nor is what follows the part of syntax that comes first: a generic parameter
//! list, a `where` clause, or an item.

use crate::tokens::{trees, Delimiter, Tree};
use proc_macro2::TokenStream;
use vstd::prelude::*;
use vstd::string::StringExecFns;

verus! {

use crate::tokens::{contents, is_tree, weight, Token};

/// Whether a digit of a literal is too large for its base: one behind the prefix, with
/// nothing but digits and underscores before it.
pub open spec fn has_large_digit(literal: Seq<char>, largest: char) -> bool {
    exists|i: int|
        {
            &&& 2 <= i < literal.len()
            &&& largest < #[trigger] literal[i] <= '9'
            &&& forall|j: int| 2 <= j < i ==> is_digit(#[trigger] literal[j])
        }
}

/// Whether the character is a digit or an underscore.
pub open spec fn is_digit(c: char) -> bool {
    '0' <= c <= '9' || c == '_'
}

/// Whether a literal is a string, a byte string, a byte, a character, a number or a
/// boolean, going by how it starts.
pub open spec fn is_known(literal: Seq<char>) -> bool {
    if literal.len() == 0 {
        false
    } else if literal[0] == '"' || literal[0] == 'r' || literal[0] == '\'' {
        true
    } else if literal[0] == 'b' {
        literal.len() > 1 && (literal[1] == '"' || literal[1] == 'r' || literal[1] == '\'')
    } else if '0' <= literal[0] <= '9' {
        if literal.len() > 1 && literal[0] == '0' && literal[1] == 'b' {
            !has_large_digit(literal, '1')
        } else if literal.len() > 1 && literal[0] == '0' && literal[1] == 'o' {
            !has_large_digit(literal, '7')
        } else {
            true
        }
    } else {
        literal == "true"@ || literal == "false"@
    }
}

/// How much of `for<'a> dyn 'b` stands directly before a place.
#[derive(Clone, Copy, PartialEq, Eq, Structural, Debug)]
pub enum Before {
    /// Nothing of it.
    Nothing,
    /// `for`
    For,
    /// `for<`, and what can stand in these brackets.
    Bound,
    /// The apostrophe of a lifetime in these brackets.
    Apostrophe,
    /// `for<..>`
    Closed,
    /// `for<..> dyn`
    Dyn,
}

/// Whether a word is reserved.  A reserved word names nothing.
pub open spec fn is_reserved(text: Seq<char>) -> bool {
    text == "_"@ || text == "abstract"@ || text == "as"@ || text == "become"@ || text == "box"@
    || text == "break"@ || text == "const"@ || text == "continue"@ || text == "crate"@
    || text == "do"@ || text == "else"@ || text == "enum"@ || text == "extern"@ || text == "false"@
    || text == "final"@ || text == "fn"@ || text == "for"@ || text == "if"@ || text == "impl"@
    || text == "in"@ || text == "let"@ || text == "loop"@ || text == "macro"@ || text == "match"@
    || text == "mod"@ || text == "move"@ || text == "mut"@ || text == "override"@
    || text == "priv"@ || text == "pub"@ || text == "ref"@ || text == "return"@ || text == "Self"@
    || text == "self"@ || text == "static"@ || text == "struct"@ || text == "super"@
    || text == "trait"@ || text == "true"@ || text == "type"@ || text == "typeof"@
    || text == "unsafe"@ || text == "unsized"@ || text == "use"@ || text == "virtual"@
    || text == "where"@ || text == "while"@ || text == "yield"@
}

/// What the token directly before a place makes of a group there.
#[derive(Clone, Copy, PartialEq, Eq, Structural, Debug)]
pub enum Head {
    /// Nothing special.
    Other,
    /// The apostrophe of a lifetime or a label.
    Apostrophe,
    /// A word that is not reserved, and no lifetime or label.
    Name,
    /// Such a word and an exclamation mark: a macro is called.
    Call,
    /// The same and a further word: a macro is defined.
    Rules,
    /// The keyword `macro`.
    Macro,
    /// That keyword and a word: a macro is defined.
    Definition,
    /// The same and its parameters in parentheses.
    Body,
    /// The start of an attribute.
    Attribute,
}

/// What stands before a place.
#[derive(Clone, Copy, PartialEq, Eq, Structural, Debug)]
pub struct Place {
    pub before: Before,
    pub head: Head,
}

/// A place with nothing before it.
pub open spec fn start() -> Place {
    Place { before: Before::Nothing, head: Head::Other }
}

/// What stands before the place behind an identifier.
pub open spec fn after_ident(before: Before, text: Seq<char>) -> Before {
    match before {
        Before::Apostrophe => Before::Bound,
        _ => if text == "for"@ {
            Before::For
        } else if before == Before::Closed && text == "dyn"@ {
            Before::Dyn
        } else {
            after_other(before)
        },
    }
}

/// What stands before the place behind a punctuation character.  A lifetime must not
/// follow `for<..> dyn`.
pub open spec fn after_punct(before: Before, c: char) -> Option<Before> {
    match before {
        Before::For => if c == '<' {
            Some(Before::Bound)
        } else {
            Some(Before::Nothing)
        },
        Before::Bound => if c == '>' {
            Some(Before::Closed)
        } else if c == '<' {
            Some(Before::Nothing)
        } else if c == '\'' {
            Some(Before::Apostrophe)
        } else {
            Some(Before::Bound)
        },
        Before::Dyn => if c == '\'' {
            None
        } else {
            Some(Before::Nothing)
        },
        _ => Some(after_other(before)),
    }
}

/// What stands before the place behind a literal or a group.
pub open spec fn after_other(before: Before) -> Before {
    match before {
        Before::Bound | Before::Apostrophe => Before::Bound,
        _ => Before::Nothing,
    }
}

/// The token before the place behind an identifier.
pub open spec fn head_ident(head: Head, text: Seq<char>) -> Head {
    if head == Head::Apostrophe {
        Head::Other
    } else if text == "macro"@ {
        Head::Macro
    } else if is_reserved(text) {
        Head::Other
    } else {
        match head {
            Head::Call => Head::Rules,
            Head::Macro => Head::Definition,
            _ => Head::Name,
        }
    }
}

/// The token before the place behind a punctuation character.
pub open spec fn head_punct(head: Head, c: char) -> Head {
    if c == '\'' {
        Head::Apostrophe
    } else if c == '#' {
        Head::Attribute
    } else if c == '!' && head == Head::Name {
        Head::Call
    } else if c == '!' && head == Head::Attribute {
        Head::Attribute
    } else {
        Head::Other
    }
}

/// The token before the place behind a group.
pub open spec fn head_group(head: Head, delimiter: Delimiter) -> Head {
    if head == Head::Definition && delimiter == Delimiter::Parenthesis {
        Head::Body
    } else {
        Head::Other
    }
}

/// Whether a group at a place is not read.
pub open spec fn is_skipped(head: Head, delimiter: Delimiter) -> bool {
    match head {
        Head::Call | Head::Rules => true,
        Head::Attribute => delimiter == Delimiter::Bracket,
        Head::Definition => delimiter == Delimiter::Parenthesis || delimiter == Delimiter::Brace,
        Head::Body => delimiter == Delimiter::Brace,
        _ => false,
    }
}


/// The place behind some tokens, given the place before them; none where the tokens are
/// not readable.  A group without delimiters is as good as the tokens in it.
pub open spec fn scan(tokens: Seq<Token>, place: Place) -> Option<Place>
    decreases tokens,
{
    if tokens.len() == 0 {
        Some(place)
    } else {
        match scan(tokens.drop_last(), place) {
            Some(place) => match tokens.last() {
                Token::Ident(text) => Some(
                    Place {
                        before: after_ident(place.before, text),
                        head: head_ident(place.head, text),
                    },
                ),
                Token::Punct(c, _) => match after_punct(place.before, c) {
                    Some(before) => Some(Place { before, head: head_punct(place.head, c) }),
                    None => None,
                },
                Token::Literal(text) => if is_known(text) {
                    Some(Place { before: after_other(place.before), head: Head::Other })
                } else {
                    None
                },
                Token::Group(Delimiter::Invisible, inner) => scan(inner, place),
                Token::Group(delimiter, inner) => if is_skipped(place.head, delimiter) || scan(
                    inner,
                    start(),
                ) is Some {
                    Some(
                        Place {
                            before: after_other(place.before),
                            head: head_group(place.head, delimiter),
                        },
                    )
                } else {
                    None
                },
            },
            None => None,
        }
    }
}

/// Whether braces behind a token can stand inside a part of syntax: in the value behind an
/// `=`, or in the call of a macro.  A group without delimiters can hold either.
pub open spec fn goes_on(token: Token) -> bool {
    match token {
        Token::Punct(c, _) => c == '=' || c == '!',
        Token::Group(delimiter, _) => delimiter == Delimiter::Invisible,
        _ => false,
    }
}

/// Whether braces directly behind a token can be a generic argument.
pub open spec fn starts_argument(token: Token) -> bool {
    token matches Token::Punct(c, _) && (c == '<' || c == ',')
}

/// Whether no part of syntax goes on behind some tokens: they end with a semicolon, or with
/// braces that are neither a generic argument, nor in a value or in the call of a macro.
pub open spec fn is_whole(part: Seq<Token>) -> bool {
    part.len() > 0 && match part.last() {
        Token::Punct(c, _) => c == ';',
        Token::Group(Delimiter::Brace, _) => {
            &&& forall|i: int| 0 <= i < part.len() - 1 ==> !goes_on(#[trigger] part[i])
            &&& part.len() > 1 ==> !starts_argument(part[part.len() - 2])
        },
        _ => false,
    }
}

/// The tokens up to where the part of syntax that comes first has ended.
pub open spec fn reach(tokens: Seq<Token>) -> Seq<Token>
    decreases tokens.len(),
{
    if tokens.len() == 0 {
        tokens
    } else {
        let before = reach(tokens.drop_last());
        if before.len() < tokens.len() - 1 || is_whole(before) {
            before
        } else {
            tokens
        }
    }
}

/// The same without the semicolon or the braces at the end.
pub open spec fn header(tokens: Seq<Token>) -> Seq<Token> {
    if is_whole(reach(tokens)) {
        reach(tokens).drop_last()
    } else {
        reach(tokens)
    }
}

/// Whether, in all that is read of the item that comes first, all literals are known, and
/// no `dyn` with a lifetime directly behind it stands directly behind a `for<..>`.
pub open spec fn readable(tokens: Seq<Token>) -> bool {
    scan(reach(tokens), start()) is Some
}

/// The same of the generic parameter list or the `where` clause that comes first.
pub open spec fn readable_header(tokens: Seq<Token>) -> bool {
    scan(header(tokens), start()) is Some
}

fn find_large_digit(literal: &str, largest: char) -> (r: bool)
    ensures
        r == has_large_digit(literal@, largest),
{
    let n: usize = literal.unicode_len();
    let mut i: usize = 2;
    while i < n
        invariant
            2 <= i,
            n == literal@.len(),
            forall|j: int| 2 <= j < i && j < n ==> is_digit(#[trigger] literal@[j]),
            forall|j: int| 2 <= j < i && j < n ==> !(largest < #[trigger] literal@[j] <= '9'),
        decreases n - i,
    {
        let c = literal.get_char(i);
        if largest < c && c <= '9' {
            assert(largest < literal@[i as int] <= '9');
            return true;
        }
        if !(('0' <= c && c <= '9') || c == '_') {
            assert(!is_digit(literal@[i as int]));
            return false;
        }
        i += 1;
    }
    false
}

/// Whether the literal is of a known kind.
pub fn check_literal(literal: &str) -> (r: bool)
    ensures
        r == is_known(literal@),
{
    let n: usize = literal.unicode_len();
    if n == 0 {
        return false;
    }
    let first = literal.get_char(0);
    if first == '"' || first == 'r' || first == '\'' {
        true
    } else if first == 'b' {
        if n == 1 {
            return false;
        }
        let second = literal.get_char(1);
        second == '"' || second == 'r' || second == '\''
    } else if '0' <= first && first <= '9' {
        if n == 1 || first != '0' {
            return true;
        }
        match literal.get_char(1) {
            'b' => !find_large_digit(literal, '1'),
            'o' => !find_large_digit(literal, '7'),
            _ => true,
        }
    } else {
        let literal = String::from_str(literal);
        literal == "true".to_owned() || literal == "false".to_owned()
    }
}

/// Whether the word is reserved.
fn check_reserved(text: &String) -> (r: bool)
    ensures
        r == is_reserved(text@),
{
    *text == "_".to_owned() || *text == "abstract".to_owned() || *text == "as".to_owned()
    || *text == "become".to_owned() || *text == "box".to_owned() || *text == "break".to_owned()
    || *text == "const".to_owned() || *text == "continue".to_owned() || *text == "crate".to_owned()
    || *text == "do".to_owned() || *text == "else".to_owned() || *text == "enum".to_owned()
    || *text == "extern".to_owned() || *text == "false".to_owned() || *text == "final".to_owned()
    || *text == "fn".to_owned() || *text == "for".to_owned() || *text == "if".to_owned()
    || *text == "impl".to_owned() || *text == "in".to_owned() || *text == "let".to_owned()
    || *text == "loop".to_owned() || *text == "macro".to_owned() || *text == "match".to_owned()
    || *text == "mod".to_owned() || *text == "move".to_owned() || *text == "mut".to_owned()
    || *text == "override".to_owned() || *text == "priv".to_owned() || *text == "pub".to_owned()
    || *text == "ref".to_owned() || *text == "return".to_owned() || *text == "Self".to_owned()
    || *text == "self".to_owned() || *text == "static".to_owned() || *text == "struct".to_owned()
    || *text == "super".to_owned() || *text == "trait".to_owned() || *text == "true".to_owned()
    || *text == "type".to_owned() || *text == "typeof".to_owned() || *text == "unsafe".to_owned()
    || *text == "unsized".to_owned() || *text == "use".to_owned() || *text == "virtual".to_owned()
    || *text == "where".to_owned() || *text == "while".to_owned() || *text == "yield".to_owned()
}

fn pass_ident(before: Before, text: &String) -> (r: Before)
    ensures
        r == after_ident(before, text@),
{
    if before == Before::Apostrophe {
        Before::Bound
    } else if *text == "for".to_owned() {
        Before::For
    } else if before == Before::Closed && *text == "dyn".to_owned() {
        Before::Dyn
    } else {
        pass_other(before)
    }
}

fn pass_punct(before: Before, c: char) -> (r: Option<Before>)
    ensures
        r == after_punct(before, c),
{
    match before {
        Before::For => if c == '<' {
            Some(Before::Bound)
        } else {
            Some(Before::Nothing)
        },
        Before::Bound => if c == '>' {
            Some(Before::Closed)
        } else if c == '<' {
            Some(Before::Nothing)
        } else if c == '\'' {
            Some(Before::Apostrophe)
        } else {
            Some(Before::Bound)
        },
        Before::Dyn => if c == '\'' {
            None
        } else {
            Some(Before::Nothing)
        },
        _ => Some(pass_other(before)),
    }
}

fn pass_other(before: Before) -> (r: Before)
    ensures
        r == after_other(before),
{
    match before {
        Before::Bound | Before::Apostrophe => Before::Bound,
        _ => Before::Nothing,
    }
}

fn pass_head_ident(head: Head, text: &String) -> (r: Head)
    ensures
        r == head_ident(head, text@),
{
    if head == Head::Apostrophe {
        Head::Other
    } else if *text == "macro".to_owned() {
        Head::Macro
    } else if check_reserved(text) {
        Head::Other
    } else {
        match head {
            Head::Call => Head::Rules,
            Head::Macro => Head::Definition,
            _ => Head::Name,
        }
    }
}

fn pass_head_punct(head: Head, c: char) -> (r: Head)
    ensures
        r == head_punct(head, c),
{
    if c == '\'' {
        Head::Apostrophe
    } else if c == '#' {
        Head::Attribute
    } else if c == '!' && head == Head::Name {
        Head::Call
    } else if c == '!' && head == Head::Attribute {
        Head::Attribute
    } else {
        Head::Other
    }
}

fn pass_head_group(head: Head, delimiter: Delimiter) -> (r: Head)
    ensures
        r == head_group(head, delimiter),
{
    if head == Head::Definition && delimiter == Delimiter::Parenthesis {
        Head::Body
    } else {
        Head::Other
    }
}

fn check_skipped(head: Head, delimiter: Delimiter) -> (r: bool)
    ensures
        r == is_skipped(head, delimiter),
{
    match head {
        Head::Call | Head::Rules => true,
        Head::Attribute => delimiter == Delimiter::Bracket,
        Head::Definition => delimiter == Delimiter::Parenthesis || delimiter == Delimiter::Brace,
        Head::Body => delimiter == Delimiter::Brace,
        _ => false,
    }
}

/// What is in a group is less than what holds the group.
proof fn lemma_weight(tokens: Seq<Token>, i: int)
    requires
        0 <= i < tokens.len(),
    ensures
        tokens[i] matches Token::Group(_, inner) ==> weight(inner) < weight(tokens),
    decreases tokens.len(),
{
    if i < tokens.len() - 1 {
        assert(tokens.drop_last()[i] == tokens[i]);
        lemma_weight(tokens.drop_last(), i);
    }
}

/// Tokens that start with unreadable ones are not readable.
proof fn lemma_scan(tokens: Seq<Token>, n: int, place: Place)
    requires
        0 <= n <= tokens.len(),
        scan(tokens.take(n), place) is None,
    ensures
        scan(tokens, place) is None,
    decreases tokens.len(),
{
    if n == tokens.len() {
        assert(tokens.take(n) =~= tokens);
    } else {
        assert(tokens.drop_last().take(n) =~= tokens.take(n));
        lemma_scan(tokens.drop_last(), n, place);
    }
}

fn scan_stream(stream: &TokenStream, place: Place) -> (r: Option<Place>)
    ensures
        r == scan(contents(*stream), place),
    decreases weight(contents(*stream)), 1int,
{
    let ghost all = contents(*stream);
    let trees = trees(stream);
    assert(all.take(all.len() as int) =~= all);
    scan_trees(&trees, trees.len(), place, Ghost(all))
}

/// The place behind the first of some tokens.
fn scan_trees(trees: &Vec<Tree>, n: usize, place: Place, Ghost(all): Ghost<Seq<Token>>) -> (r:
    Option<Place>)
    requires
        n <= trees.len() == all.len(),
        forall|j: int| 0 <= j < trees@.len() ==> is_tree(#[trigger] trees@[j], all[j]),
    ensures
        r == scan(all.take(n as int), place),
    decreases weight(all), 0int,
{
    let mut current = place;
    let mut i: usize = 0;
    while i < n
        invariant
            i <= n <= trees.len() == all.len(),
            forall|j: int| 0 <= j < trees@.len() ==> is_tree(#[trigger] trees@[j], all[j]),
            scan(all.take(i as int), place) == Some(current),
        decreases n - i,
    {
        proof {
            assert(is_tree(trees@[i as int], all[i as int]));
            assert(all.take(i + 1).drop_last() =~= all.take(i as int));
            assert(all.take(i + 1).last() == all[i as int]);
            lemma_weight(all, i as int);
        }
        let before = pass_other(current.before);
        let next = match &trees[i] {
            Tree::Ident(text) => Some(
                Place {
                    before: pass_ident(current.before, text),
                    head: pass_head_ident(current.head, text),
                },
            ),
            Tree::Punct(c, _) => match pass_punct(current.before, *c) {
                Some(before) => Some(Place { before, head: pass_head_punct(current.head, *c) }),
                None => None,
            },
            Tree::Literal(text) => if check_literal(text.as_str()) {
                Some(Place { before, head: Head::Other })
            } else {
                None
            },
            Tree::Group(delimiter, inner) => if *delimiter == Delimiter::Invisible {
                scan_stream(inner, current)
            } else {
                let start = Place { before: Before::Nothing, head: Head::Other };
                if check_skipped(current.head, *delimiter) || scan_stream(inner, start).is_some() {
                    Some(Place { before, head: pass_head_group(current.head, *delimiter) })
                } else {
                    None
                }
            },
        };
        assert(next == scan(all.take(i + 1), place));
        match next {
            Some(next) => {
                current = next;
            },
            None => {
                proof {
                    assert(all.take(n as int).take(i + 1) =~= all.take(i + 1));
                    lemma_scan(all.take(n as int), i + 1, place);
                }
                return None;
            },
        }
        i += 1;
    }
    Some(current)
}

/// Tokens that are whole are as far as any tokens reach that start with them.
proof fn lemma_reach(tokens: Seq<Token>, n: int)
    requires
        0 <= n <= tokens.len(),
        reach(tokens.take(n)) == tokens.take(n),
        is_whole(tokens.take(n)),
    ensures
        reach(tokens) == tokens.take(n),
    decreases tokens.len(),
{
    if n == tokens.len() {
        assert(tokens.take(n) =~= tokens);
    } else {
        assert(tokens.drop_last().take(n) =~= tokens.take(n));
        lemma_reach(tokens.drop_last(), n);
    }
}

/// How many tokens there are up to where the part of syntax that comes first has ended, and
/// whether they are whole.
fn reach_of(trees: &Vec<Tree>, Ghost(all): Ghost<Seq<Token>>) -> (r: (usize, bool))
    requires
        trees.len() == all.len(),
        forall|j: int| 0 <= j < trees@.len() ==> is_tree(#[trigger] trees@[j], all[j]),
    ensures
        r.0 <= all.len(),
        reach(all) == all.take(r.0 as int),
        r.1 == is_whole(reach(all)),
{
    let mut more = false;
    let mut argument = false;
    let mut i: usize = 0;
    while i < trees.len()
        invariant
            i <= trees.len() == all.len(),
            forall|j: int| 0 <= j < trees@.len() ==> is_tree(#[trigger] trees@[j], all[j]),
            reach(all.take(i as int)) == all.take(i as int),
            !is_whole(all.take(i as int)),
            more == exists|j: int| 0 <= j < i && goes_on(#[trigger] all[j]),
            argument == (i > 0 && starts_argument(all[i - 1])),
        decreases trees.len() - i,
    {
        let ghost part = all.take(i + 1);
        proof {
            assert(is_tree(trees@[i as int], all[i as int]));
            assert(part.drop_last() =~= all.take(i as int));
            assert(part.last() == all[i as int]);
            assert(forall|j: int| 0 <= j <= i ==> #[trigger] part[j] == all[j]);
            if more {
                let j = choose|j: int| 0 <= j < i && goes_on(#[trigger] all[j]);
                assert(goes_on(part[j]));
            }
        }
        let (whole, on, start) = match &trees[i] {
            Tree::Punct(c, _) => (*c == ';', *c == '=' || *c == '!', *c == '<' || *c == ','),
            Tree::Group(delimiter, _) => (
                *delimiter == Delimiter::Brace && !more && !argument,
                *delimiter == Delimiter::Invisible,
                false,
            ),
            _ => (false, false, false),
        };
        assert(whole == is_whole(part));
        i += 1;
        if whole {
            proof {
                lemma_reach(all, i as int);
            }
            return (i, true);
        }
        more = more || on;
        argument = start;
    }
    assert(all.take(i as int) =~= all);
    (i, false)
}

/// Whether the item that comes first can be read.
pub fn check_readable(stream: &TokenStream) -> (b: bool)
    ensures
        b == readable(contents(*stream)),
{
    let ghost all = contents(*stream);
    let trees = trees(stream);
    let (n, _) = reach_of(&trees, Ghost(all));
    let start = Place { before: Before::Nothing, head: Head::Other };
    scan_trees(&trees, n, start, Ghost(all)).is_some()
}

/// Whether the generic parameter list or the `where` clause that comes first can be read.
pub fn check_header(stream: &TokenStream) -> (b: bool)
    ensures
        b == readable_header(contents(*stream)),
{
    let ghost all = contents(*stream);
    let trees = trees(stream);
    let (n, whole) = reach_of(&trees, Ghost(all));
    let end: usize = if whole {
        n - 1
    } else {
        n
    };
    assert(header(all) =~= all.take(end as int));
    let start = Place { before: Before::Nothing, head: Head::Other };
    scan_trees(&trees, end, start, Ghost(all)).is_some()
}

} // verus!
