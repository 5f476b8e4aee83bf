//! Token streams and what they hold.
//!
//! Generated code is a [`proc_macro2::TokenStream`].  The contracts speak of it
//! through [`contents`], the sequence of token trees that a stream holds.  Source
//! locations are no part of that sequence.

use proc_macro2::TokenStream;
use quote::{ToTokens, TokenStreamExt};
use unicode_xid::UnicodeXID;
use vstd::prelude::*;
use vstd::string::StringExecFns;

verus! {

/// The brackets around a group of tokens.
#[derive(Clone, Copy, PartialEq, Eq, Structural, Debug)]
pub enum Delimiter {
    Parenthesis,
    Brace,
    Bracket,
    /// The group has no written delimiter.
    Invisible,
}

/// One token tree.
pub enum Token {
    /// An identifier or a keyword.  The text of a raw identifier starts with `r#`.
    Ident(Seq<char>),
    /// One punctuation character, and whether it is glued to the next one.
    Punct(char, bool),
    /// A literal, as it is written in source code.
    Literal(Seq<char>),
    /// A delimited sequence of tokens.
    Group(Delimiter, Seq<Token>),
}

/// `proc_macro2::TokenStream`, a sequence of token trees.
#[verifier::external_type_specification]
#[verifier::external_body]
pub struct ExTokenStream(TokenStream);

/// The token trees that a stream holds, in order.
pub uninterp spec fn contents(stream: TokenStream) -> Seq<Token>;

/// The contents of each of several streams.
pub open spec fn all_contents(streams: Seq<TokenStream>) -> Seq<Seq<Token>> {
    Seq::new(streams.len(), |i: int| contents(streams[i]))
}

/// How many tokens there are, counting those inside groups.
pub open spec fn weight(tokens: Seq<Token>) -> nat
    decreases tokens,
{
    if tokens.len() == 0 {
        0
    } else {
        weight(tokens.drop_last()) + (match tokens.last() {
            Token::Group(_, inner) => 1 + weight(inner),
            _ => 1,
        })
    }
}

/// A lone identifier or keyword that has the text.
pub open spec fn word(text: Seq<char>) -> Seq<Token> {
    seq![Token::Ident(text)]
}

/// The text of a lone identifier; no text where the tokens are something else.
pub open spec fn text(tokens: Seq<Token>) -> Seq<char> {
    if tokens.len() == 1 && tokens[0] is Ident {
        tokens[0]->Ident_0
    } else {
        Seq::empty()
    }
}

/// Whether all characters come before the combining ones.  Normal form C leaves such a text
/// as it is.
pub open spec fn is_plain(text: Seq<char>) -> bool {
    forall|i: int| 0 <= i < text.len() ==> #[trigger] text[i] < '\u{300}'
}

/// A lone punctuation character.
pub open spec fn punct(c: char) -> Seq<Token> {
    seq![Token::Punct(c, false)]
}

/// A lone punctuation character that is glued to what follows.
pub open spec fn joint(c: char) -> Seq<Token> {
    seq![Token::Punct(c, true)]
}

/// A lone group.
pub open spec fn group(delimiter: Delimiter, inner: Seq<Token>) -> Seq<Token> {
    seq![Token::Group(delimiter, inner)]
}

pub open spec fn parens(inner: Seq<Token>) -> Seq<Token> {
    group(Delimiter::Parenthesis, inner)
}

pub open spec fn braces(inner: Seq<Token>) -> Seq<Token> {
    group(Delimiter::Brace, inner)
}

pub open spec fn brackets(inner: Seq<Token>) -> Seq<Token> {
    group(Delimiter::Bracket, inner)
}

/// No tokens.
pub open spec fn nothing() -> Seq<Token> {
    Seq::empty()
}

/// `::`
pub open spec fn colon2() -> Seq<Token> {
    joint(':') + punct(':')
}

/// `->`
pub open spec fn arrow() -> Seq<Token> {
    joint('-') + punct('>')
}

/// `::root::item`
pub open spec fn path2(root: Seq<char>, item: Seq<char>) -> Seq<Token> {
    colon2() + word(root) + colon2() + word(item)
}

/// `::root::module::item`
pub open spec fn path3(root: Seq<char>, module: Seq<char>, item: Seq<char>) -> Seq<Token> {
    colon2() + word(root) + colon2() + word(module) + colon2() + word(item)
}

/// The sequences one after the other, with a comma between neighbours.
pub open spec fn separated(items: Seq<Seq<Token>>) -> Seq<Token>
    decreases items.len(),
{
    if items.len() == 0 {
        nothing()
    } else if items.len() == 1 {
        items[0]
    } else {
        separated(items.drop_last()) + punct(',') + items.last()
    }
}

/// The characters that can stand as punctuation.
pub open spec fn is_punctuation(c: char) -> bool {
    "=<>!~+-*/%^&|@.,;:#$?'"@.contains(c)
}

/// Whether Unicode has `c` among those that can start an identifier.
pub uninterp spec fn xid_start(c: char) -> bool;

/// Whether Unicode has `c` among those that can stand inside an identifier.
pub uninterp spec fn xid_continue(c: char) -> bool;

pub open spec fn ident_start(c: char) -> bool {
    'a' <= c <= 'z' || 'A' <= c <= 'Z' || c == '_' || (c > '\x7f' && xid_start(c))
}

pub open spec fn ident_continue(c: char) -> bool {
    'a' <= c <= 'z' || 'A' <= c <= 'Z' || '0' <= c <= '9' || c == '_' || (c > '\x7f'
        && xid_continue(c))
}

/// Whether the text is an identifier that is not raw, keywords included.
pub open spec fn is_ident(text: Seq<char>) -> bool {
    &&& text.len() > 0
    &&& ident_start(text[0])
    &&& forall|i: int| 0 <= i < text.len() ==> ident_continue(#[trigger] text[i])
}

/// Whether the text is a plain identifier.
pub open spec fn is_fixed(text: Seq<char>) -> bool {
    is_ident(text) && is_plain(text)
}

/// `unicode_xid::UnicodeXID::is_xid_start`: the result depends on the character alone.
#[verifier::external_body]
fn is_xid_start(c: char) -> (b: bool)
    ensures
        b == xid_start(c),
{
    UnicodeXID::is_xid_start(c)
}

/// `unicode_xid::UnicodeXID::is_xid_continue`: the result depends on the character alone.
#[verifier::external_body]
fn is_xid_continue(c: char) -> (b: bool)
    ensures
        b == xid_continue(c),
{
    UnicodeXID::is_xid_continue(c)
}

/// `proc_macro2::TokenStream::new`: a stream with nothing in it.
#[verifier::external_body]
pub(crate) fn stream() -> (r: TokenStream)
    ensures
        contents(r) == nothing(),
{
    TokenStream::new()
}

/// `proc_macro2::TokenStream::is_empty`: whether the stream holds no token.
#[verifier::external_body]
pub(crate) fn is_empty(stream: &TokenStream) -> (r: bool)
    ensures
        r == (contents(*stream).len() == 0),
{
    stream.is_empty()
}

/// `proc_macro2::TokenStream::clone`: a stream with the same contents.
#[verifier::external_body]
pub(crate) fn copy(stream: &TokenStream) -> (r: TokenStream)
    ensures
        contents(r) == contents(*stream),
{
    stream.clone()
}

/// One token tree of a stream.  A group is held as the stream that is inside.
#[derive(Debug)]
pub enum Tree {
    Ident(String),
    Punct(char, bool),
    Literal(String),
    Group(Delimiter, TokenStream),
}

/// Whether this is the token tree.
pub open spec fn is_tree(tree: Tree, token: Token) -> bool {
    match tree {
        Tree::Ident(text) => token == Token::Ident(text@),
        Tree::Punct(c, glued) => token == Token::Punct(c, glued),
        Tree::Literal(text) => token == Token::Literal(text@),
        Tree::Group(delimiter, inner) => token == Token::Group(delimiter, contents(inner)),
    }
}

/// `proc_macro2::TokenStream::into_iter`: the token trees of a stream.
#[verifier::external_body]
pub(crate) fn trees(stream: &TokenStream) -> (r: Vec<Tree>)
    ensures
        r@.len() == contents(*stream).len(),
        forall|i: int|
            0 <= i < r@.len() ==> is_tree(#[trigger] r@[i], contents(*stream)[i]),
{
    let delimiter = |delimiter| match delimiter {
        proc_macro2::Delimiter::Parenthesis => Delimiter::Parenthesis,
        proc_macro2::Delimiter::Brace => Delimiter::Brace,
        proc_macro2::Delimiter::Bracket => Delimiter::Bracket,
        proc_macro2::Delimiter::None => Delimiter::Invisible,
    };
    stream.clone().into_iter().map(|tree| match tree {
        proc_macro2::TokenTree::Ident(t) => Tree::Ident(t.to_string()),
        proc_macro2::TokenTree::Punct(t) =>
            Tree::Punct(t.as_char(), t.spacing() == proc_macro2::Spacing::Joint),
        proc_macro2::TokenTree::Literal(t) => Tree::Literal(t.to_string()),
        proc_macro2::TokenTree::Group(t) => Tree::Group(delimiter(t.delimiter()), t.stream()),
    }).collect()
}

/// `quote::ToTokens::to_tokens` of a token stream: adds all its tokens at the end of
/// another stream.
#[verifier::external_body]
pub(crate) fn put(out: &mut TokenStream, tokens: &TokenStream)
    ensures
        contents(*final(out)) == contents(*old(out)) + contents(*tokens),
{
    tokens.to_tokens(out)
}

/// `proc_macro2::Ident::new`, with the location of the first token of a stream where it
/// has one: a lone identifier.  `Ident::new` panics on what is not an identifier, and on a
/// raw identifier.  A compiler may bring the text into normal form C, which leaves plain
/// text as it is; which text an identifier gets that is not plain is left unsaid.
#[verifier::external_body]
fn make_word(text: &str, at: &TokenStream) -> (r: TokenStream)
    requires
        is_ident(text@),
    ensures
        contents(r).len() == 1 && contents(r)[0] is Ident,
        is_plain(text@) ==> contents(r) == word(text@),
{
    let first = at.clone().into_iter().next();
    let span = first.map_or_else(proc_macro2::Span::call_site, |tree| tree.span());
    proc_macro2::Ident::new(text, span).into_token_stream()
}

/// `proc_macro2::Punct::new` with `Spacing::Joint` or `Spacing::Alone`, added at the end
/// of a stream.
#[verifier::external_body]
fn put_char(out: &mut TokenStream, c: char, glued: bool)
    requires
        is_punctuation(c),
    ensures
        contents(*final(out)) == contents(*old(out)).push(Token::Punct(c, glued)),
{
    let spacing = match glued {
        true => proc_macro2::Spacing::Joint,
        false => proc_macro2::Spacing::Alone,
    };
    out.append(proc_macro2::Punct::new(c, spacing))
}

/// `proc_macro2::Group::new`, added at the end of a stream.
#[verifier::external_body]
fn put_group(out: &mut TokenStream, delimiter: Delimiter, inner: &TokenStream)
    ensures
        contents(*final(out)) == contents(*old(out)) + group(delimiter, contents(*inner)),
{
    let delimiter = match delimiter {
        Delimiter::Parenthesis => proc_macro2::Delimiter::Parenthesis,
        Delimiter::Brace => proc_macro2::Delimiter::Brace,
        Delimiter::Bracket => proc_macro2::Delimiter::Bracket,
        Delimiter::Invisible => proc_macro2::Delimiter::None,
    };
    out.append(proc_macro2::Group::new(delimiter, inner.clone()))
}

/// Makes a word, with the location of the first token of a stream where it has one.  There
/// is none where the word would be spelt otherwise.
pub(crate) fn try_word(text: &str, at: &TokenStream) -> (r: Option<TokenStream>)
    requires
        is_ident(text@),
    ensures
        r matches Some(made) ==> contents(made) == word(text@),
        is_plain(text@) ==> r is Some,
{
    let made = make_word(text, at);
    if is_word(&made, text) {
        Some(made)
    } else {
        None
    }
}

/// Adds a word.
pub(crate) fn put_word(out: &mut TokenStream, text: &str)
    requires
        is_fixed(text@),
    ensures
        contents(*final(out)) == contents(*old(out)) + word(text@),
{
    put(out, &make_word(text, &stream()))
}

/// Whether the text is an identifier that is not raw.  Characters count as parts of an
/// identifier that `unicode_xid` knows as such; a compiler may know newer ones.
pub fn check_ident(text: &str) -> (b: bool)
    ensures
        b == is_ident(text@),
{
    let n: usize = text.unicode_len();
    if n == 0 {
        return false;
    }
    let first = text.get_char(0);
    let ascii = ('a' <= first && first <= 'z') || ('A' <= first && first <= 'Z') || first == '_';
    if !ascii && !(first > '\x7f' && is_xid_start(first)) {
        return false;
    }
    let mut i: usize = 0;
    while i < n
        invariant
            i <= n == text@.len(),
            forall|j: int| 0 <= j < i ==> ident_continue(#[trigger] text@[j]),
        decreases n - i,
    {
        let c = text.get_char(i);
        let ascii = ('a' <= c && c <= 'z') || ('A' <= c && c <= 'Z') || ('0' <= c && c <= '9') || c
            == '_';
        if !ascii && !(c > '\x7f' && is_xid_continue(c)) {
            assert(!ident_continue(text@[i as int]));
            return false;
        }
        i += 1;
    }
    true
}

/// A stream that holds one word.
pub(crate) fn start_word(text: &str) -> (r: TokenStream)
    requires
        is_fixed(text@),
    ensures
        contents(r) == word(text@),
{
    make_word(text, &stream())
}

pub(crate) fn put_punct(out: &mut TokenStream, c: char)
    requires
        is_punctuation(c),
    ensures
        contents(*final(out)) == contents(*old(out)) + punct(c),
{
    put_char(out, c, false)
}

pub(crate) fn put_parens(out: &mut TokenStream, inner: &TokenStream)
    ensures
        contents(*final(out)) == contents(*old(out)) + parens(contents(*inner)),
{
    put_group(out, Delimiter::Parenthesis, inner)
}

pub(crate) fn put_braces(out: &mut TokenStream, inner: &TokenStream)
    ensures
        contents(*final(out)) == contents(*old(out)) + braces(contents(*inner)),
{
    put_group(out, Delimiter::Brace, inner)
}

pub(crate) fn put_brackets(out: &mut TokenStream, inner: &TokenStream)
    ensures
        contents(*final(out)) == contents(*old(out)) + brackets(contents(*inner)),
{
    put_group(out, Delimiter::Bracket, inner)
}

/// Adds `::`.
pub(crate) fn put_colon2(out: &mut TokenStream)
    ensures
        contents(*final(out)) == contents(*old(out)) + colon2(),
{
    proof {
        lemma_punctuation();
    }
    put_char(out, ':', true);
    put_char(out, ':', false);
    assert(contents(*out) =~= contents(*old(out)) + colon2());
}

/// Adds `->`.
pub(crate) fn put_arrow(out: &mut TokenStream)
    ensures
        contents(*final(out)) == contents(*old(out)) + arrow(),
{
    proof {
        lemma_punctuation();
    }
    put_char(out, '-', true);
    put_char(out, '>', false);
    assert(contents(*out) =~= contents(*old(out)) + arrow());
}

/// Adds the apostrophe that starts a lifetime.
pub(crate) fn put_apostrophe(out: &mut TokenStream)
    ensures
        contents(*final(out)) == contents(*old(out)) + joint('\''),
{
    proof {
        lemma_punctuation();
    }
    put_char(out, '\'', true)
}

/// Adds `::root::item`.
pub(crate) fn put_path2(out: &mut TokenStream, root: &str, item: &str)
    requires
        is_fixed(root@),
        is_fixed(item@),
    ensures
        contents(*final(out)) == contents(*old(out)) + path2(root@, item@),
{
    let mut path = stream();
    put_colon2(&mut path);
    assert(contents(path) =~= colon2());
    put_word(&mut path, root);
    put_colon2(&mut path);
    put_word(&mut path, item);
    put(out, &path);
}

/// Adds `::root::module::item`.
pub(crate) fn put_path3(out: &mut TokenStream, root: &str, module: &str, item: &str)
    requires
        is_fixed(root@),
        is_fixed(module@),
        is_fixed(item@),
    ensures
        contents(*final(out)) == contents(*old(out)) + path3(root@, module@, item@),
{
    let mut path = stream();
    put_colon2(&mut path);
    assert(contents(path) =~= colon2());
    put_word(&mut path, root);
    put_colon2(&mut path);
    put_word(&mut path, module);
    put_colon2(&mut path);
    put_word(&mut path, item);
    put(out, &path);
}

/// The text of a lone identifier; no text where the stream holds something else.
pub(crate) fn ident_string(stream: &TokenStream) -> (r: String)
    ensures
        r@ == text(contents(*stream)),
{
    let trees = trees(stream);
    if trees.len() == 1 {
        assert(is_tree(trees@[0], contents(*stream)[0]));
        if let Tree::Ident(text) = &trees[0] {
            return text.clone();
        }
    }
    let none = String::new();
    assert(none@ =~= Seq::empty());
    none
}

/// Whether the stream holds one identifier with the text and nothing else.
pub(crate) fn is_word(stream: &TokenStream, text: &str) -> (r: bool)
    ensures
        r == (contents(*stream) == word(text@)),
{
    let trees = trees(stream);
    if trees.len() != 1 {
        return false;
    }
    assert(is_tree(trees@[0], contents(*stream)[0]));
    assert(word(text@)[0] == Token::Ident(text@));
    match &trees[0] {
        Tree::Ident(found) => {
            assert(contents(*stream) =~= word(found@));
            assert(found@ != text@ ==> word(found@)[0] != word(text@)[0]);
            *found == String::from_str(text)
        },
        _ => false,
    }
}

/// The streams one after the other, with a comma between neighbours.
pub(crate) fn join(items: &Vec<TokenStream>) -> (r: TokenStream)
    ensures
        contents(r) == separated(all_contents(items@)),
{
    let ghost all = all_contents(items@);
    let mut out = stream();
    let mut i: usize = 0;
    while i < items.len()
        invariant
            i <= items.len(),
            all == all_contents(items@),
            contents(out) == separated(all.take(i as int)),
        decreases items.len() - i,
    {
        let ghost before = contents(out);
        proof {
            lemma_punctuation();
            assert(all.take(i + 1).drop_last() =~= all.take(i as int));
        }
        if i > 0 {
            put_punct(&mut out, ',');
        }
        put(&mut out, &items[i]);
        assert(i == 0 ==> contents(out) =~= all[0]);
        i += 1;
    }
    assert(all.take(i as int) =~= all);
    out
}

/// The punctuation that generated code uses.
pub(crate) proof fn lemma_punctuation()
    ensures
        is_punctuation('='),
        is_punctuation('<'),
        is_punctuation('>'),
        is_punctuation('!'),
        is_punctuation('-'),
        is_punctuation('&'),
        is_punctuation('@'),
        is_punctuation('.'),
        is_punctuation(','),
        is_punctuation(';'),
        is_punctuation(':'),
        is_punctuation('#'),
        is_punctuation('\''),
{
    reveal_strlit("=<>!~+-*/%^&|@.,;:#$?'");
    let all = "=<>!~+-*/%^&|@.,;:#$?'"@;
    assert(all[0] == '=' && all[1] == '<' && all[2] == '>' && all[3] == '!');
    assert(all[6] == '-' && all[11] == '&' && all[13] == '@' && all[14] == '.');
    assert(all[15] == ',' && all[16] == ';' && all[17] == ':' && all[18] == '#');
    assert(all[21] == '\'');
}

} // verus!
