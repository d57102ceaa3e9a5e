//! What holds of every successful scan.
use crate::lexis::{
    byte_offset, closing, scan_at, utf8_width, coordinate_at, digits_len, left, lexed_at, line_at, quote_distance, scan,
    scan_from, skip_trivia, skip_trivia_bounds, token_at, word_len, Lexed,
};
use crate::token::{TokenType, TokenView};
use vstd::prelude::*;

verus! {

/// `tokens` are what stands in `s` from `p` on: each token's lexeme is the
/// slice of the source at the token's index, its coordinate is the place of
/// that index, only white space and comments separate it from the token
/// before it (or from `p`), and only they follow the last one.
pub open spec fn covers(s: Seq<char>, p: int, tokens: Seq<TokenView>) -> bool
    decreases tokens.len(),
{
    let q = skip_trivia(s, p);
    if tokens.len() == 0 {
        q >= s.len()
    } else {
        let t = tokens[0];
        &&& q < s.len()
        &&& t.token_type != TokenType::Eof
        &&& t.coordinate == coordinate_at(s, q)
        &&& t.lexeme is Some
        &&& t.lexeme->0.len() >= 1
        &&& q + t.lexeme->0.len() <= s.len()
        &&& t.lexeme->0 == s.subrange(q, q + t.lexeme->0.len())
        &&& covers(s, q + t.lexeme->0.len(), tokens.drop_first())
    }
}

proof fn digits_len_bounds(s: Seq<char>, p: int)
    requires
        0 <= p <= s.len(),
    ensures
        p + digits_len(s, p) <= s.len(),
    decreases s.len() - p,
{
    if p < s.len() && crate::lexis::is_digit(s[p]) {
        digits_len_bounds(s, p + 1);
    }
}

proof fn word_len_bounds(s: Seq<char>, p: int)
    requires
        0 <= p <= s.len(),
    ensures
        p + word_len(s, p) <= s.len(),
    decreases s.len() - p,
{
    if p < s.len() && crate::lexis::is_alphanumeric(s[p]) {
        word_len_bounds(s, p + 1);
    }
}

proof fn quote_distance_bounds(s: Seq<char>, p: int)
    requires
        0 <= p <= s.len(),
    ensures
        quote_distance(s, p) is Some ==> p + quote_distance(s, p)->0 < s.len(),
    decreases s.len() - p,
{
    if p < s.len() && s[p] != '"' {
        quote_distance_bounds(s, p + 1);
    }
}

/// A token that the scanner reads lies inside the source and is never `Eof`.
pub proof fn lexed_token_bounds(s: Seq<char>, q: int)
    requires
        0 <= q < s.len(),
    ensures
        lexed_at(s, q) matches Lexed::Token { token_type, literal, tail } ==> q + 1 + tail
            <= s.len() && token_type != TokenType::Eof,
{
    digits_len_bounds(s, q + 1);
    word_len_bounds(s, q + 1);
    quote_distance_bounds(s, q + 1);
    let dot = q + 1 + digits_len(s, q + 1);
    if dot < s.len() {
        digits_len_bounds(s, dot + 1);
    }
}

/// The scanner's tokens cover the source: put back between the white space
/// and the comments that were skipped, the lexemes are the source text.
pub proof fn scan_from_covers(s: Seq<char>, p: int)
    requires
        0 <= p <= s.len(),
    ensures
        scan_from(s, p) matches Ok(tokens) ==> covers(s, p, tokens),
    decreases left(s, p),
{
    skip_trivia_bounds(s, p);
    let q = skip_trivia(s, p);
    if q < s.len() {
        lexed_token_bounds(s, q);
        if let Lexed::Token { token_type, literal, tail } = lexed_at(s, q) {
            scan_from_covers(s, q + 1 + tail);
            if let Ok(rest) = scan_from(s, q + 1 + tail) {
                let t = token_at(s, q, token_type, literal, tail);
                let tokens = seq![t] + rest;
                assert(tokens[0] == t);
                assert(tokens.drop_first() =~= rest);
            }
        }
    }
}

/// A successful scan ends in `Eof`, and in one only. The `Eof` stands at
/// the coordinate of the token before it, or at the start of the source
/// where it is the only token, which happens where the source holds only
/// white space and comments; and the tokens before the `Eof` cover the
/// source.
pub proof fn scan_ends_in_eof(s: Seq<char>)
    ensures
        scan(s) matches Ok(tokens) ==> {
            &&& tokens.len() >= 1
            &&& tokens.last().token_type == TokenType::Eof
            &&& tokens.last() == closing(tokens.drop_last())
            &&& covers(s, 0, tokens.drop_last())
            &&& forall|i: int|
                0 <= i < tokens.len() - 1 ==> (#[trigger] tokens[i]).token_type
                    != TokenType::Eof
        },
{
    scan_from_covers(s, 0);
    if let Ok(found) = scan_from(s, 0) {
        let tokens = found.push(closing(found));
        assert(tokens.drop_last() =~= found);
        assert forall|i: int| 0 <= i < found.len() implies (#[trigger] found[i]).token_type
            != TokenType::Eof by {
            covered_token_type(s, 0, found, i);
        }
    }
}

/// None of the tokens that cover a source is `Eof`.
pub proof fn covered_token_type(s: Seq<char>, p: int, tokens: Seq<TokenView>, i: int)
    requires
        covers(s, p, tokens),
        0 <= i < tokens.len(),
    ensures
        tokens[i].token_type != TokenType::Eof,
    decreases i,
{
    if i > 0 {
        let q = skip_trivia(s, p);
        covered_token_type(s, q + tokens[0].lexeme->0.len(), tokens.drop_first(), i - 1);
    }
}

/// The line of a position never decreases along the source.
pub proof fn line_at_ascends(s: Seq<char>, p: int, q: int)
    requires
        0 <= p <= q,
    ensures
        line_at(s, p) <= line_at(s, q),
    decreases q - p,
{
    if p < q {
        line_at_ascends(s, p, q - 1);
    }
}

/// Where the `i`-th token of a cover starts.
pub open spec fn start_of(s: Seq<char>, p: int, tokens: Seq<TokenView>, i: int) -> int
    decreases i,
{
    if i <= 0 {
        skip_trivia(s, p)
    } else {
        start_of(s, skip_trivia(s, p) + tokens[0].lexeme->0.len(), tokens.drop_first(), i - 1)
    }
}

/// Each of the tokens that cover a source starts at or after the position
/// that the cover starts from, lies inside the source, and is not `Eof`; its
/// lexeme is the slice of the source that starts where the token starts,
/// and its coordinate is that of the place where it starts.
pub proof fn covered_token(s: Seq<char>, p: int, tokens: Seq<TokenView>, i: int)
    requires
        0 <= p <= s.len(),
        covers(s, p, tokens),
        0 <= i < tokens.len(),
    ensures
        tokens[i].token_type != TokenType::Eof,
        tokens[i].lexeme is Some,
        tokens[i].lexeme->0.len() >= 1,
        p <= start_of(s, p, tokens, i),
        start_of(s, p, tokens, i) + tokens[i].lexeme->0.len() <= s.len(),
        tokens[i].lexeme->0 == s.subrange(
            start_of(s, p, tokens, i),
            start_of(s, p, tokens, i) + tokens[i].lexeme->0.len(),
        ),
        tokens[i].coordinate == coordinate_at(s, start_of(s, p, tokens, i)),
        !tokens[i].coordinate.is_synthetic,
        i + 1 < tokens.len() ==> start_of(s, p, tokens, i + 1) == skip_trivia(
            s,
            start_of(s, p, tokens, i) + tokens[i].lexeme->0.len(),
        ),
    decreases i,
{
    skip_trivia_bounds(s, p);
    if i > 0 {
        let q = skip_trivia(s, p);
        covered_token(s, q + tokens[0].lexeme->0.len(), tokens.drop_first(), i - 1);
    } else if tokens.len() > 1 {
        let q = skip_trivia(s, p);
        assert(start_of(s, p, tokens, 1) == start_of(
            s,
            q + tokens[0].lexeme->0.len(),
            tokens.drop_first(),
            0,
        ));
    }
}

/// The index of a position never decreases along the source.
pub proof fn byte_offset_ascends(s: Seq<char>, p: int, q: int)
    requires
        0 <= p <= q,
    ensures
        byte_offset(s, p) + (q - p) <= byte_offset(s, q),
    decreases q - p,
{
    if p < q {
        byte_offset_ascends(s, p, q - 1);
    }
}

/// Coordinates are monotonic and lie within the input: of two tokens of a
/// cover, the later one starts after the end of the earlier one, at a
/// greater index and not on an earlier line, and every index is less than
/// the number of bytes of the source.
pub proof fn covered_tokens_ascend(s: Seq<char>, p: int, tokens: Seq<TokenView>, i: int, j: int)
    requires
        0 <= p <= s.len(),
        byte_offset(s, s.len() as int) <= usize::MAX,
        covers(s, p, tokens),
        0 <= i < j < tokens.len(),
    ensures
        start_of(s, p, tokens, i) + tokens[i].lexeme->0.len() <= start_of(s, p, tokens, j),
        tokens[i].coordinate.index < tokens[j].coordinate.index,
        tokens[j].coordinate.index < byte_offset(s, s.len() as int),
        tokens[i].coordinate.line <= tokens[j].coordinate.line,
    decreases j - i,
{
    covered_token(s, p, tokens, i);
    covered_token(s, p, tokens, j);
    let a = start_of(s, p, tokens, i);
    let b = start_of(s, p, tokens, j);
    if j == i + 1 {
        skip_trivia_bounds(s, a + tokens[i].lexeme->0.len());
    } else {
        covered_tokens_ascend(s, p, tokens, i, j - 1);
        covered_token(s, p, tokens, j - 1);
        let c = start_of(s, p, tokens, j - 1);
        skip_trivia_bounds(s, c + tokens[j - 1].lexeme->0.len());
    }
    line_at_ascends(s, a, b);
    byte_offset_ascends(s, a, b);
    byte_offset_ascends(s, b, s.len() as int);
    crate::scanner::place_bounds(s, a);
    crate::scanner::place_bounds(s, b);
}

/// The index of a position, counted from the second character on.
proof fn byte_offset_front(s: Seq<char>, n: int)
    requires
        1 <= n <= s.len(),
    ensures
        byte_offset(s, n) == utf8_width(s[0]) + byte_offset(s.drop_first(), n - 1),
    decreases n,
{
    reveal_with_fuel(byte_offset, 2);
    if n > 1 {
        byte_offset_front(s, n - 1);
        assert(s.drop_first()[n - 2] == s[n - 1]);
    }
}

/// The index of the end of a text is the number of bytes of its UTF-8
/// encoding.
pub proof fn encoded_length(s: Seq<char>)
    ensures
        vstd::utf8::encode_utf8(s).len() == byte_offset(s, s.len() as int),
    decreases s.len(),
{
    if s.len() > 0 {
        encoded_length(s.drop_first());
        byte_offset_front(s, s.len() as int);
        vstd::utf8::char_is_scalar(s[0]);
    }
}

proof fn byte_offset_prefix(s: Seq<char>, k: int, p: int)
    requires
        0 <= p <= k <= s.len(),
    ensures
        byte_offset(s.take(k), p) == byte_offset(s, p),
    decreases p,
{
    if p > 0 {
        byte_offset_prefix(s, k, p - 1);
    }
}

/// The encoding of two texts, one after the other, is the encoding of the
/// one followed by the encoding of the other.
pub proof fn encode_concat(a: Seq<char>, b: Seq<char>)
    ensures
        vstd::utf8::encode_utf8(a + b) == vstd::utf8::encode_utf8(a) + vstd::utf8::encode_utf8(b),
    decreases a.len(),
{
    if a.len() == 0 {
        assert(a + b =~= b);
        assert(vstd::utf8::encode_utf8(a) + vstd::utf8::encode_utf8(b) =~= vstd::utf8::encode_utf8(
            b,
        ));
    } else {
        encode_concat(a.drop_first(), b);
        assert((a + b).drop_first() =~= a.drop_first() + b);
        assert((a + b)[0] == a[0]);
        assert(vstd::utf8::encode_utf8(a + b) =~= vstd::utf8::encode_utf8(a)
            + vstd::utf8::encode_utf8(b));
    }
}

/// The bytes of a slice of a text stand in the encoded text at the index
/// of the place where the slice starts.
pub proof fn slice_bytes(s: Seq<char>, q: int, n: int)
    requires
        0 <= q,
        0 <= n,
        q + n <= s.len(),
    ensures
        byte_offset(s, q) + vstd::utf8::encode_utf8(s.subrange(q, q + n)).len()
            <= vstd::utf8::encode_utf8(s).len(),
        vstd::utf8::encode_utf8(s).subrange(
            byte_offset(s, q) as int,
            (byte_offset(s, q) + vstd::utf8::encode_utf8(s.subrange(q, q + n)).len()) as int,
        ) == vstd::utf8::encode_utf8(s.subrange(q, q + n)),
{
    let before = s.take(q);
    let slice = s.subrange(q, q + n);
    let behind = s.subrange(q + n, s.len() as int);
    assert(s =~= before + slice + behind);
    encode_concat(before + slice, behind);
    encode_concat(before, slice);
    encoded_length(before);
    byte_offset_prefix(s, q, q);
    let bytes = vstd::utf8::encode_utf8(s);
    assert(bytes.subrange(
        byte_offset(s, q) as int,
        (byte_offset(s, q) + vstd::utf8::encode_utf8(slice).len()) as int,
    ) =~= vstd::utf8::encode_utf8(slice));
}

/// The lexeme of a token of a cover, in bytes: it is the slice of the
/// encoded source that starts at the token's index.
pub proof fn covered_token_bytes(s: Seq<char>, p: int, tokens: Seq<TokenView>, i: int)
    requires
        0 <= p <= s.len(),
        byte_offset(s, s.len() as int) <= usize::MAX,
        covers(s, p, tokens),
        0 <= i < tokens.len(),
    ensures
        tokens[i].coordinate.index + vstd::utf8::encode_utf8(tokens[i].lexeme->0).len()
            <= vstd::utf8::encode_utf8(s).len(),
        vstd::utf8::encode_utf8(s).subrange(
            tokens[i].coordinate.index as int,
            tokens[i].coordinate.index + vstd::utf8::encode_utf8(tokens[i].lexeme->0).len(),
        ) == vstd::utf8::encode_utf8(tokens[i].lexeme->0),
{
    covered_token(s, p, tokens, i);
    covered_token_placed(s, p, tokens, i);
    slice_bytes(s, start_of(s, p, tokens, i), tokens[i].lexeme->0.len() as int);
}

/// The tokens are in place in the source `s`: every coordinate is one of
/// the source, with its index inside the encoded text (or 0 where the
/// text is empty) and its line and column counted from 1, and along the
/// tokens neither the index nor the line ever decreases.
pub open spec fn in_place(s: Seq<char>, tokens: Seq<TokenView>) -> bool {
    &&& forall|i: int|
        0 <= i < tokens.len() ==> {
            &&& !(#[trigger] tokens[i]).coordinate.is_synthetic
            &&& tokens[i].coordinate.line >= 1
            &&& tokens[i].coordinate.column >= 1
            &&& tokens[i].coordinate.index < byte_offset(s, s.len() as int)
                || tokens[i].coordinate.index == 0
        }
    &&& forall|i: int, j: int|
        0 <= i < j < tokens.len() ==> {
            &&& (#[trigger] tokens[i]).coordinate.index <= (#[trigger] tokens[j]).coordinate.index
            &&& tokens[i].coordinate.line <= tokens[j].coordinate.line
        }
}

/// Where a token of a cover stands: its index is the number of bytes
/// before it, which is less than the number of bytes of the source.
pub proof fn covered_token_placed(s: Seq<char>, p: int, tokens: Seq<TokenView>, i: int)
    requires
        0 <= p <= s.len(),
        byte_offset(s, s.len() as int) <= usize::MAX,
        covers(s, p, tokens),
        0 <= i < tokens.len(),
    ensures
        !tokens[i].coordinate.is_synthetic,
        tokens[i].coordinate.index == byte_offset(s, start_of(s, p, tokens, i)),
        tokens[i].coordinate.index < byte_offset(s, s.len() as int),
        tokens[i].coordinate.line == line_at(s, start_of(s, p, tokens, i)) >= 1,
        tokens[i].coordinate.column >= 1,
{
    covered_token(s, p, tokens, i);
    let a = start_of(s, p, tokens, i);
    byte_offset_ascends(s, a, s.len() as int);
    crate::scanner::place_bounds(s, a);
    crate::scanner::place_bounds(s, s.len() as int);
}

/// Every successful scan puts its tokens in place: the coordinates lie
/// within the input and are monotonic, the closing `Eof` included.
pub proof fn scan_in_place(s: Seq<char>, p: int)
    requires
        0 <= p <= s.len(),
        byte_offset(s, s.len() as int) <= usize::MAX,
    ensures
        scan_at(s, p) matches Ok(tokens) ==> in_place(s, tokens),
{
    scan_from_covers(s, p);
    if let Ok(found) = scan_from(s, p) {
        let tokens = found.push(closing(found));
        assert forall|i: int| 0 <= i < tokens.len() implies {
            &&& !(#[trigger] tokens[i]).coordinate.is_synthetic
            &&& tokens[i].coordinate.line >= 1
            &&& tokens[i].coordinate.column >= 1
            &&& tokens[i].coordinate.index < byte_offset(s, s.len() as int)
                || tokens[i].coordinate.index == 0
        } by {
            if i < found.len() {
                covered_token_placed(s, p, found, i);
            } else if found.len() > 0 {
                covered_token_placed(s, p, found, found.len() - 1);
            }
        }
        assert forall|i: int, j: int| 0 <= i < j < tokens.len() implies {
            &&& (#[trigger] tokens[i]).coordinate.index <= (#[trigger] tokens[j]).coordinate.index
            &&& tokens[i].coordinate.line <= tokens[j].coordinate.line
        } by {
            if j < found.len() {
                covered_tokens_ascend(s, p, found, i, j);
            } else if i < found.len() - 1 {
                covered_tokens_ascend(s, p, found, i, found.len() - 1);
            }
        }
    }
}

} // verus!
