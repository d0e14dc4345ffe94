//! A tokenizer for ssh_config text: comments, line endings, whitespace, and
//! each field cut into its key, separator and value.
use crate::chars::{
    chars_of, decimal, is_whitespace, push_char, push_decimal, quote_count, spec_is_whitespace,
    string_of,
};
use vstd::prelude::*;

verus! {

/// The longest text, in characters, that [`tokenize_str`] reads: its
/// positions are counted in a 32-bit signed integer.
pub const MAX_CHARS: usize = 2147483645;

/// What a token holds.
#[derive(Debug, PartialEq, Eq, Clone, Copy, Structural)]
pub enum TokenKind {
    WhiteSpace,
    LineEnding,
    Comment,
    Key,
    Separator,
    Value,
}

/// A piece of text and what it holds.
pub struct Token {
    pub kind: TokenKind,
    pub data: String,
}

impl View for Token {
    type V = (TokenKind, Seq<char>);

    open spec fn view(&self) -> (TokenKind, Seq<char>) {
        (self.kind, self.data@)
    }
}

/// The views of a sequence of tokens.
pub open spec fn token_views(v: Seq<Token>) -> Seq<(TokenKind, Seq<char>)> {
    v.map_values(|t: Token| t@)
}

/// The first position, from `i` on, of a line break, or the end.
pub open spec fn break_from(d: Seq<char>, i: int) -> int
    decreases d.len() - i,
{
    if i < 0 || i >= d.len() || d[i] == '\n' || d[i] == '\r' {
        i
    } else {
        break_from(d, i + 1)
    }
}

/// The first position, from `i` on, of a character that is not whitespace,
/// or the end.
pub open spec fn ws_from(d: Seq<char>, i: int) -> int
    decreases d.len() - i,
{
    if i < 0 || i >= d.len() || !spec_is_whitespace(d[i]) {
        i
    } else {
        ws_from(d, i + 1)
    }
}

/// The first position, from `i` on, of whitespace or `'='`, or the end.
pub open spec fn key_from(d: Seq<char>, i: int) -> int
    decreases d.len() - i,
{
    if i < 0 || i >= d.len() || spec_is_whitespace(d[i]) || d[i] == '=' {
        i
    } else {
        key_from(d, i + 1)
    }
}

/// The end of a separator read from `j` on, `seen` telling whether it has
/// held a `'='`; or the position where reading it failed, with `false` for a
/// missing boundary and `true` for a second `'='`.
pub open spec fn sep_from(d: Seq<char>, j: int, seen: bool) -> Result<int, (int, bool)>
    decreases d.len() - j,
{
    if j < 0 || j >= d.len() || d[j] == '\n' || d[j] == '\r' {
        Err((j, false))
    } else if d[j] == '=' {
        if seen {
            Err((j, true))
        } else {
            sep_from(d, j + 1, true)
        }
    } else if !spec_is_whitespace(d[j]) {
        Ok(j)
    } else {
        sep_from(d, j + 1, seen)
    }
}

/// How many bytes UTF-8 takes for `c`.
pub open spec fn utf8_len(c: char) -> nat {
    if (c as int) < 0x80 {
        1
    } else if (c as int) < 0x800 {
        2
    } else if (c as int) < 0x10000 {
        3
    } else {
        4
    }
}

/// How many bytes UTF-8 takes for the first `i` characters of `d`.
pub open spec fn byte_offset(d: Seq<char>, i: int) -> nat
    decreases i,
{
    if i <= 0 || i > d.len() {
        0
    } else {
        byte_offset(d, i - 1) + utf8_len(d[i - 1])
    }
}

/// An error message: where it happened, then what.
pub open spec fn message(line: nat, pos: nat, what: Seq<char>) -> Seq<char> {
    "at ln:"@ + decimal(line) + " pos:"@ + decimal(pos) + what
}

/// The tokens `p`, then those of `r`; or the error of `r`.
pub open spec fn joined(
    p: Seq<(TokenKind, Seq<char>)>,
    r: Result<Seq<(TokenKind, Seq<char>)>, Seq<char>>,
) -> Result<Seq<(TokenKind, Seq<char>)>, Seq<char>> {
    match r {
        Ok(ts) => Ok(p + ts),
        Err(e) => Err(e),
    }
}

/// What [`break_from`] finds.
pub proof fn lemma_break_from(d: Seq<char>, i: int)
    requires
        0 <= i <= d.len(),
    ensures
        i <= break_from(d, i) <= d.len(),
        forall|j: int| i <= j < break_from(d, i) ==> #[trigger] d[j] != '\n' && d[j] != '\r',
        break_from(d, i) < d.len() ==> d[break_from(d, i)] == '\n' || d[break_from(d, i)] == '\r',
    decreases d.len() - i,
{
    if i < d.len() && d[i] != '\n' && d[i] != '\r' {
        lemma_break_from(d, i + 1);
    }
}

/// What [`ws_from`] finds.
pub proof fn lemma_ws_from(d: Seq<char>, i: int)
    requires
        0 <= i <= d.len(),
    ensures
        i <= ws_from(d, i) <= d.len(),
        forall|j: int| i <= j < ws_from(d, i) ==> spec_is_whitespace(#[trigger] d[j]),
        ws_from(d, i) < d.len() ==> !spec_is_whitespace(d[ws_from(d, i)]),
    decreases d.len() - i,
{
    if i < d.len() && spec_is_whitespace(d[i]) {
        lemma_ws_from(d, i + 1);
    }
}

/// What [`key_from`] finds.
proof fn lemma_key_from(d: Seq<char>, i: int)
    requires
        0 <= i <= d.len(),
    ensures
        i <= key_from(d, i) <= d.len(),
        forall|j: int| i <= j < key_from(d, i) ==> !spec_is_whitespace(#[trigger] d[j]) && d[j] != '=',
        key_from(d, i) < d.len() ==> spec_is_whitespace(d[key_from(d, i)]) || d[key_from(d, i)] == '=',
    decreases d.len() - i,
{
    if i < d.len() && !spec_is_whitespace(d[i]) && d[i] != '=' {
        lemma_key_from(d, i + 1);
    }
}

/// What [`sep_from`] finds.
proof fn lemma_sep_from(d: Seq<char>, j: int, seen: bool)
    requires
        0 <= j <= d.len(),
    ensures
        sep_from(d, j, seen) matches Ok(e) ==> j <= e < d.len(),
        sep_from(d, j, seen) matches Err((p, _)) ==> j <= p <= d.len(),
    decreases d.len() - j,
{
    if j < d.len() && d[j] != '\n' && d[j] != '\r' {
        if d[j] == '=' {
            if !seen {
                lemma_sep_from(d, j + 1, true);
            }
        } else if spec_is_whitespace(d[j]) {
            lemma_sep_from(d, j + 1, seen);
        }
    }
}

/// The tokens of the field that starts at `i`, a character that opens no
/// comment, line ending or whitespace, and the position after it; or the
/// error message.
pub open spec fn field_at(d: Seq<char>, i: int, line: nat) -> Result<
    (Seq<(TokenKind, Seq<char>)>, int),
    Seq<char>,
> {
    let k = key_from(d, i + 1);
    if k >= d.len() || d[k] == '\n' || d[k] == '\r' {
        Err(message(line, (k + 2) as nat, ", key boundary not found"@))
    } else {
        match sep_from(d, k, false) {
            Err((p, two)) => Err(
                message(
                    line,
                    (p + 2) as nat,
                    if two {
                        ", separator contain two '='"@
                    } else {
                        ", separator boundary not found"@
                    },
                ),
            ),
            Ok(se) => {
                let ve = break_from(d, se);
                if ve == se {
                    Err(message(line, (se + 2) as nat, ", value not provided"@))
                } else if quote_count(d.subrange(se, ve)) % 2 != 0 {
                    Err(message(line, byte_offset(d, se), ", unclosed double quote"@))
                } else {
                    Ok(
                        (
                            seq![
                                (TokenKind::Key, d.subrange(i, k)),
                                (TokenKind::Separator, d.subrange(k, se)),
                                (TokenKind::Value, d.subrange(se, ve)),
                            ],
                            ve,
                        ),
                    )
                }
            },
        }
    }
}

/// A field read from `i` ends past `i`.
pub proof fn lemma_field_at(d: Seq<char>, i: int, line: nat)
    requires
        0 <= i < d.len(),
    ensures
        field_at(d, i, line) matches Ok((_, e)) ==> i < e <= d.len(),
{
    lemma_key_from(d, i + 1);
    let k = key_from(d, i + 1);
    if k < d.len() {
        lemma_sep_from(d, k, false);
        if let Ok(se) = sep_from(d, k, false) {
            lemma_break_from(d, se);
        }
    }
}

/// The tokens of `d` from position `i` on, `line` being the line reached;
/// or the error message.
///
/// A `'#'` starts a comment up to the next line break; `"\n"` and `"\r\n"`
/// are line endings, a lone `'\r'` is an error; whitespace forms one token,
/// line breaks after its first character included; anything else starts a
/// field, cut into key, separator and value.
pub open spec fn scan_from(d: Seq<char>, i: int, line: nat) -> Result<Seq<(TokenKind, Seq<char>)>, Seq<char>>
    decreases d.len() - i,
{
    if i < 0 || i >= d.len() {
        Ok(Seq::empty())
    } else if d[i] == '#' {
        proof {
            lemma_break_from(d, i + 1);
        }
        let e = break_from(d, i + 1);
        joined(seq![(TokenKind::Comment, d.subrange(i, e))], scan_from(d, e, line))
    } else if d[i] == '\n' {
        joined(seq![(TokenKind::LineEnding, d.subrange(i, i + 1))], scan_from(d, i + 1, line + 1))
    } else if d[i] == '\r' {
        if i + 1 < d.len() && d[i + 1] == '\n' {
            joined(seq![(TokenKind::LineEnding, d.subrange(i, i + 2))], scan_from(d, i + 2, line + 1))
        } else if i + 1 < d.len() {
            Err(message(line, (i + 3) as nat, ", expected '\n' found '"@ + seq![d[i + 1]] + "'"@))
        } else {
            Err(message(line, (i + 3) as nat, ", file ended too soon"@))
        }
    } else if spec_is_whitespace(d[i]) {
        proof {
            lemma_ws_from(d, i + 1);
        }
        let e = ws_from(d, i + 1);
        joined(seq![(TokenKind::WhiteSpace, d.subrange(i, e))], scan_from(d, e, line))
    } else {
        proof {
            lemma_field_at(d, i, line);
        }
        match field_at(d, i, line) {
            Err(m) => Err(m),
            Ok((ts, e)) => joined(ts, scan_from(d, e, line)),
        }
    }
}

/// The error message `at ln:{line} pos:{pos}` followed by `what`.
fn message_text(line: usize, pos: u64, what: &str) -> (s: String)
    ensures
        s@ == message(line as nat, pos as nat, what@),
{
    let mut s = String::new();
    s.append("at ln:");
    push_decimal(&mut s, line as u64);
    s.append(" pos:");
    push_decimal(&mut s, pos);
    s.append(what);
    assert(s@ =~= message(line as nat, pos as nat, what@));
    s
}

/// How many bytes UTF-8 takes for `c`.
fn utf8_len_of(c: char) -> (n: u64)
    ensures
        n == utf8_len(c),
{
    let u = c as u32;
    if u < 0x80 {
        1
    } else if u < 0x800 {
        2
    } else if u < 0x10000 {
        3
    } else {
        4
    }
}

/// How many bytes UTF-8 takes for the first `i` characters of `v`.
fn byte_offset_of(v: &Vec<char>, i: usize) -> (n: u64)
    requires
        i <= v.len() <= MAX_CHARS,
    ensures
        n == byte_offset(v@, i as int),
{
    let mut n: u64 = 0;
    let mut t: usize = 0;
    while t < i
        invariant
            t <= i <= v.len() <= MAX_CHARS,
            n == byte_offset(v@, t as int),
            n <= 4 * t,
        decreases i - t,
    {
        n = n + utf8_len_of(v[t]);
        t = t + 1;
    }
    n
}

/// Whether `v[a..b]` holds an odd number of `'"'`.
fn odd_quotes(v: &Vec<char>, a: usize, b: usize) -> (r: bool)
    requires
        a <= b <= v.len(),
    ensures
        r == (quote_count(v@.subrange(a as int, b as int)) % 2 != 0),
{
    let mut odd = false;
    let mut t: usize = a;
    while t < b
        invariant
            a <= t <= b <= v.len(),
            odd == (quote_count(v@.subrange(a as int, t as int)) % 2 != 0),
        decreases b - t,
    {
        assert(v@.subrange(a as int, t + 1).drop_last() =~= v@.subrange(a as int, t as int));
        if v[t] == '"' {
            odd = !odd;
        }
        t = t + 1;
    }
    odd
}

/// The first position, from `i` on, of a line break, or the end.
fn find_break(v: &Vec<char>, i: usize) -> (e: usize)
    requires
        i <= v.len(),
    ensures
        e == break_from(v@, i as int),
{
    let mut e = i;
    while e < v.len() && v[e] != '\n' && v[e] != '\r'
        invariant
            i <= e <= v.len(),
            break_from(v@, i as int) == break_from(v@, e as int),
        decreases v.len() - e,
    {
        e = e + 1;
    }
    e
}

/// The first position, from `i` on, of a character that is not whitespace,
/// or the end.
fn find_non_ws(v: &Vec<char>, i: usize) -> (e: usize)
    requires
        i <= v.len(),
    ensures
        e == ws_from(v@, i as int),
{
    let mut e = i;
    while e < v.len() && is_whitespace(v[e])
        invariant
            i <= e <= v.len(),
            ws_from(v@, i as int) == ws_from(v@, e as int),
        decreases v.len() - e,
    {
        e = e + 1;
    }
    e
}

/// The first position, from `i` on, of whitespace or `'='`, or the end.
fn find_key_end(v: &Vec<char>, i: usize) -> (e: usize)
    requires
        i <= v.len(),
    ensures
        e == key_from(v@, i as int),
{
    let mut e = i;
    while e < v.len() && !is_whitespace(v[e]) && v[e] != '='
        invariant
            i <= e <= v.len(),
            key_from(v@, i as int) == key_from(v@, e as int),
        decreases v.len() - e,
    {
        e = e + 1;
    }
    e
}

/// The end of the separator from `j` on, or where reading it failed.
fn find_sep_end(v: &Vec<char>, j: usize) -> (r: Result<usize, (usize, bool)>)
    requires
        j <= v.len(),
    ensures
        match sep_from(v@, j as int, false) {
            Ok(e) => r == Ok::<usize, (usize, bool)>(e as usize),
            Err((p, two)) => r == Err::<usize, (usize, bool)>((p as usize, two)),
        },
{
    let mut e = j;
    let mut seen = false;
    proof {
        lemma_sep_from(v@, j as int, false);
    }
    loop
        invariant
            j <= e <= v.len(),
            sep_from(v@, j as int, false) == sep_from(v@, e as int, seen),
        decreases v.len() - e,
    {
        proof {
            lemma_sep_from(v@, e as int, seen);
        }
        if e >= v.len() || v[e] == '\n' || v[e] == '\r' {
            return Err((e, false));
        }
        if v[e] == '=' {
            if seen {
                return Err((e, true));
            }
            seen = true;
        } else if !is_whitespace(v[e]) {
            return Ok(e);
        }
        e = e + 1;
    }
}

/// The key, separator and value of the field that starts at `i`, and the
/// position after it; or the error message.
fn scan_field(v: &Vec<char>, i: usize, line: usize) -> (r: Result<(Vec<Token>, usize), String>)
    requires
        i < v.len() <= MAX_CHARS,
    ensures
        match field_at(v@, i as int, line as nat) {
            Ok((ts, e)) => r matches Ok((x, y)) && token_views(x@) == ts && y == e,
            Err(m) => r matches Err(x) && x@ == m,
        },
{
    proof {
        lemma_key_from(v@, i + 1);
    }
    let k = find_key_end(v, i + 1);
    if k >= v.len() || v[k] == '\n' || v[k] == '\r' {
        return Err(message_text(line, (k + 2) as u64, ", key boundary not found"));
    }
    proof {
        lemma_sep_from(v@, k as int, false);
    }
    let se = match find_sep_end(v, k) {
        Ok(se) => se,
        Err((p, two)) => {
            if two {
                return Err(message_text(line, (p + 2) as u64, ", separator contain two '='"));
            } else {
                return Err(message_text(line, (p + 2) as u64, ", separator boundary not found"));
            }
        },
    };
    proof {
        lemma_break_from(v@, se as int);
    }
    let ve = find_break(v, se);
    if ve == se {
        return Err(message_text(line, (se + 2) as u64, ", value not provided"));
    }
    if odd_quotes(v, se, ve) {
        let b = byte_offset_of(v, se);
        return Err(message_text(line, b, ", unclosed double quote"));
    }
    let mut ts: Vec<Token> = Vec::new();
    ts.push(Token { kind: TokenKind::Key, data: string_of(v, i, k) });
    ts.push(Token { kind: TokenKind::Separator, data: string_of(v, k, se) });
    ts.push(Token { kind: TokenKind::Value, data: string_of(v, se, ve) });
    assert(token_views(ts@) =~= seq![
        (TokenKind::Key, v@.subrange(i as int, k as int)),
        (TokenKind::Separator, v@.subrange(k as int, se as int)),
        (TokenKind::Value, v@.subrange(se as int, ve as int)),
    ]);
    Ok((ts, ve))
}

/// `joined` is associative.
proof fn lemma_joined_assoc(
    p: Seq<(TokenKind, Seq<char>)>,
    q: Seq<(TokenKind, Seq<char>)>,
    r: Result<Seq<(TokenKind, Seq<char>)>, Seq<char>>,
)
    ensures
        joined(p, joined(q, r)) == joined(p + q, r),
{
    if let Ok(ts) = r {
        assert(p + (q + ts) =~= (p + q) + ts);
    }
}

/// Cuts `data` into tokens: see [`scan_from`].
///
/// # Errors
/// Returns a message giving the line and position when a `'\r'` is not
/// followed by `'\n'`, or when a field lacks its key boundary, its
/// separator boundary or its value, has two `'='` in its separator, or
/// leaves a double quote unclosed.
pub fn tokenize_str(data: &str) -> (r: Result<Vec<Token>, String>)
    requires
        data@.len() <= MAX_CHARS,
    ensures
        match scan_from(data@, 0, 1) {
            Ok(ts) => r matches Ok(v) && token_views(v@) == ts,
            Err(m) => r matches Err(x) && x@ == m,
        },
        r matches Ok(v) ==> texts(token_views(v@)) == data@ && tokens_shaped(token_views(v@)),
{
    proof {
        lemma_scan_text(data@, 0, 1);
        lemma_scan_shape(data@, 0, 1);
        assert(data@.subrange(0, data@.len() as int) =~= data@);
    }
    let v = chars_of(data);
    let ghost d = v@;
    let ghost goal = scan_from(d, 0, 1);
    let n = v.len();
    let mut i: usize = 0;
    let mut line: usize = 1;
    let mut toks: Vec<Token> = Vec::new();
    assert(token_views(toks@) =~= Seq::<(TokenKind, Seq<char>)>::empty());
    assert(joined(Seq::empty(), goal) == goal) by {
        if let Ok(ts) = goal {
            assert(Seq::<(TokenKind, Seq<char>)>::empty() + ts =~= ts);
        }
    }
    while i < n
        invariant
            n == v.len() == d.len() <= MAX_CHARS,
            d == v@,
            d == data@,
            goal == scan_from(d, 0, 1),
            i <= n,
            1 <= line <= i + 1,
            goal == joined(token_views(toks@), scan_from(d, i as int, line as nat)),
        decreases n - i,
    {
        let ghost before = token_views(toks@);
        let c = v[i];
        if c == '#' {
            proof {
                lemma_break_from(d, i + 1);
            }
            let e = find_break(&v, i + 1);
            let t = Token { kind: TokenKind::Comment, data: string_of(&v, i, e) };
            proof {
                lemma_joined_assoc(before, seq![t@], scan_from(d, e as int, line as nat));
            }
            toks.push(t);
            assert(token_views(toks@) =~= before + seq![t@]);
            i = e;
        } else if c == '\n' {
            let t = Token { kind: TokenKind::LineEnding, data: string_of(&v, i, i + 1) };
            proof {
                lemma_joined_assoc(before, seq![t@], scan_from(d, i + 1, (line + 1) as nat));
            }
            toks.push(t);
            assert(token_views(toks@) =~= before + seq![t@]);
            i = i + 1;
            line = line + 1;
        } else if c == '\r' {
            if i + 1 < n && v[i + 1] == '\n' {
                let t = Token { kind: TokenKind::LineEnding, data: string_of(&v, i, i + 2) };
                proof {
                    lemma_joined_assoc(before, seq![t@], scan_from(d, i + 2, (line + 1) as nat));
                }
                toks.push(t);
                assert(token_views(toks@) =~= before + seq![t@]);
                i = i + 2;
                line = line + 1;
            } else if i + 1 < n {
                let mut m = message_text(line, (i + 3) as u64, ", expected '\n' found '");
                push_char(&mut m, v[i + 1]);
                m.append("'");
                assert(m@ =~= message(
                    line as nat,
                    (i + 3) as nat,
                    ", expected '\n' found '"@ + seq![d[i + 1]] + "'"@,
                ));
                return Err(m);
            } else {
                return Err(message_text(line, (i + 3) as u64, ", file ended too soon"));
            }
        } else if is_whitespace(c) {
            proof {
                lemma_ws_from(d, i + 1);
            }
            let e = find_non_ws(&v, i + 1);
            let t = Token { kind: TokenKind::WhiteSpace, data: string_of(&v, i, e) };
            proof {
                lemma_joined_assoc(before, seq![t@], scan_from(d, e as int, line as nat));
            }
            toks.push(t);
            assert(token_views(toks@) =~= before + seq![t@]);
            i = e;
        } else {
            proof {
                lemma_field_at(d, i as int, line as nat);
            }
            match scan_field(&v, i, line) {
                Ok((ts, e)) => {
                    proof {
                        lemma_joined_assoc(before, token_views(ts@), scan_from(d, e as int, line as nat));
                    }
                    let ghost tv = token_views(ts@);
                    let mut ts = ts;
                    toks.append(&mut ts);
                    assert(token_views(toks@) =~= before + tv);
                    i = e;
                },
                Err(m) => {
                    return Err(m);
                },
            }
        }
    }
    assert(token_views(toks@) + Seq::<(TokenKind, Seq<char>)>::empty() =~= token_views(toks@));
    Ok(toks)
}

/// The texts of tokens, one after the other.
pub open spec fn texts(ts: Seq<(TokenKind, Seq<char>)>) -> Seq<char>
    decreases ts.len(),
{
    if ts.len() == 0 {
        Seq::empty()
    } else {
        texts(ts.drop_last()) + ts.last().1
    }
}

/// The texts of two runs of tokens, one after the other.
proof fn lemma_texts_append(p: Seq<(TokenKind, Seq<char>)>, q: Seq<(TokenKind, Seq<char>)>)
    ensures
        texts(p + q) == texts(p) + texts(q),
    decreases q.len(),
{
    if q.len() == 0 {
        assert(p + q =~= p);
        assert(texts(p) + texts(q) =~= texts(p));
    } else {
        lemma_texts_append(p, q.drop_last());
        assert((p + q).drop_last() =~= p + q.drop_last());
        assert(texts(p) + (texts(q.drop_last()) + q.last().1) =~= (texts(p) + texts(q.drop_last()))
            + q.last().1);
    }
}

/// A token's text, alone.
proof fn lemma_texts_one(t: (TokenKind, Seq<char>))
    ensures
        texts(seq![t]) == t.1,
{
    assert(seq![t].drop_last() =~= Seq::<(TokenKind, Seq<char>)>::empty());
    assert(texts(Seq::<(TokenKind, Seq<char>)>::empty()) == Seq::<char>::empty());
    assert(Seq::<char>::empty() + t.1 =~= t.1);
}

/// Tokenizing loses no character: on success, the tokens' texts, one after
/// the other, are the text read.
pub proof fn lemma_scan_text(d: Seq<char>, i: int, line: nat)
    requires
        0 <= i <= d.len(),
    ensures
        scan_from(d, i, line) matches Ok(ts) ==> texts(ts) == d.subrange(i, d.len() as int),
    decreases d.len() - i,
{
    if i < d.len() {
        let c = d[i];
        let (e, l2): (int, nat) = if c == '#' {
            lemma_break_from(d, i + 1);
            (break_from(d, i + 1), line)
        } else if c == '\n' {
            (i + 1, line + 1)
        } else if c == '\r' {
            (i + 2, line + 1)
        } else if spec_is_whitespace(c) {
            lemma_ws_from(d, i + 1);
            (ws_from(d, i + 1), line)
        } else {
            lemma_field_at(d, i, line);
            match field_at(d, i, line) {
                Ok((_, e)) => (e, line),
                Err(_) => (i, line),
            }
        };
        if let Ok(ts) = scan_from(d, i, line) {
            let rest = scan_from(d, e, l2);
            lemma_scan_text(d, e, l2);
            let rs = rest->Ok_0;
            if c == '#' || c == '\n' || c == '\r' || spec_is_whitespace(c) {
                let t = ts[0];
                assert(ts == seq![t] + rs);
                lemma_texts_append(seq![t], rs);
                lemma_texts_one(t);
                assert(t.1 =~= d.subrange(i, e));
            } else {
                let (fts, fe) = field_at(d, i, line)->Ok_0;
                assert(ts == fts + rs);
                lemma_texts_append(fts, rs);
                lemma_key_from(d, i + 1);
                let k = key_from(d, i + 1);
                lemma_sep_from(d, k, false);
                let se = sep_from(d, k, false)->Ok_0;
                lemma_break_from(d, se);
                assert(fts =~= seq![fts[0]] + seq![fts[1]] + seq![fts[2]]);
                lemma_texts_append(seq![fts[0]] + seq![fts[1]], seq![fts[2]]);
                lemma_texts_append(seq![fts[0]], seq![fts[1]]);
                lemma_texts_one(fts[0]);
                lemma_texts_one(fts[1]);
                lemma_texts_one(fts[2]);
                assert(texts(fts) =~= d.subrange(i, k) + d.subrange(k, se) + d.subrange(se, fe));
                assert(texts(fts) =~= d.subrange(i, fe));
            }
            assert(d.subrange(i, e) + d.subrange(e, d.len() as int) =~= d.subrange(i, d.len() as int));
        }
    } else {
        assert(d.subrange(i, d.len() as int) =~= Seq::<char>::empty());
    }
}


/// What a token of each kind looks like: never empty; whitespace alone;
/// `"\n"` or `"\r\n"`; a comment from `'#'` to before the line break; a key
/// without whitespace, with no `'='` past its first character; a separator
/// of whitespace on its line and at most one `'='`; a value on its line,
/// starting with no whitespace, with its double quotes paired.
#[verifier::opaque]
pub open spec fn token_shaped(t: (TokenKind, Seq<char>)) -> bool {
    let s = t.1;
    &&& s.len() > 0
    &&& match t.0 {
        TokenKind::WhiteSpace => forall|x: int| 0 <= x < s.len() ==> spec_is_whitespace(#[trigger] s[x]),
        TokenKind::LineEnding => s == seq!['\n'] || s == seq!['\r', '\n'],
        TokenKind::Comment => s[0] == '#' && forall|x: int|
            0 <= x < s.len() ==> #[trigger] s[x] != '\n' && s[x] != '\r',
        TokenKind::Key => forall|x: int|
            0 <= x < s.len() ==> !spec_is_whitespace(#[trigger] s[x]) && (x > 0 ==> s[x] != '='),
        TokenKind::Separator => (forall|x: int|
            0 <= x < s.len() ==> (spec_is_whitespace(#[trigger] s[x]) || s[x] == '=') && s[x] != '\n'
                && s[x] != '\r') && (forall|a: int, b: int|
            0 <= a < b < s.len() ==> !(#[trigger] s[a] == '=' && #[trigger] s[b] == '=')),
        TokenKind::Value => !spec_is_whitespace(s[0]) && (forall|x: int|
            0 <= x < s.len() ==> #[trigger] s[x] != '\n' && s[x] != '\r') && quote_count(s) % 2 == 0,
    }
}

/// Keys, separators and values come as triples: each key followed by a
/// separator then a value, no separator or value elsewhere.
pub open spec fn in_triples(ts: Seq<(TokenKind, Seq<char>)>) -> bool
    decreases ts.len(),
{
    if ts.len() == 0 {
        true
    } else if ts[0].0 == TokenKind::Key {
        ts.len() >= 3 && ts[1].0 == TokenKind::Separator && ts[2].0 == TokenKind::Value && in_triples(
            ts.skip(3),
        )
    } else {
        ts[0].0 != TokenKind::Separator && ts[0].0 != TokenKind::Value && in_triples(ts.skip(1))
    }
}

/// Tokens each of its shape, with keys, separators and values in triples.
pub open spec fn tokens_shaped(ts: Seq<(TokenKind, Seq<char>)>) -> bool {
    &&& forall|j: int| 0 <= j < ts.len() ==> token_shaped(#[trigger] ts[j])
    &&& in_triples(ts)
}

/// Shaped tokens before shaped tokens, where the first run is one token
/// other than a key, separator or value, or a key, separator and value.
proof fn lemma_shaped_prepend(p: Seq<(TokenKind, Seq<char>)>, q: Seq<(TokenKind, Seq<char>)>)
    requires
        forall|j: int| 0 <= j < p.len() ==> token_shaped(#[trigger] p[j]),
        tokens_shaped(q),
        (p.len() == 1 && p[0].0 != TokenKind::Key && p[0].0 != TokenKind::Separator && p[0].0
            != TokenKind::Value) || (p.len() == 3 && p[0].0 == TokenKind::Key && p[1].0
            == TokenKind::Separator && p[2].0 == TokenKind::Value),
    ensures
        tokens_shaped(p + q),
{
    let r = p + q;
    assert forall|j: int| 0 <= j < r.len() implies token_shaped(#[trigger] r[j]) by {
        if j < p.len() {
            assert(r[j] == p[j]);
        } else {
            assert(r[j] == q[j - p.len()]);
        }
    }
    assert(r.skip(p.len() as int) =~= q);
    assert(r[0] == p[0]);
    if p.len() == 3 {
        assert(r[1] == p[1] && r[2] == p[2]);
    }
}

/// What a separator read by [`sep_from`] holds: whitespace on its line and
/// `'='`, at most one `'='` in all and none once one was `seen`; it stops
/// at a character that is neither.
proof fn lemma_sep_shape(d: Seq<char>, j: int, seen: bool)
    requires
        0 <= j <= d.len(),
    ensures
        sep_from(d, j, seen) matches Ok(e) ==> {
            &&& !spec_is_whitespace(d[e]) && d[e] != '='
            &&& forall|x: int|
                j <= x < e ==> (spec_is_whitespace(#[trigger] d[x]) || d[x] == '=') && d[x] != '\n'
                    && d[x] != '\r'
            &&& seen ==> forall|x: int| j <= x < e ==> #[trigger] d[x] != '='
            &&& forall|a: int, b: int| j <= a < b < e ==> !(#[trigger] d[a] == '=' && #[trigger] d[b] == '=')
        },
    decreases d.len() - j,
{
    if j < d.len() && d[j] != '\n' && d[j] != '\r' {
        if d[j] == '=' {
            if !seen {
                lemma_sep_shape(d, j + 1, true);
            }
        } else if spec_is_whitespace(d[j]) {
            lemma_sep_shape(d, j + 1, seen);
        }
    }
}

/// The tokens of a field are a shaped key, separator and value.
proof fn lemma_field_shape(d: Seq<char>, i: int, line: nat)
    requires
        0 <= i < d.len(),
        !spec_is_whitespace(d[i]),
    ensures
        field_at(d, i, line) matches Ok((ts, _)) ==> ts.len() == 3 && ts[0].0 == TokenKind::Key
            && ts[1].0 == TokenKind::Separator && ts[2].0 == TokenKind::Value && forall|j: int|
            0 <= j < ts.len() ==> token_shaped(#[trigger] ts[j]),
{
    lemma_key_from(d, i + 1);
    let k = key_from(d, i + 1);
    if let Ok((ts, ve)) = field_at(d, i, line) {
        lemma_sep_from(d, k, false);
        lemma_sep_shape(d, k, false);
        let se = sep_from(d, k, false)->Ok_0;
        lemma_break_from(d, se);
        let key = d.subrange(i, k);
        let sep = d.subrange(k, se);
        let val = d.subrange(se, ve);
        assert forall|x: int| 0 <= x < key.len() implies !spec_is_whitespace(#[trigger] key[x]) && (x
            > 0 ==> key[x] != '=') by {
            assert(key[x] == d[i + x]);
        }
        assert(k < se) by {
            if se == k {
                assert(spec_is_whitespace(d[k]) || d[k] == '=');
            }
        }
        assert forall|x: int| 0 <= x < sep.len() implies (spec_is_whitespace(#[trigger] sep[x])
            || sep[x] == '=') && sep[x] != '\n' && sep[x] != '\r' by {
            assert(sep[x] == d[k + x]);
        }
        assert forall|a: int, b: int| 0 <= a < b < sep.len() implies !(#[trigger] sep[a] == '='
            && #[trigger] sep[b] == '=') by {
            assert(sep[a] == d[k + a] && sep[b] == d[k + b]);
        }
        assert forall|x: int| 0 <= x < val.len() implies #[trigger] val[x] != '\n' && val[x] != '\r' by {
            assert(val[x] == d[se + x]);
        }
        assert(val[0] == d[se]);
        reveal(token_shaped);
        assert(token_shaped(ts[0]));
        assert(token_shaped(ts[1]));
        assert(token_shaped(ts[2]));
    }
}

/// A comment, line ending or run of whitespace read at `i` up to `e` is
/// of its shape.
proof fn lemma_single_shape(d: Seq<char>, i: int, e: int, t: (TokenKind, Seq<char>))
    requires
        0 <= i < e <= d.len(),
        t.1 == d.subrange(i, e),
        t.0 == TokenKind::Comment ==> d[i] == '#' && forall|x: int|
            i < x < e ==> #[trigger] d[x] != '\n' && d[x] != '\r',
        t.0 == TokenKind::LineEnding ==> (e == i + 1 && d[i] == '\n') || (e == i + 2 && d[i] == '\r'
            && d[i + 1] == '\n'),
        t.0 == TokenKind::WhiteSpace ==> forall|x: int| i <= x < e ==> spec_is_whitespace(#[trigger] d[x]),
        t.0 == TokenKind::Comment || t.0 == TokenKind::LineEnding || t.0 == TokenKind::WhiteSpace,
    ensures
        token_shaped(t),
{
    reveal(token_shaped);
    assert forall|x: int| 0 <= x < t.1.len() implies #[trigger] t.1[x] == d[i + x] by {}
    if t.0 == TokenKind::LineEnding {
        if e == i + 1 {
            assert(t.1 =~= seq!['\n']);
        } else {
            assert(t.1 =~= seq!['\r', '\n']);
        }
    }
    if t.0 == TokenKind::Comment {
        assert(t.1[0] == d[i]);
        assert forall|x: int| 0 <= x < t.1.len() implies #[trigger] t.1[x] != '\n' && t.1[x] != '\r' by {
            assert(t.1[x] == d[i + x]);
        }
    }
    if t.0 == TokenKind::WhiteSpace {
        assert forall|x: int| 0 <= x < t.1.len() implies spec_is_whitespace(#[trigger] t.1[x]) by {
            assert(t.1[x] == d[i + x]);
        }
    }
}

/// Tokenizing gives tokens of their shapes: on success, keys, separators
/// and values come as triples, and each token looks as its kind says (see
/// [`token_shaped`]).
pub proof fn lemma_scan_shape(d: Seq<char>, i: int, line: nat)
    requires
        0 <= i <= d.len(),
    ensures
        scan_from(d, i, line) matches Ok(ts) ==> tokens_shaped(ts),
    decreases d.len() - i,
{
    if i < d.len() {
        let c = d[i];
        let (e, l2): (int, nat) = if c == '#' {
            lemma_break_from(d, i + 1);
            (break_from(d, i + 1), line)
        } else if c == '\n' {
            (i + 1, line + 1)
        } else if c == '\r' {
            (i + 2, line + 1)
        } else if spec_is_whitespace(c) {
            lemma_ws_from(d, i + 1);
            (ws_from(d, i + 1), line)
        } else {
            lemma_field_at(d, i, line);
            match field_at(d, i, line) {
                Ok((_, e)) => (e, line),
                Err(_) => (i, line),
            }
        };
        if let Ok(ts) = scan_from(d, i, line) {
            let rest = scan_from(d, e, l2);
            lemma_scan_shape(d, e, l2);
            let rs = rest->Ok_0;
            if c == '#' || c == '\n' || c == '\r' || spec_is_whitespace(c) {
                let t = ts[0];
                assert(ts == seq![t] + rs);
                lemma_single_shape(d, i, e, t);
                lemma_shaped_prepend(seq![t], rs);
            } else {
                let (fts, fe) = field_at(d, i, line)->Ok_0;
                assert(ts == fts + rs);
                lemma_field_shape(d, i, line);
                lemma_shaped_prepend(fts, rs);
            }
        }
    }
}

} // verus!
