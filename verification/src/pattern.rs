//! `LIKE` and `SIMILAR TO` patterns as regular expressions.
use vstd::prelude::*;
use crate::text::{chars_of, push_text};

verus! {

/// The characters that mean something in a regular expression.
pub open spec fn is_meta(c: char) -> bool {
    c == '\\' || c == '.' || c == '+' || c == '*' || c == '?' || c == '(' || c == ')' || c == '|'
        || c == '[' || c == ']' || c == '{' || c == '}' || c == '^' || c == '$' || c == '#' || c
        == '&' || c == '-' || c == '~'
}

/// A character as a regular expression that matches just it.
pub open spec fn escaped(c: char) -> Seq<char> {
    if is_meta(c) {
        seq!['\\', c]
    } else {
        seq![c]
    }
}

/// `regex::escape` on a single character: a backslash before a character that
/// means something in a regular expression.
#[verifier::external_body]
fn regex_escape(c: char) -> (r: String)
    ensures
        r@ == escaped(c),
{
    regex::escape(&c.to_string())
}

/// Whether `text` has a match of the regular expression `source`; `None` when
/// `source` is not a regular expression.
pub uninterp spec fn regex_match(source: Seq<char>, text: Seq<char>) -> Option<bool>;

/// `regex::Regex::new`, then `Regex::is_match` on the text: the outcome
/// depends on the two texts alone.
#[verifier::external_body]
pub(crate) fn regex_is_match(source: &str, text: &str) -> (r: Option<bool>)
    ensures
        r == regex_match(source@, text@),
{
    regex::Regex::new(source).ok().map(|re| re.is_match(text))
}

/// The regular expression for the `LIKE` pattern `p`, between its anchors.
pub open spec fn like_body(p: Seq<char>, escape: Option<char>) -> Option<Seq<char>>
    decreases p.len(),
{
    if p.len() == 0 {
        Some(Seq::empty())
    } else if escape == Some(p[0]) {
        if p.len() < 2 {
            None
        } else {
            match like_body(p.skip(2), escape) {
                Some(rest) => Some(escaped(p[1]) + rest),
                None => None,
            }
        }
    } else {
        let piece = if p[0] == '%' {
            ".*"@
        } else if p[0] == '_' {
            "."@
        } else {
            escaped(p[0])
        };
        match like_body(p.skip(1), escape) {
            Some(rest) => Some(piece + rest),
            None => None,
        }
    }
}

/// The anchored regular expression for the `LIKE` pattern `p`.
pub open spec fn like_regex(p: Seq<char>, escape: Option<char>) -> Option<Seq<char>> {
    match like_body(p, escape) {
        Some(body) => Some("(?s)^"@ + body + "$"@),
        None => None,
    }
}

/// Translates a LIKE pattern into an anchored regex: `%` is any run, `_` one
/// character, and the escape character makes the next character literal. A
/// trailing escape character is invalid, as in PostgreSQL.
pub fn like_to_regex(pattern: &str, escape: Option<char>) -> (r: Option<String>)
    ensures
        crate::text::opt_text(r) == like_regex(pattern@, escape),
{
    let chars = chars_of(pattern);
    let n: usize = chars.len();
    let mut body = String::new();
    let mut i: usize = 0;
    let ghost p = pattern@;
    assert(p.skip(0) =~= p);
    assert(match like_body(p, escape) {
        Some(rest) => body@ + rest =~= rest,
        None => true,
    });
    while i < n
        invariant
            i <= n,
            n == chars@.len(),
            chars@ == p,
            p == pattern@,
            like_body(p, escape) == (match like_body(p.skip(i as int), escape) {
                Some(rest) => Some(body@ + rest),
                None => None,
            }),
        decreases n - i,
    {
        let ghost before = body@;
        let ghost at = p.skip(i as int);
        let c: char = chars[i];
        assert(at[0] == c);
        let escapes: bool = match escape {
            Some(e) => e == c,
            None => false,
        };
        if escapes {
            if n - i < 2 {
                return None;
            }
            assert(at[1] == p[i + 1]);
            assert(at.skip(2) =~= p.skip(i + 2));
            let piece = regex_escape(chars[i + 1]);
            push_text(&mut body, piece.as_str());
            i = i + 2;
            proof {
                match like_body(p.skip(i as int), escape) {
                    Some(rest) => assert(body@ + rest =~= before + (piece@ + rest)),
                    None => {},
                }
            }
        } else {
            assert(at.skip(1) =~= p.skip(i + 1));
            if c == '%' {
                push_text(&mut body, ".*");
            } else if c == '_' {
                push_text(&mut body, ".");
            } else {
                let piece = regex_escape(c);
                push_text(&mut body, piece.as_str());
            }
            i = i + 1;
            proof {
                let piece = if c == '%' {
                    ".*"@
                } else if c == '_' {
                    "."@
                } else {
                    escaped(c)
                };
                match like_body(p.skip(i as int), escape) {
                    Some(rest) => assert(body@ + rest =~= before + (piece + rest)),
                    None => {},
                }
            }
        }
    }
    proof {
        assert(p.skip(n as int).len() == 0);
        assert(body@ + Seq::<char>::empty() =~= body@);
    }
    let mut out = "(?s)^".to_owned();
    push_text(&mut out, body.as_str());
    push_text(&mut out, "$");
    Some(out)
}

/// The characters that mean in `SIMILAR TO` what they mean in a regular
/// expression.
pub open spec fn similar_operator(c: char) -> bool {
    c == '|' || c == '*' || c == '+' || c == '?' || c == '{' || c == '}' || c == '(' || c == ')'
}

/// The regular expression for the `SIMILAR TO` pattern `p`, between its
/// anchors; `in_class` tells whether `p` continues a bracket expression.
pub open spec fn similar_body(p: Seq<char>, escape: Option<char>, in_class: bool) -> Option<
    Seq<char>,
>
    decreases p.len(),
{
    if p.len() == 0 {
        Some(Seq::empty())
    } else if escape == Some(p[0]) {
        if p.len() < 2 {
            None
        } else {
            match similar_body(p.skip(2), escape, in_class) {
                Some(rest) => Some(escaped(p[1]) + rest),
                None => None,
            }
        }
    } else {
        let piece = if in_class || p[0] == '[' || similar_operator(p[0]) {
            seq![p[0]]
        } else if p[0] == '%' {
            ".*"@
        } else if p[0] == '_' {
            "."@
        } else {
            escaped(p[0])
        };
        let next = if in_class {
            p[0] != ']'
        } else {
            p[0] == '['
        };
        match similar_body(p.skip(1), escape, next) {
            Some(rest) => Some(piece + rest),
            None => None,
        }
    }
}

/// The anchored regular expression for the `SIMILAR TO` pattern `p`.
pub open spec fn similar_regex(p: Seq<char>, escape: Option<char>) -> Option<Seq<char>> {
    match similar_body(p, escape, false) {
        Some(body) => Some("(?s)^(?:"@ + body + ")$"@),
        None => None,
    }
}

/// Translates a SQL `SIMILAR TO` pattern into an anchored regex: LIKE's `%` and
/// `_`, plus the SQL regex operators `| * + ? {m,n} ( ) [...]`; any other
/// character (including `.`) is literal.
pub fn similar_to_regex(pattern: &str, escape: Option<char>) -> (r: Option<String>)
    ensures
        crate::text::opt_text(r) == similar_regex(pattern@, escape),
{
    let chars = chars_of(pattern);
    let n: usize = chars.len();
    let mut body = String::new();
    let mut in_class: bool = false;
    let mut i: usize = 0;
    let ghost p = pattern@;
    assert(p.skip(0) =~= p);
    assert(match similar_body(p, escape, false) {
        Some(rest) => body@ + rest =~= rest,
        None => true,
    });
    while i < n
        invariant
            i <= n,
            n == chars@.len(),
            chars@ == p,
            p == pattern@,
            similar_body(p, escape, false) == (match similar_body(
                p.skip(i as int),
                escape,
                in_class,
            ) {
                Some(rest) => Some(body@ + rest),
                None => None,
            }),
        decreases n - i,
    {
        let ghost before = body@;
        let ghost at = p.skip(i as int);
        let c: char = chars[i];
        assert(at[0] == c);
        let escapes: bool = match escape {
            Some(e) => e == c,
            None => false,
        };
        if escapes {
            if n - i < 2 {
                return None;
            }
            assert(at[1] == p[i + 1]);
            assert(at.skip(2) =~= p.skip(i + 2));
            let piece = regex_escape(chars[i + 1]);
            push_text(&mut body, piece.as_str());
            i = i + 2;
            proof {
                match similar_body(p.skip(i as int), escape, in_class) {
                    Some(rest) => assert(body@ + rest =~= before + (piece@ + rest)),
                    None => {},
                }
            }
        } else {
            assert(at.skip(1) =~= p.skip(i + 1));
            if in_class {
                in_class = c != ']';
                body.push(c);
            } else if c == '%' {
                push_text(&mut body, ".*");
            } else if c == '_' {
                push_text(&mut body, ".");
            } else if c == '[' {
                in_class = true;
                body.push(c);
            } else if c == '|' || c == '*' || c == '+' || c == '?' || c == '{' || c == '}' || c
                == '(' || c == ')' {
                body.push(c);
            } else {
                let piece = regex_escape(c);
                push_text(&mut body, piece.as_str());
            }
            i = i + 1;
            proof {
                let piece = body@.skip(before.len() as int);
                assert(body@ =~= before + piece);
                match similar_body(p.skip(i as int), escape, in_class) {
                    Some(rest) => assert(body@ + rest =~= before + (piece + rest)),
                    None => {},
                }
                assert(piece =~= seq![c] || piece =~= ".*"@ || piece =~= "."@ || piece =~= escaped(
                    c,
                ));
            }
        }
    }
    proof {
        assert(p.skip(n as int).len() == 0);
        assert(body@ + Seq::<char>::empty() =~= body@);
    }
    let mut out = "(?s)^(?:".to_owned();
    push_text(&mut out, body.as_str());
    push_text(&mut out, ")$");
    Some(out)
}

/// The regular expression that matches just the text `p`.
pub open spec fn literal(p: Seq<char>) -> Seq<char>
    decreases p.len(),
{
    if p.len() == 0 {
        Seq::empty()
    } else {
        escaped(p[0]) + literal(p.skip(1))
    }
}

/// A `LIKE` pattern without `%`, `_`, and escape characters is the regular
/// expression that matches just that text.
pub proof fn law_plain_like_is_literal(p: Seq<char>, escape: Option<char>)
    requires
        forall|i: int| 0 <= i < p.len() ==> p[i] != '%' && p[i] != '_' && escape != Some(p[i]),
    ensures
        like_regex(p, escape) == Some("(?s)^"@ + literal(p) + "$"@),
{
    lemma_like_body_plain(p, escape);
}

proof fn lemma_like_body_plain(p: Seq<char>, escape: Option<char>)
    requires
        forall|i: int| 0 <= i < p.len() ==> p[i] != '%' && p[i] != '_' && escape != Some(p[i]),
    ensures
        like_body(p, escape) == Some(literal(p)),
    decreases p.len(),
{
    if p.len() > 0 {
        lemma_like_body_plain(p.skip(1), escape);
    }
}

} // verus!
