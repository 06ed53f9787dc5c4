//! Text pieces of the SVG storyboard that involve no coordinates: escaping of
//! text content and the document header.

use vstd::prelude::*;

use crate::color::{css_string, Color};
use crate::decimal::{decimal, push_decimal};
use crate::replace::{occurs_at, replace_all, replace_all_str, replace_without_match_is_identity};
use crate::strings::{owned, push_all};

verus! {

/// Text content escaped for an SVG `<text>` element: `&` first, then `<` and
/// `>`.
pub open spec fn svg_escaped(t: Seq<char>) -> Seq<char> {
    replace_all(replace_all(replace_all(t, "&"@, "&amp;"@), "<"@, "&lt;"@), ">"@, "&gt;"@)
}

/// Escapes `&`, `<` and `>` in text placed inside an SVG element.
pub fn escape_svg_text(text: &str) -> (out: String)
    ensures
        out@ == svg_escaped(text@),
{
    proof {
        reveal_strlit("&");
        reveal_strlit("<");
        reveal_strlit(">");
    }
    let a = replace_all_str(text, "&", "&amp;");
    let b = replace_all_str(a.as_str(), "<", "&lt;");
    replace_all_str(b.as_str(), ">", "&gt;")
}

/// The opening of the SVG document for a `width` × `height` storyboard.
pub open spec fn svg_header_of(width: u32, height: u32) -> Seq<char> {
    "<?xml version=\"1.0\" encoding=\"UTF-8\"?>\n<svg xmlns=\"http://www.w3.org/2000/svg\" width=\""@
        + decimal(width as nat) + "\" height=\""@ + decimal(height as nat) + "\" viewBox=\"0 0 "@
        + decimal(width as nat) + " "@ + decimal(height as nat) + "\">\n"@
}

/// The opening of the SVG document, written before the first frame.
pub fn svg_header(width: u32, height: u32) -> (s: String)
    ensures
        s@ == svg_header_of(width, height),
{
    let mut s = owned(
        "<?xml version=\"1.0\" encoding=\"UTF-8\"?>\n<svg xmlns=\"http://www.w3.org/2000/svg\" width=\"",
    );
    push_decimal(&mut s, width as u64);
    push_all(&mut s, "\" height=\"");
    push_decimal(&mut s, height as u64);
    push_all(&mut s, "\" viewBox=\"0 0 ");
    push_decimal(&mut s, width as u64);
    push_all(&mut s, " ");
    push_decimal(&mut s, height as u64);
    push_all(&mut s, "\">\n");
    s
}

/// What is written for the frame numbered `index` (from 0) whose elements
/// are `body`: the document header before the first frame only, then the
/// body.
pub open spec fn svg_frame_text_of(index: u32, width: u32, height: u32, body: Seq<char>) -> Seq<
    char,
> {
    if index == 0 {
        svg_header_of(width, height) + body
    } else {
        body
    }
}

/// The text written for frame `index` of a `width` × `height` storyboard:
/// the header goes before frame 0 only.
pub fn svg_frame_text(index: u32, width: u32, height: u32, body: &str) -> (s: String)
    ensures
        s@ == svg_frame_text_of(index, width, height, body@),
{
    if index == 0 {
        let mut s = svg_header(width, height);
        push_all(&mut s, body);
        s
    } else {
        owned(body)
    }
}

/// The full-frame background rectangle that opens each frame.
pub open spec fn svg_background_of(width: u32, height: u32, bg: Color) -> Seq<char> {
    "  <rect x=\"0\" y=\"0\" width=\""@ + decimal(width as nat) + "\" height=\""@ + decimal(
        height as nat,
    ) + "\" fill=\""@ + css_string(bg) + "\" fill-opacity=\"1.0\"/>\n"@
}

/// The background rectangle of a `width` × `height` frame filled with `bg`.
pub fn svg_background(width: u32, height: u32, bg: Color) -> (s: String)
    ensures
        s@ == svg_background_of(width, height, bg),
{
    let mut s = owned("  <rect x=\"0\" y=\"0\" width=\"");
    push_decimal(&mut s, width as u64);
    push_all(&mut s, "\" height=\"");
    push_decimal(&mut s, height as u64);
    push_all(&mut s, "\" fill=\"");
    let c = bg.to_css_string();
    push_all(&mut s, c.as_str());
    push_all(&mut s, "\" fill-opacity=\"1.0\"/>\n");
    s
}

// ---------------------------------------------------------------------------
// Laws
// ---------------------------------------------------------------------------

/// Replacing a one-character pattern by text without that character leaves
/// no occurrence of it; and a character absent from both the text and the
/// replacement stays absent.
proof fn lemma_replace_keeps_absent(s: Seq<char>, pat: Seq<char>, rep: Seq<char>, c: char)
    requires
        pat.len() == 1,
        !rep.contains(c),
        !s.contains(c) || pat[0] == c,
    ensures
        !replace_all(s, pat, rep).contains(c),
    decreases s.len(),
{
    if s.len() > 0 {
        let tail = s.skip(1);
        assert(!tail.contains(c) || pat[0] == c) by {
            if tail.contains(c) && pat[0] != c {
                let k = choose|k: int| 0 <= k < tail.len() && tail[k] == c;
                assert(s[k + 1] == c);
            }
        }
        lemma_replace_keeps_absent(tail, pat, rep, c);
        if occurs_at(s, pat, 0) {
            assert(s.skip(pat.len() as int) == tail);
            let r = rep + replace_all(tail, pat, rep);
            assert(!r.contains(c)) by {
                if r.contains(c) {
                    let k = choose|k: int| 0 <= k < r.len() && r[k] == c;
                    if k < rep.len() {
                        assert(rep[k] == c);
                    } else {
                        assert(replace_all(tail, pat, rep)[k - rep.len()] == c);
                    }
                }
            }
        } else {
            assert(s[0] != c) by {
                if s[0] == c {
                    if pat[0] == c {
                        assert(s.subrange(0, 1) =~= pat);
                    } else {
                        assert(s.contains(c));
                    }
                }
            }
            let r = seq![s[0]] + replace_all(tail, pat, rep);
            assert(!r.contains(c)) by {
                if r.contains(c) {
                    let k = choose|k: int| 0 <= k < r.len() && r[k] == c;
                    if k > 0 {
                        assert(replace_all(tail, pat, rep)[k - 1] == c);
                    }
                }
            }
        }
    }
}

/// Escaped text holds no `<` and no `>`, so it cannot open or close markup.
pub proof fn escaped_text_has_no_markup(t: Seq<char>)
    ensures
        !svg_escaped(t).contains('<'),
        !svg_escaped(t).contains('>'),
{
    reveal_strlit("&");
    reveal_strlit("<");
    reveal_strlit(">");
    reveal_strlit("&amp;");
    reveal_strlit("&lt;");
    reveal_strlit("&gt;");
    let a = replace_all(t, "&"@, "&amp;"@);
    let b = replace_all(a, "<"@, "&lt;"@);
    assert(!"&lt;"@.contains('<')) by {
        if "&lt;"@.contains('<') {
            let k = choose|k: int| 0 <= k < "&lt;"@.len() && "&lt;"@[k] == '<';
        }
    }
    assert(!"&gt;"@.contains('<')) by {
        if "&gt;"@.contains('<') {
            let k = choose|k: int| 0 <= k < "&gt;"@.len() && "&gt;"@[k] == '<';
        }
    }
    assert(!"&gt;"@.contains('>')) by {
        if "&gt;"@.contains('>') {
            let k = choose|k: int| 0 <= k < "&gt;"@.len() && "&gt;"@[k] == '>';
        }
    }
    lemma_replace_keeps_absent(a, "<"@, "&lt;"@, '<');
    lemma_replace_keeps_absent(b, ">"@, "&gt;"@, '<');
    lemma_replace_keeps_absent(b, ">"@, "&gt;"@, '>');
}

proof fn lemma_absent_char_does_not_occur(t: Seq<char>, pat: Seq<char>)
    requires
        pat.len() == 1,
        !t.contains(pat[0]),
    ensures
        forall|i: int| !occurs_at(t, pat, i),
{
    assert forall|i: int| !occurs_at(t, pat, i) by {
        if occurs_at(t, pat, i) {
            assert(t.subrange(i, i + 1)[0] == pat[0]);
            assert(t[i] == pat[0]);
        }
    }
}

/// Text without `&`, `<` and `>` is written as it is: escaping changes
/// nothing else.
pub proof fn plain_text_is_not_escaped(t: Seq<char>)
    requires
        !t.contains('&'),
        !t.contains('<'),
        !t.contains('>'),
    ensures
        svg_escaped(t) == t,
{
    reveal_strlit("&");
    reveal_strlit("<");
    reveal_strlit(">");
    lemma_absent_char_does_not_occur(t, "&"@);
    replace_without_match_is_identity(t, "&"@, "&amp;"@);
    lemma_absent_char_does_not_occur(t, "<"@);
    replace_without_match_is_identity(t, "<"@, "&lt;"@);
    lemma_absent_char_does_not_occur(t, ">"@);
    replace_without_match_is_identity(t, ">"@, "&gt;"@);
}

/// Reading escaped text back: `&amp;`, `&lt;` and `&gt;` become `&`, `<`
/// and `>`; every other character stands for itself.
pub open spec fn svg_unescaped(s: Seq<char>) -> Seq<char>
    decreases s.len(),
{
    if s.len() == 0 {
        s
    } else if s.len() >= 5 && s.take(5) == "&amp;"@ {
        seq!['&'] + svg_unescaped(s.skip(5))
    } else if s.len() >= 4 && s.take(4) == "&lt;"@ {
        seq!['<'] + svg_unescaped(s.skip(4))
    } else if s.len() >= 4 && s.take(4) == "&gt;"@ {
        seq!['>'] + svg_unescaped(s.skip(4))
    } else {
        seq![s[0]] + svg_unescaped(s.skip(1))
    }
}

/// `t` with every `c` replaced by `r`, character by character.
spec fn each_replaced(t: Seq<char>, c: char, r: Seq<char>) -> Seq<char>
    decreases t.len(),
{
    if t.len() == 0 {
        t
    } else {
        (if t[0] == c {
            r
        } else {
            seq![t[0]]
        }) + each_replaced(t.skip(1), c, r)
    }
}

/// The escape of one character.
spec fn escaped_char(c: char) -> Seq<char> {
    if c == '&' {
        "&amp;"@
    } else if c == '<' {
        "&lt;"@
    } else if c == '>' {
        "&gt;"@
    } else {
        seq![c]
    }
}

/// `t` with each character escaped.
spec fn each_escaped(t: Seq<char>) -> Seq<char>
    decreases t.len(),
{
    if t.len() == 0 {
        t
    } else {
        escaped_char(t[0]) + each_escaped(t.skip(1))
    }
}

proof fn lemma_replace_one_char(t: Seq<char>, c: char, r: Seq<char>)
    ensures
        replace_all(t, seq![c], r) == each_replaced(t, c, r),
    decreases t.len(),
{
    if t.len() > 0 {
        lemma_replace_one_char(t.skip(1), c, r);
        if t[0] == c {
            assert(t.subrange(0, 1) =~= seq![c]);
        } else {
            assert(t.subrange(0, 1)[0] != seq![c][0]);
        }
    }
}

proof fn lemma_each_replaced_concat(a: Seq<char>, b: Seq<char>, c: char, r: Seq<char>)
    ensures
        each_replaced(a + b, c, r) == each_replaced(a, c, r) + each_replaced(b, c, r),
    decreases a.len(),
{
    if a.len() == 0 {
        assert(a + b =~= b);
    } else {
        lemma_each_replaced_concat(a.skip(1), b, c, r);
        assert((a + b).skip(1) =~= a.skip(1) + b);
        assert((a + b)[0] == a[0]);
    }
}

proof fn lemma_each_replaced_absent(t: Seq<char>, c: char, r: Seq<char>)
    requires
        !t.contains(c),
    ensures
        each_replaced(t, c, r) == t,
    decreases t.len(),
{
    if t.len() > 0 {
        assert(!t.skip(1).contains(c)) by {
            if t.skip(1).contains(c) {
                let k = choose|k: int| 0 <= k < t.skip(1).len() && t.skip(1)[k] == c;
                assert(t[k + 1] == c);
            }
        }
        lemma_each_replaced_absent(t.skip(1), c, r);
        assert(t[0] != c);
        assert(seq![t[0]] + t.skip(1) =~= t);
    }
}

proof fn lemma_each_replaced_single(x: char, c: char, r: Seq<char>)
    ensures
        each_replaced(seq![x], c, r) == if x == c {
            r
        } else {
            seq![x]
        },
{
    let one = seq![x];
    assert(one.skip(1) =~= Seq::<char>::empty());
    assert(each_replaced(one.skip(1), c, r) == Seq::<char>::empty());
    assert(each_replaced(one, c, r) =~= if x == c {
        r
    } else {
        seq![x]
    });
}

proof fn lemma_escape_one(c: char)
    ensures
        each_replaced(
            each_replaced(each_replaced(seq![c], '&', "&amp;"@), '<', "&lt;"@),
            '>',
            "&gt;"@,
        ) == escaped_char(c),
{
    reveal_strlit("&amp;");
    reveal_strlit("&lt;");
    reveal_strlit("&gt;");
    lemma_each_replaced_single(c, '&', "&amp;"@);
    if c == '&' {
        lemma_each_replaced_absent("&amp;"@, '<', "&lt;"@);
        lemma_each_replaced_absent("&amp;"@, '>', "&gt;"@);
    } else {
        lemma_each_replaced_single(c, '<', "&lt;"@);
        if c == '<' {
            lemma_each_replaced_absent("&lt;"@, '>', "&gt;"@);
        } else {
            lemma_each_replaced_single(c, '>', "&gt;"@);
        }
    }
}

proof fn lemma_escaped_is_each_escaped(t: Seq<char>)
    ensures
        svg_escaped(t) == each_escaped(t),
    decreases t.len(),
{
    reveal_strlit("&");
    reveal_strlit("<");
    reveal_strlit(">");
    assert("&"@ =~= seq!['&']);
    assert("<"@ =~= seq!['<']);
    assert(">"@ =~= seq!['>']);
    lemma_replace_one_char(t, '&', "&amp;"@);
    let a = each_replaced(t, '&', "&amp;"@);
    lemma_replace_one_char(a, '<', "&lt;"@);
    let b = each_replaced(a, '<', "&lt;"@);
    lemma_replace_one_char(b, '>', "&gt;"@);
    if t.len() > 0 {
        let head = seq![t[0]];
        let rest = t.skip(1);
        assert(t =~= head + rest);
        lemma_each_replaced_concat(head, rest, '&', "&amp;"@);
        let ha = each_replaced(head, '&', "&amp;"@);
        let ra = each_replaced(rest, '&', "&amp;"@);
        lemma_each_replaced_concat(ha, ra, '<', "&lt;"@);
        let hb = each_replaced(ha, '<', "&lt;"@);
        let rb = each_replaced(ra, '<', "&lt;"@);
        lemma_each_replaced_concat(hb, rb, '>', "&gt;"@);
        lemma_escape_one(t[0]);
        lemma_escaped_is_each_escaped(rest);
        lemma_replace_one_char(rest, '&', "&amp;"@);
        lemma_replace_one_char(ra, '<', "&lt;"@);
        lemma_replace_one_char(rb, '>', "&gt;"@);
    }
}

proof fn lemma_unescape_each(t: Seq<char>)
    ensures
        svg_unescaped(each_escaped(t)) == t,
    decreases t.len(),
{
    reveal_strlit("&amp;");
    reveal_strlit("&lt;");
    reveal_strlit("&gt;");
    if t.len() > 0 {
        let c = t[0];
        let rest = each_escaped(t.skip(1));
        let s = escaped_char(c) + rest;
        lemma_unescape_each(t.skip(1));
        if c == '&' {
            assert(s.take(5) =~= "&amp;"@);
            assert(s.skip(5) =~= rest);
        } else if c == '<' {
            assert(s.take(4) =~= "&lt;"@);
            assert(s.skip(4) =~= rest);
            assert(s.take(5)[1] != "&amp;"@[1] || s.len() < 5);
        } else if c == '>' {
            assert(s.take(4) =~= "&gt;"@);
            assert(s.skip(4) =~= rest);
            assert(s.take(5)[1] != "&amp;"@[1] || s.len() < 5);
            assert(s.take(4)[1] != "&lt;"@[1]);
        } else {
            assert(s[0] == c);
            assert(s.len() < 5 || s.take(5)[0] != "&amp;"@[0]);
            assert(s.len() < 4 || s.take(4)[0] != "&lt;"@[0]);
            assert(s.len() < 4 || s.take(4)[0] != "&gt;"@[0]);
            assert(s.skip(1) =~= rest);
        }
        assert(seq![c] + t.skip(1) =~= t);
    }
}

/// Escaping loses nothing: reading the escaped text back gives the text, so
/// every character, `&`, `<` and `>` included, is shown as it was written.
pub proof fn escaping_is_undone_by_unescaping(t: Seq<char>)
    ensures
        svg_unescaped(svg_escaped(t)) == t,
{
    lemma_escaped_is_each_escaped(t);
    lemma_unescape_each(t);
}

} // verus!
