//! Which TrueType files the font manager loads, and in what order.
//!
//! The configured font files come first, in the order they are configured,
//! each once; then every other `.ttf` file of the font directory, sorted by
//! name.  A character is drawn with the first loaded font that has a glyph
//! for it.

use vstd::prelude::*;

use crate::strings::{chars_of, is_placeholder_font_name, starts_with, string_of};
use fontdue::Font;
use vstd::multiset::Multiset;
use vstd::seq_lib::{group_to_multiset_ensures, to_multiset_build, to_multiset_insert};

verus! {

/// `a` sorts no later than `b` when both are compared character by
/// character (by code point) from position `i` on; a proper prefix sorts
/// first.
pub open spec fn name_le_from(a: Seq<char>, b: Seq<char>, i: nat) -> bool
    decreases a.len() - i,
{
    if i >= a.len() {
        true
    } else if i >= b.len() {
        false
    } else if a[i as int] != b[i as int] {
        (a[i as int] as int) < (b[i as int] as int)
    } else {
        name_le_from(a, b, i + 1)
    }
}

/// Lexicographic order on names, by code point.  For UTF-8 names this is
/// also the order of their bytes, which is how paths of one directory sort.
pub open spec fn name_le(a: Seq<char>, b: Seq<char>) -> bool {
    name_le_from(a, b, 0)
}

/// Every name of `s` sorts no later than the names after it.
pub open spec fn sorted_names(s: Seq<Seq<char>>) -> bool {
    forall|i: int, j: int| 0 <= i < j < s.len() ==> name_le(#[trigger] s[i], #[trigger] s[j])
}

proof fn name_le_total_from(a: Seq<char>, b: Seq<char>, i: nat)
    ensures
        name_le_from(a, b, i) || name_le_from(b, a, i),
    decreases a.len() - i,
{
    if i < a.len() && i < b.len() {
        if a[i as int] == b[i as int] {
            name_le_total_from(a, b, i + 1);
        }
    }
}

proof fn name_le_trans_from(a: Seq<char>, b: Seq<char>, c: Seq<char>, i: nat)
    requires
        name_le_from(a, b, i),
        name_le_from(b, c, i),
    ensures
        name_le_from(a, c, i),
    decreases a.len() - i,
{
    if i < a.len() && i < b.len() && i < c.len() && a[i as int] == b[i as int] && b[i as int]
        == c[i as int] {
        name_le_trans_from(a, b, c, i + 1);
    }
}

proof fn name_le_antisym_from(a: Seq<char>, b: Seq<char>, i: nat)
    requires
        name_le_from(a, b, i),
        name_le_from(b, a, i),
        i <= a.len(),
        i <= b.len(),
    ensures
        a.len() == b.len(),
        forall|j: int| i <= j < a.len() ==> a[j] == b[j],
    decreases a.len() - i,
{
    if i < a.len() && i < b.len() {
        name_le_antisym_from(a, b, i + 1);
    }
}

/// The order on names is total.
pub proof fn name_order_is_total(a: Seq<char>, b: Seq<char>)
    ensures
        name_le(a, b) || name_le(b, a),
{
    name_le_total_from(a, b, 0);
}

/// The order on names is transitive.
pub proof fn name_order_is_transitive(a: Seq<char>, b: Seq<char>, c: Seq<char>)
    requires
        name_le(a, b),
        name_le(b, c),
    ensures
        name_le(a, c),
{
    name_le_trans_from(a, b, c, 0);
}

/// Two names that each sort no later than the other are the same name, so a
/// sorted list is determined by the names it holds.
pub proof fn name_order_is_antisymmetric(a: Seq<char>, b: Seq<char>)
    requires
        name_le(a, b),
        name_le(b, a),
    ensures
        a == b,
{
    name_le_antisym_from(a, b, 0);
    assert(a =~= b);
}

/// Compares two names in the order above.
fn names_le(a: &Vec<char>, b: &Vec<char>) -> (r: bool)
    ensures
        r == name_le(a@, b@),
{
    let mut i: usize = 0;
    while i < a.len()
        invariant
            i <= a@.len(),
            name_le(a@, b@) == name_le_from(a@, b@, i as nat),
        decreases a@.len() - i,
    {
        if i >= b.len() {
            return false;
        }
        if a[i] != b[i] {
            return a[i] < b[i];
        }
        i += 1;
    }
    true
}

/// The names held by a list of character vectors.
pub open spec fn views_of(v: Seq<Vec<char>>) -> Seq<Seq<char>> {
    v.map_values(|x: Vec<char>| x@)
}

/// Sorts names into the order above.
fn sort_names(v: Vec<Vec<char>>) -> (out: Vec<Vec<char>>)
    ensures
        sorted_names(views_of(out@)),
        views_of(out@).to_multiset() == views_of(v@).to_multiset(),
{
    broadcast use group_to_multiset_ensures;

    let mut out: Vec<Vec<char>> = Vec::new();
    let ghost src = views_of(v@);
    let mut rest = v;
    // Take the names from the back, so that each step pops one.
    while rest.len() > 0
        invariant
            src == views_of(v@),
            sorted_names(views_of(out@)),
            views_of(out@).to_multiset().add(views_of(rest@).to_multiset()) == src.to_multiset(),
        decreases rest@.len(),
    {
        let ghost before = rest@;
        let x = rest.pop().unwrap();
        proof {
            assert(before =~= rest@.push(x));
            assert(views_of(before) =~= views_of(rest@).push(x@));
        }
        // Find the first position whose name sorts after `x`.
        let mut p: usize = 0;
        while p < out.len() && names_le(&out[p], &x)
            invariant
                p <= out@.len(),
                forall|j: int| 0 <= j < p ==> name_le(#[trigger] views_of(out@)[j], x@),
            decreases out@.len() - p,
        {
            p += 1;
        }
        let ghost old_out = views_of(out@);
        proof {
            assert forall|j: int| p <= j < old_out.len() implies name_le(x@, #[trigger] old_out[j]) by {
                name_order_is_total(old_out[p as int], x@);
                if j > p {
                    name_order_is_transitive(x@, old_out[p as int], old_out[j]);
                }
            }
        }
        let ghost xv = x@;
        out.insert(p, x);
        proof {
            let nw = views_of(out@);
            assert(nw =~= old_out.insert(p as int, xv));
            assert forall|i: int, j: int| 0 <= i < j < nw.len() implies name_le(
                #[trigger] nw[i],
                #[trigger] nw[j],
            ) by {
                if j < p {
                    assert(nw[i] == old_out[i] && nw[j] == old_out[j]);
                } else if j == p {
                    assert(nw[i] == old_out[i]);
                } else if i < p {
                    assert(nw[i] == old_out[i] && nw[j] == old_out[j - 1]);
                    name_order_is_transitive(old_out[i], xv, old_out[j - 1]);
                } else if i == p {
                    assert(nw[j] == old_out[j - 1]);
                } else {
                    assert(nw[i] == old_out[i - 1] && nw[j] == old_out[j - 1]);
                }
            }
            to_multiset_insert(old_out, p as int, xv);
            to_multiset_build(views_of(rest@), xv);
            assert(nw.to_multiset().add(views_of(rest@).to_multiset()) =~= old_out.to_multiset().add(
                views_of(before).to_multiset(),
            ));
        }
    }
    proof {
        assert(views_of(rest@) =~= Seq::<Seq<char>>::empty());
        assert(views_of(out@).to_multiset().add(Multiset::empty()) =~= views_of(out@).to_multiset());
    }
    out
}


/// The name ends in a `.ttf` extension: the part after its last dot is
/// `ttf`, and something comes before that dot.
pub open spec fn is_ttf_name(name: Seq<char>) -> bool {
    name.len() >= 5 && name.subrange(name.len() - 4, name.len() as int) == seq!['.', 't', 't', 'f']
}

/// A font file seen on disk: its name within the font directory, and the
/// canonical form of its path, by which the same file is recognised again.
pub struct FontCandidate {
    /// The file name within the font directory.
    pub file_name: String,
    /// The canonical path of the file.
    pub canonical: String,
}

/// After the first `n` configured candidates: the names of those that are
/// loaded, in order, and the canonical paths they take up.  A placeholder
/// name is skipped, and so is a file already taken.
pub open spec fn configured_fonts(c: Seq<FontCandidate>, n: nat) -> (Seq<Seq<char>>, Seq<
    Seq<char>,
>)
    decreases n,
{
    if n == 0 || n > c.len() {
        (Seq::empty(), Seq::empty())
    } else {
        let (names, taken) = configured_fonts(c, (n - 1) as nat);
        let x = c[n - 1];
        if starts_with(x.file_name@, "REPLACE_WITH_"@) || taken.contains(x.canonical@) {
            (names, taken)
        } else {
            (names.push(x.file_name@), taken.push(x.canonical@))
        }
    }
}

/// The configured font files that are loaded, in order.
pub open spec fn loaded_configured(c: Seq<FontCandidate>) -> Seq<Seq<char>> {
    configured_fonts(c, c.len()).0
}

/// The canonical paths of the configured font files that are loaded.
pub open spec fn taken_paths(c: Seq<FontCandidate>) -> Seq<Seq<char>> {
    configured_fonts(c, c.len()).1
}

/// Among the first `n` files found in the directory, in the order found:
/// the names of the `.ttf` files that are not already taken.
pub open spec fn fallback_fonts(e: Seq<FontCandidate>, taken: Seq<Seq<char>>, n: nat) -> Seq<
    Seq<char>,
>
    decreases n,
{
    if n == 0 || n > e.len() {
        Seq::empty()
    } else {
        let rest = fallback_fonts(e, taken, (n - 1) as nat);
        let x = e[n - 1];
        if is_ttf_name(x.file_name@) && !taken.contains(x.canonical@) {
            rest.push(x.file_name@)
        } else {
            rest
        }
    }
}

/// The character sequences of a list of strings.
pub open spec fn strings_view(v: Seq<String>) -> Seq<Seq<char>> {
    v.map_values(|x: String| x@)
}

fn is_ttf(name: &Vec<char>) -> (r: bool)
    ensures
        r == is_ttf_name(name@),
{
    let n = name.len();
    if n < 5 {
        return false;
    }
    let r = name[n - 4] == '.' && name[n - 3] == 't' && name[n - 2] == 't' && name[n - 1] == 'f';
    proof {
        let tail = name@.subrange(n - 4, n as int);
        if r {
            assert(tail =~= seq!['.', 't', 't', 'f']);
        } else {
            assert(tail[0] != '.' || tail[1] != 't' || tail[2] != 't' || tail[3] != 'f');
        }
    }
    r
}

fn same_chars(a: &Vec<char>, b: &Vec<char>) -> (r: bool)
    ensures
        r == (a@ == b@),
{
    if a.len() != b.len() {
        return false;
    }
    let mut i: usize = 0;
    while i < a.len()
        invariant
            a@.len() == b@.len(),
            i <= a@.len(),
            forall|j: int| 0 <= j < i ==> a@[j] == b@[j],
        decreases a@.len() - i,
    {
        if a[i] != b[i] {
            return false;
        }
        i += 1;
    }
    assert(a@ =~= b@);
    true
}

fn contains_chars(list: &Vec<Vec<char>>, x: &Vec<char>) -> (r: bool)
    ensures
        r == views_of(list@).contains(x@),
{
    let mut i: usize = 0;
    while i < list.len()
        invariant
            i <= list@.len(),
            forall|j: int| 0 <= j < i ==> views_of(list@)[j] != x@,
        decreases list@.len() - i,
    {
        if same_chars(&list[i], x) {
            assert(views_of(list@)[i as int] == x@);
            return true;
        }
        i += 1;
    }
    false
}

/// The font files to load, in the order to load them: first the configured
/// files (`configured`, in their order), skipping a name that is still a
/// placeholder and a file already taken; then the `.ttf` files found in the
/// font directory (`found`) whose canonical path no configured file took,
/// sorted by name.
pub fn font_load_order(configured: &Vec<FontCandidate>, found: &Vec<FontCandidate>) -> (order:
    Vec<String>)
    ensures
        strings_view(order@).take(loaded_configured(configured@).len() as int)
            == loaded_configured(configured@),
        sorted_names(strings_view(order@).skip(loaded_configured(configured@).len() as int)),
        strings_view(order@).skip(loaded_configured(configured@).len() as int).to_multiset()
            == fallback_fonts(found@, taken_paths(configured@), found@.len()).to_multiset(),
{
    let mut names: Vec<String> = Vec::new();
    let mut taken: Vec<Vec<char>> = Vec::new();
    let mut i: usize = 0;
    while i < configured.len()
        invariant
            i <= configured@.len(),
            (strings_view(names@), views_of(taken@)) == configured_fonts(configured@, i as nat),
        decreases configured@.len() - i,
    {
        let c = &configured[i];
        let canon = chars_of(c.canonical.as_str());
        if !is_placeholder_font_name(c.file_name.as_str()) && !contains_chars(&taken, &canon) {
            let name = chars_of(c.file_name.as_str());
            let ghost old_names = names@;
            let ghost old_taken = taken@;
            names.push(string_of(&name));
            taken.push(canon);
            proof {
                assert(strings_view(names@) =~= strings_view(old_names).push(c.file_name@));
                assert(views_of(taken@) =~= views_of(old_taken).push(c.canonical@));
            }
        }
        i += 1;
    }
    let ghost k = names@.len();
    let mut pending: Vec<Vec<char>> = Vec::new();
    let mut j: usize = 0;
    while j < found.len()
        invariant
            j <= found@.len(),
            views_of(taken@) == taken_paths(configured@),
            views_of(pending@) == fallback_fonts(found@, taken_paths(configured@), j as nat),
        decreases found@.len() - j,
    {
        let c = &found[j];
        let name = chars_of(c.file_name.as_str());
        let canon = chars_of(c.canonical.as_str());
        if is_ttf(&name) && !contains_chars(&taken, &canon) {
            let ghost old_pending = pending@;
            pending.push(name);
            assert(views_of(pending@) =~= views_of(old_pending).push(c.file_name@));
        }
        j += 1;
    }
    let sorted = sort_names(pending);
    let mut m: usize = 0;
    while m < sorted.len()
        invariant
            m <= sorted@.len(),
            names@.len() == k + m,
            strings_view(names@) == loaded_configured(configured@) + views_of(sorted@).take(
                m as int,
            ),
            loaded_configured(configured@).len() == k,
        decreases sorted@.len() - m,
    {
        let ghost old_names = names@;
        names.push(string_of(&sorted[m]));
        assert(views_of(sorted@).take(m + 1) =~= views_of(sorted@).take(m as int).push(
            sorted@[m as int]@,
        ));
        assert(strings_view(names@) =~= strings_view(old_names).push(sorted@[m as int]@));
        m += 1;
    }
    assert(views_of(sorted@).take(m as int) =~= views_of(sorted@));
    assert(strings_view(names@).take(k as int) =~= loaded_configured(configured@));
    assert(strings_view(names@).skip(k as int) =~= views_of(sorted@));
    names
}

// ---------------------------------------------------------------------------
// Glyph lookup across the loaded fonts
// ---------------------------------------------------------------------------

#[verifier::external_type_specification]
#[verifier::external_body]
pub struct ExFont(Font);

/// The characters a font maps to a glyph: the keys of its character map.
pub uninterp spec fn font_chars(font: Font) -> Set<char>;

/// Whether `font` has a glyph for `c` (`fontdue::Font::has_glyph`).
///
/// As the crate's source shows, the answer is whether `c` is a key of the
/// font's character map.
#[verifier::external_body]
fn has_glyph(font: &Font, c: char) -> (r: bool)
    ensures
        r == font_chars(*font).contains(c),
{
    font.has_glyph(c)
}

/// The first font, in load order, that has a glyph for `c`; `None` when no
/// font has one.
pub fn first_font_with_glyph(fonts: &Vec<Font>, c: char) -> (r: Option<usize>)
    ensures
        match r {
            Some(i) => i < fonts@.len() && font_chars(fonts@[i as int]).contains(c) && forall|j: int|
                0 <= j < i ==> !font_chars(#[trigger] fonts@[j]).contains(c),
            None => forall|j: int| 0 <= j < fonts@.len() ==> !font_chars(#[trigger] fonts@[j]).contains(c),
        },
{
    let mut i: usize = 0;
    while i < fonts.len()
        invariant
            i <= fonts@.len(),
            forall|j: int| 0 <= j < i ==> !font_chars(#[trigger] fonts@[j]).contains(c),
        decreases fonts@.len() - i,
    {
        if has_glyph(&fonts[i], c) {
            return Some(i);
        }
        i += 1;
    }
    None
}

/// Whether `fontdue` builds a font from `bytes` with its default settings.
pub uninterp spec fn font_parses(bytes: Seq<u8>) -> bool;

/// The characters that the font `fontdue` builds from `bytes` maps to a
/// glyph.
pub uninterp spec fn parsed_font_chars(bytes: Seq<u8>) -> Set<char>;

/// Builds a font from the bytes of a font file (`fontdue::Font::from_bytes`
/// with the default settings).
///
/// The outcome depends on the bytes alone: success or an error message, and
/// on success a font whose character map is a function of the bytes.
#[verifier::external_body]
fn font_from_bytes(bytes: Vec<u8>) -> (r: Result<Font, &'static str>)
    ensures
        r is Ok <==> font_parses(bytes@),
        r matches Ok(f) ==> font_chars(f) == parsed_font_chars(bytes@),
{
    Font::from_bytes(bytes, fontdue::FontSettings::default())
}

/// Parses the bytes of a TrueType file into a font, or gives the parser's
/// error message.
pub fn parse_font(bytes: Vec<u8>) -> (r: Result<Font, &'static str>)
    ensures
        r is Ok <==> font_parses(bytes@),
        r matches Ok(f) ==> font_chars(f) == parsed_font_chars(bytes@),
{
    font_from_bytes(bytes)
}

} // verus!
