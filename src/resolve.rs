use vstd::prelude::*;
use crate::units::{Length, to_quanta, length_quanta, in_limit};
use crate::decimal::{decimal_milli, parse_decimal_milli};

verus! {

/// A physical size in quanta.
#[derive(Clone, Copy, Debug, PartialEq, Eq, Structural)]
pub struct Size {
    pub width: i128,
    pub height: i128,
}

impl View for Size {
    type V = (int, int);

    open spec fn view(&self) -> (int, int) {
        (self.width as int, self.height as int)
    }
}

/// A bounding-box declaration `min-x min-y width height`, in thousandths of a pixel.
#[derive(Clone, Copy, Debug, PartialEq, Eq, Structural)]
pub struct ViewBox {
    pub min_x: i64,
    pub min_y: i64,
    pub width: i64,
    pub height: i64,
}

/// What the root element of a drawing declares about its size.
#[derive(Clone, Copy, Debug, PartialEq, Eq, Structural)]
pub struct RootDimensions {
    pub width: Option<Length>,
    pub height: Option<Length>,
    pub view_box: Option<ViewBox>,
}

/// Quanta in one thousandth of a pixel (96 pixels per inch).
pub const QUANTA_PER_MILLI_PX: i128 = 381;

pub open spec fn opt_quanta(o: Option<Length>) -> Option<int> {
    match o {
        Some(l) => length_quanta(l),
        None => None,
    }
}

pub open spec fn first_some(a: Option<int>, b: Option<int>) -> Option<int> {
    if a is Some {
        a
    } else {
        b
    }
}

/// The size of a drawing, in quanta, by order of precedence: both overrides
/// together; else per axis the root attribute or, failing it, that axis's
/// override; else the bounding box read as pixels; else unknown. A length whose
/// unit has no physical size counts as absent.
pub open spec fn resolved_size(
    root: RootDimensions,
    override_width: Option<Length>,
    override_height: Option<Length>,
) -> Option<(int, int)> {
    let ow = opt_quanta(override_width);
    let oh = opt_quanta(override_height);
    let w = first_some(opt_quanta(root.width), ow);
    let h = first_some(opt_quanta(root.height), oh);
    if ow is Some && oh is Some {
        Some((ow->0, oh->0))
    } else if w is Some && h is Some {
        Some((w->0, h->0))
    } else {
        match root.view_box {
            Some(vb) => Some((vb.width * 381, vb.height * 381)),
            None => None,
        }
    }
}

pub open spec fn size_view(o: Option<Size>) -> Option<(int, int)> {
    match o {
        Some(s) => Some(s@),
        None => None,
    }
}

fn opt_to_quanta(o: Option<Length>) -> (r: Option<i128>)
    ensures
        r matches Some(q) ==> in_limit(q as int),
        match r {
            Some(q) => opt_quanta(o) == Some(q as int),
            None => opt_quanta(o) is None,
        },
{
    match o {
        Some(l) => to_quanta(l),
        None => None,
    }
}

/// Resolves the physical size of a drawing from its root element and the
/// optional per-axis overrides (`overrides[0]` the width, `overrides[1]` the height).
pub fn resolve_size(root: &RootDimensions, overrides: [Option<Length>; 2]) -> (r: Option<Size>)
    ensures
        size_view(r) == resolved_size(*root, overrides@[0], overrides@[1]),
        r matches Some(s) ==> in_limit(s.width as int) && in_limit(s.height as int),
{
    let ow = opt_to_quanta(overrides[0]);
    let oh = opt_to_quanta(overrides[1]);
    if let (Some(w), Some(h)) = (ow, oh) {
        return Some(Size { width: w, height: h });
    }
    let aw = opt_to_quanta(root.width);
    let ah = opt_to_quanta(root.height);
    let w = if aw.is_some() { aw } else { ow };
    let h = if ah.is_some() { ah } else { oh };
    if let (Some(w), Some(h)) = (w, h) {
        return Some(Size { width: w, height: h });
    }
    match root.view_box {
        Some(vb) => {
            assert(in_limit(vb.width * 381)) by (nonlinear_arith)
                requires -0x8000_0000_0000_0000 <= vb.width <= 0x7fff_ffff_ffff_ffff;
            assert(in_limit(vb.height * 381)) by (nonlinear_arith)
                requires -0x8000_0000_0000_0000 <= vb.height <= 0x7fff_ffff_ffff_ffff;
            Some(Size {
                width: vb.width as i128 * QUANTA_PER_MILLI_PX,
                height: vb.height as i128 * QUANTA_PER_MILLI_PX,
            })
        },
        None => None,
    }
}


/// A drawing whose root declares its width and height in physical units, and
/// that has no overrides, measures exactly those lengths.
pub proof fn attributes_give_the_size(root: RootDimensions, w: Length, h: Length)
    requires
        root.width == Some(w),
        root.height == Some(h),
        length_quanta(w) is Some,
        length_quanta(h) is Some,
    ensures
        resolved_size(root, None, None) == Some((length_quanta(w)->0, length_quanta(h)->0)),
{
}

/// Overrides on both axes decide the size, whatever the root declares.
pub proof fn overrides_take_precedence(root: RootDimensions, ow: Length, oh: Length)
    requires
        length_quanta(ow) is Some,
        length_quanta(oh) is Some,
    ensures
        resolved_size(root, Some(ow), Some(oh)) == Some((length_quanta(ow)->0, length_quanta(oh)->0)),
{
}

/// Without usable overrides on both axes, each axis takes the root's length or,
/// where the root has none, that axis's override.
pub proof fn single_override_resolves_per_axis(
    root: RootDimensions,
    ow: Option<Length>,
    oh: Option<Length>,
)
    requires
        !(opt_quanta(ow) is Some && opt_quanta(oh) is Some),
        first_some(opt_quanta(root.width), opt_quanta(ow)) is Some,
        first_some(opt_quanta(root.height), opt_quanta(oh)) is Some,
    ensures
        resolved_size(root, ow, oh) == Some(
            (
                first_some(opt_quanta(root.width), opt_quanta(ow))->0,
                first_some(opt_quanta(root.height), opt_quanta(oh))->0,
            ),
        ),
{
}

/// With no lengths declared and no overrides, the bounding box is read as pixels.
pub proof fn view_box_read_as_pixels(root: RootDimensions, vb: ViewBox)
    requires
        root.width is None,
        root.height is None,
        root.view_box == Some(vb),
    ensures
        resolved_size(root, None, None) == Some((vb.width * 381, vb.height * 381)),
{
}


/// White space as Unicode defines it (the characters that `char::is_whitespace`
/// accepts): tab to carriage return, space, next line, no-break space, and the
/// Unicode spaces and separators.
pub open spec fn is_space(c: char) -> bool {
    ('\t' <= c && c <= '\r') || c == ' ' || c == '\u{85}' || c == '\u{A0}' || c == '\u{1680}' || ('\u{2000}'
        <= c && c <= '\u{200A}') || c == '\u{2028}' || c == '\u{2029}' || c == '\u{202F}' || c == '\u{205F}' || c
        == '\u{3000}'
}

/// The words of `s`: its longest runs of characters other than white space, in order.
pub open spec fn words(s: Seq<char>) -> Seq<Seq<char>>
    decreases s.len(),
{
    if s.len() == 0 {
        Seq::empty()
    } else {
        let p = s.drop_last();
        let c = s.last();
        let w = words(p);
        if is_space(c) {
            w
        } else if p.len() == 0 || is_space(p.last()) {
            w.push(seq![c])
        } else {
            w.update(w.len() - 1, w.last().push(c))
        }
    }
}

pub open spec fn str_views(v: Seq<&str>) -> Seq<Seq<char>> {
    v.map_values(|w: &str| w@)
}

fn is_space_char(c: char) -> (r: bool)
    ensures
        r == is_space(c),
{
    ('\t' <= c && c <= '\r') || c == ' ' || c == '\u{85}' || c == '\u{A0}' || c == '\u{1680}' || ('\u{2000}'
        <= c && c <= '\u{200A}') || c == '\u{2028}' || c == '\u{2029}' || c == '\u{202F}' || c == '\u{205F}' || c
        == '\u{3000}'
}

fn split_words(s: &str) -> (r: Vec<&str>)
    ensures
        str_views(r@) == words(s@),
{
    let n = s.unicode_len();
    let mut r: Vec<&str> = Vec::new();
    let mut i: usize = 0;
    let mut start: usize = 0;
    let mut in_word = false;
    while i < n
        invariant
            i <= n,
            n == s@.len(),
            start <= i,
            in_word ==> start < i,
            in_word ==> !is_space(s@[i - 1]),
            !in_word ==> (i == 0 || is_space(s@[i - 1])),
            words(s@.subrange(0, i as int)) == str_views(r@) + if in_word {
                seq![s@.subrange(start as int, i as int)]
            } else {
                Seq::empty()
            },
        decreases n - i,
    {
        let c = s.get_char(i);
        let ghost pre = s@.subrange(0, i as int);
        assert(s@.subrange(0, i + 1).drop_last() =~= pre);
        assert(s@.subrange(0, i + 1).last() == c);
        let ghost v0 = str_views(r@);
        if is_space_char(c) {
            assert(words(s@.subrange(0, i + 1)) == words(pre));
            if in_word {
                let w = s.substring_char(start, i);
                let ghost r0 = r@;
                r.push(w);
                assert(str_views(r@) =~= str_views(r0) + seq![w@]);
                in_word = false;
            }
            assert(words(s@.subrange(0, i + 1)) =~= str_views(r@));
        } else {
            if !in_word {
                start = i;
                in_word = true;
                assert(pre.len() == 0 || is_space(pre.last()));
                assert(words(s@.subrange(0, i + 1)) == words(pre).push(seq![c]));
                assert(s@.subrange(start as int, i + 1) =~= seq![c]);
                assert(words(pre) =~= v0);
                assert(words(s@.subrange(0, i + 1)) =~= v0 + seq![s@.subrange(start as int, i + 1)]);
            } else {
                assert(pre.len() > 0 && !is_space(pre.last()));
                let ghost w = words(pre);
                assert(w =~= v0 + seq![s@.subrange(start as int, i as int)]);
                assert(words(s@.subrange(0, i + 1)) == w.update(w.len() - 1, w.last().push(c)));
                assert(s@.subrange(start as int, i + 1) =~= s@.subrange(start as int, i as int).push(c));
                assert(words(s@.subrange(0, i + 1)) =~= v0 + seq![s@.subrange(start as int, i + 1)]);
            }
        }
        i = i + 1;
    }
    if in_word {
        let w = s.substring_char(start, n);
        let ghost r0 = r@;
        r.push(w);
        assert(str_views(r@) =~= str_views(r0) + seq![w@]);
    }
    assert(s@.subrange(0, n as int) =~= s@);
    r
}


/// The bounding box that a declaration of four decimals separated by white
/// space gives, each in thousandths; `None` for anything else.
pub open spec fn view_box_of(s: Seq<char>) -> Option<ViewBox> {
    let w = words(s);
    if w.len() == 4 && decimal_milli(w[0]) is Some && decimal_milli(w[1]) is Some && decimal_milli(
        w[2],
    ) is Some && decimal_milli(w[3]) is Some {
        Some(
            ViewBox {
                min_x: (decimal_milli(w[0])->0) as i64,
                min_y: (decimal_milli(w[1])->0) as i64,
                width: (decimal_milli(w[2])->0) as i64,
                height: (decimal_milli(w[3])->0) as i64,
            },
        )
    } else {
        None
    }
}

/// Reads a bounding-box declaration `min-x min-y width height`.
pub fn parse_view_box(s: &str) -> (r: Option<ViewBox>)
    ensures
        r == view_box_of(s@),
{
    let parts = split_words(s);
    if parts.len() != 4 {
        return None;
    }
    assert(parts@[0]@ == words(s@)[0] && parts@[1]@ == words(s@)[1] && parts@[2]@ == words(s@)[2]
        && parts@[3]@ == words(s@)[3]);
    let min_x = parse_decimal_milli(parts[0]);
    let min_y = parse_decimal_milli(parts[1]);
    let width = parse_decimal_milli(parts[2]);
    let height = parse_decimal_milli(parts[3]);
    match (min_x, min_y, width, height) {
        (Some(min_x), Some(min_y), Some(width), Some(height)) => Some(ViewBox { min_x, min_y, width, height }),
        _ => None,
    }
}


/// The size of a drawing whose markup may not have parsed (`root` is `None`):
/// a parsed root resolves as above; without one, only overrides that convert on
/// both axes give a size.
pub open spec fn document_size(
    root: Option<RootDimensions>,
    override_width: Option<Length>,
    override_height: Option<Length>,
) -> Option<(int, int)> {
    match root {
        Some(r) => resolved_size(r, override_width, override_height),
        None => if opt_quanta(override_width) is Some && opt_quanta(override_height) is Some {
            Some((opt_quanta(override_width)->0, opt_quanta(override_height)->0))
        } else {
            None
        },
    }
}

/// Resolves the size of a drawing from its root element, `None` where its
/// markup did not parse, and the per-axis overrides.
pub fn resolve_document_size(root: Option<RootDimensions>, overrides: [Option<Length>; 2]) -> (r: Option<Size>)
    ensures
        size_view(r) == document_size(root, overrides@[0], overrides@[1]),
        r matches Some(s) ==> in_limit(s.width as int) && in_limit(s.height as int),
{
    match root {
        Some(dims) => resolve_size(&dims, overrides),
        None => resolve_size(&RootDimensions { width: None, height: None, view_box: None }, overrides),
    }
}

} // verus!
