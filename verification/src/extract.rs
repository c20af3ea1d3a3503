//! Shape extraction: a best-effort scan of SVG markup for `path`,
//! `circle`, `rect` and `polygon` elements and the root's `width`,
//! `height` and `viewBox`.
//!
//! Extraction is a pattern search over the flattened text for opening tags
//! and `name="value"` attribute syntax; it builds no DOM, resolves no
//! entities, and never fails on malformed markup. Missing dimensions
//! default to 24; a `viewBox` overrides `width`/`height` for scaling.

use vstd::prelude::*;
use crate::float_bits::{parse_f32, spec_parse_f32, F32_24_BITS, F32_ZERO_BITS};
use crate::primitives::{
    circle_to_path, polygon_to_path, rect_to_path, spec_circle_path, spec_polygon_path,
    spec_rect_path,
};
use crate::tokenizer::{is_space_ch, push_char, spec_is_space};

verus! {

/// Pattern for the root `width` attribute (first capture: the number).
pub const WIDTH_DIM_PATTERN: &'static str = "\\bwidth\\s*=\\s*[\"']?(\\d+(?:\\.\\d+)?)";

/// Pattern for the root `height` attribute (first capture: the number).
pub const HEIGHT_DIM_PATTERN: &'static str = "\\bheight\\s*=\\s*[\"']?(\\d+(?:\\.\\d+)?)";

/// Pattern for the root `viewBox` attribute (first capture: its value).
pub const VIEWBOX_PATTERN: &'static str = "\\bviewBox\\s*=\\s*[\"']([^\"']+)[\"']";

/// Patterns for whole elements, with and without a closing tag.
pub const PATH_ELEM_PATTERN: &'static str =
    "<path\\b([^>]*)/?>([\\s\\S]*?)</path>|<path\\b([^>]*)/?>";

pub const PATH_ELEM_SIMPLE_PATTERN: &'static str = "<path\\b[^>]*>";

pub const CIRCLE_ELEM_PATTERN: &'static str =
    "<circle\\b([^>]*)/?>([\\s\\S]*?)</circle>|<circle\\b([^>]*)/?>";

pub const CIRCLE_ELEM_SIMPLE_PATTERN: &'static str = "<circle\\b[^>]*>";

pub const RECT_ELEM_PATTERN: &'static str =
    "<rect\\b([^>]*)/?>([\\s\\S]*?)</rect>|<rect\\b([^>]*)/?>";

pub const RECT_ELEM_SIMPLE_PATTERN: &'static str = "<rect\\b[^>]*>";

pub const POLYGON_ELEM_PATTERN: &'static str =
    "<polygon\\b([^>]*)/?>([\\s\\S]*?)</polygon>|<polygon\\b([^>]*)/?>";

pub const POLYGON_ELEM_SIMPLE_PATTERN: &'static str = "<polygon\\b[^>]*>";

/// Per-attribute patterns (first capture: the quoted value).
pub const D_ATTR_PATTERN: &'static str = "\\bd\\s*=\\s*[\"']([^\"']*)[\"']";

pub const FILL_ATTR_PATTERN: &'static str = "\\bfill\\s*=\\s*[\"']([^\"']*)[\"']";

pub const STROKE_ATTR_PATTERN: &'static str = "\\bstroke\\s*=\\s*[\"']([^\"']*)[\"']";

pub const STROKE_WIDTH_ATTR_PATTERN: &'static str = "\\bstroke-width\\s*=\\s*[\"']([^\"']*)[\"']";

pub const CX_ATTR_PATTERN: &'static str = "\\bcx\\s*=\\s*[\"']([^\"']*)[\"']";

pub const CY_ATTR_PATTERN: &'static str = "\\bcy\\s*=\\s*[\"']([^\"']*)[\"']";

pub const R_ATTR_PATTERN: &'static str = "\\br\\s*=\\s*[\"']([^\"']*)[\"']";

pub const X_ATTR_PATTERN: &'static str = "\\bx\\s*=\\s*[\"']([^\"']*)[\"']";

pub const Y_ATTR_PATTERN: &'static str = "\\by\\s*=\\s*[\"']([^\"']*)[\"']";

pub const WIDTH_ATTR_PATTERN: &'static str = "\\bwidth\\s*=\\s*[\"']([^\"']*)[\"']";

pub const HEIGHT_ATTR_PATTERN: &'static str = "\\bheight\\s*=\\s*[\"']([^\"']*)[\"']";

pub const POINTS_ATTR_PATTERN: &'static str = "\\bpoints\\s*=\\s*[\"']([^\"']*)[\"']";

pub uninterp spec fn spec_regex_capture(pattern: Seq<char>, text: Seq<char>) -> Option<Seq<char>>;

pub uninterp spec fn spec_regex_find_all(pattern: Seq<char>, text: Seq<char>) -> Seq<Seq<char>>;

/// Relies on `regex_lite::Regex::{new, captures}`: the text of the first
/// capture group of the first match of `pattern` in `text`; nothing when
/// the pattern does not compile, does not match, or the group is absent.
/// A deterministic function of pattern and text, named by
/// `spec_regex_capture`.
#[verifier::external_body]
pub(crate) fn regex_match(text: &str, pattern: &str) -> (r: Option<String>)
    ensures
        r.deep_view() == spec_regex_capture(pattern@, text@),
{
    let re = regex_lite::Regex::new(pattern).ok()?;
    let caps = re.captures(text)?;
    caps.get(1).map(|m| m.as_str().to_string())
}

/// Relies on `regex_lite::Regex::{new, find_iter}`: the texts of all
/// non-overlapping matches of `pattern` in `text`, in order; empty when
/// the pattern does not compile. A deterministic function of pattern and
/// text, named by `spec_regex_find_all`.
#[verifier::external_body]
pub(crate) fn regex_find_all(text: &str, pattern: &str) -> (r: Vec<String>)
    ensures
        r.deep_view() == spec_regex_find_all(pattern@, text@),
{
    match regex_lite::Regex::new(pattern) {
        Ok(re) => re.find_iter(text).map(|m| m.as_str().to_string()).collect(),
        Err(_) => Vec::new(),
    }
}

/// The element texts found for one tag: the full-element pattern first,
/// the bare opening tag as a fallback when it finds nothing.
pub open spec fn spec_find_elements(
    text: Seq<char>,
    pat_full: Seq<char>,
    pat_simple: Seq<char>,
) -> Seq<Seq<char>> {
    let full = spec_regex_find_all(pat_full, text);
    if full.len() == 0 {
        spec_regex_find_all(pat_simple, text)
    } else {
        full
    }
}

/// Finds the element texts of one tag; see [`spec_find_elements`].
pub fn find_all_elements(text: &str, pat_full: &str, pat_simple: &str) -> (r: Vec<String>)
    ensures
        r.deep_view() == spec_find_elements(text@, pat_full@, pat_simple@),
{
    let results = regex_find_all(text, pat_full);
    if results.len() == 0 {
        let fallback = regex_find_all(text, pat_simple);
        proof {
            assert(results.deep_view().len() == 0);
        }
        fallback
    } else {
        results
    }
}

pub fn find_all_paths(text: &str) -> (r: Vec<String>)
    ensures
        r.deep_view() == spec_find_elements(text@, PATH_ELEM_PATTERN@, PATH_ELEM_SIMPLE_PATTERN@),
{
    find_all_elements(text, PATH_ELEM_PATTERN, PATH_ELEM_SIMPLE_PATTERN)
}

pub fn find_all_circles(text: &str) -> (r: Vec<String>)
    ensures
        r.deep_view() == spec_find_elements(
            text@,
            CIRCLE_ELEM_PATTERN@,
            CIRCLE_ELEM_SIMPLE_PATTERN@,
        ),
{
    find_all_elements(text, CIRCLE_ELEM_PATTERN, CIRCLE_ELEM_SIMPLE_PATTERN)
}

pub fn find_all_rects(text: &str) -> (r: Vec<String>)
    ensures
        r.deep_view() == spec_find_elements(text@, RECT_ELEM_PATTERN@, RECT_ELEM_SIMPLE_PATTERN@),
{
    find_all_elements(text, RECT_ELEM_PATTERN, RECT_ELEM_SIMPLE_PATTERN)
}

pub fn find_all_polygons(text: &str) -> (r: Vec<String>)
    ensures
        r.deep_view() == spec_find_elements(
            text@,
            POLYGON_ELEM_PATTERN@,
            POLYGON_ELEM_SIMPLE_PATTERN@,
        ),
{
    find_all_elements(text, POLYGON_ELEM_PATTERN, POLYGON_ELEM_SIMPLE_PATTERN)
}

/// Extracts one quoted attribute value from an element's text.
pub fn extract_attr(element: &str, attr_pattern: &str) -> (r: Option<String>)
    ensures
        r.deep_view() == spec_regex_capture(attr_pattern@, element@),
{
    regex_match(element, attr_pattern)
}

/// A field separator in an attribute's number list.
pub open spec fn spec_is_sep(c: char) -> bool {
    c == ',' || spec_is_space(c)
}

/// The nonempty fields of `s` from `i` on, split at commas and
/// whitespace, with `cur` the field accumulated so far.
pub open spec fn spec_split_fields(s: Seq<char>, i: int, cur: Seq<char>) -> Seq<Seq<char>>
    decreases s.len() - i,
{
    if i < 0 || i >= s.len() {
        if cur.len() == 0 {
            seq![]
        } else {
            seq![cur]
        }
    } else if spec_is_sep(s[i]) {
        if cur.len() == 0 {
            spec_split_fields(s, i + 1, seq![])
        } else {
            seq![cur] + spec_split_fields(s, i + 1, seq![])
        }
    } else {
        spec_split_fields(s, i + 1, cur.push(s[i]))
    }
}

/// The fields that parse as numbers, in order; the rest are dropped.
pub open spec fn spec_parse_fields(fields: Seq<Seq<char>>) -> Seq<u32>
    decreases fields.len(),
{
    if fields.len() == 0 {
        seq![]
    } else {
        let rest = spec_parse_fields(fields.drop_last());
        match spec_parse_f32(fields.last()) {
            Some(b) => rest + seq![b],
            None => rest,
        }
    }
}

/// The numbers of a whitespace/comma-separated list.
pub open spec fn spec_split_numbers(s: Seq<char>) -> Seq<u32> {
    spec_parse_fields(spec_split_fields(s, 0, seq![]))
}

/// Splits a text at commas and whitespace and parses each nonempty field
/// as a number, dropping fields that do not parse.
pub fn split_numbers(s: &str) -> (r: Vec<u32>)
    ensures
        r@ == spec_split_numbers(s@),
{
    let n = s.unicode_len();
    let mut fields: Vec<String> = Vec::new();
    let mut cur = String::new();
    let mut i: usize = 0;
    while i < n
        invariant
            n == s@.len(),
            i <= n,
            spec_split_fields(s@, 0, seq![]) == fields.deep_view() + spec_split_fields(
                s@,
                i as int,
                cur@,
            ),
        decreases n - i,
    {
        let ghost i0 = i as int;
        let ghost cur0 = cur@;
        let ghost fdv0 = fields.deep_view();
        let c = s.get_char(i);
        if c == ',' || is_space_ch(c) {
            if !cur.as_str().is_empty() {
                let done = cur;
                cur = String::new();
                fields.push(done);
            }
            i += 1;
            proof {
                if cur0.len() == 0 {
                    assert(cur0 =~= Seq::<char>::empty());
                    assert(spec_split_fields(s@, i0, cur0) == spec_split_fields(
                        s@,
                        i as int,
                        cur@,
                    ));
                } else {
                    assert(fields.deep_view() =~~= fdv0.push(cur0));
                    assert(spec_split_fields(s@, i0, cur0) == seq![cur0] + spec_split_fields(
                        s@,
                        i as int,
                        cur@,
                    ));
                    assert(fields.deep_view() + spec_split_fields(s@, i as int, cur@) =~~= fdv0
                        + spec_split_fields(s@, i0, cur0));
                }
            }
        } else {
            push_char(&mut cur, c);
            i += 1;
            proof {
                assert(spec_split_fields(s@, i0, cur0) == spec_split_fields(s@, i as int, cur@));
            }
        }
    }
    let ghost fdv1 = fields.deep_view();
    let ghost cur1 = cur@;
    if !cur.as_str().is_empty() {
        fields.push(cur);
    }
    proof {
        if cur1.len() == 0 {
            assert(cur1 =~= Seq::<char>::empty());
            assert(spec_split_fields(s@, n as int, cur1) =~= Seq::<Seq<char>>::empty());
        } else {
            assert(fields.deep_view() =~~= fdv1.push(cur1));
            assert(spec_split_fields(s@, n as int, cur1) == seq![cur1]);
        }
        assert(fields.deep_view() =~~= fdv1 + spec_split_fields(s@, n as int, cur1));
        assert(fields.deep_view() =~~= spec_split_fields(s@, 0, seq![]));
    }

    let mut nums: Vec<u32> = Vec::new();
    let m = fields.len();
    let mut j: usize = 0;
    while j < m
        invariant
            m == fields@.len(),
            j <= m,
            nums@ == spec_parse_fields(fields.deep_view().take(j as int)),
        decreases m - j,
    {
        match parse_f32(fields[j].as_str()) {
            Some(b) => nums.push(b),
            None => {}
        }
        j += 1;
        proof {
            assert(fields.deep_view().take(j as int).drop_last() =~= fields.deep_view().take(
                j as int - 1,
            ));
            assert(fields.deep_view().take(j as int).last() == fields@[j - 1]@);
            assert(nums@ =~= spec_parse_fields(fields.deep_view().take(j as int)));
        }
    }
    proof {
        assert(fields.deep_view().take(m as int) =~= fields.deep_view());
    }
    nums
}

/// One extracted shape, as a path-data record.
#[derive(Debug, Clone, PartialEq, Eq)]
pub struct ParsedPath {
    pub fill: Option<String>,
    pub stroke: Option<String>,
    pub stroke_width: Option<u32>,
    pub d: String,
}

/// Mathematical image of a [`ParsedPath`].
pub ghost struct ParsedPathView {
    pub fill: Option<Seq<char>>,
    pub stroke: Option<Seq<char>>,
    pub stroke_width: Option<u32>,
    pub d: Seq<char>,
}

impl View for ParsedPath {
    type V = ParsedPathView;

    open spec fn view(&self) -> ParsedPathView {
        ParsedPathView {
            fill: self.fill.deep_view(),
            stroke: self.stroke.deep_view(),
            stroke_width: self.stroke_width,
            d: self.d@,
        }
    }
}

impl DeepView for ParsedPath {
    type V = ParsedPathView;

    open spec fn deep_view(&self) -> ParsedPathView {
        self.view()
    }
}

/// The root `viewBox` rectangle.
#[derive(Debug, Clone, Copy, PartialEq, Eq, Structural)]
pub struct ViewBox {
    pub x: u32,
    pub y: u32,
    pub width: u32,
    pub height: u32,
}

/// The extracted document: its dimensions and shape records, in document
/// order (paths first, then circles, rectangles and polygons).
#[derive(Debug, Clone, PartialEq, Eq)]
pub struct ParsedSvg {
    pub width: u32,
    pub height: u32,
    pub view_box: Option<ViewBox>,
    pub paths: Vec<ParsedPath>,
}

/// Mathematical image of a [`ParsedSvg`].
pub ghost struct ParsedSvgView {
    pub width: u32,
    pub height: u32,
    pub view_box: Option<ViewBox>,
    pub paths: Seq<ParsedPathView>,
}

impl View for ParsedSvg {
    type V = ParsedSvgView;

    open spec fn view(&self) -> ParsedSvgView {
        ParsedSvgView {
            width: self.width,
            height: self.height,
            view_box: self.view_box,
            paths: self.paths.deep_view(),
        }
    }
}

/// A captured text parsed as a number, if both steps succeed.
pub open spec fn spec_opt_parse(t: Option<Seq<char>>) -> Option<u32> {
    match t {
        Some(x) => spec_parse_f32(x),
        None => None,
    }
}

/// A captured text parsed as a number, zero when absent or unparsable.
pub open spec fn spec_num_or_zero(t: Option<Seq<char>>) -> u32 {
    match spec_opt_parse(t) {
        Some(b) => b,
        None => F32_ZERO_BITS,
    }
}

/// A root dimension: the captured number, 24 when absent or unparsable.
pub open spec fn spec_dim_or_default(text: Seq<char>, pat: Seq<char>) -> u32 {
    match spec_regex_capture(pat, text) {
        Some(cap) => match spec_parse_f32(cap) {
            Some(b) => b,
            None => F32_24_BITS,
        },
        None => F32_24_BITS,
    }
}

/// The root `viewBox`, present when its value holds exactly four numbers.
pub open spec fn spec_view_box(text: Seq<char>) -> Option<ViewBox> {
    match spec_regex_capture(VIEWBOX_PATTERN@, text) {
        Some(cap) => {
            let nums = spec_split_numbers(cap);
            if nums.len() == 4 {
                Some(ViewBox { x: nums[0], y: nums[1], width: nums[2], height: nums[3] })
            } else {
                None
            }
        }
        None => None,
    }
}

/// The record of one `path` element: present when it has a `d` attribute.
pub open spec fn spec_path_record(elem: Seq<char>) -> Option<ParsedPathView> {
    match spec_regex_capture(D_ATTR_PATTERN@, elem) {
        Some(d) => Some(
            ParsedPathView {
                fill: spec_regex_capture(FILL_ATTR_PATTERN@, elem),
                stroke: spec_regex_capture(STROKE_ATTR_PATTERN@, elem),
                stroke_width: spec_opt_parse(
                    spec_regex_capture(STROKE_WIDTH_ATTR_PATTERN@, elem),
                ),
                d,
            },
        ),
        None => None,
    }
}

/// The record of one `circle` element: present when `cx`, `cy` and `r`
/// are all given and numeric; its path is the four-cubic circle.
pub open spec fn spec_circle_record(elem: Seq<char>) -> Option<ParsedPathView> {
    let cx = spec_opt_parse(spec_regex_capture(CX_ATTR_PATTERN@, elem));
    let cy = spec_opt_parse(spec_regex_capture(CY_ATTR_PATTERN@, elem));
    let r = spec_opt_parse(spec_regex_capture(R_ATTR_PATTERN@, elem));
    if cx is Some && cy is Some && r is Some {
        Some(
            ParsedPathView {
                fill: spec_regex_capture(FILL_ATTR_PATTERN@, elem),
                stroke: None,
                stroke_width: None,
                d: spec_circle_path(cx->Some_0, cy->Some_0, r->Some_0),
            },
        )
    } else {
        None
    }
}

/// The record of one `rect` element: present when `width` and `height`
/// are given and numeric; `x` and `y` default to zero.
pub open spec fn spec_rect_record(elem: Seq<char>) -> Option<ParsedPathView> {
    let x = spec_num_or_zero(spec_regex_capture(X_ATTR_PATTERN@, elem));
    let y = spec_num_or_zero(spec_regex_capture(Y_ATTR_PATTERN@, elem));
    let w = spec_opt_parse(spec_regex_capture(WIDTH_ATTR_PATTERN@, elem));
    let h = spec_opt_parse(spec_regex_capture(HEIGHT_ATTR_PATTERN@, elem));
    if w is Some && h is Some {
        Some(
            ParsedPathView {
                fill: spec_regex_capture(FILL_ATTR_PATTERN@, elem),
                stroke: None,
                stroke_width: None,
                d: spec_rect_path(x, y, w->Some_0, h->Some_0),
            },
        )
    } else {
        None
    }
}

/// The record of one `polygon` element: present when its `points` list
/// holds at least two numeric pairs.
pub open spec fn spec_polygon_record(elem: Seq<char>) -> Option<ParsedPathView> {
    match spec_regex_capture(POINTS_ATTR_PATTERN@, elem) {
        Some(pts) => {
            let nums = spec_split_numbers(pts);
            if nums.len() >= 4 {
                Some(
                    ParsedPathView {
                        fill: spec_regex_capture(FILL_ATTR_PATTERN@, elem),
                        stroke: None,
                        stroke_width: None,
                        d: spec_polygon_path(nums),
                    },
                )
            } else {
                None
            }
        }
        None => None,
    }
}

/// The path-record maker as a function value, for `filter_map`.
pub open spec fn path_record_fn() -> spec_fn(Seq<char>) -> Option<ParsedPathView> {
    |e: Seq<char>| spec_path_record(e)
}

pub open spec fn circle_record_fn() -> spec_fn(Seq<char>) -> Option<ParsedPathView> {
    |e: Seq<char>| spec_circle_record(e)
}

pub open spec fn rect_record_fn() -> spec_fn(Seq<char>) -> Option<ParsedPathView> {
    |e: Seq<char>| spec_rect_record(e)
}

pub open spec fn polygon_record_fn() -> spec_fn(Seq<char>) -> Option<ParsedPathView> {
    |e: Seq<char>| spec_polygon_record(e)
}

/// All shape records of a document, in extraction order.
pub open spec fn spec_all_path_records(text: Seq<char>) -> Seq<ParsedPathView> {
    spec_find_elements(text, PATH_ELEM_PATTERN@, PATH_ELEM_SIMPLE_PATTERN@).filter_map(
        path_record_fn(),
    ) + spec_find_elements(text, CIRCLE_ELEM_PATTERN@, CIRCLE_ELEM_SIMPLE_PATTERN@).filter_map(
        circle_record_fn(),
    ) + spec_find_elements(text, RECT_ELEM_PATTERN@, RECT_ELEM_SIMPLE_PATTERN@).filter_map(
        rect_record_fn(),
    ) + spec_find_elements(text, POLYGON_ELEM_PATTERN@, POLYGON_ELEM_SIMPLE_PATTERN@).filter_map(
        polygon_record_fn(),
    )
}

/// The whole extracted document: records of every recognized shape, and
/// dimensions from `viewBox` where present, else from `width`/`height`,
/// else 24.
pub open spec fn spec_parse_svg_content(text: Seq<char>) -> ParsedSvgView {
    let vb = spec_view_box(text);
    ParsedSvgView {
        width: match vb {
            Some(b) => b.width,
            None => spec_dim_or_default(text, WIDTH_DIM_PATTERN@),
        },
        height: match vb {
            Some(b) => b.height,
            None => spec_dim_or_default(text, HEIGHT_DIM_PATTERN@),
        },
        view_box: vb,
        paths: spec_all_path_records(text),
    }
}

/// A root dimension at runtime; see [`spec_dim_or_default`].
fn dim_or_default(text: &str, pattern: &str) -> (r: u32)
    ensures
        r == spec_dim_or_default(text@, pattern@),
{
    match regex_match(text, pattern) {
        Some(cap) => match parse_f32(cap.as_str()) {
            Some(b) => b,
            None => F32_24_BITS,
        },
        None => F32_24_BITS,
    }
}

/// The root `viewBox` at runtime; see [`spec_view_box`].
fn view_box_of(text: &str) -> (r: Option<ViewBox>)
    ensures
        r == spec_view_box(text@),
{
    match regex_match(text, VIEWBOX_PATTERN) {
        Some(cap) => {
            let nums = split_numbers(cap.as_str());
            if nums.len() == 4 {
                Some(ViewBox { x: nums[0], y: nums[1], width: nums[2], height: nums[3] })
            } else {
                None
            }
        }
        None => None,
    }
}

/// Attribute captured and parsed as a number, if both steps succeed.
fn attr_num(elem: &str, pattern: &str) -> (r: Option<u32>)
    ensures
        r == spec_opt_parse(spec_regex_capture(pattern@, elem@)),
{
    match extract_attr(elem, pattern) {
        Some(t) => parse_f32(t.as_str()),
        None => None,
    }
}

/// One `path` element's record; see [`spec_path_record`].
fn path_record(elem: &str) -> (r: Option<ParsedPath>)
    ensures
        r.deep_view() == spec_path_record(elem@),
{
    match extract_attr(elem, D_ATTR_PATTERN) {
        Some(d) => {
            let fill = extract_attr(elem, FILL_ATTR_PATTERN);
            let stroke = extract_attr(elem, STROKE_ATTR_PATTERN);
            let stroke_width = match extract_attr(elem, STROKE_WIDTH_ATTR_PATTERN) {
                Some(t) => parse_f32(t.as_str()),
                None => None,
            };
            Some(ParsedPath { fill, stroke, stroke_width, d })
        }
        None => None,
    }
}

/// One `circle` element's record; see [`spec_circle_record`].
fn circle_record(elem: &str) -> (r: Option<ParsedPath>)
    ensures
        r.deep_view() == spec_circle_record(elem@),
{
    let cx = attr_num(elem, CX_ATTR_PATTERN);
    let cy = attr_num(elem, CY_ATTR_PATTERN);
    let rr = attr_num(elem, R_ATTR_PATTERN);
    match (cx, cy, rr) {
        (Some(cxv), Some(cyv), Some(rv)) => {
            let d = circle_to_path(cxv, cyv, rv);
            Some(
                ParsedPath {
                    fill: extract_attr(elem, FILL_ATTR_PATTERN),
                    stroke: None,
                    stroke_width: None,
                    d,
                },
            )
        }
        _ => None,
    }
}

/// One `rect` element's record; see [`spec_rect_record`].
fn rect_record(elem: &str) -> (r: Option<ParsedPath>)
    ensures
        r.deep_view() == spec_rect_record(elem@),
{
    let x = match attr_num(elem, X_ATTR_PATTERN) {
        Some(b) => b,
        None => F32_ZERO_BITS,
    };
    let y = match attr_num(elem, Y_ATTR_PATTERN) {
        Some(b) => b,
        None => F32_ZERO_BITS,
    };
    let w = attr_num(elem, WIDTH_ATTR_PATTERN);
    let h = attr_num(elem, HEIGHT_ATTR_PATTERN);
    match (w, h) {
        (Some(wv), Some(hv)) => {
            let d = rect_to_path(x, y, wv, hv);
            Some(
                ParsedPath {
                    fill: extract_attr(elem, FILL_ATTR_PATTERN),
                    stroke: None,
                    stroke_width: None,
                    d,
                },
            )
        }
        _ => None,
    }
}

/// One `polygon` element's record; see [`spec_polygon_record`].
fn polygon_record(elem: &str) -> (r: Option<ParsedPath>)
    ensures
        r.deep_view() == spec_polygon_record(elem@),
{
    match extract_attr(elem, POINTS_ATTR_PATTERN) {
        Some(pts) => {
            let nums = split_numbers(pts.as_str());
            match polygon_to_path(&nums) {
                Some(d) => Some(
                    ParsedPath {
                        fill: extract_attr(elem, FILL_ATTR_PATTERN),
                        stroke: None,
                        stroke_width: None,
                        d,
                    },
                ),
                None => None,
            }
        }
        None => None,
    }
}

/// Extracts the document's shapes and dimensions from raw markup text; a
/// pure function of the input, never failing; see
/// [`spec_parse_svg_content`].
pub fn parse_svg_content(svg_content: &str) -> (result: ParsedSvg)
    ensures
        result@ == spec_parse_svg_content(svg_content@),
{
    let vb = view_box_of(svg_content);
    let width = match vb {
        Some(b) => b.width,
        None => dim_or_default(svg_content, WIDTH_DIM_PATTERN),
    };
    let height = match vb {
        Some(b) => b.height,
        None => dim_or_default(svg_content, HEIGHT_DIM_PATTERN),
    };

    let mut paths: Vec<ParsedPath> = Vec::new();
    let ghost text = svg_content@;

    let path_elems = find_all_paths(svg_content);
    let ghost p_dv = path_elems.deep_view();
    let mut k: usize = 0;
    while k < path_elems.len()
        invariant
            p_dv == path_elems.deep_view(),
            k <= path_elems@.len(),
            p_dv.len() == path_elems@.len(),
            paths.deep_view() == p_dv.take(k as int).filter_map(path_record_fn()),
        decreases path_elems@.len() - k,
    {
        let ghost before = paths.deep_view();
        match path_record(path_elems[k].as_str()) {
            Some(p) => paths.push(p),
            None => {}
        }
        k += 1;
        proof {
            assert(p_dv.take(k as int).drop_last() =~= p_dv.take(k as int - 1));
            assert(p_dv.take(k as int).last() == path_elems@[k - 1]@);
            assert(paths.deep_view() =~= p_dv.take(k as int).filter_map(path_record_fn()));
        }
    }
    proof {
        assert(p_dv.take(p_dv.len() as int) =~= p_dv);
    }
    let ghost after_paths = paths.deep_view();

    let circle_elems = find_all_circles(svg_content);
    let ghost c_dv = circle_elems.deep_view();
    let mut k: usize = 0;
    while k < circle_elems.len()
        invariant
            c_dv == circle_elems.deep_view(),
            k <= circle_elems@.len(),
            c_dv.len() == circle_elems@.len(),
            paths.deep_view() == after_paths + c_dv.take(k as int).filter_map(circle_record_fn()),
        decreases circle_elems@.len() - k,
    {
        let ghost before = paths.deep_view();
        let got = circle_record(circle_elems[k].as_str());
        let ghost gv = got.deep_view();
        let pushed = match got {
            Some(p) => {
                paths.push(p);
                true
            }
            None => false,
        };
        k += 1;
        proof {
            assert(c_dv.take(k as int).drop_last() =~= c_dv.take(k as int - 1));
            assert(c_dv.take(k as int).last() == circle_elems@[k - 1]@);
            if pushed {
                assert(paths.deep_view() =~= before.push(gv->Some_0));
            } else {
                assert(paths.deep_view() == before);
            }
            assert(paths.deep_view() =~= after_paths + c_dv.take(k as int).filter_map(
                circle_record_fn(),
            ));
        }
    }
    proof {
        assert(c_dv.take(c_dv.len() as int) =~= c_dv);
    }
    let ghost after_circles = paths.deep_view();

    let rect_elems = find_all_rects(svg_content);
    let ghost r_dv = rect_elems.deep_view();
    let mut k: usize = 0;
    while k < rect_elems.len()
        invariant
            r_dv == rect_elems.deep_view(),
            k <= rect_elems@.len(),
            r_dv.len() == rect_elems@.len(),
            paths.deep_view() == after_circles + r_dv.take(k as int).filter_map(rect_record_fn()),
        decreases rect_elems@.len() - k,
    {
        let ghost before = paths.deep_view();
        let got = rect_record(rect_elems[k].as_str());
        let ghost gv = got.deep_view();
        let pushed = match got {
            Some(p) => {
                paths.push(p);
                true
            }
            None => false,
        };
        k += 1;
        proof {
            assert(r_dv.take(k as int).drop_last() =~= r_dv.take(k as int - 1));
            assert(r_dv.take(k as int).last() == rect_elems@[k - 1]@);
            if pushed {
                assert(paths.deep_view() =~= before.push(gv->Some_0));
            } else {
                assert(paths.deep_view() == before);
            }
            assert(paths.deep_view() =~= after_circles + r_dv.take(k as int).filter_map(
                rect_record_fn(),
            ));
        }
    }
    proof {
        assert(r_dv.take(r_dv.len() as int) =~= r_dv);
    }
    let ghost after_rects = paths.deep_view();

    let polygon_elems = find_all_polygons(svg_content);
    let ghost g_dv = polygon_elems.deep_view();
    let mut k: usize = 0;
    while k < polygon_elems.len()
        invariant
            g_dv == polygon_elems.deep_view(),
            k <= polygon_elems@.len(),
            g_dv.len() == polygon_elems@.len(),
            paths.deep_view() == after_rects + g_dv.take(k as int).filter_map(
                polygon_record_fn(),
            ),
        decreases polygon_elems@.len() - k,
    {
        let ghost before = paths.deep_view();
        let got = polygon_record(polygon_elems[k].as_str());
        let ghost gv = got.deep_view();
        let pushed = match got {
            Some(p) => {
                paths.push(p);
                true
            }
            None => false,
        };
        k += 1;
        proof {
            assert(g_dv.take(k as int).drop_last() =~= g_dv.take(k as int - 1));
            assert(g_dv.take(k as int).last() == polygon_elems@[k - 1]@);
            if pushed {
                assert(paths.deep_view() =~= before.push(gv->Some_0));
            } else {
                assert(paths.deep_view() == before);
            }
            assert(paths.deep_view() =~= after_rects + g_dv.take(k as int).filter_map(
                polygon_record_fn(),
            ));
        }
    }
    proof {
        assert(g_dv.take(g_dv.len() as int) =~= g_dv);
    }

    let result = ParsedSvg { width, height, view_box: vb, paths };
    proof {
        assert(result@.paths =~= spec_all_path_records(text));
        assert(result@ == spec_parse_svg_content(text));
    }
    result
}

} // verus!
