//! The outline file of the logo.
//!
//! The file is text, read line by line. A line that begins with `v` gives a
//! vertex: its second and its fourth word are the two coordinates that the
//! logo uses. A line that begins with `f` gives a triangle: its second,
//! third and fourth word are the numbers of three vertices given before,
//! counted from one. Every other line is skipped. Words are separated by
//! blanks.
//!
//! A coordinate is a decimal numeral: an optional sign, digits with or
//! without a point among them, and optionally an exponent, which is the
//! letter `e` or `E`, an optional sign and digits. The exponent moves the
//! point by as many places. The numeral is read into fixed point and
//! rounded toward zero. One part in 256 has eight decimal digits, so the
//! eight digits after the point decide the rounding, and later ones are
//! not looked at. In place of a numeral a coordinate may be `inf` or
//! `infinity`, which is read as the end of the scalar's range, or `nan`,
//! which is read as zero; these too may have a sign, and the case of
//! letters does not matter.

use vstd::prelude::*;
use crate::drawables::{ColorPalette, Triangle, Vec2};
use crate::fixed::saturate;

verus! {

/// Whether a byte separates words.
pub open spec fn is_blank(b: u8) -> bool {
    b == 32 || (9 <= b <= 13)
}

/// Whether a byte is a decimal digit.
pub open spec fn is_digit(b: u8) -> bool {
    48 <= b <= 57
}

/// The end of the line that holds position `i`: the place of the next line
/// feed at or after `i`, or `end`.
pub open spec fn line_end(s: Seq<u8>, i: int, end: int) -> int
    decreases end - i,
{
    if i >= end || s[i] == 10 {
        i
    } else {
        line_end(s, i + 1, end)
    }
}

/// A line ends at or after the place where it is looked for, and within
/// the text.
pub proof fn lemma_line_end_bounds(s: Seq<u8>, i: int, end: int)
    ensures
        i <= line_end(s, i, end),
        i <= end ==> line_end(s, i, end) <= end,
        line_end(s, i, end) < end ==> s[line_end(s, i, end)] == 10,
        forall|k: int| i <= k < line_end(s, i, end) ==> s[k] != 10,
    decreases end - i,
{
    if i < end && s[i] != 10 {
        lemma_line_end_bounds(s, i + 1, end);
    }
}

/// The end of the word that holds position `i`: the place of the next
/// blank at or after `i`, or `end`.
pub open spec fn word_end(s: Seq<u8>, i: int, end: int) -> int
    decreases end - i,
{
    if i >= end || is_blank(s[i]) {
        i
    } else {
        word_end(s, i + 1, end)
    }
}

/// The start of the next word at or after `i`: the place of the next byte
/// that is no blank, or `end`.
pub open spec fn word_start(s: Seq<u8>, i: int, end: int) -> int
    decreases end - i,
{
    if i >= end || !is_blank(s[i]) {
        i
    } else {
        word_start(s, i + 1, end)
    }
}

/// The place of word number `n`, counted from zero, among the words at or
/// after `i`: its start and its end, or `None` where there are fewer words.
pub open spec fn nth_word(s: Seq<u8>, i: int, end: int, n: nat) -> Option<(int, int)>
    decreases n,
{
    let start = word_start(s, i, end);
    if start >= end {
        None
    } else if n == 0 {
        Some((start, word_end(s, start, end)))
    } else {
        nth_word(s, word_end(s, start, end), end, (n - 1) as nat)
    }
}

/// The end of the digits that begin at `i`: the place of the next byte
/// that is no digit, or `end`.
pub open spec fn digits_end(s: Seq<u8>, i: int, end: int) -> int
    decreases end - i,
{
    if i >= end || !is_digit(s[i]) {
        i
    } else {
        digits_end(s, i + 1, end)
    }
}

/// The number that the digits from `start` up to `end` write.
pub open spec fn digits_value(s: Seq<u8>, start: int, end: int) -> int
    decreases end - start,
{
    if end <= start {
        0
    } else {
        digits_value(s, start, end - 1) * 10 + (s[end - 1] - 48)
    }
}

/// Ten to the power `n`, for `n` up to eight.
pub open spec fn pow10(n: int) -> int {
    if n <= 0 {
        1
    } else if n == 1 {
        10
    } else if n == 2 {
        100
    } else if n == 3 {
        1000
    } else if n == 4 {
        10000
    } else if n == 5 {
        100000
    } else if n == 6 {
        1000000
    } else if n == 7 {
        10000000
    } else {
        100000000
    }
}

/// The digit at place `p` of a numeral, counted from its first digit. The
/// digits before the point run from `first` up to `point`; `fraction`
/// digits follow the point. A place before the first digit or after the
/// last holds a zero.
pub open spec fn digit_at(s: Seq<u8>, first: int, point: int, fraction: int, p: int) -> int {
    if 0 <= p < point - first {
        s[first + p] - 48
    } else if point - first <= p < point - first + fraction {
        s[point + 1 + (p - (point - first))] - 48
    } else {
        0
    }
}

/// The number that the digits at the places from `from` up to `to` write.
pub open spec fn places_value(
    s: Seq<u8>,
    first: int,
    point: int,
    fraction: int,
    from: int,
    to: int,
) -> int
    decreases to - from,
{
    if to <= from {
        0
    } else {
        places_value(s, first, point, fraction, from, to - 1) * 10 + digit_at(
            s,
            first,
            point,
            fraction,
            to - 1,
        )
    }
}

/// The fixed-point scalar of a sign, a whole part and a fraction in
/// hundred-millionths: rounded toward zero, and stopped at the ends of the
/// scalar's range.
pub open spec fn scalar_of(negative: bool, whole: int, fraction: int) -> int {
    let magnitude = ((whole * 100000000 + fraction) * 256) / 100000000;
    saturate(if negative { -magnitude } else { magnitude })
}

/// The number of places by which the exponent from `start` up to `end`
/// moves the point: zero where there is no exponent, and `None` where what
/// stands there is no exponent.
pub open spec fn exponent_value(s: Seq<u8>, start: int, end: int) -> Option<int> {
    if start >= end {
        Some(0)
    } else if s[start] != 101 && s[start] != 69 {
        None
    } else {
        let signed = start + 1 < end && (s[start + 1] == 45 || s[start + 1] == 43);
        let first = if signed { start + 2 } else { start + 1 };
        if first < end && digits_end(s, first, end) == end {
            if signed && s[start + 1] == 45 {
                Some(-digits_value(s, first, end))
            } else {
                Some(digits_value(s, first, end))
            }
        } else {
            None
        }
    }
}

/// The lower-case form of a capital letter; every other byte as it is.
pub open spec fn lower(b: u8) -> u8 {
    if 65 <= b <= 90 {
        (b + 32) as u8
    } else {
        b
    }
}

/// Whether the bytes from `start` up to `end` spell `inf`.
pub open spec fn spells_inf(s: Seq<u8>, start: int, end: int) -> bool {
    &&& end - start == 3
    &&& lower(s[start]) == 105
    &&& lower(s[start + 1]) == 110
    &&& lower(s[start + 2]) == 102
}

/// Whether the bytes from `start` up to `end` spell `infinity`.
pub open spec fn spells_infinity(s: Seq<u8>, start: int, end: int) -> bool {
    &&& end - start == 8
    &&& spells_inf(s, start, start + 3)
    &&& lower(s[start + 3]) == 105
    &&& lower(s[start + 4]) == 110
    &&& lower(s[start + 5]) == 105
    &&& lower(s[start + 6]) == 116
    &&& lower(s[start + 7]) == 121
}

/// Whether the bytes from `start` up to `end` spell `nan`.
pub open spec fn spells_nan(s: Seq<u8>, start: int, end: int) -> bool {
    &&& end - start == 3
    &&& lower(s[start]) == 110
    &&& lower(s[start + 1]) == 97
    &&& lower(s[start + 2]) == 110
}

/// The scalar that the numeral from `first` up to `end` writes, with the
/// sign given, or `None` where what stands there is no numeral. The whole
/// part is what the digits before the point write once the exponent has
/// moved the point; the fraction is what the eight digits after it write.
pub open spec fn numeral_value(s: Seq<u8>, negative: bool, first: int, end: int) -> Option<int> {
    let point = digits_end(s, first, end);
    let pointed = point < end && s[point] == 46;
    let stop = if pointed { digits_end(s, point + 1, end) } else { point };
    let fraction = if pointed { stop - point - 1 } else { 0 };
    if point - first + fraction < 1 {
        None
    } else {
        match exponent_value(s, stop, end) {
            None => None,
            Some(exponent) => {
                let moved = point - first + exponent;
                Some(
                    scalar_of(
                        negative,
                        places_value(s, first, point, fraction, 0, moved),
                        places_value(s, first, point, fraction, moved, moved + 8),
                    ),
                )
            },
        }
    }
}

/// The scalar that the word from `start` up to `end` writes, or `None`
/// where the word is no coordinate: a sign, if there is one, and then
/// `inf`, `infinity`, `nan` or a numeral.
pub open spec fn scalar_value(s: Seq<u8>, start: int, end: int) -> Option<int> {
    if start >= end {
        None
    } else {
        let negative = s[start] == 45;
        let first = if s[start] == 45 || s[start] == 43 { start + 1 } else { start };
        if spells_inf(s, first, end) || spells_infinity(s, first, end) {
            Some(if negative { i32::MIN as int } else { i32::MAX as int })
        } else if spells_nan(s, first, end) {
            Some(0)
        } else {
            numeral_value(s, negative, first, end)
        }
    }
}

/// The vertex number that the word from `start` up to `end` writes, or
/// `None` where the word is no numeral without sign or with a plus sign, or
/// writes no number from one to `count`.
pub open spec fn index_value(s: Seq<u8>, start: int, end: int, count: int) -> Option<int> {
    if start >= end {
        None
    } else {
        let first = if s[start] == 43 { start + 1 } else { start };
        if first < end && digits_end(s, first, end) == end && 1 <= digits_value(s, first, end)
            <= count && digits_value(s, first, end) <= 32767 {
            Some(digits_value(s, first, end))
        } else {
            None
        }
    }
}

/// What has been read of a file: the vertices and the triangles.
pub struct Outline {
    pub vertices: Seq<Vec2>,
    pub triangles: Seq<Triangle>,
}

/// The triangle between three points, black and without a colour family
/// of its own.
pub open spec fn face(a: Vec2, b: Vec2, c: Vec2) -> Triangle {
    Triangle { points: [a, b, c], colors: [0i32, 0i32, 0i32], color_palette: ColorPalette::Custom }
}

/// The outline after the line from `start` up to `end` was read, or
/// `None` where the line gives a vertex or a triangle and is malformed.
pub open spec fn read_line(outline: Outline, s: Seq<u8>, start: int, end: int) -> Option<Outline> {
    if start < end && s[start] == 118 {
        match (nth_word(s, start, end, 1), nth_word(s, start, end, 3)) {
            (Some(x), Some(y)) => match (scalar_value(s, x.0, x.1), scalar_value(s, y.0, y.1)) {
                (Some(vx), Some(vy)) => Some(
                    Outline {
                        vertices: outline.vertices.push((vx as i32, vy as i32)),
                        triangles: outline.triangles,
                    },
                ),
                _ => None,
            },
            _ => None,
        }
    } else if start < end && s[start] == 102 {
        let count = outline.vertices.len() as int;
        match (nth_word(s, start, end, 1), nth_word(s, start, end, 2), nth_word(s, start, end, 3)) {
            (Some(a), Some(b), Some(c)) => match (
                index_value(s, a.0, a.1, count),
                index_value(s, b.0, b.1, count),
                index_value(s, c.0, c.1, count),
            ) {
                (Some(ia), Some(ib), Some(ic)) => Some(
                    Outline {
                        vertices: outline.vertices,
                        triangles: outline.triangles.push(
                            face(
                                outline.vertices[ia - 1],
                                outline.vertices[ib - 1],
                                outline.vertices[ic - 1],
                            ),
                        ),
                    },
                ),
                _ => None,
            },
            _ => None,
        }
    } else {
        Some(outline)
    }
}

/// The outline after the lines from position `i` on were read, or `None`
/// where one of them is malformed.
pub open spec fn read_lines(outline: Outline, s: Seq<u8>, i: int) -> Option<Outline>
    decreases s.len() + 1 - i,
{
    if i >= s.len() {
        Some(outline)
    } else {
        proof {
            lemma_line_end_bounds(s, i, s.len() as int);
        }
        match read_line(outline, s, i, line_end(s, i, s.len() as int)) {
            None => None,
            Some(next) => read_lines(next, s, line_end(s, i, s.len() as int) + 1),
        }
    }
}

/// The triangles that a file gives, or `None` where a line of it is
/// malformed.
pub open spec fn logo_of(s: Seq<u8>) -> Option<Seq<Triangle>> {
    match read_lines(Outline { vertices: Seq::empty(), triangles: Seq::empty() }, s, 0) {
        None => None,
        Some(outline) => Some(outline.triangles),
    }
}

/// Finds the end of the line that holds position `i`.
fn find_line_end(s: &Vec<u8>, i: usize) -> (end: usize)
    requires
        i <= s.len(),
    ensures
        end == line_end(s@, i as int, s.len() as int),
        i <= end <= s.len(),
{
    let mut j: usize = i;
    while j < s.len() && s[j] != 10
        invariant
            i <= j <= s.len(),
            line_end(s@, i as int, s.len() as int) == line_end(s@, j as int, s.len() as int),
        decreases s.len() - j,
    {
        j = j + 1;
    }
    j
}

/// Tells whether a byte separates words.
fn blank(b: u8) -> (r: bool)
    ensures
        r == is_blank(b),
{
    b == 32 || (9 <= b && b <= 13)
}

/// Tells whether a byte is a decimal digit.
fn digit(b: u8) -> (r: bool)
    ensures
        r == is_digit(b),
{
    48 <= b && b <= 57
}

/// Finds the start of the next word at or after `i`.
fn find_word_start(s: &Vec<u8>, i: usize, end: usize) -> (start: usize)
    requires
        i <= end <= s.len(),
    ensures
        start == word_start(s@, i as int, end as int),
        i <= start <= end,
{
    let mut j: usize = i;
    while j < end && blank(s[j])
        invariant
            i <= j <= end <= s.len(),
            word_start(s@, i as int, end as int) == word_start(s@, j as int, end as int),
        decreases end - j,
    {
        j = j + 1;
    }
    j
}

/// Finds the end of the word that holds position `i`.
fn find_word_end(s: &Vec<u8>, i: usize, end: usize) -> (stop: usize)
    requires
        i <= end <= s.len(),
    ensures
        stop == word_end(s@, i as int, end as int),
        i <= stop <= end,
{
    let mut j: usize = i;
    while j < end && !blank(s[j])
        invariant
            i <= j <= end <= s.len(),
            word_end(s@, i as int, end as int) == word_end(s@, j as int, end as int),
        decreases end - j,
    {
        j = j + 1;
    }
    j
}

/// Finds word number `n`, counted from zero, among the words at or after
/// `i`.
fn find_word(s: &Vec<u8>, i: usize, end: usize, n: usize) -> (word: Option<(usize, usize)>)
    requires
        i <= end <= s.len(),
    ensures
        word is None <==> nth_word(s@, i as int, end as int, n as nat) is None,
        word matches Some(w) ==> nth_word(s@, i as int, end as int, n as nat) == Some(
            (w.0 as int, w.1 as int),
        ) && i <= w.0 <= w.1 <= end,
{
    let mut pos: usize = i;
    let mut left: usize = n;
    loop
        invariant
            i <= pos <= end <= s.len(),
            nth_word(s@, i as int, end as int, n as nat) == nth_word(
                s@,
                pos as int,
                end as int,
                left as nat,
            ),
        decreases left,
    {
        let start: usize = find_word_start(s, pos, end);
        if start >= end {
            return None;
        }
        let stop: usize = find_word_end(s, start, end);
        if left == 0 {
            return Some((start, stop));
        }
        pos = stop;
        left = left - 1;
    }
}

/// Finds the end of the digits that begin at `i`.
fn find_digits_end(s: &Vec<u8>, i: usize, end: usize) -> (stop: usize)
    requires
        i <= end <= s.len(),
    ensures
        stop == digits_end(s@, i as int, end as int),
        i <= stop <= end,
        forall|k: int| i <= k < stop ==> is_digit(#[trigger] s@[k]),
{
    let mut j: usize = i;
    while j < end && digit(s[j])
        invariant
            i <= j <= end <= s.len(),
            digits_end(s@, i as int, end as int) == digits_end(s@, j as int, end as int),
            forall|k: int| i <= k < j ==> is_digit(#[trigger] s@[k]),
        decreases end - j,
    {
        j = j + 1;
    }
    j
}

/// Reads the number that the digits from `start` up to `end` write, but no
/// more than `cap`.
fn read_digits(s: &Vec<u8>, start: usize, end: usize, cap: u128) -> (value: u128)
    requires
        start <= end <= s.len(),
        cap <= 0x1_0000_0000_0000_0000_0000_0000,
        forall|k: int| start <= k < end ==> is_digit(#[trigger] s@[k]),
    ensures
        0 <= digits_value(s@, start as int, end as int),
        value == if digits_value(s@, start as int, end as int) < cap {
            digits_value(s@, start as int, end as int)
        } else {
            cap as int
        },
{
    let mut value: u128 = 0;
    let mut j: usize = start;
    while j < end
        invariant
            start <= j <= end <= s.len(),
            cap <= 0x1_0000_0000_0000_0000_0000_0000,
            forall|k: int| start <= k < end ==> is_digit(#[trigger] s@[k]),
            0 <= digits_value(s@, start as int, j as int),
            value == if digits_value(s@, start as int, j as int) < cap {
                digits_value(s@, start as int, j as int)
            } else {
                cap as int
            },
        decreases end - j,
    {
        assert(is_digit(s@[j as int]));
        let next: u128 = value * 10 + (s[j] - 48) as u128;
        value = if next < cap {
            next
        } else {
            cap
        };
        j = j + 1;
    }
    value
}

/// Whether the digits of a numeral stand where they are said to stand:
/// digits from `first` up to `point`, and `fraction` digits after the byte
/// at `point`.
pub open spec fn is_numeral(s: Seq<u8>, first: int, point: int, fraction: int) -> bool {
    &&& 0 <= first <= point <= s.len()
    &&& 0 <= fraction
    &&& fraction > 0 ==> point + 1 + fraction <= s.len()
    &&& forall|k: int| first <= k < point ==> is_digit(#[trigger] s[k])
    &&& forall|k: int| point + 1 <= k < point + 1 + fraction ==> is_digit(#[trigger] s[k])
}

/// The digits at up to eight places write a number below the matching
/// power of ten.
proof fn lemma_places_bound(s: Seq<u8>, first: int, point: int, fraction: int, from: int, to: int)
    requires
        is_numeral(s, first, point, fraction),
        from <= to <= from + 8,
    ensures
        0 <= places_value(s, first, point, fraction, from, to) < pow10(to - from),
    decreases to - from,
{
    if to > from {
        lemma_places_bound(s, first, point, fraction, from, to - 1);
        let p = to - 1;
        if 0 <= p < point - first {
            assert(is_digit(s[first + p]));
        } else if point - first <= p < point - first + fraction {
            assert(is_digit(s[point + 1 + (p - (point - first))]));
        }
    }
}

/// Places that hold no digit write nothing.
proof fn lemma_empty_places(s: Seq<u8>, first: int, point: int, fraction: int, from: int, to: int)
    requires
        first <= point,
        fraction >= 0,
        to <= 0 || from >= point - first + fraction,
    ensures
        places_value(s, first, point, fraction, from, to) == 0,
    decreases to - from,
{
    if to > from {
        lemma_empty_places(s, first, point, fraction, from, to - 1);
    }
}

/// Zeros after the last digit: the number that the places up to `to`
/// write, `to` being `pad` places past the last digit, is nothing where the
/// digits write nothing, and else at least ten to the power `pad`.
proof fn lemma_padded_places(s: Seq<u8>, first: int, point: int, fraction: int, pad: int)
    requires
        is_numeral(s, first, point, fraction),
        pad >= 0,
    ensures
        ({
            let count = point - first + fraction;
            let digits = places_value(s, first, point, fraction, 0, count);
            let padded = places_value(s, first, point, fraction, 0, count + pad);
            &&& digits >= 0
            &&& digits == 0 ==> padded == 0
            &&& digits >= 1 ==> padded >= pow10(pad)
        }),
    decreases pad,
{
    let count = point - first + fraction;
    if pad > 0 {
        lemma_padded_places(s, first, point, fraction, pad - 1);
    } else {
        lemma_whole_places(s, first, point, fraction, count);
    }
}

/// The places from the first write no negative number.
proof fn lemma_whole_places(s: Seq<u8>, first: int, point: int, fraction: int, to: int)
    requires
        is_numeral(s, first, point, fraction),
    ensures
        places_value(s, first, point, fraction, 0, to) >= 0,
    decreases to,
{
    if to > 0 {
        lemma_whole_places(s, first, point, fraction, to - 1);
        let p = to - 1;
        if 0 <= p < point - first {
            assert(is_digit(s[first + p]));
        } else if point - first <= p < point - first + fraction {
            assert(is_digit(s[point + 1 + (p - (point - first))]));
        }
    }
}

/// Reads the digit at place `p` of a numeral.
fn read_digit(s: &Vec<u8>, first: usize, point: usize, fraction: usize, p: i128) -> (d: u8)
    requires
        is_numeral(s@, first as int, point as int, fraction as int),
    ensures
        d == digit_at(s@, first as int, point as int, fraction as int, p as int),
        d <= 9,
{
    let whole: usize = point - first;
    if 0 <= p && p < whole as i128 {
        let k: usize = first + p as usize;
        assert(is_digit(s@[k as int]));
        s[k] - 48
    } else if whole as i128 <= p && p - (whole as i128) < fraction as i128 {
        assert(fraction > 0 && point + 1 + fraction <= s.len());
        let k: usize = point + 1 + (p - whole as i128) as usize;
        assert(is_digit(s@[k as int]));
        s[k] - 48
    } else {
        0
    }
}

/// Reads the number that the digits at the places from `from` up to `to`
/// write, but no more than `cap`.
fn read_places(
    s: &Vec<u8>,
    first: usize,
    point: usize,
    fraction: usize,
    from: i128,
    to: i128,
    cap: u64,
) -> (value: u64)
    requires
        is_numeral(s@, first as int, point as int, fraction as int),
        cap <= 0xffff_ffff_ffff,
        -0x1_0000_0000_0000_0000_0000_0000 <= from,
        to <= 0x1_0000_0000_0000_0000_0000_0000,
    ensures
        ({
            let exact = places_value(
                s@,
                first as int,
                point as int,
                fraction as int,
                from as int,
                to as int,
            );
            &&& exact >= 0
            &&& value == if exact < cap {
                exact
            } else {
                cap as int
            }
        }),
{
    let mut value: u64 = 0;
    let mut p: i128 = from;
    while p < to
        invariant
            is_numeral(s@, first as int, point as int, fraction as int),
            cap <= 0xffff_ffff_ffff,
            -0x1_0000_0000_0000_0000_0000_0000 <= from,
            to <= 0x1_0000_0000_0000_0000_0000_0000,
            from <= p,
            p <= to || to < from,
            to < from ==> p == from,
            ({
                let exact = places_value(
                    s@,
                    first as int,
                    point as int,
                    fraction as int,
                    from as int,
                    p as int,
                );
                &&& exact >= 0
                &&& value == if exact < cap {
                    exact
                } else {
                    cap as int
                }
            }),
        decreases to - p,
    {
        let d: u8 = read_digit(s, first, point, fraction, p);
        let next: u64 = value * 10 + d as u64;
        value = if next < cap {
            next
        } else {
            cap
        };
        p = p + 1;
    }
    value
}

/// Reads the exponent from `start` up to `end`: whether it is negative, and
/// its size, but no more than two to the power seventy. Without an
/// exponent the size is zero.
fn read_exponent(s: &Vec<u8>, start: usize, end: usize) -> (exponent: Option<(bool, u128)>)
    requires
        start <= end <= s.len(),
    ensures
        exponent is None <==> exponent_value(s@, start as int, end as int) is None,
        exponent matches Some((negative, size)) ==> ({
            let exact = exponent_value(s@, start as int, end as int)->0;
            let exact_size = if negative { -exact } else { exact };
            &&& exact_size >= 0
            &&& negative ==> exact <= 0
            &&& size == if exact_size < 0x40_0000_0000_0000_0000 {
                exact_size
            } else {
                0x40_0000_0000_0000_0000
            }
        }),
{
    if start >= end {
        return Some((false, 0));
    }
    if s[start] != 101 && s[start] != 69 {
        return None;
    }
    let signed: bool = start + 1 < end && (s[start + 1] == 45 || s[start + 1] == 43);
    let negative: bool = signed && s[start + 1] == 45;
    let first: usize = if signed {
        start + 2
    } else {
        start + 1
    };
    if first >= end {
        return None;
    }
    let stop: usize = find_digits_end(s, first, end);
    if stop != end {
        return None;
    }
    let size: u128 = read_digits(s, first, end, 0x40_0000_0000_0000_0000);
    Some((negative, size))
}

/// Reads the whole part and the fraction of a numeral whose point an
/// exponent moves: the whole part, but no more than ten million, and the
/// fraction in hundred-millionths. The exponent is given by its direction
/// and its size, the size being no more than two to the power seventy.
fn read_parts(
    s: &Vec<u8>,
    first: usize,
    point: usize,
    fraction: usize,
    shrinks: bool,
    size: u128,
    Ghost(exponent): Ghost<int>,
) -> (parts: (u64, u64))
    requires
        is_numeral(s@, first as int, point as int, fraction as int),
        shrinks ==> exponent <= 0,
        !shrinks ==> exponent >= 0,
        size == if (if shrinks { -exponent } else { exponent }) < 0x40_0000_0000_0000_0000 {
            if shrinks { -exponent } else { exponent }
        } else {
            0x40_0000_0000_0000_0000
        },
    ensures
        ({
            let moved = point - first + exponent;
            let whole = places_value(s@, first as int, point as int, fraction as int, 0, moved);
            let part = places_value(
                s@,
                first as int,
                point as int,
                fraction as int,
                moved,
                moved + 8,
            );
            &&& whole >= 0
            &&& parts.0 == if whole < 10000000 {
                whole
            } else {
                10000000
            }
            &&& parts.1 == part
            &&& 0 <= part < 100000000
        }),
{
    let count: i128 = (point - first) as i128 + fraction as i128;
    let moved: i128 = if shrinks {
        (point - first) as i128 - size as i128
    } else {
        (point - first) as i128 + size as i128
    };
    let ghost exact_moved = point - first + exponent;
    if moved >= count + 8 {
        // The point has moved past the last digit by eight places or more.
        assert(exact_moved >= moved);
        let digits: u64 = read_places(s, first, point, fraction, 0, count, 10000000);
        proof {
            lemma_padded_places(
                s@,
                first as int,
                point as int,
                fraction as int,
                exact_moved - count,
            );
            lemma_empty_places(
                s@,
                first as int,
                point as int,
                fraction as int,
                exact_moved,
                exact_moved + 8,
            );
            assert(pow10(exact_moved - count) == 100000000);
        }
        if digits == 0 {
            (0, 0)
        } else {
            (10000000, 0)
        }
    } else if moved <= -8 {
        // The point has moved before the first digit by eight places or more.
        assert(exact_moved <= moved);
        proof {
            lemma_empty_places(s@, first as int, point as int, fraction as int, 0, exact_moved);
            lemma_empty_places(
                s@,
                first as int,
                point as int,
                fraction as int,
                exact_moved,
                exact_moved + 8,
            );
        }
        (0, 0)
    } else {
        assert(size < 0x40_0000_0000_0000_0000);
        assert(moved == exact_moved);
        proof {
            lemma_places_bound(
                s@,
                first as int,
                point as int,
                fraction as int,
                moved as int,
                moved + 8,
            );
        }
        let whole: u64 = read_places(s, first, point, fraction, 0, moved, 10000000);
        let part: u64 = read_places(s, first, point, fraction, moved, moved + 8, 100000000);
        (whole, part)
    }
}

/// Makes a scalar of a sign, a whole part that is exact below ten million,
/// and a fraction in hundred-millionths.
fn to_scalar(negative: bool, whole: u64, part: u64, Ghost(exact): Ghost<int>) -> (scalar: i32)
    requires
        exact >= 0,
        whole == if exact < 10000000 {
            exact
        } else {
            10000000
        },
        part < 100000000,
    ensures
        scalar == scalar_of(negative, exact, part as int),
{
    let magnitude: u64 = ((whole as u128 * 100000000 + part as u128) * 256 / 100000000) as u64;
    let ghost wanted = ((exact * 100000000 + part) * 256) / 100000000;
    assert(exact < 10000000 ==> magnitude == wanted);
    assert(exact >= 10000000 ==> magnitude >= 2560000000 && wanted >= 2560000000);
    if magnitude > 2147483648 {
        if negative {
            i32::MIN
        } else {
            i32::MAX
        }
    } else if negative {
        (0 - magnitude as i64) as i32
    } else if magnitude > 2147483647 {
        i32::MAX
    } else {
        magnitude as i32
    }
}

/// The lower-case form of a capital letter; every other byte as it is.
fn lowered(b: u8) -> (l: u8)
    ensures
        l == lower(b),
{
    if 65 <= b && b <= 90 {
        b + 32
    } else {
        b
    }
}

/// Tells whether the bytes from `start` up to `end` spell the three given
/// lower-case letters, whatever their case.
fn spells(s: &Vec<u8>, start: usize, end: usize, a: u8, b: u8, c: u8) -> (r: bool)
    requires
        start <= end <= s.len(),
    ensures
        r <==> end - start == 3 && lower(s@[start as int]) == a && lower(s@[start + 1]) == b
            && lower(s@[start + 2]) == c,
{
    end - start == 3 && lowered(s[start]) == a && lowered(s[start + 1]) == b && lowered(
        s[start + 2],
    ) == c
}

/// Reads the scalar that the numeral from `first` up to `end` writes, with
/// the sign given.
fn read_numeral(s: &Vec<u8>, negative: bool, first: usize, end: usize) -> (scalar: Option<i32>)
    requires
        first <= end <= s.len(),
    ensures
        scalar is None <==> numeral_value(s@, negative, first as int, end as int) is None,
        scalar matches Some(v) ==> numeral_value(s@, negative, first as int, end as int) == Some(
            v as int,
        ),
{
    let point: usize = find_digits_end(s, first, end);
    let pointed: bool = point < end && s[point] == 46;
    let stop: usize = if pointed {
        find_digits_end(s, point + 1, end)
    } else {
        point
    };
    let fraction: usize = if pointed {
        stop - point - 1
    } else {
        0
    };
    if point - first + fraction < 1 {
        return None;
    }
    let (shrinks, size) = match read_exponent(s, stop, end) {
        None => { return None; },
        Some(exponent) => exponent,
    };
    let ghost exponent = exponent_value(s@, stop as int, end as int)->0;
    let (whole, part) = read_parts(s, first, point, fraction, shrinks, size, Ghost(exponent));
    Some(
        to_scalar(
            negative,
            whole,
            part,
            Ghost(
                places_value(
                    s@,
                    first as int,
                    point as int,
                    fraction as int,
                    0,
                    point - first + exponent,
                ),
            ),
        ),
    )
}

/// Tells whether the bytes from `start` up to `end` spell `inf` or
/// `infinity`, whatever their case.
fn spells_endless(s: &Vec<u8>, start: usize, end: usize) -> (r: bool)
    requires
        start <= end <= s.len(),
    ensures
        r <==> spells_inf(s@, start as int, end as int) || spells_infinity(
            s@,
            start as int,
            end as int,
        ),
{
    if end - start == 3 {
        spells(s, start, end, 105, 110, 102)
    } else if end - start == 8 {
        spells(s, start, start + 3, 105, 110, 102) && spells(
            s,
            start + 3,
            start + 6,
            105,
            110,
            105,
        ) && lowered(s[start + 6]) == 116 && lowered(s[start + 7]) == 121
    } else {
        false
    }
}

/// Reads the scalar that the word from `start` up to `end` writes.
fn read_scalar(s: &Vec<u8>, start: usize, end: usize) -> (scalar: Option<i32>)
    requires
        start <= end <= s.len(),
    ensures
        scalar is None <==> scalar_value(s@, start as int, end as int) is None,
        scalar matches Some(v) ==> scalar_value(s@, start as int, end as int) == Some(v as int),
{
    if start >= end {
        return None;
    }
    let negative: bool = s[start] == 45;
    let first: usize = if s[start] == 45 || s[start] == 43 {
        start + 1
    } else {
        start
    };
    if spells_endless(s, first, end) {
        Some(if negative {
            i32::MIN
        } else {
            i32::MAX
        })
    } else if spells(s, first, end, 110, 97, 110) {
        Some(0)
    } else {
        read_numeral(s, negative, first, end)
    }
}

/// Reads the vertex number that the word from `start` up to `end` writes,
/// where `count` vertices are known.
fn read_index(s: &Vec<u8>, start: usize, end: usize, count: usize) -> (index: Option<usize>)
    requires
        start <= end <= s.len(),
    ensures
        index is None <==> index_value(s@, start as int, end as int, count as int) is None,
        index matches Some(i) ==> index_value(s@, start as int, end as int, count as int) == Some(
            i as int,
        ) && 1 <= i <= count,
{
    if start >= end {
        return None;
    }
    let first: usize = if s[start] == 43 {
        start + 1
    } else {
        start
    };
    if first >= end {
        return None;
    }
    let stop: usize = find_digits_end(s, first, end);
    if stop != end {
        return None;
    }
    let value: u128 = read_digits(s, first, end, 32768);
    if 1 <= value && value <= 32767 && value as usize <= count {
        Some(value as usize)
    } else {
        None
    }
}

/// Reads the line from `start` up to `end` into the vertices and the
/// triangles. Returns whether the line was well formed; a malformed line
/// changes nothing.
fn load_line(
    vertices: &mut Vec<Vec2>,
    triangles: &mut Vec<Triangle>,
    s: &Vec<u8>,
    start: usize,
    end: usize,
) -> (ok: bool)
    requires
        start <= end <= s.len(),
    ensures
        ok <==> read_line(
            Outline { vertices: old(vertices)@, triangles: old(triangles)@ },
            s@,
            start as int,
            end as int,
        ) is Some,
        ok ==> read_line(
            Outline { vertices: old(vertices)@, triangles: old(triangles)@ },
            s@,
            start as int,
            end as int,
        ) == Some(Outline { vertices: final(vertices)@, triangles: final(triangles)@ }),
        !ok ==> final(vertices)@ == old(vertices)@ && final(triangles)@ == old(triangles)@,
{
    if start < end && s[start] == 118 {
        let x: (usize, usize) = match find_word(s, start, end, 1) {
            Some(word) => word,
            None => { return false; },
        };
        let y: (usize, usize) = match find_word(s, start, end, 3) {
            Some(word) => word,
            None => { return false; },
        };
        let vx: i32 = match read_scalar(s, x.0, x.1) {
            Some(v) => v,
            None => { return false; },
        };
        let vy: i32 = match read_scalar(s, y.0, y.1) {
            Some(v) => v,
            None => { return false; },
        };
        vertices.push((vx, vy));
        true
    } else if start < end && s[start] == 102 {
        let a: (usize, usize) = match find_word(s, start, end, 1) {
            Some(word) => word,
            None => { return false; },
        };
        let b: (usize, usize) = match find_word(s, start, end, 2) {
            Some(word) => word,
            None => { return false; },
        };
        let c: (usize, usize) = match find_word(s, start, end, 3) {
            Some(word) => word,
            None => { return false; },
        };
        let count: usize = vertices.len();
        let ia: usize = match read_index(s, a.0, a.1, count) {
            Some(i) => i,
            None => { return false; },
        };
        let ib: usize = match read_index(s, b.0, b.1, count) {
            Some(i) => i,
            None => { return false; },
        };
        let ic: usize = match read_index(s, c.0, c.1, count) {
            Some(i) => i,
            None => { return false; },
        };
        triangles.push(
            Triangle {
                points: [vertices[ia - 1], vertices[ib - 1], vertices[ic - 1]],
                colors: [0, 0, 0],
                color_palette: ColorPalette::Custom,
            },
        );
        true
    } else {
        true
    }
}

/// Reads the triangles of the logo from the text of its outline file.
/// Returns `None` where a line that gives a vertex or a triangle is
/// malformed: where a word is missing, a coordinate is no decimal numeral,
/// or a vertex number names no vertex given before.
pub fn load_logo(text: &Vec<u8>) -> (logo: Option<Vec<Triangle>>)
    ensures
        logo is None <==> logo_of(text@) is None,
        logo matches Some(triangles) ==> logo_of(text@) == Some(triangles@),
{
    let mut vertices: Vec<Vec2> = Vec::new();
    let mut triangles: Vec<Triangle> = Vec::new();
    let ghost blank = Outline { vertices: Seq::empty(), triangles: Seq::empty() };
    let mut i: usize = 0;
    while i < text.len()
        invariant
            i <= text.len(),
            blank == (Outline { vertices: Seq::empty(), triangles: Seq::empty() }),
            read_lines(blank, text@, 0) == read_lines(
                Outline { vertices: vertices@, triangles: triangles@ },
                text@,
                i as int,
            ),
        decreases text.len() - i,
    {
        let ghost before = Outline { vertices: vertices@, triangles: triangles@ };
        let end: usize = find_line_end(text, i);
        let ok: bool = load_line(&mut vertices, &mut triangles, text, i, end);
        let ghost after = Outline { vertices: vertices@, triangles: triangles@ };
        assert(read_lines(before, text@, i as int) == match read_line(
            before,
            text@,
            i as int,
            end as int,
        ) {
            None => None,
            Some(next) => read_lines(next, text@, end + 1),
        });
        if !ok {
            return None;
        }
        if end >= text.len() {
            assert(read_lines(after, text@, end + 1) == Some(after));
            return Some(triangles);
        }
        i = end + 1;
    }
    Some(triangles)
}

} // verus!
