//! The sign-in window on the desktop: where it stands, and texts for its native calls.
use crate::text::chars_of;
use vstd::prelude::*;

verus! {

/// A rectangle on the screen. Coordinates are negative on some monitors.
#[derive(Clone, Copy, Debug, PartialEq, Eq, Structural)]
pub struct Rect {
    pub left: i32,
    pub top: i32,
    pub right: i32,
    pub bottom: i32,
}

/// Half of `n`, towards zero.
pub open spec fn half(n: int) -> int {
    if n >= 0 { n / 2 } else { -((-n) / 2) }
}

pub open spec fn clamped(n: int, low: int, high: int) -> int {
    if n < low { low } else if n > high { high } else { n }
}

/// The length of a side: at least one pixel and at most the room there is.
pub open spec fn fitted(wanted: int, room: int) -> int {
    let positive = if wanted < 1 { 1 } else { wanted };
    if positive > room { room } else { positive }
}

/// Where a span of `length` starts that is centred on `[from, to)` and stays in `[low, high)`.
pub open spec fn centred(from: int, to: int, low: int, high: int, length: int) -> int {
    clamped(half(from + to - length), low, high - length)
}

fn centre(from: i32, to: i32, low: i32, high: i32, wanted: i32) -> (span: (i32, i32))
    requires
        low < high,
    ensures
        span.0 == centred(from as int, to as int, low as int, high as int, fitted(wanted as int, high - low)),
        span.1 - span.0 == fitted(wanted as int, high - low),
        low <= span.0 && span.1 <= high,
{
    let room: i64 = high as i64 - low as i64;
    let positive: i64 = if wanted < 1 { 1 } else { wanted as i64 };
    let length: i64 = if positive > room { room } else { positive };
    let sum: i64 = from as i64 + to as i64 - length;
    let middle: i64 = if sum >= 0 { sum / 2 } else { -((-sum) / 2) };
    let last: i64 = high as i64 - length;
    let start: i64 = if middle < low as i64 { low as i64 } else if middle > last { last } else { middle };
    (start as i32, (start + length) as i32)
}

/// Whether this is the place of a popup.
pub open spec fn popup_at(place: Option<Rect>, owner: Rect, work: Rect, width: int, height: int) -> bool {
    &&& place is Some == (work.left < work.right && work.top < work.bottom)
    &&& match place {
        None => true,
        Some(rect) => {
            let wide = fitted(width, work.right - work.left);
            let high = fitted(height, work.bottom - work.top);
            &&& rect.left == centred(owner.left as int, owner.right as int, work.left as int, work.right as int, wide)
            &&& rect.top == centred(owner.top as int, owner.bottom as int, work.top as int, work.bottom as int, high)
            &&& rect.right == rect.left + wide
            &&& rect.bottom == rect.top + high
            &&& work.left <= rect.left && rect.right <= work.right
            &&& work.top <= rect.top && rect.bottom <= work.bottom
        },
    }
}

/// The place of a popup: centred on its owner, moved and shrunk to stay inside the work
/// area, if that has any room.
pub fn centered_popup(owner: Rect, work: Rect, width: i32, height: i32) -> (place: Option<Rect>)
    ensures
        popup_at(place, owner, work, width as int, height as int),
{
    if work.right <= work.left || work.bottom <= work.top {
        return None;
    }
    let (left, right) = centre(owner.left, owner.right, work.left, work.right, width);
    let (top, bottom) = centre(owner.top, owner.bottom, work.top, work.bottom, height);
    Some(Rect { left, top, right, bottom })
}

/// The code units of one character: itself, or a surrogate pair beyond the first plane.
pub open spec fn code_units(c: char) -> Seq<u16> {
    let v = c as u32;
    if v < 0x1_0000 {
        seq![v as u16]
    } else {
        seq![
            (0xD800 + (v - 0x1_0000) / 0x400) as u16,
            (0xDC00 + (v - 0x1_0000) % 0x400) as u16,
        ]
    }
}

/// The UTF-16 form of a text.
pub open spec fn utf16(text: Seq<char>) -> Seq<u16>
    decreases text.len(),
{
    if text.len() == 0 {
        Seq::empty()
    } else {
        utf16(text.drop_last()) + code_units(text.last())
    }
}

/// The text as UTF-16 with a zero behind it, as native calls take it.
pub fn wide(value: &str) -> (units: Vec<u16>)
    ensures
        units@ == utf16(value@).push(0),
{
    let chars = chars_of(value);
    let mut units: Vec<u16> = Vec::new();
    let mut i: usize = 0;
    while i < chars.len()
        invariant
            i <= chars.len(),
            chars@ == value@,
            units@ == utf16(value@.take(i as int)),
        decreases chars.len() - i,
    {
        let ghost front = units@;
        let c = chars[i];
        let v: u32 = c as u32;
        if v < 0x1_0000 {
            units.push(v as u16);
        } else {
            units.push((0xD800 + (v - 0x1_0000) / 0x400) as u16);
            units.push((0xDC00 + (v - 0x1_0000) % 0x400) as u16);
        }
        proof {
            assert(value@.take(i as int + 1).drop_last() =~= value@.take(i as int));
            assert(units@ =~= front + code_units(c));
        }
        i += 1;
    }
    assert(value@.take(value@.len() as int) =~= value@);
    units.push(0);
    units
}

/// The most cookies that one reading of the browser may bring.
pub const MAX_BROWSER_COOKIES: u32 = 256;

pub open spec fn countable(count: int) -> bool {
    count <= MAX_BROWSER_COOKIES
}

/// Whether a reading of this many cookies is taken at all.
pub fn accepts_cookie_count(count: u32) -> (accepts: bool)
    ensures
        accepts == countable(count as int),
{
    count <= MAX_BROWSER_COOKIES
}

pub open spec fn level_of(kind: i32) -> u8 {
    if 0 <= kind <= 255 { kind as u8 } else { 255 }
}

/// The level that a browser reports for a cookie, outside a byte as the highest one.
pub fn same_site_level(kind: i32) -> (level: u8)
    ensures
        level == level_of(kind),
{
    if 0 <= kind && kind <= 255 { kind as u8 } else { 255 }
}

pub open spec fn expiry_of(session: bool, expires: i64) -> Option<i64> {
    if session { None } else { Some(expires) }
}

/// The expiry that a browser reports for a cookie; a session cookie has none.
pub fn cookie_expiry(session: bool, expires: i64) -> (expiry: Option<i64>)
    ensures
        expiry == expiry_of(session, expires),
{
    if session { None } else { Some(expires) }
}

/// A popup that is no wider than its owner, on a work area that holds the owner, keeps its
/// size and stands in the owner's middle, to the pixel.
pub proof fn popups_stand_in_the_middle(from: int, to: int, low: int, high: int, wanted: int)
    requires
        low <= from,
        to <= high,
        1 <= wanted <= to - from,
    ensures
        fitted(wanted, high - low) == wanted,
        ({
            let start = centred(from, to, low, high, wanted);
            let margins = (start - from) - (to - (start + wanted));
            from <= start && start + wanted <= to && -1 <= margins <= 1
        }),
{
}

/// A popup stands on the work area, wherever its owner is, as wide and as high as wanted where there is
/// room; there is a place exactly where the work area has any.
pub proof fn popups_stay_on_the_work_area(place: Option<Rect>, owner: Rect, work: Rect, width: int, height: int)
    requires
        popup_at(place, owner, work, width, height),
    ensures
        place is Some <==> work.left < work.right && work.top < work.bottom,
        place is Some ==> {
            let rect = place->0;
            &&& work.left <= rect.left < rect.right <= work.right && work.top <= rect.top < rect.bottom <= work.bottom
            &&& 1 <= width <= work.right - work.left ==> rect.right - rect.left == width
            &&& 1 <= height <= work.bottom - work.top ==> rect.bottom - rect.top == height
            &&& width > work.right - work.left ==> rect.left == work.left && rect.right == work.right
            &&& height > work.bottom - work.top ==> rect.top == work.top && rect.bottom == work.bottom
            &&& owner.left <= owner.right && owner.right < work.left ==> rect.left == work.left
            &&& owner.left <= owner.right && owner.left > work.right ==> rect.right == work.right
            &&& work.left <= owner.left && owner.right <= work.right && 1 <= width <= owner.right - owner.left ==> -1 <= (
            rect.left - owner.left) - (owner.right - rect.right) <= 1
        },
{
}

/// A text's native form is that of its characters one after the other; a character of the first plane is
/// itself, and any other a pair of surrogates that stands for it.
pub proof fn characters_are_written_one_by_one(text: Seq<char>, c: char)
    ensures
        utf16(text.push(c)) == utf16(text) + code_units(c),
        utf16(Seq::empty()) == Seq::<u16>::empty(),
        c as u32 <= 0xFFFF ==> code_units(c).len() == 1 && code_units(c)[0] == c as u32,
        c as u32 > 0xFFFF ==> {
            let units = code_units(c);
            &&& units.len() == 2 && 0xD800 <= units[0] <= 0xDBFF && 0xDC00 <= units[1] <= 0xDFFF
            &&& (units[0] - 0xD800) * 0x400 + (units[1] - 0xDC00) + 0x1_0000 == c as u32
        },
{
    assert(text.push(c).drop_last() =~= text);
    let v = c as u32;
    if v > 0xFFFF {
        let offset = v - 0x1_0000;
        assert(v <= 0x10_FFFF);
        assert(offset / 0x400 <= 0x3FF && offset % 0x400 <= 0x3FF);
        assert(offset / 0x400 * 0x400 + offset % 0x400 == offset);
    }
}

/// Up to 256 cookies are read; a session cookie has no expiry and any other its own; a level that is none
/// of a cookie's stays one that no cookie has.
pub proof fn browser_cookies_are_read_as_they_are(count: int, kind: i32, expires: i64)
    ensures
        countable(count) <==> count <= 256,
        expiry_of(true, expires) is None && expiry_of(false, expires) == Some(expires),
        0 <= kind <= 2 ==> level_of(kind) == kind,
        kind < 0 || kind > 2 ==> level_of(kind) > 2,
{
}

/// Halves go towards zero, on either side of it.
pub proof fn halves_go_towards_zero(n: int)
    ensures
        n >= 0 ==> half(n) * 2 <= n < half(n) * 2 + 2,
        half(-n) == -half(n),
{
}

} // verus!
