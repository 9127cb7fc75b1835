//! The parts of the media child that floating areas of the app cover.
use crate::capture::Bounds;
use vstd::prelude::*;

verus! {

/// A rectangle inside the media child, in its own pixels.
#[derive(Clone, Copy, Debug, PartialEq, Eq, Structural)]
pub struct Cut {
    pub left: i32,
    pub top: i32,
    pub right: i32,
    pub bottom: i32,
}

/// The order of cuts: by left, then top, right and bottom side.
pub open spec fn cut_less(a: Cut, b: Cut) -> bool {
    a.left < b.left || (a.left == b.left && (a.top < b.top || (a.top == b.top && (a.right < b.right || (a.right
        == b.right && a.bottom < b.bottom)))))
}

fn comes_before(a: &Cut, b: &Cut) -> (before: bool)
    ensures
        before == cut_less(*a, *b),
{
    a.left < b.left || (a.left == b.left && (a.top < b.top || (a.top == b.top && (a.right < b.right || (a.right
        == b.right && a.bottom < b.bottom)))))
}

pub open spec fn ascending(cuts: Seq<Cut>) -> bool {
    forall|i: int, j: int| 0 <= i < j < cuts.len() ==> cut_less(#[trigger] cuts[i], #[trigger] cuts[j])
}

/// The same cuts, in order and each once.
pub open spec fn arranged(cuts: Seq<Cut>, areas: Seq<Cut>) -> bool {
    ascending(cuts) && forall|c: Cut| #[trigger] cuts.contains(c) <==> areas.contains(c)
}

/// Puts the covered areas in order and drops repeats.
pub fn arrange(areas: &Vec<Cut>) -> (cuts: Vec<Cut>)
    ensures
        arranged(cuts@, areas@),
{
    let mut cuts: Vec<Cut> = Vec::new();
    let mut n: usize = 0;
    while n < areas.len()
        invariant
            n <= areas.len(),
            arranged(cuts@, areas@.take(n as int)),
        decreases areas.len() - n,
    {
        let cut = areas[n];
        let ghost old_cuts = cuts@;
        let ghost front = areas@.take(n as int);
        let ghost longer = areas@.take(n as int + 1);
        assert(longer =~= front.push(cut));
        assert forall|c: Cut| longer.contains(c) == (front.contains(c) || c == cut) by {
            if front.contains(c) {
                let i = choose|i: int| 0 <= i < front.len() && front[i] == c;
                assert(longer[i] == c);
            }
            if c == cut {
                assert(longer[n as int] == c);
            }
        }
        let mut p: usize = 0;
        while p < cuts.len() && comes_before(&cuts[p], &cut)
            invariant
                p <= cuts.len(),
                cuts@ == old_cuts,
                forall|k: int| 0 <= k < p ==> cut_less(#[trigger] old_cuts[k], cut),
            decreases cuts.len() - p,
        {
            p += 1;
        }
        if p < cuts.len() && cuts[p] == cut {
            assert(front.contains(cut)) by {
                assert(old_cuts[p as int] == cut);
                assert(old_cuts.contains(cut));
            }
        } else {
            cuts.insert(p, cut);
            proof {
                assert(cuts@ =~= old_cuts.insert(p as int, cut));
                assert forall|i: int, j: int| 0 <= i < j < cuts@.len() implies cut_less(
                    #[trigger] cuts@[i],
                    #[trigger] cuts@[j],
                ) by {
                    if p < old_cuts.len() {
                        assert(cut_less(cut, old_cuts[p as int]));
                    }
                    if i < p {
                        assert(cuts@[i] == old_cuts[i]);
                    } else if i > p {
                        assert(cuts@[i] == old_cuts[i - 1]);
                    }
                    if j < p {
                        assert(cuts@[j] == old_cuts[j]);
                    } else if j > p {
                        assert(cuts@[j] == old_cuts[j - 1]);
                    }
                }
                assert forall|c: Cut| #[trigger] cuts@.contains(c) == (old_cuts.contains(c) || c == cut) by {
                    if old_cuts.contains(c) {
                        let k = choose|k: int| 0 <= k < old_cuts.len() && old_cuts[k] == c;
                        if k < p {
                            assert(cuts@[k] == c);
                        } else {
                            assert(cuts@[k + 1] == c);
                        }
                    }
                    if c == cut {
                        assert(cuts@[p as int] == c);
                    }
                    if cuts@.contains(c) && c != cut {
                        let k = choose|k: int| 0 <= k < cuts@.len() && cuts@[k] == c;
                        if k < p {
                            assert(old_cuts[k] == c);
                        } else {
                            assert(old_cuts[k - 1] == c);
                        }
                    }
                }
            }
        }
        assert forall|c: Cut| #[trigger] cuts@.contains(c) <==> longer.contains(c) by {
            assert(old_cuts.contains(c) <==> front.contains(c));
        }
        n += 1;
    }
    assert(areas@.take(areas@.len() as int) =~= areas@);
    cuts
}

/// A place of the native child with its cuts.
pub struct Applied {
    pub bounds: Bounds,
    pub cuts: Vec<Cut>,
}

/// The cuts that the native child last took.
pub struct Controller {
    pub applied: Option<Applied>,
    pub fullscreen_cover: bool,
}

/// Everything: the peer of an expanded player stays alive, and takes no input.
pub open spec fn whole(bounds: Bounds) -> Cut {
    Cut { left: 0, top: 0, right: bounds.width, bottom: bounds.height }
}

impl Controller {
    pub fn new() -> (control: Controller)
        ensures
            control.applied is None,
            !control.fullscreen_cover,
    {
        Controller { applied: None, fullscreen_cover: false }
    }

    pub fn cover_for_fullscreen(&mut self, covered: bool)
        ensures
            *final(self) == (Controller { fullscreen_cover: covered, ..*old(self) }),
    {
        self.fullscreen_cover = covered;
    }

    /// The cuts that belong to these floating areas.
    pub open spec fn wants(self, cuts: Seq<Cut>, bounds: Bounds, areas: Seq<Cut>) -> bool {
        if self.fullscreen_cover { cuts == seq![whole(bounds)] } else { arranged(cuts, areas) }
    }

    pub fn cuts(&self, bounds: Bounds, areas: &Vec<Cut>) -> (cuts: Vec<Cut>)
        ensures
            self.wants(cuts@, bounds, areas@),
    {
        if self.fullscreen_cover {
            let mut cuts: Vec<Cut> = Vec::new();
            cuts.push(Cut { left: 0, top: 0, right: bounds.width, bottom: bounds.height });
            assert(cuts@ =~= seq![whole(bounds)]);
            cuts
        } else {
            arrange(areas)
        }
    }

    /// Whether this is the change to make for these floating areas.
    pub open spec fn changes(self, change: Option<Vec<Cut>>, bounds: Bounds, areas: Seq<Cut>) -> bool {
        match change {
            Some(cuts) => self.wants(cuts@, bounds, areas) && !(self.applied is Some && self.applied->0.bounds == bounds
                && self.applied->0.cuts@ == cuts@),
            None => self.applied is Some && self.applied->0.bounds == bounds && self.wants(
                self.applied->0.cuts@,
                bounds,
                areas,
            ),
        }
    }

    /// The cuts to give to the native child, where it does not have them yet.
    pub fn update(&self, bounds: Bounds, areas: &Vec<Cut>) -> (change: Option<Vec<Cut>>)
        ensures
            self.changes(change, bounds, areas@),
    {
        let cuts = self.cuts(bounds, areas);
        if let Some(last) = &self.applied {
            if last.bounds == bounds && same_cuts(&last.cuts, &cuts) {
                return None;
            }
        }
        Some(cuts)
    }

    /// The native child has taken the cuts.
    pub fn cuts_applied(&mut self, bounds: Bounds, cuts: Vec<Cut>)
        ensures
            *final(self) == (Controller { applied: Some(Applied { bounds, cuts }), ..*old(self) }),
    {
        self.applied = Some(Applied { bounds, cuts });
    }
}

fn same_cuts(a: &Vec<Cut>, b: &Vec<Cut>) -> (same: bool)
    ensures
        same == (a@ == b@),
{
    if a.len() != b.len() {
        return false;
    }
    let mut i: usize = 0;
    while i < a.len()
        invariant
            i <= a.len(),
            a@.len() == b@.len(),
            forall|j: int| 0 <= j < i ==> a@[j] == b@[j],
        decreases a.len() - i,
    {
        if a[i] != b[i] {
            return false;
        }
        i += 1;
    }
    assert(a@ =~= b@);
    true
}

/// A rectangle as the X server takes it.
#[derive(Clone, Copy, Debug, PartialEq, Eq, Structural)]
pub struct ShapeRectangle {
    pub x: i16,
    pub y: i16,
    pub width: u16,
    pub height: u16,
}

pub open spec fn shape_of(cut: Cut) -> Option<ShapeRectangle> {
    if i16::MIN <= cut.left <= i16::MAX && i16::MIN <= cut.top <= i16::MAX && 0 <= cut.right - cut.left <= u16::MAX
        && 0 <= cut.bottom - cut.top <= u16::MAX {
        Some(
            ShapeRectangle {
                x: cut.left as i16,
                y: cut.top as i16,
                width: (cut.right - cut.left) as u16,
                height: (cut.bottom - cut.top) as u16,
            },
        )
    } else {
        None
    }
}

/// The rectangle for the X server, where it has room for it.
pub fn shape_rectangle(cut: &Cut) -> (shape: Option<ShapeRectangle>)
    ensures
        shape == shape_of(*cut),
{
    let width: i64 = cut.right as i64 - cut.left as i64;
    let height: i64 = cut.bottom as i64 - cut.top as i64;
    if -32_768 <= cut.left && cut.left <= 32_767 && -32_768 <= cut.top && cut.top <= 32_767 && 0 <= width && width
        <= 65_535 && 0 <= height && height <= 65_535 {
        Some(ShapeRectangle { x: cut.left as i16, y: cut.top as i16, width: width as u16, height: height as u16 })
    } else {
        None
    }
}

/// The rectangles of all cuts, unless one of them has no room.
pub fn shape_rectangles(cuts: &Vec<Cut>) -> (shapes: Option<Vec<ShapeRectangle>>)
    ensures
        shapes is Some == (forall|i: int| 0 <= i < cuts@.len() ==> shape_of(#[trigger] cuts@[i]) is Some),
        shapes is Some ==> shapes->0@.len() == cuts@.len() && forall|i: int|
            0 <= i < cuts@.len() ==> shape_of(#[trigger] cuts@[i]) == Some(shapes->0@[i]),
{
    let mut shapes: Vec<ShapeRectangle> = Vec::new();
    let mut i: usize = 0;
    while i < cuts.len()
        invariant
            i <= cuts.len(),
            shapes@.len() == i,
            forall|j: int| 0 <= j < i ==> shape_of(#[trigger] cuts@[j]) == Some(shapes@[j]),
        decreases cuts.len() - i,
    {
        match shape_rectangle(&cuts[i]) {
            Some(shape) => {
                shapes.push(shape);
            },
            None => {
                assert(shape_of(cuts@[i as int]) is None);
                return None;
            },
        }
        i += 1;
    }
    Some(shapes)
}

/// What is known of the keyboard when the pointer is pressed.
#[derive(Clone, Copy, Debug, PartialEq, Eq, Structural)]
pub struct FocusState {
    pub pressed: bool,
    pub text_focused: bool,
    /// The window that has the keyboard, where it is known: the child's own, or one inside it.
    pub focus_in_child: bool,
    /// Whether the app is the active one.
    pub app_active: bool,
}

/// Whether the keyboard goes from the media child to the app.
pub open spec fn keyboard_moves(focus: FocusState) -> bool {
    focus.pressed && focus.text_focused && focus.focus_in_child && focus.app_active
}

/// Whether the keyboard goes from the media child to the app: only for a click into a text
/// field, only from the child, and never by activating the app.
pub fn takes_keyboard(focus: FocusState) -> (takes: bool)
    ensures
        takes == keyboard_moves(focus),
{
    focus.pressed && focus.text_focused && focus.focus_in_child && focus.app_active
}

/// Two arrangements of the same areas are the same, so a stable layout is never cut anew.
pub proof fn arrangement_is_unique(a: Seq<Cut>, b: Seq<Cut>, areas: Seq<Cut>)
    requires
        arranged(a, areas),
        arranged(b, areas),
    ensures
        a == b,
{
    assert forall|c: Cut| a.contains(c) == b.contains(c) by {
        assert(a.contains(c) <==> areas.contains(c));
        assert(b.contains(c) <==> areas.contains(c));
    }
    lemma_ascending_unique(a, b);
}

proof fn lemma_ascending_unique(a: Seq<Cut>, b: Seq<Cut>)
    requires
        ascending(a),
        ascending(b),
        forall|c: Cut| a.contains(c) == b.contains(c),
    ensures
        a == b,
    decreases a.len(),
{
    if a.len() == 0 {
        if b.len() > 0 {
            assert(b.contains(b[0]));
            assert(a.contains(b[0]));
        }
        assert(a =~= b);
    } else {
        assert(a.contains(a.last()));
        assert(b.contains(a.last()));
        let k = choose|k: int| 0 <= k < b.len() && b[k] == a.last();
        assert(b.contains(b.last()));
        assert(a.contains(b.last()));
        let m = choose|m: int| 0 <= m < a.len() && a[m] == b.last();
        if k < b.len() - 1 {
            assert(cut_less(b[k], b[b.len() - 1]));
            if m < a.len() - 1 {
                assert(cut_less(a[m], a[a.len() - 1]));
            }
            assert(false);
        }
        let front = a.drop_last();
        let other = b.drop_last();
        assert forall|c: Cut| front.contains(c) == other.contains(c) by {
            if front.contains(c) {
                let i = choose|i: int| 0 <= i < front.len() && front[i] == c;
                assert(a.contains(a[i]));
                assert(b.contains(c));
                let j = choose|j: int| 0 <= j < b.len() && b[j] == c;
                assert(cut_less(a[i], a[a.len() - 1]));
                assert(other[j] == c);
            }
            if other.contains(c) {
                let i = choose|i: int| 0 <= i < other.len() && other[i] == c;
                assert(b.contains(b[i]));
                assert(a.contains(c));
                let j = choose|j: int| 0 <= j < a.len() && a[j] == c;
                assert(cut_less(b[i], b[b.len() - 1]));
                assert(front[j] == c);
            }
        }
        lemma_ascending_unique(front, other);
        assert(a =~= front.push(a.last()));
        assert(b =~= other.push(b.last()));
    }
}

/// Every covered area is cut, once, and nothing else is; the cuts go from left to right.
pub proof fn cuts_are_the_covered_areas(cuts: Seq<Cut>, areas: Seq<Cut>, i: int, j: int, area: Cut)
    requires
        arranged(cuts, areas),
        0 <= i < j < cuts.len(),
    ensures
        cuts[i] != cuts[j] && cuts[i].left <= cuts[j].left,
        cuts[i].left == cuts[j].left ==> cuts[i].top <= cuts[j].top,
        areas.contains(cuts[i]),
        areas.contains(area) ==> cuts.contains(area),
{
    assert(cuts.contains(cuts[i]));
}

/// The peer of an expanded player is covered whole, whatever floats above it; the child is told only
/// what it does not have yet.
pub proof fn expanded_players_cover_their_peer(control: Controller, change: Option<Vec<Cut>>, bounds: Bounds, areas: Seq<Cut>)
    requires
        control.changes(change, bounds, areas),
    ensures
        control.applied is None ==> change is Some,
        control.applied is Some && control.applied->0.bounds != bounds ==> change is Some,
        control.fullscreen_cover && change is Some ==> change->0@.len() == 1 && change->0@[0].left == 0
            && change->0@[0].top == 0 && change->0@[0].right == bounds.width && change->0@[0].bottom == bounds.height,
        !control.fullscreen_cover && change is Some ==> arranged(change->0@, areas),
        control.applied is Some && control.applied->0.bounds == bounds && control.wants(
            control.applied->0.cuts@,
            bounds,
            areas,
        ) ==> change is None,
{
    if control.applied is Some && change is Some && control.applied->0.bounds == bounds && control.wants(
        control.applied->0.cuts@,
        bounds,
        areas,
    ) {
        if !control.fullscreen_cover {
            arrangement_is_unique(control.applied->0.cuts@, change->0@, areas);
        }
    }
}

/// A cut that the X server has room for keeps its place and its size; any other is refused.
pub proof fn shapes_keep_their_place(cut: Cut)
    ensures
        match shape_of(cut) {
            Some(shape) => shape.x == cut.left && shape.y == cut.top && shape.x + shape.width == cut.right && shape.y
                + shape.height == cut.bottom,
            None => cut.left < -32_768 || cut.left > 32_767 || cut.top < -32_768 || cut.top > 32_767 || cut.right < cut.left
                || cut.right - cut.left > 65_535 || cut.bottom < cut.top || cut.bottom - cut.top > 65_535,
        },
{
}

/// The keyboard moves only for a click into a text field, from the child, while the app is active.
pub proof fn keyboards_move_only_for_text(focus: FocusState)
    ensures
        keyboard_moves(focus) ==> focus.pressed && focus.text_focused && focus.focus_in_child && focus.app_active,
        focus.pressed && focus.text_focused && focus.focus_in_child && focus.app_active ==> keyboard_moves(focus),
{
}

} // verus!
