//! Render bookkeeping: whether a frame must be redrawn, and entity visibility.

use vstd::prelude::*;

use crate::layout::{spec_from_center, Rect};
use crate::state::stage::EntityId;

verus! {

/// Set when something on screen changed since the last frame was drawn.
#[derive(Debug, Clone, Copy, PartialEq, Eq, Structural)]
pub struct RenderDirty(pub bool);

impl Default for RenderDirty {
    fn default() -> (r: Self)
        ensures
            r == RenderDirty(false),
    {
        RenderDirty(false)
    }
}

/// Marks the frame dirty when any sprite, position or visibility changed, a
/// sprite was removed, or the cursor, touch state or layout changed; otherwise
/// leaves the flag as it is.
pub fn dirty_render_system(
    dirty: &mut RenderDirty,
    changed_entities: usize,
    removed_renderables: bool,
    cursor_changed: bool,
    touch_changed: bool,
    layout_changed: bool,
)
    ensures
        final(dirty).0 == (old(dirty).0 || changed_entities > 0 || removed_renderables || cursor_changed
            || touch_changed || layout_changed),
{
    if changed_entities > 0 || removed_renderables || cursor_changed || touch_changed || layout_changed {
        dirty.0 = true;
    }
}

/// Whether an entity is drawn; entities without one are drawn.
#[derive(Debug, Clone, Copy, PartialEq, Eq, Structural)]
pub struct Visibility(pub bool);

impl Default for Visibility {
    fn default() -> (r: Self)
        ensures
            r == Visibility(true),
    {
        Visibility(true)
    }
}

impl Visibility {
    /// Visible.
    pub fn visible() -> (r: Self)
        ensures
            r == Visibility(true),
    {
        Visibility(true)
    }

    /// Hidden.
    pub fn hidden() -> (r: Self)
        ensures
            r == Visibility(false),
    {
        Visibility(false)
    }

    /// Whether the entity is drawn.
    pub fn is_visible(&self) -> (r: bool)
        ensures
            r == self.0,
    {
        self.0
    }

    /// Whether the entity is not drawn.
    pub fn is_hidden(&self) -> (r: bool)
        ensures
            r == !self.0,
    {
        !self.0
    }

    /// Makes the entity visible.
    pub fn show(&mut self)
        ensures
            final(self).0,
    {
        self.0 = true;
    }

    /// Flips visibility.
    pub fn toggle(&mut self)
        ensures
            final(self).0 == !old(self).0,
    {
        self.0 = !self.0;
    }
}

/// Toggling twice leaves visibility as it was.
pub proof fn lemma_toggle_twice(v: Visibility)
    ensures
        Visibility(!Visibility(!v.0).0) == v,
{
}

/// Draws the maze's tiles; the drawing itself needs a canvas.
#[derive(Debug, Clone, Copy)]
pub struct MapRenderer;

/// What drawing needs of an entity with a sprite.
#[derive(Debug, Clone, Copy, PartialEq, Eq, Structural)]
pub struct RenderEntry {
    pub entity: EntityId,
    /// Drawing layer; higher layers are drawn first, lower ones on top.
    pub layer: u8,
    /// Entities without a visibility are drawn.
    pub visibility: Option<Visibility>,
    /// Pixel centre of the entity.
    pub center_x: i32,
    pub center_y: i32,
    /// Sprite size.
    pub width: u16,
    pub height: u16,
}

/// Whether an entry is drawn.
pub open spec fn spec_drawn(e: RenderEntry) -> bool {
    match e.visibility {
        Some(v) => v.0,
        None => true,
    }
}

/// `x` placed into a draw order: after every entry on its layer or a higher one.
pub open spec fn spec_insert_draw(s: Seq<RenderEntry>, x: RenderEntry) -> Seq<RenderEntry>
    decreases s.len(),
{
    if s.len() == 0 {
        seq![x]
    } else if s.last().layer >= x.layer {
        s.push(x)
    } else {
        spec_insert_draw(s.drop_last(), x).push(s.last())
    }
}

/// The draw order of entries: the drawn ones, highest layer first, and on one
/// layer the later entries first.
pub open spec fn spec_draw_order(s: Seq<RenderEntry>) -> Seq<RenderEntry>
    decreases s.len(),
{
    if s.len() == 0 {
        seq![]
    } else {
        let rest = spec_draw_order(s.drop_first());
        if spec_drawn(s[0]) { spec_insert_draw(rest, s[0]) } else { rest }
    }
}

/// Where an entry is drawn: its sprite's rectangle centred on it.
pub open spec fn spec_dest(e: RenderEntry) -> Rect {
    spec_from_center(e.center_x, e.center_y, e.width as u32, e.height as u32)
}

fn insert_draw(v: &mut Vec<RenderEntry>, x: RenderEntry)
    ensures
        final(v)@ == spec_insert_draw(old(v)@, x),
    decreases old(v)@.len(),
{
    if v.len() == 0 {
        v.push(x);
        proof {
            assert(v@ =~= seq![x]);
        }
        return;
    }
    let last = v[v.len() - 1];
    if last.layer >= x.layer {
        v.push(x);
        return;
    }
    let ghost s = v@;
    let _ = v.pop();
    proof {
        assert(v@ == s.drop_last());
    }
    insert_draw(v, x);
    v.push(last);
}

/// The entities to draw, in drawing order, each with its destination
/// rectangle; see `spec_draw_order`.
pub fn render_order(entries: &Vec<RenderEntry>) -> (r: Vec<(EntityId, Rect)>)
    ensures
        r@.len() == spec_draw_order(entries@).len(),
        forall|i: int| 0 <= i < r@.len() ==> #[trigger] r@[i] == (
            spec_draw_order(entries@)[i].entity,
            spec_dest(spec_draw_order(entries@)[i]),
        ),
{
    let mut order: Vec<RenderEntry> = Vec::new();
    let mut k: usize = entries.len();
    while k > 0
        invariant
            0 <= k <= entries.len(),
            order@ == spec_draw_order(entries@.skip(k as int)),
        decreases k,
    {
        let e = entries[k - 1];
        proof {
            assert(entries@.skip(k - 1).drop_first() =~= entries@.skip(k as int));
            assert(entries@.skip(k - 1)[0] == e);
        }
        let drawn = match e.visibility {
            Some(v) => v.0,
            None => true,
        };
        if drawn {
            insert_draw(&mut order, e);
        }
        k = k - 1;
    }
    proof {
        assert(entries@.skip(0) =~= entries@);
    }
    let mut out: Vec<(EntityId, Rect)> = Vec::new();
    let mut i: usize = 0;
    while i < order.len()
        invariant
            0 <= i <= order.len(),
            out@.len() == i,
            forall|j: int| 0 <= j < i ==> #[trigger] out@[j] == (order@[j].entity, spec_dest(order@[j])),
        decreases order.len() - i,
    {
        let e = order[i];
        out.push((e.entity, Rect::from_center(e.center_x, e.center_y, e.width as u32, e.height as u32)));
        i = i + 1;
    }
    out
}

/// Every entry in a draw order is one of the entries, and is drawn; and the
/// order runs from the highest layer down.
pub proof fn lemma_draw_order(s: Seq<RenderEntry>)
    ensures
        forall|i: int, j: int| 0 <= i < j < spec_draw_order(s).len() ==> spec_draw_order(s)[i].layer >= spec_draw_order(s)[j].layer,
        forall|i: int| 0 <= i < spec_draw_order(s).len() ==> spec_drawn(#[trigger] spec_draw_order(s)[i]) && s.contains(spec_draw_order(s)[i]),
    decreases s.len(),
{
    if s.len() > 0 {
        let rest = spec_draw_order(s.drop_first());
        lemma_draw_order(s.drop_first());
        if spec_drawn(s[0]) {
            lemma_insert_draw(rest, s[0]);
        }
        let r = spec_draw_order(s);
        assert forall|i: int| 0 <= i < r.len() implies spec_drawn(#[trigger] r[i]) && s.contains(r[i]) by {
            if r[i] == s[0] {
                assert(s[0] == s[0]);
            } else {
                let k = choose|k: int| 0 <= k < rest.len() && rest[k] == r[i];
                assert(s.drop_first().contains(rest[k]));
                let m = choose|m: int| 0 <= m < s.drop_first().len() && s.drop_first()[m] == rest[k];
                assert(s[m + 1] == r[i]);
            }
        }
    }
}

proof fn lemma_insert_draw(s: Seq<RenderEntry>, x: RenderEntry)
    requires
        forall|i: int, j: int| 0 <= i < j < s.len() ==> s[i].layer >= s[j].layer,
    ensures
        forall|i: int, j: int| 0 <= i < j < spec_insert_draw(s, x).len() ==> spec_insert_draw(s, x)[i].layer >= spec_insert_draw(s, x)[j].layer,
        forall|i: int| 0 <= i < spec_insert_draw(s, x).len() ==> (#[trigger] spec_insert_draw(s, x)[i]) == x || (exists|k: int| 0 <= k < s.len() && s[k] == spec_insert_draw(s, x)[i]),
    decreases s.len(),
{
    if s.len() == 0 {
    } else if s.last().layer >= x.layer {
        let r = s.push(x);
        assert forall|i: int| 0 <= i < r.len() implies (#[trigger] r[i]) == x || (exists|k: int| 0 <= k < s.len() && s[k] == r[i]) by {
            if i < s.len() {
                assert(s[i] == r[i]);
            }
        }
    } else {
        let init = s.drop_last();
        lemma_insert_draw(init, x);
        let t = spec_insert_draw(init, x);
        let r = t.push(s.last());
        assert forall|i: int, j: int| 0 <= i < j < r.len() implies r[i].layer >= r[j].layer by {
            assert(r[i] == t[i]);
            if j == r.len() - 1 && t[i] != x {
                let k = choose|k: int| 0 <= k < init.len() && init[k] == t[i];
                assert(s[k] == init[k]);
            }
        }
        assert forall|i: int| 0 <= i < r.len() implies (#[trigger] r[i]) == x || (exists|k: int| 0 <= k < s.len() && s[k] == r[i]) by {
            if i == r.len() - 1 {
                assert(s[s.len() - 1] == r[i]);
            } else if t[i] != x {
                let k = choose|k: int| 0 <= k < init.len() && init[k] == t[i];
                assert(s[k] == r[i]);
            }
        }
    }
}

} // verus!
