//! The outline that shows which display is viewed.
use crate::model;
use crate::model::{Display, DisplayId, DisplayView};
use vstd::prelude::*;

verus! {

/// How thick the outline is, where the display is large enough.
pub const THICKNESS: i32 = 3;

#[derive(Debug, Clone, Copy, PartialEq, Eq, Structural)]
pub struct Edge {
    pub x: i32,
    pub y: i32,
    pub width: i32,
    pub height: i32,
}

/// A size as Windows takes it.
pub open spec fn extent(size: u32) -> int {
    if size > i32::MAX {
        i32::MAX as int
    } else {
        size as int
    }
}

pub open spec fn thickness(display: DisplayView) -> int {
    let width = extent(display.width);
    let height = extent(display.height);
    let thin = if width < height {
        width
    } else {
        height
    };
    if thin < THICKNESS {
        thin
    } else {
        THICKNESS as int
    }
}

/// Whether the outline has coordinates.
pub open spec fn outlined(display: DisplayView) -> bool {
    &&& display.x + extent(display.width) <= i32::MAX
    &&& display.y + extent(display.height) <= i32::MAX
}

/// The four edges of a display's outline: top, bottom, left and right.
pub open spec fn edges_of(display: DisplayView) -> Seq<Edge> {
    let width = extent(display.width) as i32;
    let height = extent(display.height) as i32;
    let thick = thickness(display) as i32;
    seq![
        Edge { x: display.x, y: display.y, width, height: thick },
        Edge {
            x: display.x,
            y: (display.y + height - thick) as i32,
            width,
            height: thick,
        },
        Edge { x: display.x, y: display.y, width: thick, height },
        Edge { x: (display.x + width - thick) as i32, y: display.y, width: thick, height },
    ]
}

fn windows_extent(size: u32) -> (size_of: i32)
    ensures
        size_of == extent(size),
{
    if size > 0x7fff_ffff {
        0x7fff_ffff
    } else {
        size as i32
    }
}

pub fn edges(display: &Display) -> (list: Vec<Edge>)
    requires
        outlined(display@),
    ensures
        list@ == edges_of(display@),
{
    let width: i32 = windows_extent(display.width);
    let height: i32 = windows_extent(display.height);
    let thin: i32 = if width < height {
        width
    } else {
        height
    };
    let thick: i32 = if thin < THICKNESS {
        thin
    } else {
        THICKNESS
    };
    let mut list: Vec<Edge> = Vec::new();
    list.push(Edge { x: display.x, y: display.y, width, height: thick });
    list.push(Edge { x: display.x, y: display.y + (height - thick), width, height: thick });
    list.push(Edge { x: display.x, y: display.y, width: thick, height });
    list.push(Edge { x: display.x + (width - thick), y: display.y, width: thick, height });
    assert(list@ =~= edges_of(display@));
    list
}

/// The outline is on the display that it outlines.
pub proof fn outline_stays_on_the_display(display: DisplayView, at: int)
    requires
        outlined(display),
        0 <= at < 4,
    ensures
        ({
            let edge = edges_of(display)[at];
            &&& display.x <= edge.x
            &&& display.y <= edge.y
            &&& edge.x + edge.width <= display.x + extent(display.width)
            &&& edge.y + edge.height <= display.y + extent(display.height)
        }),
{
}

/// The displays that are outlined: the viewed one, or every real one where all
/// are viewed.
pub open spec fn viewed_displays(
    viewed: DisplayView,
    listed: Seq<DisplayView>,
    all_monitors: DisplayId,
) -> Seq<DisplayView> {
    if viewed.id == all_monitors {
        listed.filter(|display: DisplayView| display.id != all_monitors)
    } else {
        seq![viewed]
    }
}

pub fn outlined_displays(viewed: &Display, listed: &Vec<Display>, all_monitors: DisplayId) -> (list:
    Vec<Display>)
    ensures
        model::display_views(list@) == viewed_displays(
            viewed@,
            model::display_views(listed@),
            all_monitors,
        ),
{
    let mut list: Vec<Display> = Vec::new();
    if viewed.id != all_monitors {
        list.push(viewed.clone());
        assert(model::display_views(list@) =~= seq![viewed@]);
        return list;
    }
    let ghost views = model::display_views(listed@);
    let ghost separate = |display: DisplayView| display.id != all_monitors;
    let mut next: usize = 0;
    assert(views.take(0).filter(separate) =~= seq![]) by {
        reveal(Seq::filter);
    }
    while next < listed.len()
        invariant
            next <= listed@.len(),
            views == model::display_views(listed@),
            separate == (|display: DisplayView| display.id != all_monitors),
            model::display_views(list@) == views.take(next as int).filter(separate),
        decreases listed@.len() - next,
    {
        let display = &listed[next];
        let ghost before = model::display_views(list@);
        proof {
            let longer = views.take(next + 1);
            assert(longer.drop_last() =~= views.take(next as int));
            assert(longer.last() == display@);
            reveal(Seq::filter);
        }
        if display.id != all_monitors {
            list.push(display.clone());
            assert(model::display_views(list@) =~= before.push(display@));
        }
        next += 1;
    }
    assert(views.take(next as int) =~= views);
    list
}

/// The outline goes all the way round the display, along its edges and three points
/// into it, or as far as it is high or wide: the first edge is along the top, the
/// second along the bottom, the third along the left and the last along the right.
pub proof fn outlines_go_all_the_way_round(display: DisplayView)
    requires
        outlined(display),
        display.width <= i32::MAX,
        display.height <= i32::MAX,
    ensures
        ({
            let edges = edges_of(display);
            let (top, bottom, left, right) = (edges[0], edges[1], edges[2], edges[3]);
            let thick = if display.width >= 3 && display.height >= 3 {
                3int
            } else if display.width <= display.height {
                display.width as int
            } else {
                display.height as int
            };
            &&& edges.len() == 4
            &&& top.x == display.x && top.y == display.y && top.width == display.width
                && top.height == thick
            &&& bottom.x == display.x && bottom.y + thick == display.y + display.height
                && bottom.width == display.width && bottom.height == thick
            &&& left.x == display.x && left.y == display.y && left.width == thick && left.height
                == display.height
            &&& right.x + thick == display.x + display.width && right.y == display.y && right.width
                == thick && right.height == display.height
        }),
{
}

proof fn lemma_separate(listed: Seq<DisplayView>, all_monitors: DisplayId, shown: DisplayView)
    ensures
        listed.filter(|display: DisplayView| display.id != all_monitors).contains(shown)
            <==> listed.contains(shown) && shown.id != all_monitors,
    decreases listed.len(),
{
    reveal(Seq::filter);
    let separate = |display: DisplayView| display.id != all_monitors;
    let kept = listed.filter(separate);
    if listed.len() > 0 {
        let shorter = listed.drop_last();
        let before = shorter.filter(separate);
        lemma_separate(shorter, all_monitors, shown);
        if kept.contains(shown) && !before.contains(shown) {
            let at = choose|at: int| 0 <= at < kept.len() && kept[at] == shown;
            assert(at < before.len() ==> before[at] == shown);
            assert(listed[listed.len() - 1] == shown);
        }
        if before.contains(shown) {
            let at = choose|at: int| 0 <= at < before.len() && before[at] == shown;
            assert(kept[at] == shown);
            let from = choose|from: int| 0 <= from < shorter.len() && shorter[from] == shown;
            assert(listed[from] == shown);
        }
        if listed.contains(shown) && !shorter.contains(shown) {
            let at = choose|at: int| 0 <= at < listed.len() && listed[at] == shown;
            assert(at < shorter.len() ==> shorter[at] == shown);
            if shown.id != all_monitors {
                assert(kept[before.len() as int] == shown);
            }
        }
    }
}

/// One viewed display is outlined, and no other; where all are viewed, each of them
/// is, but not what stands for them all.
pub proof fn viewed_displays_are_outlined(
    viewed: DisplayView,
    listed: Seq<DisplayView>,
    all_monitors: DisplayId,
    shown: DisplayView,
)
    ensures
        viewed.id != all_monitors ==> viewed_displays(viewed, listed, all_monitors) == seq![viewed],
        viewed.id == all_monitors ==> (viewed_displays(viewed, listed, all_monitors).contains(
            shown,
        ) <==> listed.contains(shown) && shown.id != all_monitors),
{
    if viewed.id == all_monitors {
        lemma_separate(listed, all_monitors, shown);
    }
}

} // verus!
