use vstd::prelude::*;

verus! {

/// A rectangle of terminal cells: its top-left corner and its size.
#[derive(Copy, Clone, Debug, PartialEq, Eq, Hash, Structural)]
pub struct Rect {
    pub x: u16,
    pub y: u16,
    pub width: u16,
    pub height: u16,
}

pub open spec fn clamp_at_zero(v: int) -> int {
    if v < 0 {
        0
    } else {
        v
    }
}

/// The rectangle moved by `x` columns and `y` rows, stopping at the top and
/// left edges of the terminal.
pub fn transform(rect: Rect, x: i16, y: i16) -> (r: Rect)
    requires
        rect.x <= i16::MAX,
        rect.y <= i16::MAX,
        rect.x + x <= i16::MAX,
        rect.y + y <= i16::MAX,
    ensures
        r == (Rect {
            x: clamp_at_zero(rect.x + x) as u16,
            y: clamp_at_zero(rect.y + y) as u16,
            width: rect.width,
            height: rect.height,
        }),
{
    let after_x: i16 = (rect.x as i16) + x;
    let after_y: i16 = (rect.y as i16) + y;
    Rect {
        x: if after_x < 0 {
            0
        } else {
            after_x as u16
        },
        y: if after_y < 0 {
            0
        } else {
            after_y as u16
        },
        width: rect.width,
        height: rect.height,
    }
}

/// Moves `child` to the centre of `container`, which it must fit in.
pub fn center_rect_in_container(child: &mut Rect, container: &Rect)
    requires
        old(child).width <= container.width,
        old(child).height <= container.height,
        container.x + container.width / 2 <= u16::MAX,
        container.y + container.height / 2 <= u16::MAX,
    ensures
        final(child).width == old(child).width,
        final(child).height == old(child).height,
        final(child).x == container.x + container.width / 2 - old(child).width / 2,
        final(child).y == container.y + container.height / 2 - old(child).height / 2,
{
    let center_x = container.x + container.width / 2;
    let center_y = container.y + container.height / 2;
    child.x = center_x - child.width / 2;
    child.y = center_y - child.height / 2;
}

} // verus!
