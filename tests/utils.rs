use terminal_guitar_tuner::utils::{center_rect_in_container, transform, Rect};

#[test]
fn normal() {
    let rect = Rect {
        x: 5,
        y: 5,
        width: 10,
        height: 10,
    };
    let result = transform(rect, 2, -2);
    assert_eq!(
        result,
        Rect {
            x: 7,
            y: 3,
            width: 10,
            height: 10
        }
    )
}

#[test]
fn exceed_limit() {
    let rect = Rect {
        x: 2,
        y: 4,
        width: 10,
        height: 10,
    };
    let result = transform(rect, -5, -5);
    assert_eq!(
        result,
        Rect {
            x: 0,
            y: 0,
            width: 10,
            height: 10
        }
    )
}

#[test]
fn child_fits_within_container() {
    let mut child = Rect {
        x: 0,
        y: 0,
        width: 10,
        height: 10,
    };
    let container = Rect {
        x: 10,
        y: 10,
        width: 20,
        height: 20,
    };
    center_rect_in_container(&mut child, &container);
    assert_eq!(
        child,
        Rect {
            x: 15,
            y: 15,
            width: 10,
            height: 10
        }
    )
}

#[test]
fn odd_sizes_round_towards_the_top_left() {
    let mut child = Rect {
        x: 3,
        y: 3,
        width: 3,
        height: 1,
    };
    let container = Rect {
        x: 0,
        y: 2,
        width: 8,
        height: 3,
    };
    center_rect_in_container(&mut child, &container);
    assert_eq!(
        child,
        Rect {
            x: 3,
            y: 3,
            width: 3,
            height: 1
        }
    )
}
