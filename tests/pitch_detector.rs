use terminal_guitar_tuner::guitar::Note;
use terminal_guitar_tuner::pitch_detector::{
    infer_note, key_local_maximas, pick_maxima, strongest_peak, KeyMaxima,
};

fn indices(levels: &[i64]) -> Vec<usize> {
    key_local_maximas(levels).iter().map(|m| m.index).collect()
}

#[test]
fn peaks_of_an_alternating_curve() {
    // start hump, dip, hump, dip, hump
    let levels = [10, 6, -3, -5, 2, 8, 7, 0, -1, 3, 9, 9, 4];
    assert_eq!(indices(&levels), vec![0, 5, 10]);
    let maximas = key_local_maximas(&levels);
    assert_eq!(
        maximas[1],
        KeyMaxima {
            index: 5,
            left_neighbor: Some(4),
            right_neighbor: Some(6)
        }
    );
    assert_eq!(
        maximas[0],
        KeyMaxima {
            index: 0,
            left_neighbor: None,
            right_neighbor: Some(1)
        }
    );
}

#[test]
fn peak_at_the_end_has_no_right_neighbour() {
    let levels = [5, -1, 2, 4];
    let maximas = key_local_maximas(&levels);
    assert_eq!(
        maximas,
        vec![
            KeyMaxima {
                index: 0,
                left_neighbor: None,
                right_neighbor: Some(1)
            },
            KeyMaxima {
                index: 3,
                left_neighbor: Some(2),
                right_neighbor: None
            }
        ]
    );
}

#[test]
fn equal_levels_keep_the_first_index() {
    assert_eq!(indices(&[3, -1, 5, 5, 2, -2]), vec![0, 2]);
}

#[test]
fn silent_curve_has_one_peak() {
    assert_eq!(indices(&[0, 0, 0, 0]), vec![0]);
    assert_eq!(indices(&[]), Vec::<usize>::new());
}

#[test]
fn curve_starting_below_zero_searches_its_first_stretch() {
    assert_eq!(indices(&[-4, -2, -3, 5, 6, -1, -7, 0]), vec![1, 7]);
}

#[test]
fn strongest_peak_skips_the_first() {
    assert_eq!(strongest_peak(&[100, 40, 70, 70, 20]), Some(2));
    assert_eq!(strongest_peak(&[100]), None);
    assert_eq!(strongest_peak(&[]), None);
}

#[test]
fn pick_maxima_prefers_the_lowest_lag() {
    assert_eq!(pick_maxima(&[100, 40, 86, 100], 85), Some(2));
    assert_eq!(pick_maxima(&[100, 40, 84, 100], 85), Some(3));
    assert_eq!(pick_maxima(&[100, 40, 60], 85), None);
    assert_eq!(pick_maxima(&[100], 0), None);
}

#[test]
fn infer_note_takes_the_closest_within_the_limit() {
    let notes = [Note::new("E4"), Note::new("F4"), Note::new("E2")];
    assert_eq!(infer_note(&[3, 2, 50], 5, &notes), Some(Note::new("F4")));
    assert_eq!(infer_note(&[2, 2, 50], 5, &notes), Some(Note::new("E4")));
    assert_eq!(infer_note(&[6, 7, 50], 5, &notes), None);
    assert_eq!(infer_note(&[6, 5, 50], 5, &notes), Some(Note::new("F4")));
    assert_eq!(infer_note(&[], 5, &[]), None);
}
