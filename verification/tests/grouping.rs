use ascii_art::frame::Frame;
use ascii_art::runs::compute_runs;

fn row_frame(colors: &[(u8, u8, u8)]) -> Frame {
    let mut data = Vec::new();
    for c in colors {
        data.push(c.0);
        data.push(c.1);
        data.push(c.2);
    }
    Frame::from_parts(colors.len() as u32, 1, data)
}

#[test]
fn groups_maximal_equal_color_spans() {
    let a = (1, 2, 3);
    let b = (9, 9, 9);
    let frame = row_frame(&[a, a, b, b, a]);
    let runs = compute_runs(&frame, 0);
    assert_eq!(runs.len(), 3);
    assert_eq!((runs[0].start, runs[0].end, runs[0].color), (0, 1, a));
    assert_eq!((runs[1].start, runs[1].end, runs[1].color), (2, 3, b));
    assert_eq!((runs[2].start, runs[2].end, runs[2].color), (4, 4, a));
}

#[test]
fn single_color_row_is_one_run() {
    let c = (200, 100, 50);
    let frame = row_frame(&[c, c, c, c]);
    let runs = compute_runs(&frame, 0);
    assert_eq!(runs.len(), 1);
    assert_eq!((runs[0].start, runs[0].end, runs[0].color), (0, 3, c));
}

#[test]
fn all_distinct_colors_one_run_each() {
    let frame = row_frame(&[(1, 1, 1), (2, 2, 2), (3, 3, 3)]);
    let runs = compute_runs(&frame, 0);
    assert_eq!(runs.len(), 3);
    for (i, r) in runs.iter().enumerate() {
        assert_eq!(r.start, i);
        assert_eq!(r.end, i);
    }
}

#[test]
fn nearly_equal_colors_do_not_merge() {
    // grouping is by bit-identical color, not similarity
    let frame = row_frame(&[(10, 10, 10), (10, 10, 11)]);
    let runs = compute_runs(&frame, 0);
    assert_eq!(runs.len(), 2);
}

#[test]
fn run_substrings_concatenate_to_full_line() {
    let a = (1, 2, 3);
    let b = (9, 9, 9);
    let frame = row_frame(&[a, a, b, b, a]);
    let runs = compute_runs(&frame, 0);
    let line = "vwxyz";
    let mut joined = String::new();
    for r in &runs {
        joined.push_str(&line[r.start..=r.end]);
    }
    assert_eq!(joined, line);
}

#[test]
fn second_row_is_grouped_on_its_own() {
    let a = (5, 5, 5);
    let b = (7, 7, 7);
    // row 0: a a   row 1: a b
    let data = vec![5, 5, 5, 5, 5, 5, 5, 5, 5, 7, 7, 7];
    let frame = Frame::from_parts(2, 2, data);
    assert_eq!(compute_runs(&frame, 0).len(), 1);
    let runs = compute_runs(&frame, 1);
    assert_eq!(runs.len(), 2);
    assert_eq!(runs[0].color, a);
    assert_eq!(runs[1].color, b);
}
