use rattus::data_logger::{group_by_clicks, record_fields, MouseAction};

fn text(v: &[u8]) -> String {
    String::from_utf8(v.to_vec()).unwrap()
}

#[test]
fn key_press_on_click_key_is_a_click() {
    let a = MouseAction::key_press(0x65, 0x65, (100, 200), true, false, true);
    assert_eq!(a.location, (100, 200));
    assert!(a.is_clicked);
    assert!(a.is_fast);
    assert!(!a.is_slow);
    assert!(a.is_rat_on);
    let b = MouseAction::key_press(0x66, 0x65, (1, 2), false, true, false);
    assert!(!b.is_clicked);
    assert!(b.is_slow);
}

#[test]
fn key_release_is_never_a_click() {
    let a = MouseAction::key_release((-3, 4), false, false, true);
    assert_eq!(a.location, (-3, 4));
    assert!(!a.is_clicked);
    assert!(a.is_rat_on);
}

#[test]
fn record_line_matches_log_format() {
    let a = MouseAction::key_press(5, 5, (-12, 5), false, true, false);
    assert_eq!(text(&a.to_record()), "-12,5,1,0,1,0 \n");
    let b = MouseAction::key_release((0, 1280), true, true, true);
    assert_eq!(text(&b.to_record()), "0,1280,0,1,1,1 \n");
}

#[test]
fn record_line_extreme_coordinates() {
    let a = MouseAction::key_release((i32::MIN, i32::MAX), false, false, false);
    assert_eq!(
        text(&a.to_record()),
        format!("{},{},{},{},{},{} \n", i32::MIN, i32::MAX, 0, 0, 0, 0)
    );
}

#[test]
fn record_fields_takes_first_six() {
    let f = record_fields(b"1,2,,3,4,5,6");
    assert_eq!(f.len(), 6);
    assert_eq!(f[0], b"1".to_vec());
    assert_eq!(f[1], b"2".to_vec());
    assert_eq!(f[2], b"".to_vec());
    assert_eq!(f[3], b"3".to_vec());
    assert_eq!(f[5], b"5".to_vec());
}

#[test]
fn record_fields_exactly_six() {
    let f = record_fields(b"640.5,360,0,1,0,1");
    let strs: Vec<String> = f.iter().map(|x| text(x)).collect();
    assert_eq!(strs, vec!["640.5", "360", "0", "1", "0", "1"]);
}

#[test]
fn written_record_reads_back_field_by_field() {
    let a = MouseAction::key_press(9, 9, (-7, 42), true, false, true);
    let mut line = a.to_record();
    assert_eq!(line.pop(), Some(b'\n'));
    let f = record_fields(&line);
    let strs: Vec<String> = f.iter().map(|x| text(x)).collect();
    assert_eq!(strs, vec!["-7", "42", "1", "1", "0", "1"]);
    let values: Vec<f32> = strs.iter().map(|x| x.parse::<f32>().unwrap()).collect();
    assert_eq!(values, vec![-7.0, 42.0, 1.0, 1.0, 0.0, 1.0]);
}

#[test]
fn clicks_close_groups() {
    let recs = vec![(1, false), (2, false), (3, true), (4, true), (5, false), (6, true), (7, false)];
    let g = group_by_clicks(recs);
    assert_eq!(g, vec![(vec![1, 2], 3), (vec![], 4), (vec![5], 6)]);
}

#[test]
fn no_click_gives_no_group() {
    let g = group_by_clicks(vec![('a', false), ('b', false)]);
    assert!(g.is_empty());
}

#[test]
fn grouping_keeps_every_item_in_order() {
    let recs = vec![(1, true), (2, false), (3, false), (4, true), (5, false), (6, false)];
    let clicks = recs.iter().filter(|r| r.1).count();
    let items: Vec<i32> = recs.iter().map(|r| r.0).collect();
    let g = group_by_clicks(recs);
    assert_eq!(g.len(), clicks);
    let mut joined: Vec<i32> = Vec::new();
    for (inputs, label) in &g {
        joined.extend(inputs.iter().copied());
        joined.push(*label);
    }
    joined.extend([5, 6]);
    assert_eq!(joined, items);
}

#[test]
fn record_fields_drop_trailing_spaces() {
    let f = record_fields(b"12 ,3,  ,1 0,0  ,1 ,9 ");
    let strs: Vec<String> = f.iter().map(|x| text(x)).collect();
    assert_eq!(strs, vec!["12", "3", "", "1 0", "0", "1"]);
}
