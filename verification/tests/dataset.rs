use rattus::data_logger::DataSet;

fn sample(n: u32) -> Vec<(Vec<u32>, u32)> {
    (0..n).map(|i| (vec![i, i + 100], i * 10)).collect()
}

fn sorted(mut v: Vec<(Vec<u32>, u32)>) -> Vec<(Vec<u32>, u32)> {
    v.sort();
    v
}

#[test]
fn from_iter_then_into_iter_keeps_entries() {
    let d = DataSet::from_iter(sample(4));
    assert_eq!(d.len(), 4);
    assert_eq!(d.into_iter(), sample(4));
}

#[test]
fn split_with_orders_follows_the_orders() {
    let d = DataSet::from_iter(sample(5));
    let r = d.split_with_orders(2, &vec![4, 2, 0, 1, 3], &vec![1, 0]);
    assert_eq!(r.verification_data.into_iter(), vec![sample(5)[2].clone(), sample(5)[4].clone()]);
    assert_eq!(
        r.trainning_data.into_iter(),
        vec![sample(5)[0].clone(), sample(5)[1].clone(), sample(5)[3].clone()]
    );
}

#[test]
fn split_with_orders_k_past_the_end_holds_out_all() {
    let d = DataSet::from_iter(sample(3));
    let r = d.split_with_orders(10, &vec![0, 1, 2], &vec![2, 0, 1]);
    assert!(r.trainning_data.into_iter().is_empty());
    assert_eq!(
        r.verification_data.into_iter(),
        vec![sample(3)[2].clone(), sample(3)[0].clone(), sample(3)[1].clone()]
    );
}

#[test]
fn k_fold_partitions_the_data() {
    for k in [0usize, 1, 3, 7, 8, 20] {
        let d = DataSet::from_iter(sample(8));
        let r = d.k_fold_cross_validation(k);
        let v = r.verification_data.into_iter();
        let t = r.trainning_data.into_iter();
        assert_eq!(v.len(), k.min(8));
        assert_eq!(t.len(), 8 - k.min(8));
        let mut all = t.clone();
        all.extend(v.clone());
        assert_eq!(sorted(all), sample(8));
    }
}

#[test]
fn k_fold_of_empty_data_is_empty() {
    let d: DataSet<u32> = DataSet::from_iter(Vec::new());
    let r = d.k_fold_cross_validation(3);
    assert!(r.verification_data.into_iter().is_empty());
    assert!(r.trainning_data.into_iter().is_empty());
}

#[test]
fn k_fold_held_out_and_training_are_one_shuffle() {
    let d = DataSet::from_iter(sample(6));
    let r = d.k_fold_cross_validation(2);
    let mut shuffled = r.verification_data.into_iter();
    shuffled.extend(r.trainning_data.into_iter());
    assert_eq!(shuffled.len(), 6);
    assert_eq!(sorted(shuffled), sample(6));
}

#[test]
fn k_fold_draws_are_random() {
    let mut seen_other_than_first = false;
    for _ in 0..64 {
        let d = DataSet::from_iter(sample(10));
        let v = d.k_fold_cross_validation(3).verification_data.into_iter();
        if v != sample(10)[..3].to_vec() {
            seen_other_than_first = true;
        }
    }
    assert!(seen_other_than_first);
}

#[test]
fn data_set_clones() {
    let d = DataSet::from_iter(sample(3));
    let e = d.clone();
    assert_eq!(d.into_iter(), e.into_iter());
}
