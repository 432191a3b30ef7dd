use odds::SliceCopyIter;

#[test]
fn end_to_end_example() {
    let data = [10, 20, 30, 40, 50];
    let mut it = SliceCopyIter::from(&data[..]);
    assert_eq!(it.next(), Some(10));
    assert_eq!(it.next_back(), Some(50));
    assert_eq!(it.len(), 3);
    // 30 is at offset 1 of the remaining [20, 30, 40]
    assert_eq!(it.position(|x| x == 30), Some(1));
    assert_eq!(it.len(), 1);
    assert_eq!(it.next(), Some(40));
    assert_eq!(it.next(), None);
}

#[test]
fn length_after_mixed_steps() {
    let data = [1u8, 2, 3, 4, 5, 6, 7, 8];
    let mut it = SliceCopyIter::from(&data[..]);
    assert_eq!(it.len(), 8);
    it.next();
    it.next_back();
    it.next();
    assert_eq!(it.len(), 5);
    it.next_back();
    it.next_back();
    assert_eq!(it.len(), 3);
    assert_eq!(it.size_hint(), (3, Some(3)));
    assert_eq!(it.count(), 3);
}

#[test]
fn forward_yields_in_order() {
    let data = [3, 1, 4, 1, 5];
    let mut it = SliceCopyIter::from(&data[..]);
    let mut out = Vec::new();
    while let Some(x) = it.next() {
        out.push(x);
    }
    assert_eq!(out, vec![3, 1, 4, 1, 5]);
}

#[test]
fn backward_yields_in_reverse() {
    let data = [3, 1, 4, 1, 5];
    let mut it = SliceCopyIter::from(&data[..]);
    let mut out = Vec::new();
    while let Some(x) = it.next_back() {
        out.push(x);
    }
    assert_eq!(out, vec![5, 1, 4, 1, 3]);
}

#[test]
fn split_front_then_back() {
    let data = [1, 2, 3, 4, 5, 6];
    for j in 0..=data.len() {
        let mut it = SliceCopyIter::from(&data[..]);
        let mut front = Vec::new();
        let mut back = Vec::new();
        for _ in 0..j {
            front.push(it.next().unwrap());
        }
        for _ in j..data.len() {
            back.push(it.next_back().unwrap());
        }
        assert_eq!(it.len(), 0);
        back.reverse();
        front.extend(back);
        assert_eq!(front, data.to_vec());
    }
}

#[test]
fn split_back_then_front() {
    let data = [1, 2, 3, 4, 5];
    let mut it = SliceCopyIter::from(&data[..]);
    assert_eq!(it.next_back(), Some(5));
    assert_eq!(it.next_back(), Some(4));
    assert_eq!(it.next(), Some(1));
    assert_eq!(it.next(), Some(2));
    assert_eq!(it.next(), Some(3));
    assert_eq!(it.next(), None);
    assert_eq!(it.next_back(), None);
}

#[test]
fn exhausted_stays_exhausted() {
    let data = [9];
    let mut it = SliceCopyIter::from(&data[..]);
    assert_eq!(it.next(), Some(9));
    for _ in 0..5 {
        assert_eq!(it.next(), None);
        assert_eq!(it.next_back(), None);
        assert_eq!(it.len(), 0);
    }
}

#[test]
fn default_is_empty() {
    let mut it: SliceCopyIter<u64> = SliceCopyIter::default();
    assert_eq!(it.len(), 0);
    assert_eq!(it.next(), None);
    assert_eq!(it.next_back(), None);
    assert_eq!(it.last(), None);
}

#[test]
fn index_reads_without_stepping() {
    let data = [10, 20, 30, 40];
    let mut it = SliceCopyIter::from(&data[..]);
    it.next();
    assert_eq!(*it.index(0), 20);
    assert_eq!(*it.index(2), 40);
    assert_eq!(it.len(), 3);
    let mut copy = it;
    copy.next();
    copy.next();
    assert_eq!(copy.next(), Some(*it.index(2)));
}

#[test]
fn window_constructor_and_raw_export() {
    let data = [5, 6, 7, 8, 9];
    let mut it = SliceCopyIter::new(&data[..], 1, 4);
    assert_eq!(it.start(), 1);
    assert_eq!(it.end(), 4);
    assert_eq!(it.len(), 3);
    assert_eq!(it.next(), Some(6));
    assert_eq!(it.next_back(), Some(8));
    let (region, start, end) = it.into_raw();
    assert_eq!(region, &data[..]);
    assert_eq!((start, end), (2, 3));
    let mut again = SliceCopyIter::new(region, start, end);
    assert_eq!(again.next(), Some(7));
    assert_eq!(again.next(), None);
}

#[test]
fn last_takes_the_back_element() {
    let data = [1, 2, 3];
    let it = SliceCopyIter::from(&data[..]);
    assert_eq!(it.last(), Some(3));
}

#[test]
fn copies_step_independently() {
    let data = [1, 2, 3];
    let mut a = SliceCopyIter::from(&data[..]);
    let mut b = a.clone();
    assert_eq!(a.next(), Some(1));
    assert_eq!(a.next(), Some(2));
    assert_eq!(b.next(), Some(1));
    assert_eq!(b.len(), 2);
    assert_eq!(a.len(), 1);
}

#[test]
fn copy_position_not_found_exhausts() {
    let data = [1, 2, 3, 4];
    let mut it = SliceCopyIter::from(&data[..]);
    assert_eq!(it.position(|x| x > 10), None);
    assert_eq!(it.len(), 0);
    assert_eq!(it.next(), None);
}

#[test]
fn copy_position_on_empty() {
    let data: [i32; 0] = [];
    let mut it = SliceCopyIter::from(&data[..]);
    assert_eq!(it.position(|_| true), None);
}

#[test]
fn copy_positions_follow_steps() {
    let data = [1, 2, 3];
    let mut it = SliceCopyIter::from(&data[..]);
    assert_eq!(it.next(), Some(1));
    assert_eq!((it.start(), it.end()), (1, 3));
    assert_eq!(it.next_back(), Some(3));
    assert_eq!((it.start(), it.end()), (1, 2));
    assert_eq!(it.next(), Some(2));
    assert_eq!((it.start(), it.end()), (2, 2));
    assert_eq!(it.next(), None);
    assert_eq!((it.start(), it.end()), (2, 2));
    let d: SliceCopyIter<u32> = SliceCopyIter::default();
    assert_eq!(d.start(), d.end());
}
