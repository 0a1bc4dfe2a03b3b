use callme::frames::{join_frames, process_each, take_frames};
use callme::ring::SampleRing;

#[test]
fn rings_are_first_in_first_out() {
    let mut ring = SampleRing::new(4);
    assert!(ring.is_empty());
    assert_eq!(ring.push_slice(&[1, 2, 3]), 3);
    assert_eq!(ring.occupied_len(), 3);
    assert_eq!(ring.pop_up_to(2), vec![1, 2]);
    assert_eq!(ring.push_slice(&[4, 5]), 2);
    assert_eq!(ring.pop_all(), vec![3, 4, 5]);
    assert!(ring.is_empty());
}

#[test]
fn full_rings_take_what_fits() {
    let mut ring = SampleRing::new(3);
    assert_eq!(ring.push_slice(&[1, 2]), 2);
    assert_eq!(ring.push_slice(&[3, 4, 5]), 1);
    assert_eq!(ring.push_slice(&[6]), 0);
    assert_eq!(ring.pop_all(), vec![1, 2, 3]);
    assert_eq!(ring.pop_all(), Vec::<u32>::new());
}

#[test]
fn popping_more_than_there_is_takes_all() {
    let mut ring = SampleRing::new(8);
    ring.push_slice(&[9, 8]);
    assert_eq!(ring.pop_up_to(100), vec![9, 8]);
    assert_eq!(ring.pop_up_to(0), Vec::<u32>::new());
}

#[test]
fn whole_frames_are_taken_and_the_rest_stays() {
    let mut buffer = vec![1, 2, 3, 4, 5, 6, 7];
    assert_eq!(take_frames(&mut buffer, 3), vec![vec![1, 2, 3], vec![4, 5, 6]]);
    assert_eq!(buffer, vec![7]);
}

#[test]
fn too_little_makes_no_frame() {
    let mut buffer = vec![1, 2];
    assert_eq!(take_frames(&mut buffer, 3), Vec::<Vec<u32>>::new());
    assert_eq!(buffer, vec![1, 2]);
}

#[test]
fn an_exact_fit_leaves_nothing() {
    let mut buffer = vec![1, 2, 3, 4];
    assert_eq!(take_frames(&mut buffer, 2), vec![vec![1, 2], vec![3, 4]]);
    assert!(buffer.is_empty());
}

#[test]
fn frames_and_rest_are_all_samples() {
    let samples: Vec<u32> = (0..1000).collect();
    let mut rest = samples.clone();
    let frames = take_frames(&mut rest, 48);
    let mut joined = join_frames(&frames);
    joined.extend(&rest);
    assert_eq!(joined, samples);
    assert_eq!(rest.len(), 40);
}

#[test]
fn frames_do_not_depend_on_portions() {
    let samples: Vec<u32> = (0..50).collect();
    let mut whole = samples.clone();
    let at_once = take_frames(&mut whole, 8);
    let mut buffer = samples[..21].to_vec();
    let mut in_portions = take_frames(&mut buffer, 8);
    buffer.extend(&samples[21..]);
    in_portions.extend(take_frames(&mut buffer, 8));
    assert_eq!(in_portions, at_once);
    assert_eq!(buffer, whole);
}

#[test]
fn each_frame_is_processed_in_order() {
    let frames = vec![vec![1, 2], vec![3, 4]];
    let work = |total: u32, frame: Vec<u32>| {
        let next = total + frame[0];
        (next, frame.iter().map(|sample| sample * 10 + total).collect())
    };
    let (done, last) = process_each(frames, 5, &work);
    assert_eq!(done, vec![vec![15, 25], vec![36, 46]]);
    assert_eq!(last, 9);
}
