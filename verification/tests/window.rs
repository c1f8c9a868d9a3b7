use balatro_mod_index::lfs::window::{Step, Window};

fn start(step: Step<u32>) -> usize {
    match step {
        Step::Start(index) => index,
        Step::Wait => panic!("told to wait"),
        Step::Done(_) => panic!("told that all is done"),
    }
}

fn is_wait(step: Step<u32>) -> bool {
    matches!(step, Step::Wait)
}

#[test]
fn tasks_start_while_slots_are_free() {
    let mut window: Window<u32> = Window::new(5, 2);
    assert_eq!(window.in_flight(), 0);
    assert_eq!(start(window.step()), 4);
    assert_eq!(start(window.step()), 3);
    assert_eq!(window.in_flight(), 2);
    assert!(is_wait(window.step()));
    assert!(is_wait(window.step()));
    assert_eq!(window.in_flight(), 2);
}

#[test]
fn a_task_that_ends_frees_its_slot_at_once() {
    let mut window: Window<u32> = Window::new(4, 2);
    assert_eq!(start(window.step()), 3);
    assert_eq!(start(window.step()), 2);
    assert!(window.land(2, 20));
    assert_eq!(window.in_flight(), 1);
    assert_eq!(start(window.step()), 1);
    assert!(is_wait(window.step()));
    assert!(window.land(1, 10));
    assert_eq!(start(window.step()), 0);
    assert!(is_wait(window.step()));
    assert!(window.land(3, 30));
    assert!(is_wait(window.step()));
    assert!(window.land(0, 0));
    match window.step() {
        Step::Done(outcomes) => assert_eq!(outcomes, vec![0, 10, 20, 30]),
        _ => panic!("not done"),
    }
}

#[test]
fn outcomes_come_out_in_task_order_whatever_the_order_of_arrival() {
    let total = 97;
    for budget in [1usize, 2, 7, 50, 97, 1000] {
        let mut window: Window<u32> = Window::new(total, budget);
        let mut running: Vec<usize> = Vec::new();
        let mut seed: u64 = 0x2545_f491_4f6c_dd1d ^ budget as u64;
        let mut most = 0;
        let outcomes = loop {
            match window.step() {
                Step::Start(index) => running.push(index),
                Step::Wait => {
                    seed ^= seed << 13;
                    seed ^= seed >> 7;
                    seed ^= seed << 17;
                    let pick = (seed % running.len() as u64) as usize;
                    let index = running.swap_remove(pick);
                    assert!(window.land(index, 1000 + index as u32));
                },
                Step::Done(outcomes) => break outcomes,
            }
            most = most.max(running.len());
            assert!(running.len() <= budget);
            assert_eq!(window.in_flight(), running.len());
        };
        assert_eq!(most, budget.min(total));
        let expected: Vec<u32> = (0..total as u32).map(|i| 1000 + i).collect();
        assert_eq!(outcomes, expected);
    }
}

#[test]
fn no_tasks_are_done_at_once() {
    let mut window: Window<u32> = Window::new(0, 3);
    match window.step() {
        Step::Done(outcomes) => assert!(outcomes.is_empty()),
        _ => panic!("not done"),
    }
}

#[test]
fn outcome_of_a_task_that_does_not_run_is_dropped() {
    let mut window: Window<u32> = Window::new(3, 1);
    assert!(!window.land(2, 7));
    assert!(!window.land(3, 7));
    assert!(!window.land(usize::MAX, 7));
    assert_eq!(start(window.step()), 2);
    assert!(!window.land(1, 7));
    assert!(window.land(2, 22));
    assert!(!window.land(2, 99));
    assert_eq!(start(window.step()), 1);
    assert!(window.land(1, 11));
    assert_eq!(start(window.step()), 0);
    assert!(window.land(0, 0));
    match window.step() {
        Step::Done(outcomes) => assert_eq!(outcomes, vec![0, 11, 22]),
        _ => panic!("not done"),
    }
}

#[test]
fn window_is_empty_after_it_handed_out() {
    let mut window: Window<u32> = Window::new(1, 1);
    assert_eq!(start(window.step()), 0);
    assert!(window.land(0, 5));
    assert!(matches!(window.step(), Step::Done(ref outcomes) if outcomes == &vec![5]));
    assert!(matches!(window.step(), Step::Done(ref outcomes) if outcomes.is_empty()));
    assert!(!window.land(0, 6));
}

#[test]
fn window_without_a_slot_starts_nothing_and_is_never_done() {
    let mut window: Window<u32> = Window::new(2, 0);
    for _ in 0..5 {
        assert!(is_wait(window.step()));
        assert_eq!(window.in_flight(), 0);
    }
    assert!(!window.land(1, 7));
    let mut empty: Window<u32> = Window::new(0, 0);
    assert!(matches!(empty.step(), Step::Done(ref outcomes) if outcomes.is_empty()));
}
