use parkour::ecs_close::close_on_esc;

#[test]
fn escape_closes_focused_windows() {
    assert_eq!(close_on_esc(&vec![true, false, true], true), vec![0, 2]);
}

#[test]
fn no_escape_closes_nothing() {
    assert_eq!(close_on_esc(&vec![true, true], false), Vec::<usize>::new());
}

#[test]
fn no_windows_no_close() {
    assert_eq!(close_on_esc(&vec![], true), Vec::<usize>::new());
    assert_eq!(close_on_esc(&vec![false], true), Vec::<usize>::new());
}
