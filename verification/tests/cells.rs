use signal_ext::{Load, Memory, SharedBox};

#[test]
fn clones_share_one_cell() {
    let mut memory = Memory::new();
    let first = SharedBox::new(&mut memory, 1);
    let second = SharedBox::new(&mut memory, 10);
    let clone = first.clone();
    first.set(&mut memory, 2);
    assert_eq!(clone.get(&memory), 2);
    clone.set(&mut memory, 3);
    assert_eq!(first.get(&memory), 3);
    assert_eq!(second.get(&memory), 10);
}

#[test]
fn new_cell_leaves_the_others_alone() {
    let mut memory = Memory::new();
    let first = SharedBox::new(&mut memory, String::from("first"));
    let second = SharedBox::new(&mut memory, String::from("second"));
    assert_eq!(first.get_cloned(&memory), "first");
    assert_eq!(second.get_cloned(&memory), "second");
}

#[test]
fn take_leaves_the_default() {
    let mut memory = Memory::new();
    let flag = SharedBox::new(&mut memory, true);
    assert!(flag.take(&mut memory));
    assert!(!flag.get(&memory));
    assert!(!flag.take(&mut memory));
    let mut texts = Memory::new();
    let text = SharedBox::new(&mut texts, String::from("kept"));
    assert_eq!(text.take(&mut texts), "kept");
    assert_eq!(text.get_cloned(&texts), "");
}

#[test]
fn with_mut_applies_the_function_to_the_content() {
    let mut memory = Memory::new();
    let text = SharedBox::new(&mut memory, String::from("four"));
    assert_eq!(text.with_mut(&memory, |t: &String| t.len()), 4);
    assert_eq!(text.get_cloned(&memory), "four");
}

#[test]
fn from_to_replaces_the_content() {
    let mut memory = Memory::new();
    let cell = SharedBox::new(&mut memory, 5);
    let clone = cell.clone();
    cell.from_to(&mut memory, &5, 7);
    assert_eq!(clone.get(&memory), 7);
    clone.from_to(&mut memory, &7, 7);
    assert_eq!(cell.get(&memory), 7);
}

#[test]
fn load_states() {
    let loading: Load<i32> = Load::Loading;
    let ready = Load::Ready(4);
    assert!(!loading.is_ready());
    assert!(ready.is_ready());
    assert_eq!(loading.ready(), None);
    assert_eq!(ready.ready(), Some(4));
    assert_ne!(loading, ready);
}

#[test]
fn load_borrowed_and_cloned() {
    let ready = Load::Ready(String::from("value"));
    assert_eq!(ready.as_ref(), Load::Ready(&String::from("value")));
    assert_eq!(ready.as_ref().cloned(), ready);
    assert_eq!(ready.clone(), ready);
    let loading: Load<String> = Load::Loading;
    assert_eq!(loading.as_ref(), Load::Loading);
    assert_eq!(loading.as_ref().cloned(), loading);
    assert_eq!(loading.clone(), loading);
}
