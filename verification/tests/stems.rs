use image_search::{stem_name, StemAllocator};

fn allocate(base: &str, count: usize, files: &[&str]) -> Vec<String> {
    let mut allocator = StemAllocator::new(count);
    while let Some(number) = allocator.candidate() {
        let prefix = format!("{}.", stem_name(base, number));
        let taken = files.iter().any(|file| file.starts_with(&prefix));
        allocator.observe(taken);
    }
    allocator.stems(base)
}

#[test]
fn stem_is_base_and_number() {
    assert_eq!(stem_name("cat", 0), "cat0");
    assert_eq!(stem_name("cat", 7), "cat7");
    assert_eq!(stem_name("cat", 10), "cat10");
    assert_eq!(stem_name("cat", 1234567890), "cat1234567890");
    assert_eq!(stem_name("", 100), "100");
    assert_eq!(stem_name("two words", 42), "two words42");
    assert_eq!(stem_name("n", u64::MAX), "n18446744073709551615");
}

#[test]
fn taken_stem_is_skipped_and_never_used() {
    assert_eq!(allocate("cat", 2, &["cat0.png"]), vec!["cat1".to_string(), "cat2".to_string()]);
}

#[test]
fn free_directory_gives_the_first_numbers() {
    assert_eq!(
        allocate("cat", 3, &[]),
        vec!["cat0".to_string(), "cat1".to_string(), "cat2".to_string()]
    );
    assert_eq!(
        allocate("cat", 2, &["dog0.png", "cat", "cat0", "xcat0.png", "cat00.png"]),
        vec!["cat0".to_string(), "cat1".to_string()]
    );
}

#[test]
fn several_taken_stems_are_skipped() {
    assert_eq!(
        allocate("cat", 3, &["cat0.png", "cat1.jpg", "cat3.svg", "cat4.tar.gz", "cat10.png"]),
        vec!["cat2".to_string(), "cat5".to_string(), "cat6".to_string()]
    );
}

#[test]
fn nothing_wanted_gives_nothing() {
    let allocator = StemAllocator::new(0);
    assert_eq!(allocator.candidate(), None);
    assert_eq!(allocator.granted(), Vec::<u64>::new());
    assert_eq!(allocate("cat", 0, &["cat0.png"]), Vec::<String>::new());
}

#[test]
fn allocator_steps() {
    let mut allocator = StemAllocator::new(2);
    assert_eq!(allocator.candidate(), Some(0));
    allocator.observe(true);
    assert_eq!(allocator.candidate(), Some(1));
    assert_eq!(allocator.granted(), Vec::<u64>::new());
    allocator.observe(false);
    assert_eq!(allocator.candidate(), Some(2));
    assert_eq!(allocator.granted(), vec![1]);
    allocator.observe(true);
    assert_eq!(allocator.candidate(), Some(3));
    allocator.observe(false);
    assert_eq!(allocator.candidate(), None);
    assert_eq!(allocator.granted(), vec![1, 3]);
    allocator.observe(false);
    allocator.observe(true);
    assert_eq!(allocator.candidate(), None);
    assert_eq!(allocator.granted(), vec![1, 3]);
    assert_eq!(allocator.stems("q"), vec!["q1".to_string(), "q3".to_string()]);
}

#[test]
fn pattern_is_stem_dot_and_anything() {
    assert_eq!(image_search::stem_pattern("pics/cat0".to_string()), "pics/cat0.*");
    assert_eq!(image_search::stem_pattern(String::new()), ".*");
    assert_eq!(image_search::stem_pattern(stem_name("v1.2", 3)), "v1.23.*");
}

#[test]
fn a_name_is_taken_only_where_a_file_was_found() {
    assert!(image_search::taken_from(Some(true)));
    assert!(!image_search::taken_from(Some(false)));
    assert!(!image_search::taken_from(None));
}
