use onig::{Region, Regex, SEARCH_OPTION_NONE};

#[test]
fn test_region_create() {
    Region::new();
}

#[test]
fn test_region_clear() {
    let mut region = Region::new();
    region.clear();
}

#[test]
fn test_region_copy() {
    let region = Region::new();
    let new_region = region.clone();
    assert_eq!(new_region.len(), region.len());
}

#[test]
fn test_region_resize() {
    {
        let mut region = Region::new();
        assert!(region.capacity() == 0);
        region.reserve(100);
        {
            let region_borrowed = &region;
            assert!(region_borrowed.capacity() == 100);
        }
    }

    {
        let region = Region::with_capacity(10);
        assert!(region.capacity() == 10);
    }
}

#[test]
fn clone_is_independent_of_later_searches() {
    let mut region = Region::new();
    let regex = Regex::new("e(l+)").unwrap();
    regex.search_with_options("hello", 0, 5, SEARCH_OPTION_NONE, Some(&mut region));
    let copy = region.clone();
    assert_eq!(copy.pos(0), Some((1, 4)));
    let other = Regex::new("(o)").unwrap();
    other.search_with_options("hello", 0, 5, SEARCH_OPTION_NONE, Some(&mut region));
    assert_eq!(region.pos(0), Some((4, 5)));
    assert_eq!(copy.pos(0), Some((1, 4)));
    assert_eq!(copy.pos(1), Some((2, 4)));
    region.clear();
    assert_eq!(region.len(), 0);
    assert_eq!(copy.len(), 2);
}

#[test]
fn region_pos_out_of_range_and_clear() {
    let mut region = Region::with_capacity(3);
    let regex = Regex::new("(a)|(b)").unwrap();
    regex.search_with_options("b", 0, 1, SEARCH_OPTION_NONE, Some(&mut region));
    assert_eq!(region.len(), 3);
    assert_eq!(region.pos(1), None);
    assert_eq!(region.pos(2), Some((0, 1)));
    assert_eq!(region.pos(3), None);
    region.clear();
    assert_eq!(region.len(), 0);
    assert_eq!(region.capacity(), 3);
    region.reserve(1);
    assert_eq!(region.capacity(), 3);
}
