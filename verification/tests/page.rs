use filebuffer::page::{is_page_size, round_down_to, round_up_to};

#[test]
fn verify_round_up_to() {
    assert_eq!(1024, round_up_to(23, 1024));
    assert_eq!(1024, round_up_to(1024, 1024));
    assert_eq!(2048, round_up_to(1025, 1024));
}

#[test]
fn verify_round_down_to() {
    assert_eq!(0, round_down_to(23, 1024));
    assert_eq!(1024, round_down_to(1024, 1024));
    assert_eq!(1024, round_down_to(1025, 1024));
}

#[test]
fn round_down_of_zero_is_zero() {
    assert_eq!(0, round_down_to(0, 1));
    assert_eq!(0, round_down_to(0, 4096));
    assert_eq!(0, round_up_to(0, 4096));
}

#[test]
fn rounding_to_one_changes_nothing() {
    assert_eq!(12345, round_down_to(12345, 1));
    assert_eq!(12345, round_up_to(12345, 1));
    assert_eq!(usize::MAX, round_down_to(usize::MAX, 1));
    assert_eq!(usize::MAX, round_up_to(usize::MAX, 1));
}

#[test]
fn rounding_at_the_end_of_the_address_space() {
    let top = usize::MAX - 4095;
    assert_eq!(top, round_down_to(usize::MAX, 4096));
    assert_eq!(top, round_up_to(top, 4096));
    assert_eq!(top, round_up_to(top - 1, 4096));
    assert_eq!(top, round_up_to(top - 4095, 4096));
}

#[test]
fn rounded_values_are_the_nearest_multiples() {
    let page_size = 4096;
    let mut size = 0;
    while size < 3 * page_size {
        let down = round_down_to(size, page_size);
        let up = round_up_to(size, page_size);
        assert_eq!(0, down % page_size);
        assert_eq!(0, up % page_size);
        assert!(down <= size && size - down < page_size);
        assert!(size <= up && up - size < page_size);
        assert_eq!(down, size / page_size * page_size);
        size += 97;
    }
}

#[test]
fn page_sizes_are_the_powers_of_two() {
    assert!(!is_page_size(0));
    assert!(is_page_size(1));
    assert!(is_page_size(2));
    assert!(!is_page_size(3));
    assert!(is_page_size(4096));
    assert!(!is_page_size(4097));
    assert!(!is_page_size(12288));
    assert!(is_page_size(65536));
    assert!(is_page_size(usize::MAX / 2 + 1));
    assert!(!is_page_size(usize::MAX));
    let mut power = 1usize;
    let mut count = 0;
    while power != 0 {
        assert!(is_page_size(power));
        assert!(power < 3 || !is_page_size(power - 1));
        power <<= 1;
        count += 1;
    }
    assert_eq!(usize::BITS, count);
}
