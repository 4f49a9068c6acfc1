use memory_game::input::{chars_of, parse_and_check_bounds, parse_coord, CoordInputError};
use memory_game::model::game::Coord;

fn as_std_does(s: &str, lower: usize, upper: usize) -> (bool, usize) {
    match s.trim().parse::<usize>() {
        Ok(val) => (val >= lower && val <= upper, val),
        Err(_) => (false, 0),
    }
}

#[test]
fn chars_of_gives_the_characters_in_order() {
    assert_eq!(chars_of(""), Vec::<char>::new());
    assert_eq!(chars_of("a,ß 3"), vec!['a', ',', 'ß', ' ', '3']);
}

#[test]
fn number_within_bounds_is_accepted() {
    assert_eq!(parse_and_check_bounds("3", 0, 7), (true, 3));
    assert_eq!(parse_and_check_bounds(" 7\n", 0, 7), (true, 7));
    assert_eq!(parse_and_check_bounds("0", 0, 7), (true, 0));
    assert_eq!(parse_and_check_bounds("+5", 0, 7), (true, 5));
    assert_eq!(parse_and_check_bounds("007", 0, 7), (true, 7));
    assert_eq!(parse_and_check_bounds("5", 5, 5), (true, 5));
}

#[test]
fn number_out_of_bounds_is_refused_and_returned() {
    assert_eq!(parse_and_check_bounds("8", 0, 7), (false, 8));
    assert_eq!(parse_and_check_bounds("2", 3, 7), (false, 2));
    assert_eq!(parse_and_check_bounds("1234", 0, 7), (false, 1234));
}

#[test]
fn what_is_no_number_is_refused_with_zero() {
    for s in ["", " ", "abc", "3a", "a3", "-1", "-0", "+", "++1", "1 2", "1.0", "0x10", "٣", "１"] {
        assert_eq!(parse_and_check_bounds(s, 0, 7), (false, 0));
    }
}

#[test]
fn number_that_does_not_fit_is_refused_with_zero() {
    let max = usize::MAX.to_string();
    assert_eq!(parse_and_check_bounds(&max, 0, usize::MAX), (true, usize::MAX));
    let mut above = max.clone();
    let last = above.pop().unwrap();
    above.push(char::from_digit(last.to_digit(10).unwrap() + 1, 10).unwrap());
    assert_eq!(parse_and_check_bounds(&above, 0, usize::MAX), (false, 0));
    let longer = format!("{}0", max);
    assert_eq!(parse_and_check_bounds(&longer, 0, usize::MAX), (false, 0));
    assert_eq!(parse_and_check_bounds("99999999999999999999999999", 0, usize::MAX), (false, 0));
}

#[test]
fn numbers_are_read_as_std_reads_them() {
    let samples = [
        "", "0", "7", " 7", "7 ", "\t7\r\n", "\u{a0}7\u{3000}", "\u{2003}12\u{85}", "\u{200b}7",
        "+7", " +7 ", "+ 7", "-7", "+", "+-7", "7+", "00", "0010", "18446744073709551615",
        "18446744073709551616", "4294967295", "4294967296", "12a", "a12", "1,2", "１２", "1_000",
        "\u{1680}5\u{205f}", "\u{2028}6\u{2029}", "\u{202f}4", "\u{b}3\u{c}", "\u{1c}3", "9\u{feff}",
    ];
    for s in samples {
        for (lower, upper) in [(0, 7), (0, usize::MAX), (3, 5), (8, 7)] {
            assert_eq!(parse_and_check_bounds(s, lower, upper), as_std_does(s, lower, upper));
        }
    }
    for n in 0..300usize {
        let s = format!(" {}\n", n);
        assert_eq!(parse_and_check_bounds(&s, 0, 7), (n <= 7, n));
    }
}

#[test]
fn line_with_two_numbers_names_a_coordinate() {
    assert_eq!(parse_coord("3, 5", 7), Ok(Coord(3, 5)));
    assert_eq!(parse_coord("3,5\n", 7), Ok(Coord(3, 5)));
    assert_eq!(parse_coord(" 0 , 7 \r\n", 7), Ok(Coord(0, 7)));
    assert_eq!(parse_coord("+1,+2", 7), Ok(Coord(1, 2)));
}

#[test]
fn line_that_is_not_two_parts_is_refused() {
    for line in ["", "3", "3 5", "3;5", "1,2,3", "1,2,", ",1,2", ",,"] {
        assert_eq!(parse_coord(line, 7), Err(CoordInputError::NotTwoParts));
    }
}

#[test]
fn line_with_a_part_out_of_range_is_refused() {
    for line in ["8, 1", "1, 8", "a, 1", "1, b", ",", "1,", ",1", "-1, 2", "1 2, 3"] {
        assert_eq!(parse_coord(line, 7), Err(CoordInputError::NotInRange));
    }
    assert_eq!(parse_coord("8, 1", 8), Ok(Coord(8, 1)));
}
