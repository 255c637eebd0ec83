use enma::log::{banner, compose_banner};

#[test]
fn banner_draws_the_name_in_the_standard_font() {
    let made = banner("F", "0.1.0").unwrap();
    assert_eq!(
        made.figure,
        "  _____ \n |  ___|\n | |_   \n |  _|  \n |_|    \n        \n"
    );
    assert_eq!(made.line, "Starting F version: 0.1.0");
}

#[test]
fn banner_is_six_rows_high() {
    let made = banner("enma", "1.2.3").unwrap();
    assert_ne!(made.figure, "enma");
    assert_eq!(made.figure.lines().count(), 6);
    let width = made.figure.lines().next().unwrap().len();
    assert!(width > 4);
    assert!(made.figure.lines().all(|row| row.len() == width));
    assert_eq!(made.line, "Starting enma version: 1.2.3");
}

#[test]
fn banner_puts_the_letters_side_by_side() {
    let one = banner("F", "1").unwrap();
    let two = banner("FF", "1").unwrap();
    let rows_of_one: Vec<&str> = one.figure.lines().collect();
    let rows_of_two: Vec<&str> = two.figure.lines().collect();
    assert_eq!(rows_of_two.len(), rows_of_one.len());
    for (double, single) in rows_of_two.iter().zip(rows_of_one.iter()) {
        assert_eq!(*double, format!("{}{}", single, single));
    }
}

#[test]
fn no_banner_of_an_empty_name() {
    assert!(banner("", "0.1.0").is_none());
}

#[test]
fn no_banner_of_a_name_without_glyphs() {
    assert!(banner("\u{1F980}", "0.1.0").is_none());
}

#[test]
fn banner_is_composed_of_the_figure_given() {
    let made = compose_banner(Some(String::from("drawn")), "enma", "9").unwrap();
    assert_eq!(made.figure, "drawn");
    assert_eq!(made.line, "Starting enma version: 9");
    assert!(compose_banner(None, "enma", "9").is_none());
}
