use rhorizons::properties::{ParseError, Properties};

fn mass_of(p: &Properties) -> f32 {
    let mantissa: f32 = p.mass_mantissa.parse().unwrap();
    let exponent: f32 = p.mass_exponent.parse().unwrap();
    mantissa * 10_f32.powf(exponent)
}

fn earth_block() -> Vec<String> {
    [
        "*******************************************************************************",
        " Revised: April 12, 2021                 Earth                              399",
        " ",
        " GEOPHYSICAL PROPERTIES (revised May 9, 2022):",
        "  Vol. Mean Radius (km)    = 6371.01+-0.02   Mass x10^24 (kg)= 5.97219+-0.0006",
        "  Equ. radius, km          = 6378.137        Mass layers:",
        "*******************************************************************************",
    ]
    .map(str::to_string)
    .to_vec()
}

fn massless_block() -> Vec<String> {
    [
        "*******************************************************************************",
        " Revised: April 12, 2021        Solar System Barycenter                       0",
        " Dynamical point; no geophysical properties are published for it.",
        "$$SOE",
        "2459805.330509259 = A.D. 2022-Aug-13 19:55:56.0000 TDB ",
        " X = 1.870010427985840E+02 Y = 2.484687803242536E+03 Z =-5.861602653492581E+03",
        "$$EOE",
    ]
    .map(str::to_string)
    .to_vec()
}

#[test]
fn test_parsing_mass() {
    let properties = Properties::parse(&earth_block()).unwrap();
    assert_eq!(5.97219E24, mass_of(&properties));
}

#[test]
fn test_mass_missing_in_horizons_output() {
    assert_eq!(Err(ParseError), Properties::parse(&massless_block()));
}

#[test]
fn mass_fields_hold_the_exact_text() {
    let properties = Properties::parse(&earth_block()).unwrap();
    assert_eq!("5.97219", properties.mass_mantissa);
    assert_eq!("24", properties.mass_exponent);
}

#[test]
fn first_mass_line_wins() {
    let mut block = earth_block();
    block.push(format!(
        "{:<45}{}",
        "  A second, bogus property table follows", "Mass x10^11 (kg)= 1.11111+-0.0001"
    ));
    let properties = Properties::parse(&block).unwrap();
    assert_eq!("5.97219", properties.mass_mantissa);
    assert_eq!("24", properties.mass_exponent);
}

#[test]
fn mass_label_off_its_column_is_not_found() {
    // the mass label must sit exactly past the 45-character margin
    let block = vec!["Mass x10^24 (kg)= 5.97219+-0.0006".to_string()];
    assert_eq!(Err(ParseError), Properties::parse(&block));
}

#[test]
fn unreadable_mass_numbers_are_not_a_match() {
    // exponent and mantissa must be numeric text for the line to count
    let block = vec![
        format!("{:<45}{}", "", "Mass x10^xy (kg)= 5.97219+-0.0006"),
        format!("{:<45}{}", "", "Mass x10^24 (kg)= garbage+-0.0006"),
    ];
    assert_eq!(Err(ParseError), Properties::parse(&block));
}
