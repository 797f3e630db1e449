use rhorizons::major_bodies::{catalog_bodies, MajorBody, MajorBodyParseError};
use rhorizons::numbers::IntParseError;

#[test]
fn major_bodies_reading_major_bodies() {
    assert_eq!(
        MajorBody {
            id: 0,
            name: "Solar System Barycenter".to_string()
        },
        MajorBody::try_from("        0  Solar System Barycenter                         SSB")
            .unwrap()
    );

    assert_eq!(
        MajorBody {
            id: 699,
            name: "Saturn".to_string()
        },
        MajorBody::try_from("      699  Saturn").unwrap()
    );

    assert_eq!(
        MajorBody {
            id: -78000,
            name: "Chang'e_5-T1_booster (spacecraft)".to_string()
        },
        MajorBody::try_from("  -78000  Chang'e_5-T1_booster (spacecraft)  WE0913A      2014-065B")
            .unwrap()
    );
}

#[test]
fn major_bodies_error_cases_when_parsing_major_bodies() {
    assert!(matches!(
        MajorBody::try_from("****************").unwrap_err(),
        MajorBodyParseError::InvalidId(_)
    ));

    assert!(matches!(
        MajorBody::try_from("").unwrap_err(),
        MajorBodyParseError::InvalidId(_)
    ));
}

#[test]
fn major_body_id_error_kinds() {
    // decoration characters in the id column
    assert_eq!(
        MajorBodyParseError::InvalidId(IntParseError::InvalidDigit),
        MajorBody::try_from("****************").unwrap_err()
    );
    // an empty line has an empty id column
    assert_eq!(
        MajorBodyParseError::InvalidId(IntParseError::Empty),
        MajorBody::try_from("").unwrap_err()
    );
    // a blank id column trims to nothing
    assert_eq!(
        MajorBodyParseError::InvalidId(IntParseError::Empty),
        MajorBody::try_from("             Some Name").unwrap_err()
    );
    // a sign without digits
    assert_eq!(
        MajorBodyParseError::InvalidId(IntParseError::InvalidDigit),
        MajorBody::try_from("        -  Dash").unwrap_err()
    );
}

#[test]
fn catalog_batch_keeps_data_lines_and_drops_decoration() {
    let listing: Vec<String> = [
        "*******************************************************************************",
        " Multiple major-bodies match string \"MB\"",
        "",
        "  ID#      Name                               Designation  IAU/aliases/other",
        "  -------  ---------------------------------- -----------  -------------------",
        "        0  Solar System Barycenter                         SSB",
        "      699  Saturn",
        "  -78000  Chang'e_5-T1_booster (spacecraft)  WE0913A      2014-065B",
        "*******************************************************************************",
    ]
    .map(str::to_string)
    .to_vec();
    let bodies = catalog_bodies(&listing);
    assert_eq!(3, bodies.len());
    assert_eq!(
        MajorBody {
            id: 0,
            name: "Solar System Barycenter".to_string()
        },
        bodies[0]
    );
    assert_eq!(699, bodies[1].id);
    assert_eq!("Saturn", bodies[1].name);
    assert_eq!(-78000, bodies[2].id);
    // an empty listing is an empty catalog, not an error
    assert!(catalog_bodies(&Vec::new()).is_empty());
}

#[test]
fn major_body_name_is_truncated_by_column_width() {
    // the name column is 35 characters wide; what follows is dropped
    let line = format!("{}{:<35}{}", "      399", "  Earth", "Geocenter");
    let body = MajorBody::try_from(&line).unwrap();
    assert_eq!(399, body.id);
    assert_eq!("Earth", body.name);
}
