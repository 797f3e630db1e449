use rhorizons::parsing::{take_or_empty, EphemerisItem, EphemerisParser, MajorBody, MajorBodyParseError};

#[test]
fn parsing_check_take_or_empty() {
    assert_eq!(("a", ""), take_or_empty("a", 1));
    assert_eq!(("", "a"), take_or_empty("a", 0));
    assert_eq!(("ab", "cd"), take_or_empty("abcd", 2));
    assert_eq!(("ab", ""), take_or_empty("ab", 4));
}

#[test]
fn parsing_reading_major_bodies() {
    assert_eq!(
        MajorBody {
            id: 0,
            name: "Solar System Barycenter".to_string()
        },
        MajorBody::try_from("        0  Solar System Barycenter                         SSB")
            .unwrap()
    );

    assert_eq!(
        MajorBody {
            id: 699,
            name: "Saturn".to_string()
        },
        MajorBody::try_from("      699  Saturn").unwrap()
    );

    assert_eq!(
        MajorBody {
            id: -78000,
            name: "Chang'e_5-T1_booster (spacecraft)".to_string()
        },
        MajorBody::try_from("  -78000  Chang'e_5-T1_booster (spacecraft)  WE0913A      2014-065B")
            .unwrap()
    );
}

#[test]
fn parsing_error_cases_when_parsing_major_bodies() {
    assert!(matches!(
        MajorBody::try_from("****************").unwrap_err(),
        MajorBodyParseError::InvalidId(_)
    ));

    assert!(matches!(
        MajorBody::try_from("").unwrap_err(),
        MajorBodyParseError::InvalidId(_)
    ));
}

#[test]
fn test_parsing_ephemeris() {
    let data = [
        "*******************************************************************************",
        "Ephemeris / WWW_USER Mon Aug 15 05:22:40 2022 Pasadena, USA      / Horizons    ",
        "Center body name: Sun (10)                        {source: DE441}              ",
        "$$SOE",
        "2459805.330509259 = A.D. 2022-Aug-13 19:55:56.0000 TDB ",
        " X = 1.870010427985840E+02 Y = 2.484687803242536E+03 Z =-5.861602653492581E+03",
        " VX=-3.362664133558439E-01 VY= 1.344100266143978E-02 VZ=-5.030275220358716E-03",
        " LT= 2.123923367608042E-02 RG= 6.367291037007624E+03 RR= 1.219751009885021E-03",
        "2459805.372175926 = A.D. 2022-Aug-13 20:55:56.0000 TDB ",
        " X =-1.278636010062182E+03 Y = 2.137633816862523E+03 Z =-5.867162254123187E+03",
        " VX=-4.629067965690607E-01 VY=-1.781519420886329E-01 VZ= 3.591107727980415E-02",
        " LT= 2.123920781470674E-02 RG= 6.367283284698861E+03 RR=-3.429557211476954E-03",
        "2459805.413842593 = A.D. 2022-Aug-13 21:55:56.0000 TDB ",
        " X =-2.455163934035963E+03 Y = 1.283713567041821E+03 Z =-5.736622418355254E+03",
        " VX=-4.616594426593483E-01 VY=-2.943107286528843E-01 VZ= 1.310280559686002E-01",
        " LT= 2.123922106825944E-02 RG= 6.367287258034246E+03 RR=-7.513325997711459E-04",
        "2459805.455509259 = A.D. 2022-Aug-13 22:55:56.0000 TDB ",
        " X =-3.316801967428570E+03 Y = 2.676491864843515E+02 Z =-5.399156527972070E+03",
        " VX=-3.918506478847657E-01 VY=-3.828504782112237E-01 VZ= 2.216089239348771E-01",
        " LT= 2.123927754336237E-02 RG= 6.367304230441562E+03 RR= 5.094833357956029E-03",
        "$$EOE",
        "*******************************************************************************",
    ]
    .map(str::to_string)
    .to_vec();
    let mut parser = EphemerisParser::parse(data);
    let mut ephem: Vec<EphemerisItem> = Vec::new();
    while let Some(outcome) = parser.next() {
        ephem.push(outcome.expect("well-formed record"));
    }
    assert_eq!(4, ephem.len());
    assert_eq!(
        EphemerisItem {
            position: vec![
                "1.870010427985840E+02".to_string(),
                "2.484687803242536E+03".to_string(),
                "-5.861602653492581E+03".to_string(),
            ],
        },
        ephem[0]
    );
    let position: Vec<f32> = ephem[0]
        .position
        .iter()
        .map(|t| t.parse::<f32>().unwrap())
        .collect();
    assert_eq!(
        vec![
            1.870010427985840E+02_f32,
            2.484687803242536E+03,
            -5.861602653492581E+03
        ],
        position
    );
}

#[test]
fn sentinel_in_place_of_unread_lines_ends_the_block() {
    // the end sentinel where the velocity line belongs: the record is
    // dropped, not emitted
    let cut_at_velocity: Vec<String> = [
        "$$SOE",
        "2459805.330509259 = A.D. 2022-Aug-13 19:55:56.0000 TDB ",
        " X = 1.870010427985840E+02 Y = 2.484687803242536E+03 Z =-5.861602653492581E+03",
        "$$EOE",
    ]
    .map(str::to_string)
    .to_vec();
    let mut parser = EphemerisParser::parse(cut_at_velocity);
    assert!(parser.next().is_none());

    // the end sentinel where the auxiliary line belongs: likewise
    let cut_at_auxiliary: Vec<String> = [
        "$$SOE",
        "2459805.330509259 = A.D. 2022-Aug-13 19:55:56.0000 TDB ",
        " X = 1.870010427985840E+02 Y = 2.484687803242536E+03 Z =-5.861602653492581E+03",
        " VX=-3.362664133558439E-01 VY= 1.344100266143978E-02 VZ=-5.030275220358716E-03",
        "$$EOE",
    ]
    .map(str::to_string)
    .to_vec();
    let mut parser = EphemerisParser::parse(cut_at_auxiliary);
    assert!(parser.next().is_none());
}
