use rhorizons::datetime::DateTime;
use rhorizons::ephemeris::{
    EphemerisOrbitalElementsItem, EphemerisOrbitalElementsParser, EphemerisVectorItem,
    EphemerisVectorParser, MalformedRecord,
};

fn lines_of(text: &str) -> Vec<String> {
    text.lines().map(str::to_string).collect()
}

fn vector_text() -> String {
    [
        "*******************************************************************************",
        "Ephemeris / WWW_USER Mon Aug 15 05:22:40 2022 Pasadena, USA      / Horizons    ",
        "Center body name: Sun (10)                        {source: DE441}              ",
        "$$SOE",
        "2459805.330509259 = A.D. 2022-Aug-13 19:55:56.0000 TDB ",
        " X = 1.870010427985840E+02 Y = 2.484687803242536E+03 Z =-5.861602653492581E+03",
        " VX=-3.362664133558439E-01 VY= 1.344100266143978E-02 VZ=-5.030275220358716E-03",
        " LT= 2.123923367608042E-02 RG= 6.367291037007624E+03 RR= 1.219751009885021E-03",
        "2459805.372175926 = A.D. 2022-Aug-13 20:55:56.0000 TDB ",
        " X =-1.278636010062182E+03 Y = 2.137633816862523E+03 Z =-5.867162254123187E+03",
        " VX=-4.629067965690607E-01 VY=-1.781519420886329E-01 VZ= 3.591107727980415E-02",
        " LT= 2.123920781470674E-02 RG= 6.367283284698861E+03 RR=-3.429557211476954E-03",
        "2459805.413842593 = A.D. 2022-Aug-13 21:55:56.0000 TDB ",
        " X =-2.455163934035963E+03 Y = 1.283713567041821E+03 Z =-5.736622418355254E+03",
        " VX=-4.616594426593483E-01 VY=-2.943107286528843E-01 VZ= 1.310280559686002E-01",
        " LT= this auxiliary line is discarded unread, whatever it may hold 1234567890",
        "2459805.455509259 = A.D. 2022-Aug-13 22:55:56.0000 TDB ",
        " X =-3.316801967428570E+03 Y = 2.676491864843515E+02 Z =-5.399156527972070E+03",
        " VX=-3.918506478847657E-01 VY=-3.828504782112237E-01 VZ= 2.216089239348771E-01",
        " LT= 2.123927754336237E-02 RG= 6.367304230441562E+03 RR= 5.094833357956029E-03",
        "$$EOE",
        "*******************************************************************************",
    ]
    .join("\n")
}

fn orbital_text() -> String {
    [
        "*******************************************************************************",
        "Ephemeris / WWW_USER Sun Jun 19 12:31:18 2022 Pasadena, USA      / Horizons    ",
        "$$SOE",
        "2459750.250000000 = A.D. 2022-Jun-19 18:00:00.0000 TDB ",
        " EC= 1.711794334680415E-02 QR= 1.469885520304013E+08 IN= 3.134746902320420E-03",
        " OM= 1.633896137466430E+02 W = 3.006492364709574E+02 Tp=  2459584.392523936927",
        " N = 1.141316101270797E-05 MA= 1.635515780663357E+02 TA= 1.640958153023696E+02",
        " A = 1.495485150384278E+08 AD= 1.521084780464543E+08 PR= 3.154253230977451E+07",
        "2459750.375000000 = A.D. 2022-Jun-19 21:00:00.0000 TDB ",
        " EC= 1.711740046096343E-02 QR= 1.469889380968500E+08 IN= 3.126795364377269E-03",
        " OM= 1.633909031729331E+02 W = 3.006393554130161E+02 Tp=  2459584.391856377665",
        " N = 1.141314717368347E-05 MA= 1.636749249278044E+02 TA= 1.642186428721644E+02",
        " A = 1.495486359424565E+08 AD= 1.521083337880630E+08 PR= 3.154257056315589E+07",
        "2459750.500000000 = A.D. 2022-Jun-20 00:00:00.0000 TDB ",
        " EC= 1.711685757512271E-02 QR= 1.469893241632987E+08 IN= 3.118843826434118E-03",
        " OM= 1.633921926012232E+02 W = 3.006294743550748E+02 Tp=  2459584.391188818403",
        " N = 1.141313333465897E-05 MA= 1.637982717893031E+02 TA= 1.643414704419592E+02",
        " A = 1.495487568464852E+08 AD= 1.521081895292717E+08 PR= 3.154260881664177E+07",
        "2459750.625000000 = A.D. 2022-Jun-20 03:00:00.0000 TDB ",
        " EC= 1.711631468928199E-02 QR= 1.469897102297474E+08 IN= 3.110892288490967E-03",
        " OM= 1.633934820295133E+02 W = 3.006195932971335E+02 Tp=  2459584.390521259140",
        " N = 1.141311949563447E-05 MA= 1.639216186508018E+02 TA= 1.644642980117540E+02",
        " A = 1.495488777505139E+08 AD= 1.521080452704804E+08 PR= 3.154264707012765E+07",
        "$$EOE",
        "*******************************************************************************",
    ]
    .join("\n")
}

fn collect_vector_items(input: Vec<String>) -> Vec<EphemerisVectorItem> {
    let mut parser = EphemerisVectorParser::parse(input);
    let mut items = Vec::new();
    while let Some(outcome) = parser.next() {
        items.push(outcome.expect("well-formed record"));
    }
    items
}

#[test]
fn test_parsing_ephemeris_vector() {
    let data = vector_text();
    let ephem = collect_vector_items(lines_of(&data));
    assert_eq!(4, ephem.len());
    assert_eq!(
        EphemerisVectorItem {
            time: Some(DateTime {
                year: 2022,
                month: 8,
                day: 13,
                hour: 19,
                minute: 55,
                second: 56,
            }), // A.D. 2022-Aug-13 19:55:56.0000 TDB
            position: vec![
                "1.870010427985840E+02".to_string(),
                "2.484687803242536E+03".to_string(),
                "-5.861602653492581E+03".to_string(),
            ],
            velocity: vec![
                "-3.362664133558439E-01".to_string(),
                "1.344100266143978E-02".to_string(),
                "-5.030275220358716E-03".to_string(),
            ],
        },
        ephem[0]
    );
    // the field texts denote exactly the expected machine floats
    let position: Vec<f32> = ephem[0]
        .position
        .iter()
        .map(|t| t.parse::<f32>().unwrap())
        .collect();
    let velocity: Vec<f32> = ephem[0]
        .velocity
        .iter()
        .map(|t| t.parse::<f32>().unwrap())
        .collect();
    assert_eq!(
        vec![
            1.870010427985840E+02_f32,
            2.484687803242536E+03,
            -5.861602653492581E+03
        ],
        position
    );
    assert_eq!(
        vec![
            -3.362664133558439E-01_f32,
            1.344100266143978E-02,
            -5.030275220358716E-03
        ],
        velocity
    );
}

#[test]
fn test_parsing_ephemeris_orbital_elements() {
    let data = orbital_text();
    let mut parser = EphemerisOrbitalElementsParser::parse(lines_of(&data));
    let mut ephem: Vec<EphemerisOrbitalElementsItem> = Vec::new();
    while let Some(outcome) = parser.next() {
        ephem.push(outcome.expect("well-formed record"));
    }
    assert_eq!(4, ephem.len());
    assert_eq!(
        EphemerisOrbitalElementsItem {
            time: Some(DateTime {
                year: 2022,
                month: 6,
                day: 19,
                hour: 18,
                minute: 0,
                second: 0,
            }), // A.D. 2022-Jun-19 18:00:00.0000 TDB
            eccentricity: "1.711794334680415E-02".to_string(),
            periapsis_distance: "1.469885520304013E+08".to_string(),
            inclination: "3.134746902320420E-03".to_string(),
            longitude_of_ascending_node: "1.633896137466430E+02".to_string(),
            argument_of_perifocus: "3.006492364709574E+02".to_string(),
            time_of_periapsis: "2459584.392523936927".to_string(),
            mean_motion: "1.141316101270797E-05".to_string(),
            mean_anomaly: "1.635515780663357E+02".to_string(),
            true_anomaly: "1.640958153023696E+02".to_string(),
            semi_major_axis: "1.495485150384278E+08".to_string(),
            apoapsis_distance: "1.521084780464543E+08".to_string(),
            siderral_orbit_period: "3.154253230977451E+07".to_string(),
        },
        ephem[0]
    );
    // the field texts denote exactly the float literals of the source
    assert_eq!(
        1.711794334680415E-02_f32,
        ephem[0].eccentricity.parse::<f32>().unwrap()
    );
    assert_eq!(
        1.469885520304013E+08_f32,
        ephem[0].periapsis_distance.parse::<f32>().unwrap()
    );
    assert_eq!(
        3.134746902320420E-03_f32,
        ephem[0].inclination.parse::<f32>().unwrap()
    );
    assert_eq!(
        1.633896137466430E+02_f32,
        ephem[0].longitude_of_ascending_node.parse::<f32>().unwrap()
    );
    assert_eq!(
        3.006492364709574E+02_f32,
        ephem[0].argument_of_perifocus.parse::<f32>().unwrap()
    );
    assert_eq!(
        2459584.392523936927_f32,
        ephem[0].time_of_periapsis.parse::<f32>().unwrap()
    );
    assert_eq!(
        1.141316101270797E-05_f32,
        ephem[0].mean_motion.parse::<f32>().unwrap()
    );
    assert_eq!(
        1.635515780663357E+02_f32,
        ephem[0].mean_anomaly.parse::<f32>().unwrap()
    );
    assert_eq!(
        1.640958153023696E+02_f32,
        ephem[0].true_anomaly.parse::<f32>().unwrap()
    );
    assert_eq!(
        1.495485150384278E+08_f32,
        ephem[0].semi_major_axis.parse::<f32>().unwrap()
    );
    assert_eq!(
        1.521084780464543E+08_f32,
        ephem[0].apoapsis_distance.parse::<f32>().unwrap()
    );
    assert_eq!(
        3.154253230977451E+07_f32,
        ephem[0].siderral_orbit_period.parse::<f32>().unwrap()
    );
}

#[test]
fn vector_items_match_complete_cycle_count() {
    // two complete records, then a record cut off after its position line
    let mut lines = lines_of(&vector_text())[..12].to_vec();
    lines.push("2459805.413842593 = A.D. 2022-Aug-13 21:55:56.0000 TDB ".to_string());
    lines.push(
        " X =-2.455163934035963E+03 Y = 1.283713567041821E+03 Z =-5.736622418355254E+03"
            .to_string(),
    );
    let items = collect_vector_items(lines);
    assert_eq!(2, items.len());
}

#[test]
fn truncated_input_emits_no_partial_record() {
    // the stream ends right after a velocity line: the third cycle line
    // is missing, so nothing is emitted for that record
    let lines = lines_of(&vector_text())[..7].to_vec();
    let mut parser = EphemerisVectorParser::parse(lines);
    assert!(parser.next().is_none());
    // and pulling again stays clean
    assert!(parser.next().is_none());
}

#[test]
fn sentinel_in_place_of_auxiliary_line_ends_the_block() {
    // one complete record, then a record whose auxiliary line never
    // comes: the end sentinel stands in its place. The assembled record
    // is dropped, not emitted — the sentinel is a region delimiter, not
    // a cycle line.
    let lines: Vec<String> = [
        "$$SOE",
        "2459805.330509259 = A.D. 2022-Aug-13 19:55:56.0000 TDB ",
        " X = 1.870010427985840E+02 Y = 2.484687803242536E+03 Z =-5.861602653492581E+03",
        " VX=-3.362664133558439E-01 VY= 1.344100266143978E-02 VZ=-5.030275220358716E-03",
        " LT= 2.123923367608042E-02 RG= 6.367291037007624E+03 RR= 1.219751009885021E-03",
        "2459805.372175926 = A.D. 2022-Aug-13 20:55:56.0000 TDB ",
        " X =-1.278636010062182E+03 Y = 2.137633816862523E+03 Z =-5.867162254123187E+03",
        " VX=-4.629067965690607E-01 VY=-1.781519420886329E-01 VZ= 3.591107727980415E-02",
        "$$EOE",
        "this trailing line is never read",
    ]
    .map(str::to_string)
    .to_vec();
    let mut parser = EphemerisVectorParser::parse(lines);
    let first = parser.next().unwrap().unwrap();
    assert_eq!(
        Some(DateTime {
            year: 2022,
            month: 8,
            day: 13,
            hour: 19,
            minute: 55,
            second: 56,
        }),
        first.time
    );
    assert!(parser.next().is_none());
    assert!(parser.next().is_none());
}

#[test]
fn truncated_orbital_input_emits_no_partial_record() {
    // the stream ends after the third element row: the record is almost
    // whole, but nothing is emitted for it
    let lines = lines_of(&orbital_text())[..7].to_vec();
    let mut parser = EphemerisOrbitalElementsParser::parse(lines);
    assert!(parser.next().is_none());
    assert!(parser.next().is_none());
}

#[test]
fn orbital_rows_demand_their_labels() {
    // a vector line where the EC/QR/IN row belongs
    let lines: Vec<String> = [
        "$$SOE",
        "2459750.250000000 = A.D. 2022-Jun-19 18:00:00.0000 TDB ",
        " X = 1.870010427985840E+02 Y = 2.484687803242536E+03 Z =-5.861602653492581E+03",
    ]
    .map(str::to_string)
    .to_vec();
    let mut parser = EphemerisOrbitalElementsParser::parse(lines);
    assert!(matches!(
        parser.next(),
        Some(Err(MalformedRecord::UnexpectedPrefix { .. }))
    ));
    assert!(parser.next().is_none());
}

#[test]
fn empty_input_is_a_clean_end() {
    let mut parser = EphemerisVectorParser::parse(Vec::new());
    assert!(parser.next().is_none());
    let mut parser = EphemerisOrbitalElementsParser::parse(lines_of("no sentinel in sight"));
    assert!(parser.next().is_none());
}

#[test]
fn malformed_label_is_a_typed_error() {
    let lines: Vec<String> = [
        "$$SOE",
        "2459805.330509259 = A.D. 2022-Aug-13 19:55:56.0000 TDB ",
        " Q = 1.870010427985840E+02 Y = 2.484687803242536E+03 Z =-5.861602653492581E+03",
    ]
    .map(str::to_string)
    .to_vec();
    let mut parser = EphemerisVectorParser::parse(lines);
    match parser.next() {
        Some(Err(MalformedRecord::UnexpectedPrefix { found })) => {
            assert!(found.starts_with(" Q = "));
        }
        other => panic!("expected an unexpected-prefix error, got {other:?}"),
    }
    // the failure ends the sequence
    assert!(parser.next().is_none());
}

#[test]
fn non_numeric_field_is_a_typed_error() {
    let lines: Vec<String> = [
        "$$SOE",
        "2459805.330509259 = A.D. 2022-Aug-13 19:55:56.0000 TDB ",
        " X =what even is this      Y = 2.484687803242536E+03 Z =-5.861602653492581E+03",
    ]
    .map(str::to_string)
    .to_vec();
    let mut parser = EphemerisVectorParser::parse(lines);
    match parser.next() {
        Some(Err(MalformedRecord::NumericParseFailure { field })) => {
            assert_eq!("what even is this", field);
        }
        other => panic!("expected a numeric-parse error, got {other:?}"),
    }
    assert!(parser.next().is_none());
}

#[test]
fn nothing_is_read_past_the_end_sentinel() {
    // a second well-formed block after $$EOE must not be decoded
    let mut text = vector_text();
    text.push('\n');
    text.push_str(&vector_text());
    let items = collect_vector_items(lines_of(&text));
    assert_eq!(4, items.len());
}

#[test]
fn timestamp_line_without_timestamp_gives_no_time() {
    // a date line that carries no readable calendar timestamp still opens
    // a record; the item simply has no time
    let lines: Vec<String> = [
        "$$SOE",
        "this is no timestamp = at all ",
        " X = 1.870010427985840E+02 Y = 2.484687803242536E+03 Z =-5.861602653492581E+03",
        " VX=-3.362664133558439E-01 VY= 1.344100266143978E-02 VZ=-5.030275220358716E-03",
        " LT= 2.123923367608042E-02 RG= 6.367291037007624E+03 RR= 1.219751009885021E-03",
        "$$EOE",
    ]
    .map(str::to_string)
    .to_vec();
    let items = collect_vector_items(lines);
    assert_eq!(1, items.len());
    assert_eq!(None, items[0].time);
}
