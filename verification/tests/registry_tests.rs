use world_study::capital::Capital;
use world_study::country::Country;
use world_study::data_map::{DataMap, HasId};
use world_study::identified_polygon::IdentifiedPolygonType;
use world_study::keyed::Keyed;
use world_study::meshes::{Color, CountryMeshesMap, TriangulationError};
use world_study::outlines::{build_country_outlines, country_outlines};
use world_study::path::{ParseError, PathCommand};
use world_study::polygon::Polygon;
use world_study::position::{Position, COORD_LIMIT};
use world_study::records::{
    country_polygons, is_excluded, parse_countries, scaling_factor, CountryEntry, OutlinePath,
    OutlineSource,
};
use world_study::world_data::WorldStudyData;

fn pts(raw: &[(i64, i64)]) -> Vec<Position> {
    raw.iter().map(|&(x, y)| Position::new(x, y)).collect()
}

fn square(x: i64, y: i64, side: i64) -> Vec<Position> {
    pts(&[(x, y), (x + side, y), (x + side, y + side), (x, y + side), (x, y)])
}

fn square_path(id: &str, x: i64, y: i64, side: i64) -> OutlinePath {
    OutlinePath {
        id: id.to_string(),
        source: OutlineSource::Commands(Ok(vec![
            PathCommand::Move { relative: false, parameters: vec![x, y] },
            PathCommand::Move { relative: true, parameters: vec![side, 0, 0, side, -side, 0] },
            PathCommand::Close,
        ])),
    }
}

fn unreadable(id: &str) -> OutlinePath {
    OutlinePath { id: id.to_string(), source: OutlineSource::Commands(Err(ParseError::Syntax)) }
}

fn entry(code: &str, name: &str, is_enclave: bool) -> CountryEntry {
    CountryEntry {
        code: code.to_string(),
        name: name.to_string(),
        long_name: format!("The {name}"),
        region: "Europe".to_string(),
        is_enclave,
        capitals: match code.to_uppercase().as_str() {
            "IT" => vec!["Rome".to_string(), "Atlantis".to_string()],
            "VA" => vec!["vatican city".to_string()],
            _ => Vec::new(),
        },
        flag_svg: code.as_bytes().to_vec(),
    }
}

fn country(code: &str, polygons: Vec<Polygon>, is_enclave: bool) -> Country {
    Country {
        code: code.to_string(),
        name: code.to_lowercase(),
        long_name: String::new(),
        region: String::new(),
        polygons,
        is_enclave,
        capitals: Vec::new(),
        flag_svg: Vec::new(),
    }
}

fn earcut_all(data: &WorldStudyData) -> Vec<Vec<Result<Vec<usize>, TriangulationError>>> {
    data.mesh_inputs()
        .iter()
        .map(|row| {
            row.iter()
                .map(|input| {
                    let flat: Vec<f64> = input.coordinates.iter().map(|&c| c as f64).collect();
                    earcutr::earcut(&flat, &input.hole_indices, 2)
                        .map_err(|_| TriangulationError::Failed)
                })
                .collect()
        })
        .collect()
}

fn sample() -> WorldStudyData {
    let entries = vec![
        entry("it", "Italy", false),
        entry("sm", "San Marino", true),
        entry("aq", "Antarctica", false),
        entry("va", "Vatican City", true),
        entry("fr", "France", false),
    ];
    let paths = vec![
        square_path("it", 0, 0, 1000),
        square_path("IT", 2000, 0, 100),
        square_path("sm", 100, 100, 10),
        square_path("aq", 0, -5000, 1000),
        square_path("va", 4, 4, 1),
        square_path("fr", -2000, 0, 1000),
    ];
    let mut data = WorldStudyData::build(parse_countries(&entries, &paths));
    let triangulations = earcut_all(&data);
    let capitals = vec![
        Capital {
            name: "ROME".to_string(),
            coordinates: Position::new(800, 800),
            outline: Polygon::from_rings(vec![square(799, 799, 2)]).unwrap(),
        },
        Capital {
            name: "VATICAN CITY".to_string(),
            coordinates: Position::new(500, 500),
            outline: Polygon::from_rings(vec![square(499, 499, 2)]).unwrap(),
        },
    ];
    data.initialize(capitals, &triangulations);
    data
}

#[test]
fn data_map_keeps_one_record_per_id_in_order() {
    let mut map: DataMap<Keyed<u32>> = DataMap::new();
    assert_eq!(map.len(), 0);
    assert!(map.get("a").is_none());
    map.add(Keyed { key: "a".to_string(), value: 1 });
    map.add(Keyed { key: "b".to_string(), value: 2 });
    map.add(Keyed { key: "c".to_string(), value: 3 });
    assert_eq!(map.len(), 3);
    assert_eq!(map.keys(), vec!["a", "b", "c"]);
    assert_eq!(map.get("b").unwrap().value, 2);
    map.add(Keyed { key: "b".to_string(), value: 20 });
    assert_eq!(map.len(), 3);
    assert_eq!(map.keys(), vec!["a", "b", "c"]);
    assert_eq!(map.get("b").unwrap().value, 20);
    assert_eq!(map.iter().iter().map(|e| e.value).collect::<Vec<_>>(), vec![1, 20, 3]);
    assert!(map.get("B").is_none());
    assert!(map.get("").is_none());
}

#[test]
fn has_id_of_country_is_its_code() {
    let c = country("DE", vec![], true);
    assert_eq!(c.id(), "DE");
    let renamed = c.with_id("AT".to_string());
    assert_eq!(renamed.id(), "AT");
    assert_eq!(renamed.code, "AT");
    assert_eq!(renamed.name, "de");
    assert!(renamed.is_enclave);
    let k = Keyed { key: "x".to_string(), value: 7u8 }.with_id("y".to_string());
    assert_eq!((k.id().as_str(), k.value), ("y", 7));
}

#[test]
fn scaling_factors_and_exclusion() {
    assert_eq!(scaling_factor("VA"), 115);
    assert_eq!(scaling_factor("SM"), 2);
    assert_eq!(scaling_factor("MC"), 3);
    assert_eq!(scaling_factor("TV"), 5);
    assert_eq!(scaling_factor("NR"), 2);
    assert_eq!(scaling_factor("DE"), 1);
    assert_eq!(scaling_factor("va"), 1);
    assert_eq!(scaling_factor(""), 1);
    assert!(is_excluded("AQ"));
    assert!(!is_excluded("aq"));
    assert!(!is_excluded("AT"));
}

#[test]
fn country_polygons_follow_the_outline_elements() {
    let paths = vec![
        square_path("de", 0, 0, 10),
        square_path("fr", 50, 50, 10),
        square_path("De", 20, 0, 10),
    ];
    let polygons = country_polygons(&paths, "DE");
    assert_eq!(polygons.len(), 2);
    assert_eq!(polygons[0].exterior().points(), &square(0, 0, 10));
    assert_eq!(polygons[1].exterior().points(), &square(20, 0, 10));
    assert!(country_polygons(&paths, "de").is_empty());
    assert!(country_polygons(&paths, "IT").is_empty());
}

#[test]
fn rings_after_the_first_are_holes() {
    let path = OutlinePath {
        id: "de".to_string(),
        source: OutlineSource::Commands(Ok(vec![
            PathCommand::Move { relative: false, parameters: vec![0, 0] },
            PathCommand::Move { relative: true, parameters: vec![20, 0, 0, 20, -20, 0] },
            PathCommand::Close,
            PathCommand::Move { relative: true, parameters: vec![5, 5] },
            PathCommand::Move { relative: true, parameters: vec![10, 0, 0, 10, -10, 0] },
            PathCommand::Close,
        ])),
    };
    let polygons = country_polygons(&vec![path], "DE");
    assert_eq!(polygons.len(), 1);
    assert_eq!(polygons[0].exterior().points(), &square(0, 0, 20));
    assert_eq!(polygons[0].interiors().len(), 1);
    assert_eq!(polygons[0].interiors()[0].points(), &square(5, 5, 10));
}

#[test]
fn enlarged_countries_are_scaled() {
    let paths = vec![square_path("va", 4, 4, 1), square_path("mc", 1, 2, 3)];
    let va = country_polygons(&paths, "VA");
    assert_eq!(va[0].exterior().points(), &square(460, 460, 115));
    let mc = country_polygons(&paths, "MC");
    assert_eq!(mc[0].exterior().points(), &pts(&[(3, 6), (12, 6), (12, 15), (3, 15), (3, 6)]));
}

#[test]
fn unreadable_element_leaves_its_country_without_polygons() {
    let paths = vec![
        square_path("de", 0, 0, 10),
        unreadable("DE"),
        square_path("de", 20, 0, 10),
        square_path("fr", 50, 50, 10),
    ];
    assert!(country_polygons(&paths, "DE").is_empty());
    assert_eq!(country_polygons(&paths, "FR").len(), 1);
    let beyond = vec![
        square_path("de", 0, 0, 10),
        OutlinePath {
            id: "de".to_string(),
            source: OutlineSource::Commands(Ok(vec![PathCommand::Move {
                relative: false,
                parameters: vec![COORD_LIMIT + 1, 0],
            }])),
        },
    ];
    assert!(country_polygons(&beyond, "DE").is_empty());
}

#[test]
fn element_without_a_valid_polygon_is_left_out() {
    let degenerate = OutlinePath {
        id: "de".to_string(),
        source: OutlineSource::Commands(Ok(vec![
            PathCommand::Move { relative: false, parameters: vec![0, 0, 5, 5] },
            PathCommand::Close,
        ])),
    };
    let empty = OutlinePath { id: "de".to_string(), source: OutlineSource::Commands(Ok(vec![])) };
    let too_big = square_path("va", COORD_LIMIT / 100, 0, 10);
    let paths = vec![degenerate, square_path("de", 0, 0, 10), empty, too_big];
    let polygons = country_polygons(&paths, "DE");
    assert_eq!(polygons.len(), 1);
    assert_eq!(polygons[0].exterior().points(), &square(0, 0, 10));
    assert!(country_polygons(&paths, "VA").is_empty());
}

#[test]
fn parse_countries_builds_the_registry() {
    let entries = vec![
        entry("de", "Germany", false),
        entry("aq", "Antarctica", false),
        entry("Fr", "France", false),
        entry("DE", "Deutschland", true),
        entry("li", "Liechtenstein", false),
    ];
    let paths = vec![
        square_path("DE", 0, 0, 10),
        square_path("fr", 50, 50, 10),
        square_path("aq", 0, -90, 10),
        unreadable("li"),
    ];
    let countries = parse_countries(&entries, &paths);
    assert_eq!(countries.keys(), vec!["DE", "FR", "LI"]);
    let de = countries.get("DE").unwrap();
    assert_eq!(de.name, "Deutschland");
    assert_eq!(de.long_name, "The Deutschland");
    assert_eq!(de.region, "Europe");
    assert!(de.is_enclave);
    assert_eq!(de.flag_svg, b"DE".to_vec());
    assert_eq!(de.polygons.len(), 1);
    assert_eq!(de.polygons[0].exterior().points(), &square(0, 0, 10));
    let fr = countries.get("FR").unwrap();
    assert_eq!(fr.name, "France");
    assert_eq!(fr.polygons.len(), 1);
    let li = countries.get("LI").unwrap();
    assert_eq!(li.name, "Liechtenstein");
    assert!(li.polygons.is_empty());
    assert!(countries.get("AQ").is_none());
    assert!(countries.get("de").is_none());
}

#[test]
fn parse_countries_of_nothing_is_empty() {
    assert_eq!(parse_countries(&vec![], &vec![]).len(), 0);
    assert_eq!(parse_countries(&vec![], &vec![square_path("de", 0, 0, 1)]).len(), 0);
    let lone = parse_countries(&vec![entry("de", "Germany", false)], &vec![]);
    assert_eq!(lone.len(), 1);
    assert!(lone.get("DE").unwrap().polygons.is_empty());
}

#[test]
fn outlines_follow_the_outer_rings() {
    let c = country(
        "AA",
        vec![
            Polygon::from_rings(vec![square(0, 0, 10), square(2, 2, 3)]).unwrap(),
            Polygon::from_rings(vec![square(50, 0, 10)]).unwrap(),
        ],
        false,
    );
    let shapes = country_outlines(&c);
    assert_eq!(shapes.len(), 2);
    assert_eq!(shapes[0].points, square(0, 0, 10));
    assert_eq!(shapes[1].points, square(50, 0, 10));
    assert_eq!(shapes[0].stroke, Color { r: 108, g: 86, b: 113 });
    assert_eq!(shapes[1].stroke, Color { r: 108, g: 86, b: 113 });
    let mut countries = DataMap::new();
    countries.add(c);
    countries.add(country("BB", vec![], false));
    let map = build_country_outlines(&countries);
    assert_eq!(map.keys(), vec!["AA", "BB"]);
    assert_eq!(map.get("AA").unwrap().value.len(), 2);
    assert!(map.get("BB").unwrap().value.is_empty());
}

#[test]
fn meshes_map_is_keyed_by_country() {
    let mut countries = DataMap::new();
    countries.add(country("AA", vec![Polygon::from_rings(vec![square(0, 0, 10)]).unwrap()], false));
    countries.add(country("BB", vec![Polygon::from_rings(vec![square(9, 9, 1)]).unwrap()], false));
    let triangulations =
        vec![vec![Ok(vec![0, 1, 2, 0, 2, 3])], vec![Err(TriangulationError::Failed)]];
    let map = CountryMeshesMap::build(&countries, &triangulations);
    let aa = map.get("AA").unwrap();
    assert_eq!(aa.default.len(), 1);
    assert_eq!(aa.default[0].indices, vec![0, 1, 2, 0, 2, 3]);
    assert_eq!(aa.hovered[0].vertices.len(), 5);
    let bb = map.get("BB").unwrap();
    assert!(bb.default.is_empty() && bb.hovered.is_empty() && bb.selected.is_empty());
    assert!(map.get("CC").is_none());
    assert!(map.get("aa").is_none());
    assert!(CountryMeshesMap::new().get("AA").is_none());
    let short = CountryMeshesMap::build(&countries, &vec![]);
    assert!(short.get("AA").unwrap().default.is_empty());
}

#[test]
fn bare_registry_has_nothing_derived() {
    let entries = vec![entry("it", "Italy", false)];
    let data = WorldStudyData::build(parse_countries(&entries, &vec![square_path("it", 0, 0, 9)]));
    assert!(data.get_country("IT").is_some());
    assert!(data.get_country_codes().is_empty());
    assert!(!data.country_exists("IT"));
    assert!(data.get_country_outlines("IT").is_none());
    assert!(data.get_country_meshes("IT").is_none());
    assert!(data.get_country_code_at_point(5, 5).is_none());
    assert_eq!(data.mesh_inputs().len(), 1);
    assert_eq!(data.mesh_inputs()[0][0].points, square(0, 0, 9));
}

#[test]
fn lookup_by_code_ignores_case() {
    let data = sample();
    assert_eq!(data.get_country("it").unwrap().name, "Italy");
    assert_eq!(data.get_country("IT").unwrap().name, "Italy");
    assert_eq!(data.get_country("Sm").unwrap().name, "San Marino");
    assert!(data.get_country("de").is_none());
    assert!(data.get_country("AQ").is_none());
    assert!(data.get_country("").is_none());
    assert!(data.country_exists("va"));
    assert!(data.country_exists("FR"));
    assert!(!data.country_exists("aq"));
    assert!(!data.country_exists("xx"));
    assert_eq!(data.countries_iter().len(), 4);
}

#[test]
fn country_codes_put_enclaves_last() {
    let data = sample();
    assert_eq!(data.get_country_codes(), &vec!["IT", "FR", "SM", "VA"]);
}

#[test]
fn derived_data_is_keyed_by_exact_code() {
    let data = sample();
    let outlines = data.get_country_outlines("IT").unwrap();
    assert_eq!(outlines.len(), 2);
    assert_eq!(outlines[0].points, square(0, 0, 1000));
    assert_eq!(outlines[1].points, square(2000, 0, 100));
    assert!(data.get_country_outlines("it").is_none());
    assert!(data.get_country_outlines("AQ").is_none());
    let meshes = data.get_country_meshes("IT").unwrap();
    assert_eq!(meshes.default.len(), 2);
    assert_eq!(meshes.hovered.len(), 2);
    assert_eq!(meshes.selected.len(), 2);
    assert_eq!(meshes.default[0].triangle_count(), 2);
    assert!(data.get_country_meshes("it").is_none());
    let va = data.get_country_outlines("VA").unwrap();
    assert_eq!(va[0].points, square(460, 460, 115));
    let sm = data.get_country_outlines("SM").unwrap();
    assert_eq!(sm[0].points, square(200, 200, 20));
}

#[test]
fn point_queries_over_the_registry() {
    let data = sample();
    assert_eq!(data.get_country_code_at_point(900, 900), Some("IT".to_string()));
    assert_eq!(data.get_country_code_at_point(2050, 50), Some("IT".to_string()));
    assert_eq!(data.get_country_code_at_point(-1500, 500), Some("FR".to_string()));
    // Enclaves lie inside Italy and win there.
    assert_eq!(data.get_country_code_at_point(210, 210), Some("SM".to_string()));
    assert_eq!(data.get_country_code_at_point(470, 470), Some("VA".to_string()));
    // So does the marker of a capital.
    let rome = data.get_polygon_id_at_point(800, 800).unwrap();
    assert_eq!(rome.id(), "ROME");
    assert_eq!(rome.polygon_type(), IdentifiedPolygonType::Capital);
    // An enclave and a capital's marker both win: the one entered first is taken.
    let shared = data.get_polygon_id_at_point(500, 500).unwrap();
    assert_eq!(shared.id(), "VA");
    assert_eq!(shared.polygon_type(), IdentifiedPolygonType::Country);
    let italy = data.get_polygon_id_at_point(900, 900).unwrap();
    assert_eq!(italy.polygon_type(), IdentifiedPolygonType::Country);
    assert!(!italy.priority());
    assert!(data.get_polygon_id_at_point(210, 210).unwrap().priority());
    // Antarctica was left out, and nothing lies far away.
    assert_eq!(data.get_country_code_at_point(500, -4500), None);
    assert_eq!(data.get_country_code_at_point(1_000_000, 1_000_000), None);
    assert!(data.get_polygon_id_at_point(i64::MAX, i64::MIN).is_none());
}

#[test]
fn load_is_build_and_initialize() {
    let entries = vec![entry("it", "Italy", false), entry("sm", "San Marino", true)];
    let paths = vec![square_path("it", 0, 0, 1000), square_path("sm", 100, 100, 10)];
    let bare = WorldStudyData::build(parse_countries(&entries, &paths));
    let triangulations = earcut_all(&bare);
    let data = WorldStudyData::load(parse_countries(&entries, &paths), vec![], &triangulations);
    assert_eq!(data.get_country_codes(), &vec!["IT", "SM"]);
    assert_eq!(data.get_country_meshes("SM").unwrap().default[0].triangle_count(), 2);
    assert_eq!(data.get_country_code_at_point(210, 210), Some("SM".to_string()));
    assert_eq!(data.get_country_code_at_point(10, 10), Some("IT".to_string()));
    let again = WorldStudyData::load(parse_countries(&entries, &paths), vec![], &triangulations);
    for x in (-50..1100).step_by(25) {
        for y in (-50..1100).step_by(25) {
            assert_eq!(data.get_country_code_at_point(x, y), again.get_country_code_at_point(x, y));
        }
    }
}

#[test]
fn country_with_failed_geometry_stays_in_the_registry() {
    let entries = vec![entry("it", "Italy", false), entry("fr", "France", false)];
    let paths = vec![
        unreadable("it"),
        square_path("fr", 0, 0, 10),
    ];
    let bare = WorldStudyData::build(parse_countries(&entries, &paths));
    let triangulations = earcut_all(&bare);
    let data = WorldStudyData::load(parse_countries(&entries, &paths), vec![], &triangulations);
    assert_eq!(data.get_country("it").unwrap().name, "Italy");
    assert!(data.country_exists("it"));
    assert!(data.get_country_outlines("IT").unwrap().is_empty());
    assert!(data.get_country_meshes("IT").unwrap().default.is_empty());
    assert_eq!(data.get_country_code_at_point(5, 5), Some("FR".to_string()));
}

#[test]
fn several_countries_by_code() {
    let data = sample();
    let found = data.get_countries(&["fr", "xx", "IT", "aq", "fr"]);
    let names: Vec<&str> = found.iter().map(|c| c.name.as_str()).collect();
    assert_eq!(names, vec!["France", "Italy", "France"]);
    assert!(data.get_countries(&[]).is_empty());
    assert!(data.get_countries(&["??"]).is_empty());
}

#[test]
fn capital_by_name_ignores_case() {
    let data = sample();
    assert_eq!(data.get_capital("rome").unwrap().coordinates, Position::new(800, 800));
    assert_eq!(data.get_capital("Vatican City").unwrap().name, "VATICAN CITY");
    assert!(data.get_capital("Paris").is_none());
    assert!(data.get_capital("").is_none());
    let bare = WorldStudyData::build(DataMap::new());
    assert!(bare.get_capital("rome").is_none());
}

#[test]
fn capitals_of_a_country() {
    let data = sample();
    let names = |code: &str| -> Vec<String> {
        data.get_country_capitals(code).iter().map(|c| c.name.clone()).collect()
    };
    // Italy names a capital that is not at hand; it adds nothing.
    assert_eq!(names("it"), vec!["ROME"]);
    assert_eq!(names("VA"), vec!["VATICAN CITY"]);
    assert!(names("fr").is_empty());
    assert!(names("xx").is_empty());
    assert_eq!(data.get_country("it").unwrap().capitals, vec!["Rome", "Atlantis"]);
}

#[test]
fn regions_are_named_once() {
    let mut countries = DataMap::new();
    for (code, region) in
        [("DE", "EUROPE"), ("JP", "ASIA"), ("FR", "EUROPE"), ("BR", "Americas"), ("CN", "ASIA")]
    {
        let mut c = country(code, vec![], false);
        c.region = region.to_string();
        countries.add(c);
    }
    let data = WorldStudyData::load(countries, vec![], &vec![]);
    assert_eq!(data.get_regions(), &vec!["EUROPE", "ASIA", "Americas"]);
    assert!(data.region_exists("europe"));
    assert!(data.region_exists("Asia"));
    // A name is looked up in upper case, so one stored otherwise is not found.
    assert!(!data.region_exists("Americas"));
    assert!(!data.region_exists("AFRICA"));
    assert!(WorldStudyData::build(DataMap::new()).get_regions().is_empty());
}

#[test]
fn rings_read_before_go_the_same_way() {
    let paths = vec![
        OutlinePath {
            id: "sm".to_string(),
            source: OutlineSource::Rings(vec![square(0, 0, 20), square(5, 5, 10)]),
        },
        square_path("sm", 100, 100, 10),
        OutlinePath { id: "SM".to_string(), source: OutlineSource::Rings(vec![]) },
        OutlinePath {
            id: "SM".to_string(),
            source: OutlineSource::Rings(vec![pts(&[(1, 1), (2, 2), (1, 1)])]),
        },
        OutlinePath {
            id: "Sm".to_string(),
            source: OutlineSource::Rings(vec![square(COORD_LIMIT - 10, 0, 10)]),
        },
    ];
    let polygons = country_polygons(&paths, "SM");
    assert_eq!(polygons.len(), 2);
    assert_eq!(polygons[0].exterior().points(), &square(0, 0, 40));
    assert_eq!(polygons[0].interiors()[0].points(), &square(10, 10, 20));
    assert_eq!(polygons[1].exterior().points(), &square(200, 200, 20));
    let countries = parse_countries(&vec![entry("sm", "San Marino", true)], &paths);
    assert_eq!(countries.get("SM").unwrap().polygons.len(), 2);
}
