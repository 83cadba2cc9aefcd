use code_hunt::day22::{
    count_gifts, fly, gift_row, links, next_stars, parse_portal, parse_star, Coordinate, Day22,
    Portal,
};
use code_hunt::status::Status;

const CHART: &str = "5\n0 1 0\n-2 2 3\n3 -3 -5\n1 1 5\n4 3 5\n4\n0 1\n2 4\n3 4\n1 2\n";

fn chars(text: &str) -> Vec<char> {
    text.chars().collect()
}

fn star(x: i32, y: i32, z: i32) -> Coordinate {
    Coordinate { x, y, z }
}

fn portal(a: usize, b: usize) -> Portal {
    Portal { a, b }
}

#[test]
fn gifts_are_counted_by_exclusive_or() {
    assert_eq!(Day22::integers("888\n77\n888\n22\n77\n".to_string()), Ok("🎁".repeat(22)));
    assert_eq!(Day22::integers("5".to_string()), Ok("🎁🎁🎁🎁🎁".to_string()));
    assert_eq!(Day22::integers("3\n5\n".to_string()), Ok("🎁".repeat(6)));
    assert_eq!(Day22::integers("".to_string()), Ok(String::new()));
    assert_eq!(Day22::integers("\n\n7\n\n7\n".to_string()), Ok(String::new()));
    assert_eq!(count_gifts(&chars("18446744073709551615\n1")), Ok(18446744073709551614));
    assert_eq!(gift_row(2), "🎁🎁");
    assert_eq!(gift_row(0), "");
}

#[test]
fn a_line_that_is_no_number_rejects_the_gifts() {
    assert_eq!(Day22::integers("1\nx\n".to_string()), Err(Status::BadRequest));
    assert_eq!(Day22::integers("1\n-2\n".to_string()), Err(Status::BadRequest));
    assert_eq!(Day22::integers("1\n 2\n".to_string()), Err(Status::BadRequest));
    assert_eq!(Day22::integers("1\r\n2\r\n".to_string()), Err(Status::BadRequest));
    assert_eq!(Day22::integers("18446744073709551616".to_string()), Err(Status::BadRequest));
}

#[test]
fn star_and_portal_lines_are_read() {
    assert_eq!(parse_star(&chars("-2 2 3")), Some(star(-2, 2, 3)));
    assert_eq!(parse_star(&chars("+1 0 -0")), Some(star(1, 0, 0)));
    assert_eq!(parse_star(&chars("1 2")), None);
    assert_eq!(parse_star(&chars("1 2 3 4")), None);
    assert_eq!(parse_star(&chars("1  2 3")), None);
    assert_eq!(parse_star(&chars("1 2 x")), None);
    assert_eq!(parse_star(&chars("1 2 2147483648")), None);
    assert_eq!(parse_star(&chars("")), None);
    assert_eq!(parse_portal(&chars("0 1")), Some(portal(0, 1)));
    assert_eq!(parse_portal(&chars("7 7")), Some(portal(7, 7)));
    assert_eq!(parse_portal(&chars("0 -1")), None);
    assert_eq!(parse_portal(&chars("0")), None);
    assert_eq!(parse_portal(&chars("0 1 2")), None);
    assert_eq!(parse_portal(&chars("0 1 ")), None);
}

#[test]
fn chart_is_read_line_by_line() {
    let (stars, portals) = Day22::parse_chart(CHART.to_string()).expect("a chart");
    assert_eq!(
        stars,
        vec![star(0, 1, 0), star(-2, 2, 3), star(3, -3, -5), star(1, 1, 5), star(4, 3, 5)]
    );
    assert_eq!(portals, vec![portal(0, 1), portal(2, 4), portal(3, 4), portal(1, 2)]);
}

#[test]
fn chart_with_bad_numbers_is_rejected() {
    for chart in [
        "",
        "x\n0 0 0\n1 1 1\n1\n0 1",
        "1\n0 0 0\n1\n0 0",
        "101\n0 0 0\n",
        "2\n0 0 0\n1 1\n1\n0 1",
        "2\n0 0 0\n1 1 1\nx\n0 1",
        "2\n0 0 0\n1 1 1\n0\n",
        "2\n0 0 0\n1 1 1\n101\n0 1",
        "2\n0 0 0\n1 1 1\n1\n0 1 2",
        "2\n0 0 0\n1 1 1\n2\n0 1\n0 x",
        "2\n0 0 0\nbroken",
    ] {
        assert_eq!(
            Day22::parse_chart(chart.to_string()),
            Err(Status::BadRequest),
            "reading {:?}",
            chart
        );
    }
}

#[test]
fn chart_that_ends_early_cannot_be_worked_on() {
    for chart in ["2", "2\n0 0 0", "2\n0 0 0\n1 1 1", "3\n0 0 0\n1 1 1\n1\n0 1"] {
        let read = Day22::parse_chart(chart.to_string());
        let expected = if chart.starts_with('3') {
            // the line that announces the portals is read as a star first
            Err(Status::BadRequest)
        } else {
            Err(Status::InternalServerError)
        };
        assert_eq!(read, expected, "reading {:?}", chart);
    }
}

#[test]
fn announced_portals_that_are_missing_are_not_missed() {
    let (stars, portals) =
        Day22::parse_chart("2\n0 0 0\n1 1 1\n3\n0 1".to_string()).expect("a chart");
    assert_eq!(stars.len(), 2);
    assert_eq!(portals, vec![portal(0, 1)]);
    let (_, none) = Day22::parse_chart("2\n0 0 0\n1 1 1\n3".to_string()).expect("a chart");
    assert_eq!(none, Vec::<Portal>::new());
    let (_, first) =
        Day22::parse_chart("2\n0 0 0\n1 1 1\n1\n0 1\nnot read".to_string()).expect("a chart");
    assert_eq!(first, vec![portal(0, 1)]);
}

#[test]
fn graph_lists_far_ends_then_near_ends() {
    let chart = Day22::parse_chart(CHART.to_string()).expect("a chart");
    let graph = Day22::build_graph(&chart);
    assert_eq!(graph, vec![vec![1], vec![2, 0], vec![4, 1], vec![4], vec![2, 3]]);
    let portals = vec![portal(1, 2), portal(2, 1), portal(1, 1), portal(3, 1), portal(1, 9)];
    assert_eq!(links(&portals, 1), vec![2, 1, 9, 2, 1, 3]);
    assert_eq!(links(&portals, 0), Vec::<usize>::new());
    assert_eq!(next_stars(&graph, 1), vec![2, 0]);
    assert_eq!(next_stars(&graph, 5), Vec::<usize>::new());
}

#[test]
fn rocket_takes_the_fewest_portals() {
    let flight = Day22::rocket(CHART.to_string()).expect("a flight");
    assert_eq!(flight.path, vec![0, 1, 2, 4]);
    assert_eq!(flight.hops(), 3);
    assert_eq!(flight.squares, vec![14, 114, 137]);
    let distance: f32 = flight.squares.iter().map(|square| (*square as f32).sqrt()).sum();
    assert_eq!(format!("{} {:.3}", flight.hops(), distance), "3 26.123");
}

#[test]
fn rocket_prefers_the_direct_portal() {
    let flight = Day22::rocket("3\n0 0 0\n5 5 5\n3 4 0\n3\n0 1\n1 2\n0 2".to_string())
        .expect("a flight");
    assert_eq!(flight.path, vec![0, 2]);
    assert_eq!(flight.squares, vec![25]);
    assert_eq!(flight.hops(), 1);
}

#[test]
fn rocket_without_route_cannot_be_worked_on() {
    assert_eq!(
        Day22::rocket("3\n0 0 0\n1 1 1\n2 2 2\n1\n0 1".to_string()).map(|f| f.path),
        Err(Status::InternalServerError)
    );
    assert_eq!(
        Day22::rocket("2\n0 0 0\n1 1 1\n1\n0 7".to_string()).map(|f| f.path),
        Err(Status::InternalServerError)
    );
    assert_eq!(
        Day22::rocket("2\n0 0 0\n1 1 1\nx".to_string()).map(|f| f.path),
        Err(Status::BadRequest)
    );
}

#[test]
fn squared_distance_is_exact_or_absent() {
    assert_eq!(star(0, 1, 0).squared_distance(&star(-2, 2, 3)), Some(14));
    assert_eq!(star(1, 1, 1).squared_distance(&star(1, 1, 1)), Some(0));
    assert_eq!(star(0, 0, 0).squared_distance(&star(46340, 0, 0)), Some(2147395600));
    assert_eq!(star(0, 0, 0).squared_distance(&star(46341, 0, 0)), None);
    assert_eq!(star(0, 0, 0).squared_distance(&star(40000, 40000, 0)), None);
    assert_eq!(star(i32::MIN, 0, 0).squared_distance(&star(i32::MAX, 0, 0)), None);
    assert_eq!(star(-1, 0, 0).squared_distance(&star(i32::MAX, 0, 0)), None);
}

#[test]
fn flight_needs_a_route_on_the_chart() {
    let stars = vec![star(0, 0, 0), star(3, 4, 0)];
    assert_eq!(fly(&stars, None).map(|f| f.path), Err(Status::InternalServerError));
    assert_eq!(fly(&stars, Some(vec![])).map(|f| f.path), Err(Status::InternalServerError));
    assert_eq!(fly(&stars, Some(vec![0, 2])).map(|f| f.path), Err(Status::InternalServerError));
    let flight = fly(&stars, Some(vec![0, 1, 0])).expect("a flight");
    assert_eq!(flight.squares, vec![25, 25]);
    let short = fly(&stars, Some(vec![5])).expect("a flight without legs");
    assert_eq!(short.hops(), 0);
    assert_eq!(short.squares, Vec::<i32>::new());
}

#[test]
fn stars_and_portals_are_made_from_their_numbers() {
    assert_eq!(Coordinate::from_values(&vec![1, -2, 3]), star(1, -2, 3));
    assert_eq!(Coordinate::from_values(&vec![1, -2, 3, 4]), star(1, -2, 3));
    assert_eq!(Portal::from_values(&vec![4, 2]), portal(4, 2));
}
