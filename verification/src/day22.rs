//! Star charts: the gift counter, the chart parser, the portal graph and
//! the flight along the shortest route.

use crate::status::Status;
use crate::text::{
    chars_of, i32_of, least, lemma_filter_step, parse_i32, parse_u64, parse_usize, push_char,
    rows, split, split_text, u64_of, usize_of,
};
use vstd::prelude::*;

verus! {

/// A star's place in space.
#[derive(Clone, Copy, Debug, PartialEq, Eq, Structural)]
pub struct Coordinate {
    pub x: i32,
    pub y: i32,
    pub z: i32,
}

/// A portal between two stars, each given by its index on the chart.
#[derive(Clone, Copy, Debug, PartialEq, Eq, Structural)]
pub struct Portal {
    pub a: usize,
    pub b: usize,
}

/// For each star, the stars that a portal leads to from it.
pub type Graph = Vec<Vec<usize>>;

/// A star chart: the stars and the portals.
pub type Chart = (Vec<Coordinate>, Vec<Portal>);

/// The smallest number of stars on a chart.
pub const MIN_STARS: usize = 2;

/// The largest number of stars on a chart.
pub const MAX_STARS: usize = 100;

/// The smallest number of portals that a chart announces.
pub const MIN_PORTALS: usize = 1;

/// The largest number of portals that a chart announces.
pub const MAX_PORTALS: usize = 100;

impl Coordinate {
    /// The star that three numbers give.
    pub fn from_values(values: &Vec<i32>) -> (star: Coordinate)
        requires
            values.len() >= 3,
        ensures
            star == (Coordinate { x: values[0], y: values[1], z: values[2] }),
    {
        Coordinate { x: values[0], y: values[1], z: values[2] }
    }

    /// The square of the straight distance between two stars.
    pub open spec fn square_to(self, other: Coordinate) -> int {
        (other.x - self.x) * (other.x - self.x) + (other.y - self.y) * (other.y - self.y) + (
        other.z - self.z) * (other.z - self.z)
    }

    /// The square of the straight distance to another star, or `None`
    /// where a difference, a square or the sum does not fit 32 bits with a
    /// sign.
    pub fn squared_distance(&self, other: &Coordinate) -> (square: Option<i32>)
        ensures
            square.is_some() == self.squares_fit(*other),
            square matches Some(value) ==> value == self.square_to(*other),
    {
        let low: i64 = i32::MIN as i64;
        let high: i64 = i32::MAX as i64;
        let dx: i64 = other.x as i64 - self.x as i64;
        let dy: i64 = other.y as i64 - self.y as i64;
        let dz: i64 = other.z as i64 - self.z as i64;
        if dx < low || dx > high || dy < low || dy > high || dz < low || dz > high {
            return None;
        }
        proof {
            lemma_square_bounds(dx as int);
            lemma_square_bounds(dy as int);
            lemma_square_bounds(dz as int);
        }
        let xx: i64 = dx * dx;
        let yy: i64 = dy * dy;
        let zz: i64 = dz * dz;
        if xx > high || yy > high || zz > high || xx + yy > high || xx + yy + zz > high {
            return None;
        }
        Some((xx + yy + zz) as i32)
    }

    /// Every step of the distance's computation fits 32 bits with a sign:
    /// the three differences, their squares, and the sums of the squares
    /// taken from the left.
    pub open spec fn squares_fit(self, other: Coordinate) -> bool {
        let dx = other.x - self.x;
        let dy = other.y - self.y;
        let dz = other.z - self.z;
        &&& i32::MIN <= dx <= i32::MAX
        &&& dx * dx <= i32::MAX
        &&& i32::MIN <= dy <= i32::MAX
        &&& dy * dy <= i32::MAX
        &&& dx * dx + dy * dy <= i32::MAX
        &&& i32::MIN <= dz <= i32::MAX
        &&& dz * dz <= i32::MAX
        &&& dx * dx + dy * dy + dz * dz <= i32::MAX
    }
}

impl Portal {
    /// The portal that two numbers give.
    pub fn from_values(values: &Vec<usize>) -> (portal: Portal)
        requires
            values.len() >= 2,
        ensures
            portal == (Portal { a: values[0], b: values[1] }),
    {
        Portal { a: values[0], b: values[1] }
    }
}

proof fn lemma_square_bounds(d: int)
    requires
        i32::MIN <= d <= i32::MAX,
    ensures
        0 <= d * d <= 0x4000_0000_0000_0000,
{
    assert(0 <= d * d <= 0x4000_0000_0000_0000) by (nonlinear_arith)
        requires
            -0x8000_0000 <= d <= 0x7fff_ffff,
    ;
}

/// The star that a line of a chart writes: three integers of 32 bits with
/// one space between each two, and nothing else.
pub open spec fn star_of(line: Seq<char>) -> Option<Coordinate> {
    let parts = split_text(line, ' ');
    if parts.len() == 3 && i32_of(parts[0]) is Some && i32_of(parts[1]) is Some && i32_of(
        parts[2],
    ) is Some {
        Some(
            Coordinate {
                x: i32_of(parts[0])->0 as i32,
                y: i32_of(parts[1])->0 as i32,
                z: i32_of(parts[2])->0 as i32,
            },
        )
    } else {
        None
    }
}

/// The portal that a line of a chart writes: two unsigned integers with one
/// space between them, and nothing else.
pub open spec fn portal_of(line: Seq<char>) -> Option<Portal> {
    let parts = split_text(line, ' ');
    if parts.len() == 2 && usize_of(parts[0]) is Some && usize_of(parts[1]) is Some {
        Some(Portal { a: usize_of(parts[0])->0 as usize, b: usize_of(parts[1])->0 as usize })
    } else {
        None
    }
}

/// Reads a star from a line of a chart.
pub fn parse_star(line: &Vec<char>) -> (star: Option<Coordinate>)
    ensures
        star == star_of(line@),
{
    let parts = split(line, ' ');
    assert(rows(parts@).len() == parts.len());
    if parts.len() != 3 {
        return None;
    }
    assert(rows(parts@)[0] == parts[0]@);
    assert(rows(parts@)[1] == parts[1]@);
    assert(rows(parts@)[2] == parts[2]@);
    let x = match parse_i32(&parts[0]) {
        Some(value) => value,
        None => {
            return None;
        },
    };
    let y = match parse_i32(&parts[1]) {
        Some(value) => value,
        None => {
            return None;
        },
    };
    let z = match parse_i32(&parts[2]) {
        Some(value) => value,
        None => {
            return None;
        },
    };
    let mut values: Vec<i32> = Vec::new();
    values.push(x);
    values.push(y);
    values.push(z);
    Some(Coordinate::from_values(&values))
}

/// Reads a portal from a line of a chart.
pub fn parse_portal(line: &Vec<char>) -> (portal: Option<Portal>)
    ensures
        portal == portal_of(line@),
{
    let parts = split(line, ' ');
    assert(rows(parts@).len() == parts.len());
    if parts.len() != 2 {
        return None;
    }
    assert(rows(parts@)[0] == parts[0]@);
    assert(rows(parts@)[1] == parts[1]@);
    let a = match parse_usize(&parts[0]) {
        Some(value) => value,
        None => {
            return None;
        },
    };
    let b = match parse_usize(&parts[1]) {
        Some(value) => value,
        None => {
            return None;
        },
    };
    let mut values: Vec<usize> = Vec::new();
    values.push(a);
    values.push(b);
    Some(Portal::from_values(&values))
}

/// The stars that some lines write, where each line writes one.
pub open spec fn stars_of(lines: Seq<Seq<char>>) -> Option<Seq<Coordinate>> {
    if forall|i: int| 0 <= i < lines.len() ==> star_of(#[trigger] lines[i]) is Some {
        Some(Seq::new(lines.len(), |i: int| star_of(lines[i])->0))
    } else {
        None
    }
}

/// The portals that some lines write, where each line writes one.
pub open spec fn portals_of(lines: Seq<Seq<char>>) -> Option<Seq<Portal>> {
    if forall|i: int| 0 <= i < lines.len() ==> portal_of(#[trigger] lines[i]) is Some {
        Some(Seq::new(lines.len(), |i: int| portal_of(lines[i])->0))
    } else {
        None
    }
}

/// The chart that a text writes, line by line: the number of stars, that
/// many stars, the number of portals, and the portals.
///
/// The text is rejected where the number of stars is no number between
/// `MIN_STARS` and `MAX_STARS`, where one of the star lines that are there
/// writes no star, where the number of portals is no number between
/// `MIN_PORTALS` and `MAX_PORTALS`, or where one of the portal lines that
/// are there writes no portal. A text that ends before the line with the
/// number of portals cannot be worked on. Of the announced portals, those
/// that are there are taken; what follows them is not read.
pub open spec fn chart_of(text: Seq<char>) -> Result<(Seq<Coordinate>, Seq<Portal>), Status> {
    let lines = split_text(text, '\n');
    match usize_of(lines[0]) {
        None => Err(Status::BadRequest),
        Some(stars_amount) => if !(MIN_STARS <= stars_amount <= MAX_STARS) {
            Err(Status::BadRequest)
        } else {
            match stars_of(lines.subrange(1, least(stars_amount + 1, lines.len() as int))) {
                None => Err(Status::BadRequest),
                Some(stars) => if lines.len() < stars_amount + 2 {
                    Err(Status::InternalServerError)
                } else {
                    match usize_of(lines[stars_amount + 1]) {
                        None => Err(Status::BadRequest),
                        Some(portals_amount) => if !(MIN_PORTALS <= portals_amount
                            <= MAX_PORTALS) {
                            Err(Status::BadRequest)
                        } else {
                            match portals_of(
                                lines.subrange(
                                    stars_amount + 2,
                                    least(
                                        stars_amount + 2 + portals_amount,
                                        lines.len() as int,
                                    ),
                                ),
                            ) {
                                None => Err(Status::BadRequest),
                                Some(portals) => Ok((stars, portals)),
                            }
                        },
                    }
                },
            }
        },
    }
}

/// What the result of reading a chart holds.
pub open spec fn chart_view(read: Result<Chart, Status>) -> Result<
    (Seq<Coordinate>, Seq<Portal>),
    Status,
> {
    match read {
        Ok(chart) => Ok((chart.0@, chart.1@)),
        Err(status) => Err(status),
    }
}

/// Reads a star from each of the lines `from..to`.
pub fn parse_stars(lines: &Vec<Vec<char>>, from: usize, to: usize) -> (stars: Option<
    Vec<Coordinate>,
>)
    requires
        from <= to <= lines.len(),
    ensures
        stars.is_some() == stars_of(rows(lines@).subrange(from as int, to as int)).is_some(),
        stars matches Some(read) ==> Some(read@) == stars_of(
            rows(lines@).subrange(from as int, to as int),
        ),
{
    let ghost wanted = rows(lines@).subrange(from as int, to as int);
    let mut stars: Vec<Coordinate> = Vec::new();
    let mut i: usize = from;
    while i < to
        invariant
            from <= i <= to <= lines.len(),
            wanted == rows(lines@).subrange(from as int, to as int),
            stars.len() == i - from,
            forall|j: int| 0 <= j < i - from ==> star_of(#[trigger] wanted[j]) == Some(stars@[j]),
        decreases to - i,
    {
        assert(wanted[i - from] == lines[i as int]@);
        match parse_star(&lines[i]) {
            Some(star) => {
                stars.push(star);
            },
            None => {
                return None;
            },
        }
        i += 1;
    }
    assert(stars@ =~= stars_of(wanted)->0);
    Some(stars)
}

/// Reads a portal from each of the lines `from..to`.
pub fn parse_portals(lines: &Vec<Vec<char>>, from: usize, to: usize) -> (portals: Option<
    Vec<Portal>,
>)
    requires
        from <= to <= lines.len(),
    ensures
        portals.is_some() == portals_of(rows(lines@).subrange(from as int, to as int)).is_some(),
        portals matches Some(read) ==> Some(read@) == portals_of(
            rows(lines@).subrange(from as int, to as int),
        ),
{
    let ghost wanted = rows(lines@).subrange(from as int, to as int);
    let mut portals: Vec<Portal> = Vec::new();
    let mut i: usize = from;
    while i < to
        invariant
            from <= i <= to <= lines.len(),
            wanted == rows(lines@).subrange(from as int, to as int),
            portals.len() == i - from,
            forall|j: int|
                0 <= j < i - from ==> portal_of(#[trigger] wanted[j]) == Some(portals@[j]),
        decreases to - i,
    {
        assert(wanted[i - from] == lines[i as int]@);
        match parse_portal(&lines[i]) {
            Some(portal) => {
                portals.push(portal);
            },
            None => {
                return None;
            },
        }
        i += 1;
    }
    assert(portals@ =~= portals_of(wanted)->0);
    Some(portals)
}

/// For every star, the stars that the portals lead to: first the far ends
/// of the portals that start at it, then the near ends of the portals that
/// end at it, each in the order of the chart.
pub open spec fn links_of(portals: Seq<Portal>, star: int) -> Seq<usize> {
    portals.filter(|p: Portal| p.a == star).map_values(|p: Portal| p.b) + portals.filter(
        |p: Portal| p.b == star,
    ).map_values(|p: Portal| p.a)
}

/// The graph of a chart: the links of each of its stars.
pub open spec fn graph_of(stars: nat, portals: Seq<Portal>) -> Seq<Seq<usize>> {
    Seq::new(stars, |star: int| links_of(portals, star))
}

/// A portal joins two stars.
pub open spec fn joins(portal: Portal, a: int, b: int) -> bool {
    (portal.a == a && portal.b == b) || (portal.b == a && portal.a == b)
}

proof fn lemma_kept_was_there(portals: Seq<Portal>, keep: spec_fn(Portal) -> bool, k: int)
    requires
        0 <= k < portals.filter(keep).len(),
    ensures
        keep(portals.filter(keep)[k]),
        exists|i: int| 0 <= i < portals.len() && portals[i] == portals.filter(keep)[k],
    decreases portals.len(),
{
    reveal(Seq::filter);
    if portals.len() > 0 {
        let front = portals.drop_last();
        if k < front.filter(keep).len() {
            lemma_kept_was_there(front, keep, k);
            let i = choose|i: int| 0 <= i < front.len() && front[i] == front.filter(keep)[k];
            assert(portals[i] == portals.filter(keep)[k]);
        } else {
            assert(portals[portals.len() - 1] == portals.filter(keep)[k]);
        }
    }
}

proof fn lemma_links_are_portals(portals: Seq<Portal>, a: usize, b: usize)
    ensures
        links_of(portals, a as int).contains(b) <==> exists|i: int|
            0 <= i < portals.len() && joins(#[trigger] portals[i], a as int, b as int),
{
    let starts = |p: Portal| p.a == a as int;
    let ends = |p: Portal| p.b == a as int;
    let out = portals.filter(starts);
    let back = portals.filter(ends);
    let left = out.map_values(|p: Portal| p.b);
    let right = back.map_values(|p: Portal| p.a);
    let all = links_of(portals, a as int);
    assert(all == left + right);
    if all.contains(b) {
        let k = choose|k: int| 0 <= k < all.len() && all[k] == b;
        if k < left.len() {
            lemma_kept_was_there(portals, starts, k);
            let i = choose|i: int| 0 <= i < portals.len() && portals[i] == out[k];
            assert(joins(portals[i], a as int, b as int));
        } else {
            lemma_kept_was_there(portals, ends, k - left.len());
            let i = choose|i: int| 0 <= i < portals.len() && portals[i] == back[k - left.len()];
            assert(joins(portals[i], a as int, b as int));
        }
    }
    if exists|i: int| 0 <= i < portals.len() && joins(#[trigger] portals[i], a as int, b as int) {
        let i = choose|i: int|
            0 <= i < portals.len() && joins(#[trigger] portals[i], a as int, b as int);
        if portals[i].a == a && portals[i].b == b {
            portals.lemma_filter_contains(starts, i);
            let k = choose|k: int| 0 <= k < out.len() && out[k] == portals[i];
            assert(all[k] == b);
        } else {
            portals.lemma_filter_contains(ends, i);
            let k = choose|k: int| 0 <= k < back.len() && back[k] == portals[i];
            assert(all[left.len() + k] == b);
        }
    }
}

/// Portals lead both ways: a star is among the links of another exactly
/// when the other is among its own, and that is exactly when some portal
/// joins the two.
pub proof fn law_portals_lead_both_ways(portals: Seq<Portal>, a: usize, b: usize)
    ensures
        links_of(portals, a as int).contains(b) <==> links_of(portals, b as int).contains(a),
        links_of(portals, a as int).contains(b) <==> exists|i: int|
            0 <= i < portals.len() && joins(#[trigger] portals[i], a as int, b as int),
{
    lemma_links_are_portals(portals, a, b);
    lemma_links_are_portals(portals, b, a);
    if exists|i: int| 0 <= i < portals.len() && joins(#[trigger] portals[i], a as int, b as int) {
        let i = choose|i: int|
            0 <= i < portals.len() && joins(#[trigger] portals[i], a as int, b as int);
        assert(joins(portals[i], b as int, a as int));
    }
    if exists|i: int| 0 <= i < portals.len() && joins(#[trigger] portals[i], b as int, a as int) {
        let i = choose|i: int|
            0 <= i < portals.len() && joins(#[trigger] portals[i], b as int, a as int);
        assert(joins(portals[i], a as int, b as int));
    }
}

/// The links of one star.
pub fn links(portals: &Vec<Portal>, star: usize) -> (found: Vec<usize>)
    ensures
        found@ == links_of(portals@, star as int),
{
    let ghost starts = |p: Portal| p.a == star;
    let ghost ends = |p: Portal| p.b == star;
    let ghost far = |p: Portal| p.b;
    let ghost near = |p: Portal| p.a;
    let mut found: Vec<usize> = Vec::new();
    let mut i: usize = 0;
    while i < portals.len()
        invariant
            i <= portals.len(),
            starts == |p: Portal| p.a == star,
            far == |p: Portal| p.b,
            found@ == portals@.take(i as int).filter(starts).map_values(far),
        decreases portals.len() - i,
    {
        proof {
            lemma_filter_step(portals@, starts, i as int);
        }
        if portals[i].a == star {
            found.push(portals[i].b);
        }
        assert(found@ == portals@.take(i + 1).filter(starts).map_values(far));
        i += 1;
    }
    assert(portals@.take(portals.len() as int) == portals@);
    let ghost left = found@;
    let mut k: usize = 0;
    while k < portals.len()
        invariant
            k <= portals.len(),
            ends == |p: Portal| p.b == star,
            near == |p: Portal| p.a,
            found@ == left + portals@.take(k as int).filter(ends).map_values(near),
        decreases portals.len() - k,
    {
        proof {
            lemma_filter_step(portals@, ends, k as int);
        }
        if portals[k].b == star {
            found.push(portals[k].a);
        }
        assert(found@ == left + portals@.take(k + 1).filter(ends).map_values(near));
        k += 1;
    }
    found
}

/// A walk along the links of a graph that starts at `start` and ends at
/// `goal`.
pub open spec fn is_route(graph: Seq<Seq<usize>>, start: int, goal: int, path: Seq<usize>) -> bool {
    &&& path.len() >= 1
    &&& path[0] == start
    &&& path.last() == goal
    &&& forall|i: int|
        0 <= i < path.len() - 1 ==> (#[trigger] path[i]) < graph.len() && graph[path[i] as int].contains(
            path[i + 1],
        )
}

/// A route from `start` to `goal` that no other such route is shorter than.
pub open spec fn is_shortest_route(
    graph: Seq<Seq<usize>>,
    start: int,
    goal: int,
    path: Seq<usize>,
) -> bool {
    &&& is_route(graph, start, goal, path)
    &&& forall|other: Seq<usize>| #[trigger]
        is_route(graph, start, goal, other) ==> path.len() <= other.len()
}

/// No route leads from `start` to `goal`.
pub open spec fn no_route(graph: Seq<Seq<usize>>, start: int, goal: int) -> bool {
    forall|other: Seq<usize>| !#[trigger] is_route(graph, start, goal, other)
}

/// The route that a breadth-first search finds in a graph, if it finds one.
pub uninterp spec fn bfs_route(graph: Seq<Seq<usize>>, start: usize, goal: usize) -> Option<
    Seq<usize>,
>;

/// What an optional route holds.
pub open spec fn route_view(route: Option<Vec<usize>>) -> Option<Seq<usize>> {
    match route {
        Some(path) => Some(path@),
        None => None,
    }
}

/// The stars that can be reached from a star in one step. A star that is
/// not on the chart leads nowhere.
pub fn next_stars(graph: &Graph, star: usize) -> (found: Vec<usize>)
    ensures
        found@ == if star < graph.len() {
            graph[star as int]@
        } else {
            Seq::<usize>::empty()
        },
{
    if star < graph.len() {
        graph[star].clone()
    } else {
        Vec::new()
    }
}

/// Whether a star is the one that the flight heads for.
pub fn is_goal(star: usize, goal: usize) -> (reached: bool)
    ensures
        reached == (star == goal),
{
    star == goal
}

/// `pathfinding::directed::bfs::bfs` from `start`, with `next_stars` for the
/// successors and `is_goal` for the test. The crate documents that it
/// returns a shortest path to a node that passes the test, start and end
/// included, and `None` if there is no path. The contract says that much
/// and names the path that is chosen among the shortest ones.
#[verifier::external_body]
pub(crate) fn shortest_route(graph: &Graph, start: usize, goal: usize) -> (route: Option<
    Vec<usize>,
>)
    ensures
        route_view(route) == bfs_route(rows_of(graph@), start, goal),
        route matches Some(path) ==> is_shortest_route(
            rows_of(graph@),
            start as int,
            goal as int,
            path@,
        ),
        route is None ==> no_route(rows_of(graph@), start as int, goal as int),
{
    pathfinding::directed::bfs::bfs(
        &start,
        |star| next_stars(graph, *star),
        |star| is_goal(*star, goal),
    )
}

/// A flight from the first star of a chart to its last: the stars on the
/// way, both ends included, and for each leg the square of its length.
#[derive(Clone, Debug)]
pub struct Flight {
    pub path: Vec<usize>,
    pub squares: Vec<i32>,
}

/// What a flight holds.
pub struct FlightView {
    pub path: Seq<usize>,
    pub squares: Seq<i32>,
}

impl View for Flight {
    type V = FlightView;

    open spec fn view(&self) -> FlightView {
        FlightView { path: self.path@, squares: self.squares@ }
    }
}

impl Flight {
    /// The number of portals that the flight takes.
    pub fn hops(&self) -> (hops: usize)
        ensures
            hops == if self@.path.len() == 0 {
                0
            } else {
                self@.path.len() - 1
            },
    {
        if self.path.len() == 0 {
            0
        } else {
            self.path.len() - 1
        }
    }
}

/// The leg `i` of a path can be measured: both of its ends are on the
/// chart and the square of its length fits 32 bits with a sign.
pub open spec fn leg_fits(stars: Seq<Coordinate>, path: Seq<usize>, i: int) -> bool {
    path[i] < stars.len() && path[i + 1] < stars.len() && stars[path[i] as int].squares_fit(
        stars[path[i + 1] as int],
    )
}

/// The flight along a route. There is none without a route, along an
/// empty route, or where a leg cannot be measured.
pub open spec fn flight_of(stars: Seq<Coordinate>, route: Option<Seq<usize>>) -> Result<
    FlightView,
    Status,
> {
    match route {
        None => Err(Status::InternalServerError),
        Some(path) => if path.len() >= 1 && forall|i: int|
            0 <= i < path.len() - 1 ==> leg_fits(stars, path, i) {
            Ok(
                FlightView {
                    path: path,
                    squares: Seq::new(
                        (path.len() - 1) as nat,
                        |i: int| stars[path[i] as int].square_to(stars[path[i + 1] as int]) as i32,
                    ),
                },
            )
        } else {
            Err(Status::InternalServerError)
        },
    }
}

/// What the result of a flight holds.
pub open spec fn flight_view(flown: Result<Flight, Status>) -> Result<FlightView, Status> {
    match flown {
        Ok(flight) => Ok(flight@),
        Err(status) => Err(status),
    }
}

/// Measures the flight along a route.
pub fn fly(stars: &Vec<Coordinate>, route: Option<Vec<usize>>) -> (flown: Result<Flight, Status>)
    ensures
        flight_view(flown) == flight_of(stars@, route_view(route)),
{
    let path = match route {
        Some(path) => path,
        None => {
            return Err(Status::InternalServerError);
        },
    };
    if path.len() == 0 {
        return Err(Status::InternalServerError);
    }
    let mut squares: Vec<i32> = Vec::new();
    let mut i: usize = 0;
    while i < path.len() - 1
        invariant
            route_view(route) == Some(path@),
            path.len() >= 1,
            i <= path.len() - 1,
            squares.len() == i,
            forall|j: int| 0 <= j < i ==> leg_fits(stars@, path@, j),
            forall|j: int|
                0 <= j < i ==> squares@[j] == stars@[path@[j] as int].square_to(
                    stars@[path@[j + 1] as int],
                ),
        decreases path.len() - i,
    {
        if path[i] >= stars.len() || path[i + 1] >= stars.len() {
            assert(!leg_fits(stars@, path@, i as int));
            assert(flight_of(stars@, Some(path@)) is Err);
            return Err(Status::InternalServerError);
        }
        match stars[path[i]].squared_distance(&stars[path[i + 1]]) {
            Some(square) => {
                squares.push(square);
            },
            None => {
                assert(!leg_fits(stars@, path@, i as int));
                assert(flight_of(stars@, Some(path@)) is Err);
                return Err(Status::InternalServerError);
            },
        }
        i += 1;
    }
    assert(squares@ =~= flight_of(stars@, Some(path@))->Ok_0.squares);
    Ok(Flight { path: path, squares: squares })
}

/// The exclusive-or of some numbers, taken from the left.
pub open spec fn xor_all(values: Seq<u64>) -> u64
    decreases values.len(),
{
    if values.len() == 0 {
        0
    } else {
        xor_all(values.drop_last()) ^ values.last()
    }
}

/// Whether a line holds anything.
pub open spec fn is_filled(line: Seq<char>) -> bool {
    line.len() > 0
}

/// The lines of a text that hold anything.
pub open spec fn filled_lines(text: Seq<char>) -> Seq<Seq<char>> {
    split_text(text, '\n').filter(|line: Seq<char>| is_filled(line))
}

/// The numbers that some lines write, where each line writes one.
pub open spec fn numbers_of(lines: Seq<Seq<char>>) -> Option<Seq<u64>> {
    if forall|i: int| 0 <= i < lines.len() ==> u64_of(#[trigger] lines[i]) is Some {
        Some(Seq::new(lines.len(), |i: int| u64_of(lines[i])->0 as u64))
    } else {
        None
    }
}

/// A row of `count` gifts.
pub open spec fn gifts(count: nat) -> Seq<char> {
    Seq::new(count, |i: int| '🎁')
}

/// How many gifts a text asks for: the exclusive-or of the numbers on its
/// lines, empty lines left out. A line that writes no unsigned number of
/// 64 bits has the text rejected.
pub open spec fn gift_count(text: Seq<char>) -> Result<u64, Status> {
    match numbers_of(filled_lines(text)) {
        Some(numbers) => Ok(xor_all(numbers)),
        None => Err(Status::BadRequest),
    }
}

/// Counts the gifts that a text asks for.
pub fn count_gifts(text: &Vec<char>) -> (count: Result<u64, Status>)
    ensures
        count == gift_count(text@),
{
    let lines = split(text, '\n');
    let ghost filled = |line: Seq<char>| is_filled(line);
    let ghost all = rows(lines@);
    let mut total: u64 = 0;
    let ghost mut numbers: Seq<u64> = Seq::empty();
    let mut i: usize = 0;
    while i < lines.len()
        invariant
            i <= lines.len(),
            all == rows(lines@),
            all == split_text(text@, '\n'),
            filled == |line: Seq<char>| is_filled(line),
            numbers_of(all.take(i as int).filter(filled)) == Some(numbers),
            total == xor_all(numbers),
        decreases lines.len() - i,
    {
        proof {
            lemma_filter_step(all, filled, i as int);
            assert(all[i as int] == lines[i as int]@);
        }
        let ghost before = all.take(i as int).filter(filled);
        if lines[i].len() > 0 {
            match parse_u64(&lines[i]) {
                Some(value) => {
                    proof {
                        let after = before.push(all[i as int]);
                        assert forall|j: int| 0 <= j < after.len() implies u64_of(
                            #[trigger] after[j],
                        ) is Some by {
                            if j < before.len() {
                                assert(after[j] == before[j]);
                            }
                        }
                        let grown = numbers.push(value);
                        assert(numbers_of(after)->0 =~= grown);
                        assert(grown.drop_last() == numbers);
                        numbers = grown;
                    }
                    total = total ^ value;
                },
                None => {
                    proof {
                        let after = all.take(i + 1).filter(filled);
                        assert(after == before.push(all[i as int]));
                        assert(u64_of(after[after.len() - 1]) is None);
                        assert(numbers_of(after) is None);
                        lemma_unreadable_line_stays(all, filled, i + 1, lines.len() as int);
                        assert(all.take(lines.len() as int) == all);
                    }
                    return Err(Status::BadRequest);
                },
            }
        }
        i += 1;
    }
    assert(all.take(lines.len() as int) == all);
    Ok(total)
}

proof fn lemma_unreadable_line_stays(
    all: Seq<Seq<char>>,
    filled: spec_fn(Seq<char>) -> bool,
    i: int,
    j: int,
)
    requires
        0 <= i <= j <= all.len(),
        numbers_of(all.take(i).filter(filled)) is None,
    ensures
        numbers_of(all.take(j).filter(filled)) is None,
    decreases j - i,
{
    if i < j {
        lemma_unreadable_line_stays(all, filled, i, j - 1);
        lemma_filter_step(all, filled, j - 1);
        let before = all.take(j - 1).filter(filled);
        let after = all.take(j).filter(filled);
        let bad = choose|k: int| 0 <= k < before.len() && !(u64_of(#[trigger] before[k]) is Some);
        assert(after[bad] == before[bad]);
    }
}

/// Writes a row of gifts.
pub fn gift_row(count: usize) -> (row: String)
    ensures
        row@ == gifts(count as nat),
{
    let mut row = String::new();
    let mut i: usize = 0;
    while i < count
        invariant
            i <= count,
            row@ == gifts(i as nat),
        decreases count - i,
    {
        push_char(&mut row, '🎁');
        assert(row@ == gifts((i + 1) as nat));
        i += 1;
    }
    row
}

/// The star chart endpoints.
pub struct Day22 {}

impl Day22 {
    /// A row of as many gifts as the exclusive-or of the numbers in the
    /// text says, one number to a line.
    pub fn integers(text: String) -> (answer: Result<String, Status>)
        ensures
            answer is Ok == gift_count(text@) is Ok,
            answer matches Ok(row) ==> row@ == gifts(gift_count(text@)->Ok_0 as usize as nat),
            answer matches Err(status) ==> gift_count(text@) == Err::<u64, Status>(status),
    {
        let chars = chars_of(text.as_str());
        match count_gifts(&chars) {
            Ok(count) => Ok(gift_row(count as usize)),
            Err(status) => Err(status),
        }
    }

    /// The flight from the first star of a chart to its last along the
    /// fewest portals. The route is a shortest one; which of several
    /// shortest routes is taken is the search's choice. A chart that cannot
    /// be read is answered as `parse_chart` says; a chart without a route,
    /// or with a leg that cannot be measured, cannot be worked on.
    pub fn rocket(chart: String) -> (flown: Result<Flight, Status>)
        ensures
            flight_view(flown) == match chart_of(chart@) {
                Ok((stars, portals)) => flight_of(
                    stars,
                    bfs_route(
                        graph_of(stars.len(), portals),
                        0,
                        (stars.len() - 1) as usize,
                    ),
                ),
                Err(status) => Err(status),
            },
            flown matches Ok(flight) ==> chart_of(chart@) matches Ok((stars, portals))
                && is_shortest_route(
                graph_of(stars.len(), portals),
                0,
                stars.len() - 1,
                flight@.path,
            ),
    {
        let chart = match Day22::parse_chart(chart) {
            Ok(chart) => chart,
            Err(status) => {
                return Err(status);
            },
        };
        let graph = Day22::build_graph(&chart);
        if chart.0.len() == 0 {
            return Err(Status::InternalServerError);
        }
        let route = shortest_route(&graph, 0, chart.0.len() - 1);
        fly(&chart.0, route)
    }

    /// Reads a chart. A chart that was read has as many stars as its first
    /// line says, and no more portals than it announces.
    pub fn parse_chart(chart: String) -> (read: Result<Chart, Status>)
        ensures
            chart_view(read) == chart_of(chart@),
            read matches Ok(made) ==> MIN_STARS <= made.0.len() <= MAX_STARS && made.1.len()
                <= MAX_PORTALS,
    {
        let text = chars_of(chart.as_str());
        let lines = split(&text, '\n');
        proof {
            crate::text::lemma_split_rejoins(text@, '\n');
            assert(rows(lines@).len() == lines.len());
            assert(rows(lines@)[0] == lines[0]@);
        }
        let stars_amount = match parse_usize(&lines[0]) {
            Some(amount) => amount,
            None => {
                return Err(Status::BadRequest);
            },
        };
        if stars_amount < MIN_STARS || stars_amount > MAX_STARS {
            return Err(Status::BadRequest);
        }
        let stars_end = if stars_amount + 1 <= lines.len() {
            stars_amount + 1
        } else {
            lines.len()
        };
        let stars = match parse_stars(&lines, 1, stars_end) {
            Some(stars) => stars,
            None => {
                return Err(Status::BadRequest);
            },
        };
        if lines.len() < stars_amount + 2 {
            return Err(Status::InternalServerError);
        }
        assert(rows(lines@)[stars_amount + 1] == lines[stars_amount + 1]@);
        let portals_amount = match parse_usize(&lines[stars_amount + 1]) {
            Some(amount) => amount,
            None => {
                return Err(Status::BadRequest);
            },
        };
        if portals_amount < MIN_PORTALS || portals_amount > MAX_PORTALS {
            return Err(Status::BadRequest);
        }
        let portals_end = if stars_amount + 2 + portals_amount <= lines.len() {
            stars_amount + 2 + portals_amount
        } else {
            lines.len()
        };
        let portals = match parse_portals(&lines, stars_amount + 2, portals_end) {
            Some(portals) => portals,
            None => {
                return Err(Status::BadRequest);
            },
        };
        Ok((stars, portals))
    }

    /// Builds the graph of a chart.
    pub fn build_graph(chart: &Chart) -> (graph: Graph)
        ensures
            rows_of(graph@) == graph_of(chart.0@.len(), chart.1@),
    {
        let mut graph: Graph = Vec::new();
        let mut star: usize = 0;
        while star < chart.0.len()
            invariant
                star <= chart.0.len(),
                graph.len() == star,
                forall|j: int| 0 <= j < star ==> (#[trigger] graph@[j])@ == links_of(chart.1@, j),
            decreases chart.0.len() - star,
        {
            graph.push(links(&chart.1, star));
            star += 1;
        }
        assert(rows_of(graph@) =~= graph_of(chart.0@.len(), chart.1@));
        graph
    }
}

/// The lists that a graph holds.
pub open spec fn rows_of(graph: Seq<Vec<usize>>) -> Seq<Seq<usize>> {
    Seq::new(graph.len(), |i: int| graph[i]@)
}

} // verus!
