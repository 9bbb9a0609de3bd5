//! The river network: sites, the ranking of sites by distance, and the
//! raster on which the sites and the vertices of their diagram are marked.

use vstd::prelude::*;
use std::collections::HashMap;
use crate::fixed::{Point, UNIT};

verus! {

/// The position of a site in a list of river nodes.
pub type RiverIndex = usize;

/// A colour: red, green, blue.
pub type Rgb = [u8; 3];

/// A pixel as a raster takes it: red, green, blue, alpha.
pub type Rgba = [u8; 4];

/// A site of the river network. Its coordinates are fractions of the unit
/// cube; the third one is kept for a coupling with elevation and plays no
/// part in the raster. The parent is the start of a tree that nothing reads
/// yet.
#[derive(Clone, Copy, Debug)]
pub struct RiverNode {
    pub parent: Option<RiverIndex>,
    pub coord: [i64; 3],
}

/// A point of the land with the three sites that carry it. Nothing fills
/// or reads it yet: it is where a routing of rivers by elevation would
/// start.
#[derive(Clone, Copy, Debug)]
pub struct LandNode {
    pub coord: [i64; 3],
    pub river_supports: [RiverIndex; 3],
}

impl RiverNode {
    /// The node lies in the unit cube.
    pub open spec fn wf(&self) -> bool {
        forall|k: int| 0 <= k < 3 ==> 0 <= #[trigger] self.coord[k] < UNIT
    }

    /// A root node at the given position.
    pub fn new(x: i64, y: i64, z: i64) -> (node: RiverNode)
        ensures
            node.parent.is_none(),
            node.coord[0] == x,
            node.coord[1] == y,
            node.coord[2] == z,
            (0 <= x < UNIT && 0 <= y < UNIT && 0 <= z < UNIT) ==> node.wf(),
    {
        RiverNode { parent: None, coord: [x, y, z] }
    }
}

/// The pixel index, along one axis of `extent` pixels, under the fraction
/// `x`: rounded down, and held within what a machine index can be.
pub open spec fn spec_discrete(x: int, extent: int) -> int {
    if x <= 0 {
        0
    } else if (x * extent) / (UNIT as int) > usize::MAX {
        usize::MAX as int
    } else {
        (x * extent) / (UNIT as int)
    }
}

fn discrete_axis(x: i64, extent: usize) -> (i: usize)
    ensures
        i == spec_discrete(x as int, extent as int),
{
    if x <= 0 {
        return 0;
    }
    assert(0 <= x as int * extent as int <= 0x8000_0000_0000_0000 * 0x1_0000_0000_0000_0000)
        by (nonlinear_arith)
        requires
            0 < x <= 0x7fff_ffff_ffff_ffff,
            0 <= extent <= 0xffff_ffff_ffff_ffff,
    ;
    let wide: u128 = (x as u128) * (extent as u128);
    let q: u128 = wide / (UNIT as u128);
    if q > usize::MAX as u128 {
        usize::MAX
    } else {
        q as usize
    }
}

/// The pixel under a point given in fractions of the raster's two extents.
pub fn discrete_coord(x: i64, y: i64, width: usize, height: usize) -> (p: (usize, usize))
    ensures
        p.0 == spec_discrete(x as int, width as int),
        p.1 == spec_discrete(y as int, height as int),
{
    (discrete_axis(x, width), discrete_axis(y, height))
}

/// The squared Euclidean distance, in the plane, from a node to a point.
/// It orders the nodes as the distance itself does.
pub open spec fn dist_sq(node: RiverNode, x: int, y: int) -> int {
    (node.coord[0] - x) * (node.coord[0] - x) + (node.coord[1] - y) * (node.coord[1] - y)
}

/// Node `a` ranks before node `b` as seen from the point: it is nearer, or
/// as near and earlier in the list.
pub open spec fn ranks_before(nodes: Seq<RiverNode>, x: int, y: int, a: int, b: int) -> bool {
    dist_sq(nodes[a], x, y) < dist_sq(nodes[b], x, y) || (dist_sq(nodes[a], x, y) == dist_sq(
        nodes[b],
        x,
        y,
    ) && a < b)
}

/// `r` holds, in ascending order, the indices of the three nodes that rank
/// before every other node.
pub open spec fn is_closest_3(nodes: Seq<RiverNode>, x: int, y: int, r: [usize; 3]) -> bool {
    &&& r[0] < r[1] < r[2] < nodes.len()
    &&& forall|j: int, k: int|
        0 <= j < nodes.len() && 0 <= k < 3 && j != r[0] && j != r[1] && j != r[2]
            ==> #[trigger] ranks_before(nodes, x, y, r[k] as int, j)
}

spec fn skipped(j: int, skip_a: usize, skip_b: usize) -> bool {
    j == skip_a || j == skip_b
}

/// There is one answer only: two triples that both hold the three nearest
/// sites in ascending order are the same triple.
pub proof fn lemma_closest_3_unique(
    nodes: Seq<RiverNode>,
    x: int,
    y: int,
    a: [usize; 3],
    b: [usize; 3],
)
    requires
        is_closest_3(nodes, x, y, a),
        is_closest_3(nodes, x, y, b),
    ensures
        a[0] == b[0],
        a[1] == b[1],
        a[2] == b[2],
{
    assert forall|k: int| 0 <= k < 3 implies (a[k] == b[0] || a[k] == b[1] || a[k] == b[2]) by {
        if a[k] != b[0] && a[k] != b[1] && a[k] != b[2] {
            let j = a[k] as int;
            assert(ranks_before(nodes, x, y, b[0] as int, j));
            assert(ranks_before(nodes, x, y, b[1] as int, j));
            assert(ranks_before(nodes, x, y, b[2] as int, j));
            // one of b's sites is none of a's, and a's rank before it
            if b[0] != a[0] && b[0] != a[1] && b[0] != a[2] {
                assert(ranks_before(nodes, x, y, a[k] as int, b[0] as int));
            } else if b[1] != a[0] && b[1] != a[1] && b[1] != a[2] {
                assert(ranks_before(nodes, x, y, a[k] as int, b[1] as int));
            } else {
                assert(b[2] != a[0] && b[2] != a[1] && b[2] != a[2]);
                assert(ranks_before(nodes, x, y, a[k] as int, b[2] as int));
            }
        }
    }
    let zero: int = 0;
    let one: int = 1;
    let two: int = 2;
    assert(a[zero] == b[0] || a[zero] == b[1] || a[zero] == b[2]);
    assert(a[one] == b[0] || a[one] == b[1] || a[one] == b[2]);
    assert(a[two] == b[0] || a[two] == b[1] || a[two] == b[2]);
}

fn distance_sq(node: &RiverNode, x: i64, y: i64) -> (d: u128)
    requires
        node.wf(),
    ensures
        d == dist_sq(*node, x as int, y as int),
{
    assert(0 <= node.coord[0] < UNIT && 0 <= node.coord[1] < UNIT);
    let dx: i128 = node.coord[0] as i128 - x as i128;
    let dy: i128 = node.coord[1] as i128 - y as i128;
    assert(0 <= dx * dx <= 0x4100_0000_0000_0000_0000_0000_0000_0000) by (nonlinear_arith)
        requires
            -0x8000_0000_0010_0000 <= dx <= 0x8000_0000_0010_0000,
    ;
    assert(0 <= dy * dy <= 0x4100_0000_0000_0000_0000_0000_0000_0000) by (nonlinear_arith)
        requires
            -0x8000_0000_0010_0000 <= dy <= 0x8000_0000_0010_0000,
    ;
    let sx: i128 = dx * dx;
    let sy: i128 = dy * dy;
    (sx as u128) + (sy as u128)
}

/// The node that ranks before every other node but the two to skip. An
/// index past the end of the list skips nothing.
fn nearest_but(nodes: &Vec<RiverNode>, x: i64, y: i64, skip_a: usize, skip_b: usize) -> (m: usize)
    requires
        nodes.len() >= 3,
        forall|i: int| 0 <= i < nodes.len() ==> (#[trigger] nodes[i]).wf(),
    ensures
        m < nodes.len(),
        m != skip_a,
        m != skip_b,
        forall|j: int|
            0 <= j < nodes.len() && j != skip_a && j != skip_b && j != m
                ==> #[trigger] ranks_before(nodes@, x as int, y as int, m as int, j),
{
    let n: usize = nodes.len();
    let mut best: usize = n;
    let mut best_d: u128 = 0;
    let mut i: usize = 0;
    while i < n
        invariant
            n == nodes.len(),
            n >= 3,
            i <= n,
            forall|k: int| 0 <= k < nodes.len() ==> (#[trigger] nodes[k]).wf(),
            best == n ==> forall|j: int| 0 <= j < i ==> #[trigger] skipped(j, skip_a, skip_b),
            best != n ==> best < i && best != skip_a && best != skip_b && best_d == dist_sq(
                nodes[best as int],
                x as int,
                y as int,
            ),
            best != n ==> forall|j: int|
                0 <= j < i && j != skip_a && j != skip_b && j != best
                    ==> #[trigger] ranks_before(nodes@, x as int, y as int, best as int, j),
        decreases n - i,
    {
        let ghost prev = best;
        if i != skip_a && i != skip_b {
            let d: u128 = distance_sq(&nodes[i], x, y);
            if best == n || d < best_d {
                best = i;
                best_d = d;
            }
        }
        proof {
            assert forall|j: int|
                0 <= j < i + 1 && j != skip_a && j != skip_b && j != best && best != n
                    implies #[trigger] ranks_before(nodes@, x as int, y as int, best as int, j) by {
                if prev == n {
                    assert(j < i ==> skipped(j, skip_a, skip_b));
                } else if j < i && j != prev {
                    assert(ranks_before(nodes@, x as int, y as int, prev as int, j));
                }
            }
        }
        i += 1;
    }
    proof {
        if best == n {
            let zero: int = 0;
            let one: int = 1;
            let two: int = 2;
            assert(skipped(zero, skip_a, skip_b));
            assert(skipped(one, skip_a, skip_b));
            assert(skipped(two, skip_a, skip_b));
        }
    }
    best
}

/// The three sites nearest to a point, by Euclidean distance in the plane;
/// of two sites at the same distance the earlier one is the nearer. The
/// three indices come in ascending order, whatever their distances.
pub fn closest_3_river_indices(nodes: &Vec<RiverNode>, x: i64, y: i64) -> (r: [RiverIndex; 3])
    requires
        nodes.len() >= 3,
        forall|i: int| 0 <= i < nodes.len() ==> (#[trigger] nodes[i]).wf(),
    ensures
        is_closest_3(nodes@, x as int, y as int, r),
{
    let n: usize = nodes.len();
    let first: usize = nearest_but(nodes, x, y, n, n);
    let second: usize = nearest_but(nodes, x, y, first, n);
    let third: usize = nearest_but(nodes, x, y, first, second);
    let mut a: usize = first;
    let mut b: usize = second;
    let mut c: usize = third;
    if a > b {
        let t: usize = a;
        a = b;
        b = t;
    }
    if b > c {
        let t: usize = b;
        b = c;
        c = t;
    }
    if a > b {
        let t: usize = a;
        a = b;
        b = t;
    }
    let r: [usize; 3] = [a, b, c];
    proof {
        assert forall|j: int, k: int|
            0 <= j < nodes.len() && 0 <= k < 3 && j != r[0] && j != r[1] && j != r[2]
                implies #[trigger] ranks_before(nodes@, x as int, y as int, r[k] as int, j) by {
            assert(ranks_before(nodes@, x as int, y as int, first as int, j));
            assert(ranks_before(nodes@, x as int, y as int, second as int, j));
            assert(ranks_before(nodes@, x as int, y as int, third as int, j));
            assert(r[k] == first || r[k] == second || r[k] == third);
        }
    }
    r
}

/// The place of pixel `(x, y)` in a raster of the given width that is
/// written row after row.
pub open spec fn raster_index(x: int, y: int, width: int) -> int {
    y * width + x
}

/// Two pixels of one raster that share a place are the same pixel.
pub proof fn lemma_raster_index_injective(x1: int, y1: int, x2: int, y2: int, width: int)
    requires
        0 <= x1 < width,
        0 <= x2 < width,
        raster_index(x1, y1, width) == raster_index(x2, y2, width),
    ensures
        x1 == x2,
        y1 == y2,
{
    assert(y1 == y2) by (nonlinear_arith)
        requires
            0 <= x1 < width,
            0 <= x2 < width,
            y1 * width + x1 == y2 * width + x2,
    ;
}

/// Every pixel of a raster has its place before the raster's end.
pub proof fn lemma_raster_index_bound(x: int, y: int, width: int, height: int)
    requires
        0 <= x < width,
        0 <= y < height,
    ensures
        0 <= raster_index(x, y, width) < width * height,
{
    assert(0 <= y * width + x < width * height) by (nonlinear_arith)
        requires
            0 <= x < width,
            0 <= y < height,
    ;
}

/// What the raster shows at a pixel, given the overlay: the pixel's colour
/// if it has one, black if it has none, and opaque either way.
pub open spec fn spec_river_pixel(overlay: Map<(int, int), Rgb>, x: int, y: int) -> Rgba {
    if overlay.contains_key((x, y)) {
        [overlay[(x, y)][0], overlay[(x, y)][1], overlay[(x, y)][2], 255u8]
    } else {
        [0u8, 0u8, 0u8, 255u8]
    }
}

/// A sparse map from the pixels of a raster to colours. A pixel that was
/// never marked has no colour.
pub struct PixelMap {
    width: usize,
    height: usize,
    cells: HashMap<usize, Rgb>,
}

impl PixelMap {
    /// The raster's width.
    pub closed spec fn spec_width(&self) -> int {
        self.width as int
    }

    /// The raster's height.
    pub closed spec fn spec_height(&self) -> int {
        self.height as int
    }

    /// The raster's places fit a machine index.
    pub closed spec fn wf(&self) -> bool {
        self.width * self.height <= usize::MAX
    }

    /// The marked pixels, by column and row, with their colours.
    pub closed spec fn view(&self) -> Map<(int, int), Rgb> {
        Map::new(
            |p: (int, int)|
                0 <= p.0 < self.width && 0 <= p.1 < self.height && self.cells@.contains_key(
                    raster_index(p.0, p.1, self.width as int) as usize,
                ),
            |p: (int, int)| self.cells@[raster_index(p.0, p.1, self.width as int) as usize],
        )
    }

    /// A map with no pixel marked.
    pub fn new(width: usize, height: usize) -> (m: PixelMap)
        requires
            width * height <= usize::MAX,
        ensures
            m.wf(),
            m.spec_width() == width,
            m.spec_height() == height,
            m@ == Map::<(int, int), Rgb>::empty(),
    {
        let m = PixelMap { width, height, cells: HashMap::new() };
        assert(m@ =~= Map::<(int, int), Rgb>::empty());
        m
    }

    /// The raster's width.
    pub fn width(&self) -> (w: usize)
        ensures
            w == self.spec_width(),
    {
        self.width
    }

    /// The raster's height.
    pub fn height(&self) -> (h: usize)
        ensures
            h == self.spec_height(),
    {
        self.height
    }

    /// Gives a pixel its colour, in place of the one it had. A pixel outside
    /// the raster takes no colour.
    pub fn mark(&mut self, x: usize, y: usize, color: Rgb)
        requires
            old(self).wf(),
        ensures
            final(self).wf(),
            final(self).spec_width() == old(self).spec_width(),
            final(self).spec_height() == old(self).spec_height(),
            x < old(self).spec_width() && y < old(self).spec_height() ==> final(self)@ == old(
                self,
            )@.insert((x as int, y as int), color),
            !(x < old(self).spec_width() && y < old(self).spec_height()) ==> final(self)@ == old(
                self,
            )@,
    {
        if x < self.width && y < self.height {
            proof {
                lemma_raster_index_bound(x as int, y as int, self.width as int, self.height as int);
            }
            let key: usize = y * self.width + x;
            self.cells.insert(key, color);
            proof {
                let w = self.width as int;
                assert forall|p: (int, int)| 0 <= p.0 < w && 0 <= p.1 < self.height implies (
                raster_index(p.0, p.1, w) as usize == key <==> p == (x as int, y as int)) by {
                    lemma_raster_index_bound(p.0, p.1, w, self.height as int);
                    if raster_index(p.0, p.1, w) == key {
                        lemma_raster_index_injective(p.0, p.1, x as int, y as int, w);
                    }
                }
                assert(self@ =~= old(self)@.insert((x as int, y as int), color));
            }
        }
    }

    /// The pixel as the raster shows it: its colour if it was marked, black if
    /// not, and opaque.
    pub fn pixel(&self, x: usize, y: usize) -> (p: Rgba)
        requires
            self.wf(),
        ensures
            p == spec_river_pixel(self@, x as int, y as int),
    {
        match self.get(x, y) {
            Some(c) => [c[0], c[1], c[2], 255],
            None => [0, 0, 0, 255],
        }
    }

    /// The colour that a pixel was marked with, if it was.
    pub fn get(&self, x: usize, y: usize) -> (c: Option<Rgb>)
        requires
            self.wf(),
        ensures
            c == (if self@.contains_key((x as int, y as int)) {
                Some(self@[(x as int, y as int)])
            } else {
                None
            }),
    {
        if x < self.width && y < self.height {
            proof {
                lemma_raster_index_bound(x as int, y as int, self.width as int, self.height as int);
            }
            let key: usize = y * self.width + x;
            match self.cells.get(&key) {
                Some(c) => Some(*c),
                None => None,
            }
        } else {
            None
        }
    }
}

/// The colour that marks a site.
pub open spec fn spec_site_color() -> Rgb {
    [100u8, 100u8, 255u8]
}

/// The colour that marks a vertex of the diagram.
pub open spec fn spec_vertex_color() -> Rgb {
    [255u8, 100u8, 100u8]
}

/// The colour that marks a site.
pub fn site_color() -> (c: Rgb)
    ensures
        c == spec_site_color(),
{
    [100, 100, 255]
}

/// The colour that marks a vertex of the diagram.
pub fn vertex_color() -> (c: Rgb)
    ensures
        c == spec_vertex_color(),
{
    [255, 100, 100]
}

/// The pixel under a point of the plane.
pub open spec fn point_pixel(x: int, y: int, width: int, height: int) -> (int, int) {
    (spec_discrete(x, width), spec_discrete(y, height))
}

/// One of the first `n` sites lies on pixel `p`.
pub open spec fn site_on(
    nodes: Seq<RiverNode>,
    n: int,
    width: int,
    height: int,
    p: (int, int),
) -> bool {
    exists|i: int|
        0 <= i < n && point_pixel(
            (#[trigger] nodes[i]).coord[0] as int,
            nodes[i].coord[1] as int,
            width,
            height,
        ) == p
}

/// One of the first `n` vertices lies on pixel `p`.
pub open spec fn vertex_on(
    vertices: Seq<Point>,
    n: int,
    width: int,
    height: int,
    p: (int, int),
) -> bool {
    exists|j: int|
        0 <= j < n && point_pixel(
            (#[trigger] vertices[j]).x as int,
            vertices[j].y as int,
            width,
            height,
        ) == p
}

/// The overlay after the first `nv` vertices and then the first `ns` sites
/// were marked: a pixel of the raster under a site has the site colour, one
/// under a vertex and no site has the vertex colour, and no other pixel has
/// a colour.
pub open spec fn overlay_of(
    nodes: Seq<RiverNode>,
    ns: int,
    vertices: Seq<Point>,
    nv: int,
    width: int,
    height: int,
) -> Map<(int, int), Rgb> {
    Map::new(
        |p: (int, int)|
            0 <= p.0 < width && 0 <= p.1 < height && (site_on(nodes, ns, width, height, p)
                || vertex_on(vertices, nv, width, height, p)),
        |p: (int, int)|
            if site_on(nodes, ns, width, height, p) {
                spec_site_color()
            } else {
                spec_vertex_color()
            },
    )
}

/// The overlay of a river network: all its vertices and all its sites.
pub open spec fn spec_overlay(
    nodes: Seq<RiverNode>,
    vertices: Seq<Point>,
    width: int,
    height: int,
) -> Map<(int, int), Rgb> {
    overlay_of(nodes, nodes.len() as int, vertices, vertices.len() as int, width, height)
}

/// Marks the pixel under every vertex of the diagram, then the pixel under
/// every site.
pub fn overlay(
    nodes: &Vec<RiverNode>,
    vertices: &Vec<Point>,
    width: usize,
    height: usize,
) -> (m: PixelMap)
    requires
        width * height <= usize::MAX,
    ensures
        m.wf(),
        m.spec_width() == width,
        m.spec_height() == height,
        m@ == spec_overlay(nodes@, vertices@, width as int, height as int),
{
    let mut m = PixelMap::new(width, height);
    let ghost w = width as int;
    let ghost h = height as int;
    assert(m@ =~= overlay_of(nodes@, 0, vertices@, 0, w, h));
    let mut j: usize = 0;
    while j < vertices.len()
        invariant
            j <= vertices.len(),
            w == width,
            h == height,
            m.wf(),
            m.spec_width() == width,
            m.spec_height() == height,
            m@ == overlay_of(nodes@, 0, vertices@, j as int, w, h),
        decreases vertices.len() - j,
    {
        let v: Point = vertices[j];
        let p = discrete_coord(v.x, v.y, width, height);
        m.mark(p.0, p.1, vertex_color());
        proof {
            let here = (p.0 as int, p.1 as int);
            assert(point_pixel(vertices@[j as int].x as int, vertices@[j as int].y as int, w, h)
                == here);
            assert forall|q: (int, int)|
                vertex_on(vertices@, j + 1, w, h, q) <==> (vertex_on(vertices@, j as int, w, h, q)
                    || q == here) by {
                if vertex_on(vertices@, j + 1, w, h, q) {
                    let k = choose|k: int|
                        0 <= k < j + 1 && point_pixel(
                            (#[trigger] vertices@[k]).x as int,
                            vertices@[k].y as int,
                            w,
                            h,
                        ) == q;
                    if k < j {
                        assert(vertex_on(vertices@, j as int, w, h, q));
                    }
                }
                if vertex_on(vertices@, j as int, w, h, q) {
                    let k = choose|k: int|
                        0 <= k < j && point_pixel(
                            (#[trigger] vertices@[k]).x as int,
                            vertices@[k].y as int,
                            w,
                            h,
                        ) == q;
                    assert(0 <= k < j + 1);
                }
            }
            assert(m@ =~= overlay_of(nodes@, 0, vertices@, j + 1, w, h));
        }
        j += 1;
    }
    let mut i: usize = 0;
    while i < nodes.len()
        invariant
            i <= nodes.len(),
            j == vertices.len(),
            w == width,
            h == height,
            m.wf(),
            m.spec_width() == width,
            m.spec_height() == height,
            m@ == overlay_of(nodes@, i as int, vertices@, j as int, w, h),
        decreases nodes.len() - i,
    {
        let p = discrete_coord(nodes[i].coord[0], nodes[i].coord[1], width, height);
        m.mark(p.0, p.1, site_color());
        proof {
            let here = (p.0 as int, p.1 as int);
            assert(point_pixel(
                nodes@[i as int].coord[0] as int,
                nodes@[i as int].coord[1] as int,
                w,
                h,
            ) == here);
            assert forall|q: (int, int)|
                site_on(nodes@, i + 1, w, h, q) <==> (site_on(nodes@, i as int, w, h, q) || q
                    == here) by {
                if site_on(nodes@, i + 1, w, h, q) {
                    let k = choose|k: int|
                        0 <= k < i + 1 && point_pixel(
                            (#[trigger] nodes@[k]).coord[0] as int,
                            nodes@[k].coord[1] as int,
                            w,
                            h,
                        ) == q;
                    if k < i {
                        assert(site_on(nodes@, i as int, w, h, q));
                    }
                }
                if site_on(nodes@, i as int, w, h, q) {
                    let k = choose|k: int|
                        0 <= k < i && point_pixel(
                            (#[trigger] nodes@[k]).coord[0] as int,
                            nodes@[k].coord[1] as int,
                            w,
                            h,
                        ) == q;
                    assert(0 <= k < i + 1);
                }
            }
            assert(m@ =~= overlay_of(nodes@, i + 1, vertices@, j as int, w, h));
        }
        i += 1;
    }
    m
}

/// The raster of a river network as a sequence of pixels, row after row.
pub open spec fn spec_rivers(
    nodes: Seq<RiverNode>,
    vertices: Seq<Point>,
    width: int,
    height: int,
) -> Seq<Rgba> {
    Seq::new(
        (width * height) as nat,
        |i: int|
            spec_river_pixel(spec_overlay(nodes, vertices, width, height), i % width, i / width),
    )
}

/// The raster of a river network, row after row from the top, each row
/// from the left: the pixel under a site in the site colour, the pixel
/// under a vertex of the diagram (and under no site) in the vertex colour,
/// and black everywhere else.
pub fn rivers(
    nodes: &Vec<RiverNode>,
    vertices: &Vec<Point>,
    width: usize,
    height: usize,
) -> (raster: Vec<Rgba>)
    requires
        width * height <= usize::MAX,
    ensures
        raster@ == spec_rivers(nodes@, vertices@, width as int, height as int),
        raster.len() == width * height,
        forall|x: int, y: int|
            0 <= x < width && 0 <= y < height ==> raster[#[trigger] raster_index(
                x,
                y,
                width as int,
            )] == spec_river_pixel(
                spec_overlay(nodes@, vertices@, width as int, height as int),
                x,
                y,
            ),
{
    let m = overlay(nodes, vertices, width, height);
    let ghost w = width as int;
    let ghost h = height as int;
    let mut raster: Vec<Rgba> = Vec::new();
    let mut yi: usize = 0;
    while yi < height
        invariant
            yi <= height,
            w == width,
            h == height,
            m.wf(),
            raster.len() == yi * w,
            forall|x: int, y: int|
                0 <= x < w && 0 <= y < h && raster_index(x, y, w) < raster.len()
                    ==> raster[#[trigger] raster_index(x, y, w)] == spec_river_pixel(m@, x, y),
        decreases height - yi,
    {
        let mut xi: usize = 0;
        while xi < width
            invariant
                yi < height,
                xi <= width,
                w == width,
                h == height,
                m.wf(),
                raster.len() == yi * w + xi,
                forall|x: int, y: int|
                    0 <= x < w && 0 <= y < h && raster_index(x, y, w) < raster.len()
                        ==> raster[#[trigger] raster_index(x, y, w)] == spec_river_pixel(m@, x, y),
            decreases width - xi,
        {
            let px: Rgba = m.pixel(xi, yi);
            let ghost before = raster@;
            raster.push(px);
            proof {
                assert forall|x: int, y: int|
                    0 <= x < w && 0 <= y < h && raster_index(x, y, w) < raster.len()
                        implies raster[#[trigger] raster_index(x, y, w)] == spec_river_pixel(
                    m@,
                    x,
                    y,
                ) by {
                    lemma_raster_index_bound(x, y, w, h);
                    if raster_index(x, y, w) == before.len() {
                        lemma_raster_index_injective(x, y, xi as int, yi as int, w);
                    } else {
                        assert(raster[raster_index(x, y, w)] == before[raster_index(x, y, w)]);
                    }
                }
            }
            xi += 1;
        }
        proof {
            assert((yi + 1) * w == yi * w + w) by (nonlinear_arith);
        }
        yi += 1;
    }
    proof {
        assert(h * w == w * h) by (nonlinear_arith);
        assert forall|x: int, y: int| 0 <= x < width && 0 <= y < height implies raster_index(
            x,
            y,
            w,
        ) < raster.len() by {
            lemma_raster_index_bound(x, y, w, h);
        }
        let expected = spec_rivers(nodes@, vertices@, w, h);
        assert forall|i: int| 0 <= i < raster.len() implies raster[i] == expected[i] by {
            let x = i % w;
            let y = i / w;
            vstd::arithmetic::div_mod::lemma_fundamental_div_mod(i, w);
            assert(0 <= y < h) by (nonlinear_arith)
                requires
                    i == w * y + x,
                    0 <= x < w,
                    0 <= i < w * h,
            ;
            assert(raster_index(x, y, w) == i) by (nonlinear_arith)
                requires
                    i == w * y + x,
            ;
        }
        assert(raster@ =~= expected);
    }
    raster
}

} // verus!
