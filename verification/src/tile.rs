//! One pixel of one variant: which fields are evaluated where, and what
//! the pixel becomes once the fields have answered.

use vstd::prelude::*;
use crate::bands::Bands;
use crate::rivers::Rgba;
use crate::config::Config;
use crate::fixed::{normalize, scale, spec_normalize, spec_scale, Point};
use crate::ground::{
    blend_probes, ground_height, spec_blend_probe, spec_ground_height, BLEND_SAMPLES,
};
use crate::sampler::{field_index, noise_pt, spec_field_index, spec_noise_coord, Probe};
use crate::terrace::Terrace;

verus! {

/// The values that the fields gave for one pixel.
#[derive(Debug)]
pub struct PixelSamples {
    /// One value for each ground octave.
    pub ground: Vec<i64>,
    /// One value for each blended sample.
    pub blend: Vec<i64>,
    /// One value for each octave of the second pass.
    pub terrace: Vec<i64>,
    /// One value for each water octave.
    pub water: Vec<i64>,
    /// The value of the ramp texture.
    pub ramp: i64,
}

/// What one pixel became.
#[derive(Clone, Copy, Debug)]
pub struct Pixel {
    /// The ground height.
    pub ground: i64,
    /// The terrace that the ground height was classified into.
    pub terrace: Terrace,
    /// The water level.
    pub water: i64,
    /// The pixel in each of the four rasters.
    pub bands: Bands,
}

/// The four rasters of one variant, each row after row from the top.
#[derive(Debug)]
pub struct Rasters {
    pub ground: Vec<Rgba>,
    pub terrace: Vec<Rgba>,
    pub water: Vec<Rgba>,
    pub ramp: Vec<Rgba>,
}

impl Config {
    /// The number of the `k`-th variant: the field that its field set
    /// starts with.
    pub open spec fn spec_variant(&self, k: int) -> int {
        spec_field_index(self.first_variant as int, k, self.field_count as int)
    }

    /// The first field of a stack at `offset`, for a variant.
    pub open spec fn first_field(&self, variant: int, offset: int) -> int {
        spec_field_index(variant, offset, self.field_count as int)
    }

    /// The first field of the blended samples: they follow the ground
    /// octaves.
    pub open spec fn blend_field(&self, variant: int) -> int {
        spec_field_index(
            self.first_field(variant, self.ground_offset as int),
            self.ground.octaves as int,
            self.field_count as int,
        )
    }

    /// The evaluation of the ramp texture for the pixel at `p`.
    pub open spec fn spec_ramp_probe(&self, variant: int, p: Point) -> Probe {
        Probe {
            field: self.first_field(variant, self.ramp_offset as int) as usize,
            at: Point {
                x: spec_scale(p.x as int, self.ramp_scalar as int) as i64,
                y: spec_scale(p.y as int, self.ramp_scalar as int) as i64,
            },
        }
    }

    /// The samples hold one value for each evaluation.
    pub open spec fn fits(&self, s: PixelSamples) -> bool {
        &&& s.ground.len() == self.ground.octaves
        &&& s.blend.len() == BLEND_SAMPLES
        &&& s.terrace.len() == self.terrace.octaves
        &&& s.water.len() == self.water.octaves
    }

    /// The base sample of the ground, from the values of the ground octaves.
    pub open spec fn spec_raw_ground(&self, ground: Seq<i64>) -> int {
        spec_normalize(self.ground.spec_exp_sample(ground), self.gain as int)
    }

    /// The ground height of a pixel.
    pub open spec fn spec_ground(&self, s: PixelSamples) -> int {
        spec_ground_height(self.spec_raw_ground(s.ground@), s.blend@, self.gain as int)
    }

    /// The second-pass sample of a pixel.
    pub open spec fn spec_second_pass(&self, s: PixelSamples) -> int {
        spec_normalize(self.terrace.spec_exp_sample(s.terrace@), self.gain as int)
    }

    /// The terrace of a pixel.
    pub open spec fn spec_terrace(&self, s: PixelSamples) -> Terrace {
        self.terrace_rules.spec_classify(self.spec_ground(s), self.spec_second_pass(s))
    }

    /// The water level at a pixel.
    pub open spec fn spec_water(&self, s: PixelSamples) -> int {
        spec_normalize(self.water.spec_exp_sample(s.water@), self.gain as int)
    }

    /// The pixel in each of the four rasters.
    pub open spec fn spec_bands(&self, s: PixelSamples) -> Bands {
        self.band_rules.spec_compose(
            self.spec_ground(s),
            self.spec_terrace(s),
            self.spec_water(s),
            spec_normalize(s.ramp as int, self.gain as int),
        )
    }

    /// The ground raster of a variant, from the samples of its pixels.
    pub open spec fn spec_ground_raster(&self, samples: Seq<PixelSamples>) -> Seq<Rgba> {
        Seq::new(samples.len(), |i: int| self.spec_bands(samples[i]).ground)
    }

    /// The terrace raster of a variant, from the samples of its pixels.
    pub open spec fn spec_terrace_raster(&self, samples: Seq<PixelSamples>) -> Seq<Rgba> {
        Seq::new(samples.len(), |i: int| self.spec_bands(samples[i]).terrace)
    }

    /// The water raster of a variant, from the samples of its pixels.
    pub open spec fn spec_water_raster(&self, samples: Seq<PixelSamples>) -> Seq<Rgba> {
        Seq::new(samples.len(), |i: int| self.spec_bands(samples[i]).water)
    }

    /// The ramp raster of a variant, from the samples of its pixels.
    pub open spec fn spec_ramp_raster(&self, samples: Seq<PixelSamples>) -> Seq<Rgba> {
        Seq::new(samples.len(), |i: int| self.spec_bands(samples[i]).ramp)
    }

    /// The sample point of the pixel at a place of the raster, the places
    /// counted row after row.
    pub open spec fn spec_pixel_point(&self, index: int) -> Point {
        Point {
            x: spec_noise_coord(index % (self.width as int), self.width as int) as i64,
            y: spec_noise_coord(index / (self.width as int), self.height as int) as i64,
        }
    }

    /// The sample point of the pixel at a place of the raster: the rasters
    /// run row after row from the top, and each row from the left.
    pub fn pixel_point(&self, index: usize) -> (p: Point)
        requires
            self.wf(),
            index < self.width * self.height,
        ensures
            p == self.spec_pixel_point(index as int),
            0 <= p.x < crate::fixed::UNIT,
            0 <= p.y < crate::fixed::UNIT,
    {
        let xi: usize = index % self.width;
        let yi: usize = index / self.width;
        assert(yi < self.height) by (nonlinear_arith)
            requires
                yi == index as int / self.width as int,
                0 <= index < self.width * self.height,
                self.width > 0,
        ;
        noise_pt(xi, yi, self.width, self.height)
    }

    /// The number of the `k`-th variant.
    pub fn variant(&self, k: usize) -> (v: usize)
        requires
            self.wf(),
        ensures
            v == self.spec_variant(k as int),
            v < self.field_count,
    {
        field_index(self.first_variant, k, self.field_count)
    }

    /// The evaluations of the ground octaves for the pixel at `p`.
    pub fn ground_probes(&self, variant: usize, p: Point) -> (r: Vec<Probe>)
        requires
            self.wf(),
        ensures
            r.len() == self.ground.octaves,
            forall|i: int|
                0 <= i < r.len() ==> #[trigger] r[i] == self.ground.spec_probe(
                    self.first_field(variant as int, self.ground_offset as int),
                    self.field_count as int,
                    p.x as int,
                    p.y as int,
                    i,
                ),
    {
        let first: usize = field_index(variant, self.ground_offset, self.field_count);
        self.ground.probes(first, self.field_count, p.x, p.y)
    }

    /// The evaluations of the second pass for the pixel at `p`.
    pub fn terrace_probes(&self, variant: usize, p: Point) -> (r: Vec<Probe>)
        requires
            self.wf(),
        ensures
            r.len() == self.terrace.octaves,
            forall|i: int|
                0 <= i < r.len() ==> #[trigger] r[i] == self.terrace.spec_probe(
                    self.first_field(variant as int, self.terrace_offset as int),
                    self.field_count as int,
                    p.x as int,
                    p.y as int,
                    i,
                ),
    {
        let first: usize = field_index(variant, self.terrace_offset, self.field_count);
        self.terrace.probes(first, self.field_count, p.x, p.y)
    }

    /// The evaluations of the water level for the pixel at `p`.
    pub fn water_probes(&self, variant: usize, p: Point) -> (r: Vec<Probe>)
        requires
            self.wf(),
        ensures
            r.len() == self.water.octaves,
            forall|i: int|
                0 <= i < r.len() ==> #[trigger] r[i] == self.water.spec_probe(
                    self.first_field(variant as int, self.water_offset as int),
                    self.field_count as int,
                    p.x as int,
                    p.y as int,
                    i,
                ),
    {
        let first: usize = field_index(variant, self.water_offset, self.field_count);
        self.water.probes(first, self.field_count, p.x, p.y)
    }

    /// The evaluation of the ramp texture for the pixel at `p`.
    pub fn ramp_probe(&self, variant: usize, p: Point) -> (r: Probe)
        requires
            self.wf(),
        ensures
            r == self.spec_ramp_probe(variant as int, p),
    {
        Probe {
            field: field_index(variant, self.ramp_offset, self.field_count),
            at: Point { x: scale(p.x, self.ramp_scalar), y: scale(p.y, self.ramp_scalar) },
        }
    }

    /// The base sample of the ground, which the blend takes one of its
    /// frequencies from.
    pub fn raw_ground(&self, ground: &Vec<i64>) -> (raw: i64)
        requires
            self.wf(),
            ground.len() == self.ground.octaves,
        ensures
            raw == self.spec_raw_ground(ground@),
            0 <= raw <= crate::fixed::UNIT,
    {
        normalize(self.ground.exp_sample(ground), self.gain)
    }

    /// The evaluations of the blend for the pixel at `p`, given the base
    /// sample of the ground.
    pub fn blend_probes(&self, variant: usize, p: Point, raw: i64) -> (r: Vec<Probe>)
        requires
            self.wf(),
        ensures
            r.len() == BLEND_SAMPLES,
            forall|k: int|
                0 <= k < r.len() ==> #[trigger] r[k] == spec_blend_probe(
                    self.scalar as int,
                    raw as int,
                    self.blend_field(variant as int),
                    self.field_count as int,
                    p.x as int,
                    p.y as int,
                    k,
                ),
    {
        let ground_first: usize = field_index(variant, self.ground_offset, self.field_count);
        let first: usize = field_index(ground_first, self.ground.octaves, self.field_count);
        blend_probes(self.scalar, raw, first, self.field_count, p.x, p.y)
    }

    /// What a pixel becomes, given the values that the fields gave for it.
    pub fn pixel(&self, s: &PixelSamples) -> (px: Pixel)
        requires
            self.wf(),
            self.fits(*s),
        ensures
            px.ground == self.spec_ground(*s),
            px.terrace == self.spec_terrace(*s),
            px.water == self.spec_water(*s),
            px.bands == self.spec_bands(*s),
    {
        let raw: i64 = self.raw_ground(&s.ground);
        let ground: i64 = ground_height(raw, &s.blend, self.gain);
        let second: i64 = normalize(self.terrace.exp_sample(&s.terrace), self.gain);
        let terrace: Terrace = self.terrace_rules.classify(ground, second);
        let water: i64 = normalize(self.water.exp_sample(&s.water), self.gain);
        let texture: i64 = normalize(s.ramp, self.gain);
        let bands: Bands = self.band_rules.compose(ground, terrace, water, texture);
        Pixel { ground, terrace, water, bands }
    }

    /// The four rasters of a variant, given for each pixel, row after row,
    /// the values that the fields gave for it. Each raster holds the pixels
    /// in the order in which the samples came.
    pub fn render(&self, samples: &Vec<PixelSamples>) -> (r: Rasters)
        requires
            self.wf(),
            samples.len() == self.width * self.height,
            forall|i: int| 0 <= i < samples.len() ==> self.fits(#[trigger] samples[i]),
        ensures
            r.ground@ == self.spec_ground_raster(samples@),
            r.terrace@ == self.spec_terrace_raster(samples@),
            r.water@ == self.spec_water_raster(samples@),
            r.ramp@ == self.spec_ramp_raster(samples@),
            r.ground.len() == self.width * self.height,
    {
        let mut r = Rasters {
            ground: Vec::new(),
            terrace: Vec::new(),
            water: Vec::new(),
            ramp: Vec::new(),
        };
        let mut i: usize = 0;
        while i < samples.len()
            invariant
                self.wf(),
                i <= samples.len(),
                forall|k: int| 0 <= k < samples.len() ==> self.fits(#[trigger] samples[k]),
                r.ground.len() == i,
                r.terrace.len() == i,
                r.water.len() == i,
                r.ramp.len() == i,
                forall|k: int|
                    0 <= k < i ==> {
                        &&& r.ground[k] == self.spec_bands(#[trigger] samples[k]).ground
                        &&& r.terrace[k] == self.spec_bands(samples[k]).terrace
                        &&& r.water[k] == self.spec_bands(samples[k]).water
                        &&& r.ramp[k] == self.spec_bands(samples[k]).ramp
                    },
            decreases samples.len() - i,
        {
            let px: Pixel = self.pixel(&samples[i]);
            r.ground.push(px.bands.ground);
            r.terrace.push(px.bands.terrace);
            r.water.push(px.bands.water);
            r.ramp.push(px.bands.ramp);
            i += 1;
        }
        assert(r.ground@ =~= self.spec_ground_raster(samples@));
        assert(r.terrace@ =~= self.spec_terrace_raster(samples@));
        assert(r.water@ =~= self.spec_water_raster(samples@));
        assert(r.ramp@ =~= self.spec_ramp_raster(samples@));
        r
    }
}

/// Two sets of samples hold the same values.
pub open spec fn same_values(a: PixelSamples, b: PixelSamples) -> bool {
    &&& a.ground@ == b.ground@
    &&& a.blend@ == b.blend@
    &&& a.terrace@ == b.terrace@
    &&& a.water@ == b.water@
    &&& a.ramp == b.ramp
}

/// A pixel is a function of the configuration and of the values that the
/// fields gave: the same values give the same pixel in all four rasters.
pub proof fn lemma_pixel_is_determined(cfg: Config, a: PixelSamples, b: PixelSamples)
    requires
        same_values(a, b),
    ensures
        cfg.spec_ground(a) == cfg.spec_ground(b),
        cfg.spec_terrace(a) == cfg.spec_terrace(b),
        cfg.spec_water(a) == cfg.spec_water(b),
        cfg.spec_bands(a) == cfg.spec_bands(b),
{
}

/// Two runs on the same configuration whose fields gave the same values
/// produce the same four rasters, byte for byte.
pub proof fn lemma_render_is_determined(cfg: Config, a: Seq<PixelSamples>, b: Seq<PixelSamples>)
    requires
        a.len() == b.len(),
        forall|i: int| 0 <= i < a.len() ==> same_values(#[trigger] a[i], b[i]),
    ensures
        cfg.spec_ground_raster(a) == cfg.spec_ground_raster(b),
        cfg.spec_terrace_raster(a) == cfg.spec_terrace_raster(b),
        cfg.spec_water_raster(a) == cfg.spec_water_raster(b),
        cfg.spec_ramp_raster(a) == cfg.spec_ramp_raster(b),
{
    assert forall|i: int| 0 <= i < a.len() implies cfg.spec_bands(a[i]) == cfg.spec_bands(
        b[i],
    ) by {
        lemma_pixel_is_determined(cfg, a[i], b[i]);
    }
    assert(cfg.spec_ground_raster(a) =~= cfg.spec_ground_raster(b));
    assert(cfg.spec_terrace_raster(a) =~= cfg.spec_terrace_raster(b));
    assert(cfg.spec_water_raster(a) =~= cfg.spec_water_raster(b));
    assert(cfg.spec_ramp_raster(a) =~= cfg.spec_ramp_raster(b));
}

} // verus!
