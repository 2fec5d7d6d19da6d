//! One source of configuration, with every setting optional, and the overlay
//! that stacks a higher-precedence source onto a lower one.
//!
//! Absent means "this source has no opinion", which is what lets a higher-
//! precedence layer stay silent about the keys it does not touch.

use vstd::prelude::*;
use crate::config::number::{Real, RealModel};
use crate::config::params::{empty_table, extend_table, table_contents};
use crate::config::value::{
    Codec, Fit, FontChoice, FontModel, Palette, PaletteModel, Position, Resolution, Seconds, Seed,
};

verus! {

/// Optional `[output]` settings.
#[derive(Debug, Clone, Copy, PartialEq, Eq, Structural)]
pub struct OutputLayer {
    /// The frame size.
    pub resolution: Option<Resolution>,
    /// Frames per second, range-checked when the layer is resolved.
    pub fps: Option<i64>,
    /// The video codec.
    pub codec: Option<Codec>,
    /// CRF quality, range-checked when the layer is resolved.
    pub quality: Option<i64>,
}

/// Optional `[visual]` settings.
#[derive(Debug, PartialEq)]
pub struct VisualLayer {
    /// Preset name.
    pub preset: Option<String>,
    /// Color scheme.
    pub palette: Option<Palette>,
    /// Global motion scale.
    pub intensity: Option<Real>,
    /// Global envelope decay scale.
    pub smoothing: Option<Real>,
    /// RNG seed.
    pub seed: Option<Seed>,
    /// Preset parameters. Merged name by name, not replaced wholesale.
    pub params: Option<toml::Table>,
}

/// Optional `[background]` settings.
#[derive(Debug, Clone, PartialEq, Eq)]
pub struct BackgroundLayer {
    /// A static image. Mutually exclusive with `video`.
    pub image: Option<String>,
    /// A looped video. Mutually exclusive with `image`.
    pub video: Option<String>,
    /// How the source is fitted to the frame.
    pub fit: Option<Fit>,
    /// Gaussian blur in pixels.
    pub blur: Option<Real>,
    /// How much of the background's light to take away.
    pub darken: Option<Real>,
}

/// Optional `[text]` settings.
#[derive(Debug, Clone, PartialEq, Eq)]
pub struct TextLayer {
    /// Whether to draw the card at all.
    pub enabled: Option<bool>,
    /// Where the card sits.
    pub position: Option<Position>,
    /// When the card starts fading in.
    pub in_at: Option<Seconds>,
    /// How long the card holds at full opacity.
    pub hold: Option<Seconds>,
    /// How long each fade lasts.
    pub fade: Option<Seconds>,
    /// Which font renders the card.
    pub font: Option<FontChoice>,
    /// Title type size, as a fraction of the frame height.
    pub size: Option<Real>,
    /// Distance from the frame edge, as a fraction of the frame height.
    pub margin: Option<Real>,
    /// Title, overriding the ID3 tag.
    pub title: Option<String>,
    /// Artist, overriding the ID3 tag.
    pub artist: Option<String>,
}

/// Optional `[effects]` settings.
#[derive(Debug, Clone, PartialEq, Eq)]
pub struct EffectsLayer {
    /// Magnification about the frame's center.
    pub zoom: Option<Real>,
    /// How much the kick swells the zoom.
    pub pulse: Option<Real>,
    /// Rotation, in turns per second.
    pub spin: Option<Real>,
    /// How far the bass tilts the picture, in turns.
    pub sway: Option<Real>,
    /// Hue rotation, in turns.
    pub hue: Option<Real>,
    /// Hue rotation speed, in turns per second.
    pub hue_drift: Option<Real>,
    /// Saturation.
    pub saturation: Option<Real>,
    /// Contrast about mid-gray.
    pub contrast: Option<Real>,
    /// Brightness.
    pub brightness: Option<Real>,
    /// How much a hit lifts the brightness.
    pub flash: Option<Real>,
    /// How long the clip fades up from black.
    pub fade_in: Option<Seconds>,
    /// How long the clip fades down to black.
    pub fade_out: Option<Seconds>,
}

/// One source of configuration, with every setting optional.
#[derive(Debug, PartialEq)]
pub struct ConfigLayer {
    /// Optional `[output]` settings.
    pub output: OutputLayer,
    /// Optional `[visual]` settings.
    pub visual: VisualLayer,
    /// Optional `[background]` settings.
    pub background: BackgroundLayer,
    /// Optional `[text]` settings.
    pub text: TextLayer,
    /// Optional `[effects]` settings.
    pub effects: EffectsLayer,
}

// ---------------------------------------------------------------------------
// Models
// ---------------------------------------------------------------------------

pub ghost struct VisualLayerModel {
    pub preset: Option<Seq<char>>,
    pub palette: Option<PaletteModel>,
    pub intensity: Option<RealModel>,
    pub smoothing: Option<RealModel>,
    pub seed: Option<Seed>,
    pub params: Option<Map<Seq<char>, toml::Value>>,
}

pub ghost struct BackgroundLayerModel {
    pub image: Option<Seq<char>>,
    pub video: Option<Seq<char>>,
    pub fit: Option<Fit>,
    pub blur: Option<RealModel>,
    pub darken: Option<RealModel>,
}

pub ghost struct TextLayerModel {
    pub enabled: Option<bool>,
    pub position: Option<Position>,
    pub in_at: Option<Seconds>,
    pub hold: Option<Seconds>,
    pub fade: Option<Seconds>,
    pub font: Option<FontModel>,
    pub size: Option<RealModel>,
    pub margin: Option<RealModel>,
    pub title: Option<Seq<char>>,
    pub artist: Option<Seq<char>>,
}

pub ghost struct EffectsLayerModel {
    pub zoom: Option<RealModel>,
    pub pulse: Option<RealModel>,
    pub spin: Option<RealModel>,
    pub sway: Option<RealModel>,
    pub hue: Option<RealModel>,
    pub hue_drift: Option<RealModel>,
    pub saturation: Option<RealModel>,
    pub contrast: Option<RealModel>,
    pub brightness: Option<RealModel>,
    pub flash: Option<RealModel>,
    pub fade_in: Option<Seconds>,
    pub fade_out: Option<Seconds>,
}

/// A [`ConfigLayer`] as plain values.
pub ghost struct LayerModel {
    pub output: OutputLayer,
    pub visual: VisualLayerModel,
    pub background: BackgroundLayerModel,
    pub text: TextLayerModel,
    pub effects: EffectsLayerModel,
}

pub open spec fn text_opt(o: Option<String>) -> Option<Seq<char>> {
    match o {
        Some(s) => Some(s@),
        None => None,
    }
}

pub open spec fn real_opt(o: Option<Real>) -> Option<RealModel> {
    match o {
        Some(r) => Some(r@),
        None => None,
    }
}

pub open spec fn palette_opt(o: Option<Palette>) -> Option<PaletteModel> {
    match o {
        Some(p) => Some(p@),
        None => None,
    }
}

pub open spec fn font_opt(o: Option<FontChoice>) -> Option<FontModel> {
    match o {
        Some(f) => Some(f@),
        None => None,
    }
}

pub open spec fn params_opt(o: Option<toml::Table>) -> Option<Map<Seq<char>, toml::Value>> {
    match o {
        Some(p) => Some(table_contents(p)),
        None => None,
    }
}

impl View for VisualLayer {
    type V = VisualLayerModel;

    open spec fn view(&self) -> VisualLayerModel {
        VisualLayerModel {
            preset: text_opt(self.preset),
            palette: palette_opt(self.palette),
            intensity: real_opt(self.intensity),
            smoothing: real_opt(self.smoothing),
            seed: self.seed,
            params: params_opt(self.params),
        }
    }
}

impl View for BackgroundLayer {
    type V = BackgroundLayerModel;

    open spec fn view(&self) -> BackgroundLayerModel {
        BackgroundLayerModel {
            image: text_opt(self.image),
            video: text_opt(self.video),
            fit: self.fit,
            blur: real_opt(self.blur),
            darken: real_opt(self.darken),
        }
    }
}

impl View for TextLayer {
    type V = TextLayerModel;

    open spec fn view(&self) -> TextLayerModel {
        TextLayerModel {
            enabled: self.enabled,
            position: self.position,
            in_at: self.in_at,
            hold: self.hold,
            fade: self.fade,
            font: font_opt(self.font),
            size: real_opt(self.size),
            margin: real_opt(self.margin),
            title: text_opt(self.title),
            artist: text_opt(self.artist),
        }
    }
}

impl View for EffectsLayer {
    type V = EffectsLayerModel;

    open spec fn view(&self) -> EffectsLayerModel {
        EffectsLayerModel {
            zoom: real_opt(self.zoom),
            pulse: real_opt(self.pulse),
            spin: real_opt(self.spin),
            sway: real_opt(self.sway),
            hue: real_opt(self.hue),
            hue_drift: real_opt(self.hue_drift),
            saturation: real_opt(self.saturation),
            contrast: real_opt(self.contrast),
            brightness: real_opt(self.brightness),
            flash: real_opt(self.flash),
            fade_in: self.fade_in,
            fade_out: self.fade_out,
        }
    }
}

impl View for ConfigLayer {
    type V = LayerModel;

    open spec fn view(&self) -> LayerModel {
        LayerModel {
            output: self.output,
            visual: self.visual@,
            background: self.background@,
            text: self.text@,
            effects: self.effects@,
        }
    }
}

// ---------------------------------------------------------------------------
// Overlay
// ---------------------------------------------------------------------------

/// The higher-precedence value when it has one, else the lower one.
pub open spec fn pick<T>(lower: Option<T>, higher: Option<T>) -> Option<T> {
    if higher is Some {
        higher
    } else {
        lower
    }
}

/// Preset parameters merge name by name, the higher layer winning.
pub open spec fn merge_params(
    lower: Option<Map<Seq<char>, toml::Value>>,
    higher: Option<Map<Seq<char>, toml::Value>>,
) -> Option<Map<Seq<char>, toml::Value>> {
    match higher {
        None => lower,
        Some(h) => match lower {
            None => Some(h),
            Some(l) => Some(l.union_prefer_right(h)),
        },
    }
}

pub open spec fn overlay_visual(l: VisualLayerModel, h: VisualLayerModel) -> VisualLayerModel {
    VisualLayerModel {
        preset: pick(l.preset, h.preset),
        palette: pick(l.palette, h.palette),
        intensity: pick(l.intensity, h.intensity),
        smoothing: pick(l.smoothing, h.smoothing),
        seed: pick(l.seed, h.seed),
        params: merge_params(l.params, h.params),
    }
}

/// Whether a layer names a background source at all.
pub open spec fn names_source(b: BackgroundLayerModel) -> bool {
    b.image is Some || b.video is Some
}

/// `image` and `video` are one setting: a higher layer naming either replaces
/// whichever the lower layer named.
pub open spec fn overlay_background(
    l: BackgroundLayerModel,
    h: BackgroundLayerModel,
) -> BackgroundLayerModel {
    BackgroundLayerModel {
        image: if names_source(h) {
            h.image
        } else {
            l.image
        },
        video: if names_source(h) {
            h.video
        } else {
            l.video
        },
        fit: pick(l.fit, h.fit),
        blur: pick(l.blur, h.blur),
        darken: pick(l.darken, h.darken),
    }
}

pub open spec fn overlay_text(l: TextLayerModel, h: TextLayerModel) -> TextLayerModel {
    TextLayerModel {
        enabled: pick(l.enabled, h.enabled),
        position: pick(l.position, h.position),
        in_at: pick(l.in_at, h.in_at),
        hold: pick(l.hold, h.hold),
        fade: pick(l.fade, h.fade),
        font: pick(l.font, h.font),
        size: pick(l.size, h.size),
        margin: pick(l.margin, h.margin),
        title: pick(l.title, h.title),
        artist: pick(l.artist, h.artist),
    }
}

pub open spec fn overlay_effects(l: EffectsLayerModel, h: EffectsLayerModel) -> EffectsLayerModel {
    EffectsLayerModel {
        zoom: pick(l.zoom, h.zoom),
        pulse: pick(l.pulse, h.pulse),
        spin: pick(l.spin, h.spin),
        sway: pick(l.sway, h.sway),
        hue: pick(l.hue, h.hue),
        hue_drift: pick(l.hue_drift, h.hue_drift),
        saturation: pick(l.saturation, h.saturation),
        contrast: pick(l.contrast, h.contrast),
        brightness: pick(l.brightness, h.brightness),
        flash: pick(l.flash, h.flash),
        fade_in: pick(l.fade_in, h.fade_in),
        fade_out: pick(l.fade_out, h.fade_out),
    }
}

/// `h` laid over `l`: every setting `h` has wins, every other setting keeps
/// `l`'s value.
pub open spec fn overlay_model(l: LayerModel, h: LayerModel) -> LayerModel {
    LayerModel {
        output: OutputLayer {
            resolution: pick(l.output.resolution, h.output.resolution),
            fps: pick(l.output.fps, h.output.fps),
            codec: pick(l.output.codec, h.output.codec),
            quality: pick(l.output.quality, h.output.quality),
        },
        visual: overlay_visual(l.visual, h.visual),
        background: overlay_background(l.background, h.background),
        text: overlay_text(l.text, h.text),
        effects: overlay_effects(l.effects, h.effects),
    }
}

/// The layer with no opinion about anything.
pub open spec fn empty_model() -> LayerModel {
    LayerModel {
        output: OutputLayer { resolution: None, fps: None, codec: None, quality: None },
        visual: VisualLayerModel {
            preset: None,
            palette: None,
            intensity: None,
            smoothing: None,
            seed: None,
            params: None,
        },
        background: BackgroundLayerModel {
            image: None,
            video: None,
            fit: None,
            blur: None,
            darken: None,
        },
        text: TextLayerModel {
            enabled: None,
            position: None,
            in_at: None,
            hold: None,
            fade: None,
            font: None,
            size: None,
            margin: None,
            title: None,
            artist: None,
        },
        effects: EffectsLayerModel {
            zoom: None,
            pulse: None,
            spin: None,
            sway: None,
            hue: None,
            hue_drift: None,
            saturation: None,
            contrast: None,
            brightness: None,
            flash: None,
            fade_in: None,
            fade_out: None,
        },
    }
}

/// Take the higher-precedence value when it has one.
pub fn overlay_field<T>(lower: &mut Option<T>, higher: Option<T>)
    ensures
        *final(lower) == pick(*old(lower), higher),
{
    if higher.is_some() {
        *lower = higher;
    }
}

impl VisualLayer {
    fn overlay(&mut self, higher: VisualLayer)
        ensures
            final(self)@ == overlay_visual(old(self)@, higher@),
    {
        let VisualLayer { preset, palette, intensity, smoothing, seed, params } = higher;
        overlay_field(&mut self.preset, preset);
        overlay_field(&mut self.palette, palette);
        overlay_field(&mut self.intensity, intensity);
        overlay_field(&mut self.smoothing, smoothing);
        overlay_field(&mut self.seed, seed);
        if let Some(higher_params) = params {
            let mut merged = match self.params.take() {
                Some(lower_params) => lower_params,
                None => empty_table(),
            };
            let ghost h = table_contents(higher_params);
            extend_table(&mut merged, higher_params);
            assert(Map::<Seq<char>, toml::Value>::empty().union_prefer_right(h) =~= h);
            self.params = Some(merged);
        }
    }
}

impl BackgroundLayer {
    fn overlay(&mut self, higher: BackgroundLayer)
        ensures
            final(self)@ == overlay_background(old(self)@, higher@),
    {
        let BackgroundLayer { image, video, fit, blur, darken } = higher;
        if image.is_some() || video.is_some() {
            self.image = image;
            self.video = video;
        }
        overlay_field(&mut self.fit, fit);
        overlay_field(&mut self.blur, blur);
        overlay_field(&mut self.darken, darken);
    }
}

impl TextLayer {
    fn overlay(&mut self, higher: TextLayer)
        ensures
            final(self)@ == overlay_text(old(self)@, higher@),
    {
        let TextLayer { enabled, position, in_at, hold, fade, font, size, margin, title, artist } =
            higher;
        overlay_field(&mut self.enabled, enabled);
        overlay_field(&mut self.position, position);
        overlay_field(&mut self.in_at, in_at);
        overlay_field(&mut self.hold, hold);
        overlay_field(&mut self.fade, fade);
        overlay_field(&mut self.font, font);
        overlay_field(&mut self.size, size);
        overlay_field(&mut self.margin, margin);
        overlay_field(&mut self.title, title);
        overlay_field(&mut self.artist, artist);
    }
}

impl EffectsLayer {
    fn overlay(&mut self, higher: EffectsLayer)
        ensures
            final(self)@ == overlay_effects(old(self)@, higher@),
    {
        let EffectsLayer {
            zoom,
            pulse,
            spin,
            sway,
            hue,
            hue_drift,
            saturation,
            contrast,
            brightness,
            flash,
            fade_in,
            fade_out,
        } = higher;
        overlay_field(&mut self.zoom, zoom);
        overlay_field(&mut self.pulse, pulse);
        overlay_field(&mut self.spin, spin);
        overlay_field(&mut self.sway, sway);
        overlay_field(&mut self.hue, hue);
        overlay_field(&mut self.hue_drift, hue_drift);
        overlay_field(&mut self.saturation, saturation);
        overlay_field(&mut self.contrast, contrast);
        overlay_field(&mut self.brightness, brightness);
        overlay_field(&mut self.flash, flash);
        overlay_field(&mut self.fade_in, fade_in);
        overlay_field(&mut self.fade_out, fade_out);
    }
}

impl ConfigLayer {
    /// The layer with no opinion about anything.
    pub fn empty() -> (l: ConfigLayer)
        ensures
            l@ == empty_model(),
    {
        ConfigLayer {
            output: OutputLayer { resolution: None, fps: None, codec: None, quality: None },
            visual: VisualLayer {
                preset: None,
                palette: None,
                intensity: None,
                smoothing: None,
                seed: None,
                params: None,
            },
            background: BackgroundLayer {
                image: None,
                video: None,
                fit: None,
                blur: None,
                darken: None,
            },
            text: TextLayer {
                enabled: None,
                position: None,
                in_at: None,
                hold: None,
                fade: None,
                font: None,
                size: None,
                margin: None,
                title: None,
                artist: None,
            },
            effects: EffectsLayer {
                zoom: None,
                pulse: None,
                spin: None,
                sway: None,
                hue: None,
                hue_drift: None,
                saturation: None,
                contrast: None,
                brightness: None,
                flash: None,
                fade_in: None,
                fade_out: None,
            },
        }
    }

    /// The settings `--sample` implies, and nothing else: a reduced
    /// resolution, which the config file and every layer above it outrank.
    pub fn for_sample() -> (l: ConfigLayer)
        ensures
            l@ == (LayerModel {
                output: OutputLayer {
                    resolution: Some(Resolution { width: 1280, height: 720 }),
                    ..empty_model().output
                },
                ..empty_model()
            }),
    {
        let mut layer = ConfigLayer::empty();
        layer.output.resolution = Some(Resolution::new(1280, 720));
        layer
    }

    /// Overlay a higher-precedence layer onto this one.
    pub fn overlay(&mut self, higher: ConfigLayer)
        ensures
            final(self)@ == overlay_model(old(self)@, higher@),
    {
        let ConfigLayer { output, visual, background, text, effects } = higher;
        overlay_field(&mut self.output.resolution, output.resolution);
        overlay_field(&mut self.output.fps, output.fps);
        overlay_field(&mut self.output.codec, output.codec);
        overlay_field(&mut self.output.quality, output.quality);
        self.visual.overlay(visual);
        self.background.overlay(background);
        self.text.overlay(text);
        self.effects.overlay(effects);
    }
}

impl Default for ConfigLayer {
    fn default() -> (l: ConfigLayer)
        ensures
            l@ == empty_model(),
    {
        ConfigLayer::empty()
    }
}

// ---------------------------------------------------------------------------
// Laws of the overlay
// ---------------------------------------------------------------------------

/// Every setting `h` has, `r` has too, with `h`'s value.
pub open spec fn keeps_every_setting_of(h: LayerModel, r: LayerModel) -> bool {
    &&& h.output.resolution is Some ==> r.output.resolution == h.output.resolution
    &&& h.output.fps is Some ==> r.output.fps == h.output.fps
    &&& h.output.codec is Some ==> r.output.codec == h.output.codec
    &&& h.output.quality is Some ==> r.output.quality == h.output.quality
    &&& h.visual.preset is Some ==> r.visual.preset == h.visual.preset
    &&& h.visual.palette is Some ==> r.visual.palette == h.visual.palette
    &&& h.visual.intensity is Some ==> r.visual.intensity == h.visual.intensity
    &&& h.visual.smoothing is Some ==> r.visual.smoothing == h.visual.smoothing
    &&& h.visual.seed is Some ==> r.visual.seed == h.visual.seed
    &&& h.visual.params matches Some(hp) ==> (r.visual.params matches Some(rp) && hp.submap_of(rp))
    &&& names_source(h.background) ==> r.background.image == h.background.image
        && r.background.video == h.background.video
    &&& h.background.fit is Some ==> r.background.fit == h.background.fit
    &&& h.background.blur is Some ==> r.background.blur == h.background.blur
    &&& h.background.darken is Some ==> r.background.darken == h.background.darken
    &&& h.text.enabled is Some ==> r.text.enabled == h.text.enabled
    &&& h.text.position is Some ==> r.text.position == h.text.position
    &&& h.text.in_at is Some ==> r.text.in_at == h.text.in_at
    &&& h.text.hold is Some ==> r.text.hold == h.text.hold
    &&& h.text.fade is Some ==> r.text.fade == h.text.fade
    &&& h.text.font is Some ==> r.text.font == h.text.font
    &&& h.text.size is Some ==> r.text.size == h.text.size
    &&& h.text.margin is Some ==> r.text.margin == h.text.margin
    &&& h.text.title is Some ==> r.text.title == h.text.title
    &&& h.text.artist is Some ==> r.text.artist == h.text.artist
    &&& h.effects.zoom is Some ==> r.effects.zoom == h.effects.zoom
    &&& h.effects.pulse is Some ==> r.effects.pulse == h.effects.pulse
    &&& h.effects.spin is Some ==> r.effects.spin == h.effects.spin
    &&& h.effects.sway is Some ==> r.effects.sway == h.effects.sway
    &&& h.effects.hue is Some ==> r.effects.hue == h.effects.hue
    &&& h.effects.hue_drift is Some ==> r.effects.hue_drift == h.effects.hue_drift
    &&& h.effects.saturation is Some ==> r.effects.saturation == h.effects.saturation
    &&& h.effects.contrast is Some ==> r.effects.contrast == h.effects.contrast
    &&& h.effects.brightness is Some ==> r.effects.brightness == h.effects.brightness
    &&& h.effects.flash is Some ==> r.effects.flash == h.effects.flash
    &&& h.effects.fade_in is Some ==> r.effects.fade_in == h.effects.fade_in
    &&& h.effects.fade_out is Some ==> r.effects.fade_out == h.effects.fade_out
}

/// Every setting `h` is silent about keeps `l`'s value in `r`.
pub open spec fn keeps_where_silent(l: LayerModel, h: LayerModel, r: LayerModel) -> bool {
    &&& h.output.resolution is None ==> r.output.resolution == l.output.resolution
    &&& h.output.fps is None ==> r.output.fps == l.output.fps
    &&& h.output.codec is None ==> r.output.codec == l.output.codec
    &&& h.output.quality is None ==> r.output.quality == l.output.quality
    &&& h.visual.preset is None ==> r.visual.preset == l.visual.preset
    &&& h.visual.palette is None ==> r.visual.palette == l.visual.palette
    &&& h.visual.intensity is None ==> r.visual.intensity == l.visual.intensity
    &&& h.visual.smoothing is None ==> r.visual.smoothing == l.visual.smoothing
    &&& h.visual.seed is None ==> r.visual.seed == l.visual.seed
    &&& h.visual.params is None ==> r.visual.params == l.visual.params
    &&& !names_source(h.background) ==> r.background.image == l.background.image
        && r.background.video == l.background.video
    &&& h.background.fit is None ==> r.background.fit == l.background.fit
    &&& h.background.blur is None ==> r.background.blur == l.background.blur
    &&& h.background.darken is None ==> r.background.darken == l.background.darken
    &&& h.text.enabled is None ==> r.text.enabled == l.text.enabled
    &&& h.text.position is None ==> r.text.position == l.text.position
    &&& h.text.in_at is None ==> r.text.in_at == l.text.in_at
    &&& h.text.hold is None ==> r.text.hold == l.text.hold
    &&& h.text.fade is None ==> r.text.fade == l.text.fade
    &&& h.text.font is None ==> r.text.font == l.text.font
    &&& h.text.size is None ==> r.text.size == l.text.size
    &&& h.text.margin is None ==> r.text.margin == l.text.margin
    &&& h.text.title is None ==> r.text.title == l.text.title
    &&& h.text.artist is None ==> r.text.artist == l.text.artist
    &&& h.effects.zoom is None ==> r.effects.zoom == l.effects.zoom
    &&& h.effects.pulse is None ==> r.effects.pulse == l.effects.pulse
    &&& h.effects.spin is None ==> r.effects.spin == l.effects.spin
    &&& h.effects.sway is None ==> r.effects.sway == l.effects.sway
    &&& h.effects.hue is None ==> r.effects.hue == l.effects.hue
    &&& h.effects.hue_drift is None ==> r.effects.hue_drift == l.effects.hue_drift
    &&& h.effects.saturation is None ==> r.effects.saturation == l.effects.saturation
    &&& h.effects.contrast is None ==> r.effects.contrast == l.effects.contrast
    &&& h.effects.brightness is None ==> r.effects.brightness == l.effects.brightness
    &&& h.effects.flash is None ==> r.effects.flash == l.effects.flash
    &&& h.effects.fade_in is None ==> r.effects.fade_in == l.effects.fade_in
    &&& h.effects.fade_out is None ==> r.effects.fade_out == l.effects.fade_out
}

/// Precedence: a setting a higher layer writes reaches the merged layer, and
/// a higher layer that is silent about a setting does not erase the lower
/// layer's value.
pub proof fn law_higher_layer_wins_and_silence_keeps(l: LayerModel, h: LayerModel)
    ensures
        keeps_every_setting_of(h, overlay_model(l, h)),
        keeps_where_silent(l, h, overlay_model(l, h)),
{
    if let Some(hp) = h.visual.params {
        if let Some(lp) = l.visual.params {
            assert(hp.submap_of(lp.union_prefer_right(hp)));
        }
    }
}

/// A layer with no opinion changes nothing, and a layer laid over nothing is
/// itself.
pub proof fn law_empty_layer_is_neutral(l: LayerModel)
    ensures
        overlay_model(l, empty_model()) == l,
        overlay_model(empty_model(), l) == l,
{
    let e = empty_model();
    let r = overlay_model(l, e);
    assert(r.output == l.output);
    assert(r.visual == l.visual);
    assert(r.background == l.background);
    assert(r.text == l.text);
    assert(r.effects == l.effects);
    let q = overlay_model(e, l);
    assert(q.output == l.output);
    assert(q.visual == l.visual);
    assert(q.background == l.background);
    assert(q.text == l.text);
    assert(q.effects == l.effects);
}

proof fn lemma_params_associative(
    a: Option<Map<Seq<char>, toml::Value>>,
    b: Option<Map<Seq<char>, toml::Value>>,
    c: Option<Map<Seq<char>, toml::Value>>,
)
    ensures
        merge_params(merge_params(a, b), c) == merge_params(a, merge_params(b, c)),
{
    if let (Some(x), Some(y), Some(z)) = (a, b, c) {
        assert(x.union_prefer_right(y).union_prefer_right(z) =~= x.union_prefer_right(
            y.union_prefer_right(z),
        ));
    }
}

/// Stacking is associative: merging the upper layers first gives the same
/// result as laying them on one by one.
pub proof fn law_overlay_is_associative(a: LayerModel, b: LayerModel, c: LayerModel)
    ensures
        overlay_model(overlay_model(a, b), c) == overlay_model(a, overlay_model(b, c)),
{
    lemma_params_associative(a.visual.params, b.visual.params, c.visual.params);
    let left = overlay_model(overlay_model(a, b), c);
    let right = overlay_model(a, overlay_model(b, c));
    assert(left.output == right.output);
    assert(left.visual == right.visual);
    assert(left.background == right.background);
    assert(left.text == right.text);
    assert(left.effects == right.effects);
}

/// Laying a layer over itself changes nothing.
pub proof fn law_overlay_is_idempotent(a: LayerModel)
    ensures
        overlay_model(a, a) == a,
{
    if let Some(x) = a.visual.params {
        assert(x.union_prefer_right(x) =~= x);
    }
    let r = overlay_model(a, a);
    assert(r.output == a.output);
    assert(r.visual == a.visual);
    assert(r.background == a.background);
    assert(r.text == a.text);
    assert(r.effects == a.effects);
}

} // verus!
