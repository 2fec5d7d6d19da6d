//! The fully-resolved configuration, and the validation that produces it from
//! a stack of layers.
//!
//! Precedence is fixed: CLI flags > `--set` overrides > `--config` file >
//! `--sample` defaults > preset defaults > built-in defaults. [`Sources`] is
//! the only place that order is written down.

use vstd::prelude::*;
use crate::config::layer::{
    BackgroundLayer, BackgroundLayerModel, ConfigLayer, EffectsLayer, EffectsLayerModel,
    LayerModel, OutputLayer, TextLayer, TextLayerModel, VisualLayer, VisualLayerModel,
    empty_model, keeps_every_setting_of, keeps_where_silent, law_higher_layer_wins_and_silence_keeps,
    overlay_model, real_opt, text_opt,
};
use crate::config::number::{
    INFINITY_BITS, Real, RealModel, finite, is_finite, le, lt, eq, next_after, real_eq, real_le, real_lt,
};
use crate::config::params::{empty_table, table_contents};
use crate::config::value::{
    Codec, Fit, FontChoice, FontModel, Palette, PaletteModel, Position, Resolution, Seconds, Seed,
};
use crate::error::Error;
use crate::text::{chars_of, decimal, is_blank, push_decimal, push_str, string_from, string_of, trim, trim_chars};

verus! {

/// The resolution a `--sample` render falls back to.
pub const SAMPLE_RESOLUTION: &'static str = "720p";

/// The highest frame rate worth encoding; anything above is a typo.
pub const MAX_FPS: u32 = 240;

/// x264's CRF scale tops out at 51.
pub const MAX_CRF: u8 = 51;

/// The bits of `1.0`.
pub const ONE_BITS: u64 = 0x3ff0_0000_0000_0000;

// ---------------------------------------------------------------------------
// The resolved configuration
// ---------------------------------------------------------------------------

/// Resolved `[output]`.
#[derive(Debug, Clone, Copy, PartialEq, Eq, Structural)]
pub struct Output {
    /// Frame size in pixels.
    pub resolution: Resolution,
    /// Frames per second.
    pub fps: u32,
    /// Video codec.
    pub codec: Codec,
    /// CRF quality; lower is better.
    pub quality: u8,
}

/// Resolved `[visual]`.
#[derive(Debug, PartialEq)]
pub struct Visual {
    /// Preset name.
    pub preset: String,
    /// Color scheme.
    pub palette: Palette,
    /// Global motion scale.
    pub intensity: Real,
    /// Global envelope decay scale, 0..=1.
    pub smoothing: Real,
    /// RNG seed.
    pub seed: Seed,
    /// Preset-specific parameters, checked against the preset's schema later.
    pub params: toml::Table,
}

/// What the background layer draws.
#[derive(Debug, Clone, PartialEq, Eq)]
pub enum BackgroundSource {
    /// A static image.
    Image(String),
    /// A looped, muted video.
    Video(String),
}

/// Resolved `[background]`.
#[derive(Debug, Clone, PartialEq, Eq)]
pub struct Background {
    /// The image or video beneath the visualizer, if any.
    pub source: Option<BackgroundSource>,
    /// How the source is fitted to the frame.
    pub fit: Fit,
    /// Gaussian blur, as a standard deviation in pixels of the output frame.
    pub blur: Real,
    /// How much of the background's light to take away, 0..=1.
    pub darken: Real,
}

/// Resolved `[text]`.
#[derive(Debug, Clone, PartialEq, Eq)]
pub struct Text {
    /// Whether to draw the card at all.
    pub enabled: bool,
    /// Where the card sits.
    pub position: Position,
    /// When the card starts fading in.
    pub in_at: Seconds,
    /// How long the card stays at full opacity, between the two fades.
    pub hold: Seconds,
    /// How long each fade lasts, in and out alike.
    pub fade: Seconds,
    /// Which font renders it.
    pub font: FontChoice,
    /// Title type size, as a fraction of the frame height.
    pub size: Real,
    /// Distance from the frame edge, as a fraction of the frame height.
    pub margin: Real,
    /// Title, overriding the ID3 tag.
    pub title: Option<String>,
    /// Artist, overriding the ID3 tag.
    pub artist: Option<String>,
}

/// Resolved `[effects]`: the post pass over the finished picture. Every
/// default is the identity.
#[derive(Debug, Clone, PartialEq, Eq)]
pub struct Effects {
    /// Magnification about the frame's center. 1 is none.
    pub zoom: Real,
    /// How much the kick swells the zoom. 0 is none.
    pub pulse: Real,
    /// Rotation, in turns per second. 0 is none.
    pub spin: Real,
    /// How far the bass tilts the picture, in turns. 0 is none.
    pub sway: Real,
    /// Hue rotation, in turns. 0 is none.
    pub hue: Real,
    /// Hue rotation speed, in turns per second. 0 is none.
    pub hue_drift: Real,
    /// Saturation. 1 is neutral, 0 is gray.
    pub saturation: Real,
    /// Contrast about mid-gray. 1 is neutral.
    pub contrast: Real,
    /// Brightness. 1 is neutral.
    pub brightness: Real,
    /// How much a hit lifts the brightness. 0 is none.
    pub flash: Real,
    /// How long the clip fades up from black at its start. 0 is none.
    pub fade_in: Seconds,
    /// How long the clip fades down to black at its end. 0 is none.
    pub fade_out: Seconds,
}

/// A fully-resolved, validated configuration.
#[derive(Debug, PartialEq)]
pub struct Config {
    /// Frame size, rate, codec, and quality.
    pub output: Output,
    /// Preset selection and its parameters.
    pub visual: Visual,
    /// The layer beneath the visualizer.
    pub background: Background,
    /// The title/artist card.
    pub text: Text,
    /// The post pass over the finished picture.
    pub effects: Effects,
}

pub ghost struct VisualModel {
    pub preset: Seq<char>,
    pub palette: PaletteModel,
    pub intensity: RealModel,
    pub smoothing: RealModel,
    pub seed: Seed,
    pub params: Map<Seq<char>, toml::Value>,
}

pub ghost enum SourceModel {
    Image(Seq<char>),
    Video(Seq<char>),
}

pub ghost struct BackgroundModel {
    pub source: Option<SourceModel>,
    pub fit: Fit,
    pub blur: RealModel,
    pub darken: RealModel,
}

pub ghost struct TextModel {
    pub enabled: bool,
    pub position: Position,
    pub in_at: u64,
    pub hold: u64,
    pub fade: u64,
    pub font: FontModel,
    pub size: RealModel,
    pub margin: RealModel,
    pub title: Option<Seq<char>>,
    pub artist: Option<Seq<char>>,
}

pub ghost struct EffectsModel {
    pub zoom: RealModel,
    pub pulse: RealModel,
    pub spin: RealModel,
    pub sway: RealModel,
    pub hue: RealModel,
    pub hue_drift: RealModel,
    pub saturation: RealModel,
    pub contrast: RealModel,
    pub brightness: RealModel,
    pub flash: RealModel,
    pub fade_in: u64,
    pub fade_out: u64,
}

/// A [`Config`] as plain values.
pub ghost struct ConfigModel {
    pub output: Output,
    pub visual: VisualModel,
    pub background: BackgroundModel,
    pub text: TextModel,
    pub effects: EffectsModel,
}

impl View for Visual {
    type V = VisualModel;

    open spec fn view(&self) -> VisualModel {
        VisualModel {
            preset: self.preset@,
            palette: self.palette@,
            intensity: self.intensity@,
            smoothing: self.smoothing@,
            seed: self.seed,
            params: table_contents(self.params),
        }
    }
}

impl View for BackgroundSource {
    type V = SourceModel;

    open spec fn view(&self) -> SourceModel {
        match self {
            BackgroundSource::Image(p) => SourceModel::Image(p@),
            BackgroundSource::Video(p) => SourceModel::Video(p@),
        }
    }
}

pub open spec fn source_opt(o: Option<BackgroundSource>) -> Option<SourceModel> {
    match o {
        Some(s) => Some(s@),
        None => None,
    }
}

impl View for Background {
    type V = BackgroundModel;

    open spec fn view(&self) -> BackgroundModel {
        BackgroundModel {
            source: source_opt(self.source),
            fit: self.fit,
            blur: self.blur@,
            darken: self.darken@,
        }
    }
}

impl View for Text {
    type V = TextModel;

    open spec fn view(&self) -> TextModel {
        TextModel {
            enabled: self.enabled,
            position: self.position,
            in_at: self.in_at@,
            hold: self.hold@,
            fade: self.fade@,
            font: self.font@,
            size: self.size@,
            margin: self.margin@,
            title: text_opt(self.title),
            artist: text_opt(self.artist),
        }
    }
}

impl View for Effects {
    type V = EffectsModel;

    open spec fn view(&self) -> EffectsModel {
        EffectsModel {
            zoom: self.zoom@,
            pulse: self.pulse@,
            spin: self.spin@,
            sway: self.sway@,
            hue: self.hue@,
            hue_drift: self.hue_drift@,
            saturation: self.saturation@,
            contrast: self.contrast@,
            brightness: self.brightness@,
            flash: self.flash@,
            fade_in: self.fade_in@,
            fade_out: self.fade_out@,
        }
    }
}

impl View for Config {
    type V = ConfigModel;

    open spec fn view(&self) -> ConfigModel {
        ConfigModel {
            output: self.output,
            visual: self.visual@,
            background: self.background@,
            text: self.text@,
            effects: self.effects@,
        }
    }
}

// ---------------------------------------------------------------------------
// Built-in defaults
// ---------------------------------------------------------------------------

/// A number as plain values.
pub open spec fn rm(bits: u64, text: Seq<char>) -> RealModel {
    RealModel { bits, text }
}

pub open spec fn default_effects() -> EffectsModel {
    EffectsModel {
        zoom: rm(ONE_BITS, "1"@),
        pulse: rm(0, "0"@),
        spin: rm(0, "0"@),
        sway: rm(0, "0"@),
        hue: rm(0, "0"@),
        hue_drift: rm(0, "0"@),
        saturation: rm(ONE_BITS, "1"@),
        contrast: rm(ONE_BITS, "1"@),
        brightness: rm(ONE_BITS, "1"@),
        flash: rm(0, "0"@),
        fade_in: 0,
        fade_out: 0,
    }
}

/// The built-in defaults: a complete 1080p30 render.
pub open spec fn default_model() -> ConfigModel {
    ConfigModel {
        output: Output {
            resolution: Resolution { width: 1920, height: 1080 },
            fps: 30,
            codec: Codec::X264,
            quality: 18,
        },
        visual: VisualModel {
            preset: "pulse"@,
            palette: PaletteModel::Named("ember"@),
            intensity: rm(ONE_BITS, "1"@),
            smoothing: rm(0x3fd6_6666_6666_6666, "0.35"@),
            seed: Seed::Auto,
            params: Map::empty(),
        },
        background: BackgroundModel {
            source: None,
            fit: Fit::Cover,
            blur: rm(0, "0"@),
            darken: rm(0, "0"@),
        },
        text: TextModel {
            enabled: true,
            position: Position::BottomLeft,
            in_at: 1_000_000_000,
            hold: 6_000_000_000,
            fade: 600_000_000,
            font: FontModel::Auto,
            size: rm(0x3fa9_9999_9999_999a, "0.05"@),
            margin: rm(0x3fae_b851_eb85_1eb8, "0.06"@),
            title: None,
            artist: None,
        },
        effects: default_effects(),
    }
}

/// Whether the effects transform nothing: every value compares equal, as a
/// float, to its identity.
pub open spec fn effects_identity(e: EffectsModel) -> bool {
    &&& real_eq(e.zoom.bits, ONE_BITS)
    &&& real_eq(e.pulse.bits, 0)
    &&& real_eq(e.spin.bits, 0)
    &&& real_eq(e.sway.bits, 0)
    &&& real_eq(e.hue.bits, 0)
    &&& real_eq(e.hue_drift.bits, 0)
    &&& real_eq(e.saturation.bits, ONE_BITS)
    &&& real_eq(e.contrast.bits, ONE_BITS)
    &&& real_eq(e.brightness.bits, ONE_BITS)
    &&& real_eq(e.flash.bits, 0)
    &&& e.fade_in == 0
    &&& e.fade_out == 0
}

impl Effects {
    /// Whether this configuration transforms nothing.
    pub fn is_identity(&self) -> (r: bool)
        ensures
            r == effects_identity(self@),
    {
        eq(self.zoom.bits, ONE_BITS) && eq(self.pulse.bits, 0) && eq(self.spin.bits, 0) && eq(
            self.sway.bits,
            0,
        ) && eq(self.hue.bits, 0) && eq(self.hue_drift.bits, 0) && eq(
            self.saturation.bits,
            ONE_BITS,
        ) && eq(self.contrast.bits, ONE_BITS) && eq(self.brightness.bits, ONE_BITS) && eq(
            self.flash.bits,
            0,
        ) && self.fade_in.as_nanos() == 0 && self.fade_out.as_nanos() == 0
    }
}

impl Default for Effects {
    fn default() -> (e: Effects)
        ensures
            e@ == default_effects(),
    {
        Effects {
            zoom: Real::literal(ONE_BITS, "1"),
            pulse: Real::literal(0, "0"),
            spin: Real::literal(0, "0"),
            sway: Real::literal(0, "0"),
            hue: Real::literal(0, "0"),
            hue_drift: Real::literal(0, "0"),
            saturation: Real::literal(ONE_BITS, "1"),
            contrast: Real::literal(ONE_BITS, "1"),
            brightness: Real::literal(ONE_BITS, "1"),
            flash: Real::literal(0, "0"),
            fade_in: Seconds::from_nanos(0),
            fade_out: Seconds::from_nanos(0),
        }
    }
}

impl Default for Config {
    fn default() -> (c: Config)
        ensures
            c@ == default_model(),
    {
        Config {
            output: Output {
                resolution: Resolution::new(1920, 1080),
                fps: 30,
                codec: Codec::X264,
                quality: 18,
            },
            visual: Visual {
                preset: string_from("pulse"),
                palette: Palette::Named(string_from("ember")),
                intensity: Real::literal(ONE_BITS, "1"),
                smoothing: Real::literal(0x3fd6_6666_6666_6666, "0.35"),
                seed: Seed::Auto,
                params: empty_table(),
            },
            background: Background {
                source: None,
                fit: Fit::Cover,
                blur: Real::literal(0, "0"),
                darken: Real::literal(0, "0"),
            },
            text: Text {
                enabled: true,
                position: Position::BottomLeft,
                in_at: Seconds::from_nanos(1_000_000_000),
                hold: Seconds::from_nanos(6_000_000_000),
                fade: Seconds::from_nanos(600_000_000),
                font: FontChoice::Auto,
                size: Real::literal(0x3fa9_9999_9999_999a, "0.05"),
                margin: Real::literal(0x3fae_b851_eb85_1eb8, "0.06"),
                title: None,
                artist: None,
            },
            effects: Effects::default(),
        }
    }
}

// ---------------------------------------------------------------------------
// Validation
// ---------------------------------------------------------------------------

/// `n` in decimal, with a minus sign when it is negative.
pub open spec fn int_text(n: int) -> Seq<char> {
    if n < 0 {
        "-"@ + decimal((-n) as nat)
    } else {
        decimal(n as nat)
    }
}

/// `e` is a configuration error whose message is `m`.
pub open spec fn config_error(e: Error, m: Seq<char>) -> bool {
    e matches Error::Config(s) && s@ == m
}

/// The first of two possible errors.
pub open spec fn either(a: Option<Seq<char>>, b: Option<Seq<char>>) -> Option<Seq<char>> {
    if a is Some {
        a
    } else {
        b
    }
}

/// The error `check` finds in a value that is present.
pub open spec fn on<T>(o: Option<T>, check: spec_fn(T) -> Option<Seq<char>>) -> Option<Seq<char>> {
    match o {
        Some(v) => check(v),
        None => None,
    }
}

/// The value that is present, or the default.
pub open spec fn or<T>(o: Option<T>, default: T) -> T {
    match o {
        Some(v) => v,
        None => default,
    }
}

pub open spec fn blank_message(key: Seq<char>) -> Seq<char> {
    "`"@ + key + "` must not be blank"@
}

pub open spec fn blank_error(key: Seq<char>, value: Seq<char>) -> Option<Seq<char>> {
    if is_blank(value) {
        Some(blank_message(key))
    } else {
        None
    }
}

pub open spec fn positive_error(key: Seq<char>, v: RealModel) -> Option<Seq<char>> {
    if !is_finite(v.bits) || real_le(v.bits, 0) {
        Some("`"@ + key + "` must be greater than 0, got "@ + v.text)
    } else {
        None
    }
}

pub open spec fn non_negative_error(key: Seq<char>, v: RealModel) -> Option<Seq<char>> {
    if !is_finite(v.bits) || real_lt(v.bits, 0) {
        Some("`"@ + key + "` must not be negative, got "@ + v.text)
    } else {
        None
    }
}

pub open spec fn unit_interval_error(key: Seq<char>, v: RealModel) -> Option<Seq<char>> {
    if !(real_le(0, v.bits) && real_le(v.bits, ONE_BITS)) {
        Some("`"@ + key + "` must be between 0 and 1, got "@ + v.text)
    } else {
        None
    }
}

pub open spec fn positive_fraction_error(key: Seq<char>, v: RealModel, max: RealModel) -> Option<
    Seq<char>,
> {
    if !is_finite(v.bits) || real_le(v.bits, 0) || real_lt(max.bits, v.bits) {
        Some("`"@ + key + "` must be greater than 0 and at most "@ + max.text + ", got "@ + v.text)
    } else {
        None
    }
}

pub open spec fn bounded_error(
    key: Seq<char>,
    v: RealModel,
    start: RealModel,
    end: RealModel,
) -> Option<Seq<char>> {
    if !is_finite(v.bits) || !(real_le(start.bits, v.bits) && real_lt(v.bits, end.bits)) {
        Some(
            "`"@ + key + "` must be at least "@ + start.text + " and below "@ + end.text + ", got "@
                + v.text,
        )
    } else {
        None
    }
}

pub open spec fn fps_error(n: i64) -> Option<Seq<char>> {
    if 1 <= n <= MAX_FPS {
        None
    } else {
        Some("`output.fps` must be between 1 and 240, got "@ + int_text(n as int))
    }
}

pub open spec fn quality_error(n: i64) -> Option<Seq<char>> {
    if 0 <= n <= MAX_CRF {
        None
    } else {
        Some("`output.quality` is a CRF value between 0 and 51, got "@ + int_text(n as int))
    }
}

pub open spec fn output_error(o: OutputLayer) -> Option<Seq<char>> {
    either(on(o.fps, |n: i64| fps_error(n)), on(o.quality, |n: i64| quality_error(n)))
}

pub open spec fn output_resolved(o: OutputLayer) -> Output {
    Output {
        resolution: or(o.resolution, Resolution { width: 1920, height: 1080 }),
        fps: match o.fps {
            Some(n) => n as u32,
            None => 30,
        },
        codec: or(o.codec, Codec::X264),
        quality: match o.quality {
            Some(n) => n as u8,
            None => 18,
        },
    }
}

pub open spec fn visual_error(v: VisualLayerModel) -> Option<Seq<char>> {
    either(
        on(v.preset, |p: Seq<char>| blank_error("visual.preset"@, p)),
        either(
            on(v.intensity, |x: RealModel| positive_error("visual.intensity"@, x)),
            on(v.smoothing, |x: RealModel| unit_interval_error("visual.smoothing"@, x)),
        ),
    )
}

pub open spec fn visual_resolved(v: VisualLayerModel) -> VisualModel {
    VisualModel {
        preset: or(v.preset, default_model().visual.preset),
        palette: or(v.palette, default_model().visual.palette),
        intensity: or(v.intensity, default_model().visual.intensity),
        smoothing: or(v.smoothing, default_model().visual.smoothing),
        seed: or(v.seed, default_model().visual.seed),
        params: or(v.params, Map::empty()),
    }
}

pub open spec fn exclusive_message() -> Seq<char> {
    "`background.image` and `background.video` are mutually exclusive; the background layer draws one or the other"@
}

pub open spec fn source_error(b: BackgroundLayerModel) -> Option<Seq<char>> {
    match (b.image, b.video) {
        (Some(_), Some(_)) => Some(exclusive_message()),
        (Some(i), None) => blank_error("background.image"@, i),
        (None, Some(v)) => blank_error("background.video"@, v),
        (None, None) => None,
    }
}

pub open spec fn background_error(b: BackgroundLayerModel) -> Option<Seq<char>> {
    either(
        source_error(b),
        either(
            on(b.blur, |x: RealModel| non_negative_error("background.blur"@, x)),
            on(b.darken, |x: RealModel| unit_interval_error("background.darken"@, x)),
        ),
    )
}

pub open spec fn background_resolved(b: BackgroundLayerModel) -> BackgroundModel {
    BackgroundModel {
        source: match (b.image, b.video) {
            (Some(i), _) => Some(SourceModel::Image(i)),
            (None, Some(v)) => Some(SourceModel::Video(v)),
            (None, None) => None,
        },
        fit: or(b.fit, Fit::Cover),
        blur: or(b.blur, rm(0, "0"@)),
        darken: or(b.darken, rm(0, "0"@)),
    }
}

pub open spec fn text_error(t: TextLayerModel) -> Option<Seq<char>> {
    either(
        on(t.size, |x: RealModel| positive_fraction_error("text.size"@, x, rm(ONE_BITS, "1"@))),
        either(
            on(
                t.margin,
                |x: RealModel|
                    bounded_error(
                        "text.margin"@,
                        x,
                        rm(0, "0"@),
                        rm(0x3fe0_0000_0000_0000, "0.5"@),
                    ),
            ),
            either(
                on(t.title, |s: Seq<char>| blank_error("text.title"@, s)),
                on(t.artist, |s: Seq<char>| blank_error("text.artist"@, s)),
            ),
        ),
    )
}

pub open spec fn trimmed(o: Option<Seq<char>>) -> Option<Seq<char>> {
    match o {
        Some(s) => Some(trim(s)),
        None => None,
    }
}

pub open spec fn nanos_or(o: Option<Seconds>, default: u64) -> u64 {
    match o {
        Some(s) => s@,
        None => default,
    }
}

pub open spec fn text_resolved(t: TextLayerModel) -> TextModel {
    TextModel {
        enabled: or(t.enabled, true),
        position: or(t.position, Position::BottomLeft),
        in_at: nanos_or(t.in_at, 1_000_000_000),
        hold: nanos_or(t.hold, 6_000_000_000),
        fade: nanos_or(t.fade, 600_000_000),
        font: or(t.font, FontModel::Auto),
        size: or(t.size, default_model().text.size),
        margin: or(t.margin, default_model().text.margin),
        title: trimmed(t.title),
        artist: trimmed(t.artist),
    }
}

/// `effects.<key>` must lie in `start ..= end`, written as the half-open
/// range up to the float after `end`.
pub open spec fn effect_error(
    key: Seq<char>,
    o: Option<RealModel>,
    start: RealModel,
    end: RealModel,
) -> Option<Seq<char>> {
    on(o, |x: RealModel| bounded_error(key, x, start, end))
}

pub open spec fn effects_error(e: EffectsLayerModel) -> Option<Seq<char>> {
    let zero = rm(0, "0"@);
    let two_up = rm(0x4000_0000_0000_0001, "2.0000000000000004"@);
    let three_up = rm(0x4008_0000_0000_0001, "3.0000000000000004"@);
    let minus_two = rm(0xc000_0000_0000_0000, "-2"@);
    either(
        effect_error("effects.zoom"@, e.zoom, rm(0x3fe0_0000_0000_0000, "0.5"@), three_up),
        either(
            effect_error(
                "effects.pulse"@,
                e.pulse,
                zero,
                rm(0x3fe0_0000_0000_0001, "0.5000000000000001"@),
            ),
            either(
                effect_error("effects.spin"@, e.spin, minus_two, two_up),
                either(
                    effect_error(
                        "effects.sway"@,
                        e.sway,
                        rm(0xbfd0_0000_0000_0000, "-0.25"@),
                        rm(0x3fd0_0000_0000_0001, "0.25000000000000006"@),
                    ),
                    either(
                        effect_error(
                            "effects.hue"@,
                            e.hue,
                            zero,
                            rm(0x3ff0_0000_0000_0001, "1.0000000000000002"@),
                        ),
                        either(
                            effect_error("effects.hue_drift"@, e.hue_drift, minus_two, two_up),
                            either(
                                effect_error("effects.saturation"@, e.saturation, zero, three_up),
                                either(
                                    effect_error(
                                        "effects.contrast"@,
                                        e.contrast,
                                        rm(0x3fc9_9999_9999_999a, "0.2"@),
                                        three_up,
                                    ),
                                    either(
                                        effect_error(
                                            "effects.brightness"@,
                                            e.brightness,
                                            zero,
                                            three_up,
                                        ),
                                        effect_error("effects.flash"@, e.flash, zero, two_up),
                                    ),
                                ),
                            ),
                        ),
                    ),
                ),
            ),
        ),
    )
}

pub open spec fn effects_resolved(e: EffectsLayerModel) -> EffectsModel {
    let d = default_effects();
    EffectsModel {
        zoom: or(e.zoom, d.zoom),
        pulse: or(e.pulse, d.pulse),
        spin: or(e.spin, d.spin),
        sway: or(e.sway, d.sway),
        hue: or(e.hue, d.hue),
        hue_drift: or(e.hue_drift, d.hue_drift),
        saturation: or(e.saturation, d.saturation),
        contrast: or(e.contrast, d.contrast),
        brightness: or(e.brightness, d.brightness),
        flash: or(e.flash, d.flash),
        fade_in: nanos_or(e.fade_in, 0),
        fade_out: nanos_or(e.fade_out, 0),
    }
}

/// The first problem with a layer, checked section by section in the order
/// the sections are declared.
pub open spec fn layer_error(l: LayerModel) -> Option<Seq<char>> {
    either(
        output_error(l.output),
        either(
            visual_error(l.visual),
            either(
                background_error(l.background),
                either(text_error(l.text), effects_error(l.effects)),
            ),
        ),
    )
}

/// A layer applied to the built-in defaults, or the first problem with it.
pub open spec fn resolve_model(l: LayerModel) -> Result<ConfigModel, Seq<char>> {
    match layer_error(l) {
        Some(m) => Err(m),
        None => Ok(
            ConfigModel {
                output: output_resolved(l.output),
                visual: visual_resolved(l.visual),
                background: background_resolved(l.background),
                text: text_resolved(l.text),
                effects: effects_resolved(l.effects),
            },
        ),
    }
}

/// A configuration error: `` `key` `` and then `rest`, then `value`.
fn keyed_error(key: &str, rest: &str, value: &str) -> (e: Error)
    ensures
        config_error(e, "`"@ + key@ + rest@ + value@),
{
    let mut m = string_from("`");
    push_str(&mut m, key);
    push_str(&mut m, rest);
    push_str(&mut m, value);
    Error::Config(m)
}

/// `` `key` must not be blank ``.
fn blank(key: &str) -> (e: Error)
    ensures
        config_error(e, blank_message(key@)),
{
    let mut m = string_from("`");
    push_str(&mut m, key);
    push_str(&mut m, "` must not be blank");
    Error::Config(m)
}

/// Append `n` in decimal, with a minus sign when it is negative.
fn push_int(s: &mut String, n: i64)
    ensures
        final(s)@ == old(s)@ + int_text(n as int),
{
    if n < 0 {
        let ghost start = s@;
        push_str(s, "-");
        let m: u64 = (-(n as i128)) as u64;
        push_decimal(s, m);
        assert(s@ =~= start + int_text(n as int));
    } else {
        push_decimal(s, n as u64);
    }
}

fn is_blank_text(s: &str) -> (r: bool)
    ensures
        r == is_blank(s@),
{
    trim_chars(&chars_of(s)).len() == 0
}

/// Reject a string that is empty or only white space, and trim the rest.
fn non_blank(key: &str, value: String) -> (r: Result<String, Error>)
    ensures
        match r {
            Ok(s) => blank_error(key@, value@) is None && s@ == trim(value@),
            Err(e) => blank_error(key@, value@) matches Some(m) && config_error(e, m),
        },
{
    let trimmed = trim_chars(&chars_of(value.as_str()));
    if trimmed.len() == 0 {
        return Err(blank(key));
    }
    Ok(string_of(&trimmed))
}

/// Reject a path that is empty or only white space.
fn non_blank_path(key: &str, path: String) -> (r: Result<String, Error>)
    ensures
        match r {
            Ok(s) => blank_error(key@, path@) is None && s == path,
            Err(e) => blank_error(key@, path@) matches Some(m) && config_error(e, m),
        },
{
    if is_blank_text(path.as_str()) {
        return Err(blank(key));
    }
    Ok(path)
}

fn positive(key: &str, value: Real) -> (r: Result<Real, Error>)
    ensures
        match r {
            Ok(v) => positive_error(key@, value@) is None && v == value,
            Err(e) => positive_error(key@, value@) matches Some(m) && config_error(e, m),
        },
{
    if !finite(value.bits) || le(value.bits, 0) {
        return Err(keyed_error(key, "` must be greater than 0, got ", value.text.as_str()));
    }
    Ok(value)
}

fn non_negative(key: &str, value: Real) -> (r: Result<Real, Error>)
    ensures
        match r {
            Ok(v) => non_negative_error(key@, value@) is None && v == value,
            Err(e) => non_negative_error(key@, value@) matches Some(m) && config_error(e, m),
        },
{
    if !finite(value.bits) || lt(value.bits, 0) {
        return Err(keyed_error(key, "` must not be negative, got ", value.text.as_str()));
    }
    Ok(value)
}

fn unit_interval(key: &str, value: Real) -> (r: Result<Real, Error>)
    ensures
        match r {
            Ok(v) => unit_interval_error(key@, value@) is None && v == value,
            Err(e) => unit_interval_error(key@, value@) matches Some(m) && config_error(e, m),
        },
{
    if !(le(0, value.bits) && le(value.bits, ONE_BITS)) {
        return Err(keyed_error(key, "` must be between 0 and 1, got ", value.text.as_str()));
    }
    Ok(value)
}

/// A fraction of something: more than none of it and no more than `max`.
fn positive_fraction(key: &str, value: Real, max: &Real) -> (r: Result<Real, Error>)
    ensures
        match r {
            Ok(v) => positive_fraction_error(key@, value@, max@) is None && v == value,
            Err(e) => positive_fraction_error(key@, value@, max@) matches Some(m) && config_error(
                e,
                m,
            ),
        },
{
    if !finite(value.bits) || le(value.bits, 0) || lt(max.bits, value.bits) {
        let mut m = string_from("`");
        push_str(&mut m, key);
        push_str(&mut m, "` must be greater than 0 and at most ");
        push_str(&mut m, max.text.as_str());
        push_str(&mut m, ", got ");
        push_str(&mut m, value.text.as_str());
        return Err(Error::Config(m));
    }
    Ok(value)
}

/// A value in `start..end`: at least the start, and below the end.
fn bounded(key: &str, value: Real, start: &Real, end: &Real) -> (r: Result<Real, Error>)
    ensures
        match r {
            Ok(v) => bounded_error(key@, value@, start@, end@) is None && v == value,
            Err(e) => bounded_error(key@, value@, start@, end@) matches Some(m) && config_error(
                e,
                m,
            ),
        },
{
    if !finite(value.bits) || !(le(start.bits, value.bits) && lt(value.bits, end.bits)) {
        let mut m = string_from("`");
        push_str(&mut m, key);
        push_str(&mut m, "` must be at least ");
        push_str(&mut m, start.text.as_str());
        push_str(&mut m, " and below ");
        push_str(&mut m, end.text.as_str());
        push_str(&mut m, ", got ");
        push_str(&mut m, value.text.as_str());
        return Err(Error::Config(m));
    }
    Ok(value)
}

/// One `[effects]` value: range-checked when present, else its identity.
fn effect(key: &str, o: Option<Real>, start: Real, end_bits: u64, end_text: &str, default: Real) -> (r: Result<Real, Error>)
    requires
        end_bits < INFINITY_BITS,
    ensures
        match r {
            Ok(v) => effect_error(key@, real_opt(o), start@, rm((end_bits + 1) as u64, end_text@)) is None
                && v@ == or(real_opt(o), default@),
            Err(e) => effect_error(key@, real_opt(o), start@, rm((end_bits + 1) as u64, end_text@)) matches Some(m)
                && config_error(e, m),
        },
{
    match o {
        Some(v) => {
            let end = Real::literal(next_after(end_bits), end_text);
            bounded(key, v, &start, &end)
        },
        None => Ok(default),
    }
}

fn resolve_output(o: OutputLayer) -> (r: Result<Output, Error>)
    ensures
        match r {
            Ok(x) => output_error(o) is None && x == output_resolved(o),
            Err(e) => output_error(o) matches Some(m) && config_error(e, m),
        },
{
    let fps: u32 = match o.fps {
        Some(n) => {
            if !(1 <= n && n <= MAX_FPS as i64) {
                let mut m = string_from("`output.fps` must be between 1 and 240, got ");
                push_int(&mut m, n);
                return Err(Error::Config(m));
            }
            n as u32
        },
        None => 30,
    };
    let quality: u8 = match o.quality {
        Some(n) => {
            if !(0 <= n && n <= MAX_CRF as i64) {
                let mut m = string_from("`output.quality` is a CRF value between 0 and 51, got ");
                push_int(&mut m, n);
                return Err(Error::Config(m));
            }
            n as u8
        },
        None => 18,
    };
    let resolution = match o.resolution {
        Some(r) => r,
        None => Resolution::new(1920, 1080),
    };
    let codec = match o.codec {
        Some(c) => c,
        None => Codec::X264,
    };
    Ok(Output { resolution, fps, codec, quality })
}

fn resolve_visual(v: VisualLayer) -> (r: Result<Visual, Error>)
    ensures
        match r {
            Ok(x) => visual_error(v@) is None && x@ == visual_resolved(v@),
            Err(e) => visual_error(v@) matches Some(m) && config_error(e, m),
        },
{
    let ghost model = v@;
    let VisualLayer { preset, palette, intensity, smoothing, seed, params } = v;
    let preset = match preset {
        Some(p) => {
            if is_blank_text(p.as_str()) {
                return Err(blank("visual.preset"));
            }
            p
        },
        None => string_from("pulse"),
    };
    let intensity = match intensity {
        Some(x) => match positive("visual.intensity", x) {
            Ok(y) => y,
            Err(e) => return Err(e),
        },
        None => Real::literal(ONE_BITS, "1"),
    };
    let smoothing = match smoothing {
        Some(x) => match unit_interval("visual.smoothing", x) {
            Ok(y) => y,
            Err(e) => return Err(e),
        },
        None => Real::literal(0x3fd6_6666_6666_6666, "0.35"),
    };
    let palette = match palette {
        Some(p) => p,
        None => Palette::Named(string_from("ember")),
    };
    let seed = match seed {
        Some(s) => s,
        None => Seed::Auto,
    };
    let params = match params {
        Some(p) => p,
        None => empty_table(),
    };
    let out = Visual { preset, palette, intensity, smoothing, seed, params };
    assert(out@ == visual_resolved(model));
    Ok(out)
}

fn resolve_background(b: BackgroundLayer) -> (r: Result<Background, Error>)
    ensures
        match r {
            Ok(x) => background_error(b@) is None && x@ == background_resolved(b@),
            Err(e) => background_error(b@) matches Some(m) && config_error(e, m),
        },
{
    let ghost model = b@;
    let BackgroundLayer { image, video, fit, blur, darken } = b;
    let source = match (image, video) {
        (Some(_), Some(_)) => {
            return Err(
                Error::Config(
                    string_from(
                        "`background.image` and `background.video` are mutually exclusive; the background layer draws one or the other",
                    ),
                ),
            );
        },
        (Some(i), None) => match non_blank_path("background.image", i) {
            Ok(p) => Some(BackgroundSource::Image(p)),
            Err(e) => return Err(e),
        },
        (None, Some(v)) => match non_blank_path("background.video", v) {
            Ok(p) => Some(BackgroundSource::Video(p)),
            Err(e) => return Err(e),
        },
        (None, None) => None,
    };
    let blur = match blur {
        Some(x) => match non_negative("background.blur", x) {
            Ok(y) => y,
            Err(e) => return Err(e),
        },
        None => Real::literal(0, "0"),
    };
    let darken = match darken {
        Some(x) => match unit_interval("background.darken", x) {
            Ok(y) => y,
            Err(e) => return Err(e),
        },
        None => Real::literal(0, "0"),
    };
    let fit = match fit {
        Some(f) => f,
        None => Fit::Cover,
    };
    let out = Background { source, fit, blur, darken };
    assert(out@ == background_resolved(model));
    Ok(out)
}

fn resolve_text(t: TextLayer) -> (r: Result<Text, Error>)
    ensures
        match r {
            Ok(x) => text_error(t@) is None && x@ == text_resolved(t@),
            Err(e) => text_error(t@) matches Some(m) && config_error(e, m),
        },
{
    let ghost model = t@;
    let TextLayer { enabled, position, in_at, hold, fade, font, size, margin, title, artist } = t;
    let size = match size {
        Some(x) => match positive_fraction("text.size", x, &Real::literal(ONE_BITS, "1")) {
            Ok(y) => y,
            Err(e) => return Err(e),
        },
        None => Real::literal(0x3fa9_9999_9999_999a, "0.05"),
    };
    let margin = match margin {
        Some(x) => match bounded(
            "text.margin",
            x,
            &Real::literal(0, "0"),
            &Real::literal(0x3fe0_0000_0000_0000, "0.5"),
        ) {
            Ok(y) => y,
            Err(e) => return Err(e),
        },
        None => Real::literal(0x3fae_b851_eb85_1eb8, "0.06"),
    };
    let title = match title {
        Some(s) => match non_blank("text.title", s) {
            Ok(y) => Some(y),
            Err(e) => return Err(e),
        },
        None => None,
    };
    let artist = match artist {
        Some(s) => match non_blank("text.artist", s) {
            Ok(y) => Some(y),
            Err(e) => return Err(e),
        },
        None => None,
    };
    let out = Text {
        enabled: match enabled {
            Some(b) => b,
            None => true,
        },
        position: match position {
            Some(p) => p,
            None => Position::BottomLeft,
        },
        in_at: match in_at {
            Some(s) => s,
            None => Seconds::from_nanos(1_000_000_000),
        },
        hold: match hold {
            Some(s) => s,
            None => Seconds::from_nanos(6_000_000_000),
        },
        fade: match fade {
            Some(s) => s,
            None => Seconds::from_nanos(600_000_000),
        },
        font: match font {
            Some(f) => f,
            None => FontChoice::Auto,
        },
        size,
        margin,
        title,
        artist,
    };
    assert(out@ == text_resolved(model));
    Ok(out)
}

fn resolve_effects(e: EffectsLayer) -> (r: Result<Effects, Error>)
    ensures
        match r {
            Ok(x) => effects_error(e@) is None && x@ == effects_resolved(e@),
            Err(err) => effects_error(e@) matches Some(m) && config_error(err, m),
        },
{
    let ghost model = e@;
    let EffectsLayer {
        zoom,
        pulse,
        spin,
        sway,
        hue,
        hue_drift,
        saturation,
        contrast,
        brightness,
        flash,
        fade_in,
        fade_out,
    } = e;
    let zoom = match effect(
        "effects.zoom",
        zoom,
        Real::literal(0x3fe0_0000_0000_0000, "0.5"),
        0x4008_0000_0000_0000,
        "3.0000000000000004",
        Real::literal(ONE_BITS, "1"),
    ) {
        Ok(v) => v,
        Err(err) => return Err(err),
    };
    let pulse = match effect(
        "effects.pulse",
        pulse,
        Real::literal(0, "0"),
        0x3fe0_0000_0000_0000,
        "0.5000000000000001",
        Real::literal(0, "0"),
    ) {
        Ok(v) => v,
        Err(err) => return Err(err),
    };
    let spin = match effect(
        "effects.spin",
        spin,
        Real::literal(0xc000_0000_0000_0000, "-2"),
        0x4000_0000_0000_0000,
        "2.0000000000000004",
        Real::literal(0, "0"),
    ) {
        Ok(v) => v,
        Err(err) => return Err(err),
    };
    let sway = match effect(
        "effects.sway",
        sway,
        Real::literal(0xbfd0_0000_0000_0000, "-0.25"),
        0x3fd0_0000_0000_0000,
        "0.25000000000000006",
        Real::literal(0, "0"),
    ) {
        Ok(v) => v,
        Err(err) => return Err(err),
    };
    let hue = match effect(
        "effects.hue",
        hue,
        Real::literal(0, "0"),
        ONE_BITS,
        "1.0000000000000002",
        Real::literal(0, "0"),
    ) {
        Ok(v) => v,
        Err(err) => return Err(err),
    };
    let hue_drift = match effect(
        "effects.hue_drift",
        hue_drift,
        Real::literal(0xc000_0000_0000_0000, "-2"),
        0x4000_0000_0000_0000,
        "2.0000000000000004",
        Real::literal(0, "0"),
    ) {
        Ok(v) => v,
        Err(err) => return Err(err),
    };
    let saturation = match effect(
        "effects.saturation",
        saturation,
        Real::literal(0, "0"),
        0x4008_0000_0000_0000,
        "3.0000000000000004",
        Real::literal(ONE_BITS, "1"),
    ) {
        Ok(v) => v,
        Err(err) => return Err(err),
    };
    let contrast = match effect(
        "effects.contrast",
        contrast,
        Real::literal(0x3fc9_9999_9999_999a, "0.2"),
        0x4008_0000_0000_0000,
        "3.0000000000000004",
        Real::literal(ONE_BITS, "1"),
    ) {
        Ok(v) => v,
        Err(err) => return Err(err),
    };
    let brightness = match effect(
        "effects.brightness",
        brightness,
        Real::literal(0, "0"),
        0x4008_0000_0000_0000,
        "3.0000000000000004",
        Real::literal(ONE_BITS, "1"),
    ) {
        Ok(v) => v,
        Err(err) => return Err(err),
    };
    let flash = match effect(
        "effects.flash",
        flash,
        Real::literal(0, "0"),
        0x4000_0000_0000_0000,
        "2.0000000000000004",
        Real::literal(0, "0"),
    ) {
        Ok(v) => v,
        Err(err) => return Err(err),
    };
    let out = Effects {
        zoom,
        pulse,
        spin,
        sway,
        hue,
        hue_drift,
        saturation,
        contrast,
        brightness,
        flash,
        fade_in: match fade_in {
            Some(s) => s,
            None => Seconds::from_nanos(0),
        },
        fade_out: match fade_out {
            Some(s) => s,
            None => Seconds::from_nanos(0),
        },
    };
    assert(out@ == effects_resolved(model));
    Ok(out)
}

impl ConfigLayer {
    /// Apply this layer to the built-in defaults and validate.
    pub fn resolve(self) -> (r: Result<Config, Error>)
        ensures
            match r {
                Ok(c) => resolve_model(self@) == Ok::<ConfigModel, Seq<char>>(c@),
                Err(e) => resolve_model(self@) matches Err(m) && config_error(e, m),
            },
    {
        let ghost model = self@;
        let ConfigLayer { output, visual, background, text, effects } = self;
        let output = match resolve_output(output) {
            Ok(x) => x,
            Err(e) => return Err(e),
        };
        let visual = match resolve_visual(visual) {
            Ok(x) => x,
            Err(e) => return Err(e),
        };
        let background = match resolve_background(background) {
            Ok(x) => x,
            Err(e) => return Err(e),
        };
        let text = match resolve_text(text) {
            Ok(x) => x,
            Err(e) => return Err(e),
        };
        let effects = match resolve_effects(effects) {
            Ok(x) => x,
            Err(e) => return Err(e),
        };
        let config = Config { output, visual, background, text, effects };
        Ok(config)
    }
}

// ---------------------------------------------------------------------------
// The precedence chain
// ---------------------------------------------------------------------------

/// The configuration sources, ordered lowest precedence first.
#[derive(Debug, PartialEq)]
pub struct Sources {
    /// Defaults declared by the selected preset's schema.
    pub preset_defaults: ConfigLayer,
    /// Defaults implied by `--sample`. See [`ConfigLayer::for_sample`].
    pub sample_defaults: ConfigLayer,
    /// The `--config` file.
    pub file: ConfigLayer,
    /// `--set key.path=value` overrides.
    pub set: ConfigLayer,
    /// Individual CLI flags such as `--preset`.
    pub cli: ConfigLayer,
}

/// The preset's defaults with `--sample`'s laid over them.
pub open spec fn through_sample(s: Sources) -> LayerModel {
    overlay_model(s.preset_defaults@, s.sample_defaults@)
}

/// ... then the config file.
pub open spec fn through_file(s: Sources) -> LayerModel {
    overlay_model(through_sample(s), s.file@)
}

/// ... then `--set`.
pub open spec fn through_set(s: Sources) -> LayerModel {
    overlay_model(through_file(s), s.set@)
}

/// Every source laid over the ones below it: the preset's defaults, then
/// `--sample`'s, the config file, `--set`, and the flags.
pub open spec fn stacked(s: Sources) -> LayerModel {
    overlay_model(through_set(s), s.cli@)
}

impl Sources {
    /// No source has an opinion.
    pub fn empty() -> (s: Sources)
        ensures
            s.preset_defaults@ == empty_model(),
            s.sample_defaults@ == empty_model(),
            s.file@ == empty_model(),
            s.set@ == empty_model(),
            s.cli@ == empty_model(),
    {
        Sources {
            preset_defaults: ConfigLayer::empty(),
            sample_defaults: ConfigLayer::empty(),
            file: ConfigLayer::empty(),
            set: ConfigLayer::empty(),
            cli: ConfigLayer::empty(),
        }
    }

    /// Merge every source onto the built-in defaults and validate the result.
    pub fn resolve(self) -> (r: Result<Config, Error>)
        ensures
            match r {
                Ok(c) => resolve_model(stacked(self)) == Ok::<ConfigModel, Seq<char>>(c@),
                Err(e) => resolve_model(stacked(self)) matches Err(m) && config_error(e, m),
            },
    {
        let Sources { mut preset_defaults, sample_defaults, file, set, cli } = self;
        preset_defaults.overlay(sample_defaults);
        preset_defaults.overlay(file);
        preset_defaults.overlay(set);
        preset_defaults.overlay(cli);
        preset_defaults.resolve()
    }
}

impl Default for Sources {
    fn default() -> (s: Sources)
        ensures
            s.preset_defaults@ == empty_model(),
            s.sample_defaults@ == empty_model(),
            s.file@ == empty_model(),
            s.set@ == empty_model(),
            s.cli@ == empty_model(),
    {
        Sources::empty()
    }
}

/// A layer with no opinion resolves to exactly the built-in defaults.
pub proof fn law_nothing_resolves_to_the_defaults()
    ensures
        resolve_model(empty_model()) == Ok::<ConfigModel, Seq<char>>(default_model()),
{
    let e = empty_model();
    assert(layer_error(e) is None);
    let r = ConfigModel {
        output: output_resolved(e.output),
        visual: visual_resolved(e.visual),
        background: background_resolved(e.background),
        text: text_resolved(e.text),
        effects: effects_resolved(e.effects),
    };
    let d = default_model();
    assert(r.output == d.output);
    assert(r.visual == d.visual);
    assert(r.background == d.background);
    assert(r.text == d.text);
    assert(r.effects == d.effects);
    assert(r == d);
}

/// Every built-in effect is the identity, so a render that asks for no
/// effects gets none.
pub proof fn law_default_effects_are_identity()
    ensures
        effects_identity(default_effects()),
{
}

/// Precedence of the sources: cli > set > file > sample defaults > preset
/// defaults. Each source's settings reach the stack as far as it goes, and
/// each source above that is silent about a setting leaves it as it was, so
/// a key several sources set takes the value of the highest of them, and
/// `Sources::resolve` resolves that stack exactly as `ConfigLayer::resolve`
/// resolves the layer the same overlays build.
pub proof fn law_the_highest_source_wins(src: Sources)
    ensures
        keeps_every_setting_of(src.sample_defaults@, through_sample(src)),
        keeps_where_silent(src.preset_defaults@, src.sample_defaults@, through_sample(src)),
        keeps_every_setting_of(src.file@, through_file(src)),
        keeps_where_silent(through_sample(src), src.file@, through_file(src)),
        keeps_every_setting_of(src.set@, through_set(src)),
        keeps_where_silent(through_file(src), src.set@, through_set(src)),
        keeps_every_setting_of(src.cli@, stacked(src)),
        keeps_where_silent(through_set(src), src.cli@, stacked(src)),
        stacked(src) == overlay_model(
            overlay_model(
                overlay_model(
                    overlay_model(src.preset_defaults@, src.sample_defaults@),
                    src.file@,
                ),
                src.set@,
            ),
            src.cli@,
        ),
{
    law_higher_layer_wins_and_silence_keeps(src.preset_defaults@, src.sample_defaults@);
    law_higher_layer_wins_and_silence_keeps(through_sample(src), src.file@);
    law_higher_layer_wins_and_silence_keeps(through_file(src), src.set@);
    law_higher_layer_wins_and_silence_keeps(through_set(src), src.cli@);
}

/// Each effect lands on its own key: whatever a valid layer sets for an
/// effect is what the resolved configuration holds for that effect, and an
/// effect the layer is silent about keeps its built-in value (1 for zoom,
/// saturation, contrast and brightness, 0 for the rest, no fades).
pub proof fn law_each_effect_keeps_its_own_value(l: LayerModel)
    requires
        layer_error(l) is None,
    ensures
        resolve_model(l) matches Ok(c) && c.effects.zoom == match l.effects.zoom {
            Some(x) => x,
            None => RealModel { bits: ONE_BITS, text: "1"@ },
        },
        resolve_model(l) matches Ok(c) && c.effects.pulse == match l.effects.pulse {
            Some(x) => x,
            None => RealModel { bits: 0, text: "0"@ },
        },
        resolve_model(l) matches Ok(c) && c.effects.spin == match l.effects.spin {
            Some(x) => x,
            None => RealModel { bits: 0, text: "0"@ },
        },
        resolve_model(l) matches Ok(c) && c.effects.sway == match l.effects.sway {
            Some(x) => x,
            None => RealModel { bits: 0, text: "0"@ },
        },
        resolve_model(l) matches Ok(c) && c.effects.hue == match l.effects.hue {
            Some(x) => x,
            None => RealModel { bits: 0, text: "0"@ },
        },
        resolve_model(l) matches Ok(c) && c.effects.hue_drift == match l.effects.hue_drift {
            Some(x) => x,
            None => RealModel { bits: 0, text: "0"@ },
        },
        resolve_model(l) matches Ok(c) && c.effects.saturation == match l.effects.saturation {
            Some(x) => x,
            None => RealModel { bits: ONE_BITS, text: "1"@ },
        },
        resolve_model(l) matches Ok(c) && c.effects.contrast == match l.effects.contrast {
            Some(x) => x,
            None => RealModel { bits: ONE_BITS, text: "1"@ },
        },
        resolve_model(l) matches Ok(c) && c.effects.brightness == match l.effects.brightness {
            Some(x) => x,
            None => RealModel { bits: ONE_BITS, text: "1"@ },
        },
        resolve_model(l) matches Ok(c) && c.effects.flash == match l.effects.flash {
            Some(x) => x,
            None => RealModel { bits: 0, text: "0"@ },
        },
        resolve_model(l) matches Ok(c) && c.effects.fade_in == match l.effects.fade_in {
            Some(x) => x@,
            None => 0,
        },
        resolve_model(l) matches Ok(c) && c.effects.fade_out == match l.effects.fade_out {
            Some(x) => x@,
            None => 0,
        },
{
}

/// Each setting lands on its own key: whatever a valid layer sets is what the
/// resolved configuration holds for that key (an fps or quality as its
/// number, a title or artist trimmed, an image or a video as the background
/// source), and a key the layer is silent about keeps its built-in value:
/// 1080p at 30 fps in x264 at quality 18; the `pulse` preset in `ember` at
/// intensity 1 and smoothing 0.35 with an automatic seed and no parameters;
/// no background, covering, unblurred and undarkened; a title card shown
/// bottom-left from 1 s for 6 s with 0.6 s fades, in the automatic font at
/// size 0.05 and margin 0.06, with no title or artist.
pub proof fn law_each_setting_keeps_its_own_value(l: LayerModel)
    requires
        layer_error(l) is None,
    ensures
        resolve_model(l) matches Ok(c) && c.output.resolution == match l.output.resolution {
            Some(x) => x,
            None => Resolution { width: 1920, height: 1080 },
        },
        resolve_model(l) matches Ok(c) && c.output.fps == match l.output.fps {
            Some(x) => x as u32,
            None => 30u32,
        },
        resolve_model(l) matches Ok(c) && c.output.codec == match l.output.codec {
            Some(x) => x,
            None => Codec::X264,
        },
        resolve_model(l) matches Ok(c) && c.output.quality == match l.output.quality {
            Some(x) => x as u8,
            None => 18u8,
        },
        resolve_model(l) matches Ok(c) && c.visual.preset == match l.visual.preset {
            Some(x) => x,
            None => "pulse"@,
        },
        resolve_model(l) matches Ok(c) && c.visual.palette == match l.visual.palette {
            Some(x) => x,
            None => PaletteModel::Named("ember"@),
        },
        resolve_model(l) matches Ok(c) && c.visual.intensity == match l.visual.intensity {
            Some(x) => x,
            None => RealModel { bits: ONE_BITS, text: "1"@ },
        },
        resolve_model(l) matches Ok(c) && c.visual.smoothing == match l.visual.smoothing {
            Some(x) => x,
            None => RealModel { bits: 0x3fd6_6666_6666_6666, text: "0.35"@ },
        },
        resolve_model(l) matches Ok(c) && c.visual.seed == match l.visual.seed {
            Some(x) => x,
            None => Seed::Auto,
        },
        resolve_model(l) matches Ok(c) && c.visual.params == match l.visual.params {
            Some(x) => x,
            None => Map::<Seq<char>, toml::Value>::empty(),
        },
        resolve_model(l) matches Ok(c) && c.background.fit == match l.background.fit {
            Some(x) => x,
            None => Fit::Cover,
        },
        resolve_model(l) matches Ok(c) && c.background.blur == match l.background.blur {
            Some(x) => x,
            None => RealModel { bits: 0, text: "0"@ },
        },
        resolve_model(l) matches Ok(c) && c.background.darken == match l.background.darken {
            Some(x) => x,
            None => RealModel { bits: 0, text: "0"@ },
        },
        resolve_model(l) matches Ok(c) && c.background.source == match (l.background.image, l.background.video) {
            (Some(i), None) => Some(SourceModel::Image(i)),
            (None, Some(v)) => Some(SourceModel::Video(v)),
            _ => None,
        },
        resolve_model(l) matches Ok(c) && c.text.enabled == match l.text.enabled {
            Some(x) => x,
            None => true,
        },
        resolve_model(l) matches Ok(c) && c.text.position == match l.text.position {
            Some(x) => x,
            None => Position::BottomLeft,
        },
        resolve_model(l) matches Ok(c) && c.text.in_at == match l.text.in_at {
            Some(x) => x@,
            None => 1_000_000_000u64,
        },
        resolve_model(l) matches Ok(c) && c.text.hold == match l.text.hold {
            Some(x) => x@,
            None => 6_000_000_000u64,
        },
        resolve_model(l) matches Ok(c) && c.text.fade == match l.text.fade {
            Some(x) => x@,
            None => 600_000_000u64,
        },
        resolve_model(l) matches Ok(c) && c.text.font == match l.text.font {
            Some(x) => x,
            None => FontModel::Auto,
        },
        resolve_model(l) matches Ok(c) && c.text.size == match l.text.size {
            Some(x) => x,
            None => RealModel { bits: 0x3fa9_9999_9999_999a, text: "0.05"@ },
        },
        resolve_model(l) matches Ok(c) && c.text.margin == match l.text.margin {
            Some(x) => x,
            None => RealModel { bits: 0x3fae_b851_eb85_1eb8, text: "0.06"@ },
        },
        resolve_model(l) matches Ok(c) && c.text.title == match l.text.title {
            Some(x) => Some(trim(x)),
            None => None,
        },
        resolve_model(l) matches Ok(c) && c.text.artist == match l.text.artist {
            Some(x) => Some(trim(x)),
            None => None,
        },
{
    assert(!(l.background.image is Some && l.background.video is Some));
}

} // verus!
