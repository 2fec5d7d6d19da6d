//! Every preset avz ships, in the order `avz presets` lists them.
//!
//! The shaders and parameter schemas live beside the renderer; this table is
//! what the rest of the program needs to know of them: the names a `--set`
//! shorthand and a `--preset` flag may use, and the line `avz presets` prints.

use vstd::prelude::*;

verus! {

/// A shipped preset's name and one-line description.
#[derive(Debug, Clone, Copy, PartialEq, Eq)]
pub struct PresetInfo {
    /// The name `--preset` takes.
    pub name: &'static str,
    /// What it draws, in one line.
    pub description: &'static str,
}

/// Every shipped preset as (name, description), in listing order.
pub open spec fn preset_table() -> Seq<(Seq<char>, Seq<char>)> {
    seq![
        ("pulse"@, "minimal, geometric: concentric rings driven by the kick"@),
        ("nebula"@, "organic clouds: an fbm flow field over feedback trails, churned by the bass"@),
        ("ribbons"@, "classic and reactive: a stack of ribbons displaced by the song's own spectrum"@),
        ("particles"@, "energetic: every hit throws a burst of sparks the highs make twinkle"@),
        ("kaleido"@, "symmetric and hypnotic: a mirrored fold that turns while the hue walks the palette"@),
        ("ink"@, "slow and brooding: a reaction-diffusion marble the loudness of the song grows"@),
        ("bars"@, "a spectrum analyzer in one corner: anchored bars over whatever is behind them"@),
        ("meter"@, "a VU meter in one spot: the loudness as an anchored ladder of LEDs"@),
        ("tunnel"@, "an endless ring tunnel flown at the speed of the song, every hit a lit gate"@),
        ("starfield"@, "a warp-speed starfield: loudness is velocity, and every hit streaks the sky"@),
        ("horizon"@, "a synthwave sunset: a scanlined sun over a perspective grid the kick pulses"@),
        ("aurora"@, "curtains of aurora light swaying with the bass, shimmered by the air band"@),
        ("scope"@, "an oscilloscope figure: a lissajous curve the bands bend and the beat brightens"@),
        ("rain"@, "spectral rain: each column falls at the loudness of its own band"@),
        ("tiles"@, "an equalizer wall of tiles: the spectrum lit floor to ceiling across the frame"@),
        ("orbits"@, "band planets on trails: five bodies orbiting, each swollen by its own band"@),
        ("stained"@, "stained glass lit from behind by the bands, re-leaded on every hit"@),
        ("strings"@, "harp strings across the frame, plucked by the hits and left to ring down"@),
        ("halo"@, "a soft glow breathing in a chosen corner, an accent over whatever is behind it"@),
        ("embers"@, "soft flames along the bottom edge, stoked by the kick, shedding embers"@),
        ("motes"@, "drifting dust, barely lit: the quietest preset, an atmosphere over a background"@),
        ("fireflies"@, "a few wandering lights that blink to themselves and flare gently on the hits"@),
        ("veil"@, "an inverse vignette: the frame's edges breathe light with the song"@),
    ]
}

/// The shipped presets' names, in listing order.
pub open spec fn preset_names() -> Seq<Seq<char>> {
    preset_table().map_values(|row: (Seq<char>, Seq<char>)| row.0)
}

/// Every shipped preset, in listing order.
pub fn presets() -> (v: Vec<PresetInfo>)
    ensures
        v@.map_values(|p: PresetInfo| (p.name@, p.description@)) == preset_table(),
{
    let v = vec![
        PresetInfo { name: "pulse", description: "minimal, geometric: concentric rings driven by the kick" },
        PresetInfo { name: "nebula", description: "organic clouds: an fbm flow field over feedback trails, churned by the bass" },
        PresetInfo { name: "ribbons", description: "classic and reactive: a stack of ribbons displaced by the song's own spectrum" },
        PresetInfo { name: "particles", description: "energetic: every hit throws a burst of sparks the highs make twinkle" },
        PresetInfo { name: "kaleido", description: "symmetric and hypnotic: a mirrored fold that turns while the hue walks the palette" },
        PresetInfo { name: "ink", description: "slow and brooding: a reaction-diffusion marble the loudness of the song grows" },
        PresetInfo { name: "bars", description: "a spectrum analyzer in one corner: anchored bars over whatever is behind them" },
        PresetInfo { name: "meter", description: "a VU meter in one spot: the loudness as an anchored ladder of LEDs" },
        PresetInfo { name: "tunnel", description: "an endless ring tunnel flown at the speed of the song, every hit a lit gate" },
        PresetInfo { name: "starfield", description: "a warp-speed starfield: loudness is velocity, and every hit streaks the sky" },
        PresetInfo { name: "horizon", description: "a synthwave sunset: a scanlined sun over a perspective grid the kick pulses" },
        PresetInfo { name: "aurora", description: "curtains of aurora light swaying with the bass, shimmered by the air band" },
        PresetInfo { name: "scope", description: "an oscilloscope figure: a lissajous curve the bands bend and the beat brightens" },
        PresetInfo { name: "rain", description: "spectral rain: each column falls at the loudness of its own band" },
        PresetInfo { name: "tiles", description: "an equalizer wall of tiles: the spectrum lit floor to ceiling across the frame" },
        PresetInfo { name: "orbits", description: "band planets on trails: five bodies orbiting, each swollen by its own band" },
        PresetInfo { name: "stained", description: "stained glass lit from behind by the bands, re-leaded on every hit" },
        PresetInfo { name: "strings", description: "harp strings across the frame, plucked by the hits and left to ring down" },
        PresetInfo { name: "halo", description: "a soft glow breathing in a chosen corner, an accent over whatever is behind it" },
        PresetInfo { name: "embers", description: "soft flames along the bottom edge, stoked by the kick, shedding embers" },
        PresetInfo { name: "motes", description: "drifting dust, barely lit: the quietest preset, an atmosphere over a background" },
        PresetInfo { name: "fireflies", description: "a few wandering lights that blink to themselves and flare gently on the hits" },
        PresetInfo { name: "veil", description: "an inverse vignette: the frame's edges breathe light with the song" },
    ];
    assert(v@.map_values(|p: PresetInfo| (p.name@, p.description@)) =~= preset_table());
    v
}

/// The shipped presets' names, in listing order.
pub fn names() -> (v: Vec<&'static str>)
    ensures
        v@.map_values(|s: &str| s@) == preset_names(),
{
    let all = presets();
    let ghost rows = all@.map_values(|p: PresetInfo| (p.name@, p.description@));
    let mut v: Vec<&'static str> = Vec::new();
    let mut i: usize = 0;
    while i < all.len()
        invariant
            i <= all@.len(),
            rows == all@.map_values(|p: PresetInfo| (p.name@, p.description@)),
            rows == preset_table(),
            v@.map_values(|s: &str| s@) == preset_names().subrange(0, i as int),
        decreases all.len() - i,
    {
        let ghost before = v@;
        v.push(all[i].name);
        assert(rows[i as int].0 == all@[i as int].name@);
        assert(v@.map_values(|s: &str| s@) =~= before.map_values(|s: &str| s@).push(
            all@[i as int].name@,
        ));
        assert(preset_names().subrange(0, i as int + 1) =~= preset_names().subrange(0, i as int).push(
            preset_names()[i as int],
        ));
        i = i + 1;
    }
    assert(preset_names().subrange(0, all@.len() as int) =~= preset_names());
    v
}

} // verus!
