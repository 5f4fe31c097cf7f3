//! ffmpeg audio filter graph for export.
//!
//! A linear fade in from each music track's offset and a linear fade out
//! anchored to the end of its audible span, each clamped to that span on its
//! own so the two multiply where they overlap, plus the system-audio gain and
//! the timeline's trims. Built as a pure string so it can be checked without
//! spawning ffmpeg.
//!
//! Input order is fixed by the exporter: `0:v` is the rawvideo pipe, `1:a`
//! is the system audio when present, and the music tracks follow in order.
use vstd::prelude::*;

use crate::media::{AudioClip, ExportConfig, MusicSource, SystemAudio};
use crate::text::{decimal, fixed6, push_decimal, push_fixed6};

verus! {

// ---------------------------------------------------------------------
// What the graph says, as text.
// ---------------------------------------------------------------------
/// The views of a list of strings.
pub open spec fn texts(v: Seq<String>) -> Seq<Seq<char>> {
    v.map_values(|s: String| s@)
}

/// Nanoseconds rounded to the nearest microsecond (halves round up).
pub open spec fn micros_of(ns: nat) -> nat {
    (ns + 500) / 1000
}

/// Seconds with exactly six decimals.
pub open spec fn secs_text(ns: nat) -> Seq<char> {
    fixed6(micros_of(ns))
}

/// `v` held between `lo` and `hi` (for `lo <= hi`).
pub open spec fn clamp(v: nat, lo: nat, hi: nat) -> nat {
    if v < lo {
        lo
    } else if v > hi {
        hi
    } else {
        v
    }
}

/// The speed ratio (in millionths) that the tempo chain retimes by: atempo
/// chains cover 0.25x to 4x.
pub open spec fn tempo_ratio(speed_millionths: nat) -> nat {
    clamp(speed_millionths, 250_000, 4_000_000)
}

/// Within 0.0001 of normal speed: nothing left to retime.
pub open spec fn tempo_settled(r: nat) -> bool {
    999_900 <= r <= 1_000_100
}

/// One atempo instance accepts 0.5x to 2x.
pub open spec fn tempo_step(r: nat) -> nat {
    clamp(r, 500_000, 2_000_000)
}

/// What remains to retime after one step, to the nearest millionth.
pub open spec fn tempo_rest(r: nat) -> nat {
    (r * 1_000_000 + tempo_step(r) / 2) / tempo_step(r)
}

/// How many steps are still to come.
pub open spec fn tempo_measure(r: nat) -> nat {
    if tempo_settled(r) {
        0
    } else if 500_000 <= r <= 2_000_000 {
        1
    } else {
        2
    }
}

/// The atempo steps that retime by `r`, in order.
pub open spec fn tempo_steps(r: nat) -> Seq<nat>
    decreases tempo_measure(r),
{
    if tempo_settled(r) || tempo_measure(tempo_rest(r)) >= tempo_measure(r) {
        Seq::empty()
    } else {
        seq![tempo_step(r)] + tempo_steps(tempo_rest(r))
    }
}

/// What a chain of steps retimes by altogether, in millionths.
pub open spec fn steps_product(steps: Seq<nat>) -> nat
    decreases steps.len(),
{
    if steps.len() == 0 {
        1_000_000
    } else {
        steps[0] * steps_product(steps.drop_first()) / 1_000_000
    }
}

/// What is left to retime once every step of the chain for `r` is taken.
pub open spec fn tempo_end(r: nat) -> nat
    decreases tempo_measure(r),
{
    if tempo_settled(r) || tempo_measure(tempo_rest(r)) >= tempo_measure(r) {
        r
    } else {
        tempo_end(tempo_rest(r))
    }
}

/// The atempo filters for a list of steps.
pub open spec fn steps_text(steps: Seq<nat>) -> Seq<char>
    decreases steps.len(),
{
    if steps.len() == 0 {
        Seq::empty()
    } else {
        ",atempo="@ + fixed6(steps[0]) + steps_text(steps.drop_first())
    }
}

/// Filters of one system-audio clip: trim it out of the take, restart its
/// timestamps, retime it.
pub open spec fn clip_filters_text(clip: AudioClip) -> Seq<char> {
    "atrim=start="@ + secs_text(clip.src_in_ns as nat) + ":end="@ + secs_text(
        clip.src_out_ns as nat,
    ) + ",asetpts=PTS-STARTPTS"@ + steps_text(
        tempo_steps(tempo_ratio(clip.speed_millionths as nat)),
    )
}

pub open spec fn clip_chain_text(input: nat, clip: AudioClip, index: nat) -> Seq<char> {
    "["@ + decimal(input) + ":a]"@ + clip_filters_text(clip) + "[s"@ + decimal(index) + "]"@
}

/// `[s0][s1]...` for the first `n` clips.
pub open spec fn clip_labels(n: nat) -> Seq<char>
    decreases n,
{
    if n == 0 {
        Seq::empty()
    } else {
        clip_labels((n - 1) as nat) + "[s"@ + decimal((n - 1) as nat) + "]"@
    }
}

pub open spec fn concat_chain_text(n: nat) -> Seq<char> {
    clip_labels(n) + "concat=n="@ + decimal(n) + ":v=0:a=1[sysraw]"@
}

pub open spec fn gain_chain_text(gain_millionths: nat) -> Seq<char> {
    "[sysraw]volume="@ + fixed6(gain_millionths) + "[sys]"@
}

/// One chain per clip, then their concatenation, then the gain.
pub open spec fn system_chain_texts(system: SystemAudio, input: nat) -> Seq<Seq<char>> {
    Seq::new(
        system.clips@.len(),
        |i: int| clip_chain_text(input, system.clips@[i], i as nat),
    ).push(concat_chain_text(system.clips@.len())).push(
        gain_chain_text(system.gain_millionths as nat),
    )
}

/// The fade-in length: the track's fade, clamped to its audible span.
pub open spec fn fade_in_len(track: MusicSource) -> nat {
    if track.fade_in_ns <= track.audible_ns {
        track.fade_in_ns as nat
    } else {
        track.audible_ns as nat
    }
}

/// The fade-out length: the track's fade, clamped to its audible span.
pub open spec fn fade_out_len(track: MusicSource) -> nat {
    if track.fade_out_ns <= track.audible_ns {
        track.fade_out_ns as nat
    } else {
        track.audible_ns as nat
    }
}

/// Where the fade-out starts on the timeline.
pub open spec fn fade_out_start(track: MusicSource) -> nat {
    (track.offset_ns + track.audible_ns - fade_out_len(track)) as nat
}

/// Whole milliseconds of delay before the track starts.
pub open spec fn delay_ms(track: MusicSource) -> nat {
    track.offset_ns as nat / 1_000_000
}

pub open spec fn delay_text(track: MusicSource) -> Seq<char> {
    if delay_ms(track) > 0 {
        ",adelay="@ + decimal(delay_ms(track)) + "|"@ + decimal(delay_ms(track)) + ":all=1"@
    } else {
        Seq::empty()
    }
}

pub open spec fn fade_in_text(track: MusicSource) -> Seq<char> {
    if fade_in_len(track) > 0 {
        ",afade=t=in:st="@ + secs_text(track.offset_ns as nat) + ":d="@ + secs_text(
            fade_in_len(track),
        )
    } else {
        Seq::empty()
    }
}

pub open spec fn fade_out_text(track: MusicSource) -> Seq<char> {
    if fade_out_len(track) > 0 {
        ",afade=t=out:st="@ + secs_text(fade_out_start(track)) + ":d="@ + secs_text(
            fade_out_len(track),
        )
    } else {
        Seq::empty()
    }
}

/// Delay a track to its offset, fade it, then scale it by its gain.
pub open spec fn music_chain_text(track: MusicSource, input: nat, index: nat) -> Seq<char> {
    "["@ + decimal(input) + ":a]atrim=end="@ + secs_text(track.audible_ns as nat)
        + ",asetpts=PTS-STARTPTS"@ + delay_text(track) + fade_in_text(track) + fade_out_text(
        track,
    ) + ",volume="@ + fixed6(track.gain_millionths as nat) + "[m"@ + decimal(index) + "]"@
}

/// The system audio an export actually opens: a source that selects no clip
/// contributes no input at all.
pub open spec fn effective_system_of(config: ExportConfig) -> Option<SystemAudio> {
    match config.system_audio {
        Some(system) => if system.clips@.len() > 0 {
            Some(system)
        } else {
            None
        },
        None => None,
    }
}

/// Number of inputs before the first music track: the video pipe, and the
/// system audio when it is opened.
pub open spec fn first_music_input(config: ExportConfig) -> nat {
    if effective_system_of(config) is Some {
        2
    } else {
        1
    }
}

pub open spec fn music_label(index: nat) -> Seq<char> {
    "[m"@ + decimal(index) + "]"@
}

pub open spec fn system_part(config: ExportConfig) -> Seq<Seq<char>> {
    match effective_system_of(config) {
        Some(system) => system_chain_texts(system, 1),
        None => Seq::empty(),
    }
}

pub open spec fn graph_chains(config: ExportConfig) -> Seq<Seq<char>> {
    system_part(config) + Seq::new(
        config.music@.len(),
        |i: int| music_chain_text(config.music@[i], first_music_input(config) + i as nat, i as nat),
    )
}

pub open spec fn system_label(config: ExportConfig) -> Seq<Seq<char>> {
    if effective_system_of(config) is Some {
        seq!["[sys]"@]
    } else {
        Seq::empty()
    }
}

pub open spec fn mix_labels(config: ExportConfig) -> Seq<Seq<char>> {
    system_label(config) + Seq::new(config.music@.len(), |i: int| music_label(i as nat))
}

/// The parts written one after another.
pub open spec fn concat_all(parts: Seq<Seq<char>>) -> Seq<char>
    decreases parts.len(),
{
    if parts.len() == 0 {
        Seq::empty()
    } else {
        concat_all(parts.drop_last()) + parts.last()
    }
}

/// The parts separated by `;`.
pub open spec fn join_semicolons(parts: Seq<Seq<char>>) -> Seq<char>
    decreases parts.len(),
{
    if parts.len() == 0 {
        Seq::empty()
    } else if parts.len() == 1 {
        parts[0]
    } else {
        join_semicolons(parts.drop_last()) + ";"@ + parts.last()
    }
}

/// The final mix, labelled `[aout]`: a lone source passes through `anull`,
/// several are mixed without normalizing.
pub open spec fn mix_text(labels: Seq<Seq<char>>) -> Seq<char> {
    if labels.len() == 1 {
        labels[0] + "anull[aout]"@
    } else {
        concat_all(labels) + "amix=inputs="@ + decimal(labels.len())
            + ":normalize=0:dropout_transition=0[aout]"@
    }
}

/// Whether the export has any audio at all.
pub open spec fn has_audio(config: ExportConfig) -> bool {
    effective_system_of(config) is Some || config.music@.len() > 0
}

/// The whole `-filter_complex` value.
pub open spec fn graph_text(config: ExportConfig) -> Seq<char> {
    join_semicolons(graph_chains(config)) + ";"@ + mix_text(mix_labels(config))
}

/// What building the graph needs of the numbers: input indices fit a `u32`
/// and no track's audible span runs past the end of time.
pub open spec fn graph_inputs_fit(config: ExportConfig) -> bool {
    &&& config.music@.len() + 2 <= u32::MAX
    &&& forall|i: int|
        0 <= i < config.music@.len() ==> #[trigger] config.music@[i].offset_ns
            + config.music@[i].audible_ns <= u64::MAX
}

// ---------------------------------------------------------------------
// Arithmetic facts about the tempo chain.
// ---------------------------------------------------------------------
/// One step brings any ratio between 0.25x and 4x one step closer to
/// normal speed, and the remainder stays in that range.
pub proof fn lemma_tempo_rest(r: nat)
    requires
        250_000 <= r <= 4_000_000,
        !tempo_settled(r),
    ensures
        250_000 <= tempo_rest(r) <= 4_000_000,
        tempo_measure(tempo_rest(r)) < tempo_measure(r),
        500_000 <= tempo_step(r) <= 2_000_000,
{
    let s = tempo_step(r);
    if r < 500_000 {
        assert(s == 500_000);
        assert((r * 1_000_000 + 250_000) / 500_000 == 2 * r) by (nonlinear_arith)
            requires
                r >= 0,
        ;
    } else if r > 2_000_000 {
        assert(s == 2_000_000);
        assert((r * 1_000_000 + 1_000_000) / 2_000_000 == (r + 1) / 2) by (nonlinear_arith)
            requires
                r >= 0,
        ;
    } else {
        assert(s == r);
        assert((r * 1_000_000 + r / 2) / r == 1_000_000) by (nonlinear_arith)
            requires
                r >= 500_000,
        ;
    }
}

pub proof fn lemma_tempo_steps_unfold(r: nat)
    requires
        250_000 <= r <= 4_000_000,
        !tempo_settled(r),
    ensures
        tempo_steps(r) == seq![tempo_step(r)] + tempo_steps(tempo_rest(r)),
{
    lemma_tempo_rest(r);
}

pub proof fn lemma_steps_product_unfold(s: nat, rest: Seq<nat>)
    ensures
        steps_product(seq![s] + rest) == s * steps_product(rest) / 1_000_000,
{
    assert((seq![s] + rest).drop_first() =~= rest);
}

pub proof fn lemma_steps_text_unfold(s: nat, rest: Seq<nat>)
    ensures
        steps_text(seq![s] + rest) == ",atempo="@ + fixed6(s) + steps_text(rest),
{
    assert((seq![s] + rest).drop_first() =~= rest);
}

// ---------------------------------------------------------------------
// Building the graph.
// ---------------------------------------------------------------------
/// Seconds at fixed precision. Never written in scientific notation, which
/// ffmpeg parses inconsistently across filters.
pub fn secs(ns: u64) -> (r: String)
    ensures
        r@ == secs_text(ns as nat),
{
    let micros = ns / 1000 + if ns % 1000 >= 500 {
        1
    } else {
        0
    };
    assert(micros == micros_of(ns as nat));
    let mut s = String::new();
    push_fixed6(&mut s, micros);
    assert(s@ =~= secs_text(ns as nat));
    s
}

/// The system audio input this export actually has, if any. The exporter
/// and [`filter_graph`] must agree on it, or the music chains would be
/// numbered against an input that was never opened.
pub fn effective_system(config: &ExportConfig) -> (r: Option<&SystemAudio>)
    ensures
        r is Some <==> effective_system_of(*config) is Some,
        r matches Some(s) ==> effective_system_of(*config) == Some(*s),
{
    match &config.system_audio {
        Some(system) => if system.clips.len() > 0 {
            Some(system)
        } else {
            None
        },
        None => None,
    }
}

/// Retime filters: atempo accepts only 0.5x to 2x per instance, so wider
/// ratios chain.
fn push_tempo(s: &mut String, speed_millionths: u64)
    ensures
        final(s)@ == old(s)@ + steps_text(tempo_steps(tempo_ratio(speed_millionths as nat))),
{
    let mut remaining: u64 = if speed_millionths < 250_000 {
        250_000
    } else if speed_millionths > 4_000_000 {
        4_000_000
    } else {
        speed_millionths
    };
    let ghost goal = old(s)@ + steps_text(tempo_steps(remaining as nat));
    while !(999_900 <= remaining && remaining <= 1_000_100)
        invariant
            250_000 <= remaining <= 4_000_000,
            s@ + steps_text(tempo_steps(remaining as nat)) == goal,
        decreases tempo_measure(remaining as nat),
    {
        let step: u64 = if remaining < 500_000 {
            500_000
        } else if remaining > 2_000_000 {
            2_000_000
        } else {
            remaining
        };
        proof {
            lemma_tempo_rest(remaining as nat);
            lemma_tempo_steps_unfold(remaining as nat);
            lemma_steps_text_unfold(step as nat, tempo_steps(tempo_rest(remaining as nat)));
        }
        let ghost before = s@;
        s.append(",atempo=");
        push_fixed6(s, step);
        let next = (remaining * 1_000_000 + step / 2) / step;
        assert(next == tempo_rest(remaining as nat));
        assert(before + steps_text(tempo_steps(remaining as nat)) =~= s@ + steps_text(
            tempo_steps(next as nat),
        ));
        remaining = next;
    }
    assert(tempo_steps(remaining as nat) == Seq::<nat>::empty());
    assert(steps_text(Seq::<nat>::empty()) == Seq::<char>::empty());
    assert(s@ =~= goal);
}

/// Trim a clip out of the take's audio, restart its timestamps, retime it.
#[verifier::spinoff_prover]
#[verifier::rlimit(30)]
pub fn clip_filters(clip: &AudioClip) -> (r: String)
    ensures
        r@ == clip_filters_text(*clip),
{
    let mut s = String::new();
    s.append("atrim=start=");
    s.append(secs(clip.src_in_ns).as_str());
    s.append(":end=");
    s.append(secs(clip.src_out_ns).as_str());
    s.append(",asetpts=PTS-STARTPTS");
    push_tempo(&mut s, clip.speed_millionths);
    assert(s@ =~= clip_filters_text(*clip));
    s
}

/// Trim each clip out of the take's audio, concat them in timeline order,
/// then apply the system gain.
#[verifier::spinoff_prover]
#[verifier::rlimit(30)]
pub fn system_chains(system: &SystemAudio, input: u32) -> (r: Vec<String>)
    ensures
        texts(r@) == system_chain_texts(*system, input as nat),
{
    let n = system.clips.len();
    let mut chains: Vec<String> = Vec::new();
    for i in 0..n
        invariant
            n == system.clips@.len(),
            texts(chains@) =~= Seq::new(
                i as nat,
                |j: int| clip_chain_text(input as nat, system.clips@[j], j as nat),
            ),
    {
        let mut chain = String::new();
        chain.append("[");
        push_decimal(&mut chain, input as u64);
        chain.append(":a]");
        chain.append(clip_filters(&system.clips[i]).as_str());
        chain.append("[s");
        push_decimal(&mut chain, i as u64);
        chain.append("]");
        assert(chain@ =~= clip_chain_text(input as nat, system.clips@[i as int], i as nat));
        let ghost before = chains@;
        chains.push(chain);
        assert(texts(chains@) =~= texts(before).push(chain@));
    }
    let mut joined = String::new();
    for i in 0..n
        invariant
            joined@ == clip_labels(i as nat),
    {
        let ghost before = joined@;
        joined.append("[s");
        push_decimal(&mut joined, i as u64);
        joined.append("]");
        assert(joined@ =~= clip_labels((i + 1) as nat));
    }
    joined.append("concat=n=");
    push_decimal(&mut joined, n as u64);
    joined.append(":v=0:a=1[sysraw]");
    assert(joined@ =~= concat_chain_text(n as nat));
    chains.push(joined);
    let mut gain = String::new();
    gain.append("[sysraw]volume=");
    push_fixed6(&mut gain, system.gain_millionths);
    gain.append("[sys]");
    assert(gain@ =~= gain_chain_text(system.gain_millionths as nat));
    chains.push(gain);
    assert(texts(chains@) =~= system_chain_texts(*system, input as nat));
    chains
}

fn push_delay(chain: &mut String, track: &MusicSource)
    ensures
        final(chain)@ == old(chain)@ + delay_text(*track),
{
    let delay = track.offset_ns / 1_000_000;
    if delay > 0 {
        chain.append(",adelay=");
        push_decimal(chain, delay);
        chain.append("|");
        push_decimal(chain, delay);
        chain.append(":all=1");
    }
    assert(chain@ =~= old(chain)@ + delay_text(*track));
}

fn push_fade_in(chain: &mut String, track: &MusicSource, fade_in: u64)
    requires
        fade_in == fade_in_len(*track),
    ensures
        final(chain)@ == old(chain)@ + fade_in_text(*track),
{
    if fade_in > 0 {
        chain.append(",afade=t=in:st=");
        chain.append(secs(track.offset_ns).as_str());
        chain.append(":d=");
        chain.append(secs(fade_in).as_str());
    }
    assert(chain@ =~= old(chain)@ + fade_in_text(*track));
}

fn push_fade_out(chain: &mut String, track: &MusicSource, fade_out: u64)
    requires
        fade_out == fade_out_len(*track),
        track.offset_ns + track.audible_ns <= u64::MAX,
    ensures
        final(chain)@ == old(chain)@ + fade_out_text(*track),
{
    if fade_out > 0 {
        chain.append(",afade=t=out:st=");
        chain.append(secs(track.offset_ns + track.audible_ns - fade_out).as_str());
        chain.append(":d=");
        chain.append(secs(fade_out).as_str());
    }
    assert(chain@ =~= old(chain)@ + fade_out_text(*track));
}

/// Delay the track to its offset, fade it, then scale it by its gain.
#[verifier::spinoff_prover]
#[verifier::rlimit(30)]
pub fn music_chain(track: &MusicSource, input: u32, index: usize) -> (r: String)
    requires
        track.offset_ns + track.audible_ns <= u64::MAX,
    ensures
        r@ == music_chain_text(*track, input as nat, index as nat),
{
    let audible = track.audible_ns;
    // Each fade is clamped to the span on its own; where they overlap, the
    // two afade filters multiply.
    let fade_in = if track.fade_in_ns <= audible {
        track.fade_in_ns
    } else {
        audible
    };
    let fade_out = if track.fade_out_ns <= audible {
        track.fade_out_ns
    } else {
        audible
    };

    let mut chain = String::new();
    chain.append("[");
    push_decimal(&mut chain, input as u64);
    chain.append(":a]atrim=end=");
    chain.append(secs(audible).as_str());
    chain.append(",asetpts=PTS-STARTPTS");
    push_delay(&mut chain, track);
    push_fade_in(&mut chain, track, fade_in);
    push_fade_out(&mut chain, track, fade_out);
    chain.append(",volume=");
    push_fixed6(&mut chain, track.gain_millionths);
    chain.append("[m");
    push_decimal(&mut chain, index as u64);
    chain.append("]");
    assert(chain@ =~= music_chain_text(*track, input as nat, index as nat));
    chain
}

/// The parts written one after another.
pub fn concat_strings(parts: &Vec<String>) -> (r: String)
    ensures
        r@ == concat_all(texts(parts@)),
{
    let mut s = String::new();
    for i in 0..parts.len()
        invariant
            s@ == concat_all(texts(parts@).take(i as int)),
    {
        assert(texts(parts@).take(i + 1).drop_last() =~= texts(parts@).take(i as int));
        s.append(parts[i].as_str());
    }
    assert(texts(parts@).take(parts@.len() as int) =~= texts(parts@));
    s
}

/// The parts separated by `;`.
pub fn join_semicolon_strings(parts: &Vec<String>) -> (r: String)
    ensures
        r@ == join_semicolons(texts(parts@)),
{
    let mut s = String::new();
    for i in 0..parts.len()
        invariant
            s@ == join_semicolons(texts(parts@).take(i as int)),
    {
        assert(texts(parts@).take(i + 1).drop_last() =~= texts(parts@).take(i as int));
        if i > 0 {
            s.append(";");
        } else {
            assert(texts(parts@).take(0) =~= Seq::<Seq<char>>::empty());
        }
        s.append(parts[i].as_str());
        assert(texts(parts@).take(i + 1).last() == parts@[i as int]@);
        if i == 0 {
            assert(texts(parts@).take(1)[0] == parts@[0]@);
            assert(s@ =~= join_semicolons(texts(parts@).take(1)));
        }
    }
    assert(texts(parts@).take(parts@.len() as int) =~= texts(parts@));
    s
}

/// Build the `-filter_complex` value, or `None` when the export has no audio
/// at all. The mixed result is always labelled `[aout]`.
#[verifier::spinoff_prover]
#[verifier::rlimit(30)]
pub fn filter_graph(config: &ExportConfig) -> (r: Option<String>)
    requires
        graph_inputs_fit(*config),
    ensures
        r is Some <==> has_audio(*config),
        r matches Some(g) ==> g@ == graph_text(*config),
{
    let system = effective_system(config);
    if system.is_none() && config.music.len() == 0 {
        return None;
    }
    let mut chains: Vec<String> = Vec::new();
    let mut labels: Vec<String> = Vec::new();
    let mut input: u32 = 1;

    if let Some(system) = system {
        let mut sys = system_chains(system, input);
        chains.append(&mut sys);
        labels.push(String::from_str("[sys]"));
        input = input + 1;
    }
    let ghost sys_chains = texts(chains@);
    let ghost sys_labels = texts(labels@);
    assert(sys_chains =~= system_part(*config));
    assert(sys_labels =~= system_label(*config));
    assert(input as nat == first_music_input(*config));
    let m = config.music.len();
    for index in 0..m
        invariant
            m == config.music@.len(),
            graph_inputs_fit(*config),
            input as nat == first_music_input(*config) + index,
            texts(chains@) =~= sys_chains + Seq::new(
                index as nat,
                |i: int|
                    music_chain_text(
                        config.music@[i],
                        first_music_input(*config) + i as nat,
                        i as nat,
                    ),
            ),
            texts(labels@) =~= sys_labels + Seq::new(index as nat, |i: int| music_label(i as nat)),
    {
        assert(config.music@[index as int].offset_ns + config.music@[index as int].audible_ns
            <= u64::MAX);
        let chain = music_chain(&config.music[index], input, index);
        let ghost before = chains@;
        chains.push(chain);
        assert(texts(chains@) =~= texts(before).push(chain@));
        let mut label = String::new();
        label.append("[m");
        push_decimal(&mut label, index as u64);
        label.append("]");
        assert(label@ =~= music_label(index as nat));
        let ghost before_labels = labels@;
        labels.push(label);
        assert(texts(labels@) =~= texts(before_labels).push(label@));
        input = input + 1;
    }
    assert(texts(chains@) =~= graph_chains(*config));
    assert(texts(labels@) =~= mix_labels(*config));

    let mut graph = join_semicolon_strings(&chains);
    graph.append(";");
    let ghost head = graph@;
    if labels.len() == 1 {
        // A lone source still needs the `[aout]` label the caller maps.
        graph.append(labels[0].as_str());
        graph.append("anull[aout]");
    } else {
        graph.append(concat_strings(&labels).as_str());
        graph.append("amix=inputs=");
        push_decimal(&mut graph, labels.len() as u64);
        graph.append(":normalize=0:dropout_transition=0[aout]");
    }
    assert(graph@ =~= head + mix_text(texts(labels@)));
    Some(graph)
}

// ---------------------------------------------------------------------
// Laws.
// ---------------------------------------------------------------------
/// Music track `i` reads input `1 + s + i`, where `s` is 1 exactly when a
/// system audio input is opened: the music chains are numbered against the
/// inputs the export actually opens, and each chain starts by naming its
/// input.
#[verifier::spinoff_prover]
#[verifier::rlimit(30)]
pub proof fn law_music_inputs_follow_opened_inputs(config: ExportConfig, i: int)
    requires
        0 <= i < config.music@.len(),
    ensures
        first_music_input(config) == 1 + if effective_system_of(config) is Some {
            1nat
        } else {
            0nat
        },
        graph_chains(config)[system_part(config).len() + i] == music_chain_text(
            config.music@[i],
            first_music_input(config) + i as nat,
            i as nat,
        ),
        music_chain_text(config.music@[i], first_music_input(config) + i as nat, i as nat).subrange(
            0,
            ("["@ + decimal(first_music_input(config) + i as nat) + ":a]"@).len() as int,
        ) == "["@ + decimal(first_music_input(config) + i as nat) + ":a]"@,
{
    let k = first_music_input(config) + i as nat;
    let head = "["@ + decimal(k) + ":a]"@;
    let text = music_chain_text(config.music@[i], k, i as nat);
    let track = config.music@[i];
    assert(text == head + ("atrim=end="@ + secs_text(track.audible_ns as nat)
        + ",asetpts=PTS-STARTPTS"@ + delay_text(track) + fade_in_text(track) + fade_out_text(
        track,
    ) + ",volume="@ + fixed6(track.gain_millionths as nat) + "[m"@ + decimal(i as nat) + "]"@))
        by {
        reveal_strlit(":a]atrim=end=");
        reveal_strlit(":a]");
        reveal_strlit("atrim=end=");
        assert(":a]atrim=end="@ =~= ":a]"@ + "atrim=end="@);
    }
    assert(text.subrange(0, head.len() as int) =~= head);
}

/// Whenever the export has audio, the graph's final output is labelled
/// `[aout]`, the label the exporter maps.
#[verifier::spinoff_prover]
#[verifier::rlimit(30)]
pub proof fn law_graph_output_is_aout(config: ExportConfig)
    requires
        has_audio(config),
    ensures
        graph_text(config).len() >= 6,
        graph_text(config).subrange(graph_text(config).len() - 6, graph_text(config).len() as int)
            == "[aout]"@,
{
    reveal_strlit("[aout]");
    reveal_strlit("anull[aout]");
    reveal_strlit(":normalize=0:dropout_transition=0[aout]");
    let labels = mix_labels(config);
    let g = graph_text(config);
    let tail = if labels.len() == 1 {
        "anull[aout]"@
    } else {
        ":normalize=0:dropout_transition=0[aout]"@
    };
    let front = if labels.len() == 1 {
        join_semicolons(graph_chains(config)) + ";"@ + labels[0]
    } else {
        join_semicolons(graph_chains(config)) + ";"@ + concat_all(labels) + "amix=inputs="@
            + decimal(labels.len())
    };
    assert(g =~= front + tail);
    assert(g.subrange(g.len() - 6, g.len() as int) =~= tail.subrange(
        tail.len() - 6,
        tail.len() as int,
    ));
    assert(tail.subrange(tail.len() - 6, tail.len() as int) =~= "[aout]"@);
}

/// The graph mixes exactly one label per opened audio input: the system
/// audio when it is opened, then every music track in order.
#[verifier::spinoff_prover]
#[verifier::rlimit(30)]
pub proof fn law_mix_covers_every_input(config: ExportConfig)
    ensures
        mix_labels(config).len() == first_music_input(config) - 1 + config.music@.len(),
        graph_chains(config).len() == system_part(config).len() + config.music@.len(),
        forall|i: int|
            0 <= i < config.music@.len() ==> #[trigger] mix_labels(config)[first_music_input(
                config,
            ) - 1 + i] == music_label(i as nat),
{
}

/// Each fade is clamped to the audible span on its own, and the fade-out
/// ends exactly where the audible span ends.
pub proof fn law_fades_stay_in_span(track: MusicSource)
    requires
        track.offset_ns + track.audible_ns <= u64::MAX,
    ensures
        fade_in_len(track) <= track.audible_ns,
        fade_out_len(track) <= track.audible_ns,
        fade_in_len(track) == track.fade_in_ns || fade_in_len(track) == track.audible_ns,
        fade_out_len(track) == track.fade_out_ns || fade_out_len(track) == track.audible_ns,
        fade_out_start(track) >= track.offset_ns,
        fade_out_start(track) + fade_out_len(track) == track.offset_ns + track.audible_ns,
{
}

/// Every atempo instance gets a ratio it accepts (0.5x to 2x), at most two
/// are chained, and a ratio one instance can take is taken in one step.
pub proof fn law_tempo_steps_in_range(speed_millionths: nat)
    ensures
        tempo_steps(tempo_ratio(speed_millionths)).len() <= 2,
        forall|i: int|
            0 <= i < tempo_steps(tempo_ratio(speed_millionths)).len() ==> 500_000
                <= #[trigger] tempo_steps(tempo_ratio(speed_millionths))[i] <= 2_000_000,
        (500_000 <= tempo_ratio(speed_millionths) <= 2_000_000 && !tempo_settled(
            tempo_ratio(speed_millionths),
        )) ==> tempo_steps(tempo_ratio(speed_millionths)) == seq![tempo_ratio(speed_millionths)],
        tempo_settled(tempo_ratio(speed_millionths)) ==> tempo_steps(
            tempo_ratio(speed_millionths),
        ).len() == 0,
{
    let r = tempo_ratio(speed_millionths);
    if !tempo_settled(r) {
        lemma_tempo_steps_unfold(r);
        lemma_tempo_rest(r);
        let r2 = tempo_rest(r);
        if !tempo_settled(r2) {
            lemma_tempo_steps_unfold(r2);
            lemma_tempo_rest(r2);
            let r3 = tempo_rest(r2);
            assert(tempo_measure(r3) == 0);
            assert(tempo_steps(r3) == Seq::<nat>::empty());
            assert(tempo_steps(r) =~= seq![tempo_step(r), tempo_step(r2)]);
        } else {
            assert(tempo_steps(r2) == Seq::<nat>::empty());
            assert(tempo_steps(r) =~= seq![tempo_step(r)]);
            if 500_000 <= r <= 2_000_000 {
                assert(tempo_step(r) == r);
            }
        }
        if 500_000 <= r <= 2_000_000 {
            assert(tempo_measure(r2) == 0);
        }
    }
}

/// The chained steps multiply to the clamped ratio: their product is within
/// a ten-thousandth of it (and one millionth of rounding), and what the chain
/// leaves unretimed is within a ten-thousandth of normal speed.
pub proof fn law_tempo_steps_multiply(speed_millionths: nat)
    ensures
        tempo_settled(tempo_end(tempo_ratio(speed_millionths))),
        steps_product(tempo_steps(tempo_ratio(speed_millionths))) <= tempo_ratio(speed_millionths)
            + tempo_ratio(speed_millionths) / 10_000 + 1,
        tempo_ratio(speed_millionths) <= steps_product(tempo_steps(tempo_ratio(speed_millionths)))
            + tempo_ratio(speed_millionths) / 10_000 + 1,
{
    let r = tempo_ratio(speed_millionths);
    let steps = tempo_steps(r);
    if tempo_settled(r) {
        assert(steps.len() == 0);
        assert(steps_product(steps) == 1_000_000);
    } else {
        lemma_tempo_steps_unfold(r);
        lemma_tempo_rest(r);
        let s1 = tempo_step(r);
        let r2 = tempo_rest(r);
        assert(tempo_end(r) == tempo_end(r2));
        if tempo_settled(r2) {
            assert(tempo_steps(r2) == Seq::<nat>::empty());
            assert(tempo_end(r2) == r2);
            assert(steps =~= seq![s1]);
            lemma_steps_product_unfold(s1, Seq::<nat>::empty());
            assert(steps_product(Seq::<nat>::empty()) == 1_000_000);
            assert(s1 * 1_000_000 / 1_000_000 == s1) by (nonlinear_arith);
            if r < 500_000 {
                assert(r2 == 2 * r) by (nonlinear_arith)
                    requires
                        r2 == (r * 1_000_000 + 250_000) / 500_000,
                ;
            } else if r > 2_000_000 {
                assert(r2 == (r + 1) / 2) by (nonlinear_arith)
                    requires
                        r2 == (r * 1_000_000 + 1_000_000) / 2_000_000,
                ;
            }
        } else {
            lemma_tempo_steps_unfold(r2);
            lemma_tempo_rest(r2);
            let s2 = tempo_step(r2);
            let r3 = tempo_rest(r2);
            assert(tempo_measure(r3) == 0);
            assert(tempo_steps(r3) == Seq::<nat>::empty());
            assert(tempo_end(r2) == tempo_end(r3));
            assert(tempo_end(r3) == r3);
            assert(tempo_steps(r2) =~= seq![s2]);
            lemma_steps_product_unfold(s2, Seq::<nat>::empty());
            assert(steps_product(Seq::<nat>::empty()) == 1_000_000);
            assert(s2 * 1_000_000 / 1_000_000 == s2) by (nonlinear_arith);
            lemma_steps_product_unfold(s1, tempo_steps(r2));
            assert(steps_product(steps) == s1 * s2 / 1_000_000);
            if r < 500_000 {
                assert(r2 == 2 * r) by (nonlinear_arith)
                    requires
                        r2 == (r * 1_000_000 + 250_000) / 500_000,
                ;
                assert(s2 == r2);
                assert(500_000 * (2 * r) / 1_000_000 == r) by (nonlinear_arith);
            } else if r > 2_000_000 {
                assert(r2 == (r + 1) / 2) by (nonlinear_arith)
                    requires
                        r2 == (r * 1_000_000 + 1_000_000) / 2_000_000,
                ;
                assert(s2 == r2);
                assert(2_000_000 * r2 / 1_000_000 == 2 * r2) by (nonlinear_arith);
            } else {
                assert(r2 == 1_000_000);
            }
        }
    }
}

/// The system audio is exported at the gain set for it: the last chain of
/// its part of the graph scales `[sysraw]` by the source's own gain, and in
/// the whole graph that chain comes right after the per-clip chains and
/// their concatenation.
pub proof fn law_system_gain_is_the_sources_own(config: ExportConfig, system: SystemAudio, input: nat)
    ensures
        system_chain_texts(system, input).last() == "[sysraw]volume="@ + fixed6(
            system.gain_millionths as nat,
        ) + "[sys]"@,
        effective_system_of(config) == Some(system) ==> graph_chains(config)[system.clips@.len()
            + 1int] == "[sysraw]volume="@ + fixed6(system.gain_millionths as nat) + "[sys]"@,
{
    let n: int = system.clips@.len() as int;
    assert(system_chain_texts(system, input).len() == n + 2);
    if effective_system_of(config) == Some(system) {
        assert(system_part(config) == system_chain_texts(system, 1));
        assert(graph_chains(config)[n + 1] == system_part(config)[n + 1]);
    }
}

} // verus!
