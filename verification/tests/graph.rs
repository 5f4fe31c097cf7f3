use breez::graph::{effective_system, filter_graph, secs};
use breez::media::{AudioClip, ExportConfig, MusicSource, SystemAudio};

fn config(system: Option<SystemAudio>, music: Vec<MusicSource>) -> ExportConfig {
    ExportConfig {
        width: 1920,
        height: 1080,
        fps: 30,
        crf: 23,
        system_audio: system,
        music,
    }
}

fn music(offset_ns: u64, audible_ns: u64) -> MusicSource {
    MusicSource {
        path: "m.mp3".into(),
        gain_millionths: 500_000,
        offset_ns,
        fade_in_ns: 500_000_000,
        fade_out_ns: 1_000_000_000,
        audible_ns,
    }
}

fn clip(src_in_ns: u64, src_out_ns: u64) -> AudioClip {
    AudioClip {
        src_in_ns,
        src_out_ns,
        speed_millionths: 1_000_000,
    }
}

fn system(clips: Vec<AudioClip>) -> SystemAudio {
    SystemAudio {
        path: "a.m4a".into(),
        gain_millionths: 1_000_000,
        clips,
    }
}

#[test]
fn graph_should_be_empty_without_any_audio() {
    assert_eq!(filter_graph(&config(None, Vec::new())), None);
}

#[test]
fn effective_system_should_drop_a_source_that_selects_no_clips() {
    assert!(effective_system(&config(Some(system(Vec::new())), Vec::new())).is_none());
    assert!(effective_system(&config(Some(system(vec![clip(0, 1)])), Vec::new())).is_some());
}

#[test]
fn music_should_be_numbered_against_the_inputs_that_are_actually_opened() {
    let g = filter_graph(&config(
        Some(system(Vec::new())),
        vec![music(0, 1_000_000_000)],
    ))
    .expect("graph");
    assert!(g.starts_with("[1:a]"));
}

#[test]
fn graph_should_be_empty_when_the_timeline_has_no_clips() {
    assert_eq!(
        filter_graph(&config(Some(system(Vec::new())), Vec::new())),
        None
    );
}

#[test]
fn graph_should_trim_and_concat_the_system_audio_clips() {
    let g = filter_graph(&config(
        Some(system(vec![
            clip(0, 2_000_000_000),
            clip(5_000_000_000, 6_000_000_000),
        ])),
        Vec::new(),
    ))
    .expect("graph");
    assert!(g.contains("[1:a]atrim=start=0.000000:end=2.000000,asetpts=PTS-STARTPTS[s0]"));
    assert!(g.contains("[1:a]atrim=start=5.000000:end=6.000000,asetpts=PTS-STARTPTS[s1]"));
    assert!(g.contains("[s0][s1]concat=n=2:v=0:a=1[sysraw]"));
}

#[test]
fn graph_should_apply_the_system_gain() {
    let g = filter_graph(&config(
        Some(system(vec![clip(0, 1_000_000_000)])),
        Vec::new(),
    ))
    .expect("graph");
    assert!(g.contains("[sysraw]volume=1.000000[sys]"));
}

#[test]
fn graph_should_delay_fade_and_scale_each_music_track() {
    let g = filter_graph(&config(None, vec![music(2_000_000_000, 10_000_000_000)])).expect("graph");
    assert!(g.contains("adelay=2000|2000:all=1"));
    assert!(g.contains("afade=t=in:st=2.000000:d=0.500000"));
    assert!(g.contains("afade=t=out:st=11.000000:d=1.000000"));
    assert!(g.contains("volume=0.500000"));
}

#[test]
fn graph_should_clamp_each_fade_to_the_audible_span_independently() {
    let g = filter_graph(&config(None, vec![music(0, 400_000_000)])).expect("graph");
    assert!(g.contains("afade=t=in:st=0.000000:d=0.400000"));
    assert!(g.contains("afade=t=out:st=0.000000:d=0.400000"));
}

#[test]
fn graph_should_not_delay_a_track_at_offset_zero() {
    let g = filter_graph(&config(None, vec![music(0, 1_000_000_000)])).expect("graph");
    assert!(!g.contains("adelay"));
}

#[test]
fn graph_should_mix_every_input_without_normalizing() {
    let g = filter_graph(&config(
        Some(system(vec![clip(0, 1_000_000_000)])),
        vec![music(0, 1_000_000_000)],
    ))
    .expect("graph");
    assert!(g.ends_with("[sys][m0]amix=inputs=2:normalize=0:dropout_transition=0[aout]"));
}

#[test]
fn graph_should_skip_the_mixer_for_a_single_input() {
    let g = filter_graph(&config(None, vec![music(0, 1_000_000_000)])).expect("graph");
    assert!(g.ends_with("[m0]anull[aout]"));
    assert!(!g.contains("amix"));
}

#[test]
fn graph_should_retime_a_sped_up_clip() {
    let g = filter_graph(&config(
        Some(system(vec![AudioClip {
            src_in_ns: 0,
            src_out_ns: 2_000_000_000,
            speed_millionths: 2_000_000,
        }])),
        Vec::new(),
    ))
    .expect("graph");
    assert!(g.contains("atempo=2.000000"));
}

#[test]
fn graph_should_chain_atempo_beyond_what_one_instance_accepts() {
    let g = filter_graph(&config(
        Some(system(vec![AudioClip {
            src_in_ns: 0,
            src_out_ns: 2_000_000_000,
            speed_millionths: 4_000_000,
        }])),
        Vec::new(),
    ))
    .expect("graph");
    assert_eq!(g.matches("atempo=2.000000").count(), 2);
}

#[test]
fn secs_should_round_to_the_nearest_microsecond() {
    assert_eq!(secs(0), "0.000000");
    assert_eq!(secs(2_000_000_000), "2.000000");
    assert_eq!(secs(1_234_567_499), "1.234567");
    assert_eq!(secs(1_234_567_500), "1.234568");
}

#[test]
fn graph_should_list_system_then_music_chains_in_input_order() {
    let g = filter_graph(&config(
        Some(system(vec![clip(0, 1_000_000_000)])),
        vec![music(0, 1_000_000_000), music(3_000_000_000, 1_000_000_000)],
    ))
    .expect("graph");
    let sys = g.find("[1:a]").expect("system input");
    let m0 = g.find("[2:a]").expect("first music input");
    let m1 = g.find("[3:a]").expect("second music input");
    assert!(sys < m0 && m0 < m1);
    assert!(g.contains("[m1]"));
    assert!(g.ends_with("[sys][m0][m1]amix=inputs=3:normalize=0:dropout_transition=0[aout]"));
}

#[test]
fn graph_should_slow_a_clip_in_steps_of_half_speed() {
    let g = filter_graph(&config(
        Some(system(vec![AudioClip {
            src_in_ns: 0,
            src_out_ns: 1_000_000_000,
            speed_millionths: 250_000,
        }])),
        Vec::new(),
    ))
    .expect("graph");
    assert_eq!(g.matches("atempo=0.500000").count(), 2);
}

#[test]
fn graph_should_leave_normal_speed_without_atempo() {
    let g = filter_graph(&config(Some(system(vec![clip(0, 1_000_000_000)])), Vec::new()))
        .expect("graph");
    assert!(!g.contains("atempo"));
}

fn one_clip_at(speed_millionths: u64) -> String {
    filter_graph(&config(
        Some(system(vec![AudioClip { src_in_ns: 0, src_out_ns: 1_000_000_000, speed_millionths }])),
        Vec::new(),
    ))
    .expect("graph")
}

#[test]
fn chained_steps_should_multiply_to_the_speed() {
    // 3x: 2x, then the remaining 1.5x.
    let g = one_clip_at(3_000_000);
    assert!(g.contains(",atempo=2.000000,atempo=1.500000["));
    // 0.3x: 0.5x, then the remaining 0.6x.
    let g = one_clip_at(300_000);
    assert!(g.contains(",atempo=0.500000,atempo=0.600000["));
    // Beyond 4x the chain still multiplies to the clamped 4x.
    let g = one_clip_at(9_000_000);
    assert!(g.contains(",atempo=2.000000,atempo=2.000000["));
}

#[test]
fn a_remainder_within_a_ten_thousandth_should_not_get_a_step() {
    // 0.49996x: after 0.5x what is left is 0.99992x, close enough to normal.
    let g = one_clip_at(499_960);
    assert_eq!(g.matches("atempo=").count(), 1);
    assert!(g.contains(",atempo=0.500000["));
}
