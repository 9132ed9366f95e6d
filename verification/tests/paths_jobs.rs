use wavbatch::jobs::{build_command, build_job, build_jobs, command_args, sort_names};
use wavbatch::paths::{join_path, stem, wav_destination};
use wavbatch::strutil::{contains_substr, str_eq, str_le};

#[test]
fn stem_drops_the_extension() {
    assert_eq!(stem("track.mp3"), "track");
    assert_eq!(stem("clip.MOV"), "clip");
}

#[test]
fn stem_keeps_a_name_without_extension() {
    assert_eq!(stem("noext"), "noext");
    assert_eq!(stem(""), "");
}

#[test]
fn stem_keeps_a_hidden_file_whole() {
    assert_eq!(stem(".hidden"), ".hidden");
}

#[test]
fn stem_takes_the_last_dot() {
    assert_eq!(stem("foo.tar.gz"), "foo.tar");
    assert_eq!(stem("foo."), "foo");
}

#[test]
fn destination_is_under_output_with_wav_extension() {
    assert_eq!(wav_destination("/in", "track.mp3"), "/in/output/track.wav");
    assert_eq!(wav_destination("/in", "clip.MOV"), "/in/output/clip.wav");
    assert_eq!(wav_destination("/in", "noext"), "/in/output/noext.wav");
    assert_eq!(wav_destination("/in", ".hidden"), "/in/output/.hidden.wav");
}

#[test]
fn join_uses_one_separator() {
    assert_eq!(join_path("/in", "a.mp3"), "/in/a.mp3");
}

#[test]
fn command_holds_the_fixed_flags_and_both_paths() {
    let c = build_command("/in/a.mp3", "/in/output/a.wav");
    assert_eq!(
        c,
        "-hide_banner -hwaccel auto -y -i \"/in/a.mp3\" -ac 1 -ar 8000 -sample_fmt s16 \"/in/output/a.wav\""
    );
}

#[test]
fn command_always_forces_overwrite() {
    let c = build_command("x", "y");
    assert!(c.contains(" -y "));
}

#[test]
fn the_argument_vector_matches_the_raw_string_token_for_token() {
    let args = command_args("/in/a file.mp3", "/in/output/a file.wav");
    assert_eq!(
        args,
        vec![
            "-hide_banner",
            "-hwaccel",
            "auto",
            "-y",
            "-i",
            "/in/a file.mp3",
            "-ac",
            "1",
            "-ar",
            "8000",
            "-sample_fmt",
            "s16",
            "/in/output/a file.wav",
        ]
    );
}

#[test]
fn string_order_is_lexicographic() {
    assert!(str_le("a", "b"));
    assert!(!str_le("b", "a"));
    assert!(str_le("abc", "abd"));
    assert!(str_le("ab", "abc"));
    assert!(!str_le("abc", "ab"));
    assert!(str_le("", "a"));
    assert!(str_le("A", "a"));
    assert!(str_le(".hidden", "a"));
}

#[test]
fn string_equality_compares_contents() {
    assert!(str_eq("abc", "abc"));
    assert!(!str_eq("abc", "abd"));
    assert!(!str_eq("abc", "ab"));
    assert!(str_eq("", ""));
}

#[test]
fn substring_search_finds_inner_runs() {
    assert!(contains_substr("ffmpeg-6.0-win64", "ffmpeg"));
    assert!(contains_substr("ffmpeg", "ffmpeg"));
    assert!(!contains_substr("ffprobe", "ffmpeg"));
    assert!(contains_substr("anything", ""));
    assert!(!contains_substr("", "a"));
}

#[test]
fn sorting_orders_names_and_keeps_them_all() {
    let names = vec![
        "b.mp3".to_string(),
        "a.mp3".to_string(),
        ".hidden".to_string(),
        "a.mp3".to_string(),
    ];
    let sorted = sort_names(names);
    assert_eq!(sorted, vec![".hidden", "a.mp3", "a.mp3", "b.mp3"]);
}

#[test]
fn one_job_is_built_from_dir_and_name() {
    let j = build_job("/in", "track.mp3");
    assert_eq!(j.name, "track.mp3");
    assert_eq!(j.source, "/in/track.mp3");
    assert_eq!(j.dest, "/in/output/track.wav");
    assert_eq!(
        j.command,
        "-hide_banner -hwaccel auto -y -i \"/in/track.mp3\" -ac 1 -ar 8000 -sample_fmt s16 \"/in/output/track.wav\""
    );
}

#[test]
fn jobs_cover_every_listed_file_in_name_order() {
    let names = vec![
        "b.mp3".to_string(),
        ".hidden".to_string(),
        "a.ogg".to_string(),
    ];
    let jobs = build_jobs("/in", names);
    assert_eq!(jobs.len(), 3);
    let got: Vec<&str> = jobs.iter().map(|j| j.name.as_str()).collect();
    assert_eq!(got, vec![".hidden", "a.ogg", "b.mp3"]);
    assert_eq!(jobs[1].source, "/in/a.ogg");
    assert_eq!(jobs[1].dest, "/in/output/a.wav");
}

#[test]
fn an_empty_listing_builds_no_jobs() {
    let jobs = build_jobs("/in", Vec::new());
    assert_eq!(jobs.len(), 0);
}

#[test]
fn building_twice_over_the_same_listing_repeats_the_jobs() {
    let names = || {
        vec![
            "z.wav".to_string(),
            "m.mp3".to_string(),
            "a.flac".to_string(),
        ]
    };
    let first = build_jobs("/in", names());
    let second = build_jobs("/in", names());
    assert_eq!(first.len(), second.len());
    for (a, b) in first.iter().zip(second.iter()) {
        assert_eq!(a.name, b.name);
        assert_eq!(a.source, b.source);
        assert_eq!(a.dest, b.dest);
        assert_eq!(a.command, b.command);
    }
}
